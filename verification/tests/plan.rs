use cargo_craft::helpers::{crate_name_from_path, package_name_from_string_or_path, path_to_entry_path};
use cargo_craft::tables::extend_table;
use cargo_craft::templates::{tera_context, tera_info};
use cargo_craft::{Craft, Error, Layout};
use toml::{Table, Value};

fn craft_at(at: &str) -> Craft {
    Craft {
        at: at.to_string(),
        package_name: None,
        version: "0.0.1".to_string(),
        dep: Vec::new(),
        cli: false,
        main: false,
        bin: Vec::new(),
        lib_path: None,
        bin_path: ".".to_string(),
        value_enum: false,
        subcommands: false,
        cli_barebones: false,
        verbose: false,
        quiet_add: false,
        offline: false,
        rollback: false,
        default_bin_name: "{{ crate_name }}".to_string(),
        add_error_type: Vec::new(),
        force: false,
        silent: false,
        started_at: "2024-01-01T00:00:00+00:00".to_string(),
        finished_at: None,
        runtime_errors: Vec::new(),
        description: None,
        script: false,
        subcommand_names: Vec::new(),
    }
}

fn craft_from_name(name: &str) -> Craft {
    let mut craft = craft_at(&format!("./tmp/test/{}", name));
    craft.version = "0.1.0".to_string();
    craft.cli = true;
    craft.quiet_add = true;
    craft.offline = true;
    craft.default_bin_name = name.to_string();
    craft.force = true;
    craft.finished_at = Some("2024-01-01T01:00:00+00:00".to_string());
    craft.script = true;
    craft
}

fn resolve(path: String) -> String {
    iocore::Path::raw(path).relative_to_cwd().to_string()
}

fn layout_of(craft: &Craft) -> Layout {
    let lib_path = resolve(craft.lib_path());
    let bin_path = resolve(craft.bin_path());
    let info = tera_info(craft, &lib_path);
    let rendered = tera::Tera::default()
        .render_str(&craft.default_bin_name, &info)
        .map_err(|e| Error::TemplateError(e.to_string()));
    craft.layout(lib_path, bin_path, rendered)
}

fn text(table: &Table, key: &str) -> String {
    match table.get(key) {
        Some(Value::String(s)) => s.clone(),
        other => panic!("{} holds {:?}", key, other),
    }
}

#[test]
fn test_craft_context() {
    let craft = craft_at("test-crate-name");
    assert_eq!(craft.crate_name(), "test-crate-name");
    assert_eq!(craft.package_name(), "test_crate_name");
    assert_eq!(craft.struct_name(), "TestCrateName");
    assert_eq!(craft.version(), "0.0.1");
    assert_eq!(craft.lib_path(), "test-crate-name");
}

#[test]
fn test_craft_paths() {
    let mut craft = craft_from_name("dummy9");
    craft.main = false;
    craft.dep = Vec::new();
    let layout = layout_of(&craft);

    assert_eq!(craft.project_path(), "./tmp/test/dummy9");
    assert_eq!(layout.lib_path, "dummy9");
    assert_eq!(layout.bin_path, "tmp/test/dummy9");
    assert_eq!(layout.default_bin_name, "dummy9");
    assert_eq!(craft.bin_names(&layout), vec!["dummy9"]);
}

#[test]
fn test_tera() {
    let mut craft = craft_from_name("dependencies");
    craft.dep = vec![
        "reqwest -Fblocking,deflate".to_string(),
        "k9 --dev".to_string(),
        "clap_builder --build".to_string(),
    ];
    let layout = layout_of(&craft);
    assert!(tera_context(&craft, &layout).is_ok());
}

#[test]
fn test_package_name_from_string_or_path() {
    assert_eq!(
        package_name_from_string_or_path(Some("package-name"), "path-to-package-name"),
        Ok("package_name".to_string())
    );
    assert_eq!(
        package_name_from_string_or_path(None, "package-name"),
        Ok("package_name".to_string())
    );
}

#[test]
fn explicit_package_name_beats_the_path() {
    let mut craft = craft_at("some/where/my-crate");
    assert_eq!(craft.package_name(), "my_crate");
    craft.package_name = Some("Other Name".to_string());
    assert_eq!(craft.package_name(), "other_name");
    assert_eq!(craft.crate_name(), "my-crate");
    assert_eq!(craft.struct_name(), "OtherName");
}

#[test]
fn crate_name_is_the_directory_name_without_extension() {
    assert_eq!(crate_name_from_path("a/b/My_Project.d"), Ok("my-project".to_string()));
    assert_eq!(crate_name_from_path("plain"), Ok("plain".to_string()));
    assert_eq!(crate_name_from_path("/abs/olute/Crate9/"), Ok("crate9".to_string()));
    assert_eq!(
        crate_name_from_path("a/b/My_Project.d"),
        crate_name_from_path("a/b/My_Project.d")
    );
}

#[test]
fn paths_below_the_project() {
    let craft = craft_at("./tmp/test/dummy9");
    assert_eq!(craft.path(), "./tmp/test/dummy9");
    assert_eq!(craft.path_to("src/lib.rs"), "./tmp/test/dummy9/src/lib.rs");
    assert_eq!(craft.manifest_path(), "./tmp/test/dummy9/Cargo.toml");
    assert_eq!(craft.path_to("/abs"), "/abs");
}

#[test]
fn library_path_follows_the_mode() {
    let mut craft = craft_at("proj");
    assert_eq!(craft.lib_path(), "proj");
    craft.lib_path = Some("My Lib".to_string());
    assert_eq!(craft.lib_path(), "my-lib");
    craft.main = true;
    assert_eq!(craft.lib_path(), "src");
    assert_eq!(craft.bin_path(), "src");
    assert!(craft.single_main_bin());
    assert!(craft.is_cli());
    craft.main = false;
    craft.cli_barebones = true;
    assert_eq!(craft.lib_path(), "src");
    craft.cli_barebones = false;
    craft.bin_path = "bins".to_string();
    assert_eq!(craft.bin_path(), "proj/bins");
    assert!(!craft.single_main_bin());
    assert!(!craft.is_cli());
}

#[test]
fn default_binary_is_added_unless_it_is_there() {
    let mut craft = craft_at("proj");
    let layout = Layout {
        lib_path: "proj".to_string(),
        bin_path: "proj".to_string(),
        default_bin_name: "tool".to_string(),
    };
    assert_eq!(craft.bin_names(&layout), vec!["tool"]);
    craft.bin = vec!["one".to_string(), "two".to_string()];
    assert_eq!(craft.bin_names(&layout), vec!["one", "two", "tool"]);
    craft.bin = vec!["one".to_string(), "proj".to_string()];
    assert_eq!(craft.bin_names(&layout), vec!["one", "proj", "tool"]);
    craft.bin = vec!["tool".to_string(), "one".to_string()];
    assert_eq!(craft.bin_names(&layout), vec!["tool", "one"]);
}

#[test]
fn default_binary_name_falls_back_to_the_crate_name() {
    let craft = craft_at("proj");
    assert_eq!(craft.default_bin_name(Ok("rendered".to_string())), "rendered");
    assert_eq!(
        craft.default_bin_name(Err(Error::TemplateError("broken".to_string()))),
        "proj"
    );
    let layout = craft.layout(
        "l".to_string(),
        "b".to_string(),
        Err(Error::TemplateError("broken".to_string())),
    );
    assert_eq!(
        layout,
        Layout {
            lib_path: "l".to_string(),
            bin_path: "b".to_string(),
            default_bin_name: "proj".to_string()
        }
    );
}

#[test]
fn options_of_targets() {
    let lib = Craft::lib_options();
    assert_eq!(lib.get("doctest"), Some(&Value::Boolean(false)));
    assert_eq!(lib.get("bench"), Some(&Value::Boolean(false)));
    assert_eq!(lib.len(), 2);
    let bin = Craft::bin_options();
    assert_eq!(bin.get("doctest"), Some(&Value::Boolean(false)));
    assert_eq!(bin.get("bench"), Some(&Value::Boolean(false)));
    assert_eq!(bin.get("doc"), Some(&Value::Boolean(false)));
    assert_eq!(bin.len(), 3);
}

#[test]
fn extend_table_prefers_the_first_argument() {
    let mut from = Table::new();
    from.insert("a".to_string(), Value::Integer(1));
    from.insert("b".to_string(), Value::String("from".to_string()));
    let mut into = Table::new();
    into.insert("b".to_string(), Value::String("into".to_string()));
    into.insert("c".to_string(), Value::Boolean(true));
    let extended = extend_table(&from, &into);
    assert_eq!(extended.get("a"), Some(&Value::Integer(1)));
    assert_eq!(extended.get("b"), Some(&Value::String("from".to_string())));
    assert_eq!(extended.get("c"), Some(&Value::Boolean(true)));
    assert_eq!(extended.len(), 3);
    assert_eq!(into.len(), 2);
}

#[test]
fn entry_of_a_library_file() {
    let craft = craft_at("my-crate");
    let layout = Layout {
        lib_path: "my-crate".to_string(),
        bin_path: "my-crate".to_string(),
        default_bin_name: "my-crate".to_string(),
    };
    let entry = craft.lib_entry(&layout, "lib.rs").unwrap();
    assert_eq!(text(&entry, "name"), "my_crate");
    assert_eq!(text(&entry, "path"), "my-crate/lib.rs");
    assert_eq!(entry.get("doctest"), Some(&Value::Boolean(false)));
    assert_eq!(entry.get("bench"), Some(&Value::Boolean(false)));
    assert_eq!(entry.get("doc"), Some(&Value::Boolean(false)));
    assert_eq!(entry.len(), 5);
    assert_eq!(path_to_entry_path(&Some(entry)), Some("my-crate/lib.rs".to_string()));
    assert_eq!(path_to_entry_path(&None), None);
    let mut odd = Table::new();
    odd.insert("path".to_string(), Value::Integer(3));
    assert_eq!(path_to_entry_path(&Some(odd)), None);
    assert_eq!(path_to_entry_path(&Some(Table::new())), None);
}

#[test]
fn entries_of_binaries() {
    let mut craft = craft_at("proj");
    craft.bin = vec!["cargo-proj".to_string(), "plain".to_string()];
    let layout = Layout {
        lib_path: "proj".to_string(),
        bin_path: "bins".to_string(),
        default_bin_name: "proj".to_string(),
    };
    let entries = craft.bin_entries(&layout);
    assert_eq!(entries.len(), 3);
    assert_eq!(entries[0].get("index"), Some(&Value::Integer(0)));
    assert_eq!(text(&entries[0], "name"), "cargo-proj");
    assert_eq!(entries[0].get("is_cargo"), Some(&Value::Boolean(true)));
    assert_eq!(text(&entries[0], "cargo_subcommand"), "proj");
    assert_eq!(text(&entries[0], "path"), "bins/cargo-proj.rs");
    assert_eq!(entries[0].get("doc"), Some(&Value::Boolean(false)));
    assert_eq!(entries[0].len(), 8);
    assert_eq!(entries[1].get("index"), Some(&Value::Integer(1)));
    assert_eq!(entries[1].get("is_cargo"), Some(&Value::Boolean(false)));
    assert_eq!(entries[1].get("cargo_subcommand"), Some(&Value::Boolean(false)));
    assert_eq!(text(&entries[1], "path"), "bins/plain.rs");
    assert_eq!(entries[2].get("index"), Some(&Value::Integer(2)));
}

#[test]
fn the_one_binary_of_a_main_project_is_main_rs() {
    let mut craft = craft_at("proj");
    craft.main = true;
    let layout = Layout {
        lib_path: "src".to_string(),
        bin_path: "src".to_string(),
        default_bin_name: "proj".to_string(),
    };
    let entries = craft.bin_entries(&layout);
    assert_eq!(entries.len(), 1);
    assert_eq!(text(&entries[0], "name"), "proj");
    assert_eq!(text(&entries[0], "path"), "src/main.rs");
    craft.bin = vec!["other".to_string()];
    let entries = craft.bin_entries(&layout);
    assert_eq!(entries.len(), 2);
    assert_eq!(text(&entries[0], "path"), "src/other.rs");
    assert_eq!(text(&entries[1], "path"), "src/proj.rs");
}

#[test]
fn entries_of_auxiliary_files() {
    let craft = craft_at("proj");
    let entries = craft.git_entries();
    let names: Vec<String> = entries.iter().map(|e| text(e, "name")).collect();
    assert_eq!(names, vec![".gitignore", ".rustfmt.toml", "rust-toolchain.toml", "README.md"]);
    let paths: Vec<String> = entries.iter().map(|e| text(e, "path")).collect();
    assert_eq!(
        paths,
        vec![
            "proj/.gitignore",
            "proj/.rustfmt.toml",
            "proj/rust-toolchain.toml",
            "proj/README.md"
        ]
    );
    assert!(entries.iter().all(|e| e.len() == 2));
}

fn templates_of(craft: &Craft, layout: &Layout) -> Vec<String> {
    craft.render_templates(layout).into_iter().map(|p| p.template).collect()
}

#[test]
fn standard_plan_without_command_line_interface() {
    let craft = craft_at("proj");
    let layout = Layout {
        lib_path: "proj".to_string(),
        bin_path: "proj".to_string(),
        default_bin_name: "proj".to_string(),
    };
    assert_eq!(
        templates_of(&craft, &layout),
        vec![
            "lib.rs",
            "dispatch.rs",
            "{{package_name}}.rs",
            "errors.rs",
            ".gitignore",
            ".rustfmt.toml",
            "rust-toolchain.toml",
            "README.md"
        ]
    );
    let plan = craft.render_templates(&layout);
    let targets: Vec<Vec<String>> = plan.iter().map(|p| craft.write_targets(&p.targets)).collect();
    assert_eq!(
        targets,
        vec![
            vec!["proj/proj/lib.rs"],
            vec!["proj/proj/dispatch.rs"],
            vec!["proj/proj/proj.rs"],
            vec!["proj/proj/errors.rs"],
            vec!["proj/proj/.gitignore"],
            vec!["proj/proj/.rustfmt.toml"],
            vec!["proj/proj/rust-toolchain.toml"],
            vec!["proj/proj/README.md"],
        ]
    );
}

#[test]
fn standard_plan_with_command_line_interface() {
    let mut craft = craft_at("proj");
    craft.cli = true;
    craft.bin = vec!["extra".to_string()];
    let layout = Layout {
        lib_path: "proj".to_string(),
        bin_path: "bins".to_string(),
        default_bin_name: "proj".to_string(),
    };
    assert_eq!(
        templates_of(&craft, &layout),
        vec![
            "lib.rs",
            "dispatch.rs",
            "{{package_name}}.rs",
            "errors.rs",
            "cli",
            ".gitignore",
            ".rustfmt.toml",
            "rust-toolchain.toml",
            "README.md"
        ]
    );
    let plan = craft.render_templates(&layout);
    assert_eq!(plan[4].targets.len(), 2);
    assert_eq!(
        craft.write_targets(&plan[4].targets),
        vec!["proj/bins/extra.rs", "proj/bins/proj.rs"]
    );
}

#[test]
fn bare_plan_is_two_files_and_the_auxiliary_ones() {
    let mut craft = craft_at("proj");
    craft.cli = true;
    craft.cli_barebones = true;
    let layout = Layout {
        lib_path: "src".to_string(),
        bin_path: "src".to_string(),
        default_bin_name: "proj".to_string(),
    };
    assert_eq!(
        templates_of(&craft, &layout),
        vec![
            "bare.main.rs",
            "bare.mod.cli.rs",
            ".gitignore",
            ".rustfmt.toml",
            "rust-toolchain.toml",
            "README.md"
        ]
    );
    let plan = craft.render_templates(&layout);
    assert_eq!(craft.write_targets(&plan[0].targets), vec!["proj/src/main.rs"]);
    assert_eq!(craft.write_targets(&plan[1].targets), vec!["proj/src/cli.rs"]);
}

#[test]
fn planning_twice_gives_the_same_plan() {
    let mut craft = craft_from_name("dummy9");
    craft.bin = vec!["cargo-dummy".to_string()];
    let layout = layout_of(&craft);
    let first = craft.render_templates(&layout);
    let second = craft.clone().render_templates(&layout.clone());
    assert_eq!(first.len(), second.len());
    for (a, b) in first.iter().zip(second.iter()) {
        assert_eq!(a.template, b.template);
        assert_eq!(a.targets, b.targets);
    }
    assert!(!iocore::Path::raw("./tmp/test/dummy9").exists());
}

#[test]
fn what_is_rendered_and_written() {
    let mut craft = craft_at("proj");
    craft.cli = true;
    let layout = Layout {
        lib_path: "proj".to_string(),
        bin_path: "bins".to_string(),
        default_bin_name: "proj".to_string(),
    };
    let writings = craft.render_and_write_templates(&layout);
    let templates: Vec<&str> = writings.iter().map(|w| w.template.as_str()).collect();
    assert_eq!(
        templates,
        vec![
            "lib.rs",
            "dispatch.rs",
            "{{package_name}}.rs",
            "errors.rs",
            "cli",
            ".gitignore",
            ".rustfmt.toml",
            "rust-toolchain.toml",
            "README.md"
        ]
    );
    assert_eq!(writings[0].paths, vec!["proj/proj/lib.rs"]);
    assert_eq!(writings[4].paths, vec!["proj/bins/proj.rs"]);
    assert_eq!(writings[8].paths, vec!["proj/proj/README.md"]);
    assert_eq!(
        Craft::write_failure("proj/src/lib.rs", "disk full").to_string(),
        "IOError: error writing proj/src/lib.rs: disk full"
    );
}

#[test]
fn write_targets_skips_entries_without_a_path() {
    let craft = craft_at("proj");
    let mut with_path = Table::new();
    with_path.insert("path".to_string(), Value::String("a/b.rs".to_string()));
    let mut without = Table::new();
    without.insert("name".to_string(), Value::String("x".to_string()));
    let targets = vec![None, Some(without), Some(with_path)];
    assert_eq!(craft.write_targets(&targets), vec!["proj/a/b.rs"]);
    assert_eq!(craft.write_targets(&Vec::new()), Vec::<String>::new());
}

#[test]
fn subcommands_default_to_hello() {
    let mut craft = craft_at("proj");
    assert_eq!(craft.subcommand_names(), vec!["Hello"]);
    craft.subcommand_names = vec!["list_all".to_string(), "run".to_string()];
    assert_eq!(craft.subcommand_names(), vec!["List_all", "Run"]);
}

#[test]
fn context_of_names() {
    let mut craft = craft_at("cargo-thing");
    craft.description = Some("A thing".to_string());
    craft.cli = true;
    let context = tera_info(&craft, "cargo-thing").into_json();
    assert_eq!(context["crate_name"], "cargo-thing");
    assert_eq!(context["is_cargo_command"], true);
    assert_eq!(context["crate_version"], "0.0.1");
    assert_eq!(context["package_name"], "cargo_thing");
    assert_eq!(context["package_description"], "A thing");
    assert_eq!(context["struct_name"], "CargoThing");
    assert_eq!(context["craft_lib"], true);
    assert_eq!(context["craft_cli"], true);
    assert_eq!(context["crate_path"], "cargo-thing");
    assert_eq!(context["lib_path"], "cargo-thing");
    assert_eq!(context.as_object().unwrap().len(), 10);
    let plain = tera_info(&craft_at("plain"), "plain").into_json();
    assert_eq!(plain["is_cargo_command"], false);
    assert_eq!(plain["package_description"], "");
    assert_eq!(plain["craft_cli"], false);
}

#[test]
fn full_context() {
    let mut craft = craft_at("proj");
    craft.cli = true;
    craft.value_enum = true;
    craft.dep = vec!["reqwest -Fblocking".to_string()];
    craft.subcommand_names = vec!["run".to_string()];
    let layout = Layout {
        lib_path: "proj".to_string(),
        bin_path: "bins".to_string(),
        default_bin_name: "proj".to_string(),
    };
    let context = tera_context(&craft, &layout).unwrap().into_json();
    assert_eq!(context.as_object().unwrap().len(), 17);
    assert_eq!(context["crate_binaries"][0]["name"], "proj");
    assert_eq!(context["crate_binaries"][0]["path"], "bins/proj.rs");
    assert_eq!(context["crate_binaries"][0]["index"], 0);
    assert_eq!(context["crate_lib"]["path"], "proj/lib.rs");
    assert_eq!(context["crate_lib"]["name"], "proj");
    assert_eq!(context["craft_value_enum"], true);
    assert_eq!(context["craft_subcommands"], true);
    assert_eq!(context["subcommands"][0]["name"], "Run");
    assert_eq!(context["subcommands"][0]["lowercase"], "run");
    assert_eq!(context["subcommands"][0]["uppercase"], "RUN");
    assert_eq!(context["subcommands"][0]["pascalcase"], "Run");
    assert_eq!(context["craft_dependencies"][0]["name"], "reqwest");
    assert_eq!(context["craft_dependencies"][0]["features"][0], "blocking");
    assert_eq!(context["craft_dependencies"][0]["pascal_case"], "Reqwest");
    assert_eq!(context["craft_errors"]["Ok"][0], "Reqwest");
}

#[test]
fn full_context_needs_readable_dependencies() {
    let mut craft = craft_at("proj");
    craft.dep = vec!["--dev".to_string()];
    let layout = Layout {
        lib_path: "proj".to_string(),
        bin_path: "proj".to_string(),
        default_bin_name: "proj".to_string(),
    };
    assert_eq!(
        tera_context(&craft, &layout).unwrap_err(),
        Error::ParseError(
            "the following required arguments were not provided: <NAME>".to_string()
        )
    );
}

#[test]
fn default_binary_name_is_rendered_from_the_names() {
    let craft = craft_at("some/dir/My Tool");
    let layout = layout_of(&craft);
    assert_eq!(layout.default_bin_name, "my-tool");
    assert_eq!(craft.bin_names(&layout), vec!["my-tool"]);
}
