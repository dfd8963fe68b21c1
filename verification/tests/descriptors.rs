use cargo_craft::{Craft, Dependency, DependencyFault, Error};

fn craft_from_name(name: &str) -> Craft {
    Craft {
        at: format!("./tmp/test/{}", name),
        package_name: None,
        version: "0.1.0".to_string(),
        dep: Vec::new(),
        cli: true,
        main: false,
        bin: Vec::new(),
        lib_path: None,
        bin_path: ".".to_string(),
        value_enum: false,
        subcommands: false,
        cli_barebones: false,
        verbose: false,
        quiet_add: true,
        offline: true,
        rollback: false,
        default_bin_name: name.to_string(),
        add_error_type: Vec::new(),
        force: true,
        silent: false,
        started_at: "2024-01-01T00:00:00+00:00".to_string(),
        finished_at: Some("2024-01-01T01:00:00+00:00".to_string()),
        runtime_errors: Vec::new(),
        description: None,
        script: true,
        subcommand_names: Vec::new(),
    }
}

#[test]
fn test_craft_dependencies_with_features_string() {
    let mut craft = craft_from_name("dependencies");
    craft.dep = vec![
        "reqwest -Fblocking,deflate".to_string(),
        "k9 --dev".to_string(),
        "clap_builder --build".to_string(),
    ];

    let dependencies = craft.deps().unwrap();
    assert_eq!(
        dependencies,
        vec![
            Dependency {
                name: "reqwest".to_string(),
                features: Some("blocking,deflate".to_string()),
                dev: false,
                build: false,
                optional: false,
            },
            Dependency {
                name: "k9".to_string(),
                features: None,
                dev: true,
                build: false,
                optional: false,
            },
            Dependency {
                name: "clap-builder".to_string(),
                features: None,
                dev: false,
                build: true,
                optional: false,
            }
        ]
    );

    assert_eq!(dependencies[0].pascal_name(), "Reqwest");
    assert_eq!(dependencies[1].pascal_name(), "K9");
    assert_eq!(dependencies[2].pascal_name(), "ClapBuilder");
}

#[test]
fn features_can_be_given_in_five_ways() {
    for raw in [
        "serde -F derive,rc",
        "serde -Fderive,rc",
        "serde -F=derive,rc",
        "serde --features derive,rc",
        "serde --features=derive,rc",
        "-Fderive,rc serde",
        "  serde    -F   derive,rc  ",
    ] {
        let dep = Dependency::parse(raw).unwrap();
        assert_eq!(dep.name, "serde", "{}", raw);
        assert_eq!(dep.features, Some("derive,rc".to_string()), "{}", raw);
        assert_eq!(dep.features(), vec!["derive".to_string(), "rc".to_string()]);
        assert!(!dep.dev && !dep.build && !dep.optional);
    }
}

#[test]
fn flags_are_read_in_any_order() {
    let dep = Dependency::parse("--optional tokio --build").unwrap();
    assert_eq!(dep.name, "tokio");
    assert!(dep.optional && dep.build && !dep.dev);
    assert_eq!(dep.features, None);
    assert_eq!(dep.features(), Vec::<String>::new());
}

#[test]
fn dev_and_build_exclude_each_other() {
    assert_eq!(Dependency::parse("k9 --dev --build"), Err(DependencyFault::Conflict));
    assert_eq!(Dependency::parse("--build --dev k9"), Err(DependencyFault::Conflict));
}

#[test]
fn a_name_is_required_and_must_be_valid() {
    assert_eq!(Dependency::parse("--dev"), Err(DependencyFault::MissingName));
    assert_eq!(Dependency::parse(""), Err(DependencyFault::MissingName));
    assert_eq!(
        Dependency::parse("x"),
        Err(DependencyFault::InvalidName("\"x\" is not a valid crate name".to_string()))
    );
    assert_eq!(
        Dependency::parse("123"),
        Err(DependencyFault::InvalidName("\"123\" is not a valid crate name".to_string()))
    );
}

#[test]
fn what_the_grammar_has_no_place_for_is_refused() {
    assert_eq!(
        Dependency::parse("serde tokio"),
        Err(DependencyFault::UnexpectedArgument("tokio".to_string()))
    );
    assert_eq!(
        Dependency::parse("serde --fast"),
        Err(DependencyFault::UnexpectedArgument("--fast".to_string()))
    );
    assert_eq!(
        Dependency::parse("serde --dev --dev"),
        Err(DependencyFault::Repeated("--dev".to_string()))
    );
    assert_eq!(
        Dependency::parse("serde -Fa -Fb"),
        Err(DependencyFault::Repeated("-Fb".to_string()))
    );
    assert_eq!(Dependency::parse("serde -F"), Err(DependencyFault::MissingValue));
    assert_eq!(Dependency::parse("serde -F --dev"), Err(DependencyFault::MissingValue));
}

#[test]
fn after_two_dashes_only_a_name_is_read() {
    let dep = Dependency::parse("--dev -- serde").unwrap();
    assert_eq!(dep.name, "serde");
    assert!(dep.dev);
    let dep = Dependency::parse("-- --dev").unwrap();
    assert_eq!(dep.name, "dev");
    assert!(!dep.dev);
    assert_eq!(
        Dependency::parse("-- --"),
        Err(DependencyFault::InvalidName("\"--\" is not a valid crate name".to_string()))
    );
}

#[test]
fn parse_tokens_reads_what_parse_reads() {
    let tokens = vec!["reqwest".to_string(), "-F".to_string(), "blocking".to_string()];
    assert_eq!(Dependency::parse_tokens(&tokens), Dependency::parse("reqwest -F blocking"));
}

#[test]
fn command_fragment_has_a_fixed_order() {
    let dep = Dependency {
        name: "reqwest".to_string(),
        features: Some("blocking,deflate".to_string()),
        dev: false,
        build: false,
        optional: false,
    };
    assert_eq!(dep.to_string(), "reqwest -Fblocking,deflate");
    let dep = Dependency {
        name: "k9".to_string(),
        features: None,
        dev: true,
        build: false,
        optional: true,
    };
    assert_eq!(dep.to_string(), "k9 --dev --optional");
    let dep = Dependency {
        name: "cc".to_string(),
        features: Some(" , ,".to_string()),
        dev: false,
        build: true,
        optional: false,
    };
    assert_eq!(dep.to_string(), "cc --build");
    let dep = Dependency {
        name: "all".to_string(),
        features: Some("a, b".to_string()),
        dev: true,
        build: true,
        optional: true,
    };
    assert_eq!(dep.to_string(), "all --dev --build --optional -Fa, b");
}

#[test]
fn context_entry_of_a_dependency() {
    let dep = Dependency::parse("clap_builder --build -Fderive,env").unwrap();
    let table = dep.to_tera();
    assert_eq!(table.get("name"), Some(&toml::Value::String("clap-builder".to_string())));
    assert_eq!(
        table.get("package_name"),
        Some(&toml::Value::String("clap_builder".to_string()))
    );
    assert_eq!(
        table.get("pascal_case"),
        Some(&toml::Value::String("ClapBuilder".to_string()))
    );
    assert_eq!(
        table.get("features"),
        Some(&toml::Value::Array(vec![
            toml::Value::String("derive".to_string()),
            toml::Value::String("env".to_string()),
        ]))
    );
    assert_eq!(table.get("dev"), Some(&toml::Value::Boolean(false)));
    assert_eq!(table.get("build"), Some(&toml::Value::Boolean(true)));
    assert_eq!(table.len(), 6);
}

#[test]
fn a_bad_dependency_is_a_parse_error() {
    let mut craft = craft_from_name("dependencies");
    craft.dep = vec!["serde".to_string(), "k9 --dev --build".to_string(), "x".to_string()];
    assert_eq!(
        craft.deps(),
        Err(Error::ParseError(
            "the argument '--dev' cannot be used with '--build'".to_string()
        ))
    );
    assert_eq!(craft.error_types().unwrap_err().variant(), "ParseError");
}

#[test]
fn fault_messages() {
    assert_eq!(
        DependencyFault::UnexpectedArgument("--x".to_string()).message(),
        "unexpected argument '--x' found"
    );
    assert_eq!(
        DependencyFault::MissingValue.message(),
        "a value is required for '--features <FEATURES>' but none was supplied"
    );
    assert_eq!(
        DependencyFault::Repeated("--dev".to_string()).message(),
        "the argument '--dev' cannot be used multiple times"
    );
    assert_eq!(
        DependencyFault::InvalidName("why".to_string()).message(),
        "invalid value for '<NAME>': why"
    );
    assert_eq!(
        DependencyFault::MissingName.message(),
        "the following required arguments were not provided: <NAME>"
    );
}

#[test]
fn error_types_come_from_dependencies() {
    let mut craft = craft_from_name("dependencies");
    craft.dep = vec!["reqwest".to_string(), "clap_builder".to_string()];
    craft.add_error_type = vec!["io".to_string()];
    assert_eq!(
        craft.error_types(),
        Ok(vec!["Reqwest".to_string(), "ClapBuilder".to_string()])
    );
}

#[test]
fn errors_print_their_kind_first() {
    let all = [
        (Error::ShellCommandError("a".to_string()), "ShellCommandError"),
        (Error::IOError("b".to_string()), "IOError"),
        (Error::SerializationError("c".to_string()), "SerializationError"),
        (Error::ParseError("d".to_string()), "ParseError"),
        (Error::TemplateError("e".to_string()), "TemplateError"),
        (Error::JsonError("f".to_string()), "JsonError"),
        (Error::RuntimeError("g".to_string()), "RuntimeError"),
    ];
    for (error, kind) in all {
        assert_eq!(error.variant(), kind);
    }
    assert_eq!(Error::IOError("disk full".to_string()).to_string(), "IOError: disk full");
    assert_eq!(Error::ParseError(String::new()).to_string(), "ParseError: ");
}

#[test]
fn what_is_written_is_read_back() {
    for raw in [
        "reqwest -Fblocking,deflate",
        "k9 --dev",
        "clap-builder --build --optional",
        "serde --dev --optional -Fderive",
        "tokio",
    ] {
        let dep = Dependency::parse(raw).unwrap();
        assert_eq!(dep.to_string(), raw);
        assert_eq!(Dependency::parse(&dep.to_string()), Ok(dep));
    }
    let untidy = Dependency {
        name: "serde".to_string(),
        features: Some(",derive,,rc,".to_string()),
        dev: false,
        build: false,
        optional: false,
    };
    let read = Dependency::parse(&untidy.to_string()).unwrap();
    assert_eq!(read.features, Some("derive,rc".to_string()));
    assert_eq!(read.features(), untidy.features());
}
