//! The context that templates are rendered against: what it holds for a
//! configuration, and the calls that fill a `tera::Context`.

use vstd::prelude::*;
use crate::cli::{
    bin_entries_fields, deps_of, error_types_of, lib_entry_fields, subcommands_of, Craft, Layout,
};
use crate::dependencies::{context_entry, fault_message, DependencyView};
use crate::errors::Error;
use crate::helpers::{pascal_of, to_pascal_case};
use crate::patterns::{regex_split_of, NON_WORD_RUN};
use crate::tables::{
    entry_fields, no_fields, push_table, table_new, table_set_text, tables_fields, Field,
};
use crate::text::{
    begins, begins_with, chars_of, copy_text, lowercase, lowered, uppercase, uppered,
};

verus! {

/// `tera::Context`, the mapping that templates are rendered against. It is
/// carried as it is; what it holds is named by `context_slots`.
#[verifier::external_type_specification]
#[verifier::external_body]
pub struct ExTeraContext(tera::Context);

/// A value in a context, read off the JSON value that the context keeps: a
/// string, a boolean, an object or null, or an array of objects. The values
/// inside an object are read as the values of a table are.
pub enum Slot {
    /// A string.
    Text(Seq<char>),
    /// A boolean.
    Flag(bool),
    /// An object with what it holds under each key, or null.
    Record(Option<Map<Seq<char>, Field>>),
    /// An array of objects.
    Records(Seq<Map<Seq<char>, Field>>),
}

/// What a context holds: the value under each of its keys.
pub uninterp spec fn context_slots(c: tera::Context) -> Map<Seq<char>, Slot>;

/// A context's contents when it holds nothing.
pub open spec fn no_slots() -> Map<Seq<char>, Slot> {
    Map::empty()
}

/// `tera::Context::new`: a context that holds nothing.
#[verifier::external_body]
pub(crate) fn context_new() -> (r: tera::Context)
    ensures
        context_slots(r) == no_slots(),
{
    tera::Context::new()
}

/// `tera::Context::insert` with a string: afterwards the context holds `val`
/// under `key`, and is otherwise as before.
#[verifier::external_body]
pub(crate) fn context_set_text(c: &mut tera::Context, key: &str, val: &str)
    ensures
        context_slots(*final(c)) == context_slots(*old(c)).insert(key@, Slot::Text(val@)),
{
    c.insert(key, val);
}

/// `tera::Context::insert` with a boolean: afterwards the context holds
/// `val` under `key`, and is otherwise as before.
#[verifier::external_body]
pub(crate) fn context_set_flag(c: &mut tera::Context, key: &str, val: bool)
    ensures
        context_slots(*final(c)) == context_slots(*old(c)).insert(key@, Slot::Flag(val)),
{
    c.insert(key, &val);
}

/// `tera::Context::insert` with a table that may be missing: afterwards the
/// context holds it under `key`, and is otherwise as before.
#[verifier::external_body]
pub(crate) fn context_set_record(c: &mut tera::Context, key: &str, val: &Option<toml::Table>)
    ensures
        context_slots(*final(c)) == context_slots(*old(c)).insert(
            key@,
            Slot::Record(entry_fields(*val)),
        ),
{
    c.insert(key, val);
}

/// `tera::Context::insert` with a list of tables: afterwards the context
/// holds the tables, in order, under `key`, and is otherwise as before.
#[verifier::external_body]
pub(crate) fn context_set_records(c: &mut tera::Context, key: &str, val: &Vec<toml::Table>)
    ensures
        context_slots(*final(c)) == context_slots(*old(c)).insert(
            key@,
            Slot::Records(tables_fields(val@)),
        ),
{
    c.insert(key, val);
}

/// What a list of strings is kept as when it is the good outcome of a
/// computation: an object that holds the list under the one key `Ok`.
pub open spec fn outcome_record(list: Seq<Seq<char>>) -> Map<Seq<char>, Field> {
    no_fields().insert("Ok"@, Field::Texts(list))
}

/// `tera::Context::insert` with a list of strings wrapped as `Ok`, which is
/// kept as an object with the list under the key `Ok`: afterwards the
/// context holds that object under `key`, and is otherwise as before.
#[verifier::external_body]
pub(crate) fn context_set_outcome(c: &mut tera::Context, key: &str, val: &Vec<String>)
    ensures
        context_slots(*final(c)) == context_slots(*old(c)).insert(
            key@,
            Slot::Record(Some(outcome_record(val.deep_view()))),
        ),
{
    c.insert(key, &Ok::<&Vec<String>, String>(val));
}

/// What the table of a subcommand holds: its name as it is, in lowercase, in
/// uppercase and in PascalCase.
pub open spec fn case_variants(name: Seq<char>) -> Map<Seq<char>, Field> {
    no_fields().insert("name"@, Field::Text(name)).insert(
        "lowercase"@,
        Field::Text(lowered(name)),
    ).insert("uppercase"@, Field::Text(uppered(name))).insert(
        "pascalcase"@,
        Field::Text(pascal_of(regex_split_of(NON_WORD_RUN@, name))),
    )
}

/// What the context of names holds for a configuration: the derived names,
/// the version and description, the two mode flags, and the two paths.
pub open spec fn info_slots(c: Craft, lib_path: Seq<char>) -> Map<Seq<char>, Slot> {
    no_slots().insert("crate_name"@, Slot::Text(c.spec_crate_name())).insert(
        "is_cargo_command"@,
        Slot::Flag(begins_with(c.spec_crate_name(), "cargo-"@)),
    ).insert("crate_version"@, Slot::Text(c.version@)).insert(
        "package_name"@,
        Slot::Text(c.spec_package_name()),
    ).insert(
        "package_description"@,
        Slot::Text(
            match c.description {
                Some(d) => d@,
                None => Seq::empty(),
            },
        ),
    ).insert("struct_name"@, Slot::Text(c.spec_struct_name())).insert(
        "craft_lib"@,
        Slot::Flag(true),
    ).insert("craft_cli"@, Slot::Flag(c.spec_is_cli())).insert(
        "crate_path"@,
        Slot::Text(c.at@),
    ).insert("lib_path"@, Slot::Text(lib_path))
}

/// What the full context holds for a configuration whose dependencies read
/// as `deps`: the context of names, and over it the binaries, the library,
/// the flags for value enum and subcommands, the subcommands, the
/// dependencies, and the error types as a good outcome.
pub open spec fn full_slots(c: Craft, layout: Layout, deps: Seq<DependencyView>) -> Map<
    Seq<char>,
    Slot,
> {
    info_slots(c, layout.lib_path@).insert(
        "crate_binaries"@,
        Slot::Records(
            bin_entries_fields(
                c.spec_bin_names(layout.default_bin_name@),
                c.spec_single_main_bin(),
                layout.bin_path@,
            ),
        ),
    ).insert(
        "crate_lib"@,
        Slot::Record(Some(lib_entry_fields(c.spec_package_name(), layout.lib_path@, "lib.rs"@))),
    ).insert("craft_value_enum"@, Slot::Flag(c.spec_is_cli() && c.value_enum)).insert(
        "craft_subcommands"@,
        Slot::Flag(true),
    ).insert(
        "subcommands"@,
        Slot::Records(
            subcommands_of(c.subcommand_names.deep_view()).map_values(
                |n: Seq<char>| case_variants(n),
            ),
        ),
    ).insert(
        "craft_dependencies"@,
        Slot::Records(deps.map_values(|d: DependencyView| context_entry(d))),
    ).insert(
        "craft_errors"@,
        Slot::Record(Some(outcome_record(error_types_of(deps, c.add_error_type.deep_view())))),
    )
}

/// The context of names: what a template may use before dependencies and
/// binaries are known. `lib_path` is the library's directory as resolved
/// against the working directory.
pub fn tera_info(craft: &Craft, lib_path: &str) -> (r: tera::Context)
    ensures
        context_slots(r) == info_slots(*craft, lib_path@),
{
    let mut context = context_new();
    let crate_name = craft.crate_name();
    context_set_text(&mut context, "crate_name", crate_name.as_str());
    let (is_cargo, _) = begins(&chars_of(crate_name.as_str()), "cargo-");
    context_set_flag(&mut context, "is_cargo_command", is_cargo);
    context_set_text(&mut context, "crate_version", craft.version().as_str());
    context_set_text(&mut context, "package_name", craft.package_name().as_str());
    match &craft.description {
        Some(d) => context_set_text(&mut context, "package_description", d.as_str()),
        None => {
            proof {
                reveal_strlit("");
                assert(""@ =~= Seq::<char>::empty());
            }
            context_set_text(&mut context, "package_description", "")
        },
    }
    context_set_text(&mut context, "struct_name", craft.struct_name().as_str());
    context_set_flag(&mut context, "craft_lib", true);
    context_set_flag(&mut context, "craft_cli", craft.is_cli());
    context_set_text(&mut context, "crate_path", craft.path().as_str());
    context_set_text(&mut context, "lib_path", lib_path);
    context
}

/// The full context that the templates are rendered against. It fails
/// exactly when a dependency cannot be read, with that fault as a
/// `ParseError`.
pub fn tera_context(craft: &Craft, layout: &Layout) -> (r: Result<tera::Context, Error>)
    ensures
        match r {
            Ok(context) => deps_of(craft.dep.deep_view()) is Ok && context_slots(context)
                == full_slots(*craft, *layout, deps_of(craft.dep.deep_view())->Ok_0),
            Err(e) => deps_of(craft.dep.deep_view()) is Err && e is ParseError && e.message()
                == fault_message(deps_of(craft.dep.deep_view())->Err_0),
        },
{
    let mut context = tera_info(craft, layout.lib_path.as_str());
    let names = craft.subcommand_names();
    let ghost wanted = subcommands_of(craft.subcommand_names.deep_view());
    let mut subcommands: Vec<toml::Table> = Vec::new();
    let mut i: usize = 0;
    proof {
        assert(tables_fields(subcommands@) =~= wanted.map_values(
            |n: Seq<char>| case_variants(n),
        ).take(0));
    }
    while i < names.len()
        invariant
            i <= names.len(),
            names.deep_view() == wanted,
            tables_fields(subcommands@) == wanted.map_values(
                |n: Seq<char>| case_variants(n),
            ).take(i as int),
        decreases names.len() - i,
    {
        let name = &names[i];
        let mut variants = table_new();
        table_set_text(&mut variants, "name", name.as_str());
        table_set_text(&mut variants, "lowercase", lowercase(name.as_str()).as_str());
        table_set_text(&mut variants, "uppercase", uppercase(name.as_str()).as_str());
        table_set_text(&mut variants, "pascalcase", to_pascal_case(name.as_str()).as_str());
        proof {
            let all = wanted.map_values(|n: Seq<char>| case_variants(n));
            assert(wanted[i as int] == name@);
            assert(all.take(i + 1) =~= all.take(i as int).push(all[i as int]));
        }
        push_table(&mut subcommands, variants);
        i = i + 1;
    }
    proof {
        let all = wanted.map_values(|n: Seq<char>| case_variants(n));
        assert(all.take(names.len() as int) =~= all);
    }
    context_set_records(&mut context, "crate_binaries", &craft.bin_entries(layout));
    context_set_record(&mut context, "crate_lib", &craft.lib_entry(layout, "lib.rs"));
    context_set_flag(&mut context, "craft_value_enum", craft.is_cli() && craft.value_enum);
    context_set_flag(&mut context, "craft_subcommands", subcommands.len() > 0);
    context_set_records(&mut context, "subcommands", &subcommands);
    let deps = match craft.deps() {
        Ok(ds) => ds,
        Err(e) => {
            return Err(e);
        },
    };
    let ghost views = crate::cli::dependency_views(deps@);
    let mut entries: Vec<toml::Table> = Vec::new();
    let mut j: usize = 0;
    proof {
        assert(tables_fields(entries@) =~= views.map_values(
            |d: DependencyView| context_entry(d),
        ).take(0));
    }
    while j < deps.len()
        invariant
            j <= deps.len(),
            views == crate::cli::dependency_views(deps@),
            tables_fields(entries@) == views.map_values(
                |d: DependencyView| context_entry(d),
            ).take(j as int),
        decreases deps.len() - j,
    {
        let entry = deps[j].to_tera();
        proof {
            let all = views.map_values(|d: DependencyView| context_entry(d));
            assert(views[j as int] == deps@[j as int]@);
            assert(all.take(j + 1) =~= all.take(j as int).push(all[j as int]));
        }
        push_table(&mut entries, entry);
        j = j + 1;
    }
    proof {
        let all = views.map_values(|d: DependencyView| context_entry(d));
        assert(all.take(deps.len() as int) =~= all);
    }
    context_set_records(&mut context, "craft_dependencies", &entries);
    let errors = match craft.error_types() {
        Ok(names) => names,
        Err(e) => {
            return Err(e);
        },
    };
    context_set_outcome(&mut context, "craft_errors", &errors);
    Ok(context)
}

/// A template of the scaffold: the name it is rendered under, and the file
/// that holds its text.
#[derive(Debug, Clone, PartialEq, Eq)]
pub struct TemplateSource {
    /// The name that the plan and the engine know the template by.
    pub name: String,
    /// The file of the template's text.
    pub file: String,
}

/// The names of the scaffold's templates, in the order in which the engine
/// is given them.
pub open spec fn template_names() -> Seq<Seq<char>> {
    seq![
        "errors.rs"@,
        "bare.main.rs"@,
        "bare.mod.cli.rs"@,
        "lib.rs"@,
        "dispatch.rs"@,
        "{{package_name}}.rs"@,
        "cli"@,
        "Cargo.toml"@,
        ".gitignore"@,
        ".rustfmt.toml"@,
        "rust-toolchain.toml"@,
        "README.md"@,
    ]
}

/// The files of the scaffold's templates, in the same order.
pub open spec fn template_files() -> Seq<Seq<char>> {
    seq![
        "errors.rs.tera"@,
        "bare.main.rs.tera"@,
        "bare.mod.cli.rs.tera"@,
        "lib.rs.tera"@,
        "lib_dispatch.rs.tera"@,
        "{{package_name}}.rs.tera"@,
        "cli.rs.tera"@,
        "Cargo.toml.tera"@,
        "gitignore.tera"@,
        "rustfmt.toml.tera"@,
        "rust-toolchain.toml.tera"@,
        "README.md.tera"@,
    ]
}

/// The templates of the scaffold, in the order in which the engine is given
/// them.
pub fn template_sources() -> (r: Vec<TemplateSource>)
    ensures
        r@.len() == 12,
        forall|i: int|
            0 <= i < 12 ==> (#[trigger] r@[i]).name@ == template_names()[i] && r@[i].file@
                == template_files()[i],
{
    let names = [
        "errors.rs",
        "bare.main.rs",
        "bare.mod.cli.rs",
        "lib.rs",
        "dispatch.rs",
        "{{package_name}}.rs",
        "cli",
        "Cargo.toml",
        ".gitignore",
        ".rustfmt.toml",
        "rust-toolchain.toml",
        "README.md",
    ];
    let files = [
        "errors.rs.tera",
        "bare.main.rs.tera",
        "bare.mod.cli.rs.tera",
        "lib.rs.tera",
        "lib_dispatch.rs.tera",
        "{{package_name}}.rs.tera",
        "cli.rs.tera",
        "Cargo.toml.tera",
        "gitignore.tera",
        "rustfmt.toml.tera",
        "rust-toolchain.toml.tera",
        "README.md.tera",
    ];
    let mut out: Vec<TemplateSource> = Vec::new();
    let mut i: usize = 0;
    while i < 12
        invariant
            i <= 12,
            names@.len() == 12,
            files@.len() == 12,
            forall|k: int| 0 <= k < 12 ==> (#[trigger] names@[k])@ == template_names()[k],
            forall|k: int| 0 <= k < 12 ==> (#[trigger] files@[k])@ == template_files()[k],
            out@.len() == i,
            forall|k: int|
                0 <= k < i ==> (#[trigger] out@[k]).name@ == template_names()[k] && out@[k].file@
                    == template_files()[k],
        decreases 12 - i,
    {
        out.push(TemplateSource { name: copy_text(names[i]), file: copy_text(files[i]) });
        i = i + 1;
    }
    out
}

/// The template of the command line interface's binaries, where the
/// configuration asks for a command line interface.
pub fn render_cli(craft: &Craft) -> (r: Option<String>)
    ensures
        craft.spec_is_cli() ==> r is Some && r->0@ == "cli"@,
        !craft.spec_is_cli() ==> r is None,
{
    if craft.is_cli() {
        Some(copy_text("cli"))
    } else {
        None
    }
}

} // verus!
