//! The configuration of one scaffolding run, what is derived from it, and
//! the plan of files to generate.

use vstd::prelude::*;
use crate::dependencies::{
    fault_message, parsed_tokens, tokens_of, Dependency, DependencyView, FaultView,
};
use crate::errors::Error;
use crate::errors::ErrorView;
use crate::helpers::{
    acceptable_crate_name, acceptable_name, crate_name_from_path, crate_name_of_path,
    into_acceptable_error_type_name, is_crate_name, is_package_name,
    package_name_from_string_or_path, package_name_of, pascal_of, struct_name_from_package_name,
    to_pascal_case, valid_package_name,
};
use crate::paths::{path_join, path_join_of};
use crate::patterns::{regex_matches_of, regex_replaced_of, regex_split_of, ERROR_SUFFIXED,
    INNER_NON_WORD_RUN, NON_WORD_RUN};
use crate::tables::{
    entries_fields, entry_fields, extend_table, no_fields, push_table, table_fields, table_new, table_set_flag, table_set_number,
    table_set_text, Field,
};
use crate::text::{
    append_str, begins, begins_with, chars_of, copy_text, debug_quoted, push_text, split_on,
    tail_text, text_of, text_opt,
};

verus! {

/// The configuration of a run. It is made once, by whoever reads the command
/// line, and not changed afterwards.
#[derive(Debug, Clone, PartialEq, Eq, PartialOrd, Ord)]
pub struct Craft {
    /// The directory of the new project.
    pub at: String,
    /// The package name, where it is not to be derived from the directory.
    pub package_name: Option<String>,
    /// The version of the new crate.
    pub version: String,
    /// The dependencies, each as a specification such as `"serde -Fderive"`.
    pub dep: Vec<String>,
    /// Generate a command line interface.
    pub cli: bool,
    /// Generate the reduced set of two files only.
    pub cli_barebones: bool,
    /// The template that the default binary's name is rendered from.
    pub default_bin_name: String,
    /// The binaries asked for by name.
    pub bin: Vec<String>,
    /// Where the library goes, where that is not the crate's name.
    pub lib_path: Option<String>,
    /// Where the binaries go, below the project directory.
    pub bin_path: String,
    /// One binary, in `src/main.rs`, and the library in `src`.
    pub main: bool,
    /// Generate a value enum in the command line interface.
    pub value_enum: bool,
    /// Generate subcommands.
    pub subcommands: bool,
    /// The subcommands to generate.
    pub subcommand_names: Vec<String>,
    /// Say what is being done.
    pub verbose: bool,
    /// Say nothing.
    pub silent: bool,
    /// Add dependencies quietly.
    pub quiet_add: bool,
    /// The description of the new crate.
    pub description: Option<String>,
    /// Stay off the network.
    pub offline: bool,
    /// Further error types to generate.
    pub add_error_type: Vec<String>,
    /// Delete the project directory again when the run fails.
    pub rollback: bool,
    /// Replace a directory that is there already.
    pub force: bool,
    /// End by printing the crate's name, for scripts.
    pub script: bool,
    /// When the run started.
    pub started_at: String,
    /// When the run finished, once it has.
    pub finished_at: Option<String>,
    /// The errors met on the way.
    pub runtime_errors: Vec<Error>,
}

/// What the working directory and the template engine have settled for a
/// run: where the library and the binaries go, and the name of the default
/// binary.
#[derive(Debug, Clone, PartialEq, Eq)]
pub struct Layout {
    /// The library's directory, relative to the working directory.
    pub lib_path: String,
    /// The binaries' directory, relative to the working directory.
    pub bin_path: String,
    /// The name of the binary that is generated when none is asked for.
    pub default_bin_name: String,
}

/// One step of the plan: a template, and the entries that its rendered text
/// is written to.
#[derive(Debug, Clone)]
pub struct PlannedTemplate {
    /// The template's name.
    pub template: String,
    /// The scaffold entries to write.
    pub targets: Vec<Option<toml::Table>>,
}

/// What a step of the plan holds.
pub struct PlanItem {
    pub template: Seq<char>,
    pub targets: Seq<Option<Map<Seq<char>, Field>>>,
}

impl View for PlannedTemplate {
    type V = PlanItem;

    open spec fn view(&self) -> PlanItem {
        PlanItem { template: self.template@, targets: entries_fields(self.targets@) }
    }
}

/// What each step of a plan holds.
pub open spec fn plan_items(plan: Seq<PlannedTemplate>) -> Seq<PlanItem> {
    plan.map_values(|p: PlannedTemplate| p@)
}

/// The options of a library target: no doctests, no benchmarks.
pub open spec fn lib_options_fields() -> Map<Seq<char>, Field> {
    no_fields().insert("doctest"@, Field::Flag(false)).insert("bench"@, Field::Flag(false))
}

/// The options of a binary target: those of a library, and no documentation.
pub open spec fn bin_options_fields() -> Map<Seq<char>, Field> {
    lib_options_fields().insert("doc"@, Field::Flag(false))
}

/// The entry of a file of the library: the package's name, the file's path
/// below the library's directory, and the options of a binary target.
pub open spec fn lib_entry_fields(package_name: Seq<char>, lib_path: Seq<char>, file: Seq<char>) -> Map<
    Seq<char>,
    Field,
> {
    no_fields().insert("name"@, Field::Text(package_name)).insert(
        "path"@,
        Field::Text(path_join_of(lib_path, file)),
    ).union_prefer_right(bin_options_fields())
}

/// The number that an entry carries for its position: the position, as far
/// as a 64-bit integer reaches.
pub open spec fn entry_index(i: int) -> int {
    if i <= i64::MAX {
        i
    } else {
        i64::MAX as int
    }
}

/// The source file of a binary: `main.rs` for the one binary of a
/// single-binary project, `<name>.rs` otherwise.
pub open spec fn bin_file_name(name: Seq<char>, lone_main: bool) -> Seq<char> {
    if lone_main {
        "main.rs"@
    } else {
        name + ".rs"@
    }
}

/// The entry of a binary: its position and name; whether the name marks an
/// extension of `cargo`, and then the subcommand it adds; the path of its
/// source file; and the options of a binary target.
pub open spec fn bin_entry_fields(i: int, name: Seq<char>, lone_main: bool, bin_path: Seq<char>) -> Map<
    Seq<char>,
    Field,
> {
    no_fields().insert("index"@, Field::Number(entry_index(i))).insert(
        "name"@,
        Field::Text(name),
    ).insert("is_cargo"@, Field::Flag(begins_with(name, "cargo-"@))).insert(
        "cargo_subcommand"@,
        if begins_with(name, "cargo-"@) {
            Field::Text(name.skip("cargo-"@.len() as int))
        } else {
            Field::Flag(false)
        },
    ).insert(
        "path"@,
        Field::Text(path_join_of(bin_path, bin_file_name(name, lone_main))),
    ).union_prefer_right(bin_options_fields())
}

/// The entries of the binaries, in the order of their names.
pub open spec fn bin_entries_fields(names: Seq<Seq<char>>, single_main: bool, bin_path: Seq<char>) -> Seq<
    Map<Seq<char>, Field>,
> {
    Seq::new(
        names.len(),
        |i: int| bin_entry_fields(i, names[i], names.len() == 1 && single_main, bin_path),
    )
}

/// The auxiliary files that every project gets, each from the template of
/// its own name.
pub open spec fn git_names() -> Seq<Seq<char>> {
    seq![".gitignore"@, ".rustfmt.toml"@, "rust-toolchain.toml"@, "README.md"@]
}

/// The entry of an auxiliary file: its name, and its path below the project
/// directory.
pub open spec fn git_entry_fields(name: Seq<char>, project: Seq<char>) -> Map<Seq<char>, Field> {
    no_fields().insert("name"@, Field::Text(name)).insert(
        "path"@,
        Field::Text(path_join_of(project, name)),
    )
}

/// The paths to write for a list of entries: for each entry that names a
/// path, that path below the project directory, in order.
pub open spec fn targets_of(project: Seq<char>, entries: Seq<Option<Map<Seq<char>, Field>>>) -> Seq<
    Seq<char>,
>
    decreases entries.len(),
{
    if entries.len() == 0 {
        Seq::empty()
    } else {
        let head = targets_of(project, entries.drop_last());
        match crate::helpers::entry_path_of(entries.last()) {
            Some(p) => head.push(path_join_of(project, p)),
            None => head,
        }
    }
}

/// One template to render, and the files to write its text to.
#[derive(Debug, Clone, PartialEq, Eq)]
pub struct Writing {
    /// The template's name.
    pub template: String,
    /// The paths to write, one or more.
    pub paths: Vec<String>,
}

/// What a writing holds.
pub struct WritingView {
    pub template: Seq<char>,
    pub paths: Seq<Seq<char>>,
}

impl View for Writing {
    type V = WritingView;

    open spec fn view(&self) -> WritingView {
        WritingView { template: self.template@, paths: self.paths.deep_view() }
    }
}

/// What each writing of a list holds.
pub open spec fn writing_views(ws: Seq<Writing>) -> Seq<WritingView> {
    ws.map_values(|w: Writing| w@)
}

/// The writings of a plan: for each step with a path to write, in order,
/// the template and the paths. A step without any is left out.
pub open spec fn writings_of(project: Seq<char>, plan: Seq<PlanItem>) -> Seq<WritingView>
    decreases plan.len(),
{
    if plan.len() == 0 {
        Seq::empty()
    } else {
        let head = writings_of(project, plan.drop_last());
        let paths = targets_of(project, plan.last().targets);
        if paths.len() > 0 {
            head.push(WritingView { template: plan.last().template, paths })
        } else {
            head
        }
    }
}

/// The descriptors that a list of specifications stands for, or the first
/// fault in it.
pub open spec fn deps_of(specs: Seq<Seq<char>>) -> Result<Seq<DependencyView>, FaultView>
    decreases specs.len(),
{
    if specs.len() == 0 {
        Ok(Seq::empty())
    } else {
        match deps_of(specs.drop_last()) {
            Err(f) => Err(f),
            Ok(ds) => match parsed_tokens(tokens_of(specs.last())) {
                Ok(d) => Ok(ds.push(d)),
                Err(f) => Err(f),
            },
        }
    }
}

/// What each descriptor of a list holds.
pub open spec fn dependency_views(ds: Seq<Dependency>) -> Seq<DependencyView> {
    ds.map_values(|d: Dependency| d@)
}

/// The name of the error type for a dependency.
pub open spec fn error_type_of_dependency(d: DependencyView) -> Seq<char> {
    pascal_of(regex_split_of(NON_WORD_RUN@, d.name))
}

/// The name of the error type for a name given by hand.
pub open spec fn error_type_of_name(n: Seq<char>) -> Seq<char> {
    pascal_of(
        regex_matches_of(INNER_NON_WORD_RUN@, regex_replaced_of(ERROR_SUFFIXED@, n, "$name"@)),
    )
}

/// Of the error types given by hand, those that a dependency has given
/// already, in order.
pub open spec fn repeated_error_types(given: Seq<Seq<char>>, known: Seq<Seq<char>>) -> Seq<
    Seq<char>,
>
    decreases given.len(),
{
    if given.len() == 0 {
        Seq::empty()
    } else {
        let head = repeated_error_types(given.drop_last(), known);
        let name = error_type_of_name(given.last());
        if known.contains(name) {
            head.push(name)
        } else {
            head
        }
    }
}

/// The names of the error types: one for each dependency, then those given
/// by hand that repeat one of these.
pub open spec fn error_types_of(ds: Seq<DependencyView>, given: Seq<Seq<char>>) -> Seq<Seq<char>> {
    let known = ds.map_values(|d: DependencyView| error_type_of_dependency(d));
    known + repeated_error_types(given, known)
}

/// The names of the subcommands: those given, or `hello` where none is,
/// each in PascalCase.
pub open spec fn subcommands_of(given: Seq<Seq<char>>) -> Seq<Seq<char>> {
    let names = if given.len() > 0 {
        given
    } else {
        seq!["hello"@]
    };
    names.map_values(|n: Seq<char>| pascal_of(regex_split_of(NON_WORD_RUN@, n)))
}

/// What is wrong with a configuration, if anything: the crate name derived
/// from the project directory is no valid crate name; or the package name
/// is no valid package name; or a dependency cannot be read. The first of
/// these that holds is the fault, as a `ParseError`.
pub open spec fn config_fault(c: Craft) -> Option<ErrorView> {
    if !is_crate_name(c.spec_crate_name()) {
        Some(
            ErrorView {
                kind: "ParseError"@,
                message: debug_quoted(c.spec_crate_name())
                    + " does not appear to be a valid crate name"@,
            },
        )
    } else if !is_package_name(c.spec_package_name()) {
        Some(
            ErrorView {
                kind: "ParseError"@,
                message: debug_quoted(c.spec_package_name()) + " is not a valid package name"@,
            },
        )
    } else {
        match deps_of(c.dep.deep_view()) {
            Err(f) => Some(ErrorView { kind: "ParseError"@, message: fault_message(f) }),
            Ok(_) => None,
        }
    }
}

/// Whether `v` holds a string that reads as `s`.
pub fn holds_text(v: &Vec<String>, s: &str) -> (r: bool)
    ensures
        r == v.deep_view().contains(s@),
{
    let target = copy_text(s);
    let mut i: usize = 0;
    while i < v.len()
        invariant
            i <= v.len(),
            target@ == s@,
            forall|k: int| 0 <= k < i ==> #[trigger] v.deep_view()[k] != s@,
        decreases v.len() - i,
    {
        if v[i] == target {
            proof {
                assert(v.deep_view()[i as int] == s@);
            }
            return true;
        }
        proof {
            assert(v.deep_view()[i as int] == v@[i as int]@);
        }
        i = i + 1;
    }
    false
}

impl Craft {
    /// The crate name: derived from the project directory's name.
    pub open spec fn spec_crate_name(&self) -> Seq<char> {
        crate_name_of_path(self.at@)
    }

    /// The package name: the explicit one, or else derived from the crate
    /// name.
    pub open spec fn spec_package_name(&self) -> Seq<char> {
        package_name_of(text_opt(self.package_name), self.at@)
    }

    /// The name of the crate's main type.
    pub open spec fn spec_struct_name(&self) -> Seq<char> {
        pascal_of(split_on(acceptable_name(self.spec_package_name(), '_'), '_'))
    }

    /// One binary only, at the canonical entry point.
    pub open spec fn spec_single_main_bin(&self) -> bool {
        self.main || self.cli_barebones
    }

    /// A command line interface is generated.
    pub open spec fn spec_is_cli(&self) -> bool {
        self.main || self.cli || self.cli_barebones
    }

    /// The library's directory: `src` with a single main binary; otherwise
    /// the crate name of the override, or of the crate name where there is
    /// no override.
    pub open spec fn spec_lib_path(&self) -> Seq<char> {
        if self.spec_single_main_bin() {
            "src"@
        } else {
            crate_name_of_path(
                match self.lib_path {
                    Some(p) => p@,
                    None => self.spec_crate_name(),
                },
            )
        }
    }

    /// The binaries' directory: the library's with a single main binary;
    /// otherwise the configured one below the project directory.
    pub open spec fn spec_bin_path(&self) -> Seq<char> {
        if self.spec_single_main_bin() {
            self.spec_lib_path()
        } else {
            path_join_of(self.at@, self.bin_path@)
        }
    }

    /// The names of the binaries: those asked for, and behind them the
    /// default binary unless it is among them already.
    pub open spec fn spec_bin_names(&self, default_bin_name: Seq<char>) -> Seq<Seq<char>> {
        if self.bin.deep_view().contains(default_bin_name) {
            self.bin.deep_view()
        } else {
            self.bin.deep_view().push(default_bin_name)
        }
    }

    /// Validates the configuration: the derived names and the dependencies.
    /// Nothing is to be written for a configuration that does not pass.
    pub fn validate(&self) -> (r: Result<(), Error>)
        ensures
            match r {
                Ok(_) => config_fault(*self) is None,
                Err(e) => config_fault(*self) == Some(e@),
            },
    {
        match acceptable_crate_name(self.crate_name().as_str()) {
            Ok(_) => {},
            Err(why) => {
                return Err(Error::ParseError(why));
            },
        }
        match valid_package_name(self.package_name().as_str()) {
            Ok(_) => {},
            Err(why) => {
                return Err(Error::ParseError(why));
            },
        }
        match self.deps() {
            Ok(_) => Ok(()),
            Err(e) => Err(e),
        }
    }

    /// The crate name.
    pub fn crate_name(&self) -> (r: String)
        ensures
            r@ == self.spec_crate_name(),
    {
        match crate_name_from_path(self.at.as_str()) {
            Ok(name) => name,
            Err(_) => String::new(),
        }
    }

    /// The package name.
    pub fn package_name(&self) -> (r: String)
        ensures
            r@ == self.spec_package_name(),
    {
        let explicit = match &self.package_name {
            Some(n) => Some(n.as_str()),
            None => None,
        };
        match package_name_from_string_or_path(explicit, self.at.as_str()) {
            Ok(name) => name,
            Err(_) => String::new(),
        }
    }

    /// The names of the subcommands to generate, in PascalCase.
    pub fn subcommand_names(&self) -> (r: Vec<String>)
        ensures
            r.deep_view() == subcommands_of(self.subcommand_names.deep_view()),
    {
        let mut out: Vec<String> = Vec::new();
        if self.subcommand_names.len() > 0 {
            let ghost given = self.subcommand_names.deep_view();
            let mut i: usize = 0;
            while i < self.subcommand_names.len()
                invariant
                    i <= self.subcommand_names.len(),
                    given == self.subcommand_names.deep_view(),
                    out.deep_view() =~= subcommands_of(given).take(i as int),
                decreases self.subcommand_names.len() - i,
            {
                let name = to_pascal_case(self.subcommand_names[i].as_str());
                proof {
                    assert(given[i as int] == self.subcommand_names@[i as int]@);
                }
                push_text(&mut out, name);
                proof {
                    assert(subcommands_of(given).take(i + 1) =~= subcommands_of(given).take(
                        i as int,
                    ).push(name@));
                }
                i = i + 1;
            }
            proof {
                assert(subcommands_of(given).take(given.len() as int) =~= subcommands_of(given));
            }
        } else {
            push_text(&mut out, to_pascal_case("hello"));
            proof {
                assert(out.deep_view() =~= subcommands_of(self.subcommand_names.deep_view()));
            }
        }
        out
    }

    /// The name of the crate's main type: the package name in PascalCase.
    pub fn struct_name(&self) -> (r: String)
        ensures
            r@ == self.spec_struct_name(),
    {
        let package_name = self.package_name();
        struct_name_from_package_name(package_name.as_str())
    }

    /// The version of the new crate.
    pub fn version(&self) -> (r: String)
        ensures
            r@ == self.version@,
    {
        copy_text(self.version.as_str())
    }

    /// Whether there is one binary only, at the canonical entry point.
    pub fn single_main_bin(&self) -> (r: bool)
        ensures
            r == self.spec_single_main_bin(),
    {
        self.main || self.cli_barebones
    }

    /// Whether a command line interface is generated.
    pub fn is_cli(&self) -> (r: bool)
        ensures
            r == self.spec_is_cli(),
    {
        self.main || self.cli || self.cli_barebones
    }

    /// Whether a failed run deletes the project directory again.
    pub fn rollback_on_error(&self) -> (r: bool)
        ensures
            r == self.rollback,
    {
        self.rollback
    }

    /// The library's directory, to be taken relative to the working
    /// directory.
    pub fn lib_path(&self) -> (r: String)
        ensures
            r@ == self.spec_lib_path(),
    {
        if self.single_main_bin() {
            copy_text("src")
        } else {
            let base = match &self.lib_path {
                Some(p) => copy_text(p.as_str()),
                None => self.crate_name(),
            };
            match crate_name_from_path(base.as_str()) {
                Ok(name) => name,
                Err(_) => String::new(),
            }
        }
    }

    /// The project directory.
    pub fn project_path(&self) -> (r: String)
        ensures
            r@ == self.at@,
    {
        self.path()
    }

    /// The binaries' directory, to be taken relative to the working
    /// directory.
    pub fn bin_path(&self) -> (r: String)
        ensures
            r@ == self.spec_bin_path(),
    {
        if self.single_main_bin() {
            self.lib_path()
        } else {
            self.path_to(self.bin_path.as_str())
        }
    }

    /// The project directory.
    pub fn path(&self) -> (r: String)
        ensures
            r@ == self.at@,
    {
        copy_text(self.at.as_str())
    }

    /// A path below the project directory.
    pub fn path_to(&self, to: &str) -> (r: String)
        ensures
            r@ == path_join_of(self.at@, to@),
    {
        path_join(self.at.as_str(), to)
    }

    /// Where the manifest goes.
    pub fn manifest_path(&self) -> (r: String)
        ensures
            r@ == path_join_of(self.at@, "Cargo.toml"@),
    {
        self.path_to("Cargo.toml")
    }

    /// The name of the default binary, given what the template engine made
    /// of the configured template: its rendering, or the crate name where it
    /// failed.
    pub fn default_bin_name(&self, rendered: Result<String, Error>) -> (r: String)
        ensures
            r@ == (match rendered {
                Ok(name) => name@,
                Err(_) => self.spec_crate_name(),
            }),
    {
        match rendered {
            Ok(name) => name,
            Err(_) => self.crate_name(),
        }
    }

    /// What the outside has settled, in one value: the two directories as
    /// resolved against the working directory, and the default binary's
    /// name from its rendering.
    pub fn layout(&self, lib_path: String, bin_path: String, rendered: Result<String, Error>) -> (r:
        Layout)
        ensures
            r.lib_path@ == lib_path@,
            r.bin_path@ == bin_path@,
            r.default_bin_name@ == (match rendered {
                Ok(name) => name@,
                Err(_) => self.spec_crate_name(),
            }),
    {
        let default_bin_name = self.default_bin_name(rendered);
        Layout { lib_path, bin_path, default_bin_name }
    }

    /// The names of the binaries to generate.
    pub fn bin_names(&self, layout: &Layout) -> (r: Vec<String>)
        ensures
            r.deep_view() == self.spec_bin_names(layout.default_bin_name@),
    {
        let mut binaries: Vec<String> = Vec::new();
        let ghost given = self.bin.deep_view();
        let mut i: usize = 0;
        while i < self.bin.len()
            invariant
                i <= self.bin.len(),
                given == self.bin.deep_view(),
                binaries.deep_view() =~= given.take(i as int),
            decreases self.bin.len() - i,
        {
            push_text(&mut binaries, copy_text(self.bin[i].as_str()));
            proof {
                assert(given[i as int] == self.bin@[i as int]@);
                assert(given.take(i + 1) =~= given.take(i as int).push(given[i as int]));
            }
            i = i + 1;
        }
        proof {
            assert(given.take(self.bin.len() as int) =~= given);
        }
        if !holds_text(&self.bin, layout.default_bin_name.as_str()) {
            push_text(&mut binaries, copy_text(layout.default_bin_name.as_str()));
        }
        binaries
    }

    /// The dependencies, read from their specifications. The first
    /// specification that cannot be read ends it, with its fault as a
    /// `ParseError`.
    pub fn deps(&self) -> (r: Result<Vec<Dependency>, Error>)
        ensures
            match r {
                Ok(ds) => deps_of(self.dep.deep_view()) == Ok::<Seq<DependencyView>, FaultView>(
                    dependency_views(ds@),
                ),
                Err(e) => deps_of(self.dep.deep_view()) is Err && e is ParseError && e.message()
                    == fault_message(deps_of(self.dep.deep_view())->Err_0),
            },
    {
        let mut deps: Vec<Dependency> = Vec::new();
        let ghost specs = self.dep.deep_view();
        let mut i: usize = 0;
        proof {
            assert(dependency_views(deps@) =~= Seq::<DependencyView>::empty());
        }
        while i < self.dep.len()
            invariant
                i <= self.dep.len(),
                specs == self.dep.deep_view(),
                deps_of(specs.take(i as int)) == Ok::<Seq<DependencyView>, FaultView>(
                    dependency_views(deps@),
                ),
            decreases self.dep.len() - i,
        {
            let ghost before = dependency_views(deps@);
            proof {
                assert(specs.take(i + 1).drop_last() =~= specs.take(i as int));
                assert(specs.take(i + 1).last() == self.dep@[i as int]@);
            }
            match Dependency::parse(self.dep[i].as_str()) {
                Ok(d) => {
                    deps.push(d);
                    proof {
                        assert(dependency_views(deps@) =~= before.push(d@));
                    }
                },
                Err(f) => {
                    proof {
                        lemma_deps_fault_stays(specs, i + 1);
                    }
                    return Err(Error::ParseError(f.message()));
                },
            }
            i = i + 1;
        }
        proof {
            assert(specs.take(self.dep.len() as int) =~= specs);
        }
        Ok(deps)
    }

    /// The names of the error types to generate.
    pub fn error_types(&self) -> (r: Result<Vec<String>, Error>)
        ensures
            match r {
                Ok(names) => deps_of(self.dep.deep_view()) is Ok && names.deep_view()
                    == error_types_of(
                    deps_of(self.dep.deep_view())->Ok_0,
                    self.add_error_type.deep_view(),
                ),
                Err(e) => deps_of(self.dep.deep_view()) is Err && e is ParseError && e.message()
                    == fault_message(deps_of(self.dep.deep_view())->Err_0),
            },
    {
        let deps = match self.deps() {
            Ok(ds) => ds,
            Err(e) => {
                return Err(e);
            },
        };
        let ghost views = dependency_views(deps@);
        let ghost known = views.map_values(|d: DependencyView| error_type_of_dependency(d));
        let mut names: Vec<String> = Vec::new();
        let mut i: usize = 0;
        while i < deps.len()
            invariant
                i <= deps.len(),
                views == dependency_views(deps@),
                known == views.map_values(|d: DependencyView| error_type_of_dependency(d)),
                names.deep_view() =~= known.take(i as int),
            decreases deps.len() - i,
        {
            push_text(&mut names, deps[i].pascal_name());
            proof {
                assert(views[i as int] == deps@[i as int]@);
                assert(known.take(i + 1) =~= known.take(i as int).push(known[i as int]));
            }
            i = i + 1;
        }
        proof {
            assert(known.take(deps.len() as int) =~= known);
        }
        let ghost given = self.add_error_type.deep_view();
        let mut extra: Vec<String> = Vec::new();
        let mut j: usize = 0;
        proof {
            assert(extra.deep_view() =~= repeated_error_types(given.take(0), known));
        }
        while j < self.add_error_type.len()
            invariant
                j <= self.add_error_type.len(),
                given == self.add_error_type.deep_view(),
                names.deep_view() == known,
                extra.deep_view() == repeated_error_types(given.take(j as int), known),
            decreases self.add_error_type.len() - j,
        {
            let name = into_acceptable_error_type_name(self.add_error_type[j].as_str());
            proof {
                assert(given.take(j + 1).drop_last() =~= given.take(j as int));
                assert(given.take(j + 1).last() == self.add_error_type@[j as int]@);
            }
            if holds_text(&names, name.as_str()) {
                push_text(&mut extra, name);
            }
            j = j + 1;
        }
        proof {
            assert(given.take(self.add_error_type.len() as int) =~= given);
        }
        let ghost head = names.deep_view();
        let mut k: usize = 0;
        while k < extra.len()
            invariant
                k <= extra.len(),
                names.deep_view() =~= head + extra.deep_view().take(k as int),
            decreases extra.len() - k,
        {
            push_text(&mut names, copy_text(extra[k].as_str()));
            proof {
                let e = extra.deep_view();
                assert(e[k as int] == extra@[k as int]@);
                assert(e.take(k + 1) =~= e.take(k as int).push(e[k as int]));
            }
            k = k + 1;
        }
        proof {
            assert(extra.deep_view().take(extra.len() as int) =~= extra.deep_view());
        }
        Ok(names)
    }
}

/// Appends a step to a plan.
fn push_item(plan: &mut Vec<PlannedTemplate>, item: PlannedTemplate)
    ensures
        plan_items(final(plan)@) == plan_items(old(plan)@).push(item@),
{
    let ghost before = plan_items(plan@);
    plan.push(item);
    proof {
        assert(plan_items(plan@) =~= before.push(item@));
    }
}

/// Appends an entry to a list of entries.
fn push_entry(entries: &mut Vec<Option<toml::Table>>, entry: Option<toml::Table>)
    ensures
        entries_fields(final(entries)@) == entries_fields(old(entries)@).push(entry_fields(entry)),
{
    let ghost before = entries_fields(entries@);
    entries.push(entry);
    proof {
        assert(entries_fields(entries@) =~= before.push(entry_fields(entry)));
    }
}

impl Craft {
    /// The plan for this configuration, given what the layout has settled:
    /// in bare mode the entry point and the definitions of the command line
    /// interface; otherwise the library's four modules and, with a command
    /// line interface, the binaries; in both cases followed by the
    /// auxiliary files.
    pub open spec fn spec_plan(
        &self,
        lib_path: Seq<char>,
        bin_path: Seq<char>,
        default_bin_name: Seq<char>,
    ) -> Seq<PlanItem> {
        let package = self.spec_package_name();
        let lib = |template: Seq<char>, file: Seq<char>|
            PlanItem {
                template,
                targets: seq![Some(lib_entry_fields(package, lib_path, file))],
            };
        let main_set = if self.cli_barebones {
            seq![lib("bare.main.rs"@, "main.rs"@), lib("bare.mod.cli.rs"@, "cli.rs"@)]
        } else {
            seq![
                lib("lib.rs"@, "lib.rs"@),
                lib("dispatch.rs"@, "dispatch.rs"@),
                lib("{{package_name}}.rs"@, package + ".rs"@),
                lib("errors.rs"@, "errors.rs"@),
            ] + (if self.spec_is_cli() {
                seq![
                    PlanItem {
                        template: "cli"@,
                        targets: bin_entries_fields(
                            self.spec_bin_names(default_bin_name),
                            self.spec_single_main_bin(),
                            bin_path,
                        ).map_values(|f: Map<Seq<char>, Field>| Some(f)),
                    },
                ]
            } else {
                Seq::empty()
            })
        };
        main_set + git_names().map_values(
            |n: Seq<char>|
                PlanItem { template: n, targets: seq![Some(git_entry_fields(n, self.at@))] },
        )
    }

    /// The options of a library target.
    pub fn lib_options() -> (r: toml::Table)
        ensures
            table_fields(r) == lib_options_fields(),
    {
        let mut options = table_new();
        table_set_flag(&mut options, "doctest", false);
        table_set_flag(&mut options, "bench", false);
        options
    }

    /// The options of a binary target.
    pub fn bin_options() -> (r: toml::Table)
        ensures
            table_fields(r) == bin_options_fields(),
    {
        let mut options = Craft::lib_options();
        table_set_flag(&mut options, "doc", false);
        options
    }

    /// The entry of the library's file `path`.
    pub fn lib_entry(&self, layout: &Layout, path: &str) -> (r: Option<toml::Table>)
        ensures
            r is Some,
            table_fields(r->0) == lib_entry_fields(
                self.spec_package_name(),
                layout.lib_path@,
                path@,
            ),
    {
        let mut entry = table_new();
        let package_name = self.package_name();
        table_set_text(&mut entry, "name", package_name.as_str());
        let file = path_join(layout.lib_path.as_str(), path);
        table_set_text(&mut entry, "path", file.as_str());
        Some(extend_table(&Craft::bin_options(), &entry))
    }

    /// The entries of the binaries.
    pub fn bin_entries(&self, layout: &Layout) -> (r: Vec<toml::Table>)
        ensures
            crate::tables::tables_fields(r@) == bin_entries_fields(
                self.spec_bin_names(layout.default_bin_name@),
                self.spec_single_main_bin(),
                layout.bin_path@,
            ),
    {
        let mut entries: Vec<toml::Table> = Vec::new();
        let bin_names = self.bin_names(layout);
        let bin_count = bin_names.len();
        let lone_main = bin_count == 1 && self.single_main_bin();
        let ghost names = bin_names.deep_view();
        let ghost want = bin_entries_fields(names, self.spec_single_main_bin(), layout.bin_path@);
        let mut index: usize = 0;
        let mut number: i64 = 0;
        proof {
            assert(crate::tables::tables_fields(entries@) =~= want.take(0));
        }
        while index < bin_count
            invariant
                index <= bin_count,
                bin_count == bin_names.len(),
                names == bin_names.deep_view(),
                lone_main == (names.len() == 1 && self.spec_single_main_bin()),
                want == bin_entries_fields(names, self.spec_single_main_bin(), layout.bin_path@),
                number == entry_index(index as int),
                crate::tables::tables_fields(entries@) == want.take(index as int),
            decreases bin_count - index,
        {
            let name = &bin_names[index];
            let v = chars_of(name.as_str());
            let (is_cargo, prefix_len) = begins(&v, "cargo-");
            let mut table = table_new();
            let file = if lone_main {
                copy_text("main.rs")
            } else {
                let mut f = chars_of(name.as_str());
                append_str(&mut f, ".rs");
                text_of(&f)
            };
            table_set_number(&mut table, "index", number);
            table_set_text(&mut table, "name", name.as_str());
            table_set_flag(&mut table, "is_cargo", is_cargo);
            if is_cargo {
                let sub = tail_text(&v, prefix_len);
                table_set_text(&mut table, "cargo_subcommand", sub.as_str());
            } else {
                table_set_flag(&mut table, "cargo_subcommand", false);
            }
            let path = path_join(layout.bin_path.as_str(), file.as_str());
            table_set_text(&mut table, "path", path.as_str());
            let table = extend_table(&Craft::bin_options(), &table);
            proof {
                assert(names[index as int] == name@);
                assert(table_fields(table) == want[index as int]);
                assert(want.take(index + 1) =~= want.take(index as int).push(want[index as int]));
            }
            push_table(&mut entries, table);
            index = index + 1;
            if number < i64::MAX {
                number = number + 1;
            }
        }
        proof {
            assert(want.take(bin_count as int) =~= want);
        }
        entries
    }

    /// The entries of the auxiliary files.
    pub fn git_entries(&self) -> (r: Vec<toml::Table>)
        ensures
            crate::tables::tables_fields(r@) == git_names().map_values(
                |n: Seq<char>| git_entry_fields(n, self.at@),
            ),
    {
        let mut entries: Vec<toml::Table> = Vec::new();
        let a = self.git_entry(".gitignore");
        let b = self.git_entry(".rustfmt.toml");
        let c = self.git_entry("rust-toolchain.toml");
        let d = self.git_entry("README.md");
        push_table(&mut entries, a);
        push_table(&mut entries, b);
        push_table(&mut entries, c);
        push_table(&mut entries, d);
        proof {
            assert(crate::tables::tables_fields(entries@) =~= git_names().map_values(
                |n: Seq<char>| git_entry_fields(n, self.at@),
            ));
        }
        entries
    }

    /// The entry of the auxiliary file `name`.
    fn git_entry(&self, name: &str) -> (r: toml::Table)
        ensures
            table_fields(r) == git_entry_fields(name@, self.at@),
    {
        let mut table = table_new();
        table_set_text(&mut table, "name", name);
        let path = path_join(self.at.as_str(), name);
        table_set_text(&mut table, "path", path.as_str());
        table
    }

    /// One step of the plan for a file of the library.
    fn lib_step(&self, layout: &Layout, template: &str, file: &str) -> (r: PlannedTemplate)
        ensures
            r@ == (PlanItem {
                template: template@,
                targets: seq![
                    Some(lib_entry_fields(self.spec_package_name(), layout.lib_path@, file@)),
                ],
            }),
    {
        let mut targets: Vec<Option<toml::Table>> = Vec::new();
        let entry = self.lib_entry(layout, file);
        push_entry(&mut targets, entry);
        let r = PlannedTemplate { template: copy_text(template), targets };
        proof {
            assert(r@.targets =~= seq![
                Some(lib_entry_fields(self.spec_package_name(), layout.lib_path@, file@)),
            ]);
        }
        r
    }

    /// The templates to render, in order, each with the entries that its
    /// text is written to. Nothing is read or written on the way.
    pub fn render_templates(&self, layout: &Layout) -> (r: Vec<PlannedTemplate>)
        ensures
            plan_items(r@) == self.spec_plan(
                layout.lib_path@,
                layout.bin_path@,
                layout.default_bin_name@,
            ),
    {
        let mut plan: Vec<PlannedTemplate> = Vec::new();
        let ghost package = self.spec_package_name();
        proof {
            assert(plan_items(plan@) =~= Seq::<PlanItem>::empty());
        }
        if self.cli_barebones {
            let a = self.lib_step(layout, "bare.main.rs", "main.rs");
            let b = self.lib_step(layout, "bare.mod.cli.rs", "cli.rs");
            push_item(&mut plan, a);
            push_item(&mut plan, b);
        } else {
            let package_name = self.package_name();
            let mut module = chars_of(package_name.as_str());
            append_str(&mut module, ".rs");
            let module = text_of(&module);
            let a = self.lib_step(layout, "lib.rs", "lib.rs");
            let b = self.lib_step(layout, "dispatch.rs", "dispatch.rs");
            let c = self.lib_step(layout, "{{package_name}}.rs", module.as_str());
            let d = self.lib_step(layout, "errors.rs", "errors.rs");
            push_item(&mut plan, a);
            push_item(&mut plan, b);
            push_item(&mut plan, c);
            push_item(&mut plan, d);
            if self.is_cli() {
                let bins = self.bin_entries(layout);
                let ghost fields = crate::tables::tables_fields(bins@);
                let mut targets: Vec<Option<toml::Table>> = Vec::new();
                let mut i: usize = 0;
                proof {
                    assert(entries_fields(targets@) =~= fields.map_values(
                        |f: Map<Seq<char>, Field>| Some(f),
                    ).take(0));
                }
                while i < bins.len()
                    invariant
                        i <= bins.len(),
                        fields == crate::tables::tables_fields(bins@),
                        entries_fields(targets@) == fields.map_values(
                            |f: Map<Seq<char>, Field>| Some(f),
                        ).take(i as int),
                    decreases bins.len() - i,
                {
                    let copy = crate::tables::table_clone(&bins[i]);
                    proof {
                        let all = fields.map_values(|f: Map<Seq<char>, Field>| Some(f));
                        assert(all.take(i + 1) =~= all.take(i as int).push(all[i as int]));
                    }
                    push_entry(&mut targets, Some(copy));
                    i = i + 1;
                }
                proof {
                    let all = fields.map_values(|f: Map<Seq<char>, Field>| Some(f));
                    assert(all.take(bins.len() as int) =~= all);
                }
                push_item(&mut plan, PlannedTemplate { template: copy_text("cli"), targets });
            }
        }
        let ghost main_set = plan_items(plan@);
        let gits = self.git_entries();
        let names = [".gitignore", ".rustfmt.toml", "rust-toolchain.toml", "README.md"];
        let ghost tail = git_names().map_values(
            |n: Seq<char>|
                PlanItem { template: n, targets: seq![Some(git_entry_fields(n, self.at@))] },
        );
        let mut i: usize = 0;
        proof {
            assert(crate::tables::tables_fields(gits@).len() == gits@.len());
            assert(git_names().len() == 4);
        }
        while i < 4
            invariant
                i <= 4,
                gits.len() == 4,
                names@.len() == 4,
                forall|k: int| 0 <= k < 4 ==> (#[trigger] names@[k])@ == git_names()[k],
                crate::tables::tables_fields(gits@) == git_names().map_values(
                    |n: Seq<char>| git_entry_fields(n, self.at@),
                ),
                tail == git_names().map_values(
                    |n: Seq<char>|
                        PlanItem {
                            template: n,
                            targets: seq![Some(git_entry_fields(n, self.at@))],
                        },
                ),
                plan_items(plan@) == main_set + tail.take(i as int),
            decreases 4 - i,
        {
            let mut targets: Vec<Option<toml::Table>> = Vec::new();
            let copy = crate::tables::table_clone(&gits[i]);
            push_entry(&mut targets, Some(copy));
            let item = PlannedTemplate { template: copy_text(names[i]), targets };
            proof {
                assert(crate::tables::tables_fields(gits@)[i as int] == table_fields(
                    gits@[i as int],
                ));
                assert(item@.targets =~= tail[i as int].targets);
                assert(item@ == tail[i as int]);
                assert(main_set + tail.take(i + 1) =~= (main_set + tail.take(i as int)).push(
                    tail[i as int],
                ));
            }
            push_item(&mut plan, item);
            i = i + 1;
        }
        proof {
            assert(tail.take(4) =~= tail);
        }
        plan
    }

    /// The writing of one step of the plan: its template and the paths to
    /// write, where it has a path to write.
    fn writing_of(&self, planned: &PlannedTemplate) -> (r: Option<Writing>)
        ensures
            targets_of(self.at@, planned@.targets).len() == 0 ==> r is None,
            targets_of(self.at@, planned@.targets).len() > 0 ==> r is Some && r->0@ == (
            WritingView {
                template: planned@.template,
                paths: targets_of(self.at@, planned@.targets),
            }),
    {
        let paths = self.write_targets(&planned.targets);
        if paths.len() > 0 {
            Some(Writing { template: copy_text(planned.template.as_str()), paths })
        } else {
            None
        }
    }

    /// What is rendered and written: each template of the plan that has a
    /// path to write, once, with the paths that its text goes to, all in the
    /// order of the plan. A template without a path is not rendered.
    pub fn render_and_write_templates(&self, layout: &Layout) -> (r: Vec<Writing>)
        ensures
            writing_views(r@) == writings_of(
                self.at@,
                self.spec_plan(layout.lib_path@, layout.bin_path@, layout.default_bin_name@),
            ),
    {
        let plan = self.render_templates(layout);
        let ghost items = plan_items(plan@);
        let ghost at = self.at@;
        let mut out: Vec<Writing> = Vec::new();
        let mut i: usize = 0;
        proof {
            assert(writing_views(out@) =~= writings_of(at, items.take(0)));
        }
        while i < plan.len()
            invariant
                i <= plan.len(),
                at == self.at@,
                items == plan_items(plan@),
                writing_views(out@) == writings_of(at, items.take(i as int)),
            decreases plan.len() - i,
        {
            let ghost before = writing_views(out@);
            let ghost now = items.take(i + 1);
            proof {
                assert(now.drop_last() =~= items.take(i as int));
                assert(now.last() == plan@[i as int]@);
            }
            match self.writing_of(&plan[i]) {
                Some(w) => {
                    out.push(w);
                    proof {
                        assert(writing_views(out@) =~= before.push(w@));
                    }
                },
                None => {},
            }
            i = i + 1;
        }
        proof {
            assert(items.take(plan.len() as int) =~= items);
        }
        out
    }

    /// The error for a file that could not be written: an `IOError` that
    /// names the path and gives the reason.
    pub fn write_failure(path: &str, reason: &str) -> (r: Error)
        ensures
            r is IOError,
            r.message() == "error writing "@ + path@ + ": "@ + reason@,
    {
        let mut text = chars_of("error writing ");
        append_str(&mut text, path);
        append_str(&mut text, ": ");
        append_str(&mut text, reason);
        Error::IOError(text_of(&text))
    }

    /// The paths that the entries of one step ask to be written, each below
    /// the project directory, in order.
    pub fn write_targets(&self, targets: &Vec<Option<toml::Table>>) -> (r: Vec<String>)
        ensures
            r.deep_view() == targets_of(self.at@, entries_fields(targets@)),
    {
        let mut out: Vec<String> = Vec::new();
        let ghost all = entries_fields(targets@);
        let mut i: usize = 0;
        proof {
            assert(out.deep_view() =~= targets_of(self.at@, all.take(0)));
        }
        while i < targets.len()
            invariant
                i <= targets.len(),
                all == entries_fields(targets@),
                out.deep_view() == targets_of(self.at@, all.take(i as int)),
            decreases targets.len() - i,
        {
            proof {
                assert(all.take(i + 1).drop_last() =~= all.take(i as int));
                assert(all.take(i + 1).last() == entry_fields(targets@[i as int]));
            }
            match crate::helpers::path_to_entry_path(&targets[i]) {
                Some(p) => {
                    push_text(&mut out, self.path_to(p.as_str()));
                },
                None => {},
            }
            i = i + 1;
        }
        proof {
            assert(all.take(targets.len() as int) =~= all);
        }
        out
    }
}

/// Law: planning is a function of the configuration and the layout, and of
/// these it reads the project directory, the package name, the mode flags
/// and the binaries only. Two configurations that agree there have the same
/// plan, step for step.
pub proof fn lemma_plan_is_stable(
    a: Craft,
    b: Craft,
    lib_path: Seq<char>,
    bin_path: Seq<char>,
    default_bin_name: Seq<char>,
)
    requires
        a.at@ == b.at@,
        text_opt(a.package_name) == text_opt(b.package_name),
        a.cli == b.cli,
        a.cli_barebones == b.cli_barebones,
        a.main == b.main,
        a.bin.deep_view() == b.bin.deep_view(),
    ensures
        a.spec_plan(lib_path, bin_path, default_bin_name) == b.spec_plan(
            lib_path,
            bin_path,
            default_bin_name,
        ),
{
    let pa = a.spec_plan(lib_path, bin_path, default_bin_name);
    let pb = b.spec_plan(lib_path, bin_path, default_bin_name);
    assert(a.spec_package_name() == b.spec_package_name());
    assert(a.spec_bin_names(default_bin_name) == b.spec_bin_names(default_bin_name));
    assert(pa.len() == pb.len());
    assert forall|i: int| 0 <= i < pa.len() implies pa[i] == pb[i] by {}
    assert(pa =~= pb);
}

/// Law: where no binary is asked for, the default binary is the only one.
pub proof fn lemma_no_binaries_gives_the_default(c: Craft, default_bin_name: Seq<char>)
    requires
        c.bin.len() == 0,
    ensures
        c.spec_bin_names(default_bin_name) == seq![default_bin_name],
{
    assert(c.bin.deep_view().len() == 0);
    assert(c.spec_bin_names(default_bin_name) =~= seq![default_bin_name]);
}

/// Law: the shape of a plan. Bare mode plans exactly its two files; the
/// standard set is the library's four modules and, with a command line
/// interface, one step for the binaries. Either way the four auxiliary
/// files follow, each from the template of its own name and to its own name
/// below the project directory.
pub proof fn lemma_plan_shape(
    c: Craft,
    lib_path: Seq<char>,
    bin_path: Seq<char>,
    default_bin_name: Seq<char>,
)
    ensures
        ({
            let p = c.spec_plan(lib_path, bin_path, default_bin_name);
            let n = p.len() - 4;
            &&& n == (if c.cli_barebones {
                2int
            } else if c.spec_is_cli() {
                5int
            } else {
                4int
            })
            &&& c.cli_barebones ==> p[0].template == "bare.main.rs"@ && p[1].template
                == "bare.mod.cli.rs"@
            &&& !c.cli_barebones ==> p[0].template == "lib.rs"@ && p[1].template == "dispatch.rs"@
                && p[2].template == "{{package_name}}.rs"@ && p[3].template == "errors.rs"@
            &&& !c.cli_barebones && c.spec_is_cli() ==> p[4].template == "cli"@
                && p[4].targets.len() == c.spec_bin_names(default_bin_name).len()
            &&& forall|i: int|
                0 <= i < 4 ==> (#[trigger] p[n + i]).template == git_names()[i] && p[n
                    + i].targets == seq![Some(git_entry_fields(git_names()[i], c.at@))]
        }),
{
}

/// Once a prefix of the specifications holds a fault, the whole list ends in
/// that fault.
proof fn lemma_deps_fault_stays(specs: Seq<Seq<char>>, n: int)
    requires
        0 <= n <= specs.len(),
        deps_of(specs.take(n)) is Err,
    ensures
        deps_of(specs) == deps_of(specs.take(n)),
    decreases specs.len() - n,
{
    if n == specs.len() {
        assert(specs.take(n) =~= specs);
    } else {
        assert(specs.take(n + 1).drop_last() =~= specs.take(n));
        lemma_deps_fault_stays(specs, n + 1);
    }
}

} // verus!
