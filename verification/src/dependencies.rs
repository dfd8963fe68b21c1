//! Dependency descriptors: what `"name -Ffeat1,feat2 --dev"` means, and how
//! a descriptor is written back as arguments for the package manager.

use vstd::prelude::*;
use crate::helpers::{
    acceptable_name, is_crate_name, lemma_name_is_tidy, lemma_tidy_is_fixed, pascal_of,
    to_pascal_case, valid_crate_name,
};
use crate::tables::{
    no_fields, table_fields, table_new, table_set_flag, table_set_text, table_set_texts, Field,
};
use crate::patterns::{regex_split_of, NON_WORD_RUN};
use crate::text::{
    append_str, begins, begins_with, chars_of, copy_text, debug_quoted, free_of, is_ascii_text,
    is_blank, is_lower, is_space, join_texts, joined, keep_non_blank, lemma_joined_free,
    lemma_non_blank_all, lemma_split_joined, lowered, non_blank, reads_as, split_on, split_text,
    tail_text, text_of, text_opt,
};

verus! {

/// One dependency of the new project.
#[derive(Debug, Clone, PartialEq, Eq, PartialOrd, Ord)]
pub struct Dependency {
    /// The crate's name, a valid crate name.
    pub name: String,
    /// The features asked for, separated by commas.
    pub features: Option<String>,
    /// A development dependency.
    pub dev: bool,
    /// A build dependency.
    pub build: bool,
    /// An optional dependency.
    pub optional: bool,
}

/// What a descriptor holds.
pub struct DependencyView {
    pub name: Seq<char>,
    pub features: Option<Seq<char>>,
    pub dev: bool,
    pub build: bool,
    pub optional: bool,
}

impl DependencyView {
    /// A descriptor is well formed when its name is a valid crate name and
    /// it is not both a development and a build dependency.
    pub open spec fn well_formed(self) -> bool {
        is_crate_name(self.name) && !(self.dev && self.build)
    }
}

impl View for Dependency {
    type V = DependencyView;

    open spec fn view(&self) -> DependencyView {
        DependencyView {
            name: self.name@,
            features: text_opt(self.features),
            dev: self.dev,
            build: self.build,
            optional: self.optional,
        }
    }
}

/// Why a dependency specification was refused.
#[derive(Debug, Clone, PartialEq, Eq)]
pub enum DependencyFault {
    /// An argument that the grammar has no place for: an unknown option, or
    /// a second name.
    UnexpectedArgument(String),
    /// `-F` or `--features` came last, or before another option.
    MissingValue,
    /// An option was given twice.
    Repeated(String),
    /// The name does not normalize to a valid crate name; with the reason.
    InvalidName(String),
    /// Both `--dev` and `--build` were given.
    Conflict,
    /// No name was given.
    MissingName,
}

/// What a fault holds.
pub enum FaultView {
    UnexpectedArgument(Seq<char>),
    MissingValue,
    Repeated(Seq<char>),
    InvalidName(Seq<char>),
    Conflict,
    MissingName,
}

impl View for DependencyFault {
    type V = FaultView;

    open spec fn view(&self) -> FaultView {
        match self {
            DependencyFault::UnexpectedArgument(t) => FaultView::UnexpectedArgument(t@),
            DependencyFault::MissingValue => FaultView::MissingValue,
            DependencyFault::Repeated(t) => FaultView::Repeated(t@),
            DependencyFault::InvalidName(w) => FaultView::InvalidName(w@),
            DependencyFault::Conflict => FaultView::Conflict,
            DependencyFault::MissingName => FaultView::MissingName,
        }
    }
}

/// What has been read of a specification so far.
pub struct Scan {
    pub name: Option<Seq<char>>,
    pub features: Option<Seq<char>>,
    pub dev: bool,
    pub build: bool,
    pub optional: bool,
    /// `--` has been seen: what follows is taken as a name, never as an option.
    pub literal: bool,
}

/// Nothing read yet.
pub open spec fn scan_start() -> Scan {
    Scan { name: None, features: None, dev: false, build: false, optional: false, literal: false }
}

/// `tok` has the looks of an option: a `-` and something behind it.
pub open spec fn option_like(tok: Seq<char>) -> bool {
    tok.len() >= 2 && tok[0] == '-'
}

/// The value that stands in one token with the short option: what follows
/// `-F`, without one leading `=`.
pub open spec fn attached_value(tok: Seq<char>) -> Seq<char> {
    let rest = tok.skip("-F"@.len() as int);
    if rest.len() > 0 && rest[0] == '=' {
        rest.skip(1)
    } else {
        rest
    }
}

/// Reading one token. `next` is the token behind it, if there is one. The
/// result is the new state and whether `next` was used up as a value.
pub open spec fn scan_step(st: Scan, tok: Seq<char>, next: Option<Seq<char>>) -> Result<
    (Scan, bool),
    FaultView,
> {
    if !st.literal && tok == "--"@ {
        Ok((Scan { literal: true, ..st }, false))
    } else if !st.literal && tok == "--dev"@ {
        if st.dev {
            Err(FaultView::Repeated(tok))
        } else {
            Ok((Scan { dev: true, ..st }, false))
        }
    } else if !st.literal && tok == "--build"@ {
        if st.build {
            Err(FaultView::Repeated(tok))
        } else {
            Ok((Scan { build: true, ..st }, false))
        }
    } else if !st.literal && tok == "--optional"@ {
        if st.optional {
            Err(FaultView::Repeated(tok))
        } else {
            Ok((Scan { optional: true, ..st }, false))
        }
    } else if !st.literal && (tok == "-F"@ || tok == "--features"@) {
        if st.features is Some {
            Err(FaultView::Repeated(tok))
        } else if next is Some && !option_like(next->0) {
            Ok((Scan { features: next, ..st }, true))
        } else {
            Err(FaultView::MissingValue)
        }
    } else if !st.literal && begins_with(tok, "--features="@) {
        if st.features is Some {
            Err(FaultView::Repeated(tok))
        } else {
            Ok((Scan { features: Some(tok.skip("--features="@.len() as int)), ..st }, false))
        }
    } else if !st.literal && begins_with(tok, "-F"@) {
        if st.features is Some {
            Err(FaultView::Repeated(tok))
        } else {
            Ok((Scan { features: Some(attached_value(tok)), ..st }, false))
        }
    } else if !st.literal && option_like(tok) {
        Err(FaultView::UnexpectedArgument(tok))
    } else if st.name is Some {
        Err(FaultView::UnexpectedArgument(tok))
    } else if is_crate_name(acceptable_name(tok, '-')) {
        Ok((Scan { name: Some(acceptable_name(tok, '-')), ..st }, false))
    } else {
        Err(FaultView::InvalidName(debug_quoted(tok) + " is not a valid crate name"@))
    }
}

/// Reading the tokens from position `i` on.
pub open spec fn scan_from(tokens: Seq<Seq<char>>, i: int, st: Scan) -> Result<Scan, FaultView>
    decreases tokens.len() - i,
{
    if i < 0 || i >= tokens.len() {
        Ok(st)
    } else {
        let next = if i + 1 < tokens.len() {
            Some(tokens[i + 1])
        } else {
            None
        };
        match scan_step(st, tokens[i], next) {
            Ok((st2, took)) => scan_from(
                tokens,
                if took {
                    i + 2
                } else {
                    i + 1
                },
                st2,
            ),
            Err(f) => Err(f),
        }
    }
}

/// What the state at the end amounts to: `--dev` and `--build` exclude each
/// other, and there must be a name.
pub open spec fn scan_end(st: Scan) -> Result<DependencyView, FaultView> {
    if st.dev && st.build {
        Err(FaultView::Conflict)
    } else if st.name is None {
        Err(FaultView::MissingName)
    } else {
        Ok(
            DependencyView {
                name: st.name->0,
                features: st.features,
                dev: st.dev,
                build: st.build,
                optional: st.optional,
            },
        )
    }
}

/// The descriptor that a sequence of tokens stands for, or the first fault
/// in it. The grammar: one name, which is normalized and must then be a
/// valid crate name; `--dev`, `--build`, `--optional`, each at most once;
/// features at most once, as `-F <v>`, `-F<v>`, `-F=<v>`, `--features <v>` or
/// `--features=<v>`; after `--`, a name only.
pub open spec fn parsed_tokens(tokens: Seq<Seq<char>>) -> Result<DependencyView, FaultView> {
    match scan_from(tokens, 0, scan_start()) {
        Ok(st) => scan_end(st),
        Err(f) => Err(f),
    }
}

/// The tokens of a specification: its pieces between single spaces, the
/// blank ones left out.
pub open spec fn tokens_of(raw: Seq<char>) -> Seq<Seq<char>> {
    non_blank(split_on(raw, ' '))
}

/// The features of a descriptor: the pieces of its feature list between
/// commas, the blank ones left out.
pub open spec fn features_of(d: DependencyView) -> Seq<Seq<char>> {
    non_blank(
        split_on(
            match d.features {
                Some(f) => f,
                None => Seq::empty(),
            },
            ',',
        ),
    )
}

/// The arguments that add the dependency: the name, then `--dev`, `--build`
/// and `--optional` as far as they are set, then `-F` with the features
/// where there are any; one space between neighbours.
pub open spec fn command_fragment(d: DependencyView) -> Seq<char> {
    d.name + (if d.dev {
        " --dev"@
    } else {
        Seq::empty()
    }) + (if d.build {
        " --build"@
    } else {
        Seq::empty()
    }) + (if d.optional {
        " --optional"@
    } else {
        Seq::empty()
    }) + (if features_of(d).len() > 0 {
        " -F"@ + joined(features_of(d), ","@)
    } else {
        Seq::empty()
    })
}

/// The state of a scan, as the parser holds it.
struct Reading {
    name: Option<String>,
    features: Option<String>,
    dev: bool,
    build: bool,
    optional: bool,
    literal: bool,
}

impl View for Reading {
    type V = Scan;

    closed spec fn view(&self) -> Scan {
        Scan {
            name: text_opt(self.name),
            features: text_opt(self.features),
            dev: self.dev,
            build: self.build,
            optional: self.optional,
            literal: self.literal,
        }
    }
}

/// Reads one token into the state.
fn read_token(st: Reading, tok: &str, next: Option<&String>) -> (r: Result<
    (Reading, bool),
    DependencyFault,
>)
    ensures
        match r {
            Ok((st2, took)) => scan_step(
                st@,
                tok@,
                match next {
                    Some(n) => Some(n@),
                    None => None,
                },
            ) == Ok::<(Scan, bool), FaultView>((st2@, took)),
            Err(f) => scan_step(
                st@,
                tok@,
                match next {
                    Some(n) => Some(n@),
                    None => None,
                },
            ) == Err::<(Scan, bool), FaultView>(f@),
        },
{
    let v = chars_of(tok);
    let mut st = st;
    if !st.literal && reads_as(&v, "--") {
        st.literal = true;
        return Ok((st, false));
    }
    if !st.literal && reads_as(&v, "--dev") {
        if st.dev {
            return Err(DependencyFault::Repeated(copy_text(tok)));
        }
        st.dev = true;
        return Ok((st, false));
    }
    if !st.literal && reads_as(&v, "--build") {
        if st.build {
            return Err(DependencyFault::Repeated(copy_text(tok)));
        }
        st.build = true;
        return Ok((st, false));
    }
    if !st.literal && reads_as(&v, "--optional") {
        if st.optional {
            return Err(DependencyFault::Repeated(copy_text(tok)));
        }
        st.optional = true;
        return Ok((st, false));
    }
    if !st.literal && (reads_as(&v, "-F") || reads_as(&v, "--features")) {
        if st.features.is_some() {
            return Err(DependencyFault::Repeated(copy_text(tok)));
        }
        match next {
            Some(n) => {
                let w = chars_of(n.as_str());
                if w.len() >= 2 && w[0] == '-' {
                    return Err(DependencyFault::MissingValue);
                }
                st.features = Some(copy_text(n.as_str()));
                return Ok((st, true));
            },
            None => {
                return Err(DependencyFault::MissingValue);
            },
        }
    }
    let (long, long_len) = begins(&v, "--features=");
    if !st.literal && long {
        if st.features.is_some() {
            return Err(DependencyFault::Repeated(copy_text(tok)));
        }
        st.features = Some(tail_text(&v, long_len));
        return Ok((st, false));
    }
    let (short, short_len) = begins(&v, "-F");
    if !st.literal && short {
        if st.features.is_some() {
            return Err(DependencyFault::Repeated(copy_text(tok)));
        }
        let from: usize = if short_len < v.len() && v[short_len] == '=' {
            short_len + 1
        } else {
            short_len
        };
        proof {
            let rest = v@.skip(short_len as int);
            if rest.len() > 0 {
                assert(rest[0] == v@[short_len as int]);
                assert(rest.skip(1) =~= v@.skip(short_len + 1));
            }
        }
        st.features = Some(tail_text(&v, from));
        return Ok((st, false));
    }
    if !st.literal && v.len() >= 2 && v[0] == '-' {
        return Err(DependencyFault::UnexpectedArgument(copy_text(tok)));
    }
    if st.name.is_some() {
        return Err(DependencyFault::UnexpectedArgument(copy_text(tok)));
    }
    match valid_crate_name(tok) {
        Ok(name) => {
            st.name = Some(name);
            Ok((st, false))
        },
        Err(why) => Err(DependencyFault::InvalidName(why)),
    }
}

/// What a fault says.
pub open spec fn fault_message(f: FaultView) -> Seq<char> {
    match f {
        FaultView::UnexpectedArgument(t) => "unexpected argument '"@ + t + "' found"@,
        FaultView::MissingValue =>
            "a value is required for '--features <FEATURES>' but none was supplied"@,
        FaultView::Repeated(t) => "the argument '"@ + t + "' cannot be used multiple times"@,
        FaultView::InvalidName(w) => "invalid value for '<NAME>': "@ + w,
        FaultView::Conflict => "the argument '--dev' cannot be used with '--build'"@,
        FaultView::MissingName => "the following required arguments were not provided: <NAME>"@,
    }
}

impl DependencyFault {
    /// The fault in words.
    pub fn message(&self) -> (r: String)
        ensures
            r@ == fault_message(self@),
    {
        let mut out: Vec<char> = Vec::new();
        match self {
            DependencyFault::UnexpectedArgument(t) => {
                append_str(&mut out, "unexpected argument '");
                append_str(&mut out, t.as_str());
                append_str(&mut out, "' found");
            },
            DependencyFault::MissingValue => {
                append_str(
                    &mut out,
                    "a value is required for '--features <FEATURES>' but none was supplied",
                );
            },
            DependencyFault::Repeated(t) => {
                append_str(&mut out, "the argument '");
                append_str(&mut out, t.as_str());
                append_str(&mut out, "' cannot be used multiple times");
            },
            DependencyFault::InvalidName(w) => {
                append_str(&mut out, "invalid value for '<NAME>': ");
                append_str(&mut out, w.as_str());
            },
            DependencyFault::Conflict => {
                append_str(&mut out, "the argument '--dev' cannot be used with '--build'");
            },
            DependencyFault::MissingName => {
                append_str(
                    &mut out,
                    "the following required arguments were not provided: <NAME>",
                );
            },
        }
        text_of(&out)
    }
}

/// What the table that stands for a descriptor in a template's context
/// holds: the name, the name as a package name, the features, the name in
/// PascalCase, and the `dev` and `build` flags.
pub open spec fn context_entry(d: DependencyView) -> Map<Seq<char>, Field> {
    no_fields().insert("name"@, Field::Text(d.name)).insert(
        "package_name"@,
        Field::Text(acceptable_name(d.name, '_')),
    ).insert("features"@, Field::Texts(features_of(d))).insert(
        "pascal_case"@,
        Field::Text(pascal_of(regex_split_of(NON_WORD_RUN@, d.name))),
    ).insert("dev"@, Field::Flag(d.dev)).insert("build"@, Field::Flag(d.build))
}

impl Dependency {
    /// Reads a descriptor from its tokens.
    pub fn parse_tokens(tokens: &Vec<String>) -> (r: Result<Dependency, DependencyFault>)
        ensures
            match r {
                Ok(d) => parsed_tokens(tokens.deep_view()) == Ok::<DependencyView, FaultView>(d@)
                    && d@.well_formed(),
                Err(f) => parsed_tokens(tokens.deep_view()) == Err::<DependencyView, FaultView>(
                    f@,
                ),
            },
    {
        proof {
            lemma_parsed_is_sound(tokens.deep_view());
        }
        let mut st = Reading {
            name: None,
            features: None,
            dev: false,
            build: false,
            optional: false,
            literal: false,
        };
        let ghost all = tokens.deep_view();
        let mut i: usize = 0;
        while i < tokens.len()
            invariant
                i <= tokens.len(),
                all == tokens.deep_view(),
                scan_from(all, 0, scan_start()) == scan_from(all, i as int, st@),
            decreases tokens.len() - i,
        {
            let next = if i + 1 < tokens.len() {
                Some(&tokens[i + 1])
            } else {
                None
            };
            proof {
                assert(all[i as int] == tokens@[i as int]@);
                if i + 1 < tokens.len() {
                    assert(all[i + 1] == tokens@[i + 1]@);
                }
            }
            match read_token(st, tokens[i].as_str(), next) {
                Ok((st2, took)) => {
                    st = st2;
                    if took {
                        i = i + 2;
                    } else {
                        i = i + 1;
                    }
                },
                Err(f) => {
                    return Err(f);
                },
            }
        }
        if st.dev && st.build {
            return Err(DependencyFault::Conflict);
        }
        match st.name {
            None => Err(DependencyFault::MissingName),
            Some(name) => Ok(
                Dependency {
                    name,
                    features: st.features,
                    dev: st.dev,
                    build: st.build,
                    optional: st.optional,
                },
            ),
        }
    }

    /// Reads a descriptor from a specification such as
    /// `"reqwest -Fblocking,deflate"`.
    pub fn parse(raw: &str) -> (r: Result<Dependency, DependencyFault>)
        ensures
            match r {
                Ok(d) => parsed_tokens(tokens_of(raw@)) == Ok::<DependencyView, FaultView>(d@)
                    && d@.well_formed(),
                Err(f) => parsed_tokens(tokens_of(raw@)) == Err::<DependencyView, FaultView>(f@),
            },
    {
        let tokens = keep_non_blank(split_text(raw, ' '));
        Dependency::parse_tokens(&tokens)
    }

    /// The features asked for, one by one.
    pub fn features(&self) -> (r: Vec<String>)
        ensures
            r.deep_view() == features_of(self@),
    {
        let pieces = match &self.features {
            Some(f) => split_text(f.as_str(), ','),
            None => split_text("", ','),
        };
        proof {
            assert(""@ =~= Seq::<char>::empty()) by {
                reveal_strlit("");
            }
        }
        keep_non_blank(pieces)
    }

    /// The name in PascalCase, as the name of an error type is made from it.
    pub fn pascal_name(&self) -> (r: String)
        ensures
            r@ == pascal_of(regex_split_of(NON_WORD_RUN@, self@.name)),
    {
        to_pascal_case(self.name.as_str())
    }

    /// The table that stands for the descriptor in a template's context.
    pub fn to_tera(&self) -> (r: toml::Table)
        ensures
            table_fields(r) == context_entry(self@),
    {
        let mut dep = table_new();
        table_set_text(&mut dep, "name", self.name.as_str());
        let package_name = crate::helpers::into_acceptable_package_name(self.name.as_str());
        table_set_text(&mut dep, "package_name", package_name.as_str());
        let features = self.features();
        table_set_texts(&mut dep, "features", &features);
        let pascal = self.pascal_name();
        table_set_text(&mut dep, "pascal_case", pascal.as_str());
        table_set_flag(&mut dep, "dev", self.dev);
        table_set_flag(&mut dep, "build", self.build);
        dep
    }

    /// The descriptor as arguments for the package manager.
    pub fn to_string(&self) -> (r: String)
        ensures
            r@ == command_fragment(self@),
    {
        let mut out = chars_of(self.name.as_str());
        if self.dev {
            append_str(&mut out, " --dev");
        }
        if self.build {
            append_str(&mut out, " --build");
        }
        if self.optional {
            append_str(&mut out, " --optional");
        }
        let features = self.features();
        if features.len() > 0 {
            append_str(&mut out, " -F");
            let list = join_texts(&features, ",");
            append_str(&mut out, list.as_str());
        }
        proof {
            assert(out@ =~= command_fragment(self@));
        }
        text_of(&out)
    }
}

/// Law: a descriptor that was read is well formed: it never has both
/// `--dev` and `--build` set, and its name is a valid crate name.
pub proof fn lemma_parsed_is_sound(tokens: Seq<Seq<char>>)
    ensures
        match parsed_tokens(tokens) {
            Ok(d) => d.well_formed(),
            Err(_) => true,
        },
{
    lemma_scan_names(tokens, 0, scan_start());
}

/// The name in a scan's state is a valid crate name once it is set, from
/// wherever the scan goes on.
proof fn lemma_scan_names(tokens: Seq<Seq<char>>, i: int, st: Scan)
    requires
        st.name is Some ==> is_crate_name(st.name->0),
    ensures
        match scan_from(tokens, i, st) {
            Ok(end) => end.name is Some ==> is_crate_name(end.name->0),
            Err(_) => true,
        },
    decreases tokens.len() - i,
{
    if 0 <= i < tokens.len() {
        let next = if i + 1 < tokens.len() {
            Some(tokens[i + 1])
        } else {
            None
        };
        match scan_step(st, tokens[i], next) {
            Ok((st2, took)) => {
                lemma_scan_names(
                    tokens,
                    if took {
                        i + 2
                    } else {
                        i + 1
                    },
                    st2,
                );
            },
            Err(_) => {},
        }
    }
}

/// The tokens of a descriptor's command fragment: the name, the flags that
/// are set, and the features in one token behind `-F`.
pub open spec fn fragment_tokens(d: DependencyView) -> Seq<Seq<char>> {
    seq![d.name] + (if d.dev {
        seq!["--dev"@]
    } else {
        Seq::empty()
    }) + (if d.build {
        seq!["--build"@]
    } else {
        Seq::empty()
    }) + (if d.optional {
        seq!["--optional"@]
    } else {
        Seq::empty()
    }) + (if features_of(d).len() > 0 {
        seq!["-F"@ + joined(features_of(d), ","@)]
    } else {
        Seq::empty()
    })
}

/// The descriptor with its features written the plain way: the features
/// that are not blank with commas between them, or none.
pub open spec fn plain(d: DependencyView) -> DependencyView {
    DependencyView {
        features: if features_of(d).len() > 0 {
            Some(joined(features_of(d), ","@))
        } else {
            None
        },
        ..d
    }
}

/// One token that is read without a value behind it moves the scan on by
/// one.
proof fn lemma_scan_one(tokens: Seq<Seq<char>>, i: int, st: Scan, st2: Scan)
    requires
        0 <= i < tokens.len(),
        scan_step(
            st,
            tokens[i],
            if i + 1 < tokens.len() {
                Some(tokens[i + 1])
            } else {
                None
            },
        ) == Ok::<(Scan, bool), FaultView>((st2, false)),
    ensures
        scan_from(tokens, i, st) == scan_from(tokens, i + 1, st2),
{
}

/// A valid crate name is read as the name, as it stands.
proof fn lemma_step_name(st: Scan, name: Seq<char>, next: Option<Seq<char>>)
    requires
        !st.literal,
        st.name is None,
        is_crate_name(name),
    ensures
        scan_step(st, name, next) == Ok::<(Scan, bool), FaultView>(
            (Scan { name: Some(name), ..st }, false),
        ),
{
    reveal_strlit("--");
    reveal_strlit("--dev");
    reveal_strlit("--build");
    reveal_strlit("--optional");
    reveal_strlit("-F");
    reveal_strlit("--features");
    reveal_strlit("--features=");
    assert(name[0] != '-');
    assert("--"@[0] == '-');
    assert("--dev"@[0] == '-');
    assert("--build"@[0] == '-');
    assert("--optional"@[0] == '-');
    assert("-F"@[0] == '-');
    assert("--features"@[0] == '-');
    assert(!begins_with(name, "--features="@)) by {
        if begins_with(name, "--features="@) {
            assert(name.take("--features="@.len() as int)[0] == '-');
        }
    }
    assert(!begins_with(name, "-F"@)) by {
        if begins_with(name, "-F"@) {
            assert(name.take("-F"@.len() as int)[0] == '-');
        }
    }
    lemma_name_is_tidy(name, '-');
    assert(is_ascii_text(name));
    assert(lowered(name) =~= name);
    lemma_tidy_is_fixed(name, '-');
}

/// A flag that is not set yet is read as set.
proof fn lemma_step_flags(st: Scan, next: Option<Seq<char>>)
    requires
        !st.literal,
    ensures
        !st.dev ==> scan_step(st, "--dev"@, next) == Ok::<(Scan, bool), FaultView>(
            (Scan { dev: true, ..st }, false),
        ),
        !st.build ==> scan_step(st, "--build"@, next) == Ok::<(Scan, bool), FaultView>(
            (Scan { build: true, ..st }, false),
        ),
        !st.optional ==> scan_step(st, "--optional"@, next) == Ok::<(Scan, bool), FaultView>(
            (Scan { optional: true, ..st }, false),
        ),
{
    reveal_strlit("--");
    reveal_strlit("--dev");
    reveal_strlit("--build");
    reveal_strlit("--optional");
    assert("--"@.len() == 2);
    assert("--dev"@.len() == 5);
    assert("--build"@.len() == 7);
    assert("--optional"@.len() == 10);
}

/// Features that stand in one token behind `-F` are read as they stand.
proof fn lemma_step_attached(st: Scan, list: Seq<char>, next: Option<Seq<char>>)
    requires
        !st.literal,
        st.features is None,
        list.len() > 0,
        list[0] != '=',
    ensures
        scan_step(st, "-F"@ + list, next) == Ok::<(Scan, bool), FaultView>(
            (Scan { features: Some(list), ..st }, false),
        ),
{
    reveal_strlit("--");
    reveal_strlit("--dev");
    reveal_strlit("--build");
    reveal_strlit("--optional");
    reveal_strlit("-F");
    reveal_strlit("--features");
    reveal_strlit("--features=");
    let tok = "-F"@ + list;
    assert(tok[1] == 'F');
    assert("--"@[1] == '-');
    assert("--dev"@[1] == '-');
    assert("--build"@[1] == '-');
    assert("--optional"@[1] == '-');
    assert("--features"@[1] == '-');
    assert(tok.len() > 2);
    assert(!begins_with(tok, "--features="@)) by {
        if begins_with(tok, "--features="@) {
            assert(tok.take("--features="@.len() as int)[1] == tok[1]);
            assert("--features="@[1] == '-');
        }
    }
    assert(tok.take(2) =~= "-F"@);
    assert(tok.skip(2) =~= list);
    assert(attached_value(tok) == list);
}

/// The command fragment is its tokens with one space between neighbours.
proof fn lemma_fragment_is_joined(d: DependencyView)
    ensures
        command_fragment(d) == joined(fragment_tokens(d), " "@),
{
    reveal_strlit(" ");
    reveal_strlit(" --dev");
    reveal_strlit(" --build");
    reveal_strlit(" --optional");
    reveal_strlit(" -F");
    reveal_strlit("--dev");
    reveal_strlit("--build");
    reveal_strlit("--optional");
    reveal_strlit("-F");
    let feats = features_of(d);
    let list = joined(feats, ","@);
    let t = fragment_tokens(d);
    let space = " "@;
    assert(" --dev"@ =~= space + "--dev"@);
    assert(" --build"@ =~= space + "--build"@);
    assert(" --optional"@ =~= space + "--optional"@);
    assert(" -F"@ =~= space + "-F"@);
    let t1 = seq![d.name];
    let t2 = t1 + (if d.dev {
        seq!["--dev"@]
    } else {
        Seq::empty()
    });
    let t3 = t2 + (if d.build {
        seq!["--build"@]
    } else {
        Seq::empty()
    });
    let t4 = t3 + (if d.optional {
        seq!["--optional"@]
    } else {
        Seq::empty()
    });
    let f1 = d.name;
    let f2 = f1 + (if d.dev {
        " --dev"@
    } else {
        Seq::empty()
    });
    let f3 = f2 + (if d.build {
        " --build"@
    } else {
        Seq::empty()
    });
    let f4 = f3 + (if d.optional {
        " --optional"@
    } else {
        Seq::empty()
    });
    assert(joined(t1, space) == f1);
    assert(joined(t2, space) =~= f2) by {
        if d.dev {
            assert(t2.drop_last() =~= t1);
        } else {
            assert(t2 =~= t1);
        }
    }
    assert(joined(t3, space) =~= f3) by {
        if d.build {
            assert(t3.drop_last() =~= t2);
        } else {
            assert(t3 =~= t2);
        }
    }
    assert(joined(t4, space) =~= f4) by {
        if d.optional {
            assert(t4.drop_last() =~= t3);
        } else {
            assert(t4 =~= t3);
        }
    }
    assert(joined(t, space) =~= command_fragment(d)) by {
        if feats.len() > 0 {
            assert(t.drop_last() =~= t4);
            assert(t.last() == "-F"@ + list);
            assert(command_fragment(d) =~= f4 + (" -F"@ + list));
        } else {
            assert(t =~= t4);
            assert(command_fragment(d) =~= f4);
        }
    }
}

/// Each token of a fragment is the name, a flag, or the features behind
/// `-F`.
proof fn lemma_fragment_token_kinds(d: DependencyView, i: int)
    requires
        0 <= i < fragment_tokens(d).len(),
    ensures
        ({
            let tok = fragment_tokens(d)[i];
            tok == d.name || tok == "--dev"@ || tok == "--build"@ || tok == "--optional"@ || (
            features_of(d).len() > 0 && tok == "-F"@ + joined(features_of(d), ","@))
        }),
{
}

/// The tokens of a fragment are what the fragment splits into.
proof fn lemma_fragment_splits(d: DependencyView)
    requires
        d.well_formed(),
        forall|i: int| 0 <= i < features_of(d).len() ==> free_of(#[trigger] features_of(d)[i], ' '),
    ensures
        tokens_of(command_fragment(d)) == fragment_tokens(d),
{
    reveal_strlit(" ");
    reveal_strlit(",");
    reveal_strlit("--dev");
    reveal_strlit("--build");
    reveal_strlit("--optional");
    reveal_strlit("-F");
    let feats = features_of(d);
    let list = joined(feats, ","@);
    let t = fragment_tokens(d);
    lemma_fragment_is_joined(d);
    assert(" "@ =~= seq![' ']);
    lemma_name_is_tidy(d.name, '-');
    assert(free_of(d.name, ' '));
    assert(free_of(","@, ' '));
    lemma_joined_free(feats, ","@, ' ');
    let tagged = "-F"@ + list;
    assert(free_of(tagged, ' ')) by {
        assert forall|i: int| 0 <= i < tagged.len() implies #[trigger] tagged[i] != ' ' by {
            if i >= 2 {
                assert(tagged[i] == list[i - 2]);
            }
        }
    }
    assert(free_of("--dev"@, ' '));
    assert(free_of("--build"@, ' '));
    assert(free_of("--optional"@, ' '));
    assert forall|i: int| 0 <= i < t.len() implies free_of(#[trigger] t[i], ' ') && !is_blank(
        t[i],
    ) by {
        let tok = t[i];
        lemma_fragment_token_kinds(d, i);
        assert(tok.len() > 0);
        assert(tok[0] != ' ');
        assert(!is_space(tok[0])) by {
            assert(is_lower(tok[0]) || tok[0] == '-');
        }
    }
    lemma_split_joined(t, ' ');
    lemma_non_blank_all(t);
}

/// The tokens of a fragment are read as the descriptor, with its features
/// written the plain way.
proof fn lemma_tokens_read_back(d: DependencyView)
    requires
        d.well_formed(),
        features_of(d).len() > 0 ==> features_of(d)[0][0] != '=',
    ensures
        parsed_tokens(fragment_tokens(d)) == Ok::<DependencyView, FaultView>(plain(d)),
{
    let feats = features_of(d);
    let list = joined(feats, ","@);
    let t = fragment_tokens(d);
    let mut i: int = 0;
    let mut st = scan_start();
    lemma_step_name(
        st,
        d.name,
        if 1 < t.len() {
            Some(t[1])
        } else {
            None
        },
    );
    let st1 = Scan { name: Some(d.name), ..st };
    lemma_scan_one(t, 0, st, st1);
    st = st1;
    i = 1;
    if d.dev {
        let next = if i + 1 < t.len() {
            Some(t[i + 1])
        } else {
            None
        };
        lemma_step_flags(st, next);
        assert(t[i] == "--dev"@);
        let st2 = Scan { dev: true, ..st };
        lemma_scan_one(t, i, st, st2);
        st = st2;
        i = i + 1;
    }
    if d.build {
        let next = if i + 1 < t.len() {
            Some(t[i + 1])
        } else {
            None
        };
        lemma_step_flags(st, next);
        assert(t[i] == "--build"@);
        let st2 = Scan { build: true, ..st };
        lemma_scan_one(t, i, st, st2);
        st = st2;
        i = i + 1;
    }
    if d.optional {
        let next = if i + 1 < t.len() {
            Some(t[i + 1])
        } else {
            None
        };
        lemma_step_flags(st, next);
        assert(t[i] == "--optional"@);
        let st2 = Scan { optional: true, ..st };
        lemma_scan_one(t, i, st, st2);
        st = st2;
        i = i + 1;
    }
    if feats.len() > 0 {
        lemma_features_are_not_blank(d, 0);
        assert(feats[0].len() > 0);
        lemma_joined_begins(feats, ","@);
        lemma_step_attached(st, list, None);
        assert(t[i] == "-F"@ + list);
        assert(i + 1 == t.len());
        let st2 = Scan { features: Some(list), ..st };
        lemma_scan_one(t, i, st, st2);
        st = st2;
        i = i + 1;
    }
    assert(i == t.len());
    assert(scan_from(t, i, st) == Ok::<Scan, FaultView>(st));
    assert(scan_end(st) == Ok::<DependencyView, FaultView>(plain(d)));
}

/// Law: what is written is read back. The command fragment of a well-formed
/// descriptor, read as a specification, gives the descriptor again, with
/// its features written the plain way. It is asked of the features that none
/// holds a space and that the first does not begin with `=`.
pub proof fn lemma_fragment_reads_back(d: DependencyView)
    requires
        d.well_formed(),
        forall|i: int| 0 <= i < features_of(d).len() ==> free_of(#[trigger] features_of(d)[i], ' '),
        features_of(d).len() > 0 ==> features_of(d)[0][0] != '=',
    ensures
        parsed_tokens(tokens_of(command_fragment(d))) == Ok::<DependencyView, FaultView>(plain(d)),
{
    lemma_fragment_splits(d);
    lemma_tokens_read_back(d);
}

/// No feature of a descriptor is blank.
proof fn lemma_features_are_not_blank(d: DependencyView, i: int)
    requires
        0 <= i < features_of(d).len(),
    ensures
        !is_blank(features_of(d)[i]),
{
    let pieces = split_on(
        match d.features {
            Some(f) => f,
            None => Seq::empty(),
        },
        ',',
    );
    lemma_non_blank_holds_none(pieces, i);
}

/// What is left when the blank pieces are left out holds no blank piece.
proof fn lemma_non_blank_holds_none(pieces: Seq<Seq<char>>, i: int)
    requires
        0 <= i < non_blank(pieces).len(),
    ensures
        !is_blank(non_blank(pieces)[i]),
    decreases pieces.len(),
{
    if pieces.len() > 0 {
        let head = non_blank(pieces.drop_last());
        if is_blank(pieces.last()) {
            lemma_non_blank_holds_none(pieces.drop_last(), i);
        } else if i < head.len() {
            lemma_non_blank_holds_none(pieces.drop_last(), i);
        }
    }
}

/// Joined pieces begin as the first piece begins, where that is not empty.
proof fn lemma_joined_begins(parts: Seq<Seq<char>>, sep: Seq<char>)
    requires
        parts.len() > 0,
        parts[0].len() > 0,
    ensures
        joined(parts, sep).len() > 0,
        joined(parts, sep)[0] == parts[0][0],
    decreases parts.len(),
{
    if parts.len() >= 2 {
        let head = parts.drop_last();
        assert(head[0] == parts[0]);
        lemma_joined_begins(head, sep);
    }
}

} // verus!
