//! Paths as text, and the path arithmetic that is left to `iocore::Path`.

use vstd::prelude::*;

verus! {

/// The last component of a path, as `iocore::Path::name` gives it.
pub uninterp spec fn path_name_of(path: Seq<char>) -> Seq<char>;

/// A path without the extension of its last component, as
/// `iocore::Path::without_extension` gives it.
pub uninterp spec fn path_stem_of(path: Seq<char>) -> Seq<char>;

/// The path that `iocore::Path::join` makes of a base and a part.
pub uninterp spec fn path_join_of(base: Seq<char>, part: Seq<char>) -> Seq<char>;

/// The extension of a path's last component with its dot, as
/// `iocore::Path::extension` gives it.
pub uninterp spec fn path_extension_of(path: Seq<char>) -> Option<Seq<char>>;

/// The directory that holds a path's last component, as
/// `iocore::Path::parent` gives it.
pub uninterp spec fn path_parent_of(path: Seq<char>) -> Seq<char>;

/// `iocore::Path::parent` on the path that reads as `path`, taken as it is:
/// the path without its last component, or `./` where nothing is left. (It
/// always gives a parent.)
#[verifier::external_body]
pub(crate) fn path_parent(path: &str) -> (r: String)
    ensures
        r@ == path_parent_of(path@),
{
    match iocore::Path::raw(path).parent() {
        Some(parent) => parent.to_string(),
        None => String::new(),
    }
}

/// `iocore::Path::name` on the path that reads as `path`, taken as it is:
/// its last component.
#[verifier::external_body]
pub(crate) fn path_name(path: &str) -> (r: String)
    ensures
        r@ == path_name_of(path@),
{
    iocore::Path::raw(path).name()
}

/// `iocore::Path::without_extension` on the path that reads as `path`, taken
/// as it is: the same path with the last component's extension removed.
#[verifier::external_body]
pub(crate) fn path_stem(path: &str) -> (r: String)
    ensures
        r@ == path_stem_of(path@),
{
    iocore::Path::raw(path).without_extension().to_string()
}

/// `iocore::Path::join` on the path that reads as `base`, taken as it is:
/// `part` appended as further components, or `part` alone where it is
/// absolute.
#[verifier::external_body]
pub(crate) fn path_join(base: &str, part: &str) -> (r: String)
    ensures
        r@ == path_join_of(base@, part@),
{
    iocore::Path::raw(base).join(part).to_string()
}

/// `iocore::Path::extension` on the path that reads as `path`, taken as it
/// is: the last component's extension behind a dot, if it has one.
#[verifier::external_body]
pub(crate) fn path_extension(path: &str) -> (r: Option<String>)
    ensures
        crate::text::text_opt(r) == path_extension_of(path@),
{
    iocore::Path::raw(path).extension()
}

} // verus!
