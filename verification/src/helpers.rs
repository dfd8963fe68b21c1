//! Naming rules: turning arbitrary text into crate names, package names and
//! type names, and telling valid names from invalid ones.

use vstd::prelude::*;
use crate::paths::{
    path_join, path_join_of, path_name, path_name_of, path_parent, path_parent_of, path_stem,
    path_stem_of,
};
use crate::patterns::{
    matches_of, regex_matches_of, regex_replaced_of, regex_split_of, replace_all_by, split_by,
    ERROR_SUFFIXED, INNER_NON_WORD_RUN, NON_SLUG_CHAR, NON_WORD_RUN,
};
use crate::tables::{table_fields, table_text, Field};
use crate::text::{
    append_str, char_is_alnum, char_is_digit, char_is_lower, chars_of,
    debug_quoted, is_alnum, is_ascii_char, is_ascii_text, is_lower, is_lower_alnum, is_upper,
    lowercase, lowered, no_upper, push_char, quoted, split_on, split_text, text_of, uppercase,
    uppered,
};

verus! {

/// `s` without its leading run of characters that are no lowercase letters.
pub open spec fn strip_leading(s: Seq<char>) -> Seq<char>
    decreases s.len(),
{
    if s.len() == 0 || is_lower(s[0]) {
        s
    } else {
        strip_leading(s.drop_first())
    }
}

/// `s` without its last character, where that is neither a lowercase letter
/// nor a digit.
pub open spec fn strip_trailing_one(s: Seq<char>) -> Seq<char> {
    if s.len() > 0 && !is_lower_alnum(s.last()) {
        s.drop_last()
    } else {
        s
    }
}

/// `s` with every run of `sep` reduced to a single `sep`.
pub open spec fn collapse(s: Seq<char>, sep: char) -> Seq<char>
    decreases s.len(),
{
    if s.len() == 0 {
        s
    } else if s.len() >= 2 && s[0] == sep && s[1] == sep {
        collapse(s.drop_first(), sep)
    } else {
        seq![s[0]] + collapse(s.drop_first(), sep)
    }
}

/// `c` where it is an ASCII letter, a digit or `sep`; `sep` in place of any
/// other character.
pub open spec fn tame(c: char, sep: char) -> char {
    if is_alnum(c) || c == sep {
        c
    } else {
        sep
    }
}

/// `s` with every character that is neither alphanumeric nor `sep` replaced
/// by `sep`.
pub open spec fn replace_others(s: Seq<char>, sep: char) -> Seq<char> {
    s.map_values(|c: char| tame(c, sep))
}

/// The name that a lowercased text normalizes to: leading non-letters gone,
/// one trailing non-alphanumeric character gone, runs of `sep` collapsed, and
/// every other foreign character replaced by `sep`.
pub open spec fn normalized(low: Seq<char>, sep: char) -> Seq<char> {
    replace_others(collapse(strip_trailing_one(strip_leading(low)), sep), sep)
}

/// The name that any text normalizes to.
pub open spec fn acceptable_name(raw: Seq<char>, sep: char) -> Seq<char> {
    normalized(lowered(raw), sep)
}

/// Every character of `s` is a lowercase letter, a digit or `sep`.
pub open spec fn only_name_chars(s: Seq<char>, sep: char) -> bool {
    forall|i: int| 0 <= i < s.len() ==> is_lower_alnum(#[trigger] s[i]) || s[i] == sep
}

/// No two neighbours in `s` are both `sep`.
pub open spec fn no_double(s: Seq<char>, sep: char) -> bool {
    forall|i: int| 0 <= i < s.len() - 1 ==> !(#[trigger] s[i] == sep && s[i + 1] == sep)
}

/// A name that normalizing leaves alone: made of lowercase letters, digits
/// and `sep`; starts with a letter; does not end with `sep`; holds no two
/// `sep` in a row.
pub open spec fn tidy(s: Seq<char>, sep: char) -> bool {
    &&& only_name_chars(s, sep)
    &&& s.len() > 0 ==> is_lower(s[0])
    &&& s.len() > 0 ==> s.last() != sep
    &&& no_double(s, sep)
}

/// Stripping the leading run leaves a suffix: the part of `s` from its first
/// lowercase letter on.
proof fn lemma_strip_leading(s: Seq<char>)
    ensures
        strip_leading(s).len() <= s.len(),
        strip_leading(s) == s.skip(s.len() - strip_leading(s).len()),
        strip_leading(s).len() > 0 ==> is_lower(strip_leading(s)[0]),
        forall|i: int| 0 <= i < s.len() - strip_leading(s).len() ==> !is_lower(#[trigger] s[i]),
    decreases s.len(),
{
    if s.len() == 0 || is_lower(s[0]) {
        assert(s.skip(0) =~= s);
    } else {
        let t = s.drop_first();
        lemma_strip_leading(t);
        let k = t.len() - strip_leading(t).len();
        assert(t.skip(k) =~= s.skip(k + 1));
        assert forall|i: int| 0 <= i < s.len() - strip_leading(s).len() implies !is_lower(
            #[trigger] s[i],
        ) by {
            if i > 0 {
                assert(s[i] == t[i - 1]);
            }
        }
    }
}

/// Collapsing never lengthens, and keeps the first and the last character.
proof fn lemma_collapse_ends(s: Seq<char>, sep: char)
    ensures
        collapse(s, sep).len() <= s.len(),
        s.len() > 0 ==> collapse(s, sep).len() > 0,
        s.len() > 0 ==> collapse(s, sep)[0] == s[0],
        s.len() > 0 ==> collapse(s, sep).last() == s.last(),
    decreases s.len(),
{
    if s.len() > 0 {
        let t = s.drop_first();
        lemma_collapse_ends(t, sep);
        if t.len() > 0 {
            assert(t.last() == s.last());
            assert(t[0] == s[1]);
        }
    }
}

/// Whatever holds of every character of `s` holds of every character of
/// `collapse(s, sep)`.
proof fn lemma_collapse_keeps(s: Seq<char>, sep: char, p: spec_fn(char) -> bool)
    requires
        forall|i: int| 0 <= i < s.len() ==> p(#[trigger] s[i]),
    ensures
        forall|i: int| 0 <= i < collapse(s, sep).len() ==> p(#[trigger] collapse(s, sep)[i]),
    decreases s.len(),
{
    if s.len() > 0 {
        let t = s.drop_first();
        assert forall|i: int| 0 <= i < t.len() implies p(#[trigger] t[i]) by {
            assert(t[i] == s[i + 1]);
        }
        lemma_collapse_keeps(t, sep, p);
        let ct = collapse(t, sep);
        let cs = collapse(s, sep);
        if !(s.len() >= 2 && s[0] == sep && s[1] == sep) {
            assert forall|i: int| 0 <= i < cs.len() implies p(#[trigger] cs[i]) by {
                if i > 0 {
                    assert(cs[i] == ct[i - 1]);
                }
            }
        }
    }
}

/// Collapsing changes `s` exactly when `s` holds two `sep` in a row, and then
/// it shortens `s`.
proof fn lemma_collapse_fixed(s: Seq<char>, sep: char)
    ensures
        no_double(s, sep) ==> collapse(s, sep) == s,
        !no_double(s, sep) ==> collapse(s, sep).len() < s.len(),
    decreases s.len(),
{
    if s.len() > 0 {
        let t = s.drop_first();
        lemma_collapse_fixed(t, sep);
        lemma_collapse_ends(t, sep);
        if s.len() >= 2 && s[0] == sep && s[1] == sep {
            assert(!no_double(s, sep)) by {
                assert(s[0int] == sep && s[0int + 1] == sep);
            }
        } else {
            if no_double(s, sep) {
                assert forall|i: int| 0 <= i < t.len() - 1 implies !(#[trigger] t[i] == sep
                    && t[i + 1] == sep) by {
                    assert(t[i] == s[i + 1]);
                    assert(t[i + 1] == s[i + 1 + 1]);
                }
                assert(collapse(s, sep) =~= s);
            } else {
                assert(!no_double(t, sep)) by {
                    let i = choose|i: int|
                        0 <= i < s.len() - 1 && (#[trigger] s[i] == sep && s[i + 1] == sep);
                    assert(i > 0);
                    assert(t[i - 1] == s[i] && t[i - 1 + 1] == s[i + 1]);
                }
            }
        }
    }
}

/// Where the leading run of non-letters ends, the stripped text begins.
proof fn lemma_strip_leading_at(s: Seq<char>, k: int)
    requires
        0 <= k <= s.len(),
        forall|i: int| 0 <= i < k ==> !is_lower(#[trigger] s[i]),
        k == s.len() || is_lower(s[k]),
    ensures
        strip_leading(s) == s.skip(k),
    decreases k,
{
    if k == 0 {
        assert(s.skip(0) =~= s);
    } else {
        let t = s.drop_first();
        assert forall|i: int| 0 <= i < k - 1 implies !is_lower(#[trigger] t[i]) by {
            assert(t[i] == s[i + 1]);
        }
        lemma_strip_leading_at(t, k - 1);
        assert(t.skip(k - 1) =~= s.skip(k));
    }
}

/// Law: a normalized name is made of lowercase letters, digits and `sep`,
/// and starts with a lowercase letter (so never with a `sep` that is none),
/// whenever the lowercased text it came from holds no `A`–`Z`.
pub proof fn lemma_normalized_shape(low: Seq<char>, sep: char)
    requires
        no_upper(low),
    ensures
        only_name_chars(normalized(low, sep), sep),
        normalized(low, sep).len() > 0 ==> is_lower(normalized(low, sep)[0]),
{
    let u = strip_leading(low);
    let t = strip_trailing_one(u);
    let c = collapse(t, sep);
    let n = normalized(low, sep);
    lemma_strip_leading(low);
    let p = |ch: char| !is_upper(ch);
    assert forall|i: int| 0 <= i < t.len() implies p(#[trigger] t[i]) by {
        assert(t[i] == u[i]);
        assert(u[i] == low[i + (low.len() - u.len())]);
    }
    lemma_collapse_keeps(t, sep, p);
    lemma_collapse_ends(t, sep);
    assert forall|i: int| 0 <= i < n.len() implies is_lower_alnum(#[trigger] n[i]) || n[i]
        == sep by {
        assert(n[i] == tame(c[i], sep));
        assert(p(c[i]));
    }
    if n.len() > 0 {
        assert(n[0] == tame(c[0], sep));
        assert(c[0] == t[0]);
        assert(t[0] == u[0]);
    }
}

/// Law: normalizing leaves a tidy name as it is.
pub proof fn lemma_tidy_is_fixed(x: Seq<char>, sep: char)
    requires
        tidy(x, sep),
    ensures
        normalized(x, sep) == x,
{
    lemma_collapse_fixed(x, sep);
    assert(replace_others(x, sep) =~= x);
}

/// Law: normalizing a second time changes nothing exactly when the first
/// result is tidy. A first result that ends with `sep`, or holds two `sep` in
/// a row, is changed: `"ab--"` gives `"ab-"`, which gives `"ab"`; and
/// `"a!!b"` gives `"a--b"`, which gives `"a-b"`.
pub proof fn lemma_acceptable_name_idempotent(raw: Seq<char>, sep: char)
    requires
        is_ascii_char(sep),
        !is_alnum(sep),
    ensures
        acceptable_name(acceptable_name(raw, sep), sep) == acceptable_name(raw, sep) <==> tidy(
            acceptable_name(raw, sep),
            sep,
        ),
{
    let n = acceptable_name(raw, sep);
    let pre = collapse(strip_trailing_one(strip_leading(lowered(raw))), sep);
    assert forall|i: int| 0 <= i < n.len() implies is_ascii_char(#[trigger] n[i]) by {
        assert(n[i] == tame(pre[i], sep));
    }
    assert(is_ascii_text(n));
    let m = lowered(n);
    assert(no_upper(m));
    lemma_normalized_shape(m, sep);
    if tidy(n, sep) {
        assert(m =~= n);
        lemma_tidy_is_fixed(n, sep);
    }
    if acceptable_name(n, sep) == n {
        assert(only_name_chars(n, sep));
        assert(m =~= n);
        lemma_strip_leading_at(n, 0);
        lemma_collapse_ends(strip_trailing_one(n), sep);
        lemma_collapse_fixed(strip_trailing_one(n), sep);
        if n.len() > 0 && n.last() == sep {
            assert(strip_trailing_one(n).len() < n.len());
        }
        if !no_double(n, sep) {
            assert(strip_trailing_one(n) == n);
        }
    }
}

/// The stripped text ends in two characters of which the last is no lowercase
/// letter or digit and the one before it is not alphanumeric.
pub open spec fn dirty_tail(u: Seq<char>) -> bool {
    u.len() >= 2 && !is_lower_alnum(u.last()) && !is_alnum(u[u.len() - 2])
}

/// Law: a normalized name ends with `sep` exactly when the text, once its
/// leading run is stripped, has a dirty tail. For every other text the name
/// ends with a letter or a digit.
pub proof fn lemma_normalized_end(low: Seq<char>, sep: char)
    requires
        !is_alnum(sep),
    ensures
        (normalized(low, sep).len() > 0 && normalized(low, sep).last() == sep) <==> dirty_tail(
            strip_leading(low),
        ),
{
    let u = strip_leading(low);
    let t = strip_trailing_one(u);
    let c = collapse(t, sep);
    let n = normalized(low, sep);
    lemma_strip_leading(low);
    lemma_collapse_ends(t, sep);
    if t.len() > 0 {
        assert(n.last() == tame(c.last(), sep));
    }
    if u.len() > 0 && !is_lower_alnum(u.last()) {
        assert(u.len() >= 2);
        assert(t.last() == u[u.len() - 2]);
    }
}

/// Normalizes a text that has been lowercased already.
pub fn normalize_lowered(low: &str, sep: char) -> (r: String)
    ensures
        r@ == normalized(low@, sep),
{
    let v = chars_of(low);
    let n = v.len();
    let mut start: usize = 0;
    while start < n && !char_is_lower(v[start])
        invariant
            start <= n,
            n == v.len(),
            forall|i: int| 0 <= i < start ==> !is_lower(#[trigger] v@[i]),
        decreases n - start,
    {
        start = start + 1;
    }
    let mut end: usize = n;
    if end > start && !(char_is_lower(v[end - 1]) || char_is_digit(v[end - 1])) {
        end = end - 1;
    }
    let ghost t = v@.subrange(start as int, end as int);
    proof {
        lemma_strip_leading_at(v@, start as int);
        let u = v@.skip(start as int);
        if u.len() > 0 {
            assert(u.last() == v@[n - 1]);
        }
        assert(t =~= strip_trailing_one(u));
    }
    let mut w: Vec<char> = Vec::new();
    let mut i: usize = start;
    proof {
        assert(t.skip(0) =~= t);
    }
    while i < end
        invariant
            start <= i <= end,
            end <= v.len(),
            t == v@.subrange(start as int, end as int),
            collapse(t, sep) == w@ + collapse(t.skip(i - start), sep),
        decreases end - i,
    {
        let ghost rest = t.skip(i - start);
        proof {
            assert(rest.drop_first() =~= t.skip(i + 1 - start));
            assert(rest[0] == v@[i as int]);
            if i + 1 < end {
                assert(rest[1] == v@[i + 1]);
            }
        }
        let run_goes_on = v[i] == sep && i + 1 < end && v[i + 1] == sep;
        if !run_goes_on {
            w.push(v[i]);
            proof {
                assert(collapse(rest, sep) == seq![rest[0]] + collapse(rest.drop_first(), sep));
                assert(w@ + collapse(t.skip(i + 1 - start), sep) =~= w@.drop_last() + (seq![
                    rest[0],
                ] + collapse(rest.drop_first(), sep)));
            }
        }
        i = i + 1;
    }
    proof {
        assert(t.skip(end - start).len() == 0);
        assert(collapse(t, sep) =~= w@);
    }
    let mut out = String::new();
    let mut j: usize = 0;
    while j < w.len()
        invariant
            j <= w.len(),
            out@ =~= replace_others(w@.take(j as int), sep),
        decreases w.len() - j,
    {
        let c = w[j];
        let d = if char_is_alnum(c) || c == sep {
            c
        } else {
            sep
        };
        push_char(&mut out, d);
        proof {
            assert(w@.take(j + 1) =~= w@.take(j as int).push(c));
        }
        j = j + 1;
    }
    proof {
        assert(w@.take(w.len() as int) =~= w@);
    }
    out
}

/// Normalizes any text into a name with the separator `sep`: lowercases it,
/// strips the leading run of characters that are no lowercase letters, strips
/// one trailing character that is neither letter nor digit, collapses runs of
/// `sep`, and replaces every other character that is neither alphanumeric
/// nor `sep` by `sep`.
pub fn into_acceptable_name(val: &str, sep: char) -> (r: String)
    ensures
        r@ == acceptable_name(val@, sep),
        only_name_chars(r@, sep),
        r@.len() > 0 ==> is_lower(r@[0]),
{
    let low = lowercase(val);
    proof {
        lemma_normalized_shape(low@, sep);
    }
    normalize_lowered(low.as_str(), sep)
}

/// The crate name that `val` normalizes to: kebab-case.
pub fn into_acceptable_crate_name(val: &str) -> (r: String)
    ensures
        r@ == acceptable_name(val@, '-'),
        only_name_chars(r@, '-'),
        r@.len() > 0 ==> is_lower(r@[0]),
{
    into_acceptable_name(val, '-')
}

/// The package name that `val` normalizes to: snake_case.
pub fn into_acceptable_package_name(val: &str) -> (r: String)
    ensures
        r@ == acceptable_name(val@, '_'),
        only_name_chars(r@, '_'),
        r@.len() > 0 ==> is_lower(r@[0]),
{
    into_acceptable_name(val, '_')
}

/// `s` without `p` at its start, where it starts with `p`.
pub open spec fn without_prefix(s: Seq<char>, p: Seq<char>) -> Seq<char> {
    if p.len() <= s.len() && s.take(p.len() as int) == p {
        s.skip(p.len() as int)
    } else {
        s
    }
}

/// `s` without `p` at its end, where it ends with `p`.
pub open spec fn without_suffix(s: Seq<char>, p: Seq<char>) -> Seq<char> {
    if p.len() <= s.len() && s.skip(s.len() - p.len()) == p {
        s.take(s.len() - p.len())
    } else {
        s
    }
}

/// `s` with one `sep` taken from its start and then one from its end, where
/// there is one.
pub open spec fn stripped_ends(s: Seq<char>, sep: Seq<char>) -> Seq<char> {
    without_suffix(without_prefix(s, sep), sep)
}

/// Whether `v` holds `p` from position `at` on.
fn holds_at(v: &Vec<char>, at: usize, p: &Vec<char>) -> (r: bool)
    requires
        at + p.len() <= v.len(),
    ensures
        r == (v@.subrange(at as int, at + p.len()) == p@),
{
    let mut i: usize = 0;
    while i < p.len()
        invariant
            i <= p.len(),
            at + p.len() <= v.len(),
            forall|k: int| 0 <= k < i ==> v@[at + k] == #[trigger] p@[k],
        decreases p.len() - i,
    {
        if v[at + i] != p[i] {
            proof {
                assert(v@.subrange(at as int, at + p.len())[i as int] == v@[at + i]);
            }
            return false;
        }
        i = i + 1;
    }
    proof {
        assert(v@.subrange(at as int, at + p.len()) =~= p@);
    }
    true
}

/// Strips `sep` once from the start of `text` and once from its end.
pub fn strip_ends(text: &str, sep: &str) -> (r: String)
    ensures
        r@ == stripped_ends(text@, sep@),
{
    let v = chars_of(text);
    let p = chars_of(sep);
    let mut start: usize = 0;
    if p.len() <= v.len() && holds_at(&v, 0, &p) {
        start = p.len();
    }
    let ghost mid = without_prefix(v@, p@);
    proof {
        assert(v@.take(p.len() as int) =~= v@.subrange(0, 0 + p.len()));
        assert(mid =~= v@.skip(start as int));
    }
    let mut end: usize = v.len();
    if p.len() <= end - start && holds_at(&v, end - p.len(), &p) {
        end = end - p.len();
    }
    proof {
        if p.len() <= mid.len() {
            assert(mid.skip(mid.len() - p.len()) =~= v@.subrange(
                v.len() - p.len(),
                v.len() - p.len() + p.len(),
            ));
        }
        assert(stripped_ends(v@, p@) =~= v@.subrange(start as int, end as int));
    }
    let mut out = String::new();
    let mut i: usize = start;
    while i < end
        invariant
            start <= i <= end <= v.len(),
            out@ =~= v@.subrange(start as int, i as int),
        decreases end - i,
    {
        push_char(&mut out, v[i]);
        i = i + 1;
    }
    out
}

/// Turns `text` into a slug: every character that is neither an ASCII
/// letter, a digit, `_` nor `-` gives way to `sep` (`-` where none is given),
/// and one `sep` is stripped from each end.
pub fn slug(text: &str, sep: Option<&str>) -> (r: String)
    ensures
        r@ == stripped_ends(
            regex_replaced_of(
                NON_SLUG_CHAR@,
                text@,
                match sep {
                    Some(s) => s@,
                    None => "-"@,
                },
            ),
            match sep {
                Some(s) => s@,
                None => "-"@,
            },
        ),
{
    let sep = match sep {
        Some(s) => s,
        None => "-",
    };
    let replaced = replace_all_by(NON_SLUG_CHAR, text, sep);
    strip_ends(replaced.as_str(), sep)
}

/// `s` with its first character in uppercase.
pub open spec fn capitalized(s: Seq<char>) -> Seq<char> {
    if s.len() == 0 {
        s
    } else {
        uppered(s.take(1)) + s.skip(1)
    }
}

/// The pieces of `pieces`, each capitalized, one after the other.
pub open spec fn pascal_of(pieces: Seq<Seq<char>>) -> Seq<char>
    decreases pieces.len(),
{
    if pieces.len() == 0 {
        Seq::empty()
    } else {
        pascal_of(pieces.drop_last()) + capitalized(pieces.last())
    }
}

/// Capitalizes `val`: its first character in uppercase, the rest as it was.
pub fn capitalize_string(val: &str) -> (r: String)
    ensures
        r@ == capitalized(val@),
{
    let v = chars_of(val);
    if v.len() == 0 {
        return String::new();
    }
    let mut head = String::new();
    push_char(&mut head, v[0]);
    proof {
        assert(head@ =~= v@.take(1));
    }
    let up = uppercase(head.as_str());
    let mut out = chars_of(up.as_str());
    let mut i: usize = 1;
    while i < v.len()
        invariant
            1 <= i <= v.len(),
            out@ =~= uppered(v@.take(1)) + v@.subrange(1, i as int),
        decreases v.len() - i,
    {
        out.push(v[i]);
        i = i + 1;
    }
    proof {
        assert(v@.subrange(1, v.len() as int) =~= v@.skip(1));
    }
    text_of(&out)
}

/// Capitalizes each piece and puts them together with nothing in between.
pub fn pascal_case_of_pieces(pieces: &Vec<String>) -> (r: String)
    ensures
        r@ == pascal_of(pieces.deep_view()),
{
    let mut out: Vec<char> = Vec::new();
    let ghost all = pieces.deep_view();
    let mut i: usize = 0;
    while i < pieces.len()
        invariant
            i <= pieces.len(),
            all == pieces.deep_view(),
            out@ == pascal_of(all.take(i as int)),
        decreases pieces.len() - i,
    {
        let cap = capitalize_string(pieces[i].as_str());
        append_str(&mut out, cap.as_str());
        proof {
            let now = all.take(i + 1);
            assert(now.drop_last() =~= all.take(i as int));
            assert(now.last() == pieces@[i as int]@);
        }
        i = i + 1;
    }
    proof {
        assert(all.take(pieces.len() as int) =~= all);
    }
    text_of(&out)
}

/// The type name for a package name: the package name is normalized, cut at
/// each `_`, and its pieces are capitalized and put together. An empty piece
/// adds nothing.
pub fn struct_name_from_package_name(val: &str) -> (r: String)
    ensures
        r@ == pascal_of(split_on(acceptable_name(val@, '_'), '_')),
{
    let package_name = into_acceptable_package_name(val);
    let pieces = split_text(package_name.as_str(), '_');
    pascal_case_of_pieces(&pieces)
}

/// The PascalCase form of `val`: cut at every run of non-word characters,
/// each piece capitalized, the pieces put together.
pub fn to_pascal_case(val: &str) -> (r: String)
    ensures
        r@ == pascal_of(regex_split_of(NON_WORD_RUN@, val@)),
{
    let pieces = split_by(NON_WORD_RUN, val);
    pascal_case_of_pieces(&pieces)
}

/// The runs of non-word characters that stand between two words of `val`.
pub fn words(val: &str) -> (r: Vec<String>)
    ensures
        r.deep_view() == regex_matches_of(INNER_NON_WORD_RUN@, val@),
{
    matches_of(INNER_NON_WORD_RUN, val)
}

/// The name of an error type made from `val`: `val` with its line rewritten
/// to what stands before a trailing `Error`, then the `words` of that,
/// capitalized and put together.
pub fn into_acceptable_error_type_name(val: &str) -> (r: String)
    ensures
        r@ == pascal_of(
            regex_matches_of(
                INNER_NON_WORD_RUN@,
                regex_replaced_of(ERROR_SUFFIXED@, val@, "$name"@),
            ),
        ),
{
    let base = replace_all_by(ERROR_SUFFIXED, val, "$name");
    let pieces = words(base.as_str());
    pascal_case_of_pieces(&pieces)
}

/// A valid name with the separator `sep`: a lowercase letter first, then
/// one or more groups, each a run of lowercase letters and digits, alone or
/// behind one `sep`.
pub open spec fn is_name(s: Seq<char>, sep: char) -> bool {
    &&& s.len() >= 2
    &&& is_lower(s[0])
    &&& only_name_chars(s, sep)
    &&& forall|i: int|
        0 <= i < s.len() && #[trigger] s[i] == sep ==> i + 1 < s.len() && is_lower_alnum(s[i + 1])
}

/// A valid crate name: kebab-case.
pub open spec fn is_crate_name(s: Seq<char>) -> bool {
    is_name(s, '-')
}

/// A valid package name: snake_case.
pub open spec fn is_package_name(s: Seq<char>) -> bool {
    is_name(s, '_')
}

/// Law: the valid names are the tidy names of two characters or more.
pub proof fn lemma_name_is_tidy(s: Seq<char>, sep: char)
    requires
        !is_alnum(sep),
    ensures
        is_name(s, sep) <==> tidy(s, sep) && s.len() >= 2,
{
    if is_name(s, sep) {
        assert(s.last() != sep) by {
            if s.last() == sep {
                assert(s[s.len() - 1] == sep);
            }
        }
    }
    if tidy(s, sep) && s.len() >= 2 {
        assert forall|i: int| 0 <= i < s.len() && #[trigger] s[i] == sep implies i + 1 < s.len()
            && is_lower_alnum(s[i + 1]) by {
            if i + 1 == s.len() {
                assert(s.last() == sep);
            } else {
                assert(is_lower_alnum(s[i + 1]) || s[i + 1] == sep);
            }
        }
    }
}

/// Whether `v` is a valid name with the separator `sep`.
pub fn matches_name(v: &Vec<char>, sep: char) -> (r: bool)
    ensures
        r == is_name(v@, sep),
{
    let n = v.len();
    if n < 2 || !char_is_lower(v[0]) {
        return false;
    }
    let mut i: usize = 0;
    while i < n
        invariant
            i <= n,
            n == v.len(),
            forall|k: int| 0 <= k < i ==> is_lower_alnum(#[trigger] v@[k]) || v@[k] == sep,
            forall|k: int|
                0 <= k < i && #[trigger] v@[k] == sep ==> k + 1 < n && is_lower_alnum(v@[k + 1]),
        decreases n - i,
    {
        let c = v[i];
        let plain = char_is_lower(c) || char_is_digit(c);
        if !plain && c != sep {
            return false;
        }
        if c == sep {
            if i + 1 >= n {
                return false;
            }
            let d = v[i + 1];
            if !(char_is_lower(d) || char_is_digit(d)) {
                return false;
            }
        }
        i = i + 1;
    }
    true
}

/// The text of `head` followed by the literal `tail`.
fn with_tail(head: &String, tail: &str) -> (r: String)
    ensures
        r@ == head@ + tail@,
{
    let mut out = chars_of(head.as_str());
    append_str(&mut out, tail);
    text_of(&out)
}

/// Accepts `val` where it is a valid crate name as it stands, and says so
/// where it is not.
pub fn acceptable_crate_name(val: &str) -> (r: Result<String, String>)
    ensures
        match r {
            Ok(name) => is_crate_name(val@) && name@ == val@,
            Err(why) => !is_crate_name(val@) && why@ == debug_quoted(val@)
                + " does not appear to be a valid crate name"@,
        },
{
    let v = chars_of(val);
    if matches_name(&v, '-') {
        Ok(text_of(&v))
    } else {
        Err(with_tail(&quoted(val), " does not appear to be a valid crate name"))
    }
}

/// Accepts `val` where it is a valid package name as it stands, and says so
/// where it is not.
pub fn valid_package_name(val: &str) -> (r: Result<String, String>)
    ensures
        match r {
            Ok(name) => is_package_name(val@) && name@ == val@,
            Err(why) => !is_package_name(val@) && why@ == debug_quoted(val@)
                + " is not a valid package name"@,
        },
{
    let v = chars_of(val);
    if matches_name(&v, '_') {
        Ok(text_of(&v))
    } else {
        Err(with_tail(&quoted(val), " is not a valid package name"))
    }
}

/// Normalizes `val` into a crate name and accepts the result where it is a
/// valid crate name; says that `val` is none where it is not.
pub fn valid_crate_name(val: &str) -> (r: Result<String, String>)
    ensures
        match r {
            Ok(name) => is_crate_name(name@) && name@ == acceptable_name(val@, '-'),
            Err(why) => !is_crate_name(acceptable_name(val@, '-')) && why@ == debug_quoted(val@)
                + " is not a valid crate name"@,
        },
{
    let name = into_acceptable_name(val, '-');
    match acceptable_crate_name(name.as_str()) {
        Ok(name) => Ok(name),
        Err(_) => Err(with_tail(&quoted(val), " is not a valid crate name")),
    }
}

/// The crate name that a path stands for: the name of its last component
/// without the extension, normalized with `-`.
pub open spec fn crate_name_of_path(path: Seq<char>) -> Seq<char> {
    acceptable_name(path_name_of(path_stem_of(path)), '-')
}

/// The package name for an explicit name, or for a path where there is none:
/// the explicit name, or else the crate name of the path, normalized with
/// `_`.
pub open spec fn package_name_of(name: Option<Seq<char>>, path: Seq<char>) -> Seq<char> {
    acceptable_name(
        match name {
            Some(n) => n,
            None => crate_name_of_path(path),
        },
        '_',
    )
}

/// The crate name for the directory that `path` names. It never fails.
pub fn crate_name_from_path(path: &str) -> (r: Result<String, String>)
    ensures
        r is Ok,
        r->Ok_0@ == crate_name_of_path(path@),
        only_name_chars(r->Ok_0@, '-'),
{
    let stem = path_stem(path);
    let name = path_name(stem.as_str());
    Ok(into_acceptable_crate_name(name.as_str()))
}

/// The package name: from `name` where one is given, whatever the path;
/// from the path where none is. It never fails.
pub fn package_name_from_string_or_path(name: Option<&str>, path: &str) -> (r: Result<
    String,
    String,
>)
    ensures
        r is Ok,
        r->Ok_0@ == package_name_of(
            match name {
                Some(n) => Some(n@),
                None => None,
            },
            path@,
        ),
        only_name_chars(r->Ok_0@, '_'),
{
    let base = match name {
        Some(n) => into_acceptable_package_name(n),
        None => {
            let derived = match crate_name_from_path(path) {
                Ok(c) => c,
                Err(e) => {
                    return Err(e);
                },
            };
            into_acceptable_package_name(derived.as_str())
        },
    };
    Ok(base)
}

/// Law: an explicit name decides the package name, and the path has no say.
pub proof fn lemma_explicit_name_takes_precedence(
    name: Seq<char>,
    path_a: Seq<char>,
    path_b: Seq<char>,
)
    ensures
        package_name_of(Some(name), path_a) == package_name_of(Some(name), path_b),
        package_name_of(Some(name), path_a) == acceptable_name(name, '_'),
{
}

/// Law: the derived names depend on nothing but what they are derived from:
/// equal paths give equal crate names, and equal names and paths give equal
/// package names.
pub proof fn lemma_names_are_functions(
    name_a: Option<Seq<char>>,
    path_a: Seq<char>,
    name_b: Option<Seq<char>>,
    path_b: Seq<char>,
)
    requires
        name_a == name_b,
        path_a == path_b,
    ensures
        crate_name_of_path(path_a) == crate_name_of_path(path_b),
        package_name_of(name_a, path_a) == package_name_of(name_b, path_b),
{
}

/// The path that an entry names: the string under its `path` key, where the
/// entry is there and holds one.
pub open spec fn entry_path_of(entry: Option<Map<Seq<char>, Field>>) -> Option<Seq<char>> {
    match entry {
        Some(fields) => if fields.dom().contains("path"@) {
            match fields["path"@] {
                Field::Text(p) => Some(p),
                _ => None,
            }
        } else {
            None
        },
        None => None,
    }
}

/// The path that a scaffold entry asks to be written to, if it names one.
pub fn path_to_entry_path(entry: &Option<toml::Table>) -> (r: Option<String>)
    ensures
        crate::text::text_opt(r) == entry_path_of(
            match entry {
                Some(t) => Some(table_fields(*t)),
                None => None,
            },
        ),
{
    match entry {
        Some(t) => table_text(t, "path"),
        None => None,
    }
}

/// The project directory that `val` stands for: the directory of `val`
/// where `val` names a file called `Cargo.toml`, and `val` itself otherwise.
pub open spec fn manifest_target_of(val: Seq<char>, is_dir: bool) -> Seq<char> {
    if path_name_of(val) == "Cargo.toml"@ && !is_dir {
        path_parent_of(val)
    } else {
        val
    }
}

/// The project directory that `val` stands for, given whether `val` is a
/// directory.
pub fn manifest_target(val: &str, is_dir: bool) -> (r: String)
    ensures
        r@ == manifest_target_of(val@, is_dir),
{
    let name = chars_of(path_name(val).as_str());
    if crate::text::reads_as(&name, "Cargo.toml") && !is_dir {
        path_parent(val)
    } else {
        crate::text::copy_text(val)
    }
}

/// Where the manifest of the project at `target` goes.
pub fn manifest_path_of(target: &str) -> (r: String)
    ensures
        r@ == path_join_of(target@, "Cargo.toml"@),
{
    path_join(target, "Cargo.toml")
}

/// The verdict on a target, given what was found at its manifest path: the
/// target is refused exactly when something is there that is no directory.
pub fn manifest_path_verdict(target: &str, manifest_path: &str, exists: bool, is_dir: bool) -> (r:
    Result<String, String>)
    ensures
        match r {
            Ok(accepted) => !(exists && !is_dir) && accepted@ == target@,
            Err(why) => exists && !is_dir && why@ == manifest_path@ + " already exists"@,
        },
{
    if exists && !is_dir {
        let head = crate::text::copy_text(manifest_path);
        Err(with_tail(&head, " already exists"))
    } else {
        Ok(crate::text::copy_text(target))
    }
}

} // verus!
