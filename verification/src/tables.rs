//! TOML tables as the scaffold's entries are kept in: what a table holds,
//! and the few operations on `toml::Table` that planning needs.

use vstd::prelude::*;
use crate::text::text_opt;

verus! {

/// `toml::map::Map`, of which `toml::Table` is the one with string keys and
/// TOML values. It is carried as it is; what a table holds is named by
/// `table_fields`.
#[verifier::external_type_specification]
#[verifier::external_body]
#[verifier::reject_recursive_types(K)]
#[verifier::reject_recursive_types(V)]
pub struct ExTomlMap<K, V>(toml::map::Map<K, V>);

/// `toml::Value`, a value in a table. It is carried as it is.
#[verifier::external_type_specification]
#[verifier::external_body]
pub struct ExTomlValue(toml::Value);

/// A value in a table, as far as planning tells values apart.
pub enum Field {
    /// A string.
    Text(Seq<char>),
    /// A boolean.
    Flag(bool),
    /// An integer.
    Number(int),
    /// An array of strings.
    Texts(Seq<Seq<char>>),
    /// Anything else.
    Other,
}

/// What a table holds: the value under each of its keys.
pub uninterp spec fn table_fields(t: toml::Table) -> Map<Seq<char>, Field>;

/// A table's contents when it holds nothing.
pub open spec fn no_fields() -> Map<Seq<char>, Field> {
    Map::empty()
}

/// What each table of a list holds.
pub open spec fn tables_fields(v: Seq<toml::Table>) -> Seq<Map<Seq<char>, Field>> {
    v.map_values(|t: toml::Table| table_fields(t))
}

/// What an entry that may be missing holds.
pub open spec fn entry_fields(e: Option<toml::Table>) -> Option<Map<Seq<char>, Field>> {
    match e {
        Some(t) => Some(table_fields(t)),
        None => None,
    }
}

/// What each entry of a list holds.
pub open spec fn entries_fields(es: Seq<Option<toml::Table>>) -> Seq<Option<Map<Seq<char>, Field>>> {
    es.map_values(|e: Option<toml::Table>| entry_fields(e))
}

/// `toml::Table::new`: a table that holds nothing.
#[verifier::external_body]
pub(crate) fn table_new() -> (r: toml::Table)
    ensures
        table_fields(r) == no_fields(),
{
    toml::Table::new()
}

/// `toml::Table::clone`: a table that holds what `t` holds.
#[verifier::external_body]
pub(crate) fn table_clone(t: &toml::Table) -> (r: toml::Table)
    ensures
        table_fields(r) == table_fields(*t),
{
    t.clone()
}

/// `toml::Table::insert` with a string value: afterwards the table holds
/// `val` under `key`, and is otherwise as before.
#[verifier::external_body]
pub(crate) fn table_set_text(t: &mut toml::Table, key: &str, val: &str)
    ensures
        table_fields(*final(t)) == table_fields(*old(t)).insert(key@, Field::Text(val@)),
{
    t.insert(key.to_string(), toml::Value::String(val.to_string()));
}

/// `toml::Table::insert` with a boolean value: afterwards the table holds
/// `val` under `key`, and is otherwise as before.
#[verifier::external_body]
pub(crate) fn table_set_flag(t: &mut toml::Table, key: &str, val: bool)
    ensures
        table_fields(*final(t)) == table_fields(*old(t)).insert(key@, Field::Flag(val)),
{
    t.insert(key.to_string(), toml::Value::Boolean(val));
}

/// `toml::Table::insert` with an integer value: afterwards the table holds
/// `val` under `key`, and is otherwise as before.
#[verifier::external_body]
pub(crate) fn table_set_number(t: &mut toml::Table, key: &str, val: i64)
    ensures
        table_fields(*final(t)) == table_fields(*old(t)).insert(key@, Field::Number(val as int)),
{
    t.insert(key.to_string(), toml::Value::Integer(val));
}

/// `toml::Table::insert` with an array of strings: afterwards the table
/// holds the strings of `vals`, in order, under `key`, and is otherwise as
/// before.
#[verifier::external_body]
pub(crate) fn table_set_texts(t: &mut toml::Table, key: &str, vals: &Vec<String>)
    ensures
        table_fields(*final(t)) == table_fields(*old(t)).insert(
            key@,
            Field::Texts(vals.deep_view()),
        ),
{
    let items = vals.iter().map(|s| toml::Value::String(s.clone())).collect();
    t.insert(key.to_string(), toml::Value::Array(items));
}

/// `toml::Table::get`, for a string: the string under `key`, where the table
/// holds one there.
#[verifier::external_body]
pub(crate) fn table_text(t: &toml::Table, key: &str) -> (r: Option<String>)
    ensures
        text_opt(r) == (if table_fields(*t).dom().contains(key@) {
            match table_fields(*t)[key@] {
                Field::Text(s) => Some(s),
                _ => None,
            }
        } else {
            None
        }),
{
    match t.get(key) {
        Some(toml::Value::String(s)) => Some(s.clone()),
        _ => None,
    }
}

/// `toml::Table::keys`: every key of the table, each once.
#[verifier::external_body]
pub(crate) fn table_keys(t: &toml::Table) -> (r: Vec<String>)
    ensures
        r.deep_view().no_duplicates(),
        r.deep_view().to_set() == table_fields(*t).dom(),
{
    t.keys().cloned().collect()
}

/// `toml::Table::get` and `insert`: afterwards `into` holds under `key` what
/// `from` holds there, and is otherwise as before.
#[verifier::external_body]
pub(crate) fn table_copy_field(from: &toml::Table, key: &str, into: &mut toml::Table)
    requires
        table_fields(*from).dom().contains(key@),
    ensures
        table_fields(*final(into)) == table_fields(*old(into)).insert(
            key@,
            table_fields(*from)[key@],
        ),
{
    into.insert(key.to_string(), from.get(key).unwrap().clone());
}

/// A table with the entries of `into`, and over them those of `from`: where
/// both hold a key, the value of `from` stands.
pub fn extend_table(from: &toml::Table, into: &toml::Table) -> (r: toml::Table)
    ensures
        table_fields(r) == table_fields(*into).union_prefer_right(table_fields(*from)),
{
    let mut out = table_clone(into);
    let keys = table_keys(from);
    let ghost names = keys.deep_view();
    let ghost src = table_fields(*from);
    let ghost base = table_fields(*into);
    let mut i: usize = 0;
    proof {
        assert(base.union_prefer_right(src.restrict(names.take(0).to_set())) =~= base);
    }
    while i < keys.len()
        invariant
            i <= keys.len(),
            names == keys.deep_view(),
            src == table_fields(*from),
            names.to_set() == src.dom(),
            table_fields(out) == base.union_prefer_right(
                src.restrict(names.take(i as int).to_set()),
            ),
        decreases keys.len() - i,
    {
        proof {
            assert(names[i as int] == keys@[i as int]@);
            assert(names.to_set().contains(names[i as int]));
        }
        table_copy_field(from, keys[i].as_str(), &mut out);
        proof {
            let seen = names.take(i as int).to_set();
            let now = names.take(i + 1).to_set();
            let k = names[i as int];
            assert(names.take(i + 1) =~= names.take(i as int).push(k));
            let shorter = names.take(i as int);
            let longer = names.take(i + 1);
            assert(now =~= seen.insert(k)) by {
                assert forall|x: Seq<char>| now.contains(x) <==> seen.insert(k).contains(x) by {
                    if longer.contains(x) {
                        let j = choose|j: int| 0 <= j < longer.len() && #[trigger] longer[j] == x;
                        if j < i {
                            assert(shorter[j] == x);
                        }
                    }
                    if shorter.contains(x) {
                        let j = choose|j: int|
                            0 <= j < shorter.len() && #[trigger] shorter[j] == x;
                        assert(longer[j] == x);
                    }
                    if x == k {
                        assert(longer[i as int] == x);
                    }
                }
            }
            assert(table_fields(out) =~= base.union_prefer_right(src.restrict(now)));
        }
        i = i + 1;
    }
    proof {
        assert(names.take(keys.len() as int) =~= names);
        assert(src.restrict(src.dom()) =~= src);
    }
    out
}

/// Appends a table to a list of tables.
pub fn push_table(tables: &mut Vec<toml::Table>, table: toml::Table)
    ensures
        tables_fields(final(tables)@) == tables_fields(old(tables)@).push(table_fields(table)),
{
    let ghost before = tables_fields(tables@);
    tables.push(table);
    proof {
        assert(tables_fields(tables@) =~= before.push(table_fields(table)));
    }
}

} // verus!
