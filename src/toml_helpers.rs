//! Fault-tolerant lookups over a parsed document.
//!
//! Each lookup takes a list of candidate keys in priority order and returns
//! the value of the first key that is present and whose value has the
//! requested shape. A key whose value has another shape counts as absent.
//! When no key fits, the lookup fails with `ConfigError::MissingKey`.

use vstd::prelude::*;

use crate::config::ConfigError;
use crate::value::{Table, Node};

verus! {

/// The shapes of value that the lookups ask for.
pub enum Shape {
    /// A string.
    Str,
    /// An integer.
    Int,
    /// An array whose elements are all strings.
    StrArray,
    /// An array whose elements are all integers.
    IntArray,
    /// A string, or an array whose elements are all strings.
    StrOrStrArray,
    /// An integer, or an array whose elements are all integers.
    IntOrIntArray,
}

/// Whether every element of `a` is a string.
pub open spec fn all_strings(a: Seq<Node>) -> bool {
    forall|i: int| 0 <= i < a.len() ==> #[trigger] a[i] is String
}

/// Whether every element of `a` is an integer.
pub open spec fn all_integers(a: Seq<Node>) -> bool {
    forall|i: int| 0 <= i < a.len() ==> #[trigger] a[i] is Integer
}

/// Whether `v` is an array of strings only.
pub open spec fn is_string_array(v: Node) -> bool {
    match v {
        Node::Array(a) => all_strings(a@),
        _ => false,
    }
}

/// Whether `v` is an array of integers only.
pub open spec fn is_integer_array(v: Node) -> bool {
    match v {
        Node::Array(a) => all_integers(a@),
        _ => false,
    }
}

/// Whether `v` has the shape `shape`.
pub open spec fn fits(v: Node, shape: Shape) -> bool {
    match shape {
        Shape::Str => v is String,
        Shape::Int => v is Integer,
        Shape::StrArray => is_string_array(v),
        Shape::IntArray => is_integer_array(v),
        Shape::StrOrStrArray => v is String || is_string_array(v),
        Shape::IntOrIntArray => v is Integer || is_integer_array(v),
    }
}

/// The value of the first key of `keys` that `t` holds with the shape `shape`.
pub open spec fn first_fitting(t: Table, keys: Seq<Seq<char>>, shape: Shape) -> Option<Node>
    decreases keys.len(),
{
    if keys.len() == 0 {
        None
    } else {
        match t.spec_get(keys[0]) {
            Some(v) if fits(v, shape) => Some(v),
            _ => first_fitting(t, keys.drop_first(), shape),
        }
    }
}

/// The characters of each candidate key.
pub open spec fn key_views(keys: Seq<&str>) -> Seq<Seq<char>> {
    keys.map_values(|k: &str| k@)
}

/// The strings that an array of strings holds, in order.
pub open spec fn string_items(a: Seq<Node>) -> Seq<Seq<char>> {
    a.map_values(|e: Node| e->String_0@)
}

/// The integers that an array of integers holds, in order.
pub open spec fn integer_items(a: Seq<Node>) -> Seq<i64> {
    a.map_values(|e: Node| e->Integer_0)
}

/// The strings that a string or an array of strings stands for.
pub open spec fn strings_of(v: Node) -> Seq<Seq<char>> {
    match v {
        Node::String(s) => seq![s@],
        Node::Array(a) => string_items(a@),
        _ => Seq::empty(),
    }
}

/// The integers that an integer or an array of integers stands for.
pub open spec fn integers_of(v: Node) -> Seq<i64> {
    match v {
        Node::Integer(i) => seq![i],
        Node::Array(a) => integer_items(a@),
        _ => Seq::empty(),
    }
}

/// The characters of each string.
pub open spec fn string_views(v: Seq<String>) -> Seq<Seq<char>> {
    v.map_values(|s: String| s@)
}

/// The error that every lookup reports when no key fits.
pub open spec fn is_no_match(e: ConfigError) -> bool {
    e matches ConfigError::MissingKey(m) && m@ == "No matching key found"@
}

/// With a single candidate key, a lookup finds the value under that key
/// exactly when it has the requested shape.
pub proof fn lemma_single_key(t: Table, key: Seq<char>, shape: Shape)
    ensures
        first_fitting(t, seq![key], shape) == (if t.spec_get(key) matches Some(v) && fits(v, shape) {
            t.spec_get(key)
        } else {
            None
        }),
{
    assert(seq![key].drop_first() =~= Seq::<Seq<char>>::empty());
    reveal_with_fuel(first_fitting, 2);
}

/// An array is read as a list of strings only when every element is a
/// string, and then its strings come out in order; an array holding
/// anything else is not read at all.
pub proof fn lemma_string_array_all_or_nothing(t: Table, key: Seq<char>)
    requires
        t.spec_get(key) matches Some(Node::Array(_)),
    ensures
        all_strings(t.spec_get(key)->0->Array_0@) ==> first_fitting(t, seq![key], Shape::StrArray)
            == t.spec_get(key) && strings_of(t.spec_get(key)->0) == string_items(
            t.spec_get(key)->0->Array_0@,
        ),
        !all_strings(t.spec_get(key)->0->Array_0@) ==> first_fitting(t, seq![key], Shape::StrArray) is None,
{
    lemma_single_key(t, key, Shape::StrArray);
}

proof fn lemma_first_fitting_skip(t: Table, keys: Seq<Seq<char>>, i: int, shape: Shape)
    requires
        0 <= i < keys.len(),
        !(t.spec_get(keys[i]) matches Some(v) && fits(v, shape)),
    ensures
        first_fitting(t, keys.subrange(i, keys.len() as int), shape)
            == first_fitting(t, keys.subrange(i + 1, keys.len() as int), shape),
{
    let rest = keys.subrange(i, keys.len() as int);
    assert(rest.drop_first() =~= keys.subrange(i + 1, keys.len() as int));
    assert(rest[0] == keys[i]);
}

proof fn lemma_first_fitting_here(t: Table, keys: Seq<Seq<char>>, i: int, shape: Shape)
    requires
        0 <= i < keys.len(),
        t.spec_get(keys[i]) matches Some(v) && fits(v, shape),
    ensures
        first_fitting(t, keys.subrange(i, keys.len() as int), shape) == t.spec_get(keys[i]),
{
    let rest = keys.subrange(i, keys.len() as int);
    assert(rest[0] == keys[i]);
}

fn no_match() -> (e: ConfigError)
    ensures
        is_no_match(e),
{
    ConfigError::MissingKey(String::from_str("No matching key found"))
}

/// Whether `v` has the shape `shape`.
fn value_fits(v: &Node, shape: &Shape) -> (r: bool)
    ensures
        r == fits(*v, *shape),
{
    match shape {
        Shape::Str => matches!(v, Node::String(_)),
        Shape::Int => matches!(v, Node::Integer(_)),
        Shape::StrArray => array_of_strings(v),
        Shape::IntArray => array_of_integers(v),
        Shape::StrOrStrArray => matches!(v, Node::String(_)) || array_of_strings(v),
        Shape::IntOrIntArray => matches!(v, Node::Integer(_)) || array_of_integers(v),
    }
}

fn array_of_strings(v: &Node) -> (r: bool)
    ensures
        r == is_string_array(*v),
{
    match v {
        Node::Array(a) => {
            let mut i: usize = 0;
            while i < a.len()
                invariant
                    i <= a@.len(),
                    is_string_array(*v) == all_strings(a@),
                    forall|j: int| 0 <= j < i ==> #[trigger] a@[j] is String,
                decreases a@.len() - i,
            {
                if !matches!(a[i], Node::String(_)) {
                    assert(!(a@[i as int] is String));
                    return false;
                }
                i = i + 1;
            }
            true
        },
        _ => false,
    }
}

fn array_of_integers(v: &Node) -> (r: bool)
    ensures
        r == is_integer_array(*v),
{
    match v {
        Node::Array(a) => {
            let mut i: usize = 0;
            while i < a.len()
                invariant
                    i <= a@.len(),
                    is_integer_array(*v) == all_integers(a@),
                    forall|j: int| 0 <= j < i ==> #[trigger] a@[j] is Integer,
                decreases a@.len() - i,
            {
                if !matches!(a[i], Node::Integer(_)) {
                    assert(!(a@[i as int] is Integer));
                    return false;
                }
                i = i + 1;
            }
            true
        },
        _ => false,
    }
}

/// The value of the first key of `keys` that `table` holds with the shape
/// `shape`.
fn find_fitting<'a>(table: &'a Table, keys: &[&str], shape: Shape) -> (r: Option<&'a Node>)
    ensures
        r matches Some(v) ==> first_fitting(*table, key_views(keys@), shape) == Some(*v) && fits(*v, shape),
        r is None ==> first_fitting(*table, key_views(keys@), shape) is None,
{
    let ghost ks = key_views(keys@);
    assert(ks.subrange(0, ks.len() as int) =~= ks);
    let mut i: usize = 0;
    while i < keys.len()
        invariant
            i <= keys@.len(),
            ks == key_views(keys@),
            first_fitting(*table, ks, shape) == first_fitting(*table, ks.subrange(i as int, ks.len() as int), shape),
        decreases keys@.len() - i,
    {
        let key: &str = keys[i];
        assert(ks[i as int] == key@);
        match table.get(key) {
            Some(v) => {
                if value_fits(v, &shape) {
                    proof {
                        lemma_first_fitting_here(*table, ks, i as int, shape);
                    }
                    return Some(v);
                }
            },
            None => {},
        }
        proof {
            lemma_first_fitting_skip(*table, ks, i as int, shape);
        }
        i = i + 1;
    }
    assert(ks.subrange(i as int, ks.len() as int) =~= Seq::empty());
    None
}

/// The strings that an array of strings holds, in order.
fn collect_strings(a: &Vec<Node>) -> (r: Vec<String>)
    requires
        all_strings(a@),
    ensures
        string_views(r@) == string_items(a@),
{
    let mut r: Vec<String> = Vec::new();
    let mut i: usize = 0;
    while i < a.len()
        invariant
            i <= a@.len(),
            all_strings(a@),
            r@.len() == i,
            forall|j: int| 0 <= j < i ==> #[trigger] r@[j]@ == a@[j]->String_0@,
        decreases a@.len() - i,
    {
        assert(a@[i as int] is String);
        match &a[i] {
            Node::String(s) => r.push(s.clone()),
            _ => {},
        }
        i = i + 1;
    }
    assert(string_views(r@) =~= string_items(a@));
    r
}

/// The integers that an array of integers holds, in order.
fn collect_integers(a: &Vec<Node>) -> (r: Vec<i64>)
    requires
        all_integers(a@),
    ensures
        r@ == integer_items(a@),
{
    let mut r: Vec<i64> = Vec::new();
    let mut i: usize = 0;
    while i < a.len()
        invariant
            i <= a@.len(),
            all_integers(a@),
            r@.len() == i,
            forall|j: int| 0 <= j < i ==> #[trigger] r@[j] == a@[j]->Integer_0,
        decreases a@.len() - i,
    {
        assert(a@[i as int] is Integer);
        match &a[i] {
            Node::Integer(n) => r.push(*n),
            _ => {},
        }
        i = i + 1;
    }
    assert(r@ =~= integer_items(a@));
    r
}

/// The integer under the first of `keys` that holds an integer.
pub fn get_i64_value(table: &Table, keys: &[&str]) -> (r: Result<i64, ConfigError>)
    ensures
        match first_fitting(*table, key_views(keys@), Shape::Int) {
            Some(v) => r == Ok::<i64, ConfigError>(v->Integer_0),
            None => r matches Err(e) && is_no_match(e),
        },
{
    match find_fitting(table, keys, Shape::Int) {
        Some(Node::Integer(n)) => Ok(*n),
        _ => Err(no_match()),
    }
}

/// The integers under the first of `keys` that holds an array of integers.
pub fn get_i64_array(table: &Table, keys: &[&str]) -> (r: Result<Vec<i64>, ConfigError>)
    ensures
        match first_fitting(*table, key_views(keys@), Shape::IntArray) {
            Some(v) => r matches Ok(n) && n@ == integers_of(v),
            None => r matches Err(e) && is_no_match(e),
        },
{
    match find_fitting(table, keys, Shape::IntArray) {
        Some(Node::Array(a)) => Ok(collect_integers(a)),
        _ => Err(no_match()),
    }
}

/// The integers under the first of `keys` that holds an integer or an array
/// of integers; a lone integer gives a one-element list.
pub fn get_single_or_array_i64(table: &Table, keys: &[&str]) -> (r: Result<Vec<i64>, ConfigError>)
    ensures
        match first_fitting(*table, key_views(keys@), Shape::IntOrIntArray) {
            Some(v) => r matches Ok(n) && n@ == integers_of(v),
            None => r matches Err(e) && is_no_match(e),
        },
{
    match find_fitting(table, keys, Shape::IntOrIntArray) {
        Some(Node::Integer(n)) => {
            let r = vec![*n];
            assert(r@ =~= seq![*n]);
            Ok(r)
        },
        Some(Node::Array(a)) => Ok(collect_integers(a)),
        _ => Err(no_match()),
    }
}

/// The string under the first of `keys` that holds a string.
pub fn get_string_value(table: &Table, keys: &[&str]) -> (r: Result<String, ConfigError>)
    ensures
        match first_fitting(*table, key_views(keys@), Shape::Str) {
            Some(v) => r matches Ok(s) && s@ == v->String_0@,
            None => r matches Err(e) && is_no_match(e),
        },
{
    match find_fitting(table, keys, Shape::Str) {
        Some(Node::String(s)) => Ok(s.clone()),
        _ => Err(no_match()),
    }
}

/// The strings under the first of `keys` that holds an array of strings.
pub fn get_string_array(table: &Table, keys: &[&str]) -> (r: Result<Vec<String>, ConfigError>)
    ensures
        match first_fitting(*table, key_views(keys@), Shape::StrArray) {
            Some(v) => r matches Ok(s) && string_views(s@) == strings_of(v),
            None => r matches Err(e) && is_no_match(e),
        },
{
    match find_fitting(table, keys, Shape::StrArray) {
        Some(Node::Array(a)) => Ok(collect_strings(a)),
        _ => Err(no_match()),
    }
}

/// The strings under the first of `keys` that holds a string or an array of
/// strings; a lone string gives a one-element list.
pub fn get_single_or_array_string(table: &Table, keys: &[&str]) -> (r: Result<Vec<String>, ConfigError>)
    ensures
        match first_fitting(*table, key_views(keys@), Shape::StrOrStrArray) {
            Some(v) => r matches Ok(s) && string_views(s@) == strings_of(v),
            None => r matches Err(e) && is_no_match(e),
        },
{
    match find_fitting(table, keys, Shape::StrOrStrArray) {
        Some(Node::String(s)) => {
            let r = vec![s.clone()];
            assert(string_views(r@) =~= seq![s@]);
            Ok(r)
        },
        Some(Node::Array(a)) => Ok(collect_strings(a)),
        _ => Err(no_match()),
    }
}

} // verus!
