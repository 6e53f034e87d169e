//! The library's own model of a parsed TOML document.

use vstd::prelude::*;

verus! {

/// One node of a parsed document.
pub enum Node {
    String(String),
    Integer(i64),
    Array(Vec<Node>),
    Table(Table),
    /// A float, a boolean or a date-time: shapes that no lookup of this
    /// library accepts.
    Other,
}

/// A map from keys to values, held as the list of its entries.
///
/// A key that occurs more than once is read at its first entry.
pub struct Table {
    pub entries: Vec<(String, Node)>,
}

impl Table {
    /// `i` is the first entry whose key is `key`.
    pub open spec fn first_with_key(self, key: Seq<char>, i: int) -> bool {
        &&& 0 <= i < self.entries@.len()
        &&& self.entries@[i].0@ == key
        &&& forall|j: int| 0 <= j < i ==> #[trigger] self.entries@[j].0@ != key
    }

    pub open spec fn has_key(self, key: Seq<char>) -> bool {
        exists|i: int| self.first_with_key(key, i)
    }

    /// The value stored under `key`, if any.
    pub open spec fn spec_get(self, key: Seq<char>) -> Option<Node> {
        if self.has_key(key) {
            Some(self.entries@[choose|i: int| self.first_with_key(key, i)].1)
        } else {
            None
        }
    }

    /// Looks up the value stored under `key`.
    pub fn get(&self, key: &str) -> (r: Option<&Node>)
        ensures
            r matches Some(v) ==> self.spec_get(key@) == Some(*v),
            r is None ==> self.spec_get(key@) is None,
    {
        let wanted = key.to_owned();
        let mut i: usize = 0;
        while i < self.entries.len()
            invariant
                i <= self.entries@.len(),
                wanted@ == key@,
                forall|j: int| 0 <= j < i ==> #[trigger] self.entries@[j].0@ != key@,
            decreases self.entries@.len() - i,
        {
            if self.entries[i].0 == wanted {
                assert(self.first_with_key(key@, i as int));
                return Some(&self.entries[i].1);
            }
            i = i + 1;
        }
        None
    }
}

#[verifier::external_type_specification]
#[verifier::external_body]
pub struct ExTomlError(toml::de::Error);

#[verifier::external_type_specification]
#[verifier::external_body]
pub struct ExTomlValue(toml::Value);

/// What toml reads from the text of a document: its top-level table, or
/// nothing when toml refuses the text.
pub uninterp spec fn toml_document(text: Seq<char>) -> Option<Table>;

/// Relies on `toml::from_str`, through `FromStr` for `toml::Table`: parses
/// the text of a TOML document. The outcome depends on the text alone.
#[verifier::external_body]
pub(crate) fn parse_document(text: &str) -> (r: Result<Table, toml::de::Error>)
    ensures
        r is Ok <==> toml_document(text@) is Some,
        r matches Ok(t) ==> toml_document(text@) == Some(t),
{
    text.parse::<toml::Table>().map(|t| Table {
        entries: t.into_iter().map(|(k, v)| (k, node_of_toml(v))).collect(),
    })
}

/// Converts a value of toml's into the library's own, variant by variant;
/// the conversion step of `parse_document`, which needs a function of its
/// own to recurse into arrays and tables.
#[verifier::external_body]
fn node_of_toml(v: toml::Value) -> Node {
    match v {
        toml::Value::String(s) => Node::String(s),
        toml::Value::Integer(n) => Node::Integer(n),
        toml::Value::Array(a) => Node::Array(a.into_iter().map(node_of_toml).collect()),
        toml::Value::Table(t) => Node::Table(Table {
            entries: t.into_iter().map(|(k, v)| (k, node_of_toml(v))).collect(),
        }),
        _ => Node::Other,
    }
}

} // verus!
