//! The metadata tree decoded from a note's frontmatter, and lookup of a field
//! by a dotted path.
use vstd::prelude::*;

verus! {

/// A decoded metadata value. A number keeps the decimal text of its canonical
/// form (`42`, `3.14`), which tells integers and fractions apart; an object is
/// a list of key and value pairs whose order carries no meaning.
#[derive(Debug, PartialEq)]
pub enum MetadataValue {
    Null,
    Bool(bool),
    Number(String),
    Str(String),
    Array(Vec<MetadataValue>),
    Object(Vec<(String, MetadataValue)>),
}

/// The value under the first entry of `es` whose key is `key`.
pub open spec fn lookup(es: Seq<(String, MetadataValue)>, key: Seq<char>) -> Option<MetadataValue>
    decreases es.len(),
{
    if es.len() == 0 {
        None
    } else if es[0].0@ == key {
        Some(es[0].1)
    } else {
        lookup(es.drop_first(), key)
    }
}

/// The value reached from `m` by indexing object keys along `path`; `None`
/// where a key is missing or a value on the way is not an object.
pub open spec fn resolve(m: MetadataValue, path: Seq<Seq<char>>) -> Option<MetadataValue>
    decreases path.len(),
{
    if path.len() == 0 {
        Some(m)
    } else {
        match m {
            MetadataValue::Object(es) => match lookup(es@, path[0]) {
                Some(c) => resolve(c, path.drop_first()),
                None => None,
            },
            _ => None,
        }
    }
}

/// Position of the first entry of `es` with key `key`.
fn find_key(es: &Vec<(String, MetadataValue)>, key: &String) -> (r: Option<usize>)
    ensures
        match r {
            Some(k) => k < es.len() && lookup(es@, key@) == Some(es@[k as int].1),
            None => lookup(es@, key@) is None,
        },
{
    let mut i: usize = 0;
    assert(es@.skip(0) =~= es@);
    while i < es.len()
        invariant
            i <= es.len(),
            lookup(es@, key@) == lookup(es@.skip(i as int), key@),
        decreases es.len() - i,
    {
        assert(es@.skip(i as int).drop_first() =~= es@.skip(i + 1));
        if es[i].0 == *key {
            return Some(i);
        }
        i = i + 1;
    }
    None
}

/// The value of `m` at the field path `path`, taken out of `m`.
pub fn take_field(m: MetadataValue, path: &Vec<String>) -> (r: Option<MetadataValue>)
    ensures
        r == resolve(m, path@.map_values(|s: String| s@)),
{
    let ghost full = path@.map_values(|s: String| s@);
    let mut cur = m;
    let mut i: usize = 0;
    assert(full.skip(0) =~= full);
    while i < path.len()
        invariant
            i <= path.len(),
            full == path@.map_values(|s: String| s@),
            resolve(m, full) == resolve(cur, full.skip(i as int)),
        decreases path.len() - i,
    {
        assert(full.skip(i as int).drop_first() =~= full.skip(i + 1));
        match cur {
            MetadataValue::Object(mut es) => {
                match find_key(&es, &path[i]) {
                    Some(k) => {
                        let (_, child) = es.remove(k);
                        cur = child;
                    },
                    None => {
                        return None;
                    },
                }
            },
            _ => {
                return None;
            },
        }
        i = i + 1;
    }
    assert(full.skip(i as int) =~= Seq::<Seq<char>>::empty());
    Some(cur)
}

impl MetadataValue {
    /// The text of a string value.
    pub fn as_str(&self) -> (r: Option<&str>)
        ensures
            match self {
                MetadataValue::Str(s) => r is Some && r->0@ == s@,
                _ => r is None,
            },
    {
        match self {
            MetadataValue::Str(s) => Some(s.as_str()),
            _ => None,
        }
    }
}

} // verus!
