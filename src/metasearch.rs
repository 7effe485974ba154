//! Search over frontmatter metadata: a dotted field path is resolved in each
//! note's decoded metadata and its value tested against a pattern.
use crate::collector::{capped, lemma_capped_push, ResultCollector};
use crate::error::VaultError;
use crate::frontmatter::{note_metadata, parse_note};
use crate::pattern::{field_matches, field_pattern_valid, FieldPattern};
use crate::search::{is_visible_note, is_visible_note_spec, NoteFile};
use crate::text::{chars_of, lemma_split_two, split_chars, split_spec};
use crate::value::{lookup, resolve, take_field, MetadataValue};
use vstd::prelude::*;

verus! {

/// A note whose metadata field matched, with the field's whole value.
#[derive(Debug)]
pub struct MetadataSearchResult {
    pub path: String,
    pub value: MetadataValue,
}

impl View for MetadataSearchResult {
    type V = (Seq<char>, MetadataValue);

    open spec fn view(&self) -> (Seq<char>, MetadataValue) {
        (self.path@, self.value)
    }
}

/// The text a boolean is matched as.
pub open spec fn bool_text(b: bool) -> Seq<char> {
    if b {
        "true"@
    } else {
        "false"@
    }
}

/// Whether `p` matches a value: a string by its text, a number by its decimal
/// text, a boolean as `true` or `false`, an array where any element matches;
/// null and objects never match.
pub open spec fn value_matches(p: Seq<char>, v: MetadataValue) -> bool
    decreases v,
{
    match v {
        MetadataValue::Str(s) => field_matches(p, s@),
        MetadataValue::Number(t) => field_matches(p, t@),
        MetadataValue::Bool(b) => field_matches(p, bool_text(b)),
        MetadataValue::Array(items) => exists|i: int|
            0 <= i < items.len() && value_matches(p, #[trigger] items[i]),
        _ => false,
    }
}

/// The matched value of one note: its metadata decodes, the field path
/// resolves in it, and the value there matches.
pub open spec fn metadata_hit(p: Seq<char>, segs: Seq<Seq<char>>, path: Seq<char>, content: Seq<char>) -> Option<MetadataValue> {
    if !is_visible_note_spec(path) {
        None
    } else {
        match note_metadata(content) {
            Some((m, _)) => match resolve(m, segs) {
                Some(v) => if value_matches(p, v) {
                    Some(v)
                } else {
                    None
                },
                None => None,
            },
            None => None,
        }
    }
}

/// The matches among the first `n` notes, in note order.
pub open spec fn meta_hits_upto(p: Seq<char>, segs: Seq<Seq<char>>, notes: Seq<NoteFile>, n: int) -> Seq<(Seq<char>, MetadataValue)>
    decreases n,
{
    if n <= 0 || n > notes.len() {
        seq![]
    } else {
        let before = meta_hits_upto(p, segs, notes, n - 1);
        match metadata_hit(p, segs, notes[n - 1].path@, notes[n - 1].content@) {
            Some(v) => before.push((notes[n - 1].path@, v)),
            None => before,
        }
    }
}

/// Whether `pattern` matches `v` by the rules of `value_matches`.
pub fn value_is_match(pattern: &FieldPattern, v: &MetadataValue) -> (r: bool)
    ensures
        r == value_matches(pattern.source(), *v),
    decreases v,
{
    match v {
        MetadataValue::Str(s) => pattern.is_match(s.as_str()),
        MetadataValue::Number(t) => pattern.is_match(t.as_str()),
        MetadataValue::Bool(b) => {
            if *b {
                pattern.is_match("true")
            } else {
                pattern.is_match("false")
            }
        },
        MetadataValue::Array(items) => {
            let mut i: usize = 0;
            while i < items.len()
                invariant
                    i <= items.len(),
                    *v == MetadataValue::Array(*items),
                    forall|k: int| 0 <= k < i ==> !value_matches(pattern.source(), #[trigger] items[k]),
                decreases items.len() - i,
            {
                proof {
                    assert(decreases_to!(v->Array_0 => v->Array_0[i as int]));
                    assert(decreases_to!(*v => v->Array_0));
                }
                if value_is_match(pattern, &items[i]) {
                    assert(value_matches(pattern.source(), v->Array_0[i as int]));
                    return true;
                }
                i = i + 1;
            }
            false
        },
        _ => false,
    }
}

/// The match of one note, if its metadata field matches.
pub fn match_note(pattern: &FieldPattern, segs: &Vec<String>, note: &NoteFile) -> (r: Option<MetadataSearchResult>)
    ensures
        match r {
            Some(h) => metadata_hit(pattern.source(), segs@.map_values(|s: String| s@), note.path@, note.content@) == Some(h.value) && h.path@ == note.path@,
            None => metadata_hit(pattern.source(), segs@.map_values(|s: String| s@), note.path@, note.content@) is None,
        },
{
    if !is_visible_note(note.path.as_str()) {
        return None;
    }
    match parse_note(note.content.as_str()) {
        Some((m, _)) => match take_field(m, segs) {
            Some(v) => {
                if value_is_match(pattern, &v) {
                    Some(MetadataSearchResult { path: note.path.clone(), value: v })
                } else {
                    None
                }
            },
            None => None,
        },
        None => None,
    }
}

/// The first `limit` notes among `notes` whose metadata field at the dotted
/// path `field` matches `pattern`, in note order, each with the field's value;
/// an invalid pattern fails before any note is read.
pub fn search_metadata(notes: &Vec<NoteFile>, field: &str, pattern: &str, limit: usize) -> (r: Result<Vec<MetadataSearchResult>, VaultError>)
    ensures
        match r {
            Ok(v) => field_pattern_valid(pattern@) && v@.map_values(|h: MetadataSearchResult| h@) == capped(
                meta_hits_upto(pattern@, split_spec(field@, '.'), notes@, notes.len() as int),
                limit as nat,
            ),
            Err(e) => !field_pattern_valid(pattern@) && e is InvalidPattern && e->InvalidPattern_pattern@
                == pattern@,
        },
        r is Ok ==> r->Ok_0.len() <= limit,
{
    let fp = match FieldPattern::new(pattern) {
        Ok(p) => p,
        Err(e) => {
            return Err(e);
        },
    };
    let segs = split_chars(&chars_of(field), '.');
    let ghost sv = split_spec(field@, '.');
    let mut coll: ResultCollector<MetadataSearchResult> = ResultCollector::new(limit);
    let mut i: usize = 0;
    assert(coll.items().map_values(|h: MetadataSearchResult| h@) =~= capped(meta_hits_upto(pattern@, sv, notes@, 0), limit as nat));
    while i < notes.len()
        invariant
            i <= notes.len(),
            fp.source() == pattern@,
            segs@.map_values(|s: String| s@) == sv,
            coll.cap() == limit,
            coll.items().map_values(|h: MetadataSearchResult| h@) == capped(meta_hits_upto(pattern@, sv, notes@, i as int), limit as nat),
        decreases notes.len() - i,
    {
        let ghost before = coll.items().map_values(|h: MetadataSearchResult| h@);
        let ghost prev = meta_hits_upto(pattern@, sv, notes@, i as int);
        match match_note(&fp, &segs, &notes[i]) {
            Some(h) => {
                let ghost hv = h@;
                let taken = coll.offer(h);
                proof {
                    lemma_capped_push(prev, hv, limit as nat);
                    if taken {
                        assert(coll.items().map_values(|h: MetadataSearchResult| h@) =~= before.push(hv));
                    } else {
                        assert(coll.items().map_values(|h: MetadataSearchResult| h@) =~= before);
                    }
                }
            },
            None => {},
        }
        i = i + 1;
    }
    let v = coll.into_items();
    assert(v@.map_values(|h: MetadataSearchResult| h@).len() == v.len());
    Ok(v)
}

/// The note text `content` has decoded metadata in which the field path
/// `segs` resolves to `v`, and `v` matches `p`.
pub open spec fn field_match_in(p: Seq<char>, segs: Seq<Seq<char>>, content: Seq<char>, v: MetadataValue) -> bool {
    match note_metadata(content) {
        Some((m, _)) => resolve(m, segs) == Some(v) && value_matches(p, v),
        None => false,
    }
}

/// A metadata search reports only notes among those searched whose decoded
/// frontmatter holds the field path, with the reported value there, and
/// whose value matches the pattern.
pub proof fn lemma_meta_hits_sound(p: Seq<char>, segs: Seq<Seq<char>>, notes: Seq<NoteFile>, n: int)
    ensures
        forall|k: int| 0 <= k < meta_hits_upto(p, segs, notes, n).len() ==> exists|i: int|
            0 <= i < n && i < notes.len() && (#[trigger] notes[i]).path@ == (#[trigger] meta_hits_upto(p, segs, notes, n)[k]).0
                && field_match_in(p, segs, notes[i].content@, meta_hits_upto(p, segs, notes, n)[k].1),
    decreases n,
{
    if 0 < n <= notes.len() {
        lemma_meta_hits_sound(p, segs, notes, n - 1);
        let before = meta_hits_upto(p, segs, notes, n - 1);
        let all = meta_hits_upto(p, segs, notes, n);
        assert forall|k: int| 0 <= k < all.len() implies exists|i: int|
            0 <= i < n && i < notes.len() && (#[trigger] notes[i]).path@ == (#[trigger] all[k]).0
                && field_match_in(p, segs, notes[i].content@, all[k].1) by {
            if k < before.len() {
                assert(all[k] == before[k]);
                let i = choose|i: int| 0 <= i < n - 1 && i < notes.len() && (#[trigger] notes[i]).path@ == before[k].0
                    && field_match_in(p, segs, notes[i].content@, before[k].1);
                assert(notes[i].path@ == all[k].0);
            } else {
                let i = n - 1;
                assert(notes[i].path@ == all[k].0);
            }
        }
    }
}

/// A field path of two keys, such as `author.name`, resolves exactly where
/// the first key holds an object whose second key holds the value.
pub proof fn lemma_two_key_path(m: MetadataValue, a: Seq<char>, b: Seq<char>, v: MetadataValue)
    ensures
        resolve(m, seq![a, b]) == Some(v) <==> (m is Object && match lookup(m->Object_0@, a) {
            Some(x) => x is Object && lookup(x->Object_0@, b) == Some(v),
            None => false,
        }),
{
    let path = seq![a, b];
    assert(path.drop_first() =~= seq![b]);
    assert(seq![b].drop_first() =~= Seq::<Seq<char>>::empty());
    match m {
        MetadataValue::Object(es) => match lookup(es@, a) {
            Some(x) => {
                assert(resolve(m, path) == resolve(x, seq![b]));
                match x {
                    MetadataValue::Object(fs) => match lookup(fs@, b) {
                        Some(c) => {
                            assert(resolve(x, seq![b]) == resolve(c, Seq::<Seq<char>>::empty()));
                        },
                        None => {},
                    },
                    _ => {},
                }
            },
            None => {},
        },
        _ => {},
    }
}

/// A search on a field path of two keys joined by a dot, such as
/// `author.name`, reports only notes whose decoded frontmatter holds an object
/// under the first key with the second key in it, whose value there is the
/// value reported and matches the pattern.
pub proof fn lemma_two_key_search_sound(
    p: Seq<char>,
    a: Seq<char>,
    b: Seq<char>,
    notes: Seq<NoteFile>,
    limit: nat,
    found: Seq<(Seq<char>, MetadataValue)>,
)
    requires
        forall|k: int| 0 <= k < a.len() ==> a[k] != '.',
        forall|k: int| 0 <= k < b.len() ==> b[k] != '.',
        found == capped(meta_hits_upto(p, split_spec(a + seq!['.'] + b, '.'), notes, notes.len() as int), limit),
    ensures
        forall|k: int| 0 <= k < found.len() ==> exists|i: int|
            0 <= i < notes.len() && (#[trigger] notes[i]).path@ == (#[trigger] found[k]).0
                && value_matches(p, found[k].1) && match note_metadata(notes[i].content@) {
                Some((m, _)) => m is Object && match lookup(m->Object_0@, a) {
                    Some(x) => x is Object && lookup(x->Object_0@, b) == Some(found[k].1),
                    None => false,
                },
                None => false,
            },
{
    lemma_split_two(a, b, '.');
    let segs = seq![a, b];
    let hits = meta_hits_upto(p, segs, notes, notes.len() as int);
    lemma_meta_hits_sound(p, segs, notes, notes.len() as int);
    assert forall|k: int| 0 <= k < found.len() implies exists|i: int|
        0 <= i < notes.len() && (#[trigger] notes[i]).path@ == (#[trigger] found[k]).0
            && value_matches(p, found[k].1) && match note_metadata(notes[i].content@) {
            Some((m, _)) => m is Object && match lookup(m->Object_0@, a) {
                Some(x) => x is Object && lookup(x->Object_0@, b) == Some(found[k].1),
                None => false,
            },
            None => false,
        } by {
        assert(found[k] == hits[k]);
        let i = choose|i: int| 0 <= i < notes.len() && i < notes.len() && (#[trigger] notes[i]).path@ == (#[trigger] hits[k]).0
            && field_match_in(p, segs, notes[i].content@, hits[k].1);
        let (m, _) = note_metadata(notes[i].content@)->0;
        lemma_two_key_path(m, a, b, found[k].1);
        assert(notes[i].path@ == found[k].0);
    }
}

} // verus!
