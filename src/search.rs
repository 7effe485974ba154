//! Line search over the notes of a vault: which files count as notes, the
//! matching lines of one note, and a capped search over many.
use crate::collector::{capped, lemma_capped_push, ResultCollector};
use crate::error::VaultError;
use crate::pattern::{line_matches, line_pattern_valid, LinePattern};
use crate::text::{chars_of, lines_of, split_lines};
use vstd::prelude::*;

verus! {

/// A note as handed to a search: its vault-relative path and its text.
pub struct NoteFile {
    pub path: String,
    pub content: String,
}

/// A matching line: the note's path, the 1-based line number, the line.
#[derive(Debug)]
pub struct SearchResult {
    pub path: String,
    pub line_number: usize,
    pub line: String,
}

impl View for SearchResult {
    type V = (Seq<char>, int, Seq<char>);

    open spec fn view(&self) -> (Seq<char>, int, Seq<char>) {
        (self.path@, self.line_number as int, self.line@)
    }
}

/// A path component starts at `i`.
pub open spec fn starts_component(path: Seq<char>, i: int) -> bool {
    i == 0 || path[i - 1] == '/'
}

/// Some component of `path` starts with a dot.
pub open spec fn under_hidden(path: Seq<char>) -> bool {
    exists|i: int| 0 <= i < path.len() && path[i] == '.' && #[trigger] starts_component(path, i)
}

/// `path` ends with the `.md` extension.
pub open spec fn has_md_extension(path: Seq<char>) -> bool {
    path.len() >= 3 && path[path.len() - 3] == '.' && path[path.len() - 2] == 'm' && path[path.len()
        - 1] == 'd'
}

/// A path that a search reads: a markdown file beneath no hidden entry.
pub open spec fn is_visible_note_spec(path: Seq<char>) -> bool {
    !under_hidden(path) && has_md_extension(path)
}

/// The matches among `lines[i..]` of the note at `path`.
pub open spec fn line_hits(p: Seq<char>, path: Seq<char>, lines: Seq<Seq<char>>, i: int) -> Seq<
    (Seq<char>, int, Seq<char>),
>
    decreases lines.len() - i,
{
    if i < 0 || i >= lines.len() {
        seq![]
    } else {
        let rest = line_hits(p, path, lines, i + 1);
        if line_matches(p, lines[i]) {
            seq![(path, i + 1, lines[i])] + rest
        } else {
            rest
        }
    }
}

/// The matches of one note, none where its path is not a visible note.
pub open spec fn note_hits(p: Seq<char>, path: Seq<char>, content: Seq<char>) -> Seq<
    (Seq<char>, int, Seq<char>),
> {
    if is_visible_note_spec(path) {
        line_hits(p, path, lines_of(content), 0)
    } else {
        seq![]
    }
}

/// The matches of the first `n` notes, note after note.
pub open spec fn hits_upto(p: Seq<char>, notes: Seq<NoteFile>, n: int) -> Seq<
    (Seq<char>, int, Seq<char>),
>
    decreases n,
{
    if n <= 0 || n > notes.len() {
        seq![]
    } else {
        hits_upto(p, notes, n - 1) + note_hits(p, notes[n - 1].path@, notes[n - 1].content@)
    }
}

/// Whether an entry name is hidden (starts with a dot).
pub fn is_hidden_name(name: &str) -> (r: bool)
    ensures
        r == (name@.len() > 0 && name@[0] == '.'),
{
    let cs = chars_of(name);
    cs.len() > 0 && cs[0] == '.'
}

/// Whether `path` is a markdown note beneath no hidden entry.
pub fn is_visible_note(path: &str) -> (r: bool)
    ensures
        r == is_visible_note_spec(path@),
{
    let cs = chars_of(path);
    let n = cs.len();
    let mut i: usize = 0;
    while i < n
        invariant
            i <= n == cs.len(),
            cs@ == path@,
            forall|k: int| 0 <= k < i && cs@[k] == '.' ==> !starts_component(cs@, k),
        decreases n - i,
    {
        if cs[i] == '.' && (i == 0 || cs[i - 1] == '/') {
            assert(starts_component(cs@, i as int));
            return false;
        }
        i = i + 1;
    }
    n >= 3 && cs[n - 3] == '.' && cs[n - 2] == 'm' && cs[n - 1] == 'd'
}

/// Every match of `line_hits` names `path`.
proof fn lemma_line_hits_path(p: Seq<char>, path: Seq<char>, lines: Seq<Seq<char>>, i: int)
    ensures
        forall|k: int| 0 <= k < line_hits(p, path, lines, i).len() ==> #[trigger] line_hits(p, path, lines, i)[k].0 == path,
    decreases lines.len() - i,
{
    if 0 <= i < lines.len() {
        lemma_line_hits_path(p, path, lines, i + 1);
        let rest = line_hits(p, path, lines, i + 1);
        if line_matches(p, lines[i]) {
            assert forall|k: int| 0 <= k < line_hits(p, path, lines, i).len() implies #[trigger] line_hits(p, path, lines, i)[k].0 == path by {
                if k > 0 {
                    assert(line_hits(p, path, lines, i)[k] == rest[k - 1]);
                }
            }
        }
    }
}

/// Every match of a search lies in a visible note.
pub proof fn lemma_hits_visible(p: Seq<char>, notes: Seq<NoteFile>, n: int)
    ensures
        forall|k: int| 0 <= k < hits_upto(p, notes, n).len() ==> is_visible_note_spec(#[trigger] hits_upto(p, notes, n)[k].0),
    decreases n,
{
    if 0 < n <= notes.len() {
        lemma_hits_visible(p, notes, n - 1);
        let path = notes[n - 1].path@;
        lemma_line_hits_path(p, path, lines_of(notes[n - 1].content@), 0);
        let a = hits_upto(p, notes, n - 1);
        let b = note_hits(p, path, notes[n - 1].content@);
        assert forall|k: int| 0 <= k < hits_upto(p, notes, n).len() implies is_visible_note_spec(#[trigger] hits_upto(p, notes, n)[k].0) by {
            if k >= a.len() {
                assert(hits_upto(p, notes, n)[k] == b[k - a.len()]);
            } else {
                assert(hits_upto(p, notes, n)[k] == a[k]);
            }
        }
    }
}

/// The matching lines of one note, in line order; none where the note's path
/// is not a visible note.
pub fn scan_note(pattern: &LinePattern, note: &NoteFile) -> (r: Vec<SearchResult>)
    ensures
        r@.map_values(|h: SearchResult| h@) == note_hits(pattern.source(), note.path@, note.content@),
{
    let mut out: Vec<SearchResult> = Vec::new();
    if !is_visible_note(note.path.as_str()) {
        assert(out@.map_values(|h: SearchResult| h@) =~= Seq::<(Seq<char>, int, Seq<char>)>::empty());
        return out;
    }
    let lines = split_lines(note.content.as_str());
    let ghost ls = lines_of(note.content@);
    let ghost p = pattern.source();
    let ghost path = note.path@;
    let mut i: usize = 0;
    assert(out@.map_values(|h: SearchResult| h@) + line_hits(p, path, ls, 0) =~= line_hits(p, path, ls, 0));
    while i < lines.len()
        invariant
            i <= lines.len(),
            lines@.map_values(|x: String| x@) == ls,
            p == pattern.source(),
            path == note.path@,
            out@.map_values(|h: SearchResult| h@) + line_hits(p, path, ls, i as int) == line_hits(p, path, ls, 0),
        decreases lines.len() - i,
    {
        let ghost before = out@.map_values(|h: SearchResult| h@);
        assert(lines@[i as int]@ == ls[i as int]);
        if pattern.is_match(lines[i].as_str()) {
            let hit = SearchResult { path: note.path.clone(), line_number: i + 1, line: lines[i].clone() };
            out.push(hit);
            assert(out@.map_values(|h: SearchResult| h@) =~= before.push(hit@));
            assert(before + line_hits(p, path, ls, i as int) =~= before.push(hit@) + line_hits(p, path, ls, i + 1));
        }
        i = i + 1;
    }
    assert(line_hits(p, path, ls, i as int) =~= Seq::<(Seq<char>, int, Seq<char>)>::empty());
    assert(out@.map_values(|h: SearchResult| h@) =~= line_hits(p, path, ls, 0));
    out
}

/// Offers each of `hits` to `coll` in order.
fn offer_all(coll: &mut ResultCollector<SearchResult>, hits: Vec<SearchResult>, Ghost(prev): Ghost<Seq<(Seq<char>, int, Seq<char>)>>)
    requires
        old(coll).items().map_values(|h: SearchResult| h@) == capped(prev, old(coll).cap()),
    ensures
        final(coll).cap() == old(coll).cap(),
        final(coll).items().map_values(|h: SearchResult| h@) == capped(prev + hits@.map_values(|h: SearchResult| h@), old(coll).cap()),
{
    let ghost hv = hits@.map_values(|h: SearchResult| h@);
    let ghost n = coll.cap();
    let mut rest = hits;
    let mut k: usize = 0;
    let len = rest.len();
    assert(prev + hv.take(0) =~= prev);
    while k < len
        invariant
            k <= len == hv.len(),
            coll.cap() == n,
            rest@.len() == len,
            rest@.map_values(|h: SearchResult| h@) == hv,
            coll.items().map_values(|h: SearchResult| h@) == capped(prev + hv.take(k as int), n),
        decreases len - k,
    {
        let ghost before = coll.items().map_values(|h: SearchResult| h@);
        let hit = SearchResult { path: rest[k].path.clone(), line_number: rest[k].line_number, line: rest[k].line.clone() };
        assert(hit@ == hv[k as int]);
        let taken = coll.offer(hit);
        proof {
            lemma_capped_push(prev + hv.take(k as int), hit@, n);
            assert(prev + hv.take(k + 1) =~= (prev + hv.take(k as int)).push(hit@));
            if taken {
                assert(coll.items().map_values(|h: SearchResult| h@) =~= before.push(hit@));
            } else {
                assert(coll.items().map_values(|h: SearchResult| h@) =~= before);
            }
        }
        k = k + 1;
    }
    assert(hv.take(len as int) =~= hv);
}

/// The first `limit` matching lines of the visible notes among `notes`, note
/// after note and line after line; an invalid pattern fails before any note
/// is read.
pub fn search_notes(notes: &Vec<NoteFile>, query: &str, limit: usize) -> (r: Result<Vec<SearchResult>, VaultError>)
    ensures
        match r {
            Ok(v) => line_pattern_valid(query@) && v@.map_values(|h: SearchResult| h@) == capped(
                hits_upto(query@, notes@, notes.len() as int),
                limit as nat,
            ),
            Err(e) => !line_pattern_valid(query@) && e is InvalidPattern && e->InvalidPattern_pattern@
                == query@,
        },
        r is Ok ==> r->Ok_0.len() <= limit,
        r is Ok ==> forall|k: int| 0 <= k < r->Ok_0.len() ==> !under_hidden(#[trigger] r->Ok_0@[k].path@),
{
    let pattern = match LinePattern::new(query) {
        Ok(p) => p,
        Err(e) => {
            return Err(e);
        },
    };
    let mut coll: ResultCollector<SearchResult> = ResultCollector::new(limit);
    let mut i: usize = 0;
    assert(coll.items().map_values(|h: SearchResult| h@) =~= capped(hits_upto(query@, notes@, 0), limit as nat));
    while i < notes.len()
        invariant
            i <= notes.len(),
            pattern.source() == query@,
            coll.cap() == limit,
            coll.items().map_values(|h: SearchResult| h@) == capped(hits_upto(query@, notes@, i as int), limit as nat),
        decreases notes.len() - i,
    {
        let hits = scan_note(&pattern, &notes[i]);
        offer_all(&mut coll, hits, Ghost(hits_upto(query@, notes@, i as int)));
        i = i + 1;
    }
    let v = coll.into_items();
    proof {
        let all = hits_upto(query@, notes@, notes.len() as int);
        lemma_hits_visible(query@, notes@, notes.len() as int);
        assert(v@.map_values(|h: SearchResult| h@).len() == v.len());
        assert forall|k: int| 0 <= k < v.len() implies !under_hidden(#[trigger] v@[k].path@) by {
            assert(v@.map_values(|h: SearchResult| h@)[k] == v@[k]@);
            assert(capped(all, limit as nat)[k] == all[k]);
            assert(is_visible_note_spec(all[k].0));
            assert(all[k].0 == v@[k].path@);
        }
    }
    Ok(v)
}

} // verus!
