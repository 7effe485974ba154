//! Splitting a note into its frontmatter header and its body, and reading a
//! note with or without its metadata decoded.
use crate::codec::{decode_yaml, yaml_decoded};
use crate::text::{chars_of, string_of_range};
use crate::value::MetadataValue;
use vstd::prelude::*;

verus! {

/// The text opens with a line that is exactly `---`.
pub open spec fn opens_frontmatter(c: Seq<char>) -> bool {
    c.len() >= 4 && c[0] == '-' && c[1] == '-' && c[2] == '-' && c[3] == '\n'
}

/// A line that is exactly `---` starts at `j`, after the opening line.
pub open spec fn closes_at(c: Seq<char>, j: int) -> bool {
    &&& 4 <= j
    &&& j + 3 <= c.len()
    &&& c[j - 1] == '\n'
    &&& c[j] == '-'
    &&& c[j + 1] == '-'
    &&& c[j + 2] == '-'
    &&& (j + 3 == c.len() || c[j + 3] == '\n')
}

/// The first closing line at or after `j`.
pub open spec fn closing_from(c: Seq<char>, j: int) -> Option<int>
    decreases c.len() - j,
{
    if j < 4 || j + 3 > c.len() {
        None
    } else if closes_at(c, j) {
        Some(j)
    } else {
        closing_from(c, j + 1)
    }
}

/// A character that may fill a blank line, besides its newline.
pub open spec fn is_blank(ch: char) -> bool {
    ch == ' ' || ch == '\t' || ch == '\r'
}

/// Where the text from `i` on starts once its leading blank lines are
/// dropped, scanning at `i` in a line that starts at `ls` and has held only
/// blanks so far: the start of the first line holding anything else, or the
/// end of the text.
pub open spec fn body_start(c: Seq<char>, ls: int, i: int) -> int
    decreases c.len() - i,
{
    if i < 0 || i >= c.len() {
        c.len() as int
    } else if c[i] == '\n' {
        body_start(c, i + 1, i + 1)
    } else if is_blank(c[i]) {
        body_start(c, ls, i + 1)
    } else {
        ls
    }
}

/// `s` without its leading blank lines; the first line holding anything but
/// blanks is kept whole.
pub open spec fn drop_blank_lines(s: Seq<char>) -> Seq<char> {
    s.subrange(body_start(s, 0, 0), s.len() as int)
}

/// What follows the closing line that starts at `j`.
pub open spec fn after_closing(c: Seq<char>, j: int) -> Seq<char> {
    if j + 3 >= c.len() {
        Seq::empty()
    } else {
        c.subrange(j + 4, c.len() as int)
    }
}

/// Scanning for the body is the same after text is put in front.
pub proof fn lemma_body_start_shift(x: Seq<char>, b: Seq<char>, ls: int, i: int)
    requires
        0 <= ls <= i <= b.len(),
    ensures
        body_start(x + b, ls + x.len(), i + x.len()) == body_start(b, ls, i) + x.len(),
        ls <= body_start(b, ls, i) <= b.len(),
    decreases b.len() - i,
{
    let c = x + b;
    let d = x.len() as int;
    if i < b.len() {
        assert(c[i + d] == b[i]);
        if b[i] == '\n' {
            lemma_body_start_shift(x, b, i + 1, i + 1);
        } else if is_blank(b[i]) {
            lemma_body_start_shift(x, b, ls, i + 1);
        }
    }
}

/// The header text and the body of a note with a frontmatter block: the lines
/// between the opening `---` and the first later `---` line, and what follows
/// that line without its leading blank lines. `None` where either delimiter
/// is missing.
pub open spec fn frontmatter(c: Seq<char>) -> Option<(Seq<char>, Seq<char>)> {
    if !opens_frontmatter(c) {
        None
    } else {
        match closing_from(c, 4) {
            Some(j) => Some(
                (
                    if j > 4 {
                        c.subrange(4, j - 1)
                    } else {
                        Seq::empty()
                    },
                    drop_blank_lines(after_closing(c, j)),
                ),
            ),
            None => None,
        }
    }
}

/// The decoded metadata and the body of a note, where it has a frontmatter
/// block whose header decodes.
pub open spec fn note_metadata(c: Seq<char>) -> Option<(MetadataValue, Seq<char>)> {
    match frontmatter(c) {
        Some((h, b)) => match yaml_decoded(h) {
            Some(m) => Some((m, b)),
            None => None,
        },
        None => None,
    }
}

/// The characters `cs[from..]` without their leading blank lines.
fn body_after(cs: &Vec<char>, from: usize) -> (r: String)
    requires
        from <= cs.len(),
    ensures
        r@ == drop_blank_lines(cs@.subrange(from as int, cs.len() as int)),
{
    let ghost x = cs@.subrange(0, from as int);
    let ghost rest = cs@.subrange(from as int, cs.len() as int);
    proof {
        assert(cs@ =~= x + rest);
        lemma_body_start_shift(x, rest, 0, 0);
    }
    let mut ls = from;
    let mut i = from;
    while i < cs.len() && (cs[i] == '\n' || cs[i] == ' ' || cs[i] == '\t' || cs[i] == '\r')
        invariant
            from <= ls <= i <= cs.len(),
            body_start(cs@, from as int, from as int) == body_start(cs@, ls as int, i as int),
        decreases cs.len() - i,
    {
        if cs[i] == '\n' {
            ls = i + 1;
        }
        i = i + 1;
    }
    let start = if i >= cs.len() {
        cs.len()
    } else {
        ls
    };
    assert(body_start(cs@, ls as int, i as int) == start);
    assert(rest.subrange(start - from, rest.len() as int) =~= cs@.subrange(start as int, cs.len() as int));
    string_of_range(cs, start, cs.len())
}

/// Splits `content` into its frontmatter header and its body.
pub fn split_frontmatter(content: &str) -> (r: Option<(String, String)>)
    ensures
        match r {
            Some((h, b)) => frontmatter(content@) == Some((h@, b@)),
            None => frontmatter(content@) is None,
        },
{
    let cs = chars_of(content);
    if !(cs.len() >= 4 && cs[0] == '-' && cs[1] == '-' && cs[2] == '-' && cs[3] == '\n') {
        return None;
    }
    let mut j: usize = 4;
    while j <= cs.len() - 3
        invariant
            4 <= j <= cs.len() + 1,
            cs.len() >= 4,
            cs@ == content@,
            opens_frontmatter(cs@),
            closing_from(cs@, 4) == closing_from(cs@, j as int),
        decreases cs.len() - j,
    {
        if cs[j - 1] == '\n' && cs[j] == '-' && cs[j + 1] == '-' && cs[j + 2] == '-' && (j + 3
            == cs.len() || cs[j + 3] == '\n') {
            let header = if j > 4 {
                string_of_range(&cs, 4, j - 1)
            } else {
                String::new()
            };
            proof {
                if j <= 4 {
                    assert(header@ =~= Seq::<char>::empty());
                }
            }
            let from = if j + 3 >= cs.len() {
                cs.len()
            } else {
                j + 4
            };
            let body = body_after(&cs, from);
            assert(cs@.subrange(from as int, cs.len() as int) =~= after_closing(cs@, j as int));
            return Some((header, body));
        }
        j = j + 1;
    }
    None
}

/// A note as read: its raw text, or its decoded metadata and its body.
#[derive(Debug)]
pub enum NoteView {
    Raw(String),
    Parsed { metadata: MetadataValue, body: String },
}

/// Decodes the frontmatter of `content` into metadata and body.
pub fn parse_note(content: &str) -> (r: Option<(MetadataValue, String)>)
    ensures
        match r {
            Some((m, b)) => note_metadata(content@) == Some((m, b@)),
            None => note_metadata(content@) is None,
        },
{
    match split_frontmatter(content) {
        Some((header, body)) => match decode_yaml(header.as_str()) {
            Some(m) => Some((m, body)),
            None => None,
        },
        None => None,
    }
}

/// A note's text as read: unchanged unless `should_parse` holds and it has a
/// frontmatter block that decodes, in which case metadata and body apart.
pub fn read_note(content: String, should_parse: bool) -> (r: NoteView)
    ensures
        should_parse ==> match note_metadata(content@) {
            Some((m, b)) => r is Parsed && r->Parsed_metadata == m && r->Parsed_body@ == b,
            None => r is Raw && r->Raw_0@ == content@,
        },
        !should_parse ==> r is Raw && r->Raw_0@ == content@,
{
    if !should_parse {
        return NoteView::Raw(content);
    }
    match parse_note(content.as_str()) {
        Some((metadata, body)) => NoteView::Parsed { metadata, body },
        None => NoteView::Raw(content),
    }
}

/// Text that does not open with a `---` line has no metadata, so reading it
/// with parsing on gives it back unchanged.
pub proof fn lemma_plain_text_has_no_metadata(c: Seq<char>)
    requires
        !opens_frontmatter(c),
    ensures
        frontmatter(c) is None,
        note_metadata(c) is None,
{
}

} // verus!
