//! Writing metadata and a body as a note with a frontmatter block.
use crate::codec::{decode_json, encode_yaml, json_decoded, yaml_decoded, yaml_encoded};
use crate::frontmatter::{
    after_closing, body_start, closes_at, closing_from, drop_blank_lines, frontmatter, lemma_body_start_shift,
    note_metadata, opens_frontmatter,
};
use crate::text::{chars_of, string_of_range};
use crate::value::MetadataValue;
use vstd::prelude::*;

verus! {

/// The opening delimiter line.
pub open spec fn open_delim() -> Seq<char> {
    seq!['-', '-', '-', '\n']
}

/// The closing delimiter line, with the newline before it and a blank line after.
pub open spec fn close_delim() -> Seq<char> {
    seq!['\n', '-', '-', '-', '\n', '\n']
}

/// A note made of a YAML header and a body.
pub open spec fn frame(yaml: Seq<char>, body: Seq<char>) -> Seq<char> {
    open_delim() + yaml + close_delim() + body
}

/// `t` without one trailing newline, where it ends with one.
pub open spec fn strip_newline(t: Seq<char>) -> Seq<char> {
    if t.len() > 0 && t.last() == '\n' {
        t.drop_last()
    } else {
        t
    }
}

/// The metadata that is written: a string holding JSON is replaced by what
/// it decodes to; anything else is kept.
pub open spec fn resolved(m: MetadataValue) -> MetadataValue {
    match m {
        MetadataValue::Str(s) => match json_decoded(s@) {
            Some(d) => d,
            None => m,
        },
        _ => m,
    }
}

/// The YAML text of a value, empty where it cannot be written.
pub open spec fn yaml_text(m: MetadataValue) -> Seq<char> {
    match yaml_encoded(m) {
        Some(t) => t,
        None => Seq::empty(),
    }
}

/// The note that `format_with_frontmatter` makes of `m` and `body`.
pub open spec fn formatted(m: MetadataValue, body: Seq<char>) -> Seq<char> {
    frame(strip_newline(yaml_text(resolved(m))), body)
}

/// `b` does not open with a blank line (one of only spaces, tabs and
/// carriage returns); it may open with indented text, or be empty.
pub open spec fn opens_without_blank_line(b: Seq<char>) -> bool {
    body_start(b, 0, 0) == 0
}

/// No line of `y` is exactly `---`.
pub open spec fn no_delimiter_line(y: Seq<char>) -> bool {
    forall|k: int|
        0 <= k && k + 3 <= y.len() && (k == 0 || y[k - 1] == '\n') && #[trigger] y[k] == '-' && y[k
            + 1] == '-' && y[k + 2] == '-' ==> k + 3 < y.len() && y[k + 3] != '\n'
}

/// Frames `yaml`, less one trailing newline, and `body` as a note:
/// `---`, the YAML, `---`, a blank line, then the body as it is.
pub fn frame_frontmatter(yaml: &str, body: &str) -> (r: String)
    ensures
        r@ == frame(strip_newline(yaml@), body@),
{
    let ys = chars_of(yaml);
    let mut r = String::from_str("---\n");
    proof {
        reveal_strlit("---\n");
    }
    assert(r@ =~= open_delim());
    let mut end = ys.len();
    if end > 0 && ys[end - 1] == '\n' {
        end = end - 1;
    }
    let y = string_of_range(&ys, 0, end);
    assert(y@ =~= strip_newline(yaml@));
    r.append(y.as_str());
    r.append("\n---\n\n");
    proof {
        reveal_strlit("\n---\n\n");
    }
    r.append(body);
    assert(r@ =~= frame(strip_newline(yaml@), body@));
    r
}

/// The note text for `metadata` and `body`: a string holding JSON metadata
/// is written as the metadata it decodes to; the YAML header loses one
/// trailing newline; the body follows verbatim.
pub fn format_with_frontmatter(metadata: &MetadataValue, body: &str) -> (r: String)
    ensures
        r@ == formatted(*metadata, body@),
{
    let decoded = match metadata {
        MetadataValue::Str(s) => decode_json(s.as_str()),
        _ => None,
    };
    let yaml = match decoded {
        Some(d) => encode_yaml(&d),
        None => encode_yaml(metadata),
    };
    match yaml {
        Some(t) => frame_frontmatter(t.as_str(), body),
        None => {
            let r = frame_frontmatter("", body);
            proof {
                reveal_strlit("");
            }
            r
        },
    }
}

/// Metadata handed over as a string of JSON is written exactly as the
/// metadata it decodes to, unless that metadata is itself a string whose text
/// is JSON (which would be decoded once more).
pub proof fn lemma_json_string_formats_as_decoded(s: String, m: MetadataValue, body: Seq<char>)
    requires
        json_decoded(s@) == Some(m),
        resolved(m) == m,
    ensures
        formatted(MetadataValue::Str(s), body) == formatted(m, body),
{
}

proof fn lemma_closing_from(c: Seq<char>, j: int, e: int)
    requires
        4 <= j <= e,
        closes_at(c, e),
        forall|k: int| j <= k < e ==> !#[trigger] closes_at(c, k),
    ensures
        closing_from(c, j) == Some(e),
    decreases e - j,
{
    if j < e {
        lemma_closing_from(c, j + 1, e);
    }
}

/// Splitting a framed note gives back its header and its body, where no line
/// of the header is `---` and the body does not open with a blank line.
pub proof fn lemma_frame_splits_back(y: Seq<char>, b: Seq<char>)
    requires
        no_delimiter_line(y),
        opens_without_blank_line(b),
    ensures
        frontmatter(frame(y, b)) == Some((y, b)),
{
    let c = frame(y, b);
    let n = y.len() as int;
    let e = n + 5;
    assert(forall|k: int| 0 <= k < n ==> c[4 + k] == y[k]);
    assert(c[3] == '\n');
    assert(c[n + 4] == '\n' && c[n + 5] == '-' && c[n + 6] == '-' && c[n + 7] == '-' && c[n + 8] == '\n' && c[n + 9] == '\n');
    assert(opens_frontmatter(c));
    assert(closes_at(c, e));
    assert forall|k: int| 4 <= k < e implies !#[trigger] closes_at(c, k) by {
        if closes_at(c, k) {
            let q = k - 4;
            if q < n {
                assert(c[k] == y[q]);
                assert(q == 0 || y[q - 1] == '\n');
                if q + 1 < n {
                    assert(c[k + 1] == y[q + 1]);
                    if q + 2 < n {
                        assert(c[k + 2] == y[q + 2]);
                        if q + 3 < n {
                            assert(c[k + 3] == y[q + 3]);
                        }
                    }
                }
            }
        }
    }
    lemma_closing_from(c, 4, e);
    assert(c.subrange(4, e - 1) =~= y);
    let rest = after_closing(c, e);
    assert(rest =~= seq!['\n'] + b);
    lemma_body_start_shift(seq!['\n'], b, 0, 0);
    assert(body_start(rest, 0, 0) == body_start(rest, 1, 1));
    assert(drop_blank_lines(rest) =~= b);
}

/// A formatted note reads back as the YAML header that was written and the
/// body, where no line of that header is `---` and the body does not open
/// with a blank line; its metadata is then whatever that header decodes to.
pub proof fn lemma_format_reads_back(m: MetadataValue, body: Seq<char>)
    requires
        no_delimiter_line(strip_newline(yaml_text(resolved(m)))),
        opens_without_blank_line(body),
    ensures
        frontmatter(formatted(m, body)) == Some((strip_newline(yaml_text(resolved(m))), body)),
        note_metadata(formatted(m, body)) == match yaml_decoded(strip_newline(yaml_text(resolved(m)))) {
            Some(d) => Some((d, body)),
            None => None,
        },
{
    lemma_frame_splits_back(strip_newline(yaml_text(resolved(m))), body);
}

/// Formatting then reading a note gives back the metadata and the body,
/// wherever the YAML written for the metadata decodes to that metadata, no
/// line of it is `---`, and the body does not open with a blank line.
pub proof fn lemma_format_round_trip(m: MetadataValue, body: Seq<char>)
    requires
        no_delimiter_line(strip_newline(yaml_text(resolved(m)))),
        yaml_decoded(strip_newline(yaml_text(resolved(m)))) == Some(resolved(m)),
        opens_without_blank_line(body),
    ensures
        note_metadata(formatted(m, body)) == Some((resolved(m), body)),
{
    lemma_format_reads_back(m, body);
}

} // verus!
