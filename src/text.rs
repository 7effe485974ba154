//! Character-level helpers over strings: splitting at a separator, line
//! splitting with the rules of `str::lines`, and copying ranges of characters.
use vstd::prelude::*;
use vstd::std_specs::iter::IteratorSpec;

verus! {

broadcast use vstd::string::group_string_axioms;

/// Index of the first `sep` at or after `i`, or `s.len()` if none.
pub open spec fn sep_end(s: Seq<char>, sep: char, i: int) -> int
    decreases s.len() - i,
{
    if i >= s.len() || s[i] == sep {
        i
    } else {
        sep_end(s, sep, i + 1)
    }
}

/// The pieces of `s` from position `i` on, cut at every `sep` (as `str::split`).
pub open spec fn split_from(s: Seq<char>, sep: char, i: int) -> Seq<Seq<char>>
    decreases s.len() - i,
{
    let e = sep_end(s, sep, i);
    if i < 0 || i > s.len() || e < i {
        seq![]
    } else if e >= s.len() {
        seq![s.subrange(i, s.len() as int)]
    } else {
        seq![s.subrange(i, e)] + split_from(s, sep, e + 1)
    }
}

/// The pieces of `s` cut at every `sep`; there is always at least one.
pub open spec fn split_spec(s: Seq<char>, sep: char) -> Seq<Seq<char>> {
    split_from(s, sep, 0)
}

proof fn lemma_sep_end_at(s: Seq<char>, sep: char, i: int, e: int)
    requires
        0 <= i <= e <= s.len(),
        forall|k: int| i <= k < e ==> s[k] != sep,
        e == s.len() || s[e] == sep,
    ensures
        sep_end(s, sep, i) == e,
    decreases e - i,
{
    if i < e {
        lemma_sep_end_at(s, sep, i + 1, e);
    }
}

/// Two pieces without the separator, joined by it, split back into the two.
pub proof fn lemma_split_two(a: Seq<char>, b: Seq<char>, sep: char)
    requires
        forall|k: int| 0 <= k < a.len() ==> a[k] != sep,
        forall|k: int| 0 <= k < b.len() ==> b[k] != sep,
    ensures
        split_spec(a + seq![sep] + b, sep) == seq![a, b],
{
    let s = a + seq![sep] + b;
    let n = a.len() as int;
    assert forall|k: int| 0 <= k < n implies s[k] != sep by {
        assert(s[k] == a[k]);
    }
    assert forall|k: int| n + 1 <= k < s.len() implies s[k] != sep by {
        assert(s[k] == b[k - n - 1]);
    }
    lemma_sep_end_at(s, sep, 0, n);
    lemma_sep_end_at(s, sep, n + 1, s.len() as int);
    assert(s.subrange(0, n) =~= a);
    assert(s.subrange(n + 1, s.len() as int) =~= b);
    assert(split_from(s, sep, n + 1) == seq![b]);
    assert(split_spec(s, sep) =~= seq![a, b]);
}

/// A line without the one carriage return that may end it.
pub open spec fn strip_cr(l: Seq<char>) -> Seq<char> {
    if l.len() > 0 && l.last() == '\r' {
        l.drop_last()
    } else {
        l
    }
}

/// Piece `k` of `p` as a line: a carriage return is dropped only where a
/// newline follows, that is on every piece but the last.
pub open spec fn line_at(p: Seq<Seq<char>>, k: int) -> Seq<char> {
    if k + 1 < p.len() {
        strip_cr(p[k])
    } else {
        p[k]
    }
}

/// How many lines the pieces `p` between newlines make: all of them but a
/// final empty one.
pub open spec fn line_count(p: Seq<Seq<char>>) -> nat {
    if p.len() > 0 && p.last().len() == 0 {
        (p.len() - 1) as nat
    } else {
        p.len()
    }
}

/// The lines of `s`: pieces between newlines, without a final empty piece,
/// each ending in `\r\n` without its `\r`.
pub open spec fn lines_of(s: Seq<char>) -> Seq<Seq<char>> {
    let p = split_spec(s, '\n');
    Seq::new(line_count(p), |k: int| line_at(p, k))
}

/// Relies on `String::push`: appends one character.
#[verifier::external_body]
fn push_char(s: &mut String, c: char)
    ensures
        final(s)@ == old(s)@.push(c),
{
    s.push(c)
}

/// The characters of `s`, in order.
pub fn chars_of(s: &str) -> (r: Vec<char>)
    ensures
        r@ == s@,
{
    let mut out: Vec<char> = Vec::new();
    let mut it = s.chars();
    let ghost all = s@;
    loop
        invariant
            all == s@,
            out@ + it.remaining() == all,
            it.obeys_prophetic_iter_laws(),
            it.decrease() is Some,
        ensures
            out@ == all,
        decreases it.decrease()->0,
    {
        match it.next() {
            Some(c) => {
                out.push(c);
            },
            None => {
                assert(out@ + it.remaining() == all);
                assert(it.remaining().len() == 0);
                assert(out@ =~= all);
                break ;
            },
        }
    }
    out
}

/// The characters `cs[from..to]` as a string.
pub fn string_of_range(cs: &Vec<char>, from: usize, to: usize) -> (r: String)
    requires
        from <= to <= cs.len(),
    ensures
        r@ == cs@.subrange(from as int, to as int),
{
    let mut out = String::new();
    let mut i = from;
    while i < to
        invariant
            from <= i <= to <= cs.len(),
            out@ == cs@.subrange(from as int, i as int),
        decreases to - i,
    {
        push_char(&mut out, cs[i]);
        assert(cs@.subrange(from as int, i + 1) =~= cs@.subrange(from as int, i as int).push(cs@[i as int]));
        i = i + 1;
    }
    out
}

/// The pieces of `cs` cut at every `sep`, as `str::split` gives them.
pub fn split_chars(cs: &Vec<char>, sep: char) -> (r: Vec<String>)
    ensures
        r@.map_values(|x: String| x@) == split_spec(cs@, sep),
{
    let mut out: Vec<String> = Vec::new();
    let mut start: usize = 0;
    assert(out@.map_values(|x: String| x@) + split_from(cs@, sep, 0) =~= split_spec(cs@, sep));
    loop
        invariant_except_break
            out@.map_values(|x: String| x@) + split_from(cs@, sep, start as int) == split_spec(cs@, sep),
        invariant
            start <= cs.len(),
        ensures
            out@.map_values(|x: String| x@) == split_spec(cs@, sep),
        decreases cs.len() - start,
    {
        let mut e = start;
        while e < cs.len() && cs[e] != sep
            invariant
                start <= e <= cs.len(),
                sep_end(cs@, sep, start as int) == sep_end(cs@, sep, e as int),
            decreases cs.len() - e,
        {
            e = e + 1;
        }
        assert(sep_end(cs@, sep, e as int) == e);
        let piece = string_of_range(cs, start, e);
        let ghost before = out@.map_values(|x: String| x@);
        out.push(piece);
        assert(out@.map_values(|x: String| x@) =~= before.push(piece@));
        if e >= cs.len() {
            assert(split_from(cs@, sep, start as int) == seq![piece@]);
            assert(before + seq![piece@] =~= before.push(piece@));
            break ;
        }
        assert(split_from(cs@, sep, start as int) == seq![piece@] + split_from(cs@, sep, e + 1));
        assert(before + (seq![piece@] + split_from(cs@, sep, e + 1)) =~= before.push(piece@) + split_from(cs@, sep, e + 1));
        start = e + 1;
    }
    out
}

/// The lines of `s`, as `str::lines` gives them.
pub fn split_lines(s: &str) -> (r: Vec<String>)
    ensures
        r@.map_values(|x: String| x@) == lines_of(s@),
{
    let cs = chars_of(s);
    let pieces = split_chars(&cs, '\n');
    let ghost p = split_spec(s@, '\n');
    let total = pieces.len();
    let mut n = total;
    if n > 0 && pieces[n - 1].as_str().unicode_len() == 0 {
        n = n - 1;
    }
    assert(pieces@.map_values(|x: String| x@).len() == total);
    assert(n == line_count(p));
    let mut out: Vec<String> = Vec::new();
    let mut i: usize = 0;
    while i < n
        invariant
            n <= pieces.len() == total,
            pieces@.map_values(|x: String| x@) == p,
            n == line_count(p),
            i <= n,
            out@.map_values(|x: String| x@) == Seq::new(i as nat, |k: int| line_at(p, k)),
        decreases n - i,
    {
        let pc = chars_of(pieces[i].as_str());
        assert(pc@ == p[i as int]);
        let mut end = pc.len();
        if i + 1 < total && end > 0 && pc[end - 1] == '\r' {
            end = end - 1;
        }
        let line = string_of_range(&pc, 0, end);
        assert(line@ =~= line_at(p, i as int));
        let ghost before = out@.map_values(|x: String| x@);
        out.push(line);
        assert(out@.map_values(|x: String| x@) =~= before.push(line@));
        assert(Seq::new((i + 1) as nat, |k: int| line_at(p, k)) =~= Seq::new(i as nat, |k: int| line_at(p, k)).push(line_at(p, i as int)));
        i = i + 1;
    }
    out
}

} // verus!
