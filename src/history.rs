//! Reading the revision list out of the history query's output.
use vstd::prelude::*;
use vstd::utf8::{decode_utf8, valid_utf8};

verus! {

pub const NEWLINE: u8 = 10;

pub const CARRIAGE_RETURN: u8 = 13;

/// Separates the fields of one log line.
pub const FIELD_SEPARATOR: u8 = 59;

/// One recorded revision of the source repository.
#[derive(Debug)]
pub struct Revision {
    pub id: String,
    pub message: String,
    pub timestamp: String,
}

pub struct RevisionView {
    pub id: Seq<char>,
    pub message: Seq<char>,
    pub timestamp: Seq<char>,
}

impl View for Revision {
    type V = RevisionView;

    open spec fn view(&self) -> RevisionView {
        RevisionView { id: self.id@, message: self.message@, timestamp: self.timestamp@ }
    }
}

/// The index of the first `x` in `s`, or `s.len()` when there is none.
pub open spec fn first_index(s: Seq<u8>, x: u8) -> int
    decreases s.len(),
{
    if s.len() == 0 {
        0
    } else if s[0] == x {
        0
    } else {
        1 + first_index(s.drop_first(), x)
    }
}

/// The lines of `b`: split at each newline, with no empty line after a final
/// newline and none at all for empty input.
pub open spec fn lines_of(b: Seq<u8>) -> Seq<Seq<u8>>
    decreases b.len(),
{
    if b.len() == 0 {
        seq![]
    } else {
        let e = first_index(b, NEWLINE);
        if 0 <= e < b.len() {
            seq![b.take(e)] + lines_of(b.skip(e + 1))
        } else {
            seq![b]
        }
    }
}

/// A line without its trailing carriage return, if it has one.
pub open spec fn strip_cr(l: Seq<u8>) -> Seq<u8> {
    if l.len() > 0 && l.last() == CARRIAGE_RETURN {
        l.drop_last()
    } else {
        l
    }
}

/// Splits a line at its first two separators into hash, time and subject;
/// the subject keeps any further separators. Missing fields are empty.
pub open spec fn fields_of(l: Seq<u8>) -> (Seq<u8>, Seq<u8>, Seq<u8>) {
    let p = first_index(l, FIELD_SEPARATOR);
    if p == l.len() {
        (l, seq![], seq![])
    } else {
        let rest = l.skip(p + 1);
        let q = first_index(rest, FIELD_SEPARATOR);
        if q == rest.len() {
            (l.take(p), rest, seq![])
        } else {
            (l.take(p), rest.take(q), rest.skip(q + 1))
        }
    }
}

pub open spec fn line_fields(l: Seq<u8>) -> (Seq<u8>, Seq<u8>, Seq<u8>) {
    fields_of(strip_cr(l))
}

pub open spec fn decodable(f: (Seq<u8>, Seq<u8>, Seq<u8>)) -> bool {
    valid_utf8(f.0) && valid_utf8(f.1) && valid_utf8(f.2)
}

pub open spec fn revision_of(f: (Seq<u8>, Seq<u8>, Seq<u8>)) -> RevisionView {
    RevisionView { id: decode_utf8(f.0), timestamp: decode_utf8(f.1), message: decode_utf8(f.2) }
}

pub open spec fn line_decodable(l: Seq<u8>) -> bool {
    decodable(line_fields(l))
}

pub open spec fn line_revision(l: Seq<u8>) -> RevisionView {
    revision_of(line_fields(l))
}

/// The revisions that a history output lists, newest first as the tool
/// reports them, or `None` when some field is not UTF-8 text.
pub open spec fn parsed_log(b: Seq<u8>) -> Option<Seq<RevisionView>> {
    let ls = lines_of(b);
    if forall|i: int| 0 <= i < ls.len() ==> line_decodable(#[trigger] ls[i]) {
        Some(ls.map_values(|l: Seq<u8>| line_revision(l)))
    } else {
        None
    }
}

proof fn lemma_first_index(s: Seq<u8>, x: u8, p: int)
    requires
        0 <= p <= s.len(),
        forall|j: int| 0 <= j < p ==> s[j] != x,
        p == s.len() || s[p] == x,
    ensures
        first_index(s, x) == p,
    decreases p,
{
    if p > 0 {
        lemma_first_index(s.drop_first(), x, p - 1);
    }
}

/// Relies on String::from_utf8: it succeeds exactly on valid UTF-8 and then
/// holds the characters that the bytes encode.
#[verifier::external_body]
fn decode_text(bytes: Vec<u8>) -> (r: Option<String>)
    ensures
        r is Some <==> valid_utf8(bytes@),
        r matches Some(s) ==> s@ == decode_utf8(bytes@),
{
    match String::from_utf8(bytes) {
        Ok(s) => Some(s),
        Err(_) => None,
    }
}

/// The first index in `from..to` that holds `x`, or `to`.
fn find_byte(b: &Vec<u8>, from: usize, to: usize, x: u8) -> (e: usize)
    requires
        from <= to <= b@.len(),
    ensures
        from <= e <= to,
        forall|j: int| from <= j < e ==> b@[j] != x,
        e < to ==> b@[e as int] == x,
{
    let mut e = from;
    while e < to
        invariant
            from <= e <= to <= b@.len(),
            forall|j: int| from <= j < e ==> b@[j] != x,
        decreases to - e,
    {
        if b[e] == x {
            return e;
        }
        e = e + 1;
    }
    e
}

fn bytes_between(b: &Vec<u8>, lo: usize, hi: usize) -> (r: Vec<u8>)
    requires
        lo <= hi <= b@.len(),
    ensures
        r@ == b@.subrange(lo as int, hi as int),
{
    let mut r: Vec<u8> = Vec::new();
    let mut i = lo;
    while i < hi
        invariant
            lo <= i <= hi <= b@.len(),
            r@ == b@.subrange(lo as int, i as int),
        decreases hi - i,
    {
        r.push(b[i]);
        i = i + 1;
        assert(r@ =~= b@.subrange(lo as int, i as int));
    }
    r
}

/// The field bounds of the line `b[lo..hi]`, as `fields_of` splits it.
fn field_bounds(b: &Vec<u8>, lo: usize, hi: usize) -> (r: (usize, usize, usize, usize))
    requires
        lo <= hi <= b@.len(),
    ensures
        lo <= r.0 <= r.1 <= r.2 <= r.3 <= hi,
        fields_of(b@.subrange(lo as int, hi as int)) == (
            b@.subrange(lo as int, r.0 as int),
            b@.subrange(r.1 as int, r.2 as int),
            b@.subrange(r.3 as int, hi as int),
        ),
{
    let ghost l = b@.subrange(lo as int, hi as int);
    let p = find_byte(b, lo, hi, FIELD_SEPARATOR);
    proof {
        lemma_first_index(l, FIELD_SEPARATOR, p - lo);
    }
    if p == hi {
        assert(l =~= b@.subrange(lo as int, hi as int));
        assert(b@.subrange(hi as int, hi as int) =~= seq![]);
        return (hi, hi, hi, hi);
    }
    let q = find_byte(b, p + 1, hi, FIELD_SEPARATOR);
    let ghost rest = l.skip(p - lo + 1);
    assert(rest =~= b@.subrange(p + 1, hi as int));
    proof {
        lemma_first_index(rest, FIELD_SEPARATOR, q - p - 1);
    }
    assert(l.take(p - lo) =~= b@.subrange(lo as int, p as int));
    if q == hi {
        assert(b@.subrange(hi as int, hi as int) =~= seq![]);
        (p, p + 1, hi, hi)
    } else {
        assert(rest.take(q - p - 1) =~= b@.subrange(p + 1, q as int));
        assert(rest.skip(q - p) =~= b@.subrange(q + 1, hi as int));
        (p, p + 1, q, q + 1)
    }
}

/// Reads the line `b[lo..hi]` into a revision, or `None` when a field is not text.
fn parse_line(b: &Vec<u8>, lo: usize, hi: usize) -> (r: Option<Revision>)
    requires
        lo <= hi <= b@.len(),
    ensures
        r is Some <==> line_decodable(b@.subrange(lo as int, hi as int)),
        r matches Some(v) ==> v@ == line_revision(b@.subrange(lo as int, hi as int)),
{
    let ghost l = b@.subrange(lo as int, hi as int);
    let mut end = hi;
    if lo < hi && b[hi - 1] == CARRIAGE_RETURN {
        end = hi - 1;
    }
    assert(strip_cr(l) =~= b@.subrange(lo as int, end as int));
    let (a, c, d, e) = field_bounds(b, lo, end);
    let id = decode_text(bytes_between(b, lo, a));
    let timestamp = decode_text(bytes_between(b, c, d));
    let message = decode_text(bytes_between(b, e, end));
    match (id, timestamp, message) {
        (Some(id), Some(timestamp), Some(message)) => Some(Revision { id, message, timestamp }),
        _ => None,
    }
}

/// Parses the output of the history query (see `log_command`) into its
/// revisions, newest first. Fails with `None` when a field is not UTF-8.
pub fn parse_log(out: &Vec<u8>) -> (r: Option<Vec<Revision>>)
    ensures
        r is Some <==> parsed_log(out@) is Some,
        r matches Some(v) ==> v@.map_values(|x: Revision| x@) == parsed_log(out@)->0,
{
    let n = out.len();
    let mut revs: Vec<Revision> = Vec::new();
    let mut pos: usize = 0;
    let ghost mut done: Seq<Seq<u8>> = seq![];
    assert(out@.skip(0) =~= out@);
    assert(done + lines_of(out@) =~= lines_of(out@));
    while pos < n
        invariant
            n == out@.len(),
            pos <= n,
            lines_of(out@) == done + lines_of(out@.skip(pos as int)),
            forall|i: int| 0 <= i < done.len() ==> line_decodable(#[trigger] done[i]),
            revs@.map_values(|x: Revision| x@) == done.map_values(|l: Seq<u8>| line_revision(l)),
        decreases n - pos,
    {
        let ghost s = out@.skip(pos as int);
        let e = find_byte(out, pos, n, NEWLINE);
        proof {
            lemma_first_index(s, NEWLINE, e - pos);
            assert(s.take(e - pos) =~= out@.subrange(pos as int, e as int));
        }
        let line = parse_line(out, pos, e);
        let ghost l = out@.subrange(pos as int, e as int);
        match line {
            Some(v) => {
                proof {
                    if e < n {
                        assert(s.skip(e - pos + 1) =~= out@.skip(e + 1));
                    } else {
                        assert(s =~= l);
                        assert(out@.skip(n as int) =~= seq![]);
                    }
                }
                let ghost before_done = done;
                let ghost before = revs@;
                proof {
                    done = done.push(l);
                }
                revs.push(v);
                pos = if e < n { e + 1 } else { n };
                assert(lines_of(out@) =~= done + lines_of(out@.skip(pos as int)));
                assert(revs@ =~= before.push(v));
                assert(revs@.map_values(|x: Revision| x@) =~= before.map_values(|x: Revision| x@).push(v@));
                assert(done.map_values(|l: Seq<u8>| line_revision(l)) =~= before_done.map_values(
                    |l: Seq<u8>| line_revision(l),
                ).push(line_revision(l)));
            },
            None => {
                proof {
                    let ls = lines_of(out@);
                    assert(ls[done.len() as int] == out@.subrange(pos as int, e as int));
                }
                return None;
            },
        }
    }
    assert(out@.skip(n as int) =~= seq![]);
    assert(lines_of(out@) =~= done);
    Some(revs)
}

} // verus!
