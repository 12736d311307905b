//! Reading the bytes of a keypair file, written as a bracketed,
//! comma-separated list of decimal bytes (`[12, 255, 0]`).

use vstd::prelude::*;
use crate::text::{lemma_pieces_nonempty, pieces};

verus! {

/// The characters that `char::is_whitespace` accepts: those of Unicode's
/// White_Space property.
pub open spec fn is_white(c: char) -> bool {
    let n = c as u32;
    (9 <= n <= 13) || n == 32 || n == 0x85 || n == 0xa0 || n == 0x1680 || (0x2000 <= n <= 0x200a)
        || n == 0x2028 || n == 0x2029 || n == 0x202f || n == 0x205f || n == 0x3000
}

pub open spec fn is_digit(c: char) -> bool {
    48 <= (c as u32) <= 57
}

/// `s` without the copies of `c` it starts with.
pub open spec fn strip_leading(s: Seq<char>, c: char) -> Seq<char>
    decreases s.len(),
{
    if s.len() > 0 && s[0] == c {
        strip_leading(s.subrange(1, s.len() as int), c)
    } else {
        s
    }
}

/// `s` without the copies of `c` it ends with.
pub open spec fn strip_trailing(s: Seq<char>, c: char) -> Seq<char>
    decreases s.len(),
{
    if s.len() > 0 && s.last() == c {
        strip_trailing(s.drop_last(), c)
    } else {
        s
    }
}

pub open spec fn trim_leading_white(s: Seq<char>) -> Seq<char>
    decreases s.len(),
{
    if s.len() > 0 && is_white(s[0]) {
        trim_leading_white(s.subrange(1, s.len() as int))
    } else {
        s
    }
}

pub open spec fn trim_trailing_white(s: Seq<char>) -> Seq<char>
    decreases s.len(),
{
    if s.len() > 0 && is_white(s.last()) {
        trim_trailing_white(s.drop_last())
    } else {
        s
    }
}

/// `s` without surrounding whitespace, as `str::trim` gives it.
pub open spec fn trim_white(s: Seq<char>) -> Seq<char> {
    trim_trailing_white(trim_leading_white(s))
}

/// The number that a string of decimal digits denotes.
pub open spec fn digits_value(d: Seq<char>) -> nat
    decreases d.len(),
{
    if d.len() == 0 {
        0
    } else {
        digits_value(d.drop_last()) * 10 + ((d.last() as u32) - 48) as nat
    }
}

/// `t` without one leading `+`.
pub open spec fn unsigned_digits(t: Seq<char>) -> Seq<char> {
    if t.len() > 0 && t[0] == '+' {
        t.subrange(1, t.len() as int)
    } else {
        t
    }
}

/// A byte written in decimal, with an optional `+`, as `u8::from_str`
/// reads it.
pub open spec fn parsed_u8(t: Seq<char>) -> Option<u8> {
    let d = unsigned_digits(t);
    if d.len() > 0 && (forall|i: int| 0 <= i < d.len() ==> is_digit(#[trigger] d[i]))
        && digits_value(d) <= 255 {
        Some(digits_value(d) as u8)
    } else {
        None
    }
}

/// The byte that one list entry denotes, whitespace around it ignored.
pub open spec fn piece_byte(p: Seq<char>) -> Option<u8> {
    parsed_u8(trim_white(p))
}

/// The entries of the list: brackets stripped, then split at each comma.
pub open spec fn keypair_pieces(text: Seq<char>) -> Seq<Seq<char>> {
    pieces(strip_trailing(strip_leading(text, '['), ']'), ',')
}

/// The bytes of a keypair file, if every entry is a byte.
pub open spec fn keypair_bytes(text: Seq<char>) -> Option<Seq<u8>> {
    let ps = keypair_pieces(text);
    if forall|i: int| 0 <= i < ps.len() ==> (#[trigger] piece_byte(ps[i])) is Some {
        Some(ps.map_values(|p: Seq<char>| piece_byte(p)->0))
    } else {
        None
    }
}

pub open spec fn all_parsed(done: Seq<Seq<char>>, out: Seq<u8>) -> bool {
    out.len() == done.len() && forall|k: int|
        0 <= k < done.len() ==> piece_byte(#[trigger] done[k]) == Some(out[k])
}

pub open spec fn some_unparsed(done: Seq<Seq<char>>) -> bool {
    exists|k: int| 0 <= k < done.len() && (#[trigger] piece_byte(done[k])) is None
}

proof fn lemma_digits_prefix(d: Seq<char>, k: int)
    requires
        0 <= k <= d.len(),
        forall|i: int| 0 <= i < d.len() ==> is_digit(#[trigger] d[i]),
    ensures
        digits_value(d.subrange(0, k)) <= digits_value(d),
    decreases d.len() - k,
{
    if k < d.len() {
        lemma_digits_prefix(d, k + 1);
        assert(d.subrange(0, k + 1).drop_last() =~= d.subrange(0, k));
    } else {
        assert(d.subrange(0, k) =~= d);
    }
}

fn is_white_char(c: char) -> (r: bool)
    ensures
        r == is_white(c),
{
    let n = c as u32;
    (9 <= n && n <= 13) || n == 32 || n == 0x85 || n == 0xa0 || n == 0x1680 || (0x2000 <= n && n
        <= 0x200a) || n == 0x2028 || n == 0x2029 || n == 0x202f || n == 0x205f || n == 0x3000
}

/// The bounds of `text[a..b]` with its surrounding whitespace removed.
fn trim_bounds(text: &str, a: usize, b: usize) -> (r: (usize, usize))
    requires
        a <= b <= text@.len(),
    ensures
        a <= r.0 <= r.1 <= b,
        text@.subrange(r.0 as int, r.1 as int) == trim_white(text@.subrange(a as int, b as int)),
{
    let mut lo: usize = a;
    while lo < b && is_white_char(text.get_char(lo))
        invariant
            a <= lo <= b,
            b <= text@.len(),
            trim_leading_white(text@.subrange(a as int, b as int)) == trim_leading_white(
                text@.subrange(lo as int, b as int),
            ),
        decreases b - lo,
    {
        assert(text@.subrange(lo as int, b as int).subrange(1, b - lo) =~= text@.subrange(
            lo + 1,
            b as int,
        ));
        lo += 1;
    }
    let mut hi: usize = b;
    while hi > lo && is_white_char(text.get_char(hi - 1))
        invariant
            lo <= hi <= b,
            b <= text@.len(),
            trim_trailing_white(text@.subrange(lo as int, b as int)) == trim_trailing_white(
                text@.subrange(lo as int, hi as int),
            ),
        decreases hi - lo,
    {
        assert(text@.subrange(lo as int, hi as int).drop_last() =~= text@.subrange(
            lo as int,
            hi - 1,
        ));
        hi -= 1;
    }
    (lo, hi)
}

/// The byte written in `text[a..b]`.
fn parse_byte(text: &str, a: usize, b: usize) -> (r: Option<u8>)
    requires
        a <= b <= text@.len(),
    ensures
        r == parsed_u8(text@.subrange(a as int, b as int)),
{
    let ghost t = text@.subrange(a as int, b as int);
    let mut s: usize = a;
    if a < b && text.get_char(a) == '+' {
        s = a + 1;
    }
    let ghost d = text@.subrange(s as int, b as int);
    assert(unsigned_digits(t) =~= d);
    if s == b {
        return None;
    }
    let mut v: u32 = 0;
    let mut i: usize = s;
    assert(d.subrange(0, 0) =~= Seq::<char>::empty());
    while i < b
        invariant
            s <= i <= b,
            b <= text@.len(),
            s < b,
            v <= 255,
            d == text@.subrange(s as int, b as int),
            t == text@.subrange(a as int, b as int),
            unsigned_digits(t) == d,
            forall|k: int| 0 <= k < i - s ==> is_digit(#[trigger] d[k]),
            v == digits_value(d.subrange(0, i - s)),
        decreases b - i,
    {
        let c = text.get_char(i);
        let n = c as u32;
        if !(48 <= n && n <= 57) {
            assert(d[i - s] == c);
            assert(!is_digit(d[i - s]));
            assert(parsed_u8(t) is None);
            return None;
        }
        assert(d.subrange(0, i + 1 - s).drop_last() =~= d.subrange(0, i - s));
        let nv = v * 10 + (n - 48);
        assert(d.subrange(0, i + 1 - s).last() == c);
        assert(digits_value(d.subrange(0, i + 1 - s)) == nv);
        if nv > 255 {
            proof {
                if forall|k: int| 0 <= k < d.len() ==> is_digit(#[trigger] d[k]) {
                    lemma_digits_prefix(d, i + 1 - s);
                }
                assert(parsed_u8(t) is None);
            }
            return None;
        }
        v = nv;
        i += 1;
    }
    assert(d.subrange(0, i - s) =~= d);
    Some(v as u8)
}

/// The byte that the entry `text[a..b]` denotes.
fn piece_at(text: &str, a: usize, b: usize) -> (r: Option<u8>)
    requires
        a <= b <= text@.len(),
    ensures
        r == piece_byte(text@.subrange(a as int, b as int)),
{
    let (x, y) = trim_bounds(text, a, b);
    parse_byte(text, x, y)
}

/// Reads the bytes of a keypair file: leading `[` and trailing `]` are
/// stripped, the rest split at each comma, and each entry, trimmed of
/// whitespace, read as a decimal byte. `None` when an entry is not a byte.
pub fn parse_keypair_bytes(text: &str) -> (r: Option<Vec<u8>>)
    ensures
        match r {
            Some(v) => keypair_bytes(text@) == Some(v@),
            None => keypair_bytes(text@) is None,
        },
{
    let n = text.unicode_len();
    let mut lo: usize = 0;
    assert(text@.subrange(0, n as int) =~= text@);
    while lo < n && text.get_char(lo) == '['
        invariant
            lo <= n,
            n == text@.len(),
            strip_leading(text@, '[') == strip_leading(text@.subrange(lo as int, n as int), '['),
        decreases n - lo,
    {
        assert(text@.subrange(lo as int, n as int).subrange(1, n - lo) =~= text@.subrange(
            lo + 1,
            n as int,
        ));
        lo += 1;
    }
    let mut hi: usize = n;
    while hi > lo && text.get_char(hi - 1) == ']'
        invariant
            lo <= hi <= n,
            n == text@.len(),
            strip_leading(text@, '[') == text@.subrange(lo as int, n as int),
            strip_trailing(text@.subrange(lo as int, n as int), ']') == strip_trailing(
                text@.subrange(lo as int, hi as int),
                ']',
            ),
        decreases hi - lo,
    {
        assert(text@.subrange(lo as int, hi as int).drop_last() =~= text@.subrange(
            lo as int,
            hi - 1,
        ));
        hi -= 1;
    }
    let ghost body = text@.subrange(lo as int, hi as int);
    assert(keypair_pieces(text@) == pieces(body, ','));
    let mut out: Vec<u8> = Vec::new();
    let mut failed = false;
    let mut start: usize = lo;
    let mut i: usize = lo;
    assert(body.subrange(0, 0) =~= Seq::<char>::empty());
    assert(pieces(Seq::<char>::empty(), ',').drop_last() =~= Seq::<Seq<char>>::empty());
    while i < hi
        invariant
            lo <= start <= i <= hi <= n,
            n == text@.len(),
            body == text@.subrange(lo as int, hi as int),
            pieces(body.subrange(0, i - lo), ',').len() >= 1,
            pieces(body.subrange(0, i - lo), ',').last() == text@.subrange(start as int, i as int),
            failed ==> some_unparsed(pieces(body.subrange(0, i - lo), ',').drop_last()),
            !failed ==> all_parsed(pieces(body.subrange(0, i - lo), ',').drop_last(), out@),
        decreases hi - i,
    {
        let ghost pre = body.subrange(0, i - lo);
        let ghost next = body.subrange(0, i + 1 - lo);
        let ghost done = pieces(pre, ',').drop_last();
        assert(next.drop_last() =~= pre);
        let c = text.get_char(i);
        if c == ',' {
            let ghost p = text@.subrange(start as int, i as int);
            assert(pieces(next, ',').drop_last() =~= done.push(p));
            if !failed {
                match piece_at(text, start, i) {
                    Some(b) => {
                        out.push(b);
                        assert(all_parsed(done.push(p), out@));
                    },
                    None => {
                        failed = true;
                        assert(done.push(p)[done.len() as int] == p);
                    },
                }
            } else {
                proof {
                    let k = choose|k: int|
                        0 <= k < done.len() && (#[trigger] piece_byte(done[k])) is None;
                    assert(done.push(p)[k] == done[k]);
                }
            }
            assert(text@.subrange(i + 1, i + 1) =~= Seq::<char>::empty());
            start = i + 1;
        } else {
            assert(pieces(next, ',').drop_last() =~= done);
            assert(text@.subrange(start as int, i + 1) =~= text@.subrange(
                start as int,
                i as int,
            ).push(c));
        }
        i += 1;
    }
    assert(body.subrange(0, i - lo) =~= body);
    proof {
        lemma_pieces_nonempty(body, ',');
    }
    let ghost all = pieces(body, ',');
    let ghost done = all.drop_last();
    assert(all =~= done.push(all.last()));
    if failed {
        proof {
            let k = choose|k: int| 0 <= k < done.len() && (#[trigger] piece_byte(done[k])) is None;
            assert(all[k] == done[k]);
        }
        return None;
    }
    match piece_at(text, start, hi) {
        Some(b) => {
            out.push(b);
            assert(forall|k: int| 0 <= k < all.len() ==> piece_byte(#[trigger] all[k]) == Some(
                out@[k],
            ));
            assert(out@ =~= all.map_values(|p: Seq<char>| piece_byte(p)->0));
            Some(out)
        },
        None => {
            assert(all[all.len() - 1] == all.last());
            None
        },
    }
}

} // verus!
