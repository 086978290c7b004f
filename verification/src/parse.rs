//! Parsing of the three numeric answers the user types at the prompts.
//!
//! A prompt answer arrives as one raw line of text. It is accepted when,
//! after stripping surrounding whitespace, it consists of an optional `+`
//! sign followed by one or more decimal digits whose value fits in a `u32`.

use vstd::prelude::*;

verus! {

/// Whitespace found around a line read from a terminal.
pub open spec fn is_space(c: char) -> bool {
    c == ' ' || c == '\t' || c == '\n' || c == '\r' || c == '\u{c}'
}

/// A decimal digit.
pub open spec fn is_digit(c: char) -> bool {
    '0' <= c && c <= '9'
}

/// Numeric value of a decimal digit.
pub open spec fn digit_val(c: char) -> nat
    recommends
        is_digit(c),
{
    (c as nat - '0' as nat) as nat
}

/// The sequence with its leading whitespace removed.
pub open spec fn trim_front(s: Seq<char>) -> Seq<char>
    decreases s.len(),
{
    if s.len() > 0 && is_space(s[0]) {
        trim_front(s.drop_first())
    } else {
        s
    }
}

/// The sequence with its trailing whitespace removed.
pub open spec fn trim_back(s: Seq<char>) -> Seq<char>
    decreases s.len(),
{
    if s.len() > 0 && is_space(s.last()) {
        trim_back(s.drop_last())
    } else {
        s
    }
}

/// The sequence with whitespace removed from both ends.
pub open spec fn trimmed(s: Seq<char>) -> Seq<char> {
    trim_back(trim_front(s))
}

/// The digits of a trimmed answer: an optional leading `+` is dropped.
pub open spec fn unsigned_part(t: Seq<char>) -> Seq<char> {
    if t.len() > 0 && t[0] == '+' {
        t.drop_first()
    } else {
        t
    }
}

pub open spec fn all_digits(s: Seq<char>) -> bool {
    forall|i: int| 0 <= i < s.len() ==> is_digit(#[trigger] s[i])
}

/// The number a digit sequence denotes in decimal, most significant digit first.
pub open spec fn dec_value(s: Seq<char>) -> nat
    recommends
        all_digits(s),
    decreases s.len(),
{
    if s.len() == 0 {
        0
    } else {
        dec_value(s.drop_last()) * 10 + digit_val(s.last())
    }
}

/// Whether a raw input line is a well-formed `u32` answer.
pub open spec fn parse_ok(s: Seq<char>) -> bool {
    let d = unsigned_part(trimmed(s));
    d.len() > 0 && all_digits(d) && dec_value(d) <= u32::MAX
}

/// The value a well-formed answer denotes.
pub open spec fn parsed_value(s: Seq<char>) -> nat
    recommends
        parse_ok(s),
{
    dec_value(unsigned_part(trimmed(s)))
}

fn is_space_char(c: char) -> (r: bool)
    ensures
        r == is_space(c),
{
    c == ' ' || c == '\t' || c == '\n' || c == '\r' || c == '\u{c}'
}

fn is_digit_char(c: char) -> (r: bool)
    ensures
        r == is_digit(c),
{
    let v = c as u32;
    48 <= v && v <= 57
}

proof fn lemma_trim_front_range(s: Seq<char>, lo: int)
    requires
        0 <= lo <= s.len(),
        forall|k: int| 0 <= k < lo ==> is_space(#[trigger] s[k]),
        lo == s.len() || !is_space(s[lo]),
    ensures
        trim_front(s) =~= s.subrange(lo, s.len() as int),
    decreases lo,
{
    if lo == 0 {
    } else {
        let s2 = s.drop_first();
        lemma_trim_front_range(s2, lo - 1);
        assert(s2.subrange(lo - 1, s2.len() as int) =~= s.subrange(lo, s.len() as int));
    }
}

proof fn lemma_trim_back_range(s: Seq<char>, hi: int)
    requires
        0 <= hi <= s.len(),
        forall|k: int| hi <= k < s.len() ==> is_space(#[trigger] s[k]),
        hi == 0 || !is_space(s[hi - 1]),
    ensures
        trim_back(s) =~= s.subrange(0, hi),
    decreases s.len() - hi,
{
    if hi == s.len() {
    } else {
        let s2 = s.drop_last();
        lemma_trim_back_range(s2, hi);
    }
}

proof fn lemma_dec_value_take_le(s: Seq<char>, k: int)
    requires
        0 <= k <= s.len(),
    ensures
        dec_value(s.take(k)) <= dec_value(s),
    decreases s.len() - k,
{
    if k == s.len() {
        assert(s.take(k) =~= s);
    } else {
        assert(s.take(k + 1).drop_last() =~= s.take(k));
        assert(dec_value(s.take(k + 1)) == dec_value(s.take(k)) * 10 + digit_val(s[k]));
        lemma_dec_value_take_le(s, k + 1);
    }
}

/// Parse one raw input line as a `u32`: surrounding whitespace is ignored and
/// one leading `+` is allowed; anything else non-numeric, an empty answer, or
/// a value above `u32::MAX` is rejected.
pub fn parse_u32(s: &str) -> (r: Option<u32>)
    ensures
        parse_ok(s@) ==> (r matches Some(v) && v as nat == parsed_value(s@)),
        !parse_ok(s@) ==> r is None,
{
    let len = s.unicode_len();
    let ghost sq = s@;

    let mut lo: usize = 0;
    while lo < len && is_space_char(s.get_char(lo))
        invariant
            lo <= len,
            len == sq.len(),
            sq == s@,
            forall|k: int| 0 <= k < lo ==> is_space(#[trigger] sq[k]),
        decreases len - lo,
    {
        lo += 1;
    }

    let mut hi: usize = len;
    while hi > lo && is_space_char(s.get_char(hi - 1))
        invariant
            lo <= hi <= len,
            len == sq.len(),
            sq == s@,
            lo == len || !is_space(sq[lo as int]),
            forall|k: int| hi <= k < len ==> is_space(#[trigger] sq[k]),
        decreases hi,
    {
        hi -= 1;
    }

    proof {
        lemma_trim_front_range(sq, lo as int);
        let f = sq.subrange(lo as int, sq.len() as int);
        lemma_trim_back_range(f, hi - lo);
        assert(f.subrange(0, hi - lo) =~= sq.subrange(lo as int, hi as int));
        assert(trimmed(sq) == sq.subrange(lo as int, hi as int));
    }
    let ghost t = sq.subrange(lo as int, hi as int);

    let mut i: usize = lo;
    if i < hi && s.get_char(i) == '+' {
        i += 1;
    }
    let ghost d = sq.subrange(i as int, hi as int);
    proof {
        assert(unsigned_part(t) =~= d);
    }

    if i == hi {
        assert(d.len() == 0);
        return None;
    }

    let mut acc: u64 = 0;
    let mut j: usize = i;
    while j < hi
        invariant
            i <= j <= hi <= len,
            i < hi,
            len == sq.len(),
            sq == s@,
            acc <= u32::MAX as u64,
            d == sq.subrange(i as int, hi as int),
            unsigned_part(trimmed(sq)) == d,
            all_digits(sq.subrange(i as int, j as int)),
            acc as nat == dec_value(sq.subrange(i as int, j as int)),
        decreases hi - j,
    {
        let c = s.get_char(j);
        if !is_digit_char(c) {
            assert(d[j - i] == sq[j as int]);
            assert(!all_digits(d));
            return None;
        }
        let v: u32 = c as u32;
        let dv: u64 = (v - 48) as u64;
        assert(dv as nat == digit_val(sq[j as int]));
        acc = acc * 10 + dv;
        proof {
            assert(sq.subrange(i as int, j + 1).drop_last() =~= sq.subrange(i as int, j as int));
        }
        j += 1;
        if acc > u32::MAX as u64 {
            proof {
                assert(sq.subrange(i as int, j as int) =~= d.take(j - i));
                lemma_dec_value_take_le(d, j - i);
            }
            assert(dec_value(d) > u32::MAX);
            return None;
        }
    }
    proof {
        assert(sq.subrange(i as int, j as int) =~= d);
    }
    assert(parse_ok(sq));
    Some(acc as u32)
}

} // verus!
