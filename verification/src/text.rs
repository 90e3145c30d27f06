//! Reading what a command line tool printed: searching for a phrase and
//! reading a decimal number.

use vstd::prelude::*;

verus! {

/// Whether `needle` occurs in `hay` as a run of bytes.
pub open spec fn occurs_in(needle: Seq<u8>, hay: Seq<u8>) -> bool {
    exists|i: int| occurs_at(needle, hay, i)
}

/// Whether `needle` occurs in `hay` at place `i`.
pub open spec fn occurs_at(needle: Seq<u8>, hay: Seq<u8>, i: int) -> bool {
    0 <= i && i + needle.len() <= hay.len() && hay.subrange(i, i + needle.len()) == needle
}

/// Whether `b` is a blank: a space, a tab, a line feed, a vertical tab, a form
/// feed or a carriage return.
pub open spec fn is_space(b: u8) -> bool {
    b == 32 || 9 <= b <= 13
}

/// Whether `b` is one of the digits `0` to `9`.
pub open spec fn is_digit(b: u8) -> bool {
    48 <= b <= 57
}

/// The number that a digit stands for.
pub open spec fn digit_value(b: u8) -> nat {
    if is_digit(b) {
        (b - 48) as nat
    } else {
        0
    }
}

/// Whether every byte is a digit.
pub open spec fn all_digits(s: Seq<u8>) -> bool {
    forall|i: int| 0 <= i < s.len() ==> is_digit(#[trigger] s[i])
}

/// The number that a run of digits stands for in decimal.
pub open spec fn digits_value(s: Seq<u8>) -> nat
    decreases s.len(),
{
    if s.len() == 0 {
        0
    } else {
        digits_value(s.drop_last()) * 10 + digit_value(s.last())
    }
}

/// The bytes without the blanks in front.
pub open spec fn trim_start(s: Seq<u8>) -> Seq<u8>
    decreases s.len(),
{
    if s.len() > 0 && is_space(s[0]) {
        trim_start(s.drop_first())
    } else {
        s
    }
}

/// The bytes without the blanks at the end.
pub open spec fn trim_end(s: Seq<u8>) -> Seq<u8>
    decreases s.len(),
{
    if s.len() > 0 && is_space(s.last()) {
        trim_end(s.drop_last())
    } else {
        s
    }
}

/// The bytes without the blanks around them.
pub open spec fn spec_trim(s: Seq<u8>) -> Seq<u8> {
    trim_end(trim_start(s))
}

/// The number that the bytes spell once the blanks around it are taken off:
/// one digit or more and nothing else, in decimal. There is none where
/// anything else is written, or a number too large for a `u64`.
pub open spec fn spec_parse_decimal(s: Seq<u8>) -> Option<u64> {
    let core = spec_trim(s);
    if core.len() > 0 && all_digits(core) && digits_value(core) <= u64::MAX {
        Some(digits_value(core) as u64)
    } else {
        None
    }
}

proof fn lemma_digits_prefix(s: Seq<u8>, n: int)
    requires
        0 <= n <= s.len(),
    ensures
        digits_value(s.take(n)) <= digits_value(s),
    decreases s.len() - n,
{
    if n == s.len() {
        assert(s.take(n) =~= s);
    } else {
        assert(s.take(n + 1).drop_last() =~= s.take(n));
        lemma_digits_prefix(s, n + 1);
    }
}

/// Whether `needle` occurs in `hay`.
pub fn contains_bytes(hay: &[u8], needle: &[u8]) -> (found: bool)
    ensures
        found == occurs_in(needle@, hay@),
{
    if needle.len() > hay.len() {
        assert forall|i: int| !occurs_at(needle@, hay@, i) by {}
        return false;
    }
    let last: usize = hay.len() - needle.len();
    let mut i: usize = 0;
    while i <= last
        invariant
            i <= last + 1,
            last == hay.len() - needle.len(),
            forall|j: int| 0 <= j < i ==> !occurs_at(needle@, hay@, j),
        decreases last + 1 - i,
    {
        let mut k: usize = 0;
        while k < needle.len() && hay[i + k] == needle[k]
            invariant
                k <= needle.len(),
                i <= last,
                last == hay.len() - needle.len(),
                forall|m: int| 0 <= m < k ==> hay@[i + m] == needle@[m],
            decreases needle.len() - k,
        {
            k += 1;
        }
        if k == needle.len() {
            assert(hay@.subrange(i as int, i + needle.len()) =~= needle@);
            assert(occurs_at(needle@, hay@, i as int));
            return true;
        }
        assert(!occurs_at(needle@, hay@, i as int)) by {
            if occurs_at(needle@, hay@, i as int) {
                assert(hay@.subrange(i as int, i + needle.len())[k as int] == hay@[i + k]);
            }
        }
        i += 1;
    }
    assert forall|j: int| !occurs_at(needle@, hay@, j) by {}
    false
}

/// Where the bytes begin and end once the blanks around them are taken off.
pub fn trim(s: &[u8]) -> (bounds: (usize, usize))
    ensures
        bounds.0 <= bounds.1 <= s@.len(),
        s@.subrange(bounds.0 as int, bounds.1 as int) == spec_trim(s@),
{
    let mut from: usize = 0;
    proof {
        assert(s@.skip(0) =~= s@);
    }
    while from < s.len() && (s[from] == 32 || (9 <= s[from] && s[from] <= 13))
        invariant
            from <= s.len(),
            trim_start(s@) == trim_start(s@.skip(from as int)),
        decreases s.len() - from,
    {
        proof {
            assert(s@.skip(from as int).drop_first() =~= s@.skip(from + 1));
        }
        from += 1;
    }
    let ghost rest = s@.skip(from as int);
    assert(trim_start(s@) == rest);
    let mut to: usize = s.len();
    proof {
        assert(rest.take(to - from) =~= rest);
    }
    while to > from && (s[to - 1] == 32 || (9 <= s[to - 1] && s[to - 1] <= 13))
        invariant
            from <= to <= s.len(),
            rest == s@.skip(from as int),
            trim_end(rest) == trim_end(rest.take(to - from)),
        decreases to - from,
    {
        proof {
            assert(rest.take(to - from).last() == s@[to - 1]);
            assert(rest.take(to - from).drop_last() =~= rest.take(to - 1 - from));
        }
        to -= 1;
    }
    proof {
        let core = rest.take(to - from);
        if to > from {
            assert(core.last() == s@[to - 1]);
        }
        assert(trim_end(rest) == core);
        assert(core =~= s@.subrange(from as int, to as int));
    }
    (from, to)
}

/// The bytes without the blanks around them.
pub fn trimmed(s: &[u8]) -> (core: Vec<u8>)
    ensures
        core@ == spec_trim(s@),
{
    let (from, to) = trim(s);
    let mut core: Vec<u8> = Vec::new();
    let mut k: usize = from;
    while k < to
        invariant
            from <= k <= to <= s.len(),
            core@ == s@.subrange(from as int, k as int),
        decreases to - k,
    {
        core.push(s[k]);
        proof {
            assert(s@.subrange(from as int, k + 1) =~= s@.subrange(from as int, k as int).push(
                s@[k as int],
            ));
        }
        k += 1;
    }
    core
}

/// Reads the decimal number that the bytes spell, blanks around it aside.
pub fn parse_decimal(s: &[u8]) -> (r: Option<u64>)
    ensures
        r == spec_parse_decimal(s@),
{
    let (from, to) = trim(s);
    let ghost core = s@.subrange(from as int, to as int);
    if to == from {
        return None;
    }
    let mut value: u64 = 0;
    let mut k: usize = from;
    proof {
        assert(core.take(0) =~= Seq::empty());
    }
    while k < to
        invariant
            from <= k <= to <= s.len(),
            core == s@.subrange(from as int, to as int),
            spec_trim(s@) == core,
            all_digits(core.take(k - from)),
            value == digits_value(core.take(k - from)),
        decreases to - k,
    {
        let b: u8 = s[k];
        proof {
            assert(core[k - from] == b);
            assert(core.take(k + 1 - from).drop_last() =~= core.take(k - from));
            assert(core.take(k + 1 - from).last() == b);
        }
        if b < 48 || b > 57 {
            assert(!is_digit(core[k - from]));
            return None;
        }
        let d: u64 = (b - 48) as u64;
        if value > (u64::MAX - d) / 10 {
            proof {
                lemma_digits_prefix(core, k + 1 - from);
            }
            return None;
        }
        value = value * 10 + d;
        proof {
            assert forall|i: int| 0 <= i < core.take(k + 1 - from).len() implies is_digit(
                #[trigger] core.take(k + 1 - from)[i],
            ) by {
                if i < k - from {
                    assert(core.take(k - from)[i] == core.take(k + 1 - from)[i]);
                }
            }
        }
        k += 1;
    }
    proof {
        assert(core.take(k - from) =~= core);
    }
    Some(value)
}

} // verus!
