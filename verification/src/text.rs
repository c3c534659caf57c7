//! Strings as sequences of characters, and numbers as text.
pub mod laws;

use vstd::prelude::*;

verus! {

broadcast use vstd::group_vstd_default;

/// `String::push` appends one character.
pub assume_specification[ String::push ](s: &mut String, c: char)
    ensures
        final(s)@ == old(s)@.push(c),
;

/// The characters of `s`.
pub fn chars_of(s: &str) -> (out: Vec<char>)
    ensures
        out@ == s@,
{
    let mut out: Vec<char> = Vec::new();
    for c in it: s.chars()
        invariant
            out@ == s@.subrange(0, it.index() as int),
            it.seq() == s@,
    {
        out.push(c);
        assert(out@ =~= s@.subrange(0, it.index() + 1));
    }
    assert(s@.subrange(0, s@.len() as int) =~= s@);
    out
}

/// The string of `chars` from position `from` up to `to`.
pub fn string_of(chars: &Vec<char>, from: usize, to: usize) -> (s: String)
    requires
        from <= to <= chars@.len(),
    ensures
        s@ == chars@.subrange(from as int, to as int),
{
    let mut s: String = String::new();
    let mut i: usize = from;
    assert(s@ =~= chars@.subrange(from as int, from as int));
    while i < to
        invariant
            from <= i <= to <= chars@.len(),
            s@ == chars@.subrange(from as int, i as int),
        decreases to - i,
    {
        s.push(chars[i]);
        i = i + 1;
        assert(s@ =~= chars@.subrange(from as int, i as int));
    }
    s
}

/// The digit for `d`, in bases up to sixteen.
pub open spec fn digit(d: nat) -> char {
    if d < 10 {
        (d + '0' as nat) as char
    } else {
        (d - 10 + 'a' as nat) as char
    }
}

/// `n` in decimal.
pub open spec fn dec(n: nat) -> Seq<char>
    decreases n,
{
    if n < 10 {
        seq![digit(n)]
    } else {
        dec(n / 10).push(digit(n % 10))
    }
}

/// `n` in hexadecimal, in lower case.
pub open spec fn hex(n: nat) -> Seq<char>
    decreases n,
{
    if n < 16 {
        seq![digit(n)]
    } else {
        hex(n / 16).push(digit(n % 16))
    }
}

fn digit_char(d: u64) -> (c: char)
    requires
        d < 16,
    ensures
        c == digit(d as nat),
{
    match d {
        0 => '0',
        1 => '1',
        2 => '2',
        3 => '3',
        4 => '4',
        5 => '5',
        6 => '6',
        7 => '7',
        8 => '8',
        9 => '9',
        10 => 'a',
        11 => 'b',
        12 => 'c',
        13 => 'd',
        14 => 'e',
        _ => 'f',
    }
}

/// Append `n` in decimal.
pub fn push_dec(s: &mut String, n: u64)
    ensures
        final(s)@ == old(s)@ + dec(n as nat),
    decreases n,
{
    let ghost before = s@;
    if n >= 10 {
        push_dec(s, n / 10);
    }
    s.push(digit_char(n % 10));
    proof {
        if n >= 10 {
            assert(before + dec(n as nat) =~= (before + dec((n / 10) as nat)).push(
                digit((n % 10) as nat),
            ));
        } else {
            assert(before + dec(n as nat) =~= before.push(digit(n as nat)));
        }
    }
}

/// Append `n` in hexadecimal.
pub fn push_hex(s: &mut String, n: u64)
    ensures
        final(s)@ == old(s)@ + hex(n as nat),
    decreases n,
{
    let ghost before = s@;
    if n >= 16 {
        push_hex(s, n / 16);
    }
    s.push(digit_char(n % 16));
    proof {
        if n >= 16 {
            assert(before + hex(n as nat) =~= (before + hex((n / 16) as nat)).push(
                digit((n % 16) as nat),
            ));
        } else {
            assert(before + hex(n as nat) =~= before.push(digit(n as nat)));
        }
    }
}

/// Unicode white space.
pub open spec fn is_white(c: char) -> bool {
    let u = c as u32;
    ||| 0x9 <= u <= 0xd
    ||| u == 0x20
    ||| u == 0x85
    ||| u == 0xa0
    ||| u == 0x1680
    ||| 0x2000 <= u <= 0x200a
    ||| u == 0x2028
    ||| u == 0x2029
    ||| u == 0x202f
    ||| u == 0x205f
    ||| u == 0x3000
}

/// Whether `c` is Unicode white space.
pub fn white(c: char) -> (b: bool)
    ensures
        b == is_white(c),
{
    let u: u32 = c as u32;
    (0x9 <= u && u <= 0xd) || u == 0x20 || u == 0x85 || u == 0xa0 || u == 0x1680 || (0x2000 <= u
        && u <= 0x200a) || u == 0x2028 || u == 0x2029 || u == 0x202f || u == 0x205f || u == 0x3000
}

/// `s` without the white space at its end.
pub open spec fn trimmed_end(s: Seq<char>) -> Seq<char>
    decreases s.len(),
{
    if s.len() > 0 && is_white(s.last()) {
        trimmed_end(s.drop_last())
    } else {
        s
    }
}

/// `s` without the white space at its start.
pub open spec fn trimmed_start(s: Seq<char>) -> Seq<char>
    decreases s.len(),
{
    if s.len() > 0 && is_white(s[0]) {
        trimmed_start(s.skip(1))
    } else {
        s
    }
}

/// `s` without the white space at both ends.
pub open spec fn trimmed(s: Seq<char>) -> Seq<char> {
    trimmed_end(trimmed_start(s))
}

/// `s` without the NUL characters at its end.
pub open spec fn without_nuls(s: Seq<char>) -> Seq<char>
    decreases s.len(),
{
    if s.len() > 0 && s.last() == '\0' {
        without_nuls(s.drop_last())
    } else {
        s
    }
}

/// The characters of `s` without NULs at the end and without white space at both ends.
pub fn trim_text(s: &Vec<char>) -> (out: Vec<char>)
    ensures
        out@ == trimmed(without_nuls(s@)),
{
    let mut to: usize = s.len();
    assert(s@.take(to as int) =~= s@);
    while to > 0 && s[to - 1] == '\0'
        invariant
            to <= s@.len(),
            without_nuls(s@.take(to as int)) == without_nuls(s@),
        decreases to,
    {
        assert(s@.take(to as int).drop_last() =~= s@.take(to - 1));
        to = to - 1;
    }
    let ghost text = without_nuls(s@);
    assert(text == s@.take(to as int));
    let ghost end = to as int;
    let mut from: usize = 0;
    assert(s@.subrange(0, to as int) =~= text);
    while from < to && white(s[from])
        invariant
            from <= to == end <= s@.len(),
            trimmed_start(s@.subrange(from as int, end)) == trimmed_start(text),
        decreases to - from,
    {
        assert(s@.subrange(from as int, end).skip(1) =~= s@.subrange(from + 1, end));
        from = from + 1;
    }
    let ghost start = trimmed_start(text);
    assert(start =~= s@.subrange(from as int, end));
    while from < to && white(s[to - 1])
        invariant
            from <= to <= s@.len(),
            trimmed_end(s@.subrange(from as int, to as int)) == trimmed_end(start),
        decreases to - from,
    {
        assert(s@.subrange(from as int, to as int).drop_last() =~= s@.subrange(
            from as int,
            to - 1,
        ));
        to = to - 1;
    }
    let mut out: Vec<char> = Vec::new();
    let mut i: usize = from;
    while i < to
        invariant
            from <= i <= to <= s@.len(),
            out@ == s@.subrange(from as int, i as int),
        decreases to - i,
    {
        out.push(s[i]);
        i = i + 1;
        assert(out@ =~= s@.subrange(from as int, i as int));
    }
    out
}

/// The number that the decimal digits of `s` spell. None when `s` is empty or has another
/// character.
pub open spec fn number(s: Seq<char>) -> Option<nat>
    decreases s.len(),
{
    if s.len() == 0 || !('0' <= s.last() <= '9') {
        None
    } else {
        let d = (s.last() as u32 - '0' as u32) as nat;
        if s.len() == 1 {
            Some(d)
        } else {
            match number(s.drop_last()) {
                Some(n) => Some(10 * n + d),
                None => None,
            }
        }
    }
}

/// The 32-bit number that `s` spells: decimal digits, with or without a plus sign before them.
pub open spec fn u32_of(s: Seq<char>) -> Option<u32> {
    let digits = if s.len() > 1 && s[0] == '+' {
        s.skip(1)
    } else {
        s
    };
    in_32_bits(number(digits))
}

/// `n`, where it fits in 32 bits.
pub open spec fn in_32_bits(n: Option<nat>) -> Option<u32> {
    match n {
        Some(v) => if v <= u32::MAX {
            Some(v as u32)
        } else {
            None
        },
        None => None,
    }
}

/// The number that `s` spells from position `from` up to `to`.
pub fn parse_u32(s: &Vec<char>, from: usize, to: usize) -> (r: Option<u32>)
    requires
        from <= to <= s@.len(),
    ensures
        r == u32_of(s@.subrange(from as int, to as int)),
{
    let ghost text = s@.subrange(from as int, to as int);
    let start: usize = if to - from > 1 && s[from] == '+' {
        from + 1
    } else {
        from
    };
    let ghost digits = s@.subrange(start as int, to as int);
    proof {
        if start > from {
            assert(text.skip(1) =~= digits);
        }
    }
    if start == to {
        return None;
    }
    let mut i: usize = start;
    let mut value: u64 = 0;
    let mut big: bool = false;
    while i < to
        invariant
            start <= i <= to <= s@.len(),
            digits == s@.subrange(start as int, to as int),
            u32_of(s@.subrange(from as int, to as int)) == in_32_bits(number(digits)),
            value <= u32::MAX,
            i == start ==> value == 0 && !big,
            i > start ==> number(digits.take(i - start)) is Some,
            i > start && big ==> number(digits.take(i - start))->0 > u32::MAX,
            i > start && !big ==> number(digits.take(i - start))->0 == value,
        decreases to - i,
    {
        let c: char = s[i];
        let ghost next = digits.take(i + 1 - start);
        proof {
            assert(next.last() == c);
            assert(next.drop_last() =~= digits.take(i - start));
            assert(digits.take(digits.len() as int) =~= digits);
        }
        if !('0' <= c && c <= '9') {
            proof {
                if number(digits) is Some {
                    lemma_number_prefix(digits, i + 1 - start);
                }
            }
            return None;
        }
        let d: u64 = (c as u32 - '0' as u32) as u64;
        let sum: u64 = value * 10 + d;
        if big || sum > u32::MAX as u64 {
            big = true;
            value = 0;
        } else {
            value = sum;
        }
        i = i + 1;
    }
    assert(digits.take(i - start) =~= digits);
    if big {
        None
    } else {
        Some(value as u32)
    }
}

/// A text that spells a number has only digits, so every part from its start spells one too.
proof fn lemma_number_prefix(s: Seq<char>, n: int)
    requires
        0 < n <= s.len(),
        number(s) is Some,
    ensures
        number(s.take(n)) is Some,
    decreases s.len(),
{
    if n < s.len() {
        lemma_number_prefix(s.drop_last(), n);
        assert(s.drop_last().take(n) =~= s.take(n));
    } else {
        assert(s.take(n) =~= s);
    }
}

} // verus!
