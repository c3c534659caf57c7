//! What numbers look like as text, and what text is cut down to.
use vstd::prelude::*;

verus! {

broadcast use vstd::group_vstd_default;

/// The value of the character as a digit: 0 to 9, then a to f.
pub open spec fn digit_value(c: char) -> int {
    if 48 <= c as int <= 57 {
        c as int - 48
    } else if 97 <= c as int <= 102 {
        c as int - 87
    } else {
        -1
    }
}

/// The number that `s` spells in base ten, or in base sixteen, the highest digit first.
pub open spec fn spelled(s: Seq<char>, base: int) -> int
    decreases s.len(),
{
    if s.len() == 0 {
        0
    } else {
        let front = spelled(s.drop_last(), base);
        if base == 16 {
            16 * front + digit_value(s.last())
        } else {
            10 * front + digit_value(s.last())
        }
    }
}

/// `s` has one or more digits of `base`, and no zero before others.
pub open spec fn well_spelled(s: Seq<char>, base: int) -> bool {
    &&& s.len() > 0
    &&& forall|i: int| 0 <= i < s.len() ==> 0 <= digit_value(#[trigger] s[i]) < base
    &&& s.len() > 1 ==> s[0] != '0'
}

/// A number in decimal is spelled with decimal digits, without zeros before them, and spells that
/// number.
pub proof fn law_decimal_spells_the_number(n: nat)
    ensures
        well_spelled(super::dec(n), 10),
        spelled(super::dec(n), 10) == n,
        n > 0 ==> super::dec(n)[0] != '0',
    decreases n,
{
    reveal_with_fuel(spelled, 2);
    let s = super::dec(n);
    if n < 10 {
        assert(s.drop_last() =~= Seq::<char>::empty());
    } else {
        let front = super::dec(n / 10);
        law_decimal_spells_the_number(n / 10);
        assert(s.drop_last() =~= front);
        assert forall|i: int| 0 <= i < s.len() implies 0 <= digit_value(#[trigger] s[i]) < 10 by {
            if i < front.len() {
                assert(s[i] == front[i]);
            }
        }
        assert(s[0] == front[0]);
    }
}

/// A number in hexadecimal is spelled with the digits 0 to 9 and a to f, without zeros before
/// them, and spells that number.
pub proof fn law_hexadecimal_spells_the_number(n: nat)
    ensures
        well_spelled(super::hex(n), 16),
        spelled(super::hex(n), 16) == n,
        n > 0 ==> super::hex(n)[0] != '0',
    decreases n,
{
    reveal_with_fuel(spelled, 2);
    let s = super::hex(n);
    if n < 16 {
        assert(s.drop_last() =~= Seq::<char>::empty());
    } else {
        let front = super::hex(n / 16);
        law_hexadecimal_spells_the_number(n / 16);
        assert(s.drop_last() =~= front);
        assert forall|i: int| 0 <= i < s.len() implies 0 <= digit_value(#[trigger] s[i]) < 16 by {
            if i < front.len() {
                assert(s[i] == front[i]);
            }
        }
        assert(s[0] == front[0]);
    }
}

/// Appending a number leaves the text before it, and then spells the number.
pub proof fn law_numbers_are_appended(s: &mut String, n: u64, t: &mut String)
    requires
        call_ensures(super::push_dec, (s, n), ()),
        call_ensures(super::push_hex, (t, n), ()),
    ensures
        old(s)@.len() < final(s)@.len() && final(s)@.take(old(s)@.len() as int) == old(s)@,
        well_spelled(final(s)@.skip(old(s)@.len() as int), 10),
        spelled(final(s)@.skip(old(s)@.len() as int), 10) == n,
        old(t)@.len() < final(t)@.len() && final(t)@.take(old(t)@.len() as int) == old(t)@,
        well_spelled(final(t)@.skip(old(t)@.len() as int), 16),
        spelled(final(t)@.skip(old(t)@.len() as int), 16) == n,
{
    law_decimal_spells_the_number(n as nat);
    law_hexadecimal_spells_the_number(n as nat);
    assert(final(s)@.take(old(s)@.len() as int) =~= old(s)@);
    assert(final(s)@.skip(old(s)@.len() as int) =~= super::dec(n as nat));
    assert(final(t)@.take(old(t)@.len() as int) =~= old(t)@);
    assert(final(t)@.skip(old(t)@.len() as int) =~= super::hex(n as nat));
}

/// A text is a number exactly when it is made of one or more decimal digits, and then it is the
/// number that they spell.
pub proof fn law_digits_are_a_number(s: Seq<char>)
    ensures
        super::number(s) is Some <==> s.len() > 0 && forall|i: int|
            0 <= i < s.len() ==> 48 <= (#[trigger] s[i]) as int <= 57,
        super::number(s) matches Some(n) ==> n == spelled(s, 10),
    decreases s.len(),
{
    reveal_with_fuel(spelled, 2);
    if s.len() > 0 {
        let front = s.drop_last();
        law_digits_are_a_number(front);
        if s.len() == 1 {
            assert(front =~= Seq::<char>::empty());
            if 48 <= s.last() as int <= 57 {
                assert forall|i: int| 0 <= i < s.len() implies 48 <= (
                #[trigger] s[i]) as int <= 57 by {}
            } else {
                assert(!(48 <= s[0] as int <= 57));
            }
        } else {
            if super::number(s) is Some {
                assert forall|i: int| 0 <= i < s.len() implies 48 <= (
                #[trigger] s[i]) as int <= 57 by {
                    if i < front.len() {
                        assert(s[i] == front[i]);
                    }
                }
            }
            if forall|i: int| 0 <= i < s.len() ==> 48 <= (#[trigger] s[i]) as int <= 57 {
                assert forall|i: int| 0 <= i < front.len() implies 48 <= (
                #[trigger] front[i]) as int <= 57 by {
                    assert(front[i] == s[i]);
                }
                assert(48 <= s[s.len() - 1] as int <= 57);
            }
        }
    }
}

/// A 32-bit number is read from its decimal digits, with or without a plus sign before them; a
/// number that does not fit is not read, nor is any other text.
pub proof fn law_32_bit_numbers_are_read(n: nat, s: Seq<char>)
    ensures
        n < 0x1_0000_0000 ==> super::u32_of(super::dec(n)) == Some(n as u32),
        n < 0x1_0000_0000 ==> super::u32_of(seq!['+'] + super::dec(n)) == Some(n as u32),
        n >= 0x1_0000_0000 ==> super::u32_of(super::dec(n)) is None,
        super::u32_of(s) matches Some(v) ==> {
            ||| super::number(s) == Some(v as nat)
            ||| s.len() > 1 && s[0] == '+' && super::number(s.skip(1)) == Some(v as nat)
        },
        s.len() > 0 && !(48 <= s[s.len() - 1] as int <= 57) ==> super::u32_of(s) is None,
        s.len() == 0 ==> super::u32_of(s) is None,
{
    let d = super::dec(n);
    law_decimal_spells_the_number(n);
    law_digits_are_a_number(d);
    assert forall|i: int| 0 <= i < d.len() implies 48 <= (#[trigger] d[i]) as int <= 57 by {
        assert(0 <= digit_value(d[i]) < 10);
    }
    assert(super::number(d) == Some(n));
    assert((seq!['+'] + d).skip(1) =~= d);
    assert(d[0] != '+') by {
        assert(48 <= d[0] as int <= 57);
    }
    law_digits_are_a_number(s);
    law_digits_are_a_number(s.skip(1));
    if s.len() > 1 && s[0] == '+' {
        assert(s.skip(1).last() == s.last());
    }
}

/// Reading a number looks at just the named part of the text.
pub proof fn law_parts_are_read(s: &Vec<char>, from: usize, to: usize, r: Option<u32>)
    requires
        from <= to <= s@.len(),
        call_ensures(super::parse_u32, (s, from, to), r),
    ensures
        forall|n: u32|
            s@.subrange(from as int, to as int) == #[trigger] super::dec(n as nat) ==> r == Some(n),
        from == to ==> r is None,
        r matches Some(v) ==> (s@[from as int] == '+' || spelled(
            s@.subrange(from as int, to as int),
            10,
        ) == v),
{
    let part = s@.subrange(from as int, to as int);
    law_32_bit_numbers_are_read(0, part);
    law_digits_are_a_number(part);
    assert forall|n: u32| part == #[trigger] super::dec(n as nat) implies r == Some(n) by {
        law_32_bit_numbers_are_read(n as nat, part);
    }
}

/// White space is what Unicode says it is.
pub proof fn law_white_space_is_that_of_unicode(c: char, b: bool)
    requires
        call_ensures(super::white, (c,), b),
    ensures
        b <==> {
            let u = c as int;
            ||| 9 <= u <= 13
            ||| u == 32
            ||| u == 133
            ||| u == 160
            ||| u == 5760
            ||| 8192 <= u <= 8202
            ||| u == 8232
            ||| u == 8233
            ||| u == 8239
            ||| u == 8287
            ||| u == 12288
        },
        b == super::is_white(c),
{
}

/// Every character is white space.
pub open spec fn all_white(s: Seq<char>) -> bool {
    forall|i: int| 0 <= i < s.len() ==> super::is_white(#[trigger] s[i])
}

/// Trimming takes away white space at both ends, all of it, and nothing else.
pub proof fn law_trimming_takes_white_space_away(s: Seq<char>)
    ensures
        ({
            let t = super::trimmed(s);
            &&& exists|a: Seq<char>, b: Seq<char>|
                all_white(a) && all_white(b) && s == #[trigger] (a + t + b)
            &&& t.len() > 0 ==> !super::is_white(t[0]) && !super::is_white(t[t.len() - 1])
        }),
{
    let u = super::trimmed_start(s);
    let a = lemma_trimmed_start(s);
    let b = lemma_trimmed_end(u);
    let t = super::trimmed_end(u);
    assert(s =~= a + t + b);
    if t.len() > 0 {
        assert(u[0] == t[0]);
    }
}

proof fn lemma_trimmed_start(s: Seq<char>) -> (a: Seq<char>)
    ensures
        all_white(a),
        s == a + super::trimmed_start(s),
        super::trimmed_start(s).len() > 0 ==> !super::is_white(super::trimmed_start(s)[0]),
    decreases s.len(),
{
    if s.len() > 0 && super::is_white(s[0]) {
        let rest = lemma_trimmed_start(s.skip(1));
        let a = seq![s[0]] + rest;
        let t = super::trimmed_start(s);
        assert(s =~= seq![s[0]] + s.skip(1));
        assert(seq![s[0]] + (rest + t) =~= a + t);
        a
    } else {
        assert(s =~= Seq::<char>::empty() + s);
        Seq::empty()
    }
}

proof fn lemma_trimmed_end(s: Seq<char>) -> (b: Seq<char>)
    ensures
        all_white(b),
        s == super::trimmed_end(s) + b,
        super::trimmed_end(s).len() > 0 ==> !super::is_white(super::trimmed_end(s).last()),
    decreases s.len(),
{
    if s.len() > 0 && super::is_white(s.last()) {
        let rest = lemma_trimmed_end(s.drop_last());
        let b = rest.push(s.last());
        let t = super::trimmed_end(s);
        assert(s =~= s.drop_last().push(s.last()));
        assert((t + rest).push(s.last()) =~= t + b);
        b
    } else {
        assert(s =~= s + Seq::<char>::empty());
        Seq::empty()
    }
}

/// Text in front of NULs is kept, and the NULs are taken away.
pub proof fn law_nuls_at_the_end_are_taken_away(s: Seq<char>, n: nat)
    requires
        s.len() > 0 ==> s.last() != '\0',
    ensures
        super::without_nuls(s + Seq::new(n, |i: int| '\0')) == s,
    decreases n,
{
    let all = s + Seq::new(n, |i: int| '\0');
    if n == 0 {
        assert(all =~= s);
    } else {
        assert(all.drop_last() =~= s + Seq::new((n - 1) as nat, |i: int| '\0'));
        law_nuls_at_the_end_are_taken_away(s, (n - 1) as nat);
    }
}

/// Text is taken apart and put together character by character.
pub proof fn law_characters_are_kept(s: &str, v: Vec<char>, from: usize, to: usize, t: String)
    requires
        call_ensures(super::chars_of, (s,), v),
        from <= to <= v@.len(),
        call_ensures(super::string_of, (&v, from, to), t),
    ensures
        v@.len() == s@.len() && forall|i: int| 0 <= i < v@.len() ==> #[trigger] v@[i] == s@[i],
        t@.len() == to - from && forall|i: int|
            0 <= i < t@.len() ==> #[trigger] t@[i] == s@[from + i],
{
}

/// Trimming takes the NULs at the end away, then white space on both sides, and nothing else.
pub proof fn law_trimmed_text_is_what_is_left(v: Vec<char>, out: Vec<char>, s: Seq<char>, n: nat)
    requires
        call_ensures(super::trim_text, (&v,), out),
        v@ == s + Seq::new(n, |i: int| '\0'),
        s.len() > 0 ==> s.last() != '\0',
    ensures
        exists|a: Seq<char>, b: Seq<char>|
            all_white(a) && all_white(b) && s == #[trigger] (a + out@ + b),
        out@.len() > 0 ==> !super::is_white(out@[0]) && !super::is_white(out@.last()),
{
    law_nuls_at_the_end_are_taken_away(s, n);
    law_trimming_takes_white_space_away(s);
}

} // verus!
