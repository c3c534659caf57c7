//! Little-endian integers over byte sequences.
use vstd::prelude::*;

verus! {

/// The number that `s` spells, least significant byte first.
pub open spec fn le_value(s: Seq<u8>) -> nat
    decreases s.len(),
{
    if s.len() == 0 {
        0
    } else {
        s[0] as nat + 256 * le_value(s.subrange(1, s.len() as int))
    }
}

/// The `n` lowest bytes of `v`, least significant first.
pub open spec fn le_bytes(v: nat, n: nat) -> Seq<u8>
    decreases n,
{
    if n == 0 {
        Seq::empty()
    } else {
        seq![(v % 256) as u8] + le_bytes(v / 256, (n - 1) as nat)
    }
}

/// How many values `n` bytes can hold.
pub open spec fn byte_range(n: nat) -> nat
    decreases n,
{
    if n == 0 {
        1
    } else {
        256 * byte_range((n - 1) as nat)
    }
}

/// The ranges of the integer widths used on guest memory.
pub proof fn lemma_byte_ranges()
    ensures
        byte_range(1) == 0x100,
        byte_range(2) == 0x1_0000,
        byte_range(4) == 0x1_0000_0000,
        byte_range(8) == 0x1_0000_0000_0000_0000,
{
    reveal_with_fuel(byte_range, 9);
}

/// `n` bytes never spell a number outside their range.
pub proof fn lemma_le_value_bound(s: Seq<u8>)
    ensures
        le_value(s) < byte_range(s.len()),
    decreases s.len(),
{
    if s.len() > 0 {
        lemma_le_value_bound(s.subrange(1, s.len() as int));
    }
}

/// Fewer bytes have a smaller range.
proof fn lemma_byte_range_monotonic(a: nat, b: nat)
    requires
        a <= b,
    ensures
        0 < byte_range(a) <= byte_range(b),
    decreases b,
{
    if a < b {
        lemma_byte_range_monotonic(a, (b - 1) as nat);
    } else if a > 0 {
        lemma_byte_range_monotonic((a - 1) as nat, (a - 1) as nat);
    }
}

pub proof fn lemma_le_bytes_len(v: nat, n: nat)
    ensures
        le_bytes(v, n).len() == n,
    decreases n,
{
    if n > 0 {
        lemma_le_bytes_len(v / 256, (n - 1) as nat);
    }
}

/// Bytes written for a number that fits spell that number again.
pub proof fn law_le_round_trip(v: nat, n: nat)
    requires
        v < byte_range(n),
    ensures
        le_bytes(v, n).len() == n,
        le_value(le_bytes(v, n)) == v,
    decreases n,
{
    lemma_le_bytes_len(v, n);
    if n > 0 {
        law_le_round_trip(v / 256, (n - 1) as nat);
        let s = le_bytes(v, n);
        assert(s.subrange(1, s.len() as int) =~= le_bytes(v / 256, (n - 1) as nat));
    }
}

/// The number spelled by the bytes of `s`.
pub fn le_to_u64(s: &[u8]) -> (v: u64)
    requires
        s@.len() <= 8,
    ensures
        v == le_value(s@),
{
    let mut i: usize = s.len();
    let mut v: u64 = 0;
    proof {
        assert(s@.subrange(i as int, s@.len() as int) =~= Seq::<u8>::empty());
    }
    while i > 0
        invariant
            i <= s@.len() <= 8,
            v == le_value(s@.subrange(i as int, s@.len() as int)),
        decreases i,
    {
        let ghost tail = s@.subrange(i as int, s@.len() as int);
        let ghost next = s@.subrange(i - 1, s@.len() as int);
        proof {
            assert(next.subrange(1, next.len() as int) =~= tail);
            lemma_le_value_bound(next);
            lemma_byte_range_monotonic(next.len(), 8);
            lemma_byte_ranges();
        }
        i = i - 1;
        v = v * 256 + s[i] as u64;
    }
    proof {
        assert(s@.subrange(0, s@.len() as int) =~= s@);
    }
    v
}

/// The `n` lowest bytes of `v`, least significant first.
pub fn u64_to_le(v: u64, n: usize) -> (out: Vec<u8>)
    ensures
        out@ == le_bytes(v as nat, n as nat),
{
    let mut out: Vec<u8> = Vec::new();
    let mut rest: u64 = v;
    let mut i: usize = 0;
    while i < n
        invariant
            i <= n,
            out@ + le_bytes(rest as nat, (n - i) as nat) == le_bytes(v as nat, n as nat),
        decreases n - i,
    {
        let ghost before = out@;
        let ghost was = rest;
        out.push((rest % 256) as u8);
        rest = rest / 256;
        i = i + 1;
        proof {
            assert(out@ + le_bytes(rest as nat, (n - i) as nat) =~= before + le_bytes(
                was as nat,
                (n - i + 1) as nat,
            ));
        }
    }
    out
}

/// The low `size` bytes of `value`, for the sizes a guest access has.
pub open spec fn low_bytes(value: u64, size: u8) -> u64 {
    if size == 1 {
        value % 0x100
    } else if size == 2 {
        value % 0x1_0000
    } else if size == 4 {
        value % 0x1_0000_0000
    } else {
        value
    }
}

/// The low `size` bytes of `value`.
pub(crate) fn mask(value: u64, size: u8) -> (v: u64)
    ensures
        v == low_bytes(value, size),
{
    match size {
        1 => value % 0x100,
        2 => value % 0x1_0000,
        4 => value % 0x1_0000_0000,
        _ => value,
    }
}

/// One, two, four, or eight bytes spell the sum of each byte times its place: 1, 256, 256 squared,
/// and so on.
pub proof fn law_bytes_count_by_place(s: Seq<u8>)
    ensures
        s.len() == 1 ==> le_value(s) == s[0],
        s.len() == 2 ==> le_value(s) == s[0] + 0x100 * s[1],
        s.len() == 4 ==> le_value(s) == s[0] + 0x100 * s[1] + 0x1_0000 * s[2] + 0x100_0000 * s[3],
        s.len() == 8 ==> le_value(s) == s[0] + 0x100 * s[1] + 0x1_0000 * s[2] + 0x100_0000 * s[3]
            + 0x1_0000_0000 * s[4] + 0x100_0000_0000 * s[5] + 0x1_0000_0000_0000 * s[6]
            + 0x100_0000_0000_0000 * s[7],
{
    reveal_with_fuel(le_value, 9);
}

/// Byte `i` of a number is what is left of it after taking away `i` places, below 256.
pub proof fn law_numbers_split_by_place(v: nat)
    ensures
        le_bytes(v, 1) == seq![(v % 256) as u8],
        le_bytes(v, 2) == seq![(v % 256) as u8, (v / 0x100 % 256) as u8],
        le_bytes(v, 4) == seq![
            (v % 256) as u8,
            (v / 0x100 % 256) as u8,
            (v / 0x1_0000 % 256) as u8,
            (v / 0x100_0000 % 256) as u8,
        ],
        le_bytes(v, 8) == seq![
            (v % 256) as u8,
            (v / 0x100 % 256) as u8,
            (v / 0x1_0000 % 256) as u8,
            (v / 0x100_0000 % 256) as u8,
            (v / 0x1_0000_0000 % 256) as u8,
            (v / 0x100_0000_0000 % 256) as u8,
            (v / 0x1_0000_0000_0000 % 256) as u8,
            (v / 0x100_0000_0000_0000 % 256) as u8,
        ],
{
    lemma_each_place(v, 1);
    lemma_each_place(v, 2);
    lemma_each_place(v, 4);
    lemma_each_place(v, 8);
    lemma_places_of(v);
    assert(le_bytes(v, 1) =~= seq![
        (v % 256) as u8,
    ]);
    assert(le_bytes(v, 2) =~= seq![
        (v % 256) as u8,
        (v / 0x100 % 256) as u8,
    ]);
    assert(le_bytes(v, 4) =~= seq![
        (v % 256) as u8,
        (v / 0x100 % 256) as u8,
        (v / 0x1_0000 % 256) as u8,
        (v / 0x100_0000 % 256) as u8,
    ]);
    assert(le_bytes(v, 8) =~= seq![
        (v % 256) as u8,
        (v / 0x100 % 256) as u8,
        (v / 0x1_0000 % 256) as u8,
        (v / 0x100_0000 % 256) as u8,
        (v / 0x1_0000_0000 % 256) as u8,
        (v / 0x100_0000_0000 % 256) as u8,
        (v / 0x1_0000_0000_0000 % 256) as u8,
        (v / 0x100_0000_0000_0000 % 256) as u8,
    ]);
}

/// Byte `i` of a number, by the range of the bytes below it.
proof fn lemma_each_place(v: nat, n: nat)
    ensures
        le_bytes(v, n).len() == n,
        forall|i: int|
            0 <= i < n ==> #[trigger] le_bytes(v, n)[i] == v / byte_range(i as nat) % 256,
    decreases n,
{
    lemma_le_bytes_len(v, n);
    if n > 0 {
        lemma_each_place(v / 256, (n - 1) as nat);
        assert forall|i: int| 0 <= i < n implies #[trigger] le_bytes(v, n)[i] == v / byte_range(
            i as nat,
        ) % 256 by {
            if i > 0 {
                let p = byte_range((i - 1) as nat);
                lemma_byte_range_monotonic((i - 1) as nat, (i - 1) as nat);
                vstd::arithmetic::div_mod::lemma_div_denominator(v as int, 256, p as int);
                assert(le_bytes(v, n)[i] == le_bytes(v / 256, (n - 1) as nat)[i - 1]);
            } else {
                let p = byte_range(0);
                assert(v / p == v) by (nonlinear_arith)
                    requires
                        p == 1,
                ;
            }
        }
    }
}

proof fn lemma_places_of(v: nat)
    ensures
        v / byte_range(0) == v,
        v / byte_range(1) == v / 0x100,
        v / byte_range(2) == v / 0x1_0000,
        v / byte_range(3) == v / 0x100_0000,
        v / byte_range(4) == v / 0x1_0000_0000,
        v / byte_range(5) == v / 0x100_0000_0000,
        v / byte_range(6) == v / 0x1_0000_0000_0000,
        v / byte_range(7) == v / 0x100_0000_0000_0000,
{
    reveal_with_fuel(byte_range, 9);
    let p0 = byte_range(0);
    assert(v / p0 == v) by (nonlinear_arith)
        requires
            p0 == 1,
    ;
    let p1 = byte_range(1);
    assert(v / p1 == v / 0x100) by (nonlinear_arith)
        requires
            p1 == 0x100,
    ;
    let p2 = byte_range(2);
    assert(v / p2 == v / 0x1_0000) by (nonlinear_arith)
        requires
            p2 == 0x1_0000,
    ;
    let p3 = byte_range(3);
    assert(v / p3 == v / 0x100_0000) by (nonlinear_arith)
        requires
            p3 == 0x100_0000,
    ;
    let p4 = byte_range(4);
    assert(v / p4 == v / 0x1_0000_0000) by (nonlinear_arith)
        requires
            p4 == 0x1_0000_0000,
    ;
    let p5 = byte_range(5);
    assert(v / p5 == v / 0x100_0000_0000) by (nonlinear_arith)
        requires
            p5 == 0x100_0000_0000,
    ;
    let p6 = byte_range(6);
    assert(v / p6 == v / 0x1_0000_0000_0000) by (nonlinear_arith)
        requires
            p6 == 0x1_0000_0000_0000,
    ;
    let p7 = byte_range(7);
    assert(v / p7 == v / 0x100_0000_0000_0000) by (nonlinear_arith)
        requires
            p7 == 0x100_0000_0000_0000,
    ;
}

/// An access of one, two, or four bytes keeps that many low bytes: the result fits in them and
/// differs from the value by whole multiples of what they hold, so a value that fits stays as it
/// is. Any other access keeps the value.
pub proof fn law_accesses_keep_their_low_bytes(value: u64)
    ensures
        low_bytes(value, 1) < 0x100,
        low_bytes(value, 1) + 0x100 * (value as int / 0x100) == value,
        low_bytes(value, 2) < 0x1_0000,
        low_bytes(value, 2) + 0x1_0000 * (value as int / 0x1_0000) == value,
        low_bytes(value, 4) < 0x1_0000_0000,
        low_bytes(value, 4) + 0x1_0000_0000 * (value as int / 0x1_0000_0000) == value,
        forall|size: u8|
            size != 1 && size != 2 && size != 4 ==> #[trigger] low_bytes(value, size) == value,
{
}

/// Bytes are put together and numbers taken apart by place.
pub proof fn law_calls_go_by_place(s: &[u8], v: u64, n: u64, out: Vec<u8>)
    requires
        s@.len() == 8,
        call_ensures(le_to_u64, (s,), v),
        call_ensures(u64_to_le, (n, 8), out),
    ensures
        v == s@[0] + 0x100 * s@[1] + 0x1_0000 * s@[2] + 0x100_0000 * s@[3] + 0x1_0000_0000 * s@[4]
            + 0x100_0000_0000 * s@[5] + 0x1_0000_0000_0000 * s@[6] + 0x100_0000_0000_0000 * s@[7],
        out@.len() == 8,
        out@[0] == n % 256 && out@[1] == n / 0x100 % 256 && out@[2] == n / 0x1_0000 % 256,
        out@[3] == n / 0x100_0000 % 256 && out@[4] == n / 0x1_0000_0000 % 256,
        out@[5] == n / 0x100_0000_0000 % 256 && out@[6] == n / 0x1_0000_0000_0000 % 256,
        out@[7] == n / 0x100_0000_0000_0000,
{
    law_bytes_count_by_place(s@);
    law_numbers_split_by_place(n as nat);
}

} // verus!
