//! Where the filter parser cuts a directive.
//!
//! The parser counts bytes from the first character of a part that is not white space, but cuts
//! from the beginning of the part. Behind white space such a cut can go through a character, and
//! then the parser panics.
use vstd::prelude::*;

use crate::text::{chars_of, white};

verus! {

broadcast use vstd::group_vstd_default;

/// How many bytes `c` takes in UTF-8.
pub open spec fn width(c: char) -> nat {
    let u = c as u32;
    if u < 0x80 {
        1
    } else if u < 0x800 {
        2
    } else if u < 0x1_0000 {
        3
    } else {
        4
    }
}

/// How many bytes the characters from position `from` up to `to` take.
pub open spec fn bytes_between(d: Seq<char>, from: int, to: int) -> nat
    decreases to - from,
{
    if from >= to {
        0
    } else {
        bytes_between(d, from, to - 1) + width(d[to - 1])
    }
}

/// Some character begins or ends `n` bytes after position `from`.
pub open spec fn on_boundary(d: Seq<char>, from: int, n: nat) -> bool {
    exists|j: int| from <= j <= d.len() && #[trigger] bytes_between(d, from, j) == n
}

/// What the parser is inside of.
#[derive(Debug, Clone, Copy, PartialEq, Eq, Structural)]
pub enum Place {
    /// The white space before a part.
    Start,
    /// A target, or a level on its own.
    Name,
    /// The name of a span.
    Span,
    /// A field of a span.
    Field,
    /// The end of the fields.
    Fields,
    /// The end of a target.
    Target,
    /// The white space after a target.
    Closed,
    /// A level.
    Level,
    /// Text that is refused. The parser reads no further.
    Refused,
    /// A character that a cut went through.
    Torn,
}

/// How far the parser got. All but the place are positions of characters.
#[derive(Debug, Clone, Copy)]
pub struct Reading<P> {
    /// What it is inside of.
    pub place: Place,
    /// Where the part begins.
    pub part: P,
    /// Where the text of the part begins.
    pub text: P,
    /// Where the name, the field, or the level begins.
    pub from: P,
}

/// A cut at position `k` does not go through a character.
pub open spec fn cut_ok(d: Seq<char>, r: Reading<int>, k: int) -> bool {
    on_boundary(d, r.part, bytes_between(d, r.text, k))
}

/// An ASCII character that no part begins with.
pub open spec fn refused_first(c: char) -> bool {
    let letter = 'a' <= c <= 'z' || 'A' <= c <= 'Z';
    let digit = '0' <= c <= '9';
    (c as u32) < 0x80 && !letter && !digit && c != '-' && c != ':' && c != '_'
}

/// The reading at `place`, after text from `start` up to `end` was cut out.
pub open spec fn cut(
    d: Seq<char>,
    r: Reading<int>,
    start: int,
    end: int,
    place: Place,
) -> Reading<int> {
    if cut_ok(d, r, start) && cut_ok(d, r, end) {
        Reading { place, from: end + 1, ..r }
    } else {
        Reading { place: Place::Torn, ..r }
    }
}

/// The reading before a part that begins at position `at`.
pub open spec fn fresh(at: int) -> Reading<int> {
    Reading { place: Place::Start, part: at, text: at, from: at }
}

/// The reading after the part that ends before position `i`. An empty part is passed over.
pub open spec fn closed(d: Seq<char>, r: Reading<int>, i: int) -> Reading<int> {
    match r.place {
        Place::Name | Place::Target | Place::Closed => fresh(i + 1),
        Place::Start => if r.part == i {
            fresh(i + 1)
        } else {
            Reading { place: Place::Refused, ..r }
        },
        Place::Level => if cut_ok(d, r, r.from) {
            fresh(i + 1)
        } else {
            Reading { place: Place::Torn, ..r }
        },
        Place::Torn => r,
        _ => Reading { place: Place::Refused, ..r },
    }
}

/// The reading after the character at position `i`, which is no comma.
pub open spec fn continued(d: Seq<char>, r: Reading<int>, i: int) -> Reading<int> {
    let c = d[i];
    match r.place {
        Place::Start => if crate::text::is_white(c) {
            Reading { text: i + 1, ..r }
        } else if c == '[' {
            Reading { place: Place::Span, from: i + 1, ..r }
        } else if refused_first(c) {
            Reading { place: Place::Refused, ..r }
        } else {
            Reading { place: Place::Name, ..r }
        },
        Place::Name => if c == '=' {
            cut(d, r, r.text, i, Place::Level)
        } else if c == '[' {
            cut(d, r, r.text, i, Place::Span)
        } else {
            r
        },
        Place::Span => if c == ']' {
            cut(d, r, r.from, i, Place::Target)
        } else if c == '{' {
            cut(d, r, r.from, i, Place::Field)
        } else {
            r
        },
        Place::Field => if c == '}' {
            cut(
                d,
                r,
                r.from,
                i,
                if r.from == i {
                    Place::Refused
                } else {
                    Place::Fields
                },
            )
        } else {
            r
        },
        Place::Fields => Reading {
            place: if c == ']' {
                Place::Target
            } else {
                Place::Refused
            },
            ..r
        },
        Place::Target => if c == '=' {
            Reading { place: Place::Level, from: i + 1, ..r }
        } else if crate::text::is_white(c) {
            Reading { place: Place::Closed, ..r }
        } else {
            Reading { place: Place::Refused, ..r }
        },
        Place::Closed => if crate::text::is_white(c) {
            r
        } else {
            Reading { place: Place::Refused, ..r }
        },
        Place::Level | Place::Refused | Place::Torn => r,
    }
}

/// The reading after the first `i` characters.
pub open spec fn reading(d: Seq<char>, i: int) -> Reading<int>
    decreases i,
{
    if i <= 0 {
        fresh(0)
    } else {
        let r = reading(d, i - 1);
        if d[i - 1] == ',' {
            closed(d, r, i - 1)
        } else {
            continued(d, r, i - 1)
        }
    }
}

/// The directive can be handed to the filter parser: no cut goes through a character. Counted are
/// the cuts up to the first part whose form is refused. A part that is refused for what it says
/// (an unknown level, the pattern of a field, a first character outside ASCII that is no letter)
/// counts as read.
pub open spec fn parseable(d: Seq<char>) -> bool {
    closed(d, reading(d, d.len() as int), d.len() as int).place != Place::Torn
}

impl Reading<usize> {
    /// The same, over integers.
    pub open spec fn view(self) -> Reading<int> {
        Reading {
            place: self.place,
            part: self.part as int,
            text: self.text as int,
            from: self.from as int,
        }
    }

    /// The positions are not past `i`, and the text is not before its part.
    spec fn within(self, i: int) -> bool {
        self.part <= self.text <= i && self.from <= i
    }
}

proof fn lemma_bytes_grow(d: Seq<char>, from: int, a: int, b: int)
    requires
        from <= a <= b,
    ensures
        bytes_between(d, from, a) <= bytes_between(d, from, b),
    decreases b - a,
{
    if a < b {
        lemma_bytes_grow(d, from, a, b - 1);
    }
}

fn width_of(c: char) -> (n: u128)
    ensures
        n == width(c),
{
    let u: u32 = c as u32;
    if u < 0x80 {
        1
    } else if u < 0x800 {
        2
    } else if u < 0x1_0000 {
        3
    } else {
        4
    }
}

/// How many bytes the characters from position `from` up to `to` take.
fn count_bytes(d: &Vec<char>, from: usize, to: usize) -> (n: u128)
    requires
        to <= d@.len(),
    ensures
        n == bytes_between(d@, from as int, to as int),
{
    let mut n: u128 = 0;
    let mut j: usize = from;
    while j < to
        invariant
            from <= j,
            j <= to || j == from,
            to <= d@.len(),
            n == bytes_between(d@, from as int, j as int),
            n <= 4 * (j - from),
        decreases to - j,
    {
        n = n + width_of(d[j]);
        j = j + 1;
    }
    n
}

/// Whether some character begins or ends `n` bytes after position `from`.
fn at_boundary(d: &Vec<char>, from: usize, n: u128) -> (b: bool)
    requires
        from <= d@.len(),
    ensures
        b == on_boundary(d@, from as int, n as nat),
{
    let mut sum: u128 = 0;
    let mut j: usize = from;
    while j < d.len() && sum < n
        invariant
            from <= j <= d@.len(),
            sum == bytes_between(d@, from as int, j as int),
            sum <= 4 * (j - from),
            forall|k: int| from <= k < j ==> #[trigger] bytes_between(d@, from as int, k) < n,
        decreases d@.len() - j,
    {
        sum = sum + width_of(d[j]);
        j = j + 1;
    }
    proof {
        if sum == n {
            assert(bytes_between(d@, from as int, j as int) == n);
        } else if on_boundary(d@, from as int, n as nat) {
            let k = choose|k: int|
                from <= k <= d@.len() && #[trigger] bytes_between(d@, from as int, k) == n;
            if k >= j {
                lemma_bytes_grow(d@, from as int, j as int, k);
                assert(sum >= n);
            }
            assert(false);
        }
    }
    sum == n
}

fn is_cut_ok(d: &Vec<char>, r: Reading<usize>, k: usize) -> (b: bool)
    requires
        r.part <= d@.len(),
        k <= d@.len(),
    ensures
        b == cut_ok(d@, r@, k as int),
{
    at_boundary(d, r.part, count_bytes(d, r.text, k))
}

fn cut_out(d: &Vec<char>, r: Reading<usize>, start: usize, end: usize, place: Place) -> (next:
    Reading<usize>)
    requires
        r.within(end as int),
        start <= end < d@.len(),
    ensures
        next@ == cut(d@, r@, start as int, end as int, place),
        next.within(end + 1),
{
    let len: usize = d.len();
    assert(end < len);
    if is_cut_ok(d, r, start) && is_cut_ok(d, r, end) {
        Reading { place, from: end + 1, ..r }
    } else {
        Reading { place: Place::Torn, ..r }
    }
}

fn is_refused_first(c: char) -> (b: bool)
    ensures
        b == refused_first(c),
{
    let letter: bool = ('a' <= c && c <= 'z') || ('A' <= c && c <= 'Z');
    let digit: bool = '0' <= c && c <= '9';
    (c as u32) < 0x80 && !letter && !digit && c != '-' && c != ':' && c != '_'
}

/// Whether a cut went through a character, if the part ended here.
fn is_torn(d: &Vec<char>, r: Reading<usize>) -> (b: bool)
    requires
        r.within(d@.len() as int),
    ensures
        b == (r.place == Place::Torn || (r.place == Place::Level && !cut_ok(
            d@,
            r@,
            r.from as int,
        ))),
{
    r.place == Place::Torn || (r.place == Place::Level && !is_cut_ok(d, r, r.from))
}

/// End the part at the comma at position `i`.
fn close(d: &Vec<char>, r: Reading<usize>, i: usize) -> (next: Reading<usize>)
    requires
        r.within(i as int),
        i < d@.len(),
    ensures
        next@ == closed(d@, r@, i as int),
        next.within(i + 1),
{
    let len: usize = d.len();
    assert(i < len);
    if is_torn(d, r) {
        return Reading { place: Place::Torn, ..r };
    }
    let read: bool = match r.place {
        Place::Name | Place::Target | Place::Closed | Place::Level => true,
        Place::Start => r.part == i,
        _ => false,
    };
    if !read {
        return Reading { place: Place::Refused, ..r };
    }
    let at: usize = i + 1;
    Reading { place: Place::Start, part: at, text: at, from: at }
}

/// Go on with the character at position `i`, which is no comma.
fn go_on(d: &Vec<char>, r: Reading<usize>, i: usize) -> (next: Reading<usize>)
    requires
        r.within(i as int),
        i < d@.len(),
    ensures
        next@ == continued(d@, r@, i as int),
        next.within(i + 1),
{
    let len: usize = d.len();
    assert(i < len);
    let c: char = d[i];
    match r.place {
        Place::Start => if white(c) {
            Reading { text: i + 1, ..r }
        } else if c == '[' {
            Reading { place: Place::Span, from: i + 1, ..r }
        } else if is_refused_first(c) {
            Reading { place: Place::Refused, ..r }
        } else {
            Reading { place: Place::Name, ..r }
        },
        Place::Name => if c == '=' {
            cut_out(d, r, r.text, i, Place::Level)
        } else if c == '[' {
            cut_out(d, r, r.text, i, Place::Span)
        } else {
            r
        },
        Place::Span => if c == ']' {
            cut_out(d, r, r.from, i, Place::Target)
        } else if c == '{' {
            cut_out(d, r, r.from, i, Place::Field)
        } else {
            r
        },
        Place::Field => if c == '}' {
            let place: Place = if r.from == i {
                Place::Refused
            } else {
                Place::Fields
            };
            cut_out(d, r, r.from, i, place)
        } else {
            r
        },
        Place::Fields => if c == ']' {
            Reading { place: Place::Target, ..r }
        } else {
            Reading { place: Place::Refused, ..r }
        },
        Place::Target => if c == '=' {
            Reading { place: Place::Level, from: i + 1, ..r }
        } else if white(c) {
            Reading { place: Place::Closed, ..r }
        } else {
            Reading { place: Place::Refused, ..r }
        },
        Place::Closed => if white(c) {
            r
        } else {
            Reading { place: Place::Refused, ..r }
        },
        Place::Level | Place::Refused | Place::Torn => r,
    }
}

/// Whether the directive can be handed to the filter parser.
pub fn is_parseable(directive: &str) -> (b: bool)
    ensures
        b == parseable(directive@),
{
    let d = chars_of(directive);
    let mut r: Reading<usize> = Reading { place: Place::Start, part: 0, text: 0, from: 0 };
    let mut i: usize = 0;
    while i < d.len()
        invariant
            i <= d@.len(),
            d@ == directive@,
            r@ == reading(d@, i as int),
            r.within(i as int),
        decreases d@.len() - i,
    {
        r = if d[i] == ',' {
            close(&d, r, i)
        } else {
            go_on(&d, r, i)
        };
        i = i + 1;
    }
    !is_torn(&d, r)
}

/// The bytes that are counted are those of UTF-8.
pub proof fn law_characters_count_as_in_utf8(c: char, d: Seq<char>, from: int, to: int)
    requires
        0 <= from <= to <= d.len(),
    ensures
        width(c) == vstd::utf8::encode_utf8(seq![c]).len(),
        bytes_between(d, from, to) == vstd::utf8::encode_utf8(d.subrange(from, to)).len(),
    decreases to - from,
{
    reveal_with_fuel(vstd::utf8::encode_utf8, 2);
    assert(seq![c].drop_first() =~= Seq::<char>::empty());
    if from < to {
        let s = d.subrange(from, to);
        law_characters_count_as_in_utf8(d[to - 1], d, from, to - 1);
        assert(s =~= d.subrange(from, to - 1) + seq![d[to - 1]]);
        lemma_utf8_of_two(d.subrange(from, to - 1), seq![d[to - 1]]);
    }
}

proof fn lemma_utf8_of_two(a: Seq<char>, b: Seq<char>)
    ensures
        vstd::utf8::encode_utf8(a + b) == vstd::utf8::encode_utf8(a) + vstd::utf8::encode_utf8(b),
    decreases a.len(),
{
    if a.len() == 0 {
        assert(a + b =~= b);
        assert(vstd::utf8::encode_utf8(a) =~= Seq::<u8>::empty());
        assert(vstd::utf8::encode_utf8(a) + vstd::utf8::encode_utf8(b)
            =~= vstd::utf8::encode_utf8(b));
    } else {
        assert((a + b).drop_first() =~= a.drop_first() + b);
        assert((a + b)[0] == a[0]);
        lemma_utf8_of_two(a.drop_first(), b);
        assert(vstd::utf8::encode_utf8(a + b) =~= vstd::utf8::encode_utf8(a)
            + vstd::utf8::encode_utf8(b));
    }
}

/// Every part begins with its text.
pub open spec fn unindented(d: Seq<char>) -> bool {
    forall|i: int|
        0 <= i < d.len() && (i == 0 || d[i - 1] == ',') ==> !crate::text::is_white(#[trigger] d[i])
}

/// A directive of ASCII characters, and one whose parts all begin with their text, can be handed
/// to the filter parser.
pub proof fn law_plain_directives_are_parseable(directive: &str, ok: bool)
    requires
        call_ensures(is_parseable, (directive,), ok),
        unindented(directive@) || forall|i: int|
            0 <= i < directive@.len() ==> (#[trigger] directive@[i] as u32) < 128,
    ensures
        ok,
{
    let d = directive@;
    lemma_plain(d, d.len() as int);
    lemma_cuts(d, reading(d, d.len() as int), d.len() as int);
}

/// How far the parser got in a directive without a torn character.
spec fn whole(d: Seq<char>, r: Reading<int>, i: int) -> bool {
    &&& 0 <= r.part <= r.text <= i && r.from <= i
    &&& r.place != Place::Torn
    &&& r.place != Place::Start && r.place != Place::Refused ==> r.from >= r.text || r.place
        == Place::Name || r.place == Place::Closed
    &&& r.place == Place::Level ==> r.from >= r.text
    &&& unindented(d) && r.place != Place::Refused ==> r.part == r.text
    &&& r.place == Place::Start ==> (r.part == 0 || d[r.part - 1] == ',') && (unindented(d)
        ==> r.part == i) && r.text == i
}

proof fn lemma_plain(d: Seq<char>, i: int)
    requires
        0 <= i <= d.len(),
        unindented(d) || forall|k: int| 0 <= k < d.len() ==> (#[trigger] d[k] as u32) < 128,
    ensures
        whole(d, reading(d, i), i),
    decreases i,
{
    if i > 0 {
        lemma_plain(d, i - 1);
        let r = reading(d, i - 1);
        lemma_cuts(d, r, i - 1);
        assert(r.place == Place::Start && unindented(d) ==> r.part == i - 1);
    }
}

proof fn lemma_cuts(d: Seq<char>, r: Reading<int>, i: int)
    requires
        whole(d, r, i),
        i <= d.len(),
        unindented(d) || forall|k: int| 0 <= k < d.len() ==> (#[trigger] d[k] as u32) < 128,
    ensures
        r.place != Place::Refused ==> forall|k: int| r.text <= k <= i ==> #[trigger] cut_ok(d, r, k),
{
    if r.place != Place::Refused {
        assert forall|k: int| r.text <= k <= i implies #[trigger] cut_ok(d, r, k) by {
            if unindented(d) {
                assert(bytes_between(d, r.part, k) == bytes_between(d, r.text, k));
            } else {
                lemma_ascii(d, r.text, k);
                lemma_ascii(d, r.part, r.part + (k - r.text));
            }
        }
    }
}

proof fn lemma_ascii(d: Seq<char>, from: int, to: int)
    requires
        0 <= from <= to <= d.len(),
        forall|k: int| 0 <= k < d.len() ==> (#[trigger] d[k] as u32) < 128,
    ensures
        bytes_between(d, from, to) == to - from,
    decreases to - from,
{
    if from < to {
        lemma_ascii(d, from, to - 1);
        assert((d[to - 1] as u32) < 128);
    }
}

/// A directive that begins with one byte of white space, then a character of more bytes that is no
/// white space, then an equals sign, cannot be handed to the filter parser, whatever follows.
pub proof fn law_torn_directives_are_not_parseable(directive: &str, ok: bool)
    requires
        call_ensures(is_parseable, (directive,), ok),
        directive@.len() >= 3,
        crate::text::is_white(directive@[0]) && (directive@[0] as u32) < 128,
        !crate::text::is_white(directive@[1]) && directive@[1] as u32 >= 128,
        directive@[2] == '=',
    ensures
        !ok,
{
    let d = directive@;
    reveal_with_fuel(reading, 4);
    reveal_with_fuel(bytes_between, 3);
    assert(d[0] != ',' && d[1] != ',' && d[1] != '[');
    let r = reading(d, 2);
    assert(r.place == Place::Name && r.part == 0 && r.text == 1);
    let n = width(d[1]);
    assert(bytes_between(d, 1, 2) == n);
    if on_boundary(d, 0, n) {
        let j = choose|j: int| 0 <= j <= d.len() && #[trigger] bytes_between(d, 0, j) == n;
        assert(bytes_between(d, 0, 1) == 1);
        assert(bytes_between(d, 0, 2) == 1 + n);
        if j > 2 {
            lemma_bytes_grow(d, 0, 2, j);
        }
        assert(false);
    }
    assert(!cut_ok(d, r, 2));
    lemma_stays_torn(d, 3, d.len() as int);
}

proof fn lemma_stays_torn(d: Seq<char>, a: int, b: int)
    requires
        0 <= a <= b,
        reading(d, a).place == Place::Torn,
    ensures
        reading(d, b).place == Place::Torn,
    decreases b - a,
{
    if a < b {
        lemma_stays_torn(d, a, b - 1);
    }
}

/// A part is read to its first cut exactly where it begins with an ASCII letter or digit, a hyphen, a
/// colon, or an underscore; any other ASCII character is refused before a cut. Shown by a
/// directive whose first cut would go through a character.
pub proof fn law_refused_parts_are_not_cut(directive: &str, ok: bool)
    requires
        call_ensures(is_parseable, (directive,), ok),
        directive@.len() >= 4,
        crate::text::is_white(directive@[0]) && (directive@[0] as u32) < 128,
        !crate::text::is_white(directive@[1]) && (directive@[1] as u32) < 128,
        directive@[1] != ',' && directive@[1] != '[',
        directive@[2] as u32 >= 128,
        directive@[3] == '=',
    ensures
        ({
            let c = directive@[1] as int;
            !ok <==> 48 <= c <= 57 || 65 <= c <= 90 || 97 <= c <= 122 || c == 45 || c == 58 || c
                == 95
        }),
{
    let d = directive@;
    reveal_with_fuel(reading, 5);
    reveal_with_fuel(bytes_between, 4);
    assert(d[0] != ',' && d[2] != ',' && d[2] != '[' && d[2] != '=');
    let r = reading(d, 2);
    assert(r.part == 0 && r.text == 1);
    if refused_first(d[1]) {
        assert(r.place == Place::Refused);
        lemma_stays_refused(d, 2, d.len() as int);
    } else {
        assert(r.place == Place::Name);
        assert(reading(d, 3) == r);
        let n = 1 + width(d[2]);
        assert(bytes_between(d, 1, 3) == n);
        if on_boundary(d, 0, n) {
            let j = choose|j: int| 0 <= j <= d.len() && #[trigger] bytes_between(d, 0, j) == n;
            assert(bytes_between(d, 0, 1) == 1);
            assert(bytes_between(d, 0, 2) == 2);
            assert(bytes_between(d, 0, 3) == 1 + n);
            if j > 3 {
                lemma_bytes_grow(d, 0, 3, j);
            }
            assert(false);
        }
        assert(!cut_ok(d, r, 3));
        lemma_stays_torn(d, 4, d.len() as int);
    }
}

proof fn lemma_stays_refused(d: Seq<char>, a: int, b: int)
    requires
        0 <= a <= b,
        reading(d, a).place == Place::Refused,
    ensures
        reading(d, b).place == Place::Refused,
    decreases b - a,
{
    if a < b {
        lemma_stays_refused(d, a, b - 1);
    }
}

} // verus!
