//! Text as sequences of characters: trimming, ASCII folding, splitting, joining, and the decimal
//! notation of integers.

use vstd::prelude::*;
use vstd::utf8::{encode_utf8_decode_utf8, is_ascii_chars};
use vstd::string::StringSliceAdditionalSpecFns;

verus! {

/// `String::push` of std: appends one character at the end of the text.
pub assume_specification[ String::push ](s: &mut String, c: char)
    ensures
        final(s)@ == old(s)@.push(c),
;

/// The characters with Unicode's `White_Space` property.
pub open spec fn white_space(c: char) -> bool {
    let n = c as u32;
    ||| 0x9 <= n <= 0xd
    ||| n == 0x20
    ||| n == 0x85
    ||| n == 0xa0
    ||| n == 0x1680
    ||| 0x2000 <= n <= 0x200a
    ||| n == 0x2028
    ||| n == 0x2029
    ||| n == 0x202f
    ||| n == 0x205f
    ||| n == 0x3000
}

/// Whether `c` is white space.
pub fn is_white_space(c: char) -> (r: bool)
    ensures
        r == white_space(c),
{
    let n: u32 = c as u32;
    (0x9 <= n && n <= 0xd) || n == 0x20 || n == 0x85 || n == 0xa0 || n == 0x1680 || (0x2000 <= n
        && n <= 0x200a) || n == 0x2028 || n == 0x2029 || n == 0x202f || n == 0x205f || n == 0x3000
}

/// `c` with an ASCII capital replaced by its small letter.
pub open spec fn lower(c: char) -> char {
    if 'A' <= c <= 'Z' {
        ((c as u32 + 32) as u8) as char
    } else {
        c
    }
}

/// `s` with every ASCII capital replaced by its small letter.
pub open spec fn folded(s: Seq<char>) -> Seq<char> {
    s.map_values(|c: char| lower(c))
}

/// Whether the two texts are the same but for the case of ASCII letters.
pub open spec fn same_folded(a: Seq<char>, b: Seq<char>) -> bool {
    folded(a) == folded(b)
}

pub fn to_lower(c: char) -> (r: char)
    ensures
        r == lower(c),
{
    if 'A' <= c && c <= 'Z' {
        (c as u8 + 32) as char
    } else {
        c
    }
}

/// The characters of a text, in order.
pub fn chars_of(s: &str) -> (r: Vec<char>)
    ensures
        r@ == s@,
{
    let mut r: Vec<char> = Vec::new();
    for c in it: s.chars()
        invariant
            r@ == s@.take(it.index@),
            it.seq() == s@,
    {
        r.push(c);
        assert(r@ =~= s@.take(it.index@ + 1));
    }
    assert(s@.take(s@.len() as int) =~= s@);
    r
}

/// The text made of the characters from index `from` up to `to`, `to` excluded.
pub fn text_of(chars: &Vec<char>, from: usize, to: usize) -> (r: String)
    requires
        from <= to <= chars@.len(),
    ensures
        r@ == chars@.subrange(from as int, to as int),
{
    let mut r: String = String::new();
    let mut i: usize = from;
    while i < to
        invariant
            from <= i <= to <= chars@.len(),
            r@ == chars@.subrange(from as int, i as int),
        decreases to - i,
    {
        r.push(chars[i]);
        i += 1;
        assert(r@ =~= chars@.subrange(from as int, i as int));
    }
    r
}

/// Whether the two texts hold the same characters.
pub fn same(a: &str, b: &str) -> (r: bool)
    ensures
        r == (a@ == b@),
{
    let x = a.as_bytes();
    let y = b.as_bytes();
    proof {
        encode_utf8_decode_utf8(a@);
        encode_utf8_decode_utf8(b@);
    }
    if x.len() != y.len() {
        return false;
    }
    let mut i: usize = 0;
    while i < x.len()
        invariant
            i <= x@.len(),
            x@.len() == y@.len(),
            x@ == a.spec_bytes(),
            y@ == b.spec_bytes(),
            forall|k: int| 0 <= k < i ==> x@[k] == y@[k],
        decreases x@.len() - i,
    {
        if x[i] != y[i] {
            return false;
        }
        i += 1;
    }
    assert(x@ =~= y@);
    true
}

/// The views of a list of texts.
pub open spec fn texts(v: Seq<String>) -> Seq<Seq<char>> {
    v.map_values(|s: String| s@)
}

pub open spec fn trim_start(s: Seq<char>) -> Seq<char>
    decreases s.len(),
{
    if s.len() > 0 && white_space(s[0]) {
        trim_start(s.drop_first())
    } else {
        s
    }
}

pub open spec fn trim_end(s: Seq<char>) -> Seq<char>
    decreases s.len(),
{
    if s.len() > 0 && white_space(s.last()) {
        trim_end(s.drop_last())
    } else {
        s
    }
}

/// `s` without the white space at its two ends.
pub open spec fn trimmed(s: Seq<char>) -> Seq<char> {
    trim_end(trim_start(s))
}

/// Where the trimmed text lies inside the characters from `from` up to `to`.
pub fn trim_bounds(chars: &Vec<char>, from: usize, to: usize) -> (r: (usize, usize))
    requires
        from <= to <= chars@.len(),
    ensures
        from <= r.0 <= r.1 <= to,
        chars@.subrange(r.0 as int, r.1 as int) == trimmed(
            chars@.subrange(from as int, to as int),
        ),
{
    let mut a: usize = from;
    while a < to && is_white_space(chars[a])
        invariant
            from <= a <= to <= chars@.len(),
            trim_start(chars@.subrange(a as int, to as int)) == trim_start(
                chars@.subrange(from as int, to as int),
            ),
        decreases to - a,
    {
        assert(chars@.subrange(a as int, to as int).drop_first() =~= chars@.subrange(
            a + 1,
            to as int,
        ));
        a += 1;
    }
    let mut b: usize = to;
    while a < b && is_white_space(chars[b - 1])
        invariant
            from <= a <= b <= to <= chars@.len(),
            trim_end(chars@.subrange(a as int, b as int)) == trimmed(
                chars@.subrange(from as int, to as int),
            ),
        decreases b - a,
    {
        assert(chars@.subrange(a as int, b as int).drop_last() =~= chars@.subrange(
            a as int,
            b - 1,
        ));
        b -= 1;
    }
    (a, b)
}

/// `s` without the white space at its two ends.
pub fn trim(s: &str) -> (r: String)
    ensures
        r@ == trimmed(s@),
{
    let chars = chars_of(s);
    let (a, b) = trim_bounds(&chars, 0, chars.len());
    assert(chars@.subrange(0, chars@.len() as int) =~= s@);
    text_of(&chars, a, b)
}

/// Whether `p` stands at the start of `s`.
pub open spec fn has_prefix(s: Seq<char>, p: Seq<char>) -> bool {
    p.len() <= s.len() && s.take(p.len() as int) == p
}

/// Whether `p` stands at the end of `s`.
pub open spec fn has_suffix(s: Seq<char>, p: Seq<char>) -> bool {
    p.len() <= s.len() && s.skip(s.len() - p.len()) == p
}

/// Whether `p` stands in `s` from index `at` on.
pub open spec fn stands_at(s: Seq<char>, at: int, p: Seq<char>) -> bool {
    0 <= at && at + p.len() <= s.len() && s.subrange(at, at + p.len()) == p
}

/// Whether `p` stands somewhere in `s`.
pub open spec fn has_part(s: Seq<char>, p: Seq<char>) -> bool {
    exists|at: int| #[trigger] stands_at(s, at, p)
}

/// Whether `p` stands in `chars` from index `at` on; with `fold`, but for the case of ASCII
/// letters.
pub fn stands(chars: &Vec<char>, at: usize, p: &Vec<char>, fold: bool) -> (r: bool)
    requires
        at <= chars@.len(),
    ensures
        !fold ==> r == stands_at(chars@, at as int, p@),
        fold ==> r == stands_at(folded(chars@), at as int, folded(p@)),
{
    if p.len() > chars.len() - at {
        return false;
    }
    let ghost part = chars@.subrange(at as int, at + p@.len());
    assert(folded(chars@).subrange(at as int, at + p@.len()) =~= folded(part));
    let n: usize = chars.len();
    let mut i: usize = 0;
    while i < p.len()
        invariant
            i <= p@.len(),
            n == chars@.len(),
            at + p@.len() <= n,
            part == chars@.subrange(at as int, at + p@.len()),
            folded(chars@).subrange(at as int, at + p@.len()) == folded(part),
            forall|k: int|
                0 <= k < i ==> if fold {
                    lower(#[trigger] part[k]) == lower(p@[k])
                } else {
                    part[k] == p@[k]
                },
        decreases p@.len() - i,
    {
        let x = chars[at + i];
        let y = p[i];
        assert(part[i as int] == x);
        if fold {
            if to_lower(x) != to_lower(y) {
                assert(folded(part)[i as int] != folded(p@)[i as int]);
                return false;
            }
        } else if x != y {
            return false;
        }
        i += 1;
    }
    if fold {
        assert(folded(part) =~= folded(p@));
    } else {
        assert(part =~= p@);
    }
    true
}

pub fn starts_with(s: &str, p: &str) -> (r: bool)
    ensures
        r == has_prefix(s@, p@),
{
    let chars = chars_of(s);
    let pattern = chars_of(p);
    proof {
        if p@.len() <= s@.len() {
            assert(s@.take(p@.len() as int) =~= s@.subrange(0, p@.len() as int));
        }
    }
    stands(&chars, 0, &pattern, false)
}

/// Whether the two texts are the same but for the case of ASCII letters.
pub fn same_ignoring_case(a: &str, b: &str) -> (r: bool)
    ensures
        r == same_folded(a@, b@),
{
    let x = chars_of(a);
    let y = chars_of(b);
    if x.len() != y.len() {
        assert(folded(a@).len() != folded(b@).len());
        return false;
    }
    assert(folded(x@).subrange(0, folded(y@).len() as int) =~= folded(x@));
    stands(&x, 0, &y, true)
}

/// `s` with every ASCII capital replaced by its small letter.
pub fn to_folded(s: &str) -> (r: String)
    ensures
        r@ == folded(s@),
{
    let chars = chars_of(s);
    let mut r: String = String::new();
    let mut i: usize = 0;
    while i < chars.len()
        invariant
            i <= chars@.len(),
            chars@ == s@,
            r@ == folded(chars@.take(i as int)),
        decreases chars@.len() - i,
    {
        r.push(to_lower(chars[i]));
        i += 1;
        assert(r@ =~= folded(chars@.take(i as int)));
    }
    assert(chars@.take(chars@.len() as int) =~= chars@);
    r
}

/// What separates the parts of a text.
#[derive(Clone, Copy, PartialEq, Eq, Structural, Debug)]
pub enum Separator {
    /// One given character.
    Exactly(char),
    /// A line feed or a carriage return.
    LineBreak,
    /// A comma or any white space.
    CommaOrSpace,
}

impl Separator {
    pub open spec fn splits(self, c: char) -> bool {
        match self {
            Separator::Exactly(x) => c == x,
            Separator::LineBreak => c == '\n' || c == '\r',
            Separator::CommaOrSpace => c == ',' || white_space(c),
        }
    }

    /// Whether `c` separates two parts.
    pub fn is_split(self, c: char) -> (r: bool)
        ensures
            r == self.splits(c),
    {
        match self {
            Separator::Exactly(x) => c == x,
            Separator::LineBreak => c == '\n' || c == '\r',
            Separator::CommaOrSpace => c == ',' || is_white_space(c),
        }
    }
}

/// The parts of `s` between its separators, empty parts kept; a text without a separator is one
/// part.
pub open spec fn split(s: Seq<char>, sep: Separator) -> Seq<Seq<char>>
    decreases s.len(),
{
    if s.len() == 0 {
        seq![Seq::empty()]
    } else {
        let before = split(s.drop_last(), sep);
        if sep.splits(s.last()) {
            before.push(Seq::empty())
        } else {
            before.drop_last().push(before.last().push(s.last()))
        }
    }
}

/// The parts of `s`, trimmed, without those that hold nothing but white space.
pub open spec fn entries(s: Seq<char>, sep: Separator) -> Seq<Seq<char>> {
    kept(split(s, sep))
}

/// The given parts, trimmed, without those that hold nothing but white space.
pub open spec fn kept(parts: Seq<Seq<char>>) -> Seq<Seq<char>>
    decreases parts.len(),
{
    if parts.len() == 0 {
        Seq::empty()
    } else {
        let before = kept(parts.drop_last());
        let part = trimmed(parts.last());
        if part.len() == 0 {
            before
        } else {
            before.push(part)
        }
    }
}

pub proof fn lemma_split_nonempty(s: Seq<char>, sep: Separator)
    ensures
        split(s, sep).len() >= 1,
    decreases s.len(),
{
    if s.len() > 0 {
        lemma_split_nonempty(s.drop_last(), sep);
    }
}

/// The parts of `s` between its separators, empty parts kept.
pub fn split_parts(s: &str, sep: Separator) -> (r: Vec<String>)
    ensures
        texts(r@) == split(s@, sep),
{
    let chars = chars_of(s);
    let mut r: Vec<String> = Vec::new();
    let mut start: usize = 0;
    let mut i: usize = 0;
    assert(chars@.subrange(0, 0) =~= Seq::<char>::empty());
    assert(split(chars@.take(0), sep) =~= seq![Seq::<char>::empty()]);
    while i < chars.len()
        invariant
            start <= i <= chars@.len(),
            texts(r@).push(chars@.subrange(start as int, i as int)) =~= split(
                chars@.take(i as int),
                sep,
            ),
        decreases chars@.len() - i,
    {
        proof {
            assert(chars@.take(i + 1).drop_last() =~= chars@.take(i as int));
            let before = split(chars@.take(i as int), sep);
            assert(before.last() =~= chars@.subrange(start as int, i as int));
            assert(before.drop_last() =~= texts(r@));
            assert(chars@.subrange(start as int, i as int).push(chars@[i as int])
                =~= chars@.subrange(start as int, i + 1));
            assert(chars@.subrange(i + 1, i + 1) =~= Seq::<char>::empty());
        }
        if sep.is_split(chars[i]) {
            let ghost was = texts(r@);
            let part = text_of(&chars, start, i);
            r.push(part);
            assert(texts(r@) =~= was.push(part@));
            start = i + 1;
        }
        i += 1;
    }
    let ghost was = texts(r@);
    let part = text_of(&chars, start, i);
    r.push(part);
    assert(texts(r@) =~= was.push(part@));
    assert(chars@.take(i as int) =~= s@);
    r
}

/// The parts of `s`, trimmed, without those that hold nothing but white space.
pub fn entry_list(s: &str, sep: Separator) -> (r: Vec<String>)
    ensures
        texts(r@) == entries(s@, sep),
{
    let parts = split_parts(s, sep);
    let mut r: Vec<String> = Vec::new();
    let mut i: usize = 0;
    while i < parts.len()
        invariant
            i <= parts@.len(),
            texts(r@) == kept(texts(parts@).take(i as int)),
        decreases parts@.len() - i,
    {
        let part = trim(parts[i].as_str());
        let ghost was = texts(r@);
        proof {
            assert(texts(parts@).take(i + 1).drop_last() =~= texts(parts@).take(i as int));
        }
        if !part.as_str().is_empty() {
            r.push(part);
            assert(texts(r@) =~= was.push(part@));
        }
        i += 1;
    }
    assert(texts(parts@).take(i as int) =~= texts(parts@));
    r
}

/// The parts in order, with `sep` between each two of them.
pub open spec fn joined(parts: Seq<Seq<char>>, sep: Seq<char>) -> Seq<char>
    decreases parts.len(),
{
    if parts.len() == 0 {
        Seq::empty()
    } else if parts.len() == 1 {
        parts[0]
    } else {
        joined(parts.drop_last(), sep) + sep + parts.last()
    }
}

/// The parts in order, with `sep` between each two of them.
pub fn join(parts: &Vec<String>, sep: &str) -> (r: String)
    ensures
        r@ == joined(texts(parts@), sep@),
{
    let mut r: String = String::new();
    let mut i: usize = 0;
    while i < parts.len()
        invariant
            i <= parts@.len(),
            r@ == joined(texts(parts@).take(i as int), sep@),
        decreases parts@.len() - i,
    {
        assert(texts(parts@).take(i + 1).drop_last() =~= texts(parts@).take(i as int));
        if i > 0 {
            r.append(sep);
        }
        r.append(parts[i].as_str());
        assert(r@ =~= joined(texts(parts@).take(i + 1), sep@));
        i += 1;
    }
    assert(texts(parts@).take(i as int) =~= texts(parts@));
    r
}

/// The character of a decimal digit.
pub open spec fn digit(d: int) -> char {
    (('0' as u8 + d) as u8) as char
}

/// A natural number in decimal notation.
pub open spec fn decimal(n: nat) -> Seq<char>
    decreases n,
{
    if n < 10 {
        seq![digit(n as int)]
    } else {
        decimal(n / 10).push(digit((n % 10) as int))
    }
}

/// An integer in decimal notation, with a minus sign where it is negative.
pub open spec fn decimal_int(i: int) -> Seq<char> {
    if i < 0 {
        seq!['-'] + decimal((-i) as nat)
    } else {
        decimal(i as nat)
    }
}

/// A natural number in decimal notation, with a zero in front where it has one digit.
pub open spec fn padded(n: nat) -> Seq<char> {
    if n < 10 {
        seq!['0'] + decimal(n)
    } else {
        decimal(n)
    }
}

pub fn number(n: u64) -> (r: String)
    ensures
        r@ == decimal(n as nat),
    decreases n,
{
    if n < 10 {
        let mut r: String = String::new();
        r.push((48u8 + n as u8) as char);
        assert(r@ =~= decimal(n as nat));
        r
    } else {
        let mut r: String = number(n / 10);
        r.push((48u8 + (n % 10) as u8) as char);
        r
    }
}

pub fn signed_number(i: i64) -> (r: String)
    ensures
        r@ == decimal_int(i as int),
{
    if i >= 0 {
        number(i as u64)
    } else {
        let mut r: String = String::new();
        r.push('-');
        let magnitude: u64 = (-(i + 1)) as u64 + 1;
        let digits = number(magnitude);
        r.append(digits.as_str());
        assert(r@ =~= decimal_int(i as int));
        r
    }
}

pub fn padded_number(n: u64) -> (r: String)
    ensures
        r@ == padded(n as nat),
{
    let digits = number(n);
    if n < 10 {
        let mut r: String = String::new();
        r.push('0');
        r.append(digits.as_str());
        assert(r@ =~= padded(n as nat));
        r
    } else {
        digits
    }
}

pub open spec fn is_digit(c: char) -> bool {
    '0' <= c <= '9'
}

pub open spec fn all_digits(s: Seq<char>) -> bool {
    forall|i: int| 0 <= i < s.len() ==> is_digit(#[trigger] s[i])
}

/// The number that a run of decimal digits writes.
pub open spec fn digits_value(s: Seq<char>) -> nat
    decreases s.len(),
{
    if s.len() == 0 {
        0
    } else {
        digits_value(s.drop_last()) * 10 + (s.last() as nat - '0' as nat) as nat
    }
}

/// The number that an unsigned numeral writes: digits, at least one, after an optional plus
/// sign.
pub open spec fn unsigned_value(s: Seq<char>) -> Option<nat> {
    let body = if s.len() > 0 && s[0] == '+' {
        s.drop_first()
    } else {
        s
    };
    if body.len() > 0 && all_digits(body) {
        Some(digits_value(body))
    } else {
        None
    }
}

/// The number that a numeral writes: digits, at least one, after an optional sign.
pub open spec fn signed_value(s: Seq<char>) -> Option<int> {
    if s.len() > 0 && s[0] == '-' {
        let body = s.drop_first();
        if body.len() > 0 && all_digits(body) {
            Some(-(digits_value(body) as int))
        } else {
            None
        }
    } else {
        match unsigned_value(s) {
            Some(v) => Some(v as int),
            None => None,
        }
    }
}

proof fn lemma_digits_value_grows(s: Seq<char>, i: int)
    requires
        0 <= i <= s.len(),
        all_digits(s),
    ensures
        digits_value(s.take(i)) <= digits_value(s),
    decreases s.len(),
{
    if i == s.len() {
        assert(s.take(i) =~= s);
    } else {
        let t = s.drop_last();
        assert(t.take(i) =~= s.take(i));
        assert forall|k: int| 0 <= k < t.len() implies is_digit(#[trigger] t[k]) by {
            assert(t[k] == s[k]);
        }
        lemma_digits_value_grows(t, i);
    }
}

/// The number written by the digits from index `from` on, unless there is none, another
/// character, or a number beyond `cap`.
fn digits_up_to(chars: &Vec<char>, from: usize, cap: u64) -> (r: Option<u64>)
    requires
        from <= chars@.len(),
    ensures
        ({
            let body = chars@.skip(from as int);
            match r {
                Some(v) => body.len() > 0 && all_digits(body) && v == digits_value(body) && v
                    <= cap,
                None => !(body.len() > 0 && all_digits(body) && digits_value(body) <= cap),
            }
        }),
{
    let ghost body = chars@.skip(from as int);
    if from == chars.len() {
        return None;
    }
    let mut value: u64 = 0;
    let mut i: usize = from;
    while i < chars.len()
        invariant
            from <= i <= chars@.len(),
            body == chars@.skip(from as int),
            all_digits(body.take(i - from)),
            value == digits_value(body.take(i - from)),
            value <= cap,
        decreases chars@.len() - i,
    {
        let c = chars[i];
        assert(body[i - from] == c);
        if !('0' <= c && c <= '9') {
            return None;
        }
        proof {
            assert(body.take(i + 1 - from).drop_last() =~= body.take(i - from));
            assert forall|k: int| 0 <= k < i + 1 - from implies is_digit(
                #[trigger] body.take(i + 1 - from)[k],
            ) by {
                if k < i - from {
                    assert(body.take(i + 1 - from)[k] == body.take(i - from)[k]);
                }
            }
            if all_digits(body) {
                lemma_digits_value_grows(body, i + 1 - from);
            }
        }
        let d: u64 = c as u64 - 48;
        let next: u128 = value as u128 * 10 + d as u128;
        if next > cap as u128 {
            return None;
        }
        value = next as u64;
        i += 1;
    }
    assert(body.take(i - from) =~= body);
    Some(value)
}

/// The number that `s` writes as an unsigned numeral, unless it is no numeral or beyond `cap`.
pub fn parse_unsigned(s: &str, cap: u64) -> (r: Option<u64>)
    ensures
        match r {
            Some(v) => unsigned_value(s@) == Some(v as nat) && v <= cap,
            None => unsigned_value(s@) is None || unsigned_value(s@)->0 > cap,
        },
{
    let chars = chars_of(s);
    assert(chars@.skip(0) =~= chars@);
    if chars.len() > 0 && chars[0] == '+' {
        assert(chars@.skip(1) =~= chars@.drop_first());
        digits_up_to(&chars, 1, cap)
    } else {
        digits_up_to(&chars, 0, cap)
    }
}

/// What reading a text as a 64-bit signed integer gives.
pub open spec fn i64_value(s: Seq<char>) -> Option<i64> {
    match signed_value(s) {
        Some(v) => if i64::MIN <= v <= i64::MAX {
            Some(v as i64)
        } else {
            None
        },
        None => None,
    }
}

/// Reads a text as a 64-bit signed integer.
pub fn parse_i64(s: &str) -> (r: Option<i64>)
    ensures
        r == i64_value(s@),
{
    let chars = chars_of(s);
    if chars.len() > 0 && chars[0] == '-' {
        assert(chars@.skip(1) =~= chars@.drop_first());
        match digits_up_to(&chars, 1, 0x8000_0000_0000_0000) {
            Some(v) => if v == 0 {
                Some(0)
            } else {
                Some(-((v - 1) as i64) - 1)
            },
            None => None,
        }
    } else {
        match parse_unsigned(s, 0x7fff_ffff_ffff_ffff) {
            Some(v) => Some(v as i64),
            None => None,
        }
    }
}

/// `s` without the run of `c` at its start.
pub open spec fn without_leading(s: Seq<char>, c: char) -> Seq<char>
    decreases s.len(),
{
    if s.len() > 0 && s[0] == c {
        without_leading(s.drop_first(), c)
    } else {
        s
    }
}

/// `s` without the run of `c` at its start.
pub fn strip_leading(s: &str, c: char) -> (r: String)
    ensures
        r@ == without_leading(s@, c),
{
    let chars = chars_of(s);
    let mut a: usize = 0;
    assert(chars@.skip(0) =~= s@);
    while a < chars.len() && chars[a] == c
        invariant
            a <= chars@.len(),
            without_leading(chars@.skip(a as int), c) == without_leading(s@, c),
        decreases chars@.len() - a,
    {
        assert(chars@.skip(a as int).drop_first() =~= chars@.skip(a + 1));
        a += 1;
    }
    assert(chars@.skip(a as int) =~= chars@.subrange(a as int, chars@.len() as int));
    text_of(&chars, a, chars.len())
}

/// What follows `p` in a text that starts with it.
pub open spec fn stripped(s: Seq<char>, p: Seq<char>) -> Option<Seq<char>> {
    if has_prefix(s, p) {
        Some(s.skip(p.len() as int))
    } else {
        None
    }
}

/// The text inside an optional string.
pub open spec fn opt_text(o: Option<String>) -> Option<Seq<char>> {
    match o {
        Some(s) => Some(s@),
        None => None,
    }
}

/// What follows `p` in a text that starts with it.
pub fn strip_prefix(s: &str, p: &str) -> (r: Option<String>)
    ensures
        opt_text(r) == stripped(s@, p@),
{
    if !starts_with(s, p) {
        return None;
    }
    let chars = chars_of(s);
    let from: usize = p.unicode_len();
    assert(chars@.skip(from as int) =~= chars@.subrange(from as int, chars@.len() as int));
    Some(text_of(&chars, from, chars.len()))
}

/// Whether `s` starts with `p`, but for the case of ASCII letters.
pub fn starts_with_ignoring_case(s: &str, p: &str) -> (r: bool)
    ensures
        r == has_prefix(folded(s@), folded(p@)),
{
    let chars = chars_of(s);
    let pattern = chars_of(p);
    proof {
        if p@.len() <= s@.len() {
            assert(folded(s@).take(p@.len() as int) =~= folded(s@).subrange(0, p@.len() as int));
        }
    }
    stands(&chars, 0, &pattern, true)
}

/// Whether `s` ends with `p`, but for the case of ASCII letters.
pub fn ends_with_ignoring_case(s: &str, p: &str) -> (r: bool)
    ensures
        r == has_suffix(folded(s@), folded(p@)),
{
    let chars = chars_of(s);
    let pattern = chars_of(p);
    if pattern.len() > chars.len() {
        return false;
    }
    let at: usize = chars.len() - pattern.len();
    assert(folded(s@).skip(at as int) =~= folded(s@).subrange(at as int, at + p@.len()));
    stands(&chars, at, &pattern, true)
}

/// The index of the last `c` in `s`.
pub open spec fn last_index(s: Seq<char>, c: char) -> Option<int>
    decreases s.len(),
{
    if s.len() == 0 {
        None
    } else if s.last() == c {
        Some(s.len() - 1)
    } else {
        last_index(s.drop_last(), c)
    }
}

/// What follows the last `c` in `s`.
pub open spec fn after_last(s: Seq<char>, c: char) -> Option<Seq<char>> {
    match last_index(s, c) {
        Some(i) => Some(s.skip(i + 1)),
        None => None,
    }
}

/// What follows the last `c` in `s`.
pub fn text_after_last(s: &str, c: char) -> (r: Option<String>)
    ensures
        opt_text(r) == after_last(s@, c),
{
    let chars = chars_of(s);
    let mut i: usize = chars.len();
    assert(chars@.take(i as int) =~= s@);
    while i > 0
        invariant
            i <= chars@.len(),
            chars@ == s@,
            last_index(chars@.take(i as int), c) == last_index(s@, c),
        decreases i,
    {
        assert(chars@.take(i as int).drop_last() =~= chars@.take(i - 1));
        if chars[i - 1] == c {
            assert(s@.skip(i as int) =~= chars@.subrange(i as int, chars@.len() as int));
            return Some(text_of(&chars, i, chars.len()));
        }
        i -= 1;
    }
    None
}

/// Whether `c` occurs in `s`.
pub fn contains_char(s: &str, c: char) -> (r: bool)
    ensures
        r == s@.contains(c),
{
    let chars = chars_of(s);
    let mut i: usize = 0;
    while i < chars.len()
        invariant
            i <= chars@.len(),
            chars@ == s@,
            forall|k: int| 0 <= k < i ==> chars@[k] != c,
        decreases chars@.len() - i,
    {
        if chars[i] == c {
            return true;
        }
        i += 1;
    }
    false
}

/// Whether `p` stands somewhere in `s`.
pub fn contains_part(s: &str, p: &str) -> (r: bool)
    ensures
        r == has_part(s@, p@),
{
    let chars = chars_of(s);
    let pattern = chars_of(p);
    let mut at: usize = 0;
    while at < chars.len()
        invariant
            at <= chars@.len(),
            chars@ == s@,
            pattern@ == p@,
            forall|k: int| 0 <= k < at ==> !(#[trigger] stands_at(s@, k, p@)),
        decreases chars@.len() - at,
    {
        if stands(&chars, at, &pattern, false) {
            return true;
        }
        at += 1;
    }
    let r = stands(&chars, at, &pattern, false);
    assert(!r ==> forall|k: int| !(#[trigger] stands_at(s@, k, p@)));
    r
}

/// What `str::to_lowercase` of std gives.
pub uninterp spec fn lowercase(s: Seq<char>) -> Seq<char>;

/// `str::to_lowercase` of std: the text in Unicode small letters. The result depends on the text
/// alone, and for an ASCII text it is the text with its capitals replaced by small letters; what
/// it is for other texts is not stated.
#[verifier::external_body]
pub(crate) fn to_lowercase(s: &str) -> (r: String)
    ensures
        r@ == lowercase(s@),
        is_ascii_chars(s@) ==> r@ == folded(s@),
{
    s.to_lowercase()
}

/// Two texts one after the other.
pub fn concat(a: &str, b: &str) -> (r: String)
    ensures
        r@ == a@ + b@,
{
    let mut r = a.to_owned();
    r.append(b);
    r
}

/// The value kept under a key in a list of pairs; the first where a key occurs more than once.
pub open spec fn value_of(pairs: Seq<(String, String)>, key: Seq<char>) -> Option<Seq<char>>
    decreases pairs.len(),
{
    if pairs.len() == 0 {
        None
    } else if pairs[0].0@ == key {
        Some(pairs[0].1@)
    } else {
        value_of(pairs.drop_first(), key)
    }
}

/// The index of the first pair with a key; the number of pairs where there is none.
pub open spec fn index_of_key(pairs: Seq<(String, String)>, key: Seq<char>) -> int
    decreases pairs.len(),
{
    if pairs.len() == 0 || pairs[0].0@ == key {
        0
    } else {
        1 + index_of_key(pairs.drop_first(), key)
    }
}

pub proof fn lemma_value_of(pairs: Seq<(String, String)>, key: Seq<char>)
    ensures
        ({
            let i = index_of_key(pairs, key);
            &&& 0 <= i <= pairs.len()
            &&& i < pairs.len() ==> pairs[i].0@ == key && value_of(pairs, key) == Some(pairs[i].1@)
            &&& i == pairs.len() ==> value_of(pairs, key) is None
        }),
    decreases pairs.len(),
{
    if pairs.len() > 0 && pairs[0].0@ != key {
        lemma_value_of(pairs.drop_first(), key);
    }
}

/// The index of the first pair with a key.
pub fn find_key(pairs: &Vec<(String, String)>, key: &str) -> (r: Option<usize>)
    ensures
        match r {
            Some(i) => i < pairs@.len() && i == index_of_key(pairs@, key@) && value_of(
                pairs@,
                key@,
            ) == Some(pairs@[i as int].1@),
            None => value_of(pairs@, key@) is None && index_of_key(pairs@, key@) == pairs@.len(),
        },
{
    proof {
        lemma_value_of(pairs@, key@);
    }
    let mut i: usize = 0;
    assert(pairs@.skip(0) =~= pairs@);
    while i < pairs.len()
        invariant
            i <= pairs@.len(),
            index_of_key(pairs@, key@) == i + index_of_key(pairs@.skip(i as int), key@),
        decreases pairs@.len() - i,
    {
        assert(pairs@.skip(i as int)[0] == pairs@[i as int]);
        assert(pairs@.skip(i as int).drop_first() =~= pairs@.skip(i + 1));
        if same(pairs[i].0.as_str(), key) {
            proof {
                lemma_value_of(pairs@, key@);
            }
            return Some(i);
        }
        i += 1;
    }
    proof {
        lemma_value_of(pairs@, key@);
    }
    None
}

/// Whether a text is in a list of texts.
pub fn list_contains(list: &Vec<String>, text: &str) -> (r: bool)
    ensures
        r == texts(list@).contains(text@),
{
    let mut i: usize = 0;
    while i < list.len()
        invariant
            i <= list@.len(),
            forall|k: int| 0 <= k < i ==> (#[trigger] list@[k])@ != text@,
        decreases list@.len() - i,
    {
        if same(list[i].as_str(), text) {
            assert(texts(list@)[i as int] == text@);
            return true;
        }
        i += 1;
    }
    assert forall|k: int| 0 <= k < texts(list@).len() implies texts(list@)[k] != text@ by {
        assert(list@[k]@ != text@);
    }
    false
}

/// `s` with every occurrence of `p`, from the left and without overlap, replaced by `w`. Where
/// `p` is empty nothing is replaced.
pub open spec fn replaced(s: Seq<char>, p: Seq<char>, w: Seq<char>) -> Seq<char>
    decreases s.len(),
{
    if p.len() == 0 || s.len() < p.len() {
        s
    } else if has_prefix(s, p) {
        w + replaced(s.skip(p.len() as int), p, w)
    } else {
        seq![s[0]] + replaced(s.drop_first(), p, w)
    }
}

/// `s` with every occurrence of `p`, from the left and without overlap, replaced by `w`. Where
/// `p` is empty nothing is replaced.
pub fn replace(s: &str, p: &str, w: &str) -> (r: String)
    ensures
        r@ == replaced(s@, p@, w@),
{
    let chars = chars_of(s);
    let pattern = chars_of(p);
    let n: usize = chars.len();
    let m: usize = pattern.len();
    if m == 0 {
        return s.to_owned();
    }
    let mut r: String = String::new();
    let mut i: usize = 0;
    assert(chars@.skip(0) =~= s@);
    while n - i >= m
        invariant
            i <= n,
            n == chars@.len(),
            m == pattern@.len(),
            m > 0,
            pattern@ == p@,
            r@ + replaced(chars@.skip(i as int), p@, w@) =~= replaced(s@, p@, w@),
        decreases n - i,
    {
        let ghost rest = chars@.skip(i as int);
        let ghost was = r@;
        assert(rest.take(m as int) =~= chars@.subrange(i as int, i + m));
        assert(rest.skip(m as int) =~= chars@.skip(i + m));
        assert(rest.drop_first() =~= chars@.skip(i + 1));
        if stands(&chars, i, &pattern, false) {
            r.append(w);
            i += m;
            assert(r@ + replaced(chars@.skip(i as int), p@, w@) =~= was + replaced(rest, p@, w@));
        } else {
            r.push(chars[i]);
            i += 1;
            assert(r@ + replaced(chars@.skip(i as int), p@, w@) =~= was + replaced(rest, p@, w@));
        }
    }
    let tail = text_of(&chars, i, n);
    assert(chars@.skip(i as int) =~= tail@);
    r.append(tail.as_str());
    r
}

/// A message template with the place of a name, written in braces, filled in.
pub open spec fn filled(template: Seq<char>, name: Seq<char>, value: Seq<char>) -> Seq<char> {
    replaced(template, seq!['{'] + name + seq!['}'], value)
}

/// A message template with the place of a name, written in braces, filled in.
pub fn fill(template: &str, name: &str, value: &str) -> (r: String)
    ensures
        r@ == filled(template@, name@, value@),
{
    let mut place: String = String::new();
    place.push('{');
    place.append(name);
    place.push('}');
    assert(place@ =~= seq!['{'] + name@ + seq!['}']);
    replace(template, place.as_str(), value)
}

/// The index of the first `c` in `s`; the length of `s` where there is none.
pub open spec fn first_index(s: Seq<char>, c: char) -> int
    decreases s.len(),
{
    if s.len() == 0 || s[0] == c {
        0
    } else {
        1 + first_index(s.drop_first(), c)
    }
}

/// What stands before and after the first `c` in `s`.
pub open spec fn parted(s: Seq<char>, c: char) -> Option<(Seq<char>, Seq<char>)> {
    let i = first_index(s, c);
    if i < s.len() {
        Some((s.take(i), s.skip(i + 1)))
    } else {
        None
    }
}

pub proof fn lemma_first_index(s: Seq<char>, c: char)
    ensures
        0 <= first_index(s, c) <= s.len(),
        first_index(s, c) < s.len() ==> s[first_index(s, c)] == c,
        forall|i: int| 0 <= i < first_index(s, c) ==> s[i] != c,
    decreases s.len(),
{
    if s.len() > 0 && s[0] != c {
        lemma_first_index(s.drop_first(), c);
        assert forall|i: int| 0 <= i < first_index(s, c) implies s[i] != c by {
            if i > 0 {
                assert(s[i] == s.drop_first()[i - 1]);
            }
        }
    }
}

/// What stands before and after the first `c` in `s`.
pub fn split_once(s: &str, c: char) -> (r: Option<(String, String)>)
    ensures
        (match r {
            Some((a, b)) => Some((a@, b@)),
            None => None,
        }) == parted(s@, c),
{
    let chars = chars_of(s);
    let mut i: usize = 0;
    assert(chars@.skip(0) =~= s@);
    while i < chars.len()
        invariant
            i <= chars@.len(),
            chars@ == s@,
            first_index(s@, c) == i + first_index(chars@.skip(i as int), c),
        decreases chars@.len() - i,
    {
        assert(chars@.skip(i as int).drop_first() =~= chars@.skip(i + 1));
        if chars[i] == c {
            let a = text_of(&chars, 0, i);
            let b = text_of(&chars, i + 1, chars.len());
            assert(a@ =~= s@.take(i as int));
            assert(b@ =~= s@.skip(i + 1));
            return Some((a, b));
        }
        i += 1;
    }
    None
}

/// A number below one hundred with two digits is read back as itself.
pub proof fn lemma_padded_reads_back(n: nat)
    requires
        n < 100,
    ensures
        padded(n) == seq![digit((n / 10) as int), digit((n % 10) as int)],
        all_digits(padded(n)),
        unsigned_value(padded(n)) == Some(n),
        !padded(n).contains(':'),
        !white_space(padded(n)[0]),
        !white_space(padded(n)[1]),
{
    let p = padded(n);
    reveal_with_fuel(decimal, 3);
    assert(p =~= seq![digit((n / 10) as int), digit((n % 10) as int)]);
    assert(p.drop_last() =~= seq![p[0]]);
    assert(p.drop_last().drop_last() =~= Seq::empty());
    reveal_with_fuel(digits_value, 4);
    assert(digits_value(p) == n);
}

} // verus!
