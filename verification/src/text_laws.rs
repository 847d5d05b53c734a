//! What holds of the operations on texts.

use vstd::prelude::*;

use crate::order::text_before;
use crate::text::{
    after_last, all_digits, decimal, decimal_int, digit, digits_value, filled, first_index, folded,
    has_part, has_prefix, has_suffix, i64_value, is_digit, joined, kept, last_index, lower, parted,
    same_folded, signed_value, split, stands_at, stripped, trim_end, trim_start, trimmed,
    unsigned_value, value_of, white_space, without_leading, Separator,
};

verus! {

/// A text has another as a part exactly where it is what stands before, that other text and what
/// stands after.
pub proof fn law_part_stands_between(s: Seq<char>, p: Seq<char>)
    ensures
        has_part(s, p) <==> exists|before: Seq<char>, after: Seq<char>|
            s == #[trigger] (before + p + after),
{
    if has_part(s, p) {
        let at = choose|at: int| #[trigger] stands_at(s, at, p);
        let before = s.take(at);
        let after = s.skip(at + p.len());
        assert forall|i: int| 0 <= i < s.len() implies s[i] == (before + p + after)[i] by {
            if at <= i < at + p.len() {
                assert(s.subrange(at, at + p.len())[i - at] == s[i]);
            }
        }
        assert(s =~= before + p + after);
    }
    if exists|before: Seq<char>, after: Seq<char>| s == #[trigger] (before + p + after) {
        let (before, after) = choose|before: Seq<char>, after: Seq<char>|
            s == #[trigger] (before + p + after);
        let at = before.len() as int;
        assert(s.subrange(at, at + p.len()) =~= p);
        assert(stands_at(s, at, p));
    }
}

/// A text begins with another exactly where it is that text and more; taking the beginning off
/// gives what follows.
pub proof fn law_prefix_is_what_it_begins_with(s: Seq<char>, p: Seq<char>, rest: Seq<char>)
    ensures
        has_prefix(p + rest, p),
        stripped(p + rest, p) == Some(rest),
        has_prefix(s, p) ==> s == p + s.skip(p.len() as int),
        stripped(s, p) == Some(rest) <==> s == p + rest,
{
    assert((p + rest).take(p.len() as int) =~= p);
    assert((p + rest).skip(p.len() as int) =~= rest);
    if has_prefix(s, p) {
        assert(s =~= s.take(p.len() as int) + s.skip(p.len() as int));
    }
}

/// A text ends with another exactly where it is more and then that text.
pub proof fn law_suffix_is_what_it_ends_with(s: Seq<char>, p: Seq<char>, rest: Seq<char>)
    ensures
        has_suffix(rest + p, p),
        has_suffix(s, p) ==> s == s.take(s.len() - p.len()) + p,
{
    assert((rest + p).skip(rest.len() as int) =~= p);
    if has_suffix(s, p) {
        assert(s =~= s.take(s.len() - p.len()) + s.skip(s.len() - p.len()));
    }
}

/// Whether every character is white space.
pub open spec fn blank(s: Seq<char>) -> bool {
    forall|i: int| 0 <= i < s.len() ==> white_space(#[trigger] s[i])
}

proof fn lemma_trim_start_blank(space: Seq<char>, s: Seq<char>)
    requires
        blank(space),
    ensures
        trim_start(space + s) == trim_start(s),
    decreases space.len(),
{
    if space.len() == 0 {
        assert(space + s =~= s);
    } else {
        assert((space + s)[0] == space[0]);
        assert((space + s).drop_first() =~= space.drop_first() + s);
        lemma_trim_start_blank(space.drop_first(), s);
    }
}

proof fn lemma_trim_end_blank(s: Seq<char>, space: Seq<char>)
    requires
        blank(space),
    ensures
        trim_end(s + space) == trim_end(s),
    decreases space.len(),
{
    if space.len() == 0 {
        assert(s + space =~= s);
    } else {
        assert((s + space).last() == space.last());
        assert((s + space).drop_last() =~= s + space.drop_last());
        lemma_trim_end_blank(s, space.drop_last());
    }
}

proof fn lemma_trim_start_parts(s: Seq<char>) -> (space: Seq<char>)
    ensures
        blank(space),
        s == space + trim_start(s),
        trim_start(s).len() > 0 ==> !white_space(trim_start(s)[0]),
    decreases s.len(),
{
    if s.len() > 0 && white_space(s[0]) {
        let rest = lemma_trim_start_parts(s.drop_first());
        let space = seq![s[0]] + rest;
        assert(s =~= seq![s[0]] + s.drop_first());
        assert(seq![s[0]] + (rest + trim_start(s)) =~= space + trim_start(s));
        space
    } else {
        assert(s =~= Seq::<char>::empty() + s);
        Seq::empty()
    }
}

proof fn lemma_trim_end_parts(s: Seq<char>) -> (space: Seq<char>)
    ensures
        blank(space),
        s == trim_end(s) + space,
        trim_end(s).len() > 0 ==> !white_space(trim_end(s).last()),
    decreases s.len(),
{
    if s.len() > 0 && white_space(s.last()) {
        let rest = lemma_trim_end_parts(s.drop_last());
        let space = rest.push(s.last());
        assert(s =~= s.drop_last().push(s.last()));
        assert((trim_end(s) + rest).push(s.last()) =~= trim_end(s) + space);
        space
    } else {
        assert(s =~= s + Seq::<char>::empty());
        Seq::empty()
    }
}

/// Trimming takes white space off both ends and nothing else: what is left begins and ends with
/// something else, or is empty.
pub proof fn law_trimming_takes_the_ends_off(s: Seq<char>) -> (ends: (Seq<char>, Seq<char>))
    ensures
        blank(ends.0),
        blank(ends.1),
        s == ends.0 + trimmed(s) + ends.1,
        trimmed(s).len() > 0 ==> !white_space(trimmed(s)[0]) && !white_space(trimmed(s).last()),
{
    let before = lemma_trim_start_parts(s);
    let after = lemma_trim_end_parts(trim_start(s));
    assert(s =~= before + trimmed(s) + after);
    if trimmed(s).len() > 0 {
        assert(trimmed(s)[0] == trim_start(s)[0]);
    }
    (before, after)
}

/// White space around a text makes no difference to what trimming leaves, and a text with none
/// at its ends is left as it is.
pub proof fn law_trimming_ignores_the_ends(before: Seq<char>, s: Seq<char>, after: Seq<char>)
    requires
        blank(before),
        blank(after),
        s.len() > 0 ==> !white_space(s[0]) && !white_space(s.last()),
    ensures
        trimmed(before + s + after) == s,
{
    lemma_trim_start_blank(before, s + after);
    assert(before + s + after =~= before + (s + after));
    if s.len() == 0 {
        assert(s + after =~= after + s);
        lemma_trim_start_blank(after, s);
        assert(trim_start(s) == s);
        assert(trim_end(s) == s);
    } else {
        assert((s + after)[0] == s[0]);
        assert(trim_start(s + after) == s + after);
        lemma_trim_end_blank(s, after);
        assert(trim_end(s) == s);
    }
}

/// A text of white space is trimmed to nothing, and only such a text is.
pub proof fn law_blank_is_trimmed_to_nothing(s: Seq<char>)
    ensures
        trimmed(s).len() == 0 <==> blank(s),
{
    let ends = law_trimming_takes_the_ends_off(s);
    if trimmed(s).len() == 0 {
        assert forall|i: int| 0 <= i < s.len() implies white_space(#[trigger] s[i]) by {
            if i < ends.0.len() {
                assert(s[i] == ends.0[i]);
            } else {
                assert(s[i] == ends.1[i - ends.0.len()]);
            }
        }
    } else {
        assert(s[ends.0.len() as int] == trimmed(s)[0]);
    }
}

/// A number is read back from its digits.
pub proof fn lemma_decimal_reads_back(n: nat)
    ensures
        decimal(n).len() > 0,
        all_digits(decimal(n)),
        digits_value(decimal(n)) == n,
    decreases n,
{
    let s = decimal(n);
    if n < 10 {
        assert(s.drop_last() =~= Seq::empty());
        reveal_with_fuel(digits_value, 2);
    } else {
        lemma_decimal_reads_back(n / 10);
        assert(s.drop_last() =~= decimal(n / 10));
        assert(s.last() == digit((n % 10) as int));
    }
}

proof fn lemma_digit_is_no_space(c: char)
    requires
        is_digit(c) || c == '-',
    ensures
        !white_space(c),
{
}

/// Reading a number back from what was written of it gives the number, below zero and above.
pub proof fn law_number_is_read_back(i: int)
    ensures
        signed_value(decimal_int(i)) == Some(i),
        trimmed(decimal_int(i)) == decimal_int(i),
        i64::MIN <= i <= i64::MAX ==> i64_value(decimal_int(i)) == Some(i as i64),
        i >= 0 ==> unsigned_value(decimal_int(i)) == Some(i as nat),
{
    let n = if i < 0 {
        (-i) as nat
    } else {
        i as nat
    };
    lemma_decimal_reads_back(n);
    let s = decimal_int(i);
    let body = decimal(n);
    assert(is_digit(body[0]));
    if i < 0 {
        assert(s.drop_first() =~= body);
    }
    assert(is_digit(body.last()));
    assert(s.last() == body.last());
    lemma_digit_is_no_space(s[0]);
    lemma_digit_is_no_space(s.last());
    assert(trim_start(s) == s);
    assert(trim_end(s) == s);
}

/// Two different numbers are never written alike.
pub proof fn law_numbers_are_written_apart(a: int, b: int)
    ensures
        decimal_int(a) == decimal_int(b) ==> a == b,
{
    law_number_is_read_back(a);
    law_number_is_read_back(b);
}

proof fn lemma_last_index(s: Seq<char>, c: char)
    ensures
        match last_index(s, c) {
            Some(i) => 0 <= i < s.len() && s[i] == c && forall|j: int| i < j < s.len() ==> s[j] != c,
            None => !s.contains(c),
        },
    decreases s.len(),
{
    if s.len() > 0 && s.last() != c {
        let rest = s.drop_last();
        lemma_last_index(rest, c);
        match last_index(s, c) {
            Some(i) => {
                assert forall|j: int| i < j < s.len() implies s[j] != c by {
                    if j < rest.len() {
                        assert(rest[j] == s[j]);
                    }
                }
            },
            None => {
                if s.contains(c) {
                    let j = choose|j: int| 0 <= j < s.len() && s[j] == c;
                    assert(rest[j] == c);
                }
            },
        }
    }
}

/// What follows the last of a character is the end of the text in which it does not occur.
pub proof fn law_after_the_last(stem: Seq<char>, c: char, end: Seq<char>)
    requires
        !end.contains(c),
    ensures
        after_last(stem + seq![c] + end, c) == Some(end),
        after_last(end, c) is None,
{
    let s = stem + seq![c] + end;
    lemma_last_index(s, c);
    lemma_last_index(end, c);
    assert(s[stem.len() as int] == c);
    match last_index(s, c) {
        Some(i) => {
            if i > stem.len() {
                assert(s[i] == end[i - stem.len() - 1]);
                assert(end.contains(c));
            }
            assert(i == stem.len());
            assert(s.skip(i + 1) =~= end);
        },
        None => {
            assert(s.contains(c));
        },
    }
}

/// A text is parted at the first of a character.
pub proof fn law_parted_at_the_first(before: Seq<char>, c: char, after: Seq<char>)
    requires
        !before.contains(c),
    ensures
        parted(before + seq![c] + after, c) == Some((before, after)),
        parted(before, c) is None,
{
    let s = before + seq![c] + after;
    crate::text::lemma_first_index(s, c);
    crate::text::lemma_first_index(before, c);
    let i = first_index(s, c);
    let n = before.len() as int;
    assert(s[n] == c);
    if i < n {
        assert(before[i] == s[i]);
        assert(before.contains(c));
    }
    assert(i == n);
    assert(s.take(i) =~= before);
    assert(s.skip(i + 1) =~= after);
    if first_index(before, c) < n {
        assert(before.contains(before[first_index(before, c)]));
    }
}

/// Taking a leading character off takes off all of it that leads, and nothing after.
pub proof fn law_leading_character_is_taken_off(lead: Seq<char>, c: char, s: Seq<char>)
    requires
        forall|i: int| 0 <= i < lead.len() ==> #[trigger] lead[i] == c,
        s.len() > 0 ==> s[0] != c,
    ensures
        without_leading(lead + s, c) == s,
    decreases lead.len(),
{
    if lead.len() == 0 {
        assert(lead + s =~= s);
    } else {
        assert((lead + s)[0] == lead[0]);
        assert((lead + s).drop_first() =~= lead.drop_first() + s);
        law_leading_character_is_taken_off(lead.drop_first(), c, s);
    }
}

/// Two texts are the same without regard to case exactly where they are of one length and each
/// character is the other's, or the small letter of the other's capital.
pub proof fn law_case_is_all_that_folding_drops(a: Seq<char>, b: Seq<char>)
    ensures
        same_folded(a, b) <==> a.len() == b.len() && forall|i: int|
            0 <= i < a.len() ==> {
                ||| #[trigger] a[i] == b[i]
                ||| 'A' <= a[i] <= 'Z' && b[i] as int == a[i] as int + 32
                ||| 'A' <= b[i] <= 'Z' && a[i] as int == b[i] as int + 32
            },
{
    assert forall|c: char| 'A' <= c <= 'Z' implies #[trigger] lower(c) as int == c as int + 32 by {}
    if same_folded(a, b) {
        assert(folded(a).len() == folded(b).len());
        assert forall|i: int| 0 <= i < a.len() implies lower(#[trigger] a[i]) == lower(b[i]) by {
            assert(folded(a)[i] == folded(b)[i]);
        }
    } else if a.len() == b.len() && forall|i: int|
        0 <= i < a.len() ==> {
            ||| #[trigger] a[i] == b[i]
            ||| 'A' <= a[i] <= 'Z' && b[i] as int == a[i] as int + 32
            ||| 'A' <= b[i] <= 'Z' && a[i] as int == b[i] as int + 32
        } {
        assert forall|i: int| 0 <= i < a.len() implies folded(a)[i] == folded(b)[i] by {
            assert(a[i] == a[i]);
        }
        assert(folded(a) =~= folded(b));
    }
}

proof fn lemma_joined_push(parts: Seq<Seq<char>>, part: Seq<char>, sep: Seq<char>)
    requires
        parts.len() > 0,
    ensures
        joined(parts.push(part), sep) == joined(parts, sep) + sep + part,
{
    assert(parts.push(part).drop_last() =~= parts);
}

/// Splitting at a character and joining with it again gives the text back; no part has the
/// character in it.
pub proof fn law_split_parts_join_again(s: Seq<char>, c: char)
    ensures
        joined(split(s, Separator::Exactly(c)), seq![c]) == s,
        split(s, Separator::Exactly(c)).len() > 0,
        forall|i: int|
            0 <= i < split(s, Separator::Exactly(c)).len() ==> !(#[trigger] split(
                s,
                Separator::Exactly(c),
            )[i]).contains(c),
    decreases s.len(),
{
    let sep = Separator::Exactly(c);
    let parts = split(s, sep);
    if s.len() == 0 {
        assert(joined(parts, seq![c]) =~= s);
    } else {
        let rest = s.drop_last();
        law_split_parts_join_again(rest, c);
        let before = split(rest, sep);
        assert(s =~= rest.push(s.last()));
        if s.last() == c {
            lemma_joined_push(before, Seq::empty(), seq![c]);
            assert(joined(parts, seq![c]) =~= s);
        } else {
            let last = before.last().push(s.last());
            let most = before.drop_last();
            assert(before =~= most.push(before.last()));
            if most.len() > 0 {
                lemma_joined_push(most, last, seq![c]);
                lemma_joined_push(most, before.last(), seq![c]);
            }
            assert(joined(parts, seq![c]) =~= s);
            assert forall|i: int| 0 <= i < parts.len() implies !(#[trigger] parts[i]).contains(c) by {
                if i < most.len() {
                    assert(parts[i] == before[i]);
                } else if parts[i].contains(c) {
                    let k = choose|k: int| 0 <= k < last.len() && last[k] == c;
                    assert(before.last()[k] == c);
                    assert(before[before.len() - 1].contains(c));
                }
            }
        }
    }
}

/// What is kept of a list of parts: each part that is not blank, trimmed, in its place among the
/// others.
pub proof fn law_kept_parts_are_trimmed(parts: Seq<Seq<char>>, part: Seq<char>)
    ensures
        kept(parts).contains(part) <==> part.len() > 0 && exists|i: int|
            0 <= i < parts.len() && trimmed(#[trigger] parts[i]) == part,
        kept(parts).len() <= parts.len(),
    decreases parts.len(),
{
    if parts.len() > 0 {
        let rest = parts.drop_last();
        law_kept_parts_are_trimmed(rest, part);
        let before = kept(rest);
        let after = kept(parts);
        if before.contains(part) {
            let i = choose|i: int| 0 <= i < before.len() && before[i] == part;
            assert(after[i] == part);
        }
        if trimmed(parts.last()) == part && part.len() > 0 {
            assert(after[before.len() as int] == part);
            assert(parts[parts.len() - 1] == parts.last());
        }
        if after.contains(part) && !before.contains(part) {
            let i = choose|i: int| 0 <= i < after.len() && after[i] == part;
            assert(i == before.len());
            assert(parts[parts.len() - 1] == parts.last());
        }
        if exists|i: int| 0 <= i < rest.len() && trimmed(#[trigger] rest[i]) == part {
            let i = choose|i: int| 0 <= i < rest.len() && trimmed(#[trigger] rest[i]) == part;
            assert(parts[i] == rest[i]);
        }
        if exists|i: int| 0 <= i < parts.len() && trimmed(#[trigger] parts[i]) == part {
            let i = choose|i: int| 0 <= i < parts.len() && trimmed(#[trigger] parts[i]) == part;
            if i < rest.len() {
                assert(rest[i] == parts[i]);
            }
        }
    }
}

/// Filling in a template puts the value where the name stands in braces, and goes on after it;
/// what has no brace stays.
pub proof fn law_filling_puts_the_value_in(
    before: Seq<char>,
    name: Seq<char>,
    after: Seq<char>,
    value: Seq<char>,
)
    requires
        !before.contains('{'),
    ensures
        filled(before + (seq!['{'] + name + seq!['}']) + after, name, value) == before + value
            + filled(after, name, value),
        filled(before, name, value) == before,
    decreases before.len(),
{
    let p = seq!['{'] + name + seq!['}'];
    let s = before + p + after;
    if before.len() == 0 {
        assert(s =~= p + after);
        law_prefix_is_what_it_begins_with(s, p, after);
        assert(s.skip(p.len() as int) =~= after);
        assert(before + value + filled(after, name, value) =~= value + filled(after, name, value));
    } else {
        let rest = before.drop_first();
        assert forall|i: int| 0 <= i < rest.len() implies rest[i] != '{' by {
            assert(before.contains(before[i + 1]));
        }
        assert(before.contains(before[0]));
        law_filling_puts_the_value_in(rest, name, after, value);
        assert(s[0] == before[0]);
        assert(s.drop_first() =~= rest + p + after);
        if has_prefix(s, p) {
            assert(s.take(p.len() as int)[0] == p[0]);
        }
        if has_prefix(before, p) {
            assert(before.take(p.len() as int)[0] == p[0]);
        }
        assert(seq![before[0]] + rest =~= before);
        assert(seq![s[0]] + (rest + value + filled(after, name, value)) =~= before + value + filled(
            after,
            name,
            value,
        ));
    }
}

/// A list of pairs gives for a key the value of the first pair that has it.
pub proof fn law_first_pair_gives_the_value(
    before: Seq<(String, String)>,
    pair: (String, String),
    after: Seq<(String, String)>,
)
    requires
        forall|i: int| 0 <= i < before.len() ==> (#[trigger] before[i]).0@ != pair.0@,
    ensures
        value_of(before + seq![pair] + after, pair.0@) == Some(pair.1@),
        value_of(before, pair.0@) is None,
    decreases before.len(),
{
    let s = before + seq![pair] + after;
    if before.len() == 0 {
        assert(s[0] == pair);
    } else {
        assert(s[0] == before[0]);
        assert(s.drop_first() =~= before.drop_first() + seq![pair] + after);
        law_first_pair_gives_the_value(before.drop_first(), pair, after);
    }
}

/// Texts are ordered by the first character in which they differ; a beginning stands before what
/// it begins.
pub proof fn law_first_difference_orders(
    start: Seq<char>,
    c: char,
    d: char,
    a: Seq<char>,
    b: Seq<char>,
)
    requires
        c != d,
    ensures
        text_before(start + seq![c] + a, start + seq![d] + b) <==> (c as u32) < (d as u32),
        text_before(start, start + seq![c] + a),
        !text_before(start + seq![c] + a, start),
        !text_before(start, start),
    decreases start.len(),
{
    let x = start + seq![c] + a;
    let y = start + seq![d] + b;
    if start.len() == 0 {
        assert(x[0] == c && y[0] == d);
    } else {
        assert(x[0] == start[0] && y[0] == start[0]);
        assert(x.drop_first() =~= start.drop_first() + seq![c] + a);
        assert(y.drop_first() =~= start.drop_first() + seq![d] + b);
        law_first_difference_orders(start.drop_first(), c, d, a, b);
    }
}

} // verus!
