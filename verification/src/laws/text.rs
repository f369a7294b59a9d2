//! Text: how numbers are written and read, and what is taken off or split.

#![allow(unused_imports)]

use crate::text::{
    chars_of, digits, fields, integer, is_white_space, is_word, parse_i32, parse_u32, parse_u64, pieces,
    push_decimal, push_decimal_i32, read_i32, same_text, strip_ending, trim, trim_end,
    trim_end_text, trim_text, trimmed, white_space,
};
use vstd::prelude::*;

verus! {

/// A number is written behind what is there: a number below ten as its digit, any other
/// as what its tens are written as, with the digit of its ones behind. So no zero leads.
pub proof fn law_written_number(out: &mut String, tens: &mut String, n: u128)
    requires
        call_ensures(push_decimal, (out, n), ()),
        call_ensures(push_decimal, (tens, (n / 10) as u128), ()),
        old(out)@ == old(tens)@,
    ensures
        n < 10 ==> {
            &&& final(out)@.len() == old(out)@.len() + 1
            &&& final(out)@.drop_last() == old(out)@
        },
        n >= 10 ==> {
            &&& final(out)@.len() == final(tens)@.len() + 1
            &&& final(out)@.drop_last() == final(tens)@
        },
        final(out)@.last() as u32 == '0' as u32 + n % 10,
{
    let d = crate::text::digit((n % 10) as int);
    assert(d as u32 == 0x30 + n % 10);
    if n < 10 {
        assert(crate::text::decimal(n as nat) == seq![d]);
        assert(final(out)@.drop_last() =~= old(out)@);
    } else {
        assert(crate::text::decimal(n as nat) == crate::text::decimal((n / 10) as nat).push(d));
        assert(final(out)@.drop_last() =~= final(tens)@);
    }
}

/// An integer is written as its amount, with a minus sign in front exactly where it is
/// negative.
pub proof fn law_written_integer(out: &mut String, amount: &mut String, n: i32)
    requires
        call_ensures(push_decimal_i32, (out, n), ()),
        n < 0 ==> call_ensures(push_decimal, (amount, (-n) as u128), ()),
        n >= 0 ==> call_ensures(push_decimal, (amount, n as u128), ()),
    ensures
        n >= 0 && old(amount)@ == old(out)@ ==> final(out)@ == final(amount)@,
        n < 0 && old(amount)@ == old(out)@.push('-') ==> final(out)@ == final(amount)@,
{
    if n < 0 && old(amount)@ == old(out)@.push('-') {
        assert(final(out)@ =~= final(amount)@);
    }
}

/// What is written reads back.
pub proof fn law_written_reads_back(
    out: &mut String,
    signed: &mut String,
    n: u64,
    m: i32,
    text: &str,
    signed_text: &str,
    read: Option<u64>,
    signed_read: Option<i32>,
)
    requires
        old(out)@.len() == 0,
        old(signed)@.len() == 0,
        call_ensures(push_decimal, (out, n as u128), ()),
        call_ensures(push_decimal_i32, (signed, m), ()),
        text@ == final(out)@,
        signed_text@ == final(signed)@,
        call_ensures(parse_u64, (text,), read),
        call_ensures(parse_i32, (signed_text,), signed_read),
    ensures
        read == Some(n),
        signed_read == Some(m),
{
    crate::text::law_decimal_reads_back(n as nat);
    crate::text::law_decimal_int_reads_back(m as int);
    assert(text@ =~= crate::text::decimal(n as nat));
    assert(signed_text@ =~= crate::text::decimal_int(m as int));
}

proof fn lemma_one_more_digit(s: Seq<char>, c: char)
    ensures
        s.push(c).drop_last() == s,
        crate::text::digits_value(s.push(c)) == crate::text::digits_value(s) * 10 + (c as u32
            - 0x30) as nat,
        crate::text::all_digits(s.push(c)) <==> crate::text::all_digits(s)
            && crate::text::is_digit(c),
{
    let t = s.push(c);
    assert(t.drop_last() =~= s);
    if crate::text::all_digits(t) {
        assert(crate::text::is_digit(t[s.len() as int]));
        assert forall|i: int| 0 <= i < s.len() implies crate::text::is_digit(#[trigger] s[i]) by {
            assert(crate::text::is_digit(t[i]));
        }
    }
}

/// A row of digits stands for a number: one more digit behind it makes ten times that
/// number and the digit. A row with anything but digits in it, or with nothing in it,
/// stands for none.
pub proof fn law_digits_are_positional(s: Seq<char>, c: char)
    ensures
        digits(Seq::empty()) is None,
        '0' as u32 <= c as u32 <= '9' as u32 ==> {
            &&& digits(seq![c]) == Some((c as u32 - '0' as u32) as nat)
            &&& digits(s) matches Some(n) ==> digits(s.push(c)) == Some(
                (10 * n + (c as u32 - '0' as u32)) as nat,
            )
            &&& s.len() > 0 && digits(s) is None ==> digits(s.push(c)) is None
        },
        c as u32 > '9' as u32 || '0' as u32 > c as u32 ==> digits(s.push(c)) is None,
{
    lemma_one_more_digit(s, c);
    lemma_one_more_digit(Seq::empty(), c);
    assert(seq![c] =~= Seq::empty().push(c));
    assert(crate::text::digits_value(Seq::empty()) == 0);
}

/// An integer is a row of digits, or one with a sign in front; a minus sign makes it
/// negative.
pub proof fn law_signs(s: Seq<char>)
    ensures
        s.len() > 0 && s[0] != '+' && s[0] != '-' ==> integer(s) == match digits(s) {
            Some(n) => Some(n as int),
            None => None,
        },
        integer(seq!['+'] + s) == match digits(s) {
            Some(n) => Some(n as int),
            None => None,
        },
        integer(seq!['-'] + s) == match digits(s) {
            Some(n) => Some(-(n as int)),
            None => None,
        },
        integer(Seq::empty()) is None,
{
    assert((seq!['+'] + s).skip(1) =~= s);
    assert((seq!['-'] + s).skip(1) =~= s);
}

/// Reading a `u64`: a single digit is read as its value; a digit behind a number makes
/// ten times the number and the digit, if that is in range; a plus sign may lead; nothing
/// else is read.
pub proof fn law_read_u64(s: &str, t: &str, c: char, shorter: Option<u64>, longer: Option<u64>)
    requires
        call_ensures(parse_u64, (s,), shorter),
        t@ == s@.push(c),
        call_ensures(parse_u64, (t,), longer),
    ensures
        s@.len() == 0 || s@ == seq!['+'] ==> {
            &&& shorter is None
            &&& '0' as u32 <= c as u32 <= '9' as u32 ==> longer == Some(
                (c as u32 - '0' as u32) as u64,
            )
        },
        '0' as u32 > c as u32 || c as u32 > '9' as u32 ==> longer is None,
        shorter matches Some(n) ==> '0' as u32 <= c as u32 <= '9' as u32 ==> {
            let m = 10 * n + (c as u32 - '0' as u32);
            &&& m <= u64::MAX ==> longer == Some(m as u64)
            &&& m > u64::MAX ==> longer is None
        },
        shorter is None && s@.len() > 0 && s@ != seq!['+'] ==> longer is None,
{
    let plus = s@.len() > 0 && s@[0] == '+';
    let d = if plus {
        s@.skip(1)
    } else {
        s@
    };
    if s@.len() == 0 {
        assert(s@ =~= Seq::empty());
        assert(t@ =~= seq![c]);
        law_digits_are_positional(Seq::empty(), c);
        if c == '+' {
            assert(t@.skip(1) =~= Seq::empty());
        }
    } else {
        if plus {
            assert(t@.skip(1) =~= d.push(c));
            if d.len() == 0 {
                assert(d =~= Seq::empty());
                assert(s@ =~= seq!['+']);
                assert(d.push(c) =~= seq![c]);
            }
        }
        law_digits_are_positional(d, c);
        lemma_one_more_digit(d, c);
    }
}

/// Reading a `u32` is reading a `u64` that is in range.
pub proof fn law_read_u32(s: &str, narrow: Option<u32>, wide: Option<u64>)
    requires
        call_ensures(parse_u32, (s,), narrow),
        call_ensures(parse_u64, (s,), wide),
    ensures
        narrow matches Some(n) ==> wide == Some(n as u64),
        wide matches Some(n) ==> n <= u32::MAX ==> narrow == Some(n as u32),
{
}

/// Reading an `i32` without a minus sign is reading a `u64` that is in range.
pub proof fn law_read_positive_i32(s: &str, r: Option<i32>, wide: Option<u64>)
    requires
        s@.len() == 0 || s@[0] != '-',
        call_ensures(parse_i32, (s,), r),
        call_ensures(parse_u64, (s,), wide),
    ensures
        r matches Some(n) ==> n >= 0 && wide == Some(n as u64),
        wide matches Some(n) ==> n <= i32::MAX ==> r == Some(n as i32),
{
}

/// Reading an `i32` with a minus sign is reading the `u64` behind the sign, if no other
/// sign follows and the negative number is in range.
pub proof fn law_read_negative_i32(s: &str, amount: &str, r: Option<i32>, wide: Option<u64>)
    requires
        s@ == seq!['-'] + amount@,
        call_ensures(parse_i32, (s,), r),
        call_ensures(parse_u64, (amount,), wide),
    ensures
        r matches Some(n) ==> n <= 0 && wide == Some((-n) as u64),
        wide matches Some(n) ==> n <= 0x8000_0000 && amount@[0] != '+' ==> r == Some((-n) as i32),
        amount@.len() > 0 && amount@[0] == '+' ==> r is None,
{
    assert(s@.skip(1) =~= amount@);
    if amount@.len() > 0 && amount@[0] == '+' {
        assert(!crate::text::is_digit(amount@[0]));
    }
}

/// White space is what Unicode counts as such: tab to carriage return, the space, the next
/// line character, and the spaces and separators beyond.
pub proof fn law_white_space(c: char, b: bool)
    requires
        call_ensures(white_space, (c,), b),
    ensures
        c as u32 <= 0x7f ==> (b <==> c == ' ' || 9 <= c as u32 <= 13),
        0x80 <= c as u32 <= 0x1fff ==> (b <==> c as u32 == 0x85 || c as u32 == 0xa0 || c as u32
            == 0x1680),
        0x2000 <= c as u32 <= 0x20ff ==> (b <==> c as u32 <= 0x200a || c as u32 == 0x2028 || c
            as u32 == 0x2029 || c as u32 == 0x202f || c as u32 == 0x205f),
        c as u32 >= 0x2100 ==> (b <==> c as u32 == 0x3000),
        b == is_white_space(c),
{
}

/// Trimming takes off the white space at both ends and leaves what stands between.
pub proof fn law_trimmed_text(s: &str, left: Seq<char>, kept: Seq<char>, right: Seq<char>, r: &str)
    requires
        s@ == left + kept + right,
        forall|i: int| 0 <= i < left.len() ==> is_white_space(#[trigger] left[i]),
        forall|i: int| 0 <= i < right.len() ==> is_white_space(#[trigger] right[i]),
        kept.len() > 0 ==> !is_white_space(kept.first()) && !is_white_space(kept.last()),
        call_ensures(trim_text, (s,), r),
    ensures
        r@ == kept,
{
    crate::text::law_trim_takes_off_white_space(left, kept, right);
}

/// White space is trimmed off the end, and only there.
pub proof fn law_trim_end_takes_off_white_space(kept: Seq<char>, right: Seq<char>)
    requires
        forall|i: int| 0 <= i < right.len() ==> is_white_space(#[trigger] right[i]),
        kept.len() > 0 ==> !is_white_space(kept.last()),
    ensures
        trim_end(kept + right) == kept,
    decreases right.len(),
{
    if right.len() > 0 {
        assert((kept + right).last() == right[right.len() - 1]);
        assert((kept + right).drop_last() =~= kept + right.drop_last());
        law_trim_end_takes_off_white_space(kept, right.drop_last());
    } else {
        assert(kept + right =~= kept);
    }
}

/// Trimming the end takes off the white space there and leaves what stands before it.
pub proof fn law_end_trimmed_text(s: &str, kept: Seq<char>, right: Seq<char>, r: &str)
    requires
        s@ == kept + right,
        forall|i: int| 0 <= i < right.len() ==> is_white_space(#[trigger] right[i]),
        kept.len() > 0 ==> !is_white_space(kept.last()),
        call_ensures(trim_end_text, (s,), r),
    ensures
        r@ == kept,
{
    law_trim_end_takes_off_white_space(kept, right);
}

/// An ending is taken off a text that has it, once; any other text stays as it is.
pub proof fn law_stripped_ending(s: &str, ending: &str, kept: Seq<char>, r: &str)
    requires
        call_ensures(strip_ending, (s, ending), r),
    ensures
        s@ == kept + ending@ ==> r@ == kept,
        r@ == s@ || r@ + ending@ == s@,
{
    let n = s@.len() - ending@.len();
    if s@ == kept + ending@ {
        assert(s@.skip(n) =~= ending@);
        assert(s@.take(n) =~= kept);
    }
    if n >= 0 && s@.skip(n) == ending@ {
        assert(s@.take(n) + ending@ =~= s@);
    }
}

/// The fields of two texts with a comma between them are the fields of the one and then
/// the fields of the other.
pub proof fn law_fields_of_parts(
    a: &str,
    b: &str,
    s: &str,
    of_a: Vec<Vec<char>>,
    of_b: Vec<Vec<char>>,
    of_s: Vec<Vec<char>>,
    i: int,
)
    requires
        s@ == a@ + seq![','] + b@,
        call_ensures(fields, (a,), of_a),
        call_ensures(fields, (b,), of_b),
        call_ensures(fields, (s,), of_s),
    ensures
        of_s@.len() == of_a@.len() + of_b@.len(),
        0 <= i < of_a@.len() ==> of_s@[i]@ == of_a@[i]@,
        of_a@.len() <= i < of_s@.len() ==> of_s@[i]@ == of_b@[i - of_a@.len()]@,
{
    crate::text::law_pieces_of_parts(a@, b@, ',');
}

/// A text without a comma is a single field, without the white space at its ends.
pub proof fn law_single_field(s: &str, r: Vec<Vec<char>>, kept: &str)
    requires
        !s@.contains(','),
        call_ensures(fields, (s,), r),
        call_ensures(trim_text, (s,), kept),
    ensures
        r@.len() == 1,
        r@[0]@ == kept@,
{
    crate::text::law_single_piece(s@, ',');
}

/// The characters of a text are treated as the text is: they are the same word, trim to
/// the same and read as the same number.
pub proof fn law_characters(
    s: &str,
    word: &str,
    chars: Vec<char>,
    same: bool,
    kept: Vec<char>,
    kept_text: &str,
    read: Option<i32>,
    read_text: Option<i32>,
)
    requires
        call_ensures(chars_of, (s,), chars),
        call_ensures(is_word, (&chars, word), same),
        call_ensures(trimmed, (&chars,), kept),
        call_ensures(trim_text, (s,), kept_text),
        call_ensures(read_i32, (&chars,), read),
        call_ensures(parse_i32, (s,), read_text),
    ensures
        chars@ == s@,
        same <==> s@ == word@,
        kept@ == kept_text@,
        read == read_text,
{
}

/// Two texts are the same exactly where all their characters are.
pub proof fn law_same_text(a: &str, b: &str, same: bool)
    requires
        call_ensures(same_text, (a, b), same),
    ensures
        same <==> a@.len() == b@.len() && forall|i: int|
            0 <= i < a@.len() ==> #[trigger] a@[i] == b@[i],
{
    if a@.len() == b@.len() && (forall|i: int| 0 <= i < a@.len() ==> #[trigger] a@[i] == b@[i]) {
        assert(a@ =~= b@);
    }
}

} // verus!
