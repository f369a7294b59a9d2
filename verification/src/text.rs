//! Text: lists separated by commas, white space, and decimal numbers.

use vstd::prelude::*;

verus! {

/// The characters that Unicode counts as white space.
pub open spec fn is_white_space(c: char) -> bool {
    let n = c as u32;
    ||| 0x9 <= n <= 0xd
    ||| n == 0x20
    ||| n == 0x85
    ||| n == 0xa0
    ||| n == 0x1680
    ||| 0x2000 <= n <= 0x200a
    ||| n == 0x2028
    ||| n == 0x2029
    ||| n == 0x202f
    ||| n == 0x205f
    ||| n == 0x3000
}

/// The text without white space at its ends.
pub open spec fn trim(s: Seq<char>) -> Seq<char>
    decreases s.len(),
{
    if s.len() == 0 {
        s
    } else if is_white_space(s.first()) {
        trim(s.drop_first())
    } else if is_white_space(s.last()) {
        trim(s.drop_last())
    } else {
        s
    }
}

/// The pieces of the text between the separators: one more than there are
/// separators.
pub open spec fn pieces(s: Seq<char>, sep: char) -> Seq<Seq<char>>
    decreases s.len(),
{
    if s.len() == 0 {
        seq![Seq::empty()]
    } else {
        let before = pieces(s.drop_last(), sep);
        if s.last() == sep {
            before.push(Seq::empty())
        } else {
            before.drop_last().push(before.last().push(s.last()))
        }
    }
}

pub open spec fn is_digit(c: char) -> bool {
    0x30 <= c as u32 <= 0x39
}

pub open spec fn all_digits(s: Seq<char>) -> bool {
    forall|i: int| 0 <= i < s.len() ==> is_digit(#[trigger] s[i])
}

/// The number that a row of decimal digits stands for.
pub open spec fn digits_value(s: Seq<char>) -> nat
    decreases s.len(),
{
    if s.len() == 0 {
        0
    } else {
        digits_value(s.drop_last()) * 10 + (s.last() as u32 - 0x30) as nat
    }
}

/// The number that a text stands for, if it is one or more decimal digits and
/// nothing else.
pub open spec fn digits(s: Seq<char>) -> Option<nat> {
    if s.len() > 0 && all_digits(s) {
        Some(digits_value(s))
    } else {
        None
    }
}

/// The natural number that a text stands for. A plus sign may lead.
pub open spec fn natural(s: Seq<char>) -> Option<nat> {
    if s.len() > 0 && s[0] == '+' {
        digits(s.skip(1))
    } else {
        digits(s)
    }
}

/// The integer that a text stands for. A plus or a minus sign may lead.
pub open spec fn integer(s: Seq<char>) -> Option<int> {
    if s.len() > 0 && s[0] == '-' {
        match digits(s.skip(1)) {
            Some(n) => Some(-(n as int)),
            None => None,
        }
    } else {
        match natural(s) {
            Some(n) => Some(n as int),
            None => None,
        }
    }
}

/// The integer that a text stands for, if an `i32` holds it.
pub open spec fn integer_i32(s: Seq<char>) -> Option<i32> {
    match integer(s) {
        Some(n) => if i32::MIN <= n <= i32::MAX {
            Some(n as i32)
        } else {
            None
        },
        None => None,
    }
}

/// The natural number that a text stands for, if it is at most `limit`.
pub open spec fn natural_upto(s: Seq<char>, limit: u64) -> Option<u64> {
    match natural(s) {
        Some(n) => if n <= limit {
            Some(n as u64)
        } else {
            None
        },
        None => None,
    }
}

/// The decimal digit for a number below ten.
pub open spec fn digit(d: int) -> char {
    (0x30 + d) as char
}

/// The decimal digits of a number, without leading zeros.
pub open spec fn decimal(n: nat) -> Seq<char>
    decreases n,
{
    if n < 10 {
        seq![digit(n as int)]
    } else {
        decimal(n / 10).push(digit((n % 10) as int))
    }
}

/// The decimal digits of an integer, with a minus sign in front where it is negative.
pub open spec fn decimal_int(n: int) -> Seq<char> {
    if n < 0 {
        seq!['-'] + decimal((-n) as nat)
    } else {
        decimal(n as nat)
    }
}

/// The characters of a text.
pub fn chars_of(s: &str) -> (chars: Vec<char>)
    ensures
        chars@ == s@,
{
    let mut chars: Vec<char> = Vec::new();
    for c in it: s.chars()
        invariant
            it.seq() == s@,
            chars@ == s@.take(it.index() as int),
    {
        chars.push(c);
    }
    assert(s@.take(s@.len() as int) =~= s@);
    chars
}

/// Whether the characters make up this word.
pub fn is_word(chars: &Vec<char>, word: &str) -> (b: bool)
    ensures
        b == (chars@ == word@),
{
    let other = chars_of(word);
    if chars.len() != other.len() {
        return false;
    }
    let mut i: usize = 0;
    while i < chars.len()
        invariant
            i <= chars@.len(),
            chars@.len() == other@.len(),
            chars@.take(i as int) =~= other@.take(i as int),
            other@ == word@,
        decreases chars.len() - i,
    {
        if chars[i] != other[i] {
            assert(chars@[i as int] != word@[i as int]);
            return false;
        }
        i += 1;
    }
    assert(chars@ =~= chars@.take(i as int));
    assert(other@ =~= other@.take(i as int));
    true
}

/// Whether two texts are the same.
pub fn same_text(a: &str, b: &str) -> (same: bool)
    ensures
        same == (a@ == b@),
{
    is_word(&chars_of(a), b)
}

/// Whether the character is white space.
pub fn white_space(c: char) -> (b: bool)
    ensures
        b == is_white_space(c),
{
    let n: u32 = c as u32;
    (0x9 <= n && n <= 0xd) || n == 0x20 || n == 0x85 || n == 0xa0 || n == 0x1680 || (0x2000 <= n
        && n <= 0x200a) || n == 0x2028 || n == 0x2029 || n == 0x202f || n == 0x205f || n == 0x3000
}

/// Where the text without white space at its ends starts and ends.
fn trim_range(chars: &Vec<char>) -> (r: (usize, usize))
    ensures
        r.0 <= r.1 <= chars@.len(),
        chars@.subrange(r.0 as int, r.1 as int) == trim(chars@),
{
    let mut lo: usize = 0;
    let mut hi: usize = chars.len();
    assert(chars@.subrange(0, hi as int) =~= chars@);
    while lo < hi && white_space(chars[lo])
        invariant
            lo <= hi == chars@.len(),
            trim(chars@.subrange(lo as int, hi as int)) == trim(chars@),
        decreases hi - lo,
    {
        assert(chars@.subrange(lo as int, hi as int).drop_first() =~= chars@.subrange(
            lo + 1,
            hi as int,
        ));
        lo += 1;
    }
    while lo < hi && white_space(chars[hi - 1])
        invariant
            lo <= hi <= chars@.len(),
            lo < hi ==> !is_white_space(chars@[lo as int]),
            trim(chars@.subrange(lo as int, hi as int)) == trim(chars@),
        decreases hi - lo,
    {
        assert(chars@.subrange(lo as int, hi as int).drop_last() =~= chars@.subrange(
            lo as int,
            hi - 1,
        ));
        hi -= 1;
    }
    (lo, hi)
}

/// Takes the white space off both ends.
pub fn trimmed(chars: &Vec<char>) -> (r: Vec<char>)
    ensures
        r@ == trim(chars@),
{
    let (lo, hi) = trim_range(chars);
    let mut r: Vec<char> = Vec::new();
    let mut i: usize = lo;
    while i < hi
        invariant
            lo <= i <= hi <= chars@.len(),
            r@ == chars@.subrange(lo as int, i as int),
        decreases hi - i,
    {
        r.push(chars[i]);
        i += 1;
    }
    r
}

/// Takes the white space off both ends of a text.
pub fn trim_text(s: &str) -> (r: &str)
    ensures
        r@ == trim(s@),
{
    let (lo, hi) = trim_range(&chars_of(s));
    s.substring_char(lo, hi)
}

/// The text without white space at its end.
pub open spec fn trim_end(s: Seq<char>) -> Seq<char>
    decreases s.len(),
{
    if s.len() > 0 && is_white_space(s.last()) {
        trim_end(s.drop_last())
    } else {
        s
    }
}

/// Takes the white space off the end of a text.
pub fn trim_end_text(s: &str) -> (r: &str)
    ensures
        r@ == trim_end(s@),
{
    let chars = chars_of(s);
    let mut hi: usize = chars.len();
    assert(chars@.take(hi as int) =~= chars@);
    while hi > 0 && white_space(chars[hi - 1])
        invariant
            hi <= chars@.len(),
            trim_end(chars@.take(hi as int)) == trim_end(chars@),
        decreases hi,
    {
        assert(chars@.take(hi as int).drop_last() =~= chars@.take(hi - 1));
        hi -= 1;
    }
    s.substring_char(0, hi)
}

/// The text without a certain ending, if it has it.
pub open spec fn without_ending(s: Seq<char>, ending: Seq<char>) -> Seq<char> {
    let n = s.len() - ending.len();
    if n >= 0 && s.skip(n) == ending {
        s.take(n)
    } else {
        s
    }
}

/// Takes a certain ending off a text, if it has it.
pub fn strip_ending<'a>(s: &'a str, ending: &str) -> (r: &'a str)
    ensures
        r@ == without_ending(s@, ending@),
{
    let chars = chars_of(s);
    let tail = chars_of(ending);
    let len: usize = chars.len();
    if len < tail.len() {
        return s;
    }
    let n: usize = len - tail.len();
    let mut i: usize = 0;
    while i < tail.len()
        invariant
            i <= tail@.len(),
            n + tail@.len() == len == chars@.len(),
            chars@ == s@,
            tail@ == ending@,
            chars@.subrange(n as int, n + i) =~= tail@.take(i as int),
        decreases tail.len() - i,
    {
        if chars[n + i] != tail[i] {
            assert(s@.skip(n as int)[i as int] != ending@[i as int]);
            return s;
        }
        i += 1;
    }
    assert(s@.skip(n as int) =~= chars@.subrange(n as int, n + i));
    assert(ending@ =~= tail@.take(i as int));
    s.substring_char(0, n)
}

/// The pieces of a list separated by commas, each without white space at its ends.
pub fn fields(s: &str) -> (r: Vec<Vec<char>>)
    ensures
        r@.len() == pieces(s@, ',').len(),
        forall|i: int| 0 <= i < r@.len() ==> (#[trigger] r@[i])@ == trim(pieces(s@, ',')[i]),
{
    let chars = chars_of(s);
    let mut r: Vec<Vec<char>> = Vec::new();
    let mut piece: Vec<char> = Vec::new();
    let mut i: usize = 0;
    assert(chars@.take(0) =~= Seq::empty());
    while i < chars.len()
        invariant
            i <= chars@.len(),
            pieces(chars@.take(i as int), ',').len() == r@.len() + 1,
            pieces(chars@.take(i as int), ',').last() == piece@,
            forall|k: int|
                0 <= k < r@.len() ==> (#[trigger] r@[k])@ == trim(
                    pieces(chars@.take(i as int), ',')[k],
                ),
        decreases chars.len() - i,
    {
        assert(chars@.take(i + 1).drop_last() =~= chars@.take(i as int));
        if chars[i] == ',' {
            r.push(trimmed(&piece));
            piece = Vec::new();
        } else {
            piece.push(chars[i]);
        }
        i += 1;
    }
    assert(chars@.take(i as int) =~= s@);
    r.push(trimmed(&piece));
    r
}

/// Reads a list separated by commas, piece by piece, and passes over what `read`
/// makes nothing of. `value` says what a piece stands for.
pub(crate) fn read_fields<F: Fn(&Vec<char>) -> Option<i32>>(
    s: &str,
    read: F,
    Ghost(value): Ghost<spec_fn(Seq<char>) -> Option<i32>>,
) -> (list: Vec<i32>)
    requires
        forall|word: &Vec<char>| call_requires(read, (word,)),
        forall|word: &Vec<char>, piece: Seq<char>, r: Option<i32>|
            #![trigger call_ensures(read, (word,), r), value(piece)]
            call_ensures(read, (word,), r) && word@ == trim(piece) ==> r == value(piece),
    ensures
        list@ == pieces(s@, ',').filter_map(value),
{
    let words = fields(s);
    let mut list: Vec<i32> = Vec::new();
    let ghost all = pieces(s@, ',');
    let mut i: usize = 0;
    assert(all.take(0) =~= Seq::empty());
    while i < words.len()
        invariant
            i <= words@.len() == all.len(),
            forall|k: int| 0 <= k < words@.len() ==> (#[trigger] words@[k])@ == trim(all[k]),
            forall|word: &Vec<char>| call_requires(read, (word,)),
            forall|word: &Vec<char>, piece: Seq<char>, r: Option<i32>|
                #![trigger call_ensures(read, (word,), r), value(piece)]
                call_ensures(read, (word,), r) && word@ == trim(piece) ==> r == value(piece),
            list@ == all.take(i as int).filter_map(value),
        decreases words.len() - i,
    {
        assert(all.take(i + 1).drop_last() =~= all.take(i as int));
        let found = read(&words[i]);
        assert(found == value(all[i as int]));
        match found {
            Some(n) => list.push(n),
            None => {},
        }
        i += 1;
    }
    assert(all.take(i as int) =~= all);
    list
}

proof fn lemma_prefix_value(s: Seq<char>, i: int)
    requires
        0 <= i <= s.len(),
    ensures
        digits_value(s.take(i)) <= digits_value(s),
    decreases s.len() - i,
{
    if i < s.len() {
        lemma_prefix_value(s, i + 1);
        assert(s.take(i + 1).drop_last() =~= s.take(i));
    } else {
        assert(s.take(i) =~= s);
    }
}

/// Reads decimal digits from position `from` to the end, up to `limit`.
fn read_digits(chars: &Vec<char>, from: usize, limit: u64) -> (r: Option<u64>)
    requires
        from <= chars@.len(),
    ensures
        r == match digits(chars@.skip(from as int)) {
            Some(n) => if n <= limit {
                Some(n as u64)
            } else {
                None
            },
            None => None::<u64>,
        },
{
    let ghost s = chars@.skip(from as int);
    if from == chars.len() {
        return None;
    }
    let mut value: u64 = 0;
    let mut i: usize = from;
    assert(s.take(0) =~= Seq::empty());
    while i < chars.len()
        invariant
            from <= i <= chars@.len(),
            s == chars@.skip(from as int),
            all_digits(s.take(i - from)),
            value == digits_value(s.take(i - from)),
            value <= limit,
        decreases chars.len() - i,
    {
        let code: u32 = chars[i] as u32;
        assert(s[i - from] == chars@[i as int]);
        if code < 0x30 || code > 0x39 {
            assert(!is_digit(s[i - from]));
            return None;
        }
        let next: u128 = value as u128 * 10 + (code - 0x30) as u128;
        proof {
            let longer = s.take(i + 1 - from);
            assert(longer.drop_last() =~= s.take(i - from));
            assert(longer.last() == s[i - from]);
            assert(digits_value(longer) == next);
            assert forall|k: int| 0 <= k < longer.len() implies is_digit(#[trigger] longer[k]) by {
                if k < i - from {
                    assert(s.take(i - from)[k] == longer[k]);
                }
            }
            lemma_prefix_value(s, i + 1 - from);
        }
        if next > limit as u128 {
            return None;
        }
        value = next as u64;
        i += 1;
    }
    assert(s.take(i - from) =~= s);
    Some(value)
}

/// Reads a natural number of at most `limit`.
fn read_natural(chars: &Vec<char>, limit: u64) -> (r: Option<u64>)
    ensures
        r == natural_upto(chars@, limit),
{
    assert(chars@.skip(0) =~= chars@);
    if chars.len() > 0 && chars[0] == '+' {
        read_digits(chars, 1, limit)
    } else {
        read_digits(chars, 0, limit)
    }
}

/// Reads an `i32`.
pub fn read_i32(chars: &Vec<char>) -> (r: Option<i32>)
    ensures
        r == integer_i32(chars@),
{
    if chars.len() > 0 && chars[0] == '-' {
        match read_digits(chars, 1, 0x8000_0000) {
            Some(n) => Some((-(n as i64)) as i32),
            None => None,
        }
    } else {
        match read_natural(chars, 0x7fff_ffff) {
            Some(n) => Some(n as i32),
            None => None,
        }
    }
}

/// Reads an `i32` from a text that holds it and nothing else.
pub fn parse_i32(s: &str) -> (r: Option<i32>)
    ensures
        r == integer_i32(s@),
{
    read_i32(&chars_of(s))
}

/// Reads a `u32` from a text that holds it and nothing else.
pub fn parse_u32(s: &str) -> (r: Option<u32>)
    ensures
        r == match natural_upto(s@, u32::MAX as u64) {
            Some(n) => Some(n as u32),
            None => None,
        },
{
    match read_natural(&chars_of(s), u32::MAX as u64) {
        Some(n) => Some(n as u32),
        None => None,
    }
}

/// Reads a `u64` from a text that holds it and nothing else.
pub fn parse_u64(s: &str) -> (r: Option<u64>)
    ensures
        r == natural_upto(s@, u64::MAX),
{
    read_natural(&chars_of(s), u64::MAX)
}

/// Appends one decimal digit.
fn push_digit(out: &mut String, d: u8)
    requires
        d < 10,
    ensures
        final(out)@ == old(out)@.push(digit(d as int)),
{
    proof {
        reveal_strlit("0");
        reveal_strlit("1");
        reveal_strlit("2");
        reveal_strlit("3");
        reveal_strlit("4");
        reveal_strlit("5");
        reveal_strlit("6");
        reveal_strlit("7");
        reveal_strlit("8");
        reveal_strlit("9");
    }
    let text = match d {
        0 => "0",
        1 => "1",
        2 => "2",
        3 => "3",
        4 => "4",
        5 => "5",
        6 => "6",
        7 => "7",
        8 => "8",
        _ => "9",
    };
    assert(text@ =~= seq![digit(d as int)]);
    out.append(text);
}

/// Appends a number in decimal.
pub fn push_decimal(out: &mut String, n: u128)
    ensures
        final(out)@ == old(out)@ + decimal(n as nat),
    decreases n,
{
    if n >= 10 {
        push_decimal(out, n / 10);
    }
    push_digit(out, (n % 10) as u8);
}

/// Appends an integer in decimal.
pub fn push_decimal_i32(out: &mut String, n: i32)
    ensures
        final(out)@ == old(out)@ + decimal_int(n as int),
{
    if n < 0 {
        proof {
            reveal_strlit("-");
        }
        assert("-"@ =~= seq!['-']);
        out.append("-");
        push_decimal(out, (-(n as i64)) as u128);
    } else {
        push_decimal(out, n as u128);
    }
}

/// A text with a separator in it splits into the pieces before and the pieces after.
pub proof fn law_pieces_of_parts(a: Seq<char>, b: Seq<char>, sep: char)
    ensures
        pieces(a + seq![sep] + b, sep) == pieces(a, sep) + pieces(b, sep),
        pieces(b, sep).len() > 0,
    decreases b.len(),
{
    let s = a + seq![sep] + b;
    if b.len() == 0 {
        assert(s.drop_last() =~= a);
        assert(s.last() == sep);
        assert(pieces(s, sep) =~= pieces(a, sep) + pieces(b, sep));
    } else {
        let shorter = b.drop_last();
        law_pieces_of_parts(a, shorter, sep);
        assert(s.drop_last() =~= a + seq![sep] + shorter);
        assert(s.last() == b.last());
        assert(pieces(s, sep) =~= pieces(a, sep) + pieces(b, sep));
    }
}

/// A text without a separator in it is its only piece.
pub proof fn law_single_piece(s: Seq<char>, sep: char)
    requires
        !s.contains(sep),
    ensures
        pieces(s, sep) == seq![s],
    decreases s.len(),
{
    if s.len() > 0 {
        assert(s[s.len() - 1] == s.last());
        assert forall|i: int| 0 <= i < s.len() - 1 implies s.drop_last()[i] != sep by {
            assert(s[i] != sep);
        }
        law_single_piece(s.drop_last(), sep);
        assert(s.drop_last().push(s.last()) =~= s);
        assert(pieces(s, sep) =~= seq![s]);
    } else {
        assert(s =~= Seq::empty());
    }
}

/// White space around a text that neither starts nor ends with any is trimmed off.
pub proof fn law_trim_takes_off_white_space(left: Seq<char>, s: Seq<char>, right: Seq<char>)
    requires
        forall|i: int| 0 <= i < left.len() ==> is_white_space(#[trigger] left[i]),
        forall|i: int| 0 <= i < right.len() ==> is_white_space(#[trigger] right[i]),
        s.len() > 0 ==> !is_white_space(s.first()) && !is_white_space(s.last()),
    ensures
        trim(left + s + right) == s,
    decreases left.len() + right.len(),
{
    let all = left + s + right;
    if left.len() > 0 {
        assert(all.first() == left[0]);
        assert(all.drop_first() =~= left.drop_first() + s + right);
        law_trim_takes_off_white_space(left.drop_first(), s, right);
    } else if right.len() > 0 {
        if s.len() > 0 {
            assert(all.first() == s.first());
            assert(all.last() == right[right.len() - 1]);
            assert(all.drop_last() =~= left + s + right.drop_last());
            law_trim_takes_off_white_space(left, s, right.drop_last());
        } else {
            assert(all.first() == right[0]);
            assert(all.drop_first() =~= left + s + right.drop_first());
            law_trim_takes_off_white_space(left, s, right.drop_first());
        }
    } else {
        assert(all =~= s);
    }
}

/// A trimmed text neither starts nor ends with white space.
pub proof fn law_trimmed_has_no_white_space_at_its_ends(s: Seq<char>)
    ensures
        trim(s).len() > 0 ==> !is_white_space(trim(s).first()) && !is_white_space(trim(s).last()),
        trim(trim(s)) == trim(s),
    decreases s.len(),
{
    if s.len() > 0 {
        law_trimmed_has_no_white_space_at_its_ends(s.drop_first());
        law_trimmed_has_no_white_space_at_its_ends(s.drop_last());
    }
}

/// The decimal digits of a number are digits, and stand for the number.
pub proof fn law_decimal_reads_back(n: nat)
    ensures
        natural(decimal(n)) == Some(n),
        digits(decimal(n)) == Some(n),
    decreases n,
{
    let d = digit((n % 10) as int);
    assert(d as u32 == 0x30 + n % 10);
    let s = decimal(n);
    if n < 10 {
        assert(s.drop_last() =~= Seq::empty());
        assert(digits_value(s.drop_last()) == 0);
        assert(n % 10 == n);
        assert(digits_value(s) == n);
    } else {
        law_decimal_reads_back(n / 10);
        assert(s.drop_last() =~= decimal(n / 10));
        assert(digits_value(s) == n);
        assert forall|i: int| 0 <= i < s.len() implies is_digit(#[trigger] s[i]) by {
            if i < s.len() - 1 {
                assert(decimal(n / 10)[i] == s[i]);
            }
        }
    }
    assert(is_digit(s[0]));
}

/// An integer written in decimal reads back as itself, and holds no comma.
pub proof fn law_decimal_int_reads_back(n: int)
    ensures
        integer(decimal_int(n)) == Some(n),
        !decimal_int(n).contains(','),
{
    let m: nat = if n < 0 {
        (-n) as nat
    } else {
        n as nat
    };
    let s = decimal_int(n);
    law_decimal_reads_back(m);
    if n < 0 {
        assert(s.skip(1) =~= decimal(m));
    } else {
        assert(is_digit(s[0]));
    }
    if s.contains(',') {
        let i = choose|i: int| 0 <= i < s.len() && s[i] == ',';
        if n < 0 && i > 0 {
            assert(is_digit(decimal(m)[i - 1]));
        } else if n >= 0 {
            assert(is_digit(decimal(m)[i]));
        }
    }
}

} // verus!
