//! Decimal numbers and separated lists in text.

use crate::error::ProtocolError;
use vstd::prelude::*;

verus! {

/// The version of the protocol that this server speaks.
pub const TUS_VERSION: &'static str = "1.0.0";

pub open spec fn is_digit(c: char) -> bool {
    '0' <= c <= '9'
}

pub open spec fn digit(d: nat) -> char {
    (48 + d) as char
}

/// The decimal representation of a number, without leading zeros.
pub open spec fn decimal(n: nat) -> Seq<char>
    decreases n,
{
    if n < 10 {
        seq![digit(n)]
    } else {
        decimal(n / 10).push(digit(n % 10))
    }
}

/// The number that a row of digits stands for.
pub open spec fn digits_value(s: Seq<char>) -> nat
    decreases s.len(),
{
    if s.len() == 0 {
        0
    } else {
        digits_value(s.drop_last()) * 10 + (s.last() as nat - 48) as nat
    }
}

pub open spec fn all_digits(s: Seq<char>) -> bool {
    forall|i: int| 0 <= i < s.len() ==> is_digit(#[trigger] s[i])
}

/// The digits of a number after an optional plus sign.
pub open spec fn unsigned_part(s: Seq<char>) -> Seq<char> {
    if s.len() > 0 && s[0] == '+' {
        s.drop_first()
    } else {
        s
    }
}

/// The 64 bit number that a text stands for: digits, at least one, that may
/// follow a plus sign.
pub open spec fn u64_value(s: Seq<char>) -> Option<u64> {
    let digits = unsigned_part(s);
    if digits.len() > 0 && all_digits(digits) && digits_value(digits) <= u64::MAX {
        Some(digits_value(digits) as u64)
    } else {
        None
    }
}

/// A decimal number is read back as it was written.
pub proof fn lemma_decimal_read_back(n: u64)
    ensures
        u64_value(decimal(n as nat)) == Some(n),
{
    lemma_decimal_digits(n as nat);
    let d = decimal(n as nat);
    assert(is_digit(d[0]));
    assert(unsigned_part(d) == d);
}

/// A decimal representation consists of digits, and stands for its number.
pub proof fn lemma_decimal_digits(n: nat)
    ensures
        decimal(n).len() > 0,
        all_digits(decimal(n)),
        digits_value(decimal(n)) == n,
    decreases n,
{
    if n < 10 {
        assert(decimal(n).drop_last() =~= Seq::<char>::empty());
        assert(digits_value(decimal(n).drop_last()) == 0);
        assert(digits_value(decimal(n)) == n);
    } else {
        lemma_decimal_digits(n / 10);
        assert(decimal(n).drop_last() =~= decimal(n / 10));
        assert(decimal(n).last() == digit(n % 10));
    }
}

proof fn lemma_digits_value_prefix(s: Seq<char>, n: int)
    requires
        0 <= n <= s.len(),
    ensures
        digits_value(s.take(n)) <= digits_value(s),
    decreases s.len(),
{
    if n == s.len() {
        assert(s.take(n) =~= s);
    } else {
        assert(s.take(n) =~= s.drop_last().take(n));
        lemma_digits_value_prefix(s.drop_last(), n);
    }
}

fn digit_text(d: u64) -> (text: &'static str)
    requires
        d < 10,
    ensures
        text@ == seq![digit(d as nat)],
{
    proof {
        reveal_strlit("0");
        reveal_strlit("1");
        reveal_strlit("2");
        reveal_strlit("3");
        reveal_strlit("4");
        reveal_strlit("5");
        reveal_strlit("6");
        reveal_strlit("7");
        reveal_strlit("8");
        reveal_strlit("9");
    }
    let text = match d {
        0 => "0",
        1 => "1",
        2 => "2",
        3 => "3",
        4 => "4",
        5 => "5",
        6 => "6",
        7 => "7",
        8 => "8",
        _ => "9",
    };
    assert(text@ =~= seq![digit(d as nat)]);
    text
}

/// Writes a number in decimal.
pub fn decimal_text(n: u64) -> (text: String)
    ensures
        text@ == decimal(n as nat),
    decreases n,
{
    if n < 10 {
        digit_text(n).to_owned()
    } else {
        let mut text = decimal_text(n / 10);
        text.append(digit_text(n % 10));
        assert(text@ =~= decimal(n as nat));
        text
    }
}

/// The characters of a text.
pub(crate) fn chars_of(text: &str) -> (chars: Vec<char>)
    ensures
        chars@ == text@,
{
    let mut chars: Vec<char> = Vec::new();
    for c in it: text.chars()
        invariant
            it.seq() == text@,
            chars@ == text@.take(it.index() as int),
    {
        chars.push(c);
        assert(chars@ =~= text@.take(it.index() + 1));
    }
    assert(chars@ =~= text@);
    chars
}

/// Reads a decimal number.
pub fn read_u64(text: &str) -> (value: Option<u64>)
    ensures
        value == u64_value(text@),
{
    let chars = chars_of(text);
    let len = chars.len();
    let mut i: usize = 0;
    if len > 0 && chars[0] == '+' {
        i = 1;
    }
    if i == len {
        return None;
    }
    let ghost digits = unsigned_part(text@);
    let ghost start = i as int;
    assert(digits =~= text@.skip(start));
    let mut value: u64 = 0;
    assert(digits.take(0) =~= Seq::<char>::empty());
    while i < len
        invariant
            chars@ == text@,
            len == chars.len(),
            0 <= start <= i <= len,
            digits == text@.skip(start),
            digits == unsigned_part(text@),
            all_digits(digits.take(i - start)),
            value == digits_value(digits.take(i - start)),
        decreases len - i,
    {
        let c = chars[i];
        let ghost before = digits.take(i - start);
        let ghost after = digits.take(i + 1 - start);
        assert(c == digits[i - start]);
        assert(after.drop_last() =~= before);
        assert(after.last() == c);
        if !('0' <= c && c <= '9') {
            return None;
        }
        let d: u64 = (c as u32 - 48) as u64;
        proof {
            lemma_digits_value_prefix(digits, i + 1 - start);
        }
        value = match value.checked_mul(10) {
            Some(scaled) => match scaled.checked_add(d) {
                Some(sum) => sum,
                None => {
                    return None;
                },
            },
            None => {
                return None;
            },
        };
        assert forall|k: int| 0 <= k < after.len() implies is_digit(#[trigger] after[k]) by {
            if k < before.len() {
                assert(after[k] == before[k]);
            }
        }
        i += 1;
    }
    assert(digits.take(i - start) =~= digits);
    Some(value)
}

/// Reads the number in a header field.
pub fn parse_u64(text: Option<&str>, name: &'static str) -> (value: Result<u64, ProtocolError>)
    ensures
        value == parsed_u64(crate::headers::opt_view(text), name),
{
    match text {
        Some(text) => match read_u64(text) {
            Some(value) => Ok(value),
            None => Err(ProtocolError::InvalidInt(name)),
        },
        None => Err(ProtocolError::MissingHeader(name)),
    }
}

/// What the text of a header field says of a number.
pub open spec fn parsed_u64(text: Option<Seq<char>>, name: &'static str) -> Result<
    u64,
    ProtocolError,
> {
    match text {
        Some(text) => match u64_value(text) {
            Some(value) => Ok(value),
            None => Err(ProtocolError::InvalidInt(name)),
        },
        None => Err(ProtocolError::MissingHeader(name)),
    }
}

/// The texts of a list.
pub open spec fn texts(list: Seq<&str>) -> Seq<Seq<char>> {
    list.map_values(|t: &str| t@)
}

/// The pieces of a text between the occurrences of a separator; a text without
/// the separator is one piece.
pub open spec fn split_on(s: Seq<char>, sep: char) -> Seq<Seq<char>>
    decreases s.len(),
{
    if s.len() == 0 {
        seq![Seq::<char>::empty()]
    } else {
        let pieces = split_on(s.drop_last(), sep);
        if s.last() == sep {
            pieces.push(Seq::<char>::empty())
        } else {
            pieces.drop_last().push(pieces.last().push(s.last()))
        }
    }
}

/// The texts of a list in one, with a separator between each two of them.
pub open spec fn joined(list: Seq<Seq<char>>, sep: Seq<char>) -> Seq<char>
    decreases list.len(),
{
    if list.len() == 0 {
        Seq::empty()
    } else if list.len() == 1 {
        list[0]
    } else {
        joined(list.drop_last(), sep) + sep + list.last()
    }
}

pub proof fn lemma_split_nonempty(s: Seq<char>, sep: char)
    ensures
        split_on(s, sep).len() > 0,
    decreases s.len(),
{
    if s.len() > 0 {
        lemma_split_nonempty(s.drop_last(), sep);
    }
}

/// A text without the separator is a single piece.
pub proof fn lemma_split_without_separator(s: Seq<char>, sep: char)
    requires
        !s.contains(sep),
    ensures
        split_on(s, sep) == seq![s],
    decreases s.len(),
{
    if s.len() == 0 {
        assert(s =~= Seq::<char>::empty());
    } else {
        assert forall|k: int| 0 <= k < s.drop_last().len() implies s.drop_last()[k] != sep by {
            assert(s.contains(s[k]));
        }
        lemma_split_without_separator(s.drop_last(), sep);
        assert(s.contains(s.last()));
        assert(s.drop_last().push(s.last()) =~= s);
        assert(split_on(s, sep) =~= seq![s]);
    }
}

/// Splitting at a separator that stands between two texts splits both.
pub proof fn lemma_split_between(a: Seq<char>, b: Seq<char>, sep: char)
    ensures
        split_on(a + seq![sep] + b, sep) == split_on(a, sep) + split_on(b, sep),
    decreases b.len(),
{
    let s = a + seq![sep] + b;
    lemma_split_nonempty(a, sep);
    lemma_split_nonempty(b, sep);
    if b.len() == 0 {
        assert(s.drop_last() =~= a);
        assert(split_on(s, sep) =~= split_on(a, sep) + split_on(b, sep));
    } else {
        assert(s.drop_last() =~= a + seq![sep] + b.drop_last());
        assert(s.last() == b.last());
        lemma_split_between(a, b.drop_last(), sep);
        lemma_split_nonempty(b.drop_last(), sep);
        assert(split_on(s, sep) =~= split_on(a, sep) + split_on(b, sep));
    }
}

/// The pieces of a split text, joined by the separator, are the text.
pub proof fn lemma_split_joined(s: Seq<char>, sep: char)
    ensures
        joined(split_on(s, sep), seq![sep]) == s,
    decreases s.len(),
{
    if s.len() > 0 {
        let c = s.last();
        let pieces = split_on(s.drop_last(), sep);
        lemma_split_joined(s.drop_last(), sep);
        lemma_split_nonempty(s.drop_last(), sep);
        let all = split_on(s, sep);
        if c == sep {
            assert(all.drop_last() =~= pieces);
            assert(joined(all, seq![sep]) =~= s);
        } else {
            assert(all.drop_last() =~= pieces.drop_last());
            assert(all.last() == pieces.last().push(c));
            assert(joined(all, seq![sep]) =~= joined(pieces, seq![sep]).push(c));
            assert(joined(all, seq![sep]) =~= s);
        }
    } else {
        assert(s =~= Seq::<char>::empty());
    }
}

/// The first piece begins as the text does, unless the text begins with the
/// separator.
pub proof fn lemma_split_first_piece(s: Seq<char>, sep: char)
    requires
        s.len() > 0,
    ensures
        split_on(s, sep).len() > 0,
        s[0] == sep ==> split_on(s, sep)[0].len() == 0,
        s[0] != sep ==> split_on(s, sep)[0].len() > 0 && split_on(s, sep)[0][0] == s[0],
    decreases s.len(),
{
    lemma_split_nonempty(s.drop_last(), sep);
    if s.len() > 1 {
        lemma_split_first_piece(s.drop_last(), sep);
        if s[0] == sep && s.last() != sep && split_on(s.drop_last(), sep).len() == 1 {
            lemma_split_joined(s.drop_last(), sep);
        }
    } else {
        assert(s.drop_last() =~= Seq::<char>::empty());
    }
}

/// Splits a text at every occurrence of a separator.
pub fn split_text<'a>(text: &'a str, sep: char) -> (pieces: Vec<&'a str>)
    ensures
        texts(pieces@) == split_on(text@, sep),
{
    let chars = chars_of(text);
    let len = chars.len();
    let mut pieces: Vec<&'a str> = Vec::new();
    let mut start: usize = 0;
    let mut i: usize = 0;
    assert(text@.subrange(0, 0) =~= Seq::<char>::empty());
    assert(texts(pieces@).push(text@.subrange(0, 0)) =~= split_on(text@.take(0), sep));
    while i < len
        invariant
            chars@ == text@,
            len == chars.len(),
            start <= i <= len,
            texts(pieces@).push(text@.subrange(start as int, i as int)) == split_on(
                text@.take(i as int),
                sep,
            ),
        decreases len - i,
    {
        let ghost before = texts(pieces@);
        let ghost piece = text@.subrange(start as int, i as int);
        let ghost after = text@.take(i + 1);
        let c = chars[i];
        assert(after.drop_last() =~= text@.take(i as int));
        assert(after.last() == c);
        assert(before.push(piece).drop_last() =~= before);
        if c == sep {
            pieces.push(text.substring_char(start, i));
            start = i + 1;
            assert(texts(pieces@) =~= before.push(piece));
            assert(text@.subrange(start as int, i + 1) =~= Seq::<char>::empty());
        } else {
            assert(text@.subrange(start as int, i + 1) =~= piece.push(c));
        }
        i += 1;
    }
    let ghost before = texts(pieces@);
    pieces.push(text.substring_char(start, len));
    assert(texts(pieces@) =~= before.push(text@.subrange(start as int, len as int)));
    assert(text@.take(len as int) =~= text@);
    pieces
}

/// Whether a character occurs in a text.
pub fn has_char(text: &str, c: char) -> (found: bool)
    ensures
        found == text@.contains(c),
{
    let chars = chars_of(text);
    let mut i: usize = 0;
    while i < chars.len()
        invariant
            chars@ == text@,
            i <= chars.len(),
            forall|k: int| 0 <= k < i ==> text@[k] != c,
        decreases chars.len() - i,
    {
        if chars[i] == c {
            assert(text@[i as int] == c);
            return true;
        }
        i += 1;
    }
    false
}

/// The texts of a list of strings.
pub open spec fn string_texts(list: Seq<String>) -> Seq<Seq<char>> {
    list.map_values(|t: String| t@)
}

/// Joins the texts of a list.
pub fn join_texts(list: &Vec<String>, sep: &str) -> (text: String)
    ensures
        text@ == joined(string_texts(list@), sep@),
{
    let mut text = String::new();
    let ghost all = string_texts(list@);
    let mut i: usize = 0;
    while i < list.len()
        invariant
            all == string_texts(list@),
            i <= list.len(),
            text@ == joined(all.take(i as int), sep@),
        decreases list.len() - i,
    {
        let ghost after = all.take(i + 1);
        assert(after.drop_last() =~= all.take(i as int));
        assert(after.last() == list[i as int]@);
        if i > 0 {
            text.append(sep);
        }
        text.append(list[i].as_str());
        proof {
            if i == 0 {
                assert(after[0] == list[0]@);
                assert(text@ =~= after[0]);
            }
        }
        i += 1;
    }
    assert(all.take(list.len() as int) =~= all);
    text
}

/// Compares two texts.
pub fn same_text(a: &str, b: &str) -> (same: bool)
    ensures
        same == (a@ == b@),
{
    a.to_owned() == b.to_owned()
}

/// What a single character stands for: a digit for its value, and no other
/// character for a number.
pub proof fn lemma_one_character(c: char)
    ensures
        '0' <= c <= '9' ==> u64_value(seq![c]) == Some((c as int - '0' as int) as u64),
        !('0' <= c <= '9') ==> u64_value(seq![c]) is None,
        u64_value(Seq::empty()) is None,
{
    let s = seq![c];
    assert(s.drop_last() =~= Seq::<char>::empty());
    assert(digits_value(s.drop_last()) == 0);
    assert(s[0] == c);
    if c != '+' {
        assert(s.last() == c);
    }
}

/// A digit behind a number multiplies it by ten and is added to it, as long as
/// the sum is a 64 bit number. Behind what is no number it makes none, and any
/// other character makes none behind whatever it stands.
pub proof fn lemma_character_behind_number(s: Seq<char>, c: char)
    requires
        s.len() > 0,
        s != seq!['+'],
    ensures
        '0' <= c <= '9' ==> u64_value(s.push(c)) == match u64_value(s) {
            Some(n) => {
                let next = n * 10 + (c as int - '0' as int);
                if next <= u64::MAX {
                    Some(next as u64)
                } else {
                    None
                }
            },
            None => None,
        },
        !('0' <= c <= '9') ==> u64_value(s.push(c)) is None,
{
    let digits = unsigned_part(s);
    let more = unsigned_part(s.push(c));
    assert(more =~= digits.push(c));
    assert(more.drop_last() =~= digits);
    assert(more.last() == c);
    if s[0] == '+' && s.len() == 1 {
        assert(s =~= seq!['+']);
    }
    assert(digits.len() > 0);
    if all_digits(more) {
        assert forall|i: int| 0 <= i < digits.len() implies is_digit(#[trigger] digits[i]) by {
            assert(more[i] == digits[i]);
        }
        assert(is_digit(more[more.len() - 1]));
    }
    if all_digits(digits) && is_digit(c) {
        assert forall|i: int| 0 <= i < more.len() implies is_digit(#[trigger] more[i]) by {
            if i < digits.len() {
                assert(more[i] == digits[i]);
            }
        }
    }
}

/// A plus sign in front of a text makes no difference to the number that the
/// text stands for; a sign without a number, or with a second sign, is none.
pub proof fn lemma_plus_before_number(s: Seq<char>)
    ensures
        s.len() > 0 && s[0] != '+' ==> u64_value(seq!['+'] + s) == u64_value(s),
        s.len() == 0 || s[0] == '+' ==> u64_value(seq!['+'] + s) is None,
{
    let signed = seq!['+'] + s;
    assert(signed.drop_first() =~= s);
    if s.len() > 0 && s[0] == '+' {
        assert(!is_digit(s[0]));
    }
}

/// A number is written in digits, without zeros in front of it, and the text
/// stands for the number.
pub proof fn lemma_decimal_form(n: u64)
    ensures
        u64_value(decimal(n as nat)) == Some(n),
        forall|i: int|
            0 <= i < decimal(n as nat).len() ==> '0' <= #[trigger] decimal(n as nat)[i] <= '9',
        decimal(n as nat).len() == 1 <==> n < 10,
        n > 0 ==> decimal(n as nat)[0] != '0',
    decreases n,
{
    lemma_decimal_read_back(n);
    lemma_decimal_digits(n as nat);
    let d = decimal(n as nat);
    assert forall|i: int| 0 <= i < d.len() implies '0' <= #[trigger] d[i] <= '9' by {
        assert(is_digit(d[i]));
    }
    if n >= 10 {
        lemma_decimal_form(n / 10);
        let front = decimal((n / 10) as nat);
        assert(d == front.push(digit((n % 10) as nat)));
        assert(d[0] == front[0]);
    }
}

/// What the text of a header field says of a number: the number that the text
/// stands for, that it stands for none, or that there is no text.
pub proof fn lemma_number_in_field(text: Option<Seq<char>>, name: &'static str)
    ensures
        text is None ==> parsed_u64(text, name) == Err::<u64, _>(
            ProtocolError::MissingHeader(name),
        ),
        text matches Some(t) ==> match u64_value(t) {
            Some(n) => parsed_u64(text, name) == Ok::<_, ProtocolError>(n),
            None => parsed_u64(text, name) == Err::<u64, _>(ProtocolError::InvalidInt(name)),
        },
{
}

/// A text that is joined of two lists is made of the texts of the two, with the
/// separator between them; of a single text it is this text, and of none it is
/// empty.
pub proof fn lemma_joined_lists(a: Seq<Seq<char>>, b: Seq<Seq<char>>, one: Seq<char>, sep: Seq<char>)
    ensures
        joined(Seq::empty(), sep).len() == 0,
        joined(seq![one], sep) == one,
        a.len() > 0 && b.len() > 0 ==> joined(a + b, sep) == joined(a, sep) + sep + joined(b, sep),
    decreases b.len(),
{
    if a.len() > 0 && b.len() > 0 {
        let all = a + b;
        assert(all.drop_last() =~= a + b.drop_last());
        assert(all.last() == b.last());
        if b.len() == 1 {
            assert(b.drop_last() =~= Seq::<Seq<char>>::empty());
            assert(all.drop_last() =~= a);
            assert(joined(all, sep) =~= joined(a, sep) + sep + joined(b, sep));
        } else {
            lemma_joined_lists(a, b.drop_last(), one, sep);
            assert(joined(all, sep) =~= joined(a, sep) + sep + joined(b, sep));
        }
    }
}

/// The texts of a list are those of its members, in order.
pub proof fn lemma_texts_of_list(list: Seq<String>, strs: Seq<&str>)
    ensures
        string_texts(list).len() == list.len(),
        forall|i: int| 0 <= i < list.len() ==> #[trigger] string_texts(list)[i] == list[i]@,
        texts(strs).len() == strs.len(),
        forall|i: int| 0 <= i < strs.len() ==> #[trigger] texts(strs)[i] == strs[i]@,
{
}

/// Texts without the separator are got back from the text that is joined of them.
pub proof fn lemma_joined_split(list: Seq<Seq<char>>, sep: char)
    requires
        list.len() > 0,
        forall|i: int| 0 <= i < list.len() ==> !(#[trigger] list[i]).contains(sep),
    ensures
        split_on(joined(list, seq![sep]), sep) == list,
    decreases list.len(),
{
    assert(!list[list.len() - 1].contains(sep));
    lemma_split_without_separator(list.last(), sep);
    if list.len() == 1 {
        assert(list =~= seq![list[0]]);
    } else {
        let front = list.drop_last();
        assert forall|i: int| 0 <= i < front.len() implies !(#[trigger] front[i]).contains(sep) by {
            assert(front[i] == list[i]);
        }
        lemma_joined_split(front, sep);
        lemma_split_between(joined(front, seq![sep]), list.last(), sep);
        assert(front + seq![list.last()] =~= list);
    }
}

/// No piece of a split text holds the separator.
pub proof fn lemma_split_pieces(s: Seq<char>, sep: char, i: int)
    requires
        0 <= i < split_on(s, sep).len(),
    ensures
        !split_on(s, sep)[i].contains(sep),
    decreases s.len(),
{
    if s.len() > 0 {
        let pieces = split_on(s.drop_last(), sep);
        lemma_split_nonempty(s.drop_last(), sep);
        if i < pieces.len() {
            lemma_split_pieces(s.drop_last(), sep, i);
            if s.last() != sep && i == pieces.len() - 1 {
                let piece = pieces[i].push(s.last());
                assert forall|k: int| 0 <= k < piece.len() implies piece[k] != sep by {
                    if k < pieces[i].len() {
                        assert(pieces[i].contains(pieces[i][k]));
                    }
                }
            }
        }
    }
}

} // verus!
