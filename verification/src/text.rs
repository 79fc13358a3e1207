//! Text building blocks: decimal numbers, joined lists, prefixes and trimmed ends.
//!
//! Every text is described by its characters (`Seq<char>`).

use vstd::prelude::*;

verus! {

/// The decimal digit for a value below ten.
pub open spec fn digit(value: nat) -> char {
    (48 + value) as char
}

/// A number in base ten, without leading zeros.
pub open spec fn decimal(value: nat) -> Seq<char>
    decreases value,
{
    if value < 10 {
        seq![digit(value)]
    } else {
        decimal(value / 10).push(digit(value % 10))
    }
}

/// An integer in base ten, with a leading minus sign when it is negative.
pub open spec fn signed_decimal(value: int) -> Seq<char> {
    if value < 0 {
        seq!['-'] + decimal((-value) as nat)
    } else {
        decimal(value as nat)
    }
}

/// The lowest `width` base-ten digits of a number, with leading zeros.
pub open spec fn padded(value: nat, width: nat) -> Seq<char>
    decreases width,
{
    if width == 0 {
        Seq::empty()
    } else {
        padded(value / 10, (width - 1) as nat).push(digit(value % 10))
    }
}

/// The parts in order, with `separator` between neighbours.
pub open spec fn joined(parts: Seq<Seq<char>>, separator: Seq<char>) -> Seq<char>
    decreases parts.len(),
{
    if parts.len() == 0 {
        Seq::empty()
    } else if parts.len() == 1 {
        parts[0]
    } else {
        joined(parts.drop_last(), separator) + separator + parts.last()
    }
}

/// The character sequences of a list of strings.
pub open spec fn views(parts: Seq<String>) -> Seq<Seq<char>> {
    parts.map_values(|part: String| part@)
}

/// The number of characters that remain once every trailing `end` is dropped.
pub open spec fn trimmed_len(text: Seq<char>, end: char) -> nat
    decreases text.len(),
{
    if text.len() > 0 && text.last() == end {
        trimmed_len(text.drop_last(), end)
    } else {
        text.len()
    }
}

/// The text without its trailing `end` characters.
pub open spec fn trimmed_end(text: Seq<char>, end: char) -> Seq<char> {
    text.take(trimmed_len(text, end) as int)
}

/// What trimming leaves is a prefix that does not end in `end`, and only `end` is dropped.
pub proof fn law_trimmed_end(text: Seq<char>, end: char)
    ensures
        trimmed_len(text, end) <= text.len(),
        trimmed_end(text, end).len() == trimmed_len(text, end),
        trimmed_end(text, end).is_prefix_of(text),
        trimmed_end(text, end).len() > 0 ==> trimmed_end(text, end).last() != end,
        forall|i: int| trimmed_len(text, end) <= i < text.len() ==> text[i] == end,
    decreases text.len(),
{
    if text.len() > 0 && text.last() == end {
        law_trimmed_end(text.drop_last(), end);
        assert(trimmed_end(text, end) =~= trimmed_end(text.drop_last(), end));
        assert forall|i: int| trimmed_len(text, end) <= i < text.len() implies text[i] == end by {
            if i < text.len() - 1 {
                assert(text.drop_last()[i] == end);
            }
        }
    } else {
        assert(text.take(text.len() as int) =~= text);
    }
}

/// The text of one digit.
fn digit_text(value: u64) -> (text: &'static str)
    requires
        value < 10,
    ensures
        text@ == seq![digit(value as nat)],
{
    proof {
        reveal_strlit("0");
        reveal_strlit("1");
        reveal_strlit("2");
        reveal_strlit("3");
        reveal_strlit("4");
        reveal_strlit("5");
        reveal_strlit("6");
        reveal_strlit("7");
        reveal_strlit("8");
        reveal_strlit("9");
    }
    let text: &'static str = match value {
        0 => "0",
        1 => "1",
        2 => "2",
        3 => "3",
        4 => "4",
        5 => "5",
        6 => "6",
        7 => "7",
        8 => "8",
        _ => "9",
    };
    assert(text@ =~= seq![digit(value as nat)]);
    text
}

/// Writes a number in base ten.
pub(crate) fn decimal_text(value: u64) -> (text: String)
    ensures
        text@ == decimal(value as nat),
    decreases value,
{
    if value < 10 {
        digit_text(value).to_owned()
    } else {
        let mut text = decimal_text(value / 10);
        text.append(digit_text(value % 10));
        assert(text@ =~= decimal(value as nat));
        text
    }
}

/// Writes a signed number in base ten.
pub(crate) fn signed_decimal_text(value: i64) -> (text: String)
    ensures
        text@ == signed_decimal(value as int),
{
    if value < 0 {
        let magnitude: u64 = (-(value as i128)) as u64;
        proof {
            reveal_strlit("-");
        }
        let mut text = "-".to_owned();
        text.append(decimal_text(magnitude).as_str());
        assert(text@ =~= signed_decimal(value as int));
        text
    } else {
        decimal_text(value as u64)
    }
}

/// Joins the parts with `separator` between neighbours.
pub(crate) fn join(parts: &Vec<String>, separator: &str) -> (text: String)
    ensures
        text@ == joined(views(parts@), separator@),
{
    let mut text = String::new();
    let ghost all = views(parts@);
    for i in 0..parts.len()
        invariant
            all == views(parts@),
            text@ == joined(all.take(i as int), separator@),
    {
        if i > 0 {
            text.append(separator);
        }
        text.append(parts[i].as_str());
        proof {
            assert(all.take(i + 1).drop_last() =~= all.take(i as int));
            assert(all.take(i + 1).last() == parts[i as int]@);
            if i == 0 {
                assert(text@ =~= parts[0]@);
            }
        }
    }
    assert(all.take(parts.len() as int) =~= all);
    text
}

/// Whether `text` begins with `prefix`.
pub(crate) fn starts_with(text: &str, prefix: &str) -> (found: bool)
    ensures
        found == prefix@.is_prefix_of(text@),
{
    let length: usize = prefix.unicode_len();
    if text.unicode_len() < length {
        return false;
    }
    for i in 0..length
        invariant
            length == prefix@.len() <= text@.len(),
            forall|j: int| 0 <= j < i ==> prefix@[j] == text@[j],
    {
        if text.get_char(i) != prefix.get_char(i) {
            return false;
        }
    }
    assert(prefix@ =~= text@.take(length as int));
    true
}

/// Drops every trailing `end` character.
pub(crate) fn trim_end(text: &str, end: char) -> (trimmed: String)
    ensures
        trimmed@ == trimmed_end(text@, end),
{
    let mut length: usize = text.unicode_len();
    assert(text@.take(length as int) =~= text@);
    while length > 0 && text.get_char(length - 1) == end
        invariant
            length <= text@.len(),
            trimmed_len(text@.take(length as int), end) == trimmed_len(text@, end),
        decreases length,
    {
        proof {
            assert(text@.take(length as int).drop_last() =~= text@.take(length - 1));
        }
        length = length - 1;
    }
    assert(trimmed_len(text@, end) == length);
    text.substring_char(0, length).to_owned()
}

/// Whether a text consists of base-ten digits only.
pub open spec fn is_number(text: Seq<char>) -> bool {
    forall|i: int| 0 <= i < text.len() ==> '0' <= #[trigger] text[i] && text[i] <= '9'
}

/// The number that a text of digits reads as: the last digit counts once, and each one before it ten
/// times as much as its neighbour.
pub open spec fn number_of(text: Seq<char>) -> int
    decreases text.len(),
{
    if text.len() == 0 {
        0
    } else {
        10 * number_of(text.drop_last()) + (text.last() as int - '0' as int)
    }
}

/// A number that is written in base ten reads back as itself: its text is made of digits, and has no
/// leading zero unless the number is zero.
pub proof fn law_decimal_reads_back(value: nat)
    ensures
        number_of(decimal(value)) == value,
        is_number(decimal(value)),
        decimal(value).len() >= 1,
        decimal(value).len() > 1 ==> decimal(value)[0] != '0',
        value > 0 ==> decimal(value)[0] != '0',
    decreases value,
{
    let text = decimal(value);
    if value < 10 {
        assert(text.drop_last() =~= Seq::<char>::empty());
        assert(number_of(text.drop_last()) == 0);
    } else {
        law_decimal_reads_back(value / 10);
        assert(text.drop_last() =~= decimal(value / 10));
        assert(text.last() == digit(value % 10));
    }
}

/// Different numbers have different texts.
pub proof fn law_decimal_tells_apart(a: nat, b: nat)
    ensures
        decimal(a) == decimal(b) <==> a == b,
{
    law_decimal_reads_back(a);
    law_decimal_reads_back(b);
}

/// An integer that is written in base ten reads back as itself: a negative one is a minus sign and
/// the text of its distance from zero, any other has no sign.
pub proof fn law_signed_decimal_reads_back(value: int)
    ensures
        value >= 0 ==> is_number(signed_decimal(value)) && number_of(signed_decimal(value)) == value,
        value < 0 ==> signed_decimal(value).len() >= 2 && signed_decimal(value)[0] == '-'
            && is_number(signed_decimal(value).skip(1)) && number_of(signed_decimal(value).skip(1))
            == -value && signed_decimal(value)[1] != '0',
        signed_decimal(value).len() >= 1,
        signed_decimal(value).len() > 1 ==> signed_decimal(value)[0] != '0',
{
    if value < 0 {
        law_decimal_reads_back((-value) as nat);
        assert(signed_decimal(value).skip(1) =~= decimal((-value) as nat));
    } else {
        law_decimal_reads_back(value as nat);
    }
}

/// A number that is filled up with zeros to a width has that many digits, and reads back as itself
/// if they suffice.
pub proof fn law_padded_reads_back(value: nat, width: nat)
    ensures
        padded(value, width).len() == width,
        is_number(padded(value, width)),
        value < vstd::arithmetic::power::pow(10, width) ==> number_of(padded(value, width)) == value,
    decreases width,
{
    vstd::arithmetic::power::lemma_pow0(10);
    if width > 0 {
        let rest = (width - 1) as nat;
        law_padded_reads_back(value / 10, rest);
        let text = padded(value, width);
        assert(text.drop_last() =~= padded(value / 10, rest));
        assert(text.last() == digit(value % 10));
        reveal(vstd::arithmetic::power::pow);
        assert(vstd::arithmetic::power::pow(10, width) == 10 * vstd::arithmetic::power::pow(
            10,
            rest,
        ));
    }
}

/// A joined list holds its parts in order with the separator between neighbours and nowhere else:
/// nothing for no part, the part itself for one, and with each further part the separator and it.
pub proof fn law_joined_grows(parts: Seq<Seq<char>>, part: Seq<char>, separator: Seq<char>)
    ensures
        joined(Seq::empty(), separator) == Seq::<char>::empty(),
        joined(seq![part], separator) == part,
        parts.len() > 0 ==> joined(parts.push(part), separator) == joined(parts, separator)
            + separator + part,
{
    if parts.len() > 0 {
        assert(parts.push(part).drop_last() =~= parts);
    }
}

/// The character sequences of a list of strings are those of its strings, one by one.
pub proof fn law_views_are_the_texts(parts: Seq<String>, i: int)
    requires
        0 <= i < parts.len(),
    ensures
        views(parts).len() == parts.len(),
        views(parts)[i] == parts[i]@,
{
}

} // verus!
