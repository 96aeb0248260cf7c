//! Text as the ledger writes and reads it: numbers and truth values in
//! the strings it hashes, and the joining, splitting and prefix tests that
//! its payloads and messages are made of.

use vstd::prelude::*;

verus! {

/// The ten decimal digits in order.
pub open spec fn decimal_digits() -> Seq<char> {
    seq!['0', '1', '2', '3', '4', '5', '6', '7', '8', '9']
}

/// The character of the decimal digit `d`.
pub open spec fn digit_char(d: int) -> char
    recommends
        0 <= d < 10,
{
    decimal_digits()[d]
}

/// A natural number in decimal, most significant digit first, without
/// leading zeros (zero itself is `"0"`).
pub open spec fn nat_text(n: nat) -> Seq<char>
    decreases n,
{
    if n < 10 {
        seq![digit_char(n as int)]
    } else {
        nat_text(n / 10).push(digit_char((n % 10) as int))
    }
}

/// An integer in decimal, with a leading minus sign when negative.
pub open spec fn int_text(i: int) -> Seq<char> {
    if i < 0 {
        seq!['-'] + nat_text((-i) as nat)
    } else {
        nat_text(i as nat)
    }
}

/// `true` or `false`, spelled out.
pub open spec fn bool_text(b: bool) -> Seq<char> {
    if b {
        seq!['t', 'r', 'u', 'e']
    } else {
        seq!['f', 'a', 'l', 's', 'e']
    }
}

/// The one-character string of a decimal digit.
fn digit_str(d: u8) -> (s: &'static str)
    requires
        d < 10,
    ensures
        s@ == seq![digit_char(d as int)],
{
    proof {
        reveal_strlit("0");
        reveal_strlit("1");
        reveal_strlit("2");
        reveal_strlit("3");
        reveal_strlit("4");
        reveal_strlit("5");
        reveal_strlit("6");
        reveal_strlit("7");
        reveal_strlit("8");
        reveal_strlit("9");
    }
    let s = match d {
        0 => "0",
        1 => "1",
        2 => "2",
        3 => "3",
        4 => "4",
        5 => "5",
        6 => "6",
        7 => "7",
        8 => "8",
        _ => "9",
    };
    assert(s@ =~= seq![digit_char(d as int)]);
    s
}

/// Appends `n` in decimal to `out`.
pub fn push_u64(out: &mut String, n: u64)
    ensures
        final(out)@ == old(out)@ + nat_text(n as nat),
    decreases n,
{
    if n >= 10 {
        push_u64(out, n / 10);
    }
    out.append(digit_str((n % 10) as u8));
    assert(out@ =~= old(out)@ + nat_text(n as nat));
}

/// Appends `i` in decimal to `out`.
pub fn push_i64(out: &mut String, i: i64)
    ensures
        final(out)@ == old(out)@ + int_text(i as int),
{
    if i < 0 {
        out.append("-");
        proof {
            reveal_strlit("-");
        }
        let magnitude: u64 = ((-(i + 1)) as u64) + 1;
        push_u64(out, magnitude);
        assert(out@ =~= old(out)@ + int_text(i as int));
    } else {
        push_u64(out, i as u64);
    }
}

/// Appends `true` or `false` to `out`.
pub fn push_bool(out: &mut String, b: bool)
    ensures
        final(out)@ == old(out)@ + bool_text(b),
{
    proof {
        reveal_strlit("true");
        reveal_strlit("false");
    }
    if b {
        out.append("true");
        assert("true"@ =~= bool_text(true));
    } else {
        out.append("false");
        assert("false"@ =~= bool_text(false));
    }
}

/// `n` in decimal.
pub fn u64_to_string(n: u64) -> (s: String)
    ensures
        s@ == nat_text(n as nat),
{
    let mut s = String::new();
    push_u64(&mut s, n);
    assert(s@ =~= nat_text(n as nat));
    s
}

/// The contents of a sequence of strings, in order.
pub open spec fn string_views(strings: Seq<String>) -> Seq<Seq<char>> {
    Seq::new(strings.len(), |i: int| strings[i]@)
}

/// The parts written one after the other with `separator` between each two.
pub open spec fn join_text(parts: Seq<Seq<char>>, separator: Seq<char>) -> Seq<char>
    decreases parts.len(),
{
    if parts.len() == 0 {
        Seq::empty()
    } else if parts.len() == 1 {
        parts[0]
    } else {
        join_text(parts.drop_last(), separator) + separator + parts.last()
    }
}

/// The fields of `text` between the occurrences of `separator`. There is
/// always one field more than there are separators; a field may be empty.
pub open spec fn split_text(text: Seq<char>, separator: char) -> Seq<Seq<char>>
    decreases text.len(),
{
    if text.len() == 0 {
        seq![Seq::empty()]
    } else {
        let before = split_text(text.drop_last(), separator);
        if text.last() == separator {
            before.push(Seq::empty())
        } else {
            before.update(before.len() - 1, before.last().push(text.last()))
        }
    }
}

/// A text without the separator is its own single field.
pub proof fn lemma_split_without_separator(text: Seq<char>, separator: char)
    requires
        !text.contains(separator),
    ensures
        split_text(text, separator) == seq![text],
    decreases text.len(),
{
    if text.len() == 0 {
        assert(text =~= Seq::empty());
    } else {
        let shorter = text.drop_last();
        assert(text[text.len() - 1] != separator);
        assert forall|i: int| 0 <= i < shorter.len() implies shorter[i] != separator by {
            assert(shorter[i] == text[i]);
        }
        lemma_split_without_separator(shorter, separator);
        assert(shorter.push(text.last()) =~= text);
        assert(split_text(text, separator) =~= seq![text]);
    }
}

/// A separator and a field after a text add that field to the text's
/// fields.
pub proof fn lemma_split_with_field(text: Seq<char>, field: Seq<char>, separator: char)
    requires
        !field.contains(separator),
    ensures
        split_text(text + seq![separator] + field, separator) == split_text(
            text,
            separator,
        ).push(field),
    decreases field.len(),
{
    let whole = text + seq![separator] + field;
    if field.len() == 0 {
        assert(whole.drop_last() =~= text);
        assert(field =~= Seq::empty());
    } else {
        let shorter = field.drop_last();
        assert(field[field.len() - 1] != separator);
        assert forall|i: int| 0 <= i < shorter.len() implies shorter[i] != separator by {
            assert(shorter[i] == field[i]);
        }
        lemma_split_with_field(text, shorter, separator);
        assert(whole.drop_last() =~= text + seq![separator] + shorter);
        assert(whole.last() == field.last());
        assert(shorter.push(field.last()) =~= field);
        let before = split_text(text, separator).push(shorter);
        assert(before.update(before.len() - 1, before.last().push(field.last()))
            =~= split_text(text, separator).push(field));
    }
}

/// Splitting undoes joining: fields that are free of the separator, at
/// least one of them, come back from their joined text as they were.
pub proof fn lemma_split_of_join(parts: Seq<Seq<char>>, separator: char)
    requires
        parts.len() >= 1,
        forall|i: int| 0 <= i < parts.len() ==> !(#[trigger] parts[i]).contains(separator),
    ensures
        split_text(join_text(parts, seq![separator]), separator) == parts,
    decreases parts.len(),
{
    if parts.len() == 1 {
        lemma_split_without_separator(parts[0], separator);
        assert(seq![parts[0]] =~= parts);
    } else {
        let earlier = parts.drop_last();
        assert forall|i: int| 0 <= i < earlier.len() implies !(#[trigger] earlier[i]).contains(
            separator,
        ) by {
            assert(earlier[i] == parts[i]);
        }
        lemma_split_of_join(earlier, separator);
        lemma_split_with_field(join_text(earlier, seq![separator]), parts.last(), separator);
        assert(earlier.push(parts.last()) =~= parts);
    }
}

/// Writes the parts one after the other with `separator` between each two.
pub fn join(parts: &Vec<String>, separator: &str) -> (text: String)
    ensures
        text@ == join_text(string_views(parts@), separator@),
{
    let ghost views = string_views(parts@);
    let mut text = String::new();
    let mut i: usize = 0;
    assert(views.take(0) =~= Seq::empty());
    while i < parts.len()
        invariant
            i <= parts.len(),
            views == string_views(parts@),
            text@ == join_text(views.take(i as int), separator@),
        decreases parts.len() - i,
    {
        if i > 0 {
            text.append(separator);
        }
        text.append(parts[i].as_str());
        proof {
            let next = views.take(i + 1);
            assert(next.drop_last() =~= views.take(i as int));
            assert(next.last() == parts[i as int]@);
            assert(text@ =~= join_text(next, separator@));
        }
        i += 1;
    }
    assert(views.take(i as int) =~= views);
    text
}

/// Cuts `text` at every occurrence of `separator`.
pub fn split(text: &str, separator: char) -> (fields: Vec<String>)
    ensures
        string_views(fields@) == split_text(text@, separator),
{
    let length = text.unicode_len();
    let mut fields: Vec<String> = Vec::new();
    let mut start: usize = 0;
    let mut i: usize = 0;
    assert(text@.take(0) =~= Seq::empty());
    assert(split_text(text@.take(0), separator) =~= string_views(fields@).push(
        text@.subrange(0, 0),
    ));
    while i < length
        invariant
            start <= i <= length,
            length == text@.len(),
            split_text(text@.take(i as int), separator) == string_views(fields@).push(
                text@.subrange(start as int, i as int),
            ),
        decreases length - i,
    {
        let ghost before = split_text(text@.take(i as int), separator);
        let ghost earlier = string_views(fields@);
        proof {
            let next = text@.take(i + 1);
            assert(next.drop_last() =~= text@.take(i as int));
            assert(next.last() == text@[i as int]);
        }
        if text.get_char(i) == separator {
            fields.push(String::from_str(text.substring_char(start, i)));
            assert(string_views(fields@) =~= earlier.push(text@.subrange(start as int, i as int)));
            start = i + 1;
            assert(text@.subrange(start as int, i + 1) =~= Seq::empty());
        } else {
            assert(before.last() == text@.subrange(start as int, i as int));
            assert(before.last().push(text@[i as int]) =~= text@.subrange(start as int, i + 1));
            assert(before.update(before.len() - 1, before.last().push(text@[i as int]))
                =~= earlier.push(text@.subrange(start as int, i + 1)));
        }
        i += 1;
    }
    fields.push(String::from_str(text.substring_char(start, length)));
    assert(text@.take(length as int) =~= text@);
    assert(string_views(fields@) =~= split_text(text@, separator));
    fields
}

/// Whether `text` begins with `prefix`.
pub fn starts_with(text: &str, prefix: &str) -> (yes: bool)
    ensures
        yes == prefix@.is_prefix_of(text@),
{
    let length = prefix.unicode_len();
    if text.unicode_len() < length {
        return false;
    }
    let head = String::from_str(text.substring_char(0, length));
    let wanted = String::from_str(prefix);
    head == wanted
}

/// `text` without its first `count` characters; nothing is left of a text
/// that has no more than `count`.
pub fn skip_chars(text: &str, count: usize) -> (rest: String)
    ensures
        rest@ == if count <= text@.len() {
            text@.skip(count as int)
        } else {
            Seq::empty()
        },
{
    let length = text.unicode_len();
    if count <= length {
        String::from_str(text.substring_char(count, length))
    } else {
        String::new()
    }
}

} // verus!
