//! How numbers and lists of bytes are written as text, and when two texts
//! are the same.

use vstd::prelude::*;

verus! {

/// The digit for a number below sixteen.
pub open spec fn digit(value: nat) -> char {
    if value < 10 {
        (48 + value) as char
    } else {
        (87 + value) as char
    }
}

/// A number in base ten, with no leading zero.
pub open spec fn decimal(value: nat) -> Seq<char>
    decreases value,
{
    if value < 10 {
        seq![digit(value)]
    } else {
        decimal(value / 10).push(digit(value % 10))
    }
}

/// The last `width` digits of a number in base sixteen.
pub open spec fn hexadecimal(value: nat, width: nat) -> Seq<char>
    decreases width,
{
    if width == 0 {
        seq![]
    } else {
        hexadecimal(value / 16, (width - 1) as nat).push(digit(value % 16))
    }
}

/// Bytes in base ten, separated by commas.
pub open spec fn byte_items(bytes: Seq<u8>) -> Seq<char>
    decreases bytes.len(),
{
    if bytes.len() == 0 {
        seq![]
    } else if bytes.len() == 1 {
        decimal(bytes[0] as nat)
    } else {
        byte_items(bytes.drop_last()) + ", "@ + decimal(bytes.last() as nat)
    }
}

/// A list of bytes between square brackets.
pub open spec fn byte_list(bytes: Seq<u8>) -> Seq<char> {
    "["@ + byte_items(bytes) + "]"@
}

/// The text of one digit.
fn digit_text(value: u64) -> (text: &'static str)
    requires
        value < 16,
    ensures
        text@ == seq![digit(value as nat)],
{
    proof {
        reveal_strlit("0");
        reveal_strlit("1");
        reveal_strlit("2");
        reveal_strlit("3");
        reveal_strlit("4");
        reveal_strlit("5");
        reveal_strlit("6");
        reveal_strlit("7");
        reveal_strlit("8");
        reveal_strlit("9");
        reveal_strlit("a");
        reveal_strlit("b");
        reveal_strlit("c");
        reveal_strlit("d");
        reveal_strlit("e");
        reveal_strlit("f");
    }
    match value {
        0 => "0",
        1 => "1",
        2 => "2",
        3 => "3",
        4 => "4",
        5 => "5",
        6 => "6",
        7 => "7",
        8 => "8",
        9 => "9",
        10 => "a",
        11 => "b",
        12 => "c",
        13 => "d",
        14 => "e",
        _ => "f",
    }
}

/// Write a number in base ten.
pub fn decimal_text(value: u64) -> (text: String)
    ensures
        text@ == decimal(value as nat),
    decreases value,
{
    if value < 10 {
        digit_text(value).to_owned()
    } else {
        let mut text = decimal_text(value / 10);
        text.append(digit_text(value % 10));
        assert(text@ =~= decimal(value as nat));
        text
    }
}

/// Write the last `width` digits of a number in base sixteen.
pub fn hexadecimal_text(value: u64, width: u32) -> (text: String)
    ensures
        text@ == hexadecimal(value as nat, width as nat),
    decreases width,
{
    if width == 0 {
        let text = String::new();
        assert(text@ =~= seq![]);
        text
    } else {
        let mut text = hexadecimal_text(value / 16, width - 1);
        text.append(digit_text(value % 16));
        assert(text@ =~= hexadecimal(value as nat, width as nat));
        text
    }
}

/// Write a list of bytes between square brackets.
pub fn byte_list_text(bytes: &Vec<u8>) -> (text: String)
    ensures
        text@ == byte_list(bytes@),
{
    let mut text = "[".to_owned();
    let mut i: usize = 0;
    while i < bytes.len()
        invariant
            i <= bytes.len(),
            text@ == "["@ + byte_items(bytes@.take(i as int)),
        decreases bytes.len() - i,
    {
        if i > 0 {
            text.append(", ");
        }
        text.append(decimal_text(bytes[i] as u64).as_str());
        assert(bytes@.take(i + 1).drop_last() =~= bytes@.take(i as int));
        assert(text@ =~= "["@ + byte_items(bytes@.take(i + 1)));
        i += 1;
    }
    assert(bytes@.take(i as int) =~= bytes@);
    text.append("]");
    text
}

/// The text that std's `Debug` writes for a string: in double quotes, with
/// quotes, backslashes and unprintable characters escaped.
pub uninterp spec fn debug_quoted(text: Seq<char>) -> Seq<char>;

/// Calls std's `Debug` on a string, through `format!("{:?}")`.
///
/// The escapes follow Unicode tables, so the result is named rather than
/// spelt out. It depends on the text alone.
#[verifier::external_body]
pub(crate) fn quote(text: &str) -> (quoted: String)
    ensures
        quoted@ == debug_quoted(text@),
{
    format!("{text:?}")
}

/// The views of a list of texts.
pub open spec fn text_views(texts: Seq<String>) -> Seq<Seq<char>> {
    texts.map_values(|text: String| text@)
}

/// Whether two texts are the same.
pub fn same_text(a: &str, b: &str) -> (same: bool)
    ensures
        same == (a@ == b@),
{
    let left = a.as_bytes();
    let right = b.as_bytes();
    proof {
        vstd::utf8::encode_utf8_decode_utf8(a@);
        vstd::utf8::encode_utf8_decode_utf8(b@);
    }
    if left.len() != right.len() {
        return false;
    }
    let mut i: usize = 0;
    while i < left.len()
        invariant
            i <= left.len(),
            left.len() == right.len(),
            left@ == vstd::utf8::encode_utf8(a@),
            right@ == vstd::utf8::encode_utf8(b@),
            forall|j: int| 0 <= j < i ==> left@[j] == right@[j],
        decreases left.len() - i,
    {
        if left[i] != right[i] {
            return false;
        }
        i += 1;
    }
    assert(left@ =~= right@);
    true
}

/// The parts of a text between its `/` characters. A text with none is one
/// part.
pub open spec fn split(text: Seq<char>) -> Seq<Seq<char>>
    decreases text.len(),
{
    if text.len() == 0 {
        seq![seq![]]
    } else {
        let before = split(text.drop_last());
        if text.last() == '/' {
            before.push(seq![])
        } else {
            before.drop_last().push(before.last().push(text.last()))
        }
    }
}

/// Parts put together with one `/` between each two.
pub open spec fn join(parts: Seq<Seq<char>>) -> Seq<char>
    decreases parts.len(),
{
    if parts.len() == 0 {
        seq![]
    } else if parts.len() == 1 {
        parts[0]
    } else {
        join(parts.drop_last()).push('/') + parts.last()
    }
}

/// Whether a text holds no `/`.
pub open spec fn has_no_slash(text: Seq<char>) -> bool {
    forall|i: int| 0 <= i < text.len() ==> #[trigger] text[i] != '/'
}

/// The parts that a list of strings holds.
pub open spec fn parts_of(parts: Seq<&str>) -> Seq<Seq<char>> {
    parts.map_values(|part: &str| part@)
}

/// Split a text at its `/` characters.
pub fn split_text(text: &str) -> (parts: Vec<&str>)
    ensures
        parts_of(parts@) == split(text@),
        parts@.len() > 0,
{
    let mut parts: Vec<&str> = Vec::new();
    let mut start: usize = 0;
    let mut end: usize = 0;
    let len: usize = text.unicode_len();
    assert(text@.take(0) =~= seq![]);
    assert(text@.subrange(0, 0) =~= seq![]);
    assert(parts_of(parts@).push(text@.subrange(0, 0)) =~= split(text@.take(0)));
    for c in chars: text.chars()
        invariant
            chars.seq() == text@,
            end == chars.index(),
            start <= end <= text@.len(),
            len == text@.len(),
            parts_of(parts@).push(text@.subrange(start as int, end as int)) == split(
                text@.take(end as int),
            ),
    {
        let ghost before = text@.take(end as int);
        let ghost after = text@.take(end + 1);
        let ghost current = text@.subrange(start as int, end as int);
        let ghost whole = parts_of(parts@).push(current);
        assert(after.drop_last() =~= before);
        assert(after.last() == c);
        assert(whole.drop_last() =~= parts_of(parts@));
        if c == '/' {
            let part = text.substring_char(start, end);
            let ghost held = parts_of(parts@);
            parts.push(part);
            assert(parts_of(parts@) =~= held.push(current));
            start = end + 1;
            assert(text@.subrange(start as int, end + 1) =~= seq![]);
        } else {
            assert(text@.subrange(start as int, end + 1) =~= current.push(c));
        }
        end += 1;
    }
    let ghost held = parts_of(parts@);
    let part = text.substring_char(start, end);
    parts.push(part);
    assert(parts_of(parts@) =~= held.push(part@));
    assert(text@.take(end as int) =~= text@);
    parts
}

/// Joining one part more adds a `/` and that part.
pub proof fn lemma_join_push(parts: Seq<Seq<char>>, last: Seq<char>)
    requires
        parts.len() > 0,
    ensures
        join(parts.push(last)) == join(parts) + "/"@ + last,
{
    reveal_strlit("/");
    assert(parts.push(last).drop_last() =~= parts);
    assert(join(parts).push('/') =~= join(parts) + "/"@);
}

/// Splitting gives at least one part, and no part holds a `/`.
pub proof fn lemma_split_parts(text: Seq<char>)
    ensures
        split(text).len() > 0,
        forall|i: int| 0 <= i < split(text).len() ==> has_no_slash(#[trigger] split(text)[i]),
    decreases text.len(),
{
    if text.len() > 0 {
        lemma_split_parts(text.drop_last());
        let before = split(text.drop_last());
        assert forall|i: int| 0 <= i < split(text).len() implies has_no_slash(
            #[trigger] split(text)[i],
        ) by {
            if i < before.len() {
                assert(has_no_slash(before[i]));
            }
        }
    }
}

/// Joining the parts of a text gives the text back.
pub proof fn lemma_join_split(text: Seq<char>)
    ensures
        join(split(text)) == text,
    decreases text.len(),
{
    if text.len() > 0 {
        let shorter = text.drop_last();
        let before = split(shorter);
        lemma_join_split(shorter);
        lemma_split_parts(shorter);
        let parts = split(text);
        assert(text =~= shorter.push(text.last()));
        if text.last() == '/' {
            assert(parts.drop_last() =~= before);
            assert(join(parts) =~= text);
        } else {
            assert(parts.drop_last() =~= before.drop_last());
            assert(join(parts) =~= text);
        }
    }
}

proof fn lemma_split_extend(head: Seq<char>, tail: Seq<char>)
    requires
        has_no_slash(tail),
    ensures
        split(head + tail) == split(head).drop_last().push(split(head).last() + tail),
    decreases tail.len(),
{
    lemma_split_parts(head);
    let before = split(head);
    if tail.len() == 0 {
        assert(head + tail =~= head);
        assert(before.last() + tail =~= before.last());
        assert(before.drop_last().push(before.last()) =~= before);
    } else {
        let shorter = tail.drop_last();
        assert forall|i: int| 0 <= i < shorter.len() implies #[trigger] shorter[i] != '/' by {
            assert(shorter[i] == tail[i]);
        }
        lemma_split_extend(head, shorter);
        assert((head + tail).drop_last() =~= head + shorter);
        assert((head + tail).last() == tail.last());
        assert(tail[tail.len() - 1] != '/');
        let middle = split(head + shorter);
        assert(middle.drop_last() =~= before.drop_last());
        assert((before.last() + shorter).push(tail.last()) =~= before.last() + tail);
    }
}

/// Splitting a text that was joined from parts gives those parts back, when
/// none of them holds a `/`.
pub proof fn lemma_split_join(parts: Seq<Seq<char>>)
    requires
        parts.len() > 0,
        forall|i: int| 0 <= i < parts.len() ==> has_no_slash(#[trigger] parts[i]),
    ensures
        split(join(parts)) == parts,
    decreases parts.len(),
{
    let last = parts.last();
    assert(has_no_slash(parts[parts.len() - 1]));
    if parts.len() == 1 {
        let nothing = Seq::<char>::empty();
        lemma_split_extend(nothing, last);
        assert(nothing + last =~= last);
        assert(split(nothing) =~= seq![seq![]]);
        assert(split(last) =~= parts);
    } else {
        let before = parts.drop_last();
        assert forall|i: int| 0 <= i < before.len() implies has_no_slash(#[trigger] before[i]) by {
            assert(before[i] == parts[i]);
        }
        lemma_split_join(before);
        let head = join(before).push('/');
        assert(head.drop_last() =~= join(before));
        assert(split(head) =~= before.push(seq![]));
        lemma_split_extend(head, last);
        assert(split(head).drop_last() =~= before);
        assert(split(head).last() + last =~= last);
        assert(before.push(last) =~= parts);
    }
}

/// Every text that [`hexadecimal_text`] writes is `width` characters long.
pub proof fn lemma_hexadecimal_len(value: nat, width: nat)
    ensures
        hexadecimal(value, width).len() == width,
    decreases width,
{
    if width > 0 {
        lemma_hexadecimal_len(value / 16, (width - 1) as nat);
    }
}

/// Two different 32-bit numbers differ in their eight hexadecimal digits.
pub proof fn lemma_hexadecimal_injective(a: nat, b: nat, width: nat)
    requires
        a < vstd::arithmetic::power::pow(16, width),
        b < vstd::arithmetic::power::pow(16, width),
        hexadecimal(a, width) == hexadecimal(b, width),
    ensures
        a == b,
    decreases width,
{
    reveal(vstd::arithmetic::power::pow);
    if width > 0 {
        let below = (width - 1) as nat;
        let left = hexadecimal(a / 16, below);
        let right = hexadecimal(b / 16, below);
        lemma_hexadecimal_len(a / 16, below);
        lemma_hexadecimal_len(b / 16, below);
        assert(left.push(digit(a % 16)).last() == right.push(digit(b % 16)).last());
        assert(left =~= left.push(digit(a % 16)).drop_last());
        assert(right =~= right.push(digit(b % 16)).drop_last());
        lemma_hexadecimal_injective(a / 16, b / 16, below);
    }
}

// ---------------------------------------------------------------------------
// What the digits of a number say
// ---------------------------------------------------------------------------

/// The number that a digit stands for: `0` to `9`, and then `a` to `f`.
pub open spec fn digit_value(c: char) -> nat {
    if '0' <= c && c <= '9' {
        (c as nat - '0' as nat) as nat
    } else {
        (c as nat - 'a' as nat + 10) as nat
    }
}

/// The number that digits spell in a base.
pub open spec fn spelt_number(digits: Seq<char>, base: nat) -> nat
    decreases digits.len(),
{
    if digits.len() == 0 {
        0
    } else {
        spelt_number(digits.drop_last(), base) * base + digit_value(digits.last())
    }
}

/// A number written in base ten spells that number, in the digits `0` to `9`,
/// and starts with a zero only when it is zero.
pub proof fn law_decimal_digits_spell_the_number(value: nat)
    ensures
        spelt_number(decimal(value), 10) == value,
        decimal(value).len() > 0,
        decimal(value)[0] == '0' <==> value == 0,
        value == 0 ==> decimal(value).len() == 1,
        forall|i: int|
            0 <= i < decimal(value).len() ==> '0' <= #[trigger] decimal(value)[i] && decimal(
                value,
            )[i] <= '9',
    decreases value,
{
    if value < 10 {
        let one = seq![digit(value)];
        assert(one.drop_last() =~= Seq::empty());
        assert(spelt_number(Seq::empty(), 10) == 0);
        assert(decimal(value) == one);
        assert(digit_value(digit(value)) == value);
        assert(one.last() == digit(value));
    } else {
        let front = decimal(value / 10);
        law_decimal_digits_spell_the_number(value / 10);
        assert(decimal(value).drop_last() =~= front);
        assert(decimal(value)[0] == front[0]);
    }
}

/// A number written in base sixteen with `width` digits spells what those
/// digits can hold of it, in the digits `0` to `9` and `a` to `f`.
pub proof fn law_hexadecimal_digits_spell_the_number(value: nat, width: nat)
    ensures
        hexadecimal(value, width).len() == width,
        spelt_number(hexadecimal(value, width), 16) == value % (vstd::arithmetic::power::pow(
            16,
            width,
        ) as nat),
        vstd::arithmetic::power::pow(16, width) > 0,
        forall|i: int|
            0 <= i < width ==> {
                let c = #[trigger] hexadecimal(value, width)[i];
                ('0' <= c && c <= '9') || ('a' <= c && c <= 'f')
            },
    decreases width,
{
    reveal(vstd::arithmetic::power::pow);
    if width == 0 {
        assert(spelt_number(Seq::empty(), 16) == 0);
        assert(vstd::arithmetic::power::pow(16, 0) == 1);
    } else {
        let below = (width - 1) as nat;
        let front = hexadecimal(value / 16, below);
        law_hexadecimal_digits_spell_the_number(value / 16, below);
        lemma_hexadecimal_len(value / 16, below);
        assert(hexadecimal(value, width).drop_last() =~= front);
        let p = vstd::arithmetic::power::pow(16, below) as nat;
        assert(vstd::arithmetic::power::pow(16, width) == 16 * p);
        assert((value / 16) % p * 16 + value % 16 == value % (16 * p)) by {
            vstd::arithmetic::div_mod::lemma_mod_breakdown(value as int, 16, p as int);
        }
        assert forall|i: int| 0 <= i < width implies {
            let c = #[trigger] hexadecimal(value, width)[i];
            ('0' <= c && c <= '9') || ('a' <= c && c <= 'f')
        } by {
            if i < below {
                assert(hexadecimal(value, width)[i] == front[i]);
            }
        }
    }
}

/// Eight hexadecimal digits spell a 32-bit number whole.
pub proof fn law_eight_digits_hold_a_suffix(suffix: u32)
    ensures
        spelt_number(hexadecimal(suffix as nat, 8), 16) == suffix,
        hexadecimal(suffix as nat, 8).len() == 8,
{
    law_hexadecimal_digits_spell_the_number(suffix as nat, 8);
    assert(vstd::arithmetic::power::pow(16, 8) > u32::MAX) by {
        reveal_with_fuel(vstd::arithmetic::power::pow, 9);
    }
    vstd::arithmetic::div_mod::lemma_small_mod(
        suffix as nat,
        vstd::arithmetic::power::pow(16, 8) as nat,
    );
}

/// A list of bytes is its items in base ten between square brackets, with a
/// comma and a space between each two.
pub proof fn law_a_byte_list_shows_every_byte(bytes: Seq<u8>, last: u8)
    ensures
        byte_list(Seq::empty()) == "[]"@,
        byte_list(seq![last]) == "["@ + decimal(last as nat) + "]"@,
        byte_list(bytes).len() >= 2,
        byte_list(bytes).drop_last() + "]"@ == byte_list(bytes),
        bytes.len() > 0 ==> byte_list(bytes.push(last)) == byte_list(bytes).drop_last() + ", "@
            + decimal(last as nat) + "]"@,
{
    reveal_strlit("[");
    reveal_strlit("]");
    reveal_strlit("[]");
    assert(byte_list(Seq::empty()) =~= "[]"@);
    assert(byte_list(bytes).drop_last() =~= "["@ + byte_items(bytes));
    assert(bytes.push(last).drop_last() =~= bytes);
    assert(byte_list(bytes).drop_last() + "]"@ =~= byte_list(bytes));
    if bytes.len() > 0 {
        assert(byte_list(bytes.push(last)) =~= byte_list(bytes).drop_last() + ", "@ + decimal(
            last as nat,
        ) + "]"@);
    }
}

/// Texts are shown one by one, in order.
pub proof fn law_texts_are_shown_in_order(texts: Seq<String>, parts: Seq<&str>)
    ensures
        text_views(texts).len() == texts.len(),
        forall|i: int| 0 <= i < texts.len() ==> #[trigger] text_views(texts)[i] == texts[i]@,
        parts_of(parts).len() == parts.len(),
        forall|i: int| 0 <= i < parts.len() ==> #[trigger] parts_of(parts)[i] == parts[i]@,
{
}

/// Splitting and joining undo each other, and what lies between is what holds
/// no `/`: the parts of a text are the only parts without one that join to
/// it.
pub proof fn law_a_text_splits_in_one_way(text: Seq<char>, parts: Seq<Seq<char>>)
    requires
        parts.len() > 0,
        forall|i: int| 0 <= i < parts.len() ==> !(#[trigger] parts[i]).contains('/'),
    ensures
        join(parts) == text <==> split(text) == parts,
{
    assert forall|i: int| 0 <= i < parts.len() implies has_no_slash(#[trigger] parts[i]) by {
        assert(!parts[i].contains('/'));
        assert forall|j: int| 0 <= j < parts[i].len() implies #[trigger] parts[i][j] != '/' by {
            assert(parts[i].contains(parts[i][j]));
        }
    }
    if join(parts) == text {
        lemma_split_join(parts);
    }
    lemma_join_split(text);
}

/// Joining puts one `/` between each two parts.
pub proof fn law_parts_join_with_a_slash(parts: Seq<Seq<char>>, last: Seq<char>)
    ensures
        join(seq![last]) == last,
        parts.len() > 0 ==> join(parts.push(last)) == join(parts) + seq!['/'] + last,
{
    if parts.len() > 0 {
        lemma_join_push(parts, last);
        reveal_strlit("/");
        assert("/"@ =~= seq!['/']);
    }
}

} // verus!
