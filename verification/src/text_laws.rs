//! What texts, numbers in decimal and JSON values are to one another.

use vstd::prelude::*;

use crate::json::{is_float_zero, json_same, JsonModel};
use crate::json_text::{depth_limit, is_integer_text, json_printed, object_text, readable,
    scanned, scan_start, spelled_members, Scan};
use crate::text::{decimal, text_before};

verus! {

/// Texts are ordered by the first character in which they differ, and a text comes
/// before every longer one that starts with it.
pub proof fn law_texts_are_ordered_by_their_first_difference(
    a: Seq<char>,
    b: Seq<char>,
    at: int,
)
    requires
        0 <= at <= a.len(),
        at <= b.len(),
        forall|i: int| 0 <= i < at ==> #[trigger] a[i] == b[i],
    ensures
        at < a.len() && at < b.len() && (a[at] as int) < (b[at] as int) ==> text_before(a, b),
        at < a.len() && at < b.len() && (a[at] as int) > (b[at] as int) ==> !text_before(a, b),
        at == a.len() && at < b.len() ==> text_before(a, b),
        at == b.len() ==> !text_before(a, b),
    decreases at,
{
    if at > 0 {
        let (x, y) = (a.drop_first(), b.drop_first());
        assert forall|i: int| 0 <= i < at - 1 implies #[trigger] x[i] == y[i] by {
            assert(x[i] == a[i + 1] && y[i] == b[i + 1]);
        }
        assert(a[0] == b[0]);
        law_texts_are_ordered_by_their_first_difference(x, y, at - 1);
    }
}

/// The number that digits spell.
pub open spec fn spelled(digits: Seq<char>) -> nat
    decreases digits.len(),
{
    if digits.len() == 0 {
        0
    } else {
        spelled(digits.drop_last()) * 10 + (digits.last() as nat - '0' as nat) as nat
    }
}

/// A number in decimal spells that number in digits, without a zero in front.
pub proof fn law_decimals_spell_their_number(n: nat)
    ensures
        spelled(decimal(n)) == n,
        decimal(n).len() > 0,
        forall|i: int| 0 <= i < decimal(n).len() ==> '0' <= #[trigger] decimal(n)[i] <= '9',
        n > 0 ==> decimal(n)[0] != '0',
        n == 0 ==> decimal(n) == seq!['0'],
    decreases n,
{
    crate::text::lemma_decimal_digits(n);
    if n >= 10 {
        law_decimals_spell_their_number(n / 10);
        assert(decimal(n).drop_last() =~= decimal(n / 10));
        assert(decimal(n)[0] == decimal(n / 10)[0]);
    } else {
        let one = decimal(n);
        assert(one.drop_last() =~= Seq::empty());
        assert(spelled(one.drop_last()) == 0);
    }
}

/// A value without a floating-point zero.
pub open spec fn zero_free(value: JsonModel) -> bool
    decreases value,
{
    match value {
        JsonModel::Number(text) => !is_float_zero(text),
        JsonModel::Array(items) => forall|i: int|
            0 <= i < items.len() ==> zero_free(#[trigger] items[i]),
        JsonModel::Object(members) => forall|i: int|
            0 <= i < members.len() ==> zero_free((#[trigger] members[i]).value),
        _ => true,
    }
}

/// Values that are taken for the same are the same, but for the sign of a
/// floating-point zero.
pub proof fn law_same_values_are_equal(a: JsonModel, b: JsonModel)
    requires
        json_same(a, b),
        zero_free(a),
    ensures
        a == b,
    decreases a,
{
    match (a, b) {
        (JsonModel::Array(x), JsonModel::Array(y)) => {
            assert forall|i: int| 0 <= i < x.len() implies x[i] == y[i] by {
                law_same_values_are_equal(x[i], y[i]);
            }
            assert(x =~= y);
        },
        (JsonModel::Object(x), JsonModel::Object(y)) => {
            assert forall|i: int| 0 <= i < x.len() implies x[i] == y[i] by {
                law_same_values_are_equal(x[i].value, y[i].value);
            }
            assert(x =~= y);
        },
        _ => {},
    }
}

/// Every value is the same as itself, and sameness goes both ways. Zeros of either
/// sign are the same, and no other number is the same as a zero.
pub proof fn law_sameness_is_mutual(a: JsonModel, b: JsonModel, number: Seq<char>)
    ensures
        json_same(a, a),
        json_same(a, b) == json_same(b, a),
        json_same(JsonModel::Number("0.0"@), JsonModel::Number("-0.0"@)),
        number != "0.0"@ && number != "-0.0"@ ==> !json_same(
            JsonModel::Number("0.0"@),
            JsonModel::Number(number),
        ),
    decreases a,
{
    crate::json::lemma_json_same_reflexive(a);
    lemma_mutual(a, b);
    lemma_mutual(b, a);
}

proof fn lemma_mutual(a: JsonModel, b: JsonModel)
    ensures
        json_same(a, b) ==> json_same(b, a),
    decreases a,
{
    if json_same(a, b) {
        match (a, b) {
            (JsonModel::Array(x), JsonModel::Array(y)) => {
                assert forall|i: int| 0 <= i < y.len() implies json_same(#[trigger] y[i], x[i]) by {
                    assert(json_same(x[i], y[i]));
                    lemma_mutual(x[i], y[i]);
                }
            },
            (JsonModel::Object(x), JsonModel::Object(y)) => {
                assert forall|i: int| 0 <= i < y.len() implies (#[trigger] y[i]).name == x[i].name
                    && json_same(y[i].value, x[i].value) by {
                    assert(x[i].name == y[i].name);
                    lemma_mutual(x[i].value, y[i].value);
                }
            },
            _ => {},
        }
    }
}

/// Plain values survive being printed and read again: null, truth values, texts,
/// whole numbers, and arrays and objects of such values that do not nest too deep.
pub proof fn law_plain_values_survive(value: JsonModel, n: u64, text: Seq<char>, depth: nat)
    ensures
        readable(JsonModel::Null, depth),
        readable(JsonModel::Bool(true), depth),
        readable(JsonModel::Bool(false), depth),
        readable(JsonModel::Text(text), depth),
        readable(JsonModel::Number(decimal(n as nat)), depth),
        1 <= n <= 0x8000_0000_0000_0000 ==> readable(
            JsonModel::Number(seq!['-'] + decimal(n as nat)),
            depth,
        ),
        value matches JsonModel::Array(items) ==> depth > 0 && (forall|i: int|
            0 <= i < items.len() ==> readable(#[trigger] items[i], (depth - 1) as nat)) ==> readable(
            value,
            depth,
        ),
        value matches JsonModel::Object(members) ==> depth > 0 && crate::json::ascending(members)
            && (forall|i: int|
            0 <= i < members.len() ==> readable(
                (#[trigger] members[i]).value,
                (depth - 1) as nat,
            )) ==> readable(value, depth),
        depth_limit() == 127,
{
    let k = n as nat;
    assert(is_integer_text(decimal(k)));
    if 1 <= n <= 0x8000_0000_0000_0000 {
        assert(is_integer_text(seq!['-'] + decimal(k)));
    }
}

/// An object is written as its members between braces: each name and its value with
/// a colon between, and a comma between one member and the next.
pub proof fn law_objects_are_written_member_by_member(
    members: Seq<crate::json::MemberModel>,
    member: crate::json::MemberModel,
)
    ensures
        object_text(seq![member]) == seq!['{'] + json_printed(JsonModel::Text(member.name)) + seq![
            ':',
        ] + json_printed(member.value) + seq!['}'],
        members.len() > 0 ==> object_text(members.push(member)) == object_text(members).drop_last()
            + seq![','] + json_printed(JsonModel::Text(member.name)) + seq![':'] + json_printed(
            member.value,
        ) + seq!['}'],
{
    assert(object_text(seq![member]) =~= seq!['{'] + json_printed(JsonModel::Text(member.name))
        + seq![':'] + json_printed(member.value) + seq!['}']);
    if members.len() > 0 {
        assert(members.push(member).drop_last() =~= members);
        assert(object_text(members).drop_last() =~= seq!['{']
            + crate::json_text::members_text(members));
        assert(object_text(members.push(member)) =~= object_text(members).drop_last() + seq![',']
            + json_printed(JsonModel::Text(member.name)) + seq![':'] + json_printed(member.value)
            + seq!['}']);
    }
}

/// A reader that stands between the members of the outermost record.
pub open spec fn between_members(text: Seq<char>) -> bool {
    scanned(scan_start(), text).depth == 1 && !scanned(scan_start(), text).quoted && !scanned(
        scan_start(),
        text,
    ).escaped
}

/// The members of a record are counted by the commas between them: a comma between
/// members starts one more, and one inside a text or a nested value does not.
pub proof fn law_members_are_counted_by_commas(text: Seq<char>, inner: Seq<char>, c: char)
    requires
        between_members(text),
        forall|i: int| 0 <= i < inner.len() ==> (#[trigger] inner[i]) != '"' && inner[i] != '\\',
    ensures
        between_members(seq!['{']) && spelled_members(seq!['{']) == 1,
        spelled_members(text.push(',')) == spelled_members(text) + 1,
        between_members(text.push(',')),
        spelled_members(text.push('"') + inner.push('"')) == spelled_members(text),
        between_members(text.push('"') + inner.push('"')),
        c != ',' && c != '"' && c != '[' && c != ']' && c != '{' && c != '}' ==> spelled_members(
            text.push(c),
        ) == spelled_members(text) && between_members(text.push(c)),
        spelled_members(text.push('[').push(',').push(']')) == spelled_members(text)
            && between_members(text.push('[').push(',').push(']')),
{
    crate::json_text::lemma_scanned_push(scan_start(), Seq::empty(), '{');
    assert(Seq::<char>::empty().push('{') =~= seq!['{']);
    crate::json_text::lemma_scanned_push(scan_start(), text, ',');
    crate::json_text::lemma_scanned_push(scan_start(), text, '"');
    crate::json_text::lemma_scanned_push(scan_start(), text, c);
    let open = scanned(scan_start(), text.push('"'));
    lemma_in_quotes(open, inner);
    crate::json_text::lemma_scanned_push(open, inner, '"');
    crate::json_text::lemma_scanned_add(scan_start(), text.push('"'), inner.push('"'));
    crate::json_text::lemma_scanned_push(scan_start(), text, '[');
    crate::json_text::lemma_scanned_push(scan_start(), text.push('['), ',');
    crate::json_text::lemma_scanned_push(scan_start(), text.push('[').push(','), ']');
}

proof fn lemma_in_quotes(open: Scan, inner: Seq<char>)
    requires
        open.quoted,
        !open.escaped,
        forall|i: int| 0 <= i < inner.len() ==> (#[trigger] inner[i]) != '"' && inner[i] != '\\',
    ensures
        scanned(open, inner) == open,
    decreases inner.len(),
{
    if inner.len() > 0 {
        let rest = inner.drop_last();
        assert(forall|i: int| 0 <= i < rest.len() ==> #[trigger] rest[i] == inner[i]);
        lemma_in_quotes(open, rest);
        assert(inner.last() == inner[inner.len() - 1]);
    }
}

/// A backslash in a text takes the character behind it with it: an escaped quote does
/// not end the text.
pub proof fn law_escapes_do_not_end_a_text(text: Seq<char>, c: char)
    requires
        between_members(text),
    ensures
        between_members(text.push('"').push('\\').push(c).push('"')),
        spelled_members(text.push('"').push('\\').push(c).push('"')) == spelled_members(text),
        scanned(scan_start(), text.push('"').push('\\').push(c)).quoted,
{
    let a = text.push('"');
    let b = a.push('\\');
    let d = b.push(c);
    crate::json_text::lemma_scanned_push(scan_start(), text, '"');
    crate::json_text::lemma_scanned_push(scan_start(), a, '\\');
    crate::json_text::lemma_scanned_push(scan_start(), b, c);
    crate::json_text::lemma_scanned_push(scan_start(), d, '"');
}

/// Outside texts, brackets and braces open and close levels, and only commas of the
/// outermost level count.
pub proof fn law_brackets_nest(text: Seq<char>)
    requires
        !scanned(scan_start(), text).quoted,
        !scanned(scan_start(), text).escaped,
    ensures
        ({
            let scan = scanned(scan_start(), text);
            let after = |c: char| scanned(scan_start(), text.push(c));
            &&& after('[').depth == scan.depth + 1 && after('{').depth == scan.depth + 1
            &&& after(']').depth == scan.depth - 1 && after('}').depth == scan.depth - 1
            &&& after('[').commas == scan.commas && after('{').commas == scan.commas
            &&& after(']').commas == scan.commas && after('}').commas == scan.commas
            &&& after(',').depth == scan.depth
            &&& scan.depth != 1 ==> after(',').commas == scan.commas
            &&& scan.depth == 1 ==> after(',').commas == scan.commas + 1
        }),
{
    crate::json_text::lemma_scanned_push(scan_start(), text, '[');
    crate::json_text::lemma_scanned_push(scan_start(), text, ']');
    crate::json_text::lemma_scanned_push(scan_start(), text, '{');
    crate::json_text::lemma_scanned_push(scan_start(), text, '}');
    crate::json_text::lemma_scanned_push(scan_start(), text, ',');
}

} // verus!
