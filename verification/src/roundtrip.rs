//! Writing a record as JSON and reading it back gives the same record.

use crate::decimal::{all_digits, decimal, is_digit, lemma_decimal_denotes};
use crate::decode::{
    blank_run, decoded, digit_run, hex_value, is_blank, is_hex, read_attribute, read_escape,
    read_key, read_list, read_list_member, read_list_tail, read_mark, read_number, read_record,
    read_text, read_text_body, read_text_member, read_value, read_value_member, read_word,
    then_mark, then_text_member,
};
use crate::json::{
    attribute_json, colon, escape_char, escaped, hex_digit, indent, list_json, list_tail,
    member_json, quoted, record_json, spaces, value_json,
};
use crate::metadata::{AttributeView, MetadataView, ValueView};
use vstd::prelude::*;

verus! {

/// Whether `b` holds nothing but blanks.
pub open spec fn all_blank(b: Seq<char>) -> bool {
    forall|i: int| 0 <= i < b.len() ==> is_blank(#[trigger] b[i])
}

/// Whether `t` is empty or starts with a character that is no blank.
pub open spec fn starts_clear(t: Seq<char>) -> bool {
    t.len() == 0 || !is_blank(t[0])
}

/// Blanks in front of a text that starts with none are the whole run of
/// blanks.
pub proof fn lemma_blank_prefix(b: Seq<char>, t: Seq<char>)
    requires
        all_blank(b),
        starts_clear(t),
    ensures
        blank_run(b + t) == b.len(),
    decreases b.len(),
{
    if b.len() == 0 {
        assert(b + t =~= t);
    } else {
        assert((b + t)[0] == b[0]);
        assert((b + t).skip(1) =~= b.skip(1) + t);
        assert forall|i: int| 0 <= i < b.skip(1).len() implies is_blank(
            #[trigger] b.skip(1)[i],
        ) by {
            assert(b.skip(1)[i] == b[i + 1]);
        }
        lemma_blank_prefix(b.skip(1), t);
    }
}

/// What stands before a line is blank.
pub proof fn lemma_indent_blank(pretty: bool, level: nat)
    ensures
        all_blank(indent(pretty, level)),
{
    let b = indent(pretty, level);
    assert forall|i: int| 0 <= i < b.len() implies is_blank(#[trigger] b[i]) by {
        if i > 0 {
            assert(b[i] == spaces(2 * level)[i - 1]);
        }
    }
}

/// A character behind blanks is read as that character.
pub proof fn lemma_mark(b: Seq<char>, c: char, t: Seq<char>)
    requires
        all_blank(b),
        !is_blank(c),
    ensures
        read_mark(b + (seq![c] + t), c) == Some((b.len() + 1) as nat),
        (b + (seq![c] + t)).skip((b.len() + 1) as int) == t,
{
    let s = b + (seq![c] + t);
    lemma_blank_prefix(b, seq![c] + t);
    assert(s[b.len() as int] == c);
    assert(s.skip((b.len() + 1) as int) =~= t);
}

/// A character behind blanks is not read as another character.
pub proof fn lemma_mark_other(b: Seq<char>, c: char, t: Seq<char>, other: char)
    requires
        all_blank(b),
        !is_blank(c),
        c != other,
    ensures
        read_mark(b + (seq![c] + t), other) is None,
{
    let s = b + (seq![c] + t);
    lemma_blank_prefix(b, seq![c] + t);
    assert(s[b.len() as int] == c);
}

/// The two digits of an escaped control character give its code back.
pub proof fn lemma_hex_pair(v: int)
    requires
        0 <= v < 0x20,
    ensures
        is_hex(hex_digit(v / 16)),
        is_hex(hex_digit(v % 16)),
        hex_value(hex_digit(v / 16)) * 16 + hex_value(hex_digit(v % 16)) == v,
{
}

/// A character's code is not negative.
pub proof fn lemma_char_code(c: char)
    ensures
        0 <= c as int,
{
}

/// One escaped character in front of the rest of a string is read as that
/// character, and the rest is read behind it.
pub proof fn lemma_escaped_char(c: char, rest: Seq<char>)
    ensures
        read_text_body(escape_char(c) + rest) == match read_text_body(rest) {
            Some((t, m)) => Some((seq![c] + t, (escape_char(c).len() + m) as nat)),
            None => None,
        },
{
    let v = c as int;
    let e = escape_char(c);
    let s = e + rest;
    lemma_char_code(c);
    if v == 0x22 || v == 0x5C || v == 0x08 || v == 0x09 || v == 0x0A || v == 0x0C || v == 0x0D {
        assert(e.len() == 2);
        assert(s[0] == '\\');
        assert(s.skip(1)[0] == e[1]);
        assert(read_escape(s.skip(1)) == Some((c, 1nat)));
        assert(s.skip(2) =~= rest);
    } else if v < 0x20 {
        lemma_hex_pair(v);
        let u = s.skip(1);
        assert(e.len() == 6);
        assert(s[0] == '\\');
        assert(u[0] == 'u' && u[1] == '0' && u[2] == '0' && u[3] == hex_digit(v / 16) && u[4]
            == hex_digit(v % 16));
        assert(read_escape(u) == Some((c, 5nat)));
        assert(s.skip(6) =~= rest);
    } else {
        assert(e.len() == 1);
        assert(s[0] == c);
        assert(s.skip(1) =~= rest);
    }
}

/// An escaped text, closed by a quotation mark, is read back as the text.
pub proof fn lemma_text_body(x: Seq<char>, t: Seq<char>)
    ensures
        read_text_body(escaped(x) + (seq!['"'] + t)) == Some((x, (escaped(x).len() + 1) as nat)),
        (escaped(x) + (seq!['"'] + t)).skip((escaped(x).len() + 1) as int) == t,
    decreases x.len(),
{
    let s = escaped(x) + (seq!['"'] + t);
    assert(s.skip((escaped(x).len() + 1) as int) =~= t);
    if x.len() == 0 {
        assert(s[0] == '"');
    } else {
        let rest = escaped(x.skip(1)) + (seq!['"'] + t);
        assert(s =~= escape_char(x[0]) + rest);
        lemma_text_body(x.skip(1), t);
        lemma_escaped_char(x[0], rest);
        assert(seq![x[0]] + x.skip(1) =~= x);
    }
}

/// A JSON string behind blanks is read back as its text.
pub proof fn lemma_text(b: Seq<char>, x: Seq<char>, t: Seq<char>)
    requires
        all_blank(b),
    ensures
        read_text(b + (quoted(x) + t)) == Some((x, (b.len() + quoted(x).len()) as nat)),
        (b + (quoted(x) + t)).skip((b.len() + quoted(x).len()) as int) == t,
{
    let s = b + (quoted(x) + t);
    let body = escaped(x) + (seq!['"'] + t);
    assert(quoted(x) + t =~= seq!['"'] + body);
    lemma_mark(b, '"', body);
    lemma_text_body(x, t);
    assert(s.skip((b.len() + quoted(x).len()) as int) =~= t);
}

/// Whether `t` is empty or starts with a character that is no digit.
pub open spec fn starts_without_digit(t: Seq<char>) -> bool {
    t.len() == 0 || !is_digit(t[0])
}

/// Digits in front of a text that starts with none are the whole run of
/// digits.
pub proof fn lemma_digit_prefix(d: Seq<char>, t: Seq<char>)
    requires
        all_digits(d),
        starts_without_digit(t),
    ensures
        digit_run(d + t) == d.len(),
    decreases d.len(),
{
    if d.len() == 0 {
        assert(d + t =~= t);
    } else {
        assert((d + t)[0] == d[0]);
        assert((d + t).skip(1) =~= d.skip(1) + t);
        assert forall|i: int| 0 <= i < d.skip(1).len() implies is_digit(
            #[trigger] d.skip(1)[i],
        ) by {
            assert(d.skip(1)[i] == d[i + 1]);
        }
        lemma_digit_prefix(d.skip(1), t);
    }
}

/// A numeral behind blanks is read back as its number.
pub proof fn lemma_number(b: Seq<char>, n: u64, t: Seq<char>)
    requires
        all_blank(b),
        starts_without_digit(t),
    ensures
        read_number(b + (decimal(n as nat) + t)) == Some(
            (n, (b.len() + decimal(n as nat).len()) as nat),
        ),
        read_mark(b + (decimal(n as nat) + t), '"') is None,
{
    let d = decimal(n as nat);
    let s = b + (d + t);
    lemma_decimal_denotes(n as nat);
    assert(is_digit(d[0]));
    assert((d + t)[0] == d[0]);
    lemma_blank_prefix(b, d + t);
    assert(s.skip(b.len() as int) =~= d + t);
    assert(s[b.len() as int] == d[0]);
    lemma_digit_prefix(d, t);
    assert((d + t).take(d.len() as int) =~= d);
}

/// A word behind blanks is read as that word, and as no string and no
/// number, where it starts with a letter.
pub proof fn lemma_word(b: Seq<char>, word: Seq<char>, t: Seq<char>)
    requires
        all_blank(b),
        word.len() > 0,
        !is_blank(word[0]),
        !is_digit(word[0]),
        word[0] != '"',
    ensures
        read_word(b + (word + t), word) == Some((b.len() + word.len()) as nat),
        read_mark(b + (word + t), '"') is None,
        read_number(b + (word + t)) is None,
        forall|other: Seq<char>|
            other.len() > 0 && other[0] != word[0] ==> read_word(b + (word + t), other) is None,
{
    let s = b + (word + t);
    assert((word + t)[0] == word[0]);
    lemma_blank_prefix(b, word + t);
    assert(s.skip(b.len() as int) =~= word + t);
    assert(s[b.len() as int] == word[0]);
    assert((word + t).take(word.len() as int) =~= word);
    assert((word + t).take(0) =~= Seq::<char>::empty());
    assert forall|other: Seq<char>| other.len() > 0 && other[0] != word[0] implies read_word(
        s,
        other,
    ) is None by {
        if other.len() <= (word + t).len() {
            assert((word + t).take(other.len() as int)[0] == word[0]);
        }
    }
}

/// A scalar behind blanks is read back as itself.
pub proof fn lemma_value(b: Seq<char>, v: ValueView, t: Seq<char>)
    requires
        all_blank(b),
        starts_without_digit(t),
    ensures
        read_value(b + (value_json(v) + t)) == Some(
            (v, (b.len() + value_json(v).len()) as nat),
        ),
{
    match v {
        ValueView::Text(x) => {
            lemma_text(b, x, t);
        },
        ValueView::Number(n) => {
            lemma_number(b, n, t);
        },
        ValueView::Null => {
            lemma_word(b, seq!['n', 'u', 'l', 'l'], t);
        },
        ValueView::Bool(flag) => {
            lemma_word(b, value_json(v), t);
            assert(seq!['n', 'u', 'l', 'l'][0] == 'n');
            assert(seq!['t', 'r', 'u', 'e'][0] == 't');
            assert(seq!['f', 'a', 'l', 's', 'e'][0] == 'f');
        },
    }
}

/// What stands between a colon and the value behind it.
pub open spec fn gap(pretty: bool) -> Seq<char> {
    if pretty {
        seq![' ']
    } else {
        Seq::empty()
    }
}

/// A key and its colon, behind blanks, are read as that key; what is left
/// is the gap and what follows.
pub proof fn lemma_key(b: Seq<char>, key: Seq<char>, pretty: bool, t: Seq<char>)
    requires
        all_blank(b),
    ensures
        read_key(b + (quoted(key) + (colon(pretty) + t)), key) == Some(
            (b.len() + quoted(key).len() + 1) as nat,
        ),
        (b + (quoted(key) + (colon(pretty) + t))).skip((b.len() + quoted(key).len() + 1) as int) == gap(
            pretty,
        ) + t,
        all_blank(gap(pretty)),
{
    let rest = colon(pretty) + t;
    let s = b + (quoted(key) + rest);
    lemma_text(b, key, rest);
    let none = Seq::<char>::empty();
    assert(rest =~= none + (seq![':'] + (gap(pretty) + t)));
    lemma_mark(none, ':', gap(pretty) + t);
    assert(s.skip((b.len() + quoted(key).len() + 1) as int) =~= gap(pretty) + t);
}

/// Four pieces and what follows them, taken one behind the other.
pub proof fn lemma_regroup(
    a: Seq<char>,
    b: Seq<char>,
    c: Seq<char>,
    d: Seq<char>,
    t: Seq<char>,
)
    ensures
        (a + b + c + d) + t == a + (b + (c + (d + t))),
        (a + b + c + d).len() == a.len() + b.len() + c.len() + d.len(),
{
    assert((a + b + c + d) + t =~= a + (b + (c + (d + t))));
}

/// A member whose value is a string is read back as that string.
pub proof fn lemma_text_member(
    pretty: bool,
    level: nat,
    key: Seq<char>,
    x: Seq<char>,
    t: Seq<char>,
)
    ensures
        read_text_member(member_json(pretty, level, key, quoted(x)) + t, key) == Some(
            (x, member_json(pretty, level, key, quoted(x)).len()),
        ),
{
    let b = indent(pretty, level);
    let s = member_json(pretty, level, key, quoted(x)) + t;
    lemma_indent_blank(pretty, level);
    lemma_regroup(b, quoted(key), colon(pretty), quoted(x), t);
    lemma_key(b, key, pretty, quoted(x) + t);
    lemma_text(gap(pretty), x, t);
}

/// The member `value` of an attribute is read back as its scalar.
pub proof fn lemma_value_member(pretty: bool, v: ValueView, t: Seq<char>)
    requires
        starts_without_digit(t),
    ensures
        read_value_member(member_json(pretty, 3, "value"@, value_json(v)) + t) == Some(
            (v, member_json(pretty, 3, "value"@, value_json(v)).len()),
        ),
{
    let b = indent(pretty, 3);
    let key = "value"@;
    let s = member_json(pretty, 3, key, value_json(v)) + t;
    lemma_indent_blank(pretty, 3);
    lemma_regroup(b, quoted(key), colon(pretty), value_json(v), t);
    lemma_key(b, key, pretty, value_json(v) + t);
    lemma_value(gap(pretty), v, t);
}

/// Six pieces and what follows them, taken one behind the other.
pub proof fn lemma_regroup_six(
    a: Seq<char>,
    b: Seq<char>,
    c: Seq<char>,
    d: Seq<char>,
    e: Seq<char>,
    f: Seq<char>,
    t: Seq<char>,
)
    ensures
        (a + b + c + d + e + f) + t == a + (b + (c + (d + (e + (f + t))))),
        (a + b + c + d + e + f).len() == a.len() + b.len() + c.len() + d.len() + e.len() + f.len(),
{
    assert((a + b + c + d + e + f) + t =~= a + (b + (c + (d + (e + (f + t))))));
}

/// What is left of a text behind a piece at its start.
pub proof fn lemma_left(p: Seq<char>, t: Seq<char>)
    ensures
        (p + t).skip(p.len() as int) == t,
        (p + t).len() == p.len() + t.len(),
{
    assert((p + t).skip(p.len() as int) =~= t);
}

/// What is left of a text once one more piece of it has been read.
pub proof fn lemma_advance(s: Seq<char>, at: nat, p: Seq<char>, t: Seq<char>)
    requires
        at <= s.len(),
        s.skip(at as int) == p + t,
    ensures
        at + p.len() <= s.len(),
        s.skip((at + p.len()) as int) == t,
{
    assert((p + t).len() == p.len() + t.len());
    assert(s.skip((at + p.len()) as int) =~= (p + t).skip(p.len() as int));
    assert((p + t).skip(p.len() as int) =~= t);
}

/// A mark that is read where `at` characters of `s` have been read.
pub proof fn lemma_then_mark(s: Seq<char>, at: nat, b: Seq<char>, c: char, t: Seq<char>)
    requires
        at <= s.len(),
        s.skip(at as int) == b + (seq![c] + t),
        all_blank(b),
        !is_blank(c),
    ensures
        then_mark(s, at, c) == Some((at + b.len() + 1) as nat),
        at + b.len() + 1 <= s.len(),
        s.skip((at + b.len() + 1) as int) == t,
{
    lemma_mark(b, c, t);
    lemma_join(b, seq![c], t);
    lemma_advance(s, at, b + seq![c], t);
}

/// A text with nothing in front of it.
pub proof fn lemma_bare(t: Seq<char>)
    ensures
        Seq::<char>::empty() + t == t,
        all_blank(Seq::<char>::empty()),
{
    assert(Seq::<char>::empty() + t =~= t);
}

/// An object of two members is read as an attribute, where its members are
/// read as a trait and a value.
#[verifier::rlimit(100)]
pub proof fn lemma_attribute_shape(
    b: Seq<char>,
    first: Seq<char>,
    second: Seq<char>,
    close: Seq<char>,
    t: Seq<char>,
    a: AttributeView,
)
    requires
        all_blank(b),
        all_blank(close),
        read_text_member(
            first + (seq![','] + (second + (close + (seq!['}'] + t)))),
            "trait_type"@,
        ) == Some((a.trait_type, first.len())),
        read_value_member(second + (close + (seq!['}'] + t))) == Some((a.value, second.len())),
    ensures
        read_attribute(
            b + (seq!['{'] + (first + (seq![','] + (second + (close + (seq!['}'] + t)))))),
        ) == Some((a, (b.len() + 1 + first.len() + 1 + second.len() + close.len() + 1) as nat)),
        read_mark(
            b + (seq!['{'] + (first + (seq![','] + (second + (close + (seq!['}'] + t)))))),
            ']',
        ) is None,
{
    let t4 = close + (seq!['}'] + t);
    let t3 = second + t4;
    let t2 = seq![','] + t3;
    let t1 = first + t2;
    let s = b + (seq!['{'] + t1);
    let none = Seq::<char>::empty();
    lemma_mark(b, '{', t1);
    lemma_mark_other(b, '{', t1, ']');
    let at1 = (b.len() + 1) as nat;
    lemma_advance(s, at1, first, t2);
    let at2 = (at1 + first.len()) as nat;
    lemma_bare(t2);
    lemma_then_mark(s, at2, none, ',', t3);
    let at3 = (at2 + 1) as nat;
    lemma_advance(s, at3, second, t4);
    let at4 = (at3 + second.len()) as nat;
    lemma_then_mark(s, at4, close, '}', t);
    let at5 = (at4 + close.len() + 1) as nat;
    assert(read_mark(s, '{') == Some(at1));
    assert(read_text_member(s.skip(at1 as int), "trait_type"@) == Some(
        (a.trait_type, first.len()),
    ));
    assert(then_mark(s, at1 + first.len(), ',') == Some(at3));
    assert(read_value_member(s.skip(at3 as int)) == Some((a.value, second.len())));
    assert(then_mark(s, at3 + second.len(), '}') == Some(at5));
    reveal(read_attribute);
}

/// An attribute behind blanks is read back as itself.
#[verifier::rlimit(100)]
pub proof fn lemma_attribute(b: Seq<char>, a: AttributeView, pretty: bool, t: Seq<char>)
    requires
        all_blank(b),
    ensures
        read_attribute(b + (attribute_json(a, pretty) + t)) == Some(
            (a, (b.len() + attribute_json(a, pretty).len()) as nat),
        ),
        read_mark(b + (attribute_json(a, pretty) + t), ']') is None,
{
    let first = member_json(pretty, 3, "trait_type"@, quoted(a.trait_type));
    let second = member_json(pretty, 3, "value"@, value_json(a.value));
    let close = indent(pretty, 2);
    let t4 = close + (seq!['}'] + t);
    let t2 = seq![','] + (second + t4);
    lemma_regroup_six(seq!['{'], first, seq![','], second, close, seq!['}'], t);
    lemma_text_member(pretty, 3, "trait_type"@, a.trait_type, t2);
    lemma_indent_blank(pretty, 2);
    assert(t4[0] == if pretty {
        '\n'
    } else {
        '}'
    });
    lemma_value_member(pretty, a.value, t4);
    lemma_attribute_shape(b, first, second, close, t, a);
}

/// The end of a list, behind blanks, is read as no further attribute.
pub proof fn lemma_list_tail_last(b: Seq<char>, t: Seq<char>)
    requires
        all_blank(b),
    ensures
        read_list_tail(b + (seq![']'] + t)) == Some(
            (Seq::<AttributeView>::empty(), (b.len() + 1) as nat),
        ),
{
    reveal(read_list_tail);
    lemma_mark(b, ']', t);
}

/// A comma and an attribute are read as one more attribute of a list, in
/// front of those that are read behind it.
pub proof fn lemma_list_tail_more(
    one: Seq<char>,
    a: AttributeView,
    t: Seq<char>,
    rest: Seq<AttributeView>,
    m: nat,
)
    requires
        read_attribute(one + t) == Some((a, one.len())),
        read_list_tail(t) == Some((rest, m)),
    ensures
        read_list_tail(seq![','] + (one + t)) == Some(
            (seq![a] + rest, (1 + one.len() + m) as nat),
        ),
{
    reveal(read_list_tail);
    let s = seq![','] + (one + t);
    lemma_bare(s);
    lemma_mark(Seq::empty(), ',', one + t);
    lemma_mark_other(Seq::empty(), ',', one + t, ']');
    lemma_left(one, t);
    assert(s.skip((1 + one.len()) as int) =~= t);
}

/// What follows the first attribute of a list is read back as the other
/// attributes.
#[verifier::rlimit(100)]
pub proof fn lemma_list_tail(rest: Seq<AttributeView>, pretty: bool, t: Seq<char>)
    ensures
        read_list_tail(list_tail(rest, pretty) + t) == Some(
            (rest, list_tail(rest, pretty).len()),
        ),
    decreases rest.len(),
{
    if rest.len() == 0 {
        let b = indent(pretty, 1);
        lemma_indent_blank(pretty, 1);
        lemma_list_tail_last(b, t);
        assert(list_tail(rest, pretty) + t =~= b + (seq![']'] + t));
        assert(rest =~= Seq::<AttributeView>::empty());
    } else {
        let b = indent(pretty, 2);
        let one = attribute_json(rest[0], pretty);
        let more = list_tail(rest.skip(1), pretty);
        lemma_indent_blank(pretty, 2);
        lemma_regroup(seq![','], b, one, more, t);
        lemma_attribute(b, rest[0], pretty, more + t);
        lemma_list_tail(rest.skip(1), pretty, t);
        lemma_join(b, one, more + t);
        lemma_list_tail_more(b + one, rest[0], more + t, rest.skip(1), more.len());
        assert(seq![rest[0]] + rest.skip(1) =~= rest);
    }
}

/// Two pieces and what follows them, taken one behind the other.
pub proof fn lemma_join(a: Seq<char>, b: Seq<char>, t: Seq<char>)
    ensures
        (a + b) + t == a + (b + t),
        (a + b).len() == a.len() + b.len(),
{
    assert((a + b) + t =~= a + (b + t));
}

/// Brackets with nothing between them are read as the empty list.
pub proof fn lemma_list_shape_empty(b: Seq<char>, t: Seq<char>)
    requires
        all_blank(b),
    ensures
        read_list(b + (seq!['['] + (seq![']'] + t))) == Some(
            (Seq::<AttributeView>::empty(), (b.len() + 2) as nat),
        ),
{
    let t1 = seq![']'] + t;
    lemma_mark(b, '[', t1);
    lemma_bare(t1);
    lemma_mark(Seq::empty(), ']', t);
}

/// A bracket, an attribute and what follows it are read as a list.
pub proof fn lemma_list_shape(
    b: Seq<char>,
    one: Seq<char>,
    a: AttributeView,
    t: Seq<char>,
    rest: Seq<AttributeView>,
    m: nat,
)
    requires
        all_blank(b),
        read_attribute(one + t) == Some((a, one.len())),
        read_mark(one + t, ']') is None,
        read_list_tail(t) == Some((rest, m)),
    ensures
        read_list(b + (seq!['['] + (one + t))) == Some(
            (seq![a] + rest, (b.len() + 1 + one.len() + m) as nat),
        ),
{
    let s = b + (seq!['['] + (one + t));
    lemma_mark(b, '[', one + t);
    lemma_left(one, t);
    assert(s.skip((b.len() + 1 + one.len()) as int) =~= t);
}

/// A list behind blanks is read back as its attributes.
#[verifier::rlimit(100)]
pub proof fn lemma_list(b: Seq<char>, attributes: Seq<AttributeView>, pretty: bool, t: Seq<char>)
    requires
        all_blank(b),
    ensures
        read_list(b + (list_json(attributes, pretty) + t)) == Some(
            (attributes, (b.len() + list_json(attributes, pretty).len()) as nat),
        ),
{
    if attributes.len() == 0 {
        lemma_list_shape_empty(b, t);
        assert(list_json(attributes, pretty) + t =~= seq!['['] + (seq![']'] + t));
        assert(attributes =~= Seq::<AttributeView>::empty());
    } else {
        let inner = indent(pretty, 2);
        let one = attribute_json(attributes[0], pretty);
        let more = list_tail(attributes.skip(1), pretty);
        lemma_indent_blank(pretty, 2);
        lemma_regroup(seq!['['], inner, one, more, t);
        lemma_attribute(inner, attributes[0], pretty, more + t);
        lemma_list_tail(attributes.skip(1), pretty, t);
        lemma_join(inner, one, more + t);
        lemma_list_shape(
            b,
            inner + one,
            attributes[0],
            more + t,
            attributes.skip(1),
            more.len(),
        );
        assert(seq![attributes[0]] + attributes.skip(1) =~= attributes);
    }
}

/// A key and a list behind it are read as the member `attributes`.
pub proof fn lemma_list_member_shape(
    s: Seq<char>,
    k: nat,
    rest: Seq<char>,
    attributes: Seq<AttributeView>,
    n: nat,
)
    requires
        read_key(s, "attributes"@) == Some(k),
        k <= s.len(),
        s.skip(k as int) == rest,
        read_list(rest) == Some((attributes, n)),
    ensures
        read_list_member(s) == Some((attributes, (k + n) as nat)),
{
}

/// The member `attributes` of a record is read back as its list.
#[verifier::rlimit(100)]
pub proof fn lemma_list_member(pretty: bool, attributes: Seq<AttributeView>, t: Seq<char>)
    ensures
        read_list_member(member_json(pretty, 1, "attributes"@, list_json(attributes, pretty)) + t)
            == Some(
            (attributes, member_json(pretty, 1, "attributes"@, list_json(attributes, pretty)).len()),
        ),
{
    let b = indent(pretty, 1);
    let key = "attributes"@;
    let list = list_json(attributes, pretty);
    lemma_indent_blank(pretty, 1);
    lemma_regroup(b, quoted(key), colon(pretty), list, t);
    lemma_key(b, key, pretty, list + t);
    lemma_list(gap(pretty), attributes, pretty, t);
    lemma_list_member_shape(
        b + (quoted(key) + (colon(pretty) + (list + t))),
        (b.len() + quoted(key).len() + 1) as nat,
        gap(pretty) + (list + t),
        attributes,
        (gap(pretty).len() + list.len()) as nat,
    );
}

/// Ten pieces, taken one behind the other.
pub proof fn lemma_regroup_ten(
    a: Seq<char>,
    b: Seq<char>,
    c: Seq<char>,
    d: Seq<char>,
    e: Seq<char>,
    f: Seq<char>,
    g: Seq<char>,
    h: Seq<char>,
    i: Seq<char>,
    j: Seq<char>,
)
    ensures
        a + b + c + d + e + f + g + h + i + j == a + (b + (c + (d + (e + (f + (g + (h + (i
            + j)))))))),
{
    assert(a + b + c + d + e + f + g + h + i + j =~= a + (b + (c + (d + (e + (f + (g + (h + (i
        + j)))))))));
}

/// An object of four members is read as a record, where its members are
/// read as a name, a description, an image and a list of attributes.
#[verifier::rlimit(100)]
pub proof fn lemma_record_shape(
    first: Seq<char>,
    second: Seq<char>,
    third: Seq<char>,
    fourth: Seq<char>,
    close: Seq<char>,
    m: MetadataView,
)
    requires
        all_blank(close),
        read_text_member(
            first + (seq![','] + (second + (seq![','] + (third + (seq![','] + (fourth + (close
                + seq!['}']))))))),
            "name"@,
        ) == Some((m.name, first.len())),
        read_text_member(
            second + (seq![','] + (third + (seq![','] + (fourth + (close + seq!['}']))))),
            "description"@,
        ) == Some((m.description, second.len())),
        read_text_member(third + (seq![','] + (fourth + (close + seq!['}']))), "image"@) == Some(
            (m.image, third.len()),
        ),
        read_list_member(fourth + (close + seq!['}'])) == Some((m.attributes, fourth.len())),
    ensures
        decoded(
            seq!['{'] + (first + (seq![','] + (second + (seq![','] + (third + (seq![','] + (fourth
                + (close + seq!['}'])))))))),
        ) == Some(m),
{
    let none = Seq::<char>::empty();
    let t8 = close + seq!['}'];
    let t7 = fourth + t8;
    let t6 = seq![','] + t7;
    let t5 = third + t6;
    let t4 = seq![','] + t5;
    let t3 = second + t4;
    let t2 = seq![','] + t3;
    let t1 = first + t2;
    let s = seq!['{'] + t1;
    lemma_bare(s);
    lemma_mark(none, '{', t1);
    let a = 1nat;
    assert(read_mark(s, '{') == Some(a));
    lemma_advance(s, a, first, t2);
    let b = (a + first.len()) as nat;
    assert(then_text_member(s, a, "name"@) == Some((m.name, b)));
    lemma_bare(t2);
    lemma_then_mark(s, b, none, ',', t3);
    let c = (b + 1) as nat;
    lemma_advance(s, c, second, t4);
    let d = (c + second.len()) as nat;
    assert(then_text_member(s, c, "description"@) == Some((m.description, d)));
    lemma_bare(t4);
    lemma_then_mark(s, d, none, ',', t5);
    let e = (d + 1) as nat;
    lemma_advance(s, e, third, t6);
    let f = (e + third.len()) as nat;
    assert(then_text_member(s, e, "image"@) == Some((m.image, f)));
    lemma_bare(t6);
    lemma_then_mark(s, f, none, ',', t7);
    let g = (f + 1) as nat;
    lemma_advance(s, g, fourth, t8);
    let h = fourth.len();
    assert(read_list_member(s.skip(g as int)) == Some((m.attributes, h)));
    assert(t8 =~= close + (seq!['}'] + none));
    lemma_then_mark(s, g + h, close, '}', none);
    let i = (g + h + close.len() + 1) as nat;
    assert(then_mark(s, g + h, '}') == Some(i));
    assert(s.skip(i as int) == none);
    assert(i <= s.len());
    assert(s.skip(i as int).len() == s.len() - i);
    assert(read_record(s) == Some((m, i)));
}

/// Writing a record as JSON and reading the text back gives a record that
/// is equal to the first in every field. This holds of the compact form and
/// of the indented form.
#[verifier::rlimit(100)]
pub proof fn lemma_json_round_trip(m: MetadataView, pretty: bool)
    ensures
        decoded(record_json(m, pretty)) == Some(m),
{
    let first = member_json(pretty, 1, "name"@, quoted(m.name));
    let second = member_json(pretty, 1, "description"@, quoted(m.description));
    let third = member_json(pretty, 1, "image"@, quoted(m.image));
    let fourth = member_json(pretty, 1, "attributes"@, list_json(m.attributes, pretty));
    let close = indent(pretty, 0);
    let comma = seq![','];
    let t8 = close + seq!['}'];
    let t6 = comma + (fourth + t8);
    let t4 = comma + (third + t6);
    let t2 = comma + (second + t4);
    lemma_regroup_ten(
        seq!['{'],
        first,
        comma,
        second,
        comma,
        third,
        comma,
        fourth,
        close,
        seq!['}'],
    );
    lemma_indent_blank(pretty, 0);
    lemma_text_member(pretty, 1, "name"@, m.name, t2);
    lemma_text_member(pretty, 1, "description"@, m.description, t4);
    lemma_text_member(pretty, 1, "image"@, m.image, t6);
    lemma_list_member(pretty, m.attributes, t8);
    lemma_record_shape(first, second, third, fourth, close, m);
}

} // verus!
