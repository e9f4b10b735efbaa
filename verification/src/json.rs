//! The JSON text of a metadata record, written compactly or indented.

use crate::decimal::{decimal, push_decimal};
use crate::metadata::{
    attribute_views, Attribute, AttributeValue, AttributeView, MetadataView, NftMetadata, ValueView,
};
use vstd::prelude::*;
use vstd::string::StringExecFns;

verus! {

/// `serde_json::Error`, the error of the outside serializer. Nothing is
/// known of what it holds.
#[verifier::external_type_specification]
#[verifier::external_body]
pub struct ExJsonError(serde_json::Error);

/// The lower-case hexadecimal digit of value `d`.
pub open spec fn hex_digit(d: int) -> char
    recommends
        0 <= d < 16,
{
    if d < 10 {
        (48 + d) as char
    } else {
        (87 + d) as char
    }
}

/// How one character stands inside a JSON string: the quotation mark and
/// the backslash behind a backslash, the control characters below U+0020 by
/// their short escape where there is one and else as `\u00` and two
/// hexadecimal digits, every other character as itself.
pub open spec fn escape_char(c: char) -> Seq<char> {
    let v = c as int;
    if v == 0x22 {
        seq!['\\', '"']
    } else if v == 0x5C {
        seq!['\\', '\\']
    } else if v == 0x08 {
        seq!['\\', 'b']
    } else if v == 0x09 {
        seq!['\\', 't']
    } else if v == 0x0A {
        seq!['\\', 'n']
    } else if v == 0x0C {
        seq!['\\', 'f']
    } else if v == 0x0D {
        seq!['\\', 'r']
    } else if v < 0x20 {
        seq!['\\', 'u', '0', '0', hex_digit(v / 16), hex_digit(v % 16)]
    } else {
        seq![c]
    }
}

/// The characters of `s`, each as it stands inside a JSON string.
pub open spec fn escaped(s: Seq<char>) -> Seq<char>
    decreases s.len(),
{
    if s.len() == 0 {
        Seq::empty()
    } else {
        escape_char(s[0]) + escaped(s.skip(1))
    }
}

/// `s` as a JSON string: escaped, between quotation marks.
pub open spec fn quoted(s: Seq<char>) -> Seq<char> {
    seq!['"'] + escaped(s) + seq!['"']
}

/// A scalar as JSON. A number stands as its decimal numeral, never between
/// quotation marks.
pub open spec fn value_json(v: ValueView) -> Seq<char> {
    match v {
        ValueView::Null => seq!['n', 'u', 'l', 'l'],
        ValueView::Bool(b) => if b {
            seq!['t', 'r', 'u', 'e']
        } else {
            seq!['f', 'a', 'l', 's', 'e']
        },
        ValueView::Number(n) => decimal(n as nat),
        ValueView::Text(t) => quoted(t),
    }
}

/// `n` spaces.
pub open spec fn spaces(n: nat) -> Seq<char> {
    Seq::new(n, |i: int| ' ')
}

/// What stands before a line of the indented form at the given depth: a
/// line feed and two spaces for each level. The compact form has none.
pub open spec fn indent(pretty: bool, level: nat) -> Seq<char> {
    if pretty {
        seq!['\n'] + spaces(2 * level)
    } else {
        Seq::empty()
    }
}

/// What parts a key from its value: a colon, and in the indented form a
/// space behind it.
pub open spec fn colon(pretty: bool) -> Seq<char> {
    if pretty {
        seq![':', ' ']
    } else {
        seq![':']
    }
}

/// One member of an object: on a line of its own in the indented form, the
/// key as a JSON string, a colon, and the value.
pub open spec fn member_json(pretty: bool, level: nat, key: Seq<char>, value: Seq<char>) -> Seq<
    char,
> {
    indent(pretty, level) + quoted(key) + colon(pretty) + value
}

/// An attribute as a JSON object: `trait_type`, then `value`.
pub open spec fn attribute_json(a: AttributeView, pretty: bool) -> Seq<char> {
    seq!['{'] + member_json(pretty, 3, "trait_type"@, quoted(a.trait_type)) + seq![',']
        + member_json(pretty, 3, "value"@, value_json(a.value)) + indent(pretty, 2) + seq!['}']
}

/// What follows the first attribute of a list: each further attribute
/// behind a comma, then the end of the list.
pub open spec fn list_tail(rest: Seq<AttributeView>, pretty: bool) -> Seq<char>
    decreases rest.len(),
{
    if rest.len() == 0 {
        indent(pretty, 1) + seq![']']
    } else {
        seq![','] + indent(pretty, 2) + attribute_json(rest[0], pretty) + list_tail(
            rest.skip(1),
            pretty,
        )
    }
}

/// The attributes as a JSON array, in their order. An empty list is `[]`.
pub open spec fn list_json(attributes: Seq<AttributeView>, pretty: bool) -> Seq<char> {
    if attributes.len() == 0 {
        seq!['[', ']']
    } else {
        seq!['['] + indent(pretty, 2) + attribute_json(attributes[0], pretty) + list_tail(
            attributes.skip(1),
            pretty,
        )
    }
}

/// A record as a JSON object whose keys stand in the order `name`,
/// `description`, `image`, `attributes`. The compact form has no white space
/// between its tokens; the indented form has one member a line, two spaces
/// a level.
pub open spec fn record_json(m: MetadataView, pretty: bool) -> Seq<char> {
    seq!['{'] + member_json(pretty, 1, "name"@, quoted(m.name)) + seq![','] + member_json(
        pretty,
        1,
        "description"@,
        quoted(m.description),
    ) + seq![','] + member_json(pretty, 1, "image"@, quoted(m.image)) + seq![','] + member_json(
        pretty,
        1,
        "attributes"@,
        list_json(m.attributes, pretty),
    ) + indent(pretty, 0) + seq!['}']
}

/// `serde_json::to_string` on a string slice. It cannot fail there, and
/// writes the slice between quotation marks with `"` and `\` behind a
/// backslash, U+0008, U+0009, U+000A, U+000C and U+000D as `\b`, `\t`, `\n`,
/// `\f` and `\r`, the other characters below U+0020 as `\u00` and two
/// lower-case hexadecimal digits, and every other character unchanged.
#[verifier::external_body]
fn quote(s: &str) -> (r: Result<String, serde_json::Error>)
    ensures
        r is Ok,
        r->Ok_0@ == quoted(s@),
{
    serde_json::to_string(s)
}

/// Appends `s` as a JSON string.
fn push_quoted(out: &mut String, s: &str)
    ensures
        final(out)@ == old(out)@ + quoted(s@),
{
    match quote(s) {
        Ok(t) => {
            out.append(t.as_str());
        },
        Err(_) => {},
    }
}

/// Appends a scalar as JSON.
fn push_value(out: &mut String, v: &AttributeValue)
    ensures
        final(out)@ == old(out)@ + value_json(v@),
{
    match v {
        AttributeValue::Null => {
            proof {
                reveal_strlit("null");
                assert("null"@ =~= seq!['n', 'u', 'l', 'l']);
            }
            out.append("null");
        },
        AttributeValue::Bool(b) => {
            proof {
                reveal_strlit("true");
                reveal_strlit("false");
                assert("true"@ =~= seq!['t', 'r', 'u', 'e']);
                assert("false"@ =~= seq!['f', 'a', 'l', 's', 'e']);
            }
            if *b {
                out.append("true");
            } else {
                out.append("false");
            }
        },
        AttributeValue::Number(n) => {
            push_decimal(*n, out);
        },
        AttributeValue::Text(t) => {
            push_quoted(out, t.as_str());
        },
    }
}

/// Appends what stands before a line at the given depth.
fn push_indent(out: &mut String, pretty: bool, level: usize)
    requires
        level <= 8,
    ensures
        final(out)@ == old(out)@ + indent(pretty, level as nat),
{
    if !pretty {
        assert(out@ =~= old(out)@ + indent(pretty, level as nat));
        return ;
    }
    out.push('\n');
    let mut i: usize = 0;
    while i < 2 * level
        invariant
            level <= 8,
            i <= 2 * level,
            out@ == old(out)@ + (seq!['\n'] + spaces(i as nat)),
        decreases 2 * level - i,
    {
        out.push(' ');
        assert(spaces(i as nat).push(' ') =~= spaces((i + 1) as nat));
        assert(out@ =~= old(out)@ + (seq!['\n'] + spaces((i + 1) as nat)));
        i += 1;
    }
}

/// Appends one character.
fn push_mark(out: &mut String, c: char)
    ensures
        final(out)@ == old(out)@ + seq![c],
{
    out.push(c);
    assert(out@ =~= old(out)@ + seq![c]);
}

/// Appends a member's key and the colon behind it.
fn push_key(out: &mut String, pretty: bool, level: usize, key: &str)
    requires
        level <= 8,
    ensures
        final(out)@ == old(out)@ + (indent(pretty, level as nat) + quoted(key@) + colon(pretty)),
{
    push_indent(out, pretty, level);
    push_quoted(out, key);
    out.push(':');
    if pretty {
        out.push(' ');
    }
    assert(final(out)@ =~= old(out)@ + (indent(pretty, level as nat) + quoted(key@) + colon(
        pretty,
    )));
}

/// Appends a member whose value is a text.
fn push_text_member(out: &mut String, pretty: bool, level: usize, key: &str, value: &str)
    requires
        level <= 8,
    ensures
        final(out)@ == old(out)@ + member_json(pretty, level as nat, key@, quoted(value@)),
{
    push_key(out, pretty, level, key);
    push_quoted(out, value);
    assert(final(out)@ =~= old(out)@ + member_json(pretty, level as nat, key@, quoted(value@)));
}

/// Appends an attribute as a JSON object.
fn push_attribute(out: &mut String, a: &Attribute, pretty: bool)
    ensures
        final(out)@ == old(out)@ + attribute_json(a@, pretty),
{
    push_mark(out, '{');
    push_text_member(out, pretty, 3, "trait_type", a.trait_type.as_str());
    push_mark(out, ',');
    let ghost before = out@;
    push_key(out, pretty, 3, "value");
    push_value(out, &a.value);
    assert(out@ =~= before + member_json(pretty, 3, "value"@, value_json(a.value@)));
    push_indent(out, pretty, 2);
    push_mark(out, '}');
    assert(final(out)@ =~= old(out)@ + attribute_json(a@, pretty));
}

/// Appends the attributes as a JSON array.
fn push_list(out: &mut String, attributes: &Vec<Attribute>, pretty: bool)
    ensures
        final(out)@ == old(out)@ + list_json(attribute_views(attributes@), pretty),
{
    let ghost views = attribute_views(attributes@);
    push_mark(out, '[');
    if attributes.len() == 0 {
        push_mark(out, ']');
        assert(out@ =~= old(out)@ + seq!['[', ']']);
        return ;
    }
    push_indent(out, pretty, 2);
    push_attribute(out, &attributes[0], pretty);
    let mut i: usize = 1;
    proof {
        assert(views.skip(1) =~= views.skip(i as int));
        assert(out@ + list_tail(views.skip(1), pretty) =~= old(out)@ + list_json(views, pretty));
    }
    while i < attributes.len()
        invariant
            1 <= i <= attributes@.len(),
            views == attribute_views(attributes@),
            out@ + list_tail(views.skip(i as int), pretty) == old(out)@ + list_json(views, pretty),
        decreases attributes@.len() - i,
    {
        let ghost before = out@;
        push_mark(out, ',');
        push_indent(out, pretty, 2);
        push_attribute(out, &attributes[i], pretty);
        proof {
            let rest = views.skip(i as int);
            assert(rest[0] == attributes@[i as int]@);
            assert(rest.skip(1) =~= views.skip(i + 1));
            assert(out@ + list_tail(views.skip(i + 1), pretty) =~= before + list_tail(rest, pretty));
        }
        i += 1;
    }
    let ghost before = out@;
    push_indent(out, pretty, 1);
    push_mark(out, ']');
    assert(out@ =~= before + list_tail(views.skip(i as int), pretty));
}

/// Writes a record as JSON.
fn render(m: &NftMetadata, pretty: bool) -> (out: String)
    ensures
        out@ == record_json(m@, pretty),
{
    let mut out = String::new();
    out.push('{');
    assert(out@ =~= seq!['{']);
    push_text_member(&mut out, pretty, 1, "name", m.name.as_str());
    push_mark(&mut out, ',');
    push_text_member(&mut out, pretty, 1, "description", m.description.as_str());
    push_mark(&mut out, ',');
    push_text_member(&mut out, pretty, 1, "image", m.image.as_str());
    push_mark(&mut out, ',');
    let ghost before = out@;
    push_key(&mut out, pretty, 1, "attributes");
    push_list(&mut out, &m.attributes, pretty);
    assert(out@ =~= before + member_json(
        pretty,
        1,
        "attributes"@,
        list_json(m@.attributes, pretty),
    ));
    push_indent(&mut out, pretty, 0);
    push_mark(&mut out, '}');
    out
}

impl NftMetadata {
    /// The record as compact JSON: one line, no space between tokens.
    pub fn to_json(&self) -> (out: String)
        ensures
            out@ == record_json(self@, false),
    {
        render(self, false)
    }

    /// The record as indented JSON: one key a line, two spaces a level.
    pub fn to_json_pretty(&self) -> (out: String)
        ensures
            out@ == record_json(self@, true),
    {
        render(self, true)
    }
}

} // verus!
