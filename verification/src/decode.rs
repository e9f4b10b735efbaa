//! Reading a metadata record back from its JSON text.

use crate::decimal::{all_digits, digits_value, is_canonical, is_digit, lemma_digits_value_prefix};
use crate::metadata::{
    attribute_views, Attribute, AttributeValue, AttributeView, MetadataView, NftMetadata, ValueView,
};
use crate::text::{chars_of, code_point, starts_with};
use vstd::prelude::*;

verus! {

/// Whether `c` is white space between the tokens of a JSON text.
pub open spec fn is_blank(c: char) -> bool {
    c == ' ' || c == '\n' || c == '\r' || c == '\t'
}

/// How many blanks `s` starts with.
pub open spec fn blank_run(s: Seq<char>) -> nat
    decreases s.len(),
{
    if s.len() > 0 && is_blank(s[0]) {
        1 + blank_run(s.skip(1))
    } else {
        0
    }
}

/// Reads the character `c` behind any blanks, and tells how many characters
/// that took.
pub open spec fn read_mark(s: Seq<char>, c: char) -> Option<nat> {
    let k = blank_run(s);
    if k < s.len() && s[k as int] == c {
        Some(k + 1)
    } else {
        None
    }
}

/// Whether `c` is a hexadecimal digit, of either case.
pub open spec fn is_hex(c: char) -> bool {
    let v = c as int;
    48 <= v <= 57 || 65 <= v <= 70 || 97 <= v <= 102
}

/// The value of the hexadecimal digit `c`.
pub open spec fn hex_value(c: char) -> int
    recommends
        is_hex(c),
{
    let v = c as int;
    if v <= 57 {
        v - 48
    } else if v <= 70 {
        v - 55
    } else {
        v - 87
    }
}

/// Reads what follows a backslash inside a string: one of `"`, `\`, `/`,
/// `b`, `f`, `n`, `r`, `t`, or `u00` and two hexadecimal digits. Tells the
/// character that is meant and how many characters that took.
pub open spec fn read_escape(s: Seq<char>) -> Option<(char, nat)> {
    if s.len() == 0 {
        None
    } else if s[0] == '"' || s[0] == '\\' || s[0] == '/' {
        Some((s[0], 1))
    } else if s[0] == 'b' {
        Some(('\u{8}', 1))
    } else if s[0] == 'f' {
        Some(('\u{c}', 1))
    } else if s[0] == 'n' {
        Some(('\n', 1))
    } else if s[0] == 'r' {
        Some(('\r', 1))
    } else if s[0] == 't' {
        Some(('\t', 1))
    } else if s[0] == 'u' && s.len() >= 5 && s[1] == '0' && s[2] == '0' && is_hex(s[3]) && is_hex(
        s[4],
    ) {
        Some(((hex_value(s[3]) * 16 + hex_value(s[4])) as char, 5))
    } else {
        None
    }
}

/// Reads a string from behind its opening quotation mark up to its closing
/// one. A control character that is not escaped ends the reading in vain.
pub open spec fn read_text_body(s: Seq<char>) -> Option<(Seq<char>, nat)>
    decreases s.len(),
{
    if s.len() == 0 {
        None
    } else if s[0] == '"' {
        Some((Seq::empty(), 1))
    } else if s[0] == '\\' {
        match read_escape(s.skip(1)) {
            None => None,
            Some((c, n)) => if 1 + n <= s.len() {
                match read_text_body(s.skip((1 + n) as int)) {
                    None => None,
                    Some((t, m)) => Some((seq![c] + t, 1 + n + m)),
                }
            } else {
                None
            },
        }
    } else if (s[0] as int) < 0x20 {
        None
    } else {
        match read_text_body(s.skip(1)) {
            None => None,
            Some((t, m)) => Some((seq![s[0]] + t, 1 + m)),
        }
    }
}

/// Reads a string behind any blanks.
pub open spec fn read_text(s: Seq<char>) -> Option<(Seq<char>, nat)> {
    match read_mark(s, '"') {
        None => None,
        Some(k) => match read_text_body(s.skip(k as int)) {
            None => None,
            Some((t, n)) => Some((t, k + n)),
        },
    }
}

/// How many digits `s` starts with.
pub open spec fn digit_run(s: Seq<char>) -> nat
    decreases s.len(),
{
    if s.len() > 0 && is_digit(s[0]) {
        1 + digit_run(s.skip(1))
    } else {
        0
    }
}

/// Reads an unsigned number behind any blanks: the longest run of digits,
/// which must be a canonical numeral that fits in 64 bits.
pub open spec fn read_number(s: Seq<char>) -> Option<(u64, nat)> {
    let k = blank_run(s);
    let rest = s.skip(k as int);
    let digits = rest.take(digit_run(rest) as int);
    if is_canonical(digits) && digits_value(digits) <= u64::MAX {
        Some((digits_value(digits) as u64, k + digits.len()))
    } else {
        None
    }
}

/// Reads the given word behind any blanks.
pub open spec fn read_word(s: Seq<char>, word: Seq<char>) -> Option<nat> {
    let k = blank_run(s);
    if k <= s.len() && starts_with(s.skip(k as int), word) {
        Some(k + word.len())
    } else {
        None
    }
}

/// Reads a scalar: a string, a number, or one of `null`, `true`, `false`.
pub open spec fn read_value(s: Seq<char>) -> Option<(ValueView, nat)> {
    match read_text(s) {
        Some((t, n)) => Some((ValueView::Text(t), n)),
        None => match read_number(s) {
            Some((v, n)) => Some((ValueView::Number(v), n)),
            None => match read_word(s, seq!['n', 'u', 'l', 'l']) {
                Some(n) => Some((ValueView::Null, n)),
                None => match read_word(s, seq!['t', 'r', 'u', 'e']) {
                    Some(n) => Some((ValueView::Bool(true), n)),
                    None => match read_word(s, seq!['f', 'a', 'l', 's', 'e']) {
                        Some(n) => Some((ValueView::Bool(false), n)),
                        None => None,
                    },
                },
            },
        },
    }
}

/// Reads the given key, as a string, and the colon behind it.
pub open spec fn read_key(s: Seq<char>, key: Seq<char>) -> Option<nat> {
    match read_text(s) {
        None => None,
        Some((t, n)) => if t == key && n <= s.len() {
            match read_mark(s.skip(n as int), ':') {
                None => None,
                Some(k) => Some(n + k),
            }
        } else {
            None
        },
    }
}

/// Reads a member with the given key whose value is a string.
pub open spec fn read_text_member(s: Seq<char>, key: Seq<char>) -> Option<(Seq<char>, nat)> {
    match read_key(s, key) {
        None => None,
        Some(k) => if k <= s.len() {
            match read_text(s.skip(k as int)) {
                None => None,
                Some((t, n)) => Some((t, k + n)),
            }
        } else {
            None
        },
    }
}

/// Reads the member `value` of an attribute.
pub open spec fn read_value_member(s: Seq<char>) -> Option<(ValueView, nat)> {
    match read_key(s, "value"@) {
        None => None,
        Some(k) => if k <= s.len() {
            match read_value(s.skip(k as int)) {
                None => None,
                Some((v, n)) => Some((v, k + n)),
            }
        } else {
            None
        },
    }
}

/// Reads the given character where `at` characters of `s` have been read.
pub open spec fn then_mark(s: Seq<char>, at: nat, c: char) -> Option<nat> {
    if at <= s.len() {
        match read_mark(s.skip(at as int), c) {
            None => None,
            Some(k) => Some(at + k),
        }
    } else {
        None
    }
}

/// Reads an attribute: an object with the members `trait_type`, a string,
/// and `value`, a scalar, in this order.
#[verifier::opaque]
pub open spec fn read_attribute(s: Seq<char>) -> Option<(AttributeView, nat)> {
    match read_mark(s, '{') {
        None => None,
        Some(a) => match read_text_member(s.skip(a as int), "trait_type"@) {
            None => None,
            Some((trait_type, b)) => match then_mark(s, a + b, ',') {
                None => None,
                Some(c) => match read_value_member(s.skip(c as int)) {
                    None => None,
                    Some((value, d)) => match then_mark(s, c + d, '}') {
                        None => None,
                        Some(e) => Some((AttributeView { trait_type, value }, e)),
                    },
                },
            },
        },
    }
}

/// Reads what follows an attribute of a list: the end of the list, or a
/// comma, one more attribute, and what follows that.
#[verifier::opaque]
pub open spec fn read_list_tail(s: Seq<char>) -> Option<(Seq<AttributeView>, nat)>
    decreases s.len(),
{
    match read_mark(s, ']') {
        Some(k) => Some((Seq::empty(), k)),
        None => match read_mark(s, ',') {
            None => None,
            Some(k) => match read_attribute(s.skip(k as int)) {
                None => None,
                Some((a, n)) => if k + n <= s.len() {
                    match read_list_tail(s.skip((k + n) as int)) {
                        None => None,
                        Some((rest, m)) => Some((seq![a] + rest, k + n + m)),
                    }
                } else {
                    None
                },
            },
        },
    }
}

/// Reads a list of attributes: `[`, then `]` at once or attributes parted
/// by commas and then `]`.
pub open spec fn read_list(s: Seq<char>) -> Option<(Seq<AttributeView>, nat)> {
    match read_mark(s, '[') {
        None => None,
        Some(a) => match read_mark(s.skip(a as int), ']') {
            Some(k) => Some((Seq::empty(), a + k)),
            None => match read_attribute(s.skip(a as int)) {
                None => None,
                Some((first, n)) => if a + n <= s.len() {
                    match read_list_tail(s.skip((a + n) as int)) {
                        None => None,
                        Some((rest, m)) => Some((seq![first] + rest, a + n + m)),
                    }
                } else {
                    None
                },
            },
        },
    }
}

/// Reads the member `attributes` of a record.
pub open spec fn read_list_member(s: Seq<char>) -> Option<(Seq<AttributeView>, nat)> {
    match read_key(s, "attributes"@) {
        None => None,
        Some(k) => if k <= s.len() {
            match read_list(s.skip(k as int)) {
                None => None,
                Some((v, n)) => Some((v, k + n)),
            }
        } else {
            None
        },
    }
}

/// Reads a member with the given key whose value is a string, where `at`
/// characters of `s` have been read.
pub open spec fn then_text_member(s: Seq<char>, at: nat, key: Seq<char>) -> Option<
    (Seq<char>, nat),
> {
    if at <= s.len() {
        match read_text_member(s.skip(at as int), key) {
            None => None,
            Some((t, n)) => Some((t, at + n)),
        }
    } else {
        None
    }
}

/// Reads a record: an object with the members `name`, `description` and
/// `image`, each a string, and `attributes`, a list, in this order. Tells
/// the record and how many characters that took.
pub open spec fn read_record(s: Seq<char>) -> Option<(MetadataView, nat)> {
    match read_mark(s, '{') {
        None => None,
        Some(a) => match then_text_member(s, a, "name"@) {
            None => None,
            Some((name, b)) => match then_mark(s, b, ',') {
                None => None,
                Some(c) => match then_text_member(s, c, "description"@) {
                    None => None,
                    Some((description, d)) => match then_mark(s, d, ',') {
                        None => None,
                        Some(e) => match then_text_member(s, e, "image"@) {
                            None => None,
                            Some((image, f)) => match then_mark(s, f, ',') {
                                None => None,
                                Some(g) => match read_list_member(s.skip(g as int)) {
                                    None => None,
                                    Some((attributes, h)) => match then_mark(s, g + h, '}') {
                                        None => None,
                                        Some(i) => Some(
                                            (
                                                MetadataView {
                                                    name,
                                                    description,
                                                    image,
                                                    attributes,
                                                },
                                                i,
                                            ),
                                        ),
                                    },
                                },
                            },
                        },
                    },
                },
            },
        },
    }
}

/// The record that a JSON text holds: the text must be one record, with
/// nothing but blanks behind it. Blanks may stand between any two tokens.
pub open spec fn decoded(s: Seq<char>) -> Option<MetadataView> {
    match read_record(s) {
        None => None,
        Some((m, n)) => if n <= s.len() && n + blank_run(s.skip(n as int)) == s.len() {
            Some(m)
        } else {
            None
        },
    }
}

/// Skipping some characters and then some more skips them all at once.
proof fn lemma_skip_twice(s: Seq<char>, a: int, b: int)
    requires
        0 <= a,
        0 <= b,
        a + b <= s.len(),
    ensures
        s.skip(a).skip(b) == s.skip(a + b),
{
    assert(s.skip(a).skip(b) =~= s.skip(a + b));
}

/// Skips the blanks at `pos`.
fn skip_blanks(chars: &Vec<char>, pos: usize) -> (r: usize)
    requires
        pos <= chars@.len(),
    ensures
        r == pos + blank_run(chars@.skip(pos as int)),
        r <= chars@.len(),
{
    let mut i = pos;
    loop
        invariant
            pos <= i <= chars@.len(),
            blank_run(chars@.skip(pos as int)) == (i - pos) + blank_run(chars@.skip(i as int)),
        decreases chars@.len() - i,
    {
        if i >= chars.len() {
            return i;
        }
        let c = chars[i];
        assert(chars@.skip(i as int)[0] == c);
        if !(c == ' ' || c == '\n' || c == '\r' || c == '\t') {
            return i;
        }
        assert(chars@.skip(i as int).skip(1) =~= chars@.skip(i + 1));
        i += 1;
    }
}

/// Reads the character `c` at `pos`, behind any blanks.
fn take_mark(chars: &Vec<char>, pos: usize, c: char) -> (r: Option<usize>)
    requires
        pos <= chars@.len(),
    ensures
        match read_mark(chars@.skip(pos as int), c) {
            Some(k) => r is Some && r->Some_0 == pos + k && pos + k <= chars@.len(),
            None => r is None,
        },
{
    let i = skip_blanks(chars, pos);
    if i < chars.len() && chars[i] == c {
        assert(chars@.skip(pos as int)[i - pos] == chars@[i as int]);
        Some(i + 1)
    } else {
        if i < chars.len() {
            assert(chars@.skip(pos as int)[i - pos] == chars@[i as int]);
        }
        None
    }
}

/// The value of a hexadecimal digit.
fn hex_value_of(c: char) -> (r: Option<u8>)
    ensures
        match r {
            Some(v) => is_hex(c) && v == hex_value(c),
            None => !is_hex(c),
        },
{
    let v = code_point(c);
    if 48 <= v && v <= 57 {
        Some((v - 48) as u8)
    } else if 65 <= v && v <= 70 {
        Some((v - 55) as u8)
    } else if 97 <= v && v <= 102 {
        Some((v - 87) as u8)
    } else {
        None
    }
}

/// Reads what follows a backslash.
fn take_escape(chars: &Vec<char>, pos: usize) -> (r: Option<(char, usize)>)
    requires
        pos <= chars@.len(),
    ensures
        match read_escape(chars@.skip(pos as int)) {
            Some((c, n)) => r is Some && r->Some_0.0 == c && r->Some_0.1 == pos + n && pos + n
                <= chars@.len(),
            None => r is None,
        },
{
    let n = chars.len();
    if pos >= n {
        return None;
    }
    let ghost s = chars@.skip(pos as int);
    let c = chars[pos];
    assert(s[0] == c);
    if c == '"' || c == '\\' || c == '/' {
        Some((c, pos + 1))
    } else if c == 'b' {
        Some(('\u{8}', pos + 1))
    } else if c == 'f' {
        Some(('\u{c}', pos + 1))
    } else if c == 'n' {
        Some(('\n', pos + 1))
    } else if c == 'r' {
        Some(('\r', pos + 1))
    } else if c == 't' {
        Some(('\t', pos + 1))
    } else if c == 'u' && n - pos >= 5 {
        assert(s[1] == chars@[pos + 1] && s[2] == chars@[pos + 2] && s[3] == chars@[pos + 3]
            && s[4] == chars@[pos + 4]);
        if chars[pos + 1] != '0' || chars[pos + 2] != '0' {
            return None;
        }
        match (hex_value_of(chars[pos + 3]), hex_value_of(chars[pos + 4])) {
            (Some(high), Some(low)) => {
                let v: u8 = high * 16 + low;
                Some((v as char, pos + 5))
            },
            _ => None,
        }
    } else {
        None
    }
}

/// Reads a string from behind its opening quotation mark.
fn take_text_body(chars: &Vec<char>, pos: usize) -> (r: Option<(String, usize)>)
    requires
        pos <= chars@.len(),
    ensures
        match read_text_body(chars@.skip(pos as int)) {
            Some((t, n)) => r is Some && r->Some_0.0@ == t && r->Some_0.1 == pos + n && pos + n
                <= chars@.len(),
            None => r is None,
        },
{
    let mut out = String::new();
    let mut i = pos;
    assert(out@ + Seq::<char>::empty() =~= Seq::<char>::empty());
    loop
        invariant
            pos <= i <= chars@.len(),
            match read_text_body(chars@.skip(i as int)) {
                Some((t, m)) => read_text_body(chars@.skip(pos as int)) == Some(
                    (out@ + t, (i - pos + m) as nat),
                ),
                None => read_text_body(chars@.skip(pos as int)) is None,
            },
        decreases chars@.len() - i,
    {
        if i >= chars.len() {
            return None;
        }
        let ghost s = chars@.skip(i as int);
        let c = chars[i];
        assert(s[0] == c);
        if c == '"' {
            assert(out@ + Seq::<char>::empty() =~= out@);
            return Some((out, i + 1));
        }
        if c == '\\' {
            assert(s.skip(1) =~= chars@.skip(i + 1));
            match take_escape(chars, i + 1) {
                None => {
                    return None;
                },
                Some((e, j)) => {
                    proof {
                        assert(s.skip((j - i) as int) =~= chars@.skip(j as int));
                        match read_text_body(chars@.skip(j as int)) {
                            Some((t, m)) => {
                                assert(out@.push(e) + t =~= out@ + (seq![e] + t));
                            },
                            None => {},
                        }
                    }
                    out.push(e);
                    i = j;
                },
            }
        } else if code_point(c) < 0x20 {
            return None;
        } else {
            proof {
                assert(s.skip(1) =~= chars@.skip(i + 1));
                match read_text_body(chars@.skip(i + 1)) {
                    Some((t, m)) => {
                        assert(out@.push(c) + t =~= out@ + (seq![c] + t));
                    },
                    None => {},
                }
            }
            out.push(c);
            i += 1;
        }
    }
}

/// Reads a string at `pos`, behind any blanks.
fn take_text(chars: &Vec<char>, pos: usize) -> (r: Option<(String, usize)>)
    requires
        pos <= chars@.len(),
    ensures
        match read_text(chars@.skip(pos as int)) {
            Some((t, n)) => r is Some && r->Some_0.0@ == t && r->Some_0.1 == pos + n && pos + n
                <= chars@.len(),
            None => r is None,
        },
{
    match take_mark(chars, pos, '"') {
        None => None,
        Some(i) => {
            proof {
                lemma_skip_twice(chars@, pos as int, i - pos);
            }
            take_text_body(chars, i)
        },
    }
}

/// A run of digits is no longer than the text.
proof fn lemma_digit_run_bound(s: Seq<char>)
    ensures
        digit_run(s) <= s.len(),
    decreases s.len(),
{
    if s.len() > 0 && is_digit(s[0]) {
        lemma_digit_run_bound(s.skip(1));
    }
}

/// Decides whether `c` is a digit.
fn is_digit_char(c: char) -> (r: bool)
    ensures
        r == is_digit(c),
{
    let v = code_point(c);
    48 <= v && v <= 57
}

/// Reads an unsigned number at `pos`, behind any blanks.
fn take_number(chars: &Vec<char>, pos: usize) -> (r: Option<(u64, usize)>)
    requires
        pos <= chars@.len(),
    ensures
        match read_number(chars@.skip(pos as int)) {
            Some((v, n)) => r is Some && r->Some_0.0 == v && r->Some_0.1 == pos + n && pos + n
                <= chars@.len(),
            None => r is None,
        },
{
    let start = skip_blanks(chars, pos);
    let ghost rest = chars@.skip(start as int);
    proof {
        lemma_skip_twice(chars@, pos as int, start - pos);
        lemma_digit_run_bound(rest);
    }
    let mut i = start;
    let mut acc: u64 = 0;
    while i < chars.len() && is_digit_char(chars[i])
        invariant
            start <= i <= chars@.len(),
            rest == chars@.skip(start as int),
            digit_run(rest) <= rest.len(),
            digit_run(rest) == (i - start) + digit_run(chars@.skip(i as int)),
            all_digits(rest.take(i - start)),
            acc == digits_value(rest.take(i - start)),
            read_number(chars@.skip(pos as int)) == ({
                let digits = rest.take(digit_run(rest) as int);
                if is_canonical(digits) && digits_value(digits) <= u64::MAX {
                    Some((digits_value(digits) as u64, (start - pos + digits.len()) as nat))
                } else {
                    None
                }
            }),
        decreases chars@.len() - i,
    {
        let c = chars[i];
        let d: u64 = (code_point(c) - 48) as u64;
        let ghost k = i - start;
        proof {
            assert(chars@.skip(i as int)[0] == c);
            assert(chars@.skip(i as int).skip(1) =~= chars@.skip(i + 1));
            assert(rest[k] == c);
            assert(rest.take(k + 1).drop_last() =~= rest.take(k));
            assert(rest.take(k + 1).last() == c);
            assert(digits_value(rest.take(k + 1)) == acc * 10 + d);
            assert forall|j: int| 0 <= j < k + 1 implies is_digit(
                #[trigger] rest.take(k + 1)[j],
            ) by {
                if j < k {
                    assert(rest.take(k)[j] == rest.take(k + 1)[j]);
                }
            }
        }
        if acc > (u64::MAX - d) / 10 {
            proof {
                let run = rest.take(digit_run(rest) as int);
                lemma_digits_value_prefix(run, k + 1);
                assert(run.take(k + 1) =~= rest.take(k + 1));
            }
            return None;
        }
        acc = acc * 10 + d;
        i += 1;
    }
    proof {
        if i < chars@.len() {
            assert(chars@.skip(i as int)[0] == chars@[i as int]);
        }
        assert(digit_run(rest) == i - start);
    }
    if i == start {
        return None;
    }
    assert(rest.take(i - start)[0] == chars@[start as int]);
    if i - start > 1 && chars[start] == '0' {
        return None;
    }
    Some((acc, i))
}

/// Reads the given word at `pos`, behind any blanks.
fn take_word(chars: &Vec<char>, pos: usize, word: &Vec<char>) -> (r: Option<usize>)
    requires
        pos <= chars@.len(),
    ensures
        match read_word(chars@.skip(pos as int), word@) {
            Some(n) => r is Some && r->Some_0 == pos + n && pos + n <= chars@.len(),
            None => r is None,
        },
{
    let start = skip_blanks(chars, pos);
    let ghost rest = chars@.skip(start as int);
    proof {
        lemma_skip_twice(chars@, pos as int, start - pos);
    }
    if word.len() > chars.len() - start {
        return None;
    }
    let mut i: usize = 0;
    while i < word.len()
        invariant
            start <= chars@.len() <= usize::MAX,
            i <= word@.len() <= chars@.len() - start,
            pos <= start,
            start - pos == blank_run(chars@.skip(pos as int)),
            rest == chars@.skip(start as int),
            rest == chars@.skip(pos as int).skip(start - pos),
            forall|j: int| 0 <= j < i ==> rest[j] == word@[j],
        decreases word@.len() - i,
    {
        if chars[start + i] != word[i] {
            assert(rest[i as int] == chars@[start + i]);
            assert(rest.take(word@.len() as int)[i as int] != word@[i as int]);
            return None;
        }
        i += 1;
    }
    assert(rest.take(word@.len() as int) =~= word@);
    Some(start + word.len())
}

/// Reads a scalar at `pos`.
fn take_value(chars: &Vec<char>, pos: usize) -> (r: Option<(AttributeValue, usize)>)
    requires
        pos <= chars@.len(),
    ensures
        match read_value(chars@.skip(pos as int)) {
            Some((v, n)) => r is Some && r->Some_0.0@ == v && r->Some_0.1 == pos + n && pos + n
                <= chars@.len(),
            None => r is None,
        },
{
    if let Some((t, i)) = take_text(chars, pos) {
        return Some((AttributeValue::Text(t), i));
    }
    if let Some((v, i)) = take_number(chars, pos) {
        return Some((AttributeValue::Number(v), i));
    }
    let null = vec!['n', 'u', 'l', 'l'];
    assert(null@ =~= seq!['n', 'u', 'l', 'l']);
    if let Some(i) = take_word(chars, pos, &null) {
        return Some((AttributeValue::Null, i));
    }
    let yes = vec!['t', 'r', 'u', 'e'];
    assert(yes@ =~= seq!['t', 'r', 'u', 'e']);
    if let Some(i) = take_word(chars, pos, &yes) {
        return Some((AttributeValue::Bool(true), i));
    }
    let no = vec!['f', 'a', 'l', 's', 'e'];
    assert(no@ =~= seq!['f', 'a', 'l', 's', 'e']);
    if let Some(i) = take_word(chars, pos, &no) {
        return Some((AttributeValue::Bool(false), i));
    }
    None
}

/// Reads the given key and the colon behind it, at `pos`.
fn take_key(chars: &Vec<char>, pos: usize, key: &str) -> (r: Option<usize>)
    requires
        pos <= chars@.len(),
    ensures
        match read_key(chars@.skip(pos as int), key@) {
            Some(n) => r is Some && r->Some_0 == pos + n && pos + n <= chars@.len(),
            None => r is None,
        },
{
    match take_text(chars, pos) {
        None => None,
        Some((t, i)) => {
            let wanted = key.to_owned();
            if t != wanted {
                return None;
            }
            proof {
                lemma_skip_twice(chars@, pos as int, i - pos);
            }
            take_mark(chars, i, ':')
        },
    }
}

/// Reads a member with the given key whose value is a string, at `pos`.
fn take_text_member(chars: &Vec<char>, pos: usize, key: &str) -> (r: Option<(String, usize)>)
    requires
        pos <= chars@.len(),
    ensures
        match read_text_member(chars@.skip(pos as int), key@) {
            Some((t, n)) => r is Some && r->Some_0.0@ == t && r->Some_0.1 == pos + n && pos + n
                <= chars@.len(),
            None => r is None,
        },
{
    match take_key(chars, pos, key) {
        None => None,
        Some(i) => {
            proof {
                lemma_skip_twice(chars@, pos as int, i - pos);
            }
            take_text(chars, i)
        },
    }
}

/// Reads the member `value` of an attribute, at `pos`.
fn take_value_member(chars: &Vec<char>, pos: usize) -> (r: Option<(AttributeValue, usize)>)
    requires
        pos <= chars@.len(),
    ensures
        match read_value_member(chars@.skip(pos as int)) {
            Some((v, n)) => r is Some && r->Some_0.0@ == v && r->Some_0.1 == pos + n && pos + n
                <= chars@.len(),
            None => r is None,
        },
{
    match take_key(chars, pos, "value") {
        None => None,
        Some(i) => {
            proof {
                lemma_skip_twice(chars@, pos as int, i - pos);
            }
            take_value(chars, i)
        },
    }
}

/// Reads the character `c` at `at`, where the reading began at `pos`.
fn take_then_mark(chars: &Vec<char>, pos: usize, at: usize, c: char) -> (r: Option<usize>)
    requires
        pos <= at <= chars@.len(),
    ensures
        match then_mark(chars@.skip(pos as int), (at - pos) as nat, c) {
            Some(n) => r is Some && r->Some_0 == pos + n && pos + n <= chars@.len(),
            None => r is None,
        },
{
    proof {
        lemma_skip_twice(chars@, pos as int, at - pos);
    }
    take_mark(chars, at, c)
}

/// Reads an attribute at `pos`.
#[verifier::rlimit(50)]
fn take_attribute(chars: &Vec<char>, pos: usize) -> (r: Option<(Attribute, usize)>)
    requires
        pos <= chars@.len(),
    ensures
        match read_attribute(chars@.skip(pos as int)) {
            Some((a, n)) => r is Some && r->Some_0.0@ == a && r->Some_0.1 == pos + n && pos + n
                <= chars@.len(),
            None => r is None,
        },
{
    let ghost s = chars@.skip(pos as int);
    reveal(read_attribute);
    let a = match take_mark(chars, pos, '{') {
        None => {
            return None;
        },
        Some(a) => a,
    };
    assert(read_mark(s, '{') == Some((a - pos) as nat));
    proof {
        lemma_skip_twice(chars@, pos as int, a - pos);
    }
    let (trait_type, b) = match take_text_member(chars, a, "trait_type") {
        None => {
            return None;
        },
        Some(found) => found,
    };
    assert(read_text_member(s.skip(a - pos), "trait_type"@) == Some(
        (trait_type@, (b - a) as nat),
    ));
    let c = match take_then_mark(chars, pos, b, ',') {
        None => {
            return None;
        },
        Some(c) => c,
    };
    assert(then_mark(s, ((a - pos) + (b - a)) as nat, ',') == Some((c - pos) as nat));
    proof {
        lemma_skip_twice(chars@, pos as int, c - pos);
    }
    let (value, d) = match take_value_member(chars, c) {
        None => {
            return None;
        },
        Some(found) => found,
    };
    assert(read_value_member(s.skip(c - pos)) == Some((value@, (d - c) as nat)));
    match take_then_mark(chars, pos, d, '}') {
        None => None,
        Some(e) => {
            assert(then_mark(s, ((c - pos) + (d - c)) as nat, '}') == Some((e - pos) as nat));
            Some((Attribute { trait_type, value }, e))
        },
    }
}

/// What a reading gives once `found` has been read over `used` characters
/// before it.
spec fn behind(
    found: Seq<AttributeView>,
    used: nat,
    r: Option<(Seq<AttributeView>, nat)>,
) -> Option<(Seq<AttributeView>, nat)> {
    match r {
        Some((rest, m)) => Some((found + rest, used + m)),
        None => None,
    }
}

/// One more attribute in a list: what follows it is read behind it.
proof fn lemma_list_tail_step(s: Seq<char>, k: nat, a: AttributeView, n: nat)
    requires
        read_mark(s, ']') is None,
        read_mark(s, ',') == Some(k),
        read_attribute(s.skip(k as int)) == Some((a, n)),
        k + n <= s.len(),
    ensures
        read_list_tail(s) == behind(seq![a], k + n, read_list_tail(s.skip((k + n) as int))),
{
    reveal(read_list_tail);
}

/// The end of a list.
proof fn lemma_list_tail_end(s: Seq<char>, k: nat)
    requires
        read_mark(s, ']') == Some(k),
    ensures
        read_list_tail(s) == Some((Seq::<AttributeView>::empty(), k)),
{
    reveal(read_list_tail);
}

/// What cannot follow an attribute of a list.
proof fn lemma_list_tail_none(s: Seq<char>)
    requires
        read_mark(s, ']') is None,
        read_mark(s, ',') is None || (read_mark(s, ',') matches Some(k) && read_attribute(
            s.skip(k as int),
        ) is None),
    ensures
        read_list_tail(s) is None,
{
    reveal(read_list_tail);
}

/// Reading behind what was read behind something else.
proof fn lemma_behind_twice(
    found: Seq<AttributeView>,
    used: nat,
    a: AttributeView,
    more: nat,
    r: Option<(Seq<AttributeView>, nat)>,
)
    ensures
        behind(found, used, behind(seq![a], more, r)) == behind(found.push(a), used + more, r),
{
    match r {
        Some((rest, m)) => {
            assert(found + (seq![a] + rest) =~= found.push(a) + rest);
        },
        None => {},
    }
}

/// Reads what follows an attribute of a list, at `pos`, and puts the
/// attributes it finds behind those of `out`.
fn take_list_tail(chars: &Vec<char>, pos: usize, out: &mut Vec<Attribute>) -> (r: Option<usize>)
    requires
        pos <= chars@.len(),
    ensures
        match read_list_tail(chars@.skip(pos as int)) {
            Some((rest, n)) => r is Some && r->Some_0 == pos + n && pos + n <= chars@.len()
                && attribute_views(final(out)@) == attribute_views(old(out)@) + rest,
            None => r is None,
        },
{
    let mut i = pos;
    let ghost before = attribute_views(out@);
    let ghost found = Seq::<AttributeView>::empty();
    proof {
        assert(before + found =~= before);
        match read_list_tail(chars@.skip(pos as int)) {
            Some((rest, m)) => {
                assert(found + rest =~= rest);
            },
            None => {},
        }
    }
    loop
        invariant
            pos <= i <= chars@.len(),
            attribute_views(out@) == before + found,
            before == attribute_views(old(out)@),
            read_list_tail(chars@.skip(pos as int)) == behind(
                found,
                (i - pos) as nat,
                read_list_tail(chars@.skip(i as int)),
            ),
        decreases chars@.len() - i,
    {
        let ghost s = chars@.skip(i as int);
        if let Some(end) = take_mark(chars, i, ']') {
            proof {
                lemma_list_tail_end(s, (end - i) as nat);
                assert(found + Seq::<AttributeView>::empty() =~= found);
            }
            return Some(end);
        }
        let k = match take_mark(chars, i, ',') {
            None => {
                proof {
                    lemma_list_tail_none(s);
                }
                return None;
            },
            Some(k) => k,
        };
        proof {
            lemma_skip_twice(chars@, i as int, k - i);
        }
        let (a, j) = match take_attribute(chars, k) {
            None => {
                proof {
                    lemma_list_tail_none(s);
                }
                return None;
            },
            Some(found) => found,
        };
        proof {
            lemma_skip_twice(chars@, i as int, j - i);
            lemma_list_tail_step(s, (k - i) as nat, a@, (j - k) as nat);
            lemma_behind_twice(
                found,
                (i - pos) as nat,
                a@,
                (j - i) as nat,
                read_list_tail(chars@.skip(j as int)),
            );
            assert(attribute_views(out@.push(a)) =~= attribute_views(out@).push(a@));
            assert((before + found).push(a@) =~= before + found.push(a@));
            found = found.push(a@);
        }
        out.push(a);
        i = j;
    }
}

/// Reads a list of attributes at `pos`.
fn take_list(chars: &Vec<char>, pos: usize) -> (r: Option<(Vec<Attribute>, usize)>)
    requires
        pos <= chars@.len(),
    ensures
        match read_list(chars@.skip(pos as int)) {
            Some((v, n)) => r is Some && attribute_views(r->Some_0.0@) == v && r->Some_0.1 == pos
                + n && pos + n <= chars@.len(),
            None => r is None,
        },
{
    let ghost s = chars@.skip(pos as int);
    let mut out: Vec<Attribute> = Vec::new();
    let a = match take_mark(chars, pos, '[') {
        None => {
            return None;
        },
        Some(a) => a,
    };
    proof {
        lemma_skip_twice(chars@, pos as int, a - pos);
    }
    if let Some(end) = take_mark(chars, a, ']') {
        assert(attribute_views(out@) =~= Seq::<AttributeView>::empty());
        return Some((out, end));
    }
    let (first, j) = match take_attribute(chars, a) {
        None => {
            return None;
        },
        Some(found) => found,
    };
    proof {
        lemma_skip_twice(chars@, pos as int, j - pos);
        assert(read_attribute(s.skip(a - pos)) == Some((first@, (j - a) as nat)));
    }
    out.push(first);
    assert(attribute_views(out@) =~= seq![first@]);
    match take_list_tail(chars, j, &mut out) {
        None => None,
        Some(end) => Some((out, end)),
    }
}

/// Reads the member `attributes` of a record, at `pos`.
fn take_list_member(chars: &Vec<char>, pos: usize) -> (r: Option<(Vec<Attribute>, usize)>)
    requires
        pos <= chars@.len(),
    ensures
        match read_list_member(chars@.skip(pos as int)) {
            Some((v, n)) => r is Some && attribute_views(r->Some_0.0@) == v && r->Some_0.1 == pos
                + n && pos + n <= chars@.len(),
            None => r is None,
        },
{
    match take_key(chars, pos, "attributes") {
        None => None,
        Some(i) => {
            proof {
                lemma_skip_twice(chars@, pos as int, i - pos);
            }
            take_list(chars, i)
        },
    }
}

/// Reads a member with the given key whose value is a string at `at`,
/// where the reading began at `pos`.
fn take_then_text_member(chars: &Vec<char>, pos: usize, at: usize, key: &str) -> (r: Option<
    (String, usize),
>)
    requires
        pos <= at <= chars@.len(),
    ensures
        match then_text_member(chars@.skip(pos as int), (at - pos) as nat, key@) {
            Some((t, n)) => r is Some && r->Some_0.0@ == t && r->Some_0.1 == pos + n && pos + n
                <= chars@.len(),
            None => r is None,
        },
{
    proof {
        lemma_skip_twice(chars@, pos as int, at - pos);
    }
    take_text_member(chars, at, key)
}

/// Reads a record at the start of `chars`.
fn take_record(chars: &Vec<char>) -> (r: Option<(NftMetadata, usize)>)
    ensures
        match read_record(chars@) {
            Some((m, n)) => r is Some && r->Some_0.0@ == m && r->Some_0.1 == n && n
                <= chars@.len(),
            None => r is None,
        },
{
    let ghost s = chars@;
    assert(chars@.skip(0) =~= s);
    let a = match take_mark(chars, 0, '{') {
        None => {
            return None;
        },
        Some(a) => a,
    };
    let (name, b) = match take_then_text_member(chars, 0, a, "name") {
        None => {
            return None;
        },
        Some(found) => found,
    };
    let c = match take_then_mark(chars, 0, b, ',') {
        None => {
            return None;
        },
        Some(c) => c,
    };
    let (description, d) = match take_then_text_member(chars, 0, c, "description") {
        None => {
            return None;
        },
        Some(found) => found,
    };
    let e = match take_then_mark(chars, 0, d, ',') {
        None => {
            return None;
        },
        Some(e) => e,
    };
    let (image, f) = match take_then_text_member(chars, 0, e, "image") {
        None => {
            return None;
        },
        Some(found) => found,
    };
    let g = match take_then_mark(chars, 0, f, ',') {
        None => {
            return None;
        },
        Some(g) => g,
    };
    let (attributes, h) = match take_list_member(chars, g) {
        None => {
            return None;
        },
        Some(found) => found,
    };
    assert(read_list_member(s.skip(g as int)) == Some(
        (attribute_views(attributes@), (h - g) as nat),
    ));
    match take_then_mark(chars, 0, h, '}') {
        None => None,
        Some(i) => Some((NftMetadata { name, description, image, attributes }, i)),
    }
}

impl NftMetadata {
    /// Reads a record from its JSON text, compact or indented. The text
    /// must hold one object with the members `name`, `description`, `image`
    /// and `attributes` in this order and nothing else; blanks may stand
    /// between its tokens.
    pub fn from_json(text: &str) -> (r: Option<NftMetadata>)
        ensures
            match decoded(text@) {
                Some(m) => r is Some && r->Some_0@ == m,
                None => r is None,
            },
    {
        let chars = chars_of(text);
        match take_record(&chars) {
            None => None,
            Some((m, n)) => {
                let end = skip_blanks(&chars, n);
                if end == chars.len() {
                    Some(m)
                } else {
                    None
                }
            },
        }
    }
}

} // verus!
