//! JSON values as the library's pervasive untyped data.

use vstd::prelude::*;

verus! {

/// A JSON value, with numbers split into machine integers and other finite
/// decimal texts so that every variant is plain data.
#[derive(Debug, PartialEq)]
pub enum JsonValue {
    Null,
    Bool(bool),
    Int(i64),
    /// A finite number that is not an integer in `i64` range, as the decimal
    /// text that denoted it.
    Real(String),
    Str(String),
    Array(Vec<JsonValue>),
    Object(Vec<(String, JsonValue)>),
}

/// The canonical serialized text of a value.
pub open spec fn text_of(v: JsonValue) -> Seq<char>
    decreases v,
{
    match v {
        JsonValue::Null => "null"@,
        JsonValue::Bool(b) => if b {
            "true"@
        } else {
            "false"@
        },
        JsonValue::Int(i) => crate::text::dec_int(i as int),
        JsonValue::Real(s) => s@,
        JsonValue::Str(s) => seq!['"'] + escape_text(s@) + seq!['"'],
        JsonValue::Array(items) => seq!['['] + text_of_list(items@) + seq![']'],
        JsonValue::Object(members) => seq!['{'] + text_of_members(members@) + seq!['}'],
    }
}

/// The serialized elements of an array, comma separated.
pub open spec fn text_of_list(items: Seq<JsonValue>) -> Seq<char>
    decreases items,
{
    if items.len() == 0 {
        Seq::empty()
    } else if items.len() == 1 {
        text_of(items[0])
    } else {
        text_of_list(items.drop_last()) + seq![','] + text_of(items.last())
    }
}

/// The serialized members of an object, comma separated.
pub open spec fn text_of_members(members: Seq<(String, JsonValue)>) -> Seq<char>
    decreases members,
{
    if members.len() == 0 {
        Seq::empty()
    } else if members.len() == 1 {
        text_of_member(members[0])
    } else {
        text_of_members(members.drop_last()) + seq![','] + text_of_member(members.last())
    }
}

/// One serialized object member: quoted key, colon, value.
pub open spec fn text_of_member(member: (String, JsonValue)) -> Seq<char>
    decreases member,
{
    seq!['"'] + escape_text(member.0@) + seq!['"', ':'] + text_of(member.1)
}

/// The escape sequence that stands for `c` inside a string literal, or the
/// character itself.
pub open spec fn escape_char(c: char) -> Seq<char> {
    if c == '"' {
        seq!['\\', '"']
    } else if c == '\\' {
        seq!['\\', '\\']
    } else if c == '\n' {
        seq!['\\', 'n']
    } else if c == '\r' {
        seq!['\\', 'r']
    } else if c == '\t' {
        seq!['\\', 't']
    } else if (c as u32) < 32 {
        seq![
            '\\',
            'u',
            '0',
            '0',
            hex_char(((c as u32) / 16) as int),
            hex_char(((c as u32) % 16) as int),
        ]
    } else if c == '\u{2028}' {
        seq!['\\', 'u', '2', '0', '2', '8']
    } else if c == '\u{2029}' {
        seq!['\\', 'u', '2', '0', '2', '9']
    } else {
        seq![c]
    }
}

/// A string body with every character escaped as needed.
pub open spec fn escape_text(s: Seq<char>) -> Seq<char>
    decreases s.len(),
{
    if s.len() == 0 {
        Seq::empty()
    } else {
        escape_text(s.drop_last()) + escape_char(s.last())
    }
}

/// The lower-case hexadecimal digit for a value below 16.
pub open spec fn hex_char(d: int) -> char {
    if d < 10 {
        crate::text::digit_char(d)
    } else if d == 10 {
        'a'
    } else if d == 11 {
        'b'
    } else if d == 12 {
        'c'
    } else if d == 13 {
        'd'
    } else if d == 14 {
        'e'
    } else {
        'f'
    }
}

fn hex_char_exec(d: u32) -> (r: char)
    requires
        d < 16,
    ensures
        r == hex_char(d as int),
{
    if d == 0 {
        '0'
    } else if d == 1 {
        '1'
    } else if d == 2 {
        '2'
    } else if d == 3 {
        '3'
    } else if d == 4 {
        '4'
    } else if d == 5 {
        '5'
    } else if d == 6 {
        '6'
    } else if d == 7 {
        '7'
    } else if d == 8 {
        '8'
    } else if d == 9 {
        '9'
    } else if d == 10 {
        'a'
    } else if d == 11 {
        'b'
    } else if d == 12 {
        'c'
    } else if d == 13 {
        'd'
    } else if d == 14 {
        'e'
    } else {
        'f'
    }
}

/// Appends the escape sequence (or the character itself) for `c`.
fn push_escaped(out: &mut Vec<char>, c: char)
    ensures
        final(out)@ == old(out)@ + escape_char(c),
{
    if c == '"' {
        out.push('\\');
        out.push('"');
    } else if c == '\\' {
        out.push('\\');
        out.push('\\');
    } else if c == '\n' {
        out.push('\\');
        out.push('n');
    } else if c == '\r' {
        out.push('\\');
        out.push('r');
    } else if c == '\t' {
        out.push('\\');
        out.push('t');
    } else if (c as u32) < 32 {
        let code: u32 = c as u32;
        out.push('\\');
        out.push('u');
        out.push('0');
        out.push('0');
        out.push(hex_char_exec(code / 16));
        out.push(hex_char_exec(code % 16));
    } else if c == '\u{2028}' {
        out.push('\\');
        out.push('u');
        out.push('2');
        out.push('0');
        out.push('2');
        out.push('8');
    } else if c == '\u{2029}' {
        out.push('\\');
        out.push('u');
        out.push('2');
        out.push('0');
        out.push('2');
        out.push('9');
    } else {
        out.push(c);
    }
    proof {
        assert(final(out)@ =~= old(out)@ + escape_char(c));
    }
}

/// Appends the escaped body of a string literal.
pub(crate) fn push_escaped_text(out: &mut Vec<char>, s: &Vec<char>)
    ensures
        final(out)@ == old(out)@ + escape_text(s@),
{
    let mut i: usize = 0;
    proof {
        assert(out@ =~= out@ + escape_text(s@.subrange(0, 0)));
    }
    while i < s.len()
        invariant
            i <= s@.len(),
            out@ == old(out)@ + escape_text(s@.subrange(0, i as int)),
        decreases s@.len() - i,
    {
        push_escaped(out, s[i]);
        i = i + 1;
        proof {
            let pre = s@.subrange(0, i as int);
            assert(pre.drop_last() =~= s@.subrange(0, i - 1));
            assert(pre.last() == s@[i - 1]);
            assert(old(out)@ + escape_text(s@.subrange(0, i - 1)) + escape_char(s@[i - 1]) =~= old(
                out,
            )@ + escape_text(pre));
        }
    }
    proof {
        assert(s@.subrange(0, s@.len() as int) =~= s@);
    }
}

/// Whether a character may appear in a JSON number token.
pub open spec fn is_number_char(c: char) -> bool {
    crate::text::digit_val(c) < 10 || c == '-' || c == '+' || c == '.' || c == 'e' || c == 'E'
}

/// Whether a text is plausible as a JSON number token: nonempty and made
/// of number characters only.
pub open spec fn plausible_number_text(s: Seq<char>) -> bool {
    s.len() > 0 && forall|t: int| 0 <= t < s.len() ==> is_number_char(#[trigger] s[t])
}

/// A well-formed value: every number kept as text, at any depth, is a
/// plausible number token. The parser only produces well-formed values,
/// and serializing a well-formed value emits nothing but number characters
/// outside quoted string literals, so its text stays inert when spliced
/// into a script.
pub open spec fn wf_value(v: JsonValue) -> bool
    decreases v,
{
    match v {
        JsonValue::Real(s) => plausible_number_text(s@),
        JsonValue::Array(items) => forall|t: int|
            0 <= t < items@.len() ==> wf_value(#[trigger] items@[t]),
        JsonValue::Object(members) => forall|t: int|
            0 <= t < members@.len() ==> wf_value(#[trigger] members@[t].1),
        _ => true,
    }
}

fn is_number_char_exec(c: char) -> (r: bool)
    ensures
        r == is_number_char(c),
{
    is_digit(c) || c == '-' || c == '+' || c == '.' || c == 'e' || c == 'E'
}

/// Whether every number kept as text inside `v` is a plausible number
/// token.
pub fn value_wf(v: &JsonValue) -> (r: bool)
    ensures
        r == wf_value(*v),
    decreases *v,
{
    match v {
        JsonValue::Null => true,
        JsonValue::Bool(_) => true,
        JsonValue::Int(_) => true,
        JsonValue::Str(_) => true,
        JsonValue::Real(s) => {
            let chars = crate::text::str_to_chars(s.as_str());
            if chars.len() == 0 {
                return false;
            }
            let mut t: usize = 0;
            while t < chars.len()
                invariant
                    chars@ == s@,
                    t <= chars@.len(),
                    *v == JsonValue::Real(*s),
                    forall|k: int| 0 <= k < t ==> is_number_char(#[trigger] chars@[k]),
                decreases chars@.len() - t,
            {
                if !is_number_char_exec(chars[t]) {
                    proof {
                        assert(!is_number_char(s@[t as int]));
                    }
                    return false;
                }
                t = t + 1;
            }
            true
        },
        JsonValue::Array(items) => {
            let mut i: usize = 0;
            while i < items.len()
                invariant
                    *v == JsonValue::Array(*items),
                    i <= items@.len(),
                    forall|t: int| 0 <= t < i ==> wf_value(#[trigger] items@[t]),
                decreases items@.len() - i,
            {
                proof {
                    let ghost vv = *v;
                    assert(decreases_to!(vv => vv->Array_0));
                    assert(decreases_to!(vv->Array_0 => vv->Array_0@));
                    assert(vv->Array_0@ == items@);
                    assert(decreases_to!(items@ => items@[i as int]));
                }
                if !value_wf(&items[i]) {
                    proof {
                        assert(!wf_value(items@[i as int]));
                    }
                    return false;
                }
                i = i + 1;
            }
            true
        },
        JsonValue::Object(members) => {
            let mut i: usize = 0;
            while i < members.len()
                invariant
                    *v == JsonValue::Object(*members),
                    i <= members@.len(),
                    forall|t: int| 0 <= t < i ==> wf_value(#[trigger] members@[t].1),
                decreases members@.len() - i,
            {
                proof {
                    let ghost vv = *v;
                    assert(decreases_to!(vv => vv->Object_0));
                    assert(decreases_to!(vv->Object_0 => vv->Object_0@));
                    assert(vv->Object_0@ == members@);
                    assert(decreases_to!(members@ => members@[i as int]));
                    assert(decreases_to!(members@[i as int] => members@[i as int].1));
                }
                if !value_wf(&members[i].1) {
                    proof {
                        assert(!wf_value(members@[i as int].1));
                    }
                    return false;
                }
                i = i + 1;
            }
            true
        },
    }
}

/// The canonical serialized text of `v`, as characters.
pub fn value_chars(v: &JsonValue) -> (r: Vec<char>)
    ensures
        r@ == text_of(*v),
    decreases *v,
{
    match v {
        JsonValue::Null => crate::text::str_to_chars("null"),
        JsonValue::Bool(b) => {
            if *b {
                crate::text::str_to_chars("true")
            } else {
                crate::text::str_to_chars("false")
            }
        },
        JsonValue::Int(i) => crate::text::i64_to_chars(*i),
        JsonValue::Real(s) => crate::text::str_to_chars(s.as_str()),
        JsonValue::Str(s) => {
            let mut out: Vec<char> = Vec::new();
            out.push('"');
            let body = crate::text::str_to_chars(s.as_str());
            push_escaped_text(&mut out, &body);
            out.push('"');
            proof {
                assert(out@ =~= seq!['"'] + escape_text(s@) + seq!['"']);
            }
            out
        },
        JsonValue::Array(items) => {
            let mut out: Vec<char> = Vec::new();
            out.push('[');
            let mut i: usize = 0;
            while i < items.len()
                invariant
                    *v == JsonValue::Array(*items),
                    i <= items@.len(),
                    out@ == seq!['['] + text_of_list(items@.subrange(0, i as int)),
                decreases items@.len() - i,
            {
                if i > 0 {
                    out.push(',');
                }
                proof {
                    let ghost vv = *v;
                    assert(vv == JsonValue::Array(*items));
                    assert(decreases_to!(vv => vv->Array_0));
                    assert(decreases_to!(vv->Array_0 => vv->Array_0@));
                    assert(vv->Array_0@ == items@);
                    assert(decreases_to!(items@ => items@[i as int]));
                }
                let mut piece = value_chars(&items[i]);
                out.append(&mut piece);
                i = i + 1;
                proof {
                    let pre = items@.subrange(0, i as int);
                    assert(pre.drop_last() =~= items@.subrange(0, i - 1));
                    assert(pre.last() == items@[i - 1]);
                    if i == 1 {
                        assert(out@ =~= seq!['['] + text_of_list(pre));
                    } else {
                        assert(out@ =~= seq!['['] + text_of_list(pre));
                    }
                }
            }
            out.push(']');
            proof {
                assert(items@.subrange(0, items@.len() as int) =~= items@);
                assert(out@ =~= seq!['['] + text_of_list(items@) + seq![']']);
            }
            out
        },
        JsonValue::Object(members) => {
            let mut out: Vec<char> = Vec::new();
            out.push('{');
            let mut i: usize = 0;
            while i < members.len()
                invariant
                    *v == JsonValue::Object(*members),
                    i <= members@.len(),
                    out@ == seq!['{'] + text_of_members(members@.subrange(0, i as int)),
                decreases members@.len() - i,
            {
                if i > 0 {
                    out.push(',');
                }
                out.push('"');
                let key = crate::text::str_to_chars(members[i].0.as_str());
                push_escaped_text(&mut out, &key);
                out.push('"');
                out.push(':');
                proof {
                    let ghost vv = *v;
                    assert(vv == JsonValue::Object(*members));
                    assert(decreases_to!(vv => vv->Object_0));
                    assert(decreases_to!(vv->Object_0 => vv->Object_0@));
                    assert(vv->Object_0@ == members@);
                    assert(decreases_to!(members@ => members@[i as int]));
                    assert(decreases_to!(members@[i as int] => members@[i as int].1));
                }
                let mut piece = value_chars(&members[i].1);
                out.append(&mut piece);
                i = i + 1;
                proof {
                    let pre = members@.subrange(0, i as int);
                    assert(pre.drop_last() =~= members@.subrange(0, i - 1));
                    assert(pre.last() == members@[i - 1]);
                    assert(key@ == members@[i - 1].0@);
                    assert(text_of_member(members@[i - 1]) =~= seq!['"'] + escape_text(
                        members@[i - 1].0@,
                    ) + seq!['"', ':'] + text_of(members@[i - 1].1));
                    assert(out@ =~= seq!['{'] + text_of_members(pre));
                }
            }
            out.push('}');
            proof {
                assert(members@.subrange(0, members@.len() as int) =~= members@);
                assert(out@ =~= seq!['{'] + text_of_members(members@) + seq!['}']);
            }
            out
        },
    }
}

/// The canonical serialized text of `v`.
pub fn to_text(v: &JsonValue) -> (r: String)
    ensures
        r@ == text_of(*v),
{
    let chars = value_chars(v);
    crate::text::chars_to_string(&chars)
}

/// Relies on char::from_u32 of std: `Some` is returned exactly for Unicode
/// scalar values, so for everything below the surrogate range, and the
/// character then has that scalar value.
#[verifier::external_body]
fn char_from_u32(u: u32) -> (r: Option<char>)
    ensures
        r matches Some(c) ==> c as u32 == u,
        u < 0xD800 ==> r is Some,
{
    char::from_u32(u)
}

/// Whether a character is blank space between JSON tokens.
pub open spec fn spec_json_ws(c: char) -> bool {
    c == ' ' || c == '\t' || c == '\n' || c == '\r'
}

fn skip_ws(s: &Vec<char>, i: usize) -> (r: usize)
    requires
        i <= s@.len(),
    ensures
        i <= r <= s@.len(),
        forall|t: int| i <= t < r ==> spec_json_ws(#[trigger] s@[t]),
        r < s@.len() ==> !spec_json_ws(s@[r as int]),
    decreases s@.len() - i,
{
    let mut j: usize = i;
    while j < s.len() && (s[j] == ' ' || s[j] == '\t' || s[j] == '\n' || s[j] == '\r')
        invariant
            i <= j <= s@.len(),
            forall|t: int| i <= t < j ==> spec_json_ws(#[trigger] s@[t]),
        decreases s@.len() - j,
    {
        j = j + 1;
    }
    j
}

/// Whether the escaped form of `c` starts with a backslash.
pub open spec fn is_escaped_char(c: char) -> bool {
    c == '"' || c == '\\' || c == '\n' || c == '\r' || c == '\t' || (c as u32) < 32 || c
        == '\u{2028}' || c == '\u{2029}'
}

/// The escaped text of a nonempty string starts with the escape of its
/// first character.
proof fn lemma_escape_text_first(s: Seq<char>)
    requires
        s.len() > 0,
    ensures
        escape_text(s) == escape_char(s[0]) + escape_text(s.drop_first()),
    decreases s.len(),
{
    if s.len() == 1 {
        assert(s.drop_last() =~= Seq::<char>::empty());
        assert(s.drop_first() =~= Seq::<char>::empty());
        assert(escape_text(s) == escape_text(s.drop_last()) + escape_char(s.last()));
        assert(escape_char(s[0]) + escape_text(s.drop_first()) =~= escape_char(s[0]));
        assert(escape_text(s) =~= escape_char(s[0]));
    } else {
        lemma_escape_text_first(s.drop_last());
        assert(s.drop_last()[0] == s[0]);
        assert(s.drop_last().drop_first() =~= s.drop_first().drop_last());
        assert(s.drop_first().last() == s.last());
        assert(escape_text(s) == escape_text(s.drop_last()) + escape_char(s.last()));
        assert(escape_text(s.drop_last()) == escape_char(s[0]) + escape_text(
            s.drop_last().drop_first(),
        ));
        assert(escape_text(s.drop_first()) == escape_text(s.drop_first().drop_last())
            + escape_char(s.drop_first().last()));
        assert(escape_text(s) =~= escape_char(s[0]) + escape_text(s.drop_first()));
    }
}

/// The shape of a single character's escape: its length, its first and
/// second characters, and which characters produce which forms.
proof fn lemma_escape_char_shape(c: char)
    ensures
        escape_char(c).len() >= 1,
        escape_char(c)[0] != '"',
        (escape_char(c)[0] == '\\') == is_escaped_char(c),
        !is_escaped_char(c) ==> escape_char(c) == seq![c],
        is_escaped_char(c) ==> escape_char(c).len() >= 2,
        is_escaped_char(c) ==> (escape_char(c)[1] == '"' || escape_char(c)[1] == '\\'
            || escape_char(c)[1] == 'n' || escape_char(c)[1] == 'r' || escape_char(c)[1] == 't'
            || escape_char(c)[1] == 'u'),
        is_escaped_char(c) && escape_char(c)[1] == '"' ==> c == '"' && escape_char(c) == seq![
            '\\',
            '"',
        ],
        is_escaped_char(c) && escape_char(c)[1] == '\\' ==> c == '\\' && escape_char(c) == seq![
            '\\',
            '\\',
        ],
        is_escaped_char(c) && escape_char(c)[1] == 'n' ==> c == '\n' && escape_char(c) == seq![
            '\\',
            'n',
        ],
        is_escaped_char(c) && escape_char(c)[1] == 'r' ==> c == '\r' && escape_char(c) == seq![
            '\\',
            'r',
        ],
        is_escaped_char(c) && escape_char(c)[1] == 't' ==> c == '\t' && escape_char(c) == seq![
            '\\',
            't',
        ],
        is_escaped_char(c) && escape_char(c)[1] == 'u' ==> escape_char(c).len() == 6
            && escape_char(c)[2] != '\\' && (((c as u32) < 32 && c != '\n' && c != '\r' && c
            != '\t' && escape_char(c) == seq![
            '\\',
            'u',
            '0',
            '0',
            hex_char(((c as u32) / 16) as int),
            hex_char(((c as u32) % 16) as int),
        ]) || (c == '\u{2028}' && escape_char(c) == seq!['\\', 'u', '2', '0', '2', '8']) || (c
            == '\u{2029}' && escape_char(c) == seq!['\\', 'u', '2', '0', '2', '9'])),
{
    if c == '"' {
    } else if c == '\\' {
    } else if c == '\n' {
    } else if c == '\r' {
    } else if c == '\t' {
    } else if (c as u32) < 32 {
        assert(hex_char(((c as u32) / 16) as int) != '\\');
        assert(escape_char(c)[1] == 'u');
    } else if c == '\u{2028}' {
    } else if c == '\u{2029}' {
    } else {
        assert(escape_char(c) == seq![c]);
        assert(escape_char(c)[0] == c);
    }
}

/// Characters with the same scalar value are the same character.
proof fn lemma_char_u32_inj(c1: char, c2: char)
    requires
        c1 as u32 == c2 as u32,
    ensures
        c1 == c2,
{
}

/// The value a lower-case hex digit character denotes.
proof fn lemma_hex_val_of_hex_char(d: int)
    requires
        0 <= d < 16,
    ensures
        spec_hex_val(hex_char(d)) == d,
{
}

/// The value of a hexadecimal digit character, or 16 for any other
/// character.
pub open spec fn spec_hex_val(c: char) -> int {
    if c == '0' {
        0
    } else if c == '1' {
        1
    } else if c == '2' {
        2
    } else if c == '3' {
        3
    } else if c == '4' {
        4
    } else if c == '5' {
        5
    } else if c == '6' {
        6
    } else if c == '7' {
        7
    } else if c == '8' {
        8
    } else if c == '9' {
        9
    } else if c == 'a' || c == 'A' {
        10
    } else if c == 'b' || c == 'B' {
        11
    } else if c == 'c' || c == 'C' {
        12
    } else if c == 'd' || c == 'D' {
        13
    } else if c == 'e' || c == 'E' {
        14
    } else if c == 'f' || c == 'F' {
        15
    } else {
        16
    }
}

fn hex_val(c: char) -> (r: u32)
    ensures
        r <= 16,
        r == spec_hex_val(c),
{
    if c == '0' {
        0
    } else if c == '1' {
        1
    } else if c == '2' {
        2
    } else if c == '3' {
        3
    } else if c == '4' {
        4
    } else if c == '5' {
        5
    } else if c == '6' {
        6
    } else if c == '7' {
        7
    } else if c == '8' {
        8
    } else if c == '9' {
        9
    } else if c == 'a' || c == 'A' {
        10
    } else if c == 'b' || c == 'B' {
        11
    } else if c == 'c' || c == 'C' {
        12
    } else if c == 'd' || c == 'D' {
        13
    } else if c == 'e' || c == 'E' {
        14
    } else if c == 'f' || c == 'F' {
        15
    } else {
        16
    }
}

/// Reads four hexadecimal digits starting at `i`: succeeds exactly when
/// four hexadecimal digit characters are there, and reads their value.
fn parse_hex4(s: &Vec<char>, i: usize) -> (r: Option<(u32, usize)>)
    requires
        i <= s@.len(),
    ensures
        r matches Some((_, j)) ==> i < j <= s@.len(),
        (r is Some) <==> (s@.len() - i >= 4 && spec_hex_val(s@[i as int]) < 16 && spec_hex_val(
            s@[i + 1],
        ) < 16 && spec_hex_val(s@[i + 2]) < 16 && spec_hex_val(s@[i + 3]) < 16),
        r matches Some((v, j)) ==> j == i + 4 && v == ((spec_hex_val(s@[i as int]) * 16
            + spec_hex_val(s@[i + 1])) * 16 + spec_hex_val(s@[i + 2])) * 16 + spec_hex_val(
            s@[i + 3],
        ),
{
    let n: usize = s.len();
    if i >= n || n - i < 4 {
        return None;
    }
    let d0: u32 = hex_val(s[i]);
    let d1: u32 = hex_val(s[i + 1]);
    let d2: u32 = hex_val(s[i + 2]);
    let d3: u32 = hex_val(s[i + 3]);
    if d0 >= 16 || d1 >= 16 || d2 >= 16 || d3 >= 16 {
        return None;
    }
    Some((((d0 * 16 + d1) * 16 + d2) * 16 + d3, i + 4))
}

/// Whether the rest of the input from `pos` is exactly the escaped body
/// `content` followed by the closing quote.
pub open spec fn quoted_rest(s: Seq<char>, pos: int, content: Seq<char>) -> bool {
    s.subrange(pos, s.len() as int) == escape_text(content) + seq!['"']
}

/// Unfolds one character at the head of a quoted rest: its escape sits at
/// `pos`, and the quoted rest of the remaining content follows it.
proof fn lemma_quoted_step(s: Seq<char>, pos: int, content: Seq<char>, k: int)
    requires
        0 <= pos <= s.len(),
        0 <= k < content.len(),
        quoted_rest(s, pos, content.subrange(k, content.len() as int)),
    ensures
        escape_char(content[k]).len() >= 1,
        pos + escape_char(content[k]).len() <= s.len(),
        forall|t: int|
            0 <= t < escape_char(content[k]).len() ==> s[pos + t] == escape_char(content[k])[t],
        quoted_rest(
            s,
            pos + escape_char(content[k]).len(),
            content.subrange(k + 1, content.len() as int),
        ),
{
    let suffix = content.subrange(k, content.len() as int);
    lemma_escape_text_first(suffix);
    lemma_escape_char_shape(content[k]);
    assert(suffix[0] == content[k]);
    assert(suffix.drop_first() =~= content.subrange(k + 1, content.len() as int));
    let e = escape_char(content[k]);
    let rest_txt = escape_text(content.subrange(k + 1, content.len() as int));
    assert(escape_text(suffix) == e + rest_txt);
    let whole = s.subrange(pos, s.len() as int);
    assert(whole == (e + rest_txt) + seq!['"']);
    assert(whole.len() == e.len() + rest_txt.len() + 1);
    assert forall|t: int| 0 <= t < e.len() implies s[pos + t] == e[t] by {
        assert(whole[t] == s[pos + t]);
        assert(((e + rest_txt) + seq!['"'])[t] == e[t]);
    }
    assert forall|t: int|
        0 <= t < rest_txt.len() + 1 implies s.subrange(pos + e.len(), s.len() as int)[t] == (
    rest_txt + seq!['"'])[t] by {
        assert(s.subrange(pos + e.len(), s.len() as int)[t] == s[pos + e.len() + t]);
        assert(s[pos + e.len() + t] == whole[e.len() + t]);
        assert(whole[e.len() + t] == ((e + rest_txt) + seq!['"'])[e.len() + t]);
    }
    assert(s.subrange(pos + e.len(), s.len() as int) =~= rest_txt + seq!['"']);
}

/// Pins the head character of a quoted rest whose escape is one of the
/// two-character short forms.
proof fn lemma_simple_escape(
    s: Seq<char>,
    pos: int,
    content: Seq<char>,
    k: int,
    second: char,
    orig: char,
)
    requires
        0 <= pos <= s.len(),
        0 <= k < content.len(),
        quoted_rest(s, pos, content.subrange(k, content.len() as int)),
        s[pos] == '\\',
        pos + 1 < s.len(),
        s[pos + 1] == second,
        second == '"' || second == '\\' || second == 'n' || second == 'r' || second == 't',
        orig == (if second == '"' {
            '"'
        } else if second == '\\' {
            '\\'
        } else if second == 'n' {
            '\n'
        } else if second == 'r' {
            '\r'
        } else {
            '\t'
        }),
    ensures
        content[k] == orig,
        pos + 2 <= s.len(),
        quoted_rest(s, pos + 2, content.subrange(k + 1, content.len() as int)),
{
    lemma_quoted_step(s, pos, content, k);
    lemma_escape_char_shape(content[k]);
    let e = escape_char(content[k]);
    assert(s[pos] == e[0]);
    assert(is_escaped_char(content[k]));
    assert(e.len() >= 2);
    assert(s[pos + 1] == e[1]);
    assert(e.len() == 2);
}

/// Reads a string literal body after its opening quote; on success the
/// returned position is just past the closing quote. When the rest of the
/// input is exactly an escaped body and its closing quote, the body read
/// back is exactly the content that was escaped.
#[verifier::rlimit(90)]
fn parse_string_body(s: &Vec<char>, i: usize) -> (r: Option<(String, usize)>)
    requires
        i <= s@.len(),
    ensures
        r matches Some((_, j)) ==> i < j <= s@.len(),
        forall|content: Seq<char>|
            #[trigger] quoted_rest(s@, i as int, content) ==> (r matches Some((t, j)) && t@
                == content && j == s@.len()),
    decreases s@.len() - i,
{
    let mut body: Vec<char> = Vec::new();
    let mut j: usize = i;
    proof {
        assert forall|content: Seq<char>| #[trigger] quoted_rest(s@, i as int, content) implies (
            body@.len() <= content.len() && body@ == content.subrange(0, body@.len() as int)
                && quoted_rest(
                s@,
                j as int,
                content.subrange(body@.len() as int, content.len() as int),
            )
        ) by {
            assert(body@ =~= content.subrange(0, 0));
            assert(content.subrange(0, content.len() as int) =~= content);
        }
    }
    while j < s.len()
        invariant
            i <= j <= s@.len(),
            forall|content: Seq<char>|
                #[trigger] quoted_rest(s@, i as int, content) ==> (body@.len() <= content.len()
                    && body@ == content.subrange(0, body@.len() as int) && quoted_rest(
                    s@,
                    j as int,
                    content.subrange(body@.len() as int, content.len() as int),
                )),
        decreases s@.len() - j,
    {
        let ghost old_body = body@;
        let ghost old_j = j as int;
        let c = s[j];
        if c == '"' {
            proof {
                assert forall|content: Seq<char>| #[trigger] quoted_rest(s@, i as int, content)
                    implies (body@ == content && old_j + 1 == s@.len()) by {
                    let k = old_body.len() as int;
                    if k < content.len() {
                        lemma_quoted_step(s@, old_j, content, k);
                        lemma_escape_char_shape(content[k]);
                        assert(s@[old_j] == escape_char(content[k])[0]);
                        assert(false);
                    } else {
                        let suffix = content.subrange(k, content.len() as int);
                        assert(suffix.len() == 0);
                        assert(escape_text(suffix) + seq!['"'] =~= seq!['"']);
                        assert(s@.subrange(old_j, s@.len() as int).len() == 1);
                        assert(body@ =~= content);
                    }
                }
            }
            let text = crate::text::chars_to_string(&body);
            return Some((text, j + 1));
        } else if c == '\\' {
            if j + 1 >= s.len() {
                proof {
                    assert forall|content: Seq<char>| #[trigger] quoted_rest(
                        s@,
                        i as int,
                        content,
                    ) implies false by {
                        let k = old_body.len() as int;
                        if k < content.len() {
                            lemma_quoted_step(s@, old_j, content, k);
                            lemma_escape_char_shape(content[k]);
                            assert(s@[old_j] == escape_char(content[k])[0]);
                            assert(escape_char(content[k]).len() >= 2);
                        } else {
                            assert(escape_text(content.subrange(k, content.len() as int)) + seq![
                                '"',
                            ] =~= seq!['"']);
                            assert(s@.subrange(old_j, s@.len() as int)[0] == '"');
                        }
                    }
                }
                return None;
            }
            let e = s[j + 1];
            if e == '"' {
                body.push('"');
                j = j + 2;
                proof {
                    assert forall|content: Seq<char>| #[trigger] quoted_rest(
                        s@,
                        i as int,
                        content,
                    ) implies (body@.len() <= content.len() && body@ == content.subrange(
                        0,
                        body@.len() as int,
                    ) && quoted_rest(
                        s@,
                        j as int,
                        content.subrange(body@.len() as int, content.len() as int),
                    )) by {
                        let k = old_body.len() as int;
                        if k < content.len() {
                            lemma_simple_escape(s@, old_j, content, k, '"', '"');
                            assert(body@ =~= content.subrange(0, k + 1));
                        } else {
                            assert(escape_text(content.subrange(k, content.len() as int)) + seq![
                                '"',
                            ] =~= seq!['"']);
                            assert(s@.subrange(old_j, s@.len() as int)[0] == '"');
                            assert(false);
                        }
                    }
                }
            } else if e == '\\' {
                body.push('\\');
                j = j + 2;
                proof {
                    assert forall|content: Seq<char>| #[trigger] quoted_rest(
                        s@,
                        i as int,
                        content,
                    ) implies (body@.len() <= content.len() && body@ == content.subrange(
                        0,
                        body@.len() as int,
                    ) && quoted_rest(
                        s@,
                        j as int,
                        content.subrange(body@.len() as int, content.len() as int),
                    )) by {
                        let k = old_body.len() as int;
                        if k < content.len() {
                            lemma_simple_escape(s@, old_j, content, k, '\\', '\\');
                            assert(body@ =~= content.subrange(0, k + 1));
                        } else {
                            assert(escape_text(content.subrange(k, content.len() as int)) + seq![
                                '"',
                            ] =~= seq!['"']);
                            assert(s@.subrange(old_j, s@.len() as int)[0] == '"');
                            assert(false);
                        }
                    }
                }
            } else if e == '/' || e == 'b' || e == 'f' {
                if e == '/' {
                    body.push('/');
                } else if e == 'b' {
                    body.push('\u{8}');
                } else {
                    body.push('\u{c}');
                }
                j = j + 2;
                proof {
                    assert forall|content: Seq<char>| #[trigger] quoted_rest(
                        s@,
                        i as int,
                        content,
                    ) implies (body@.len() <= content.len() && body@ == content.subrange(
                        0,
                        body@.len() as int,
                    ) && quoted_rest(
                        s@,
                        j as int,
                        content.subrange(body@.len() as int, content.len() as int),
                    )) by {
                        let k = old_body.len() as int;
                        if k < content.len() {
                            lemma_quoted_step(s@, old_j, content, k);
                            lemma_escape_char_shape(content[k]);
                            assert(s@[old_j] == escape_char(content[k])[0]);
                            assert(s@[old_j + 1] == escape_char(content[k])[1]);
                            assert(false);
                        } else {
                            assert(escape_text(content.subrange(k, content.len() as int)) + seq![
                                '"',
                            ] =~= seq!['"']);
                            assert(s@.subrange(old_j, s@.len() as int)[0] == '"');
                            assert(false);
                        }
                    }
                }
            } else if e == 'n' {
                body.push('\n');
                j = j + 2;
                proof {
                    assert forall|content: Seq<char>| #[trigger] quoted_rest(
                        s@,
                        i as int,
                        content,
                    ) implies (body@.len() <= content.len() && body@ == content.subrange(
                        0,
                        body@.len() as int,
                    ) && quoted_rest(
                        s@,
                        j as int,
                        content.subrange(body@.len() as int, content.len() as int),
                    )) by {
                        let k = old_body.len() as int;
                        if k < content.len() {
                            lemma_simple_escape(s@, old_j, content, k, 'n', '\n');
                            assert(body@ =~= content.subrange(0, k + 1));
                        } else {
                            assert(escape_text(content.subrange(k, content.len() as int)) + seq![
                                '"',
                            ] =~= seq!['"']);
                            assert(s@.subrange(old_j, s@.len() as int)[0] == '"');
                            assert(false);
                        }
                    }
                }
            } else if e == 'r' {
                body.push('\r');
                j = j + 2;
                proof {
                    assert forall|content: Seq<char>| #[trigger] quoted_rest(
                        s@,
                        i as int,
                        content,
                    ) implies (body@.len() <= content.len() && body@ == content.subrange(
                        0,
                        body@.len() as int,
                    ) && quoted_rest(
                        s@,
                        j as int,
                        content.subrange(body@.len() as int, content.len() as int),
                    )) by {
                        let k = old_body.len() as int;
                        if k < content.len() {
                            lemma_simple_escape(s@, old_j, content, k, 'r', '\r');
                            assert(body@ =~= content.subrange(0, k + 1));
                        } else {
                            assert(escape_text(content.subrange(k, content.len() as int)) + seq![
                                '"',
                            ] =~= seq!['"']);
                            assert(s@.subrange(old_j, s@.len() as int)[0] == '"');
                            assert(false);
                        }
                    }
                }
            } else if e == 't' {
                body.push('\t');
                j = j + 2;
                proof {
                    assert forall|content: Seq<char>| #[trigger] quoted_rest(
                        s@,
                        i as int,
                        content,
                    ) implies (body@.len() <= content.len() && body@ == content.subrange(
                        0,
                        body@.len() as int,
                    ) && quoted_rest(
                        s@,
                        j as int,
                        content.subrange(body@.len() as int, content.len() as int),
                    )) by {
                        let k = old_body.len() as int;
                        if k < content.len() {
                            lemma_simple_escape(s@, old_j, content, k, 't', '\t');
                            assert(body@ =~= content.subrange(0, k + 1));
                        } else {
                            assert(escape_text(content.subrange(k, content.len() as int)) + seq![
                                '"',
                            ] =~= seq!['"']);
                            assert(s@.subrange(old_j, s@.len() as int)[0] == '"');
                            assert(false);
                        }
                    }
                }
            } else if e == 'u' {
                match parse_hex4(s, j + 2) {
                    None => {
                        proof {
                            assert forall|content: Seq<char>| #[trigger] quoted_rest(
                                s@,
                                i as int,
                                content,
                            ) implies false by {
                                let k = old_body.len() as int;
                                if k < content.len() {
                                    lemma_quoted_step(s@, old_j, content, k);
                                    lemma_escape_char_shape(content[k]);
                                    let c0 = content[k];
                                    let e0 = escape_char(c0);
                                    assert(s@[old_j] == e0[0]);
                                    assert(s@[old_j + 1] == e0[1]);
                                    assert(e0.len() == 6);
                                    assert(s@[old_j + 2] == e0[2]);
                                    assert(s@[old_j + 3] == e0[3]);
                                    assert(s@[old_j + 4] == e0[4]);
                                    assert(s@[old_j + 5] == e0[5]);
                                    if (c0 as int) < 32 {
                                        lemma_hex_val_of_hex_char((c0 as int) / 16);
                                        lemma_hex_val_of_hex_char((c0 as int) % 16);
                                    }
                                } else {
                                    assert(escape_text(
                                        content.subrange(k, content.len() as int),
                                    ) + seq!['"'] =~= seq!['"']);
                                    assert(s@.subrange(old_j, s@.len() as int)[0] == '"');
                                }
                            }
                        }
                        return None;
                    },
                    Some((hi, after_hi)) => {
                        if 0xD800 <= hi && hi < 0xDC00 && after_hi < s.len() && s.len() - after_hi
                            > 1 && s[after_hi] == '\\' && s[after_hi + 1] == 'u' {
                            match parse_hex4(s, after_hi + 2) {
                                None => {
                                    proof {
                                        assert forall|content: Seq<char>| #[trigger] quoted_rest(
                                            s@,
                                            i as int,
                                            content,
                                        ) implies false by {
                                            lemma_u_escape_value(
                                                s@,
                                                old_j,
                                                content,
                                                old_body.len() as int,
                                                hi as int,
                                            );
                                        }
                                    }
                                    return None;
                                },
                                Some((lo, after_lo)) => {
                                    if 0xDC00 <= lo && lo < 0xE000 {
                                        let combined: u32 = 0x10000 + (hi - 0xD800) * 0x400 + (lo
                                            - 0xDC00);
                                        match char_from_u32(combined) {
                                            Some(ch) => body.push(ch),
                                            None => body.push('\u{fffd}'),
                                        }
                                        j = after_lo;
                                    } else {
                                        body.push('\u{fffd}');
                                        match char_from_u32(lo) {
                                            Some(ch) => body.push(ch),
                                            None => body.push('\u{fffd}'),
                                        }
                                        j = after_lo;
                                    }
                                    proof {
                                        assert forall|content: Seq<char>| #[trigger] quoted_rest(
                                            s@,
                                            i as int,
                                            content,
                                        ) implies (body@.len() <= content.len() && body@
                                            == content.subrange(0, body@.len() as int)
                                            && quoted_rest(
                                            s@,
                                            j as int,
                                            content.subrange(
                                                body@.len() as int,
                                                content.len() as int,
                                            ),
                                        )) by {
                                            lemma_u_escape_value(
                                                s@,
                                                old_j,
                                                content,
                                                old_body.len() as int,
                                                hi as int,
                                            );
                                        }
                                    }
                                },
                            }
                        } else {
                            let found = char_from_u32(hi);
                            let appended: char = match found {
                                Some(ch) => ch,
                                None => '\u{fffd}',
                            };
                            body.push(appended);
                            j = after_hi;
                            proof {
                                assert forall|content: Seq<char>| #[trigger] quoted_rest(
                                    s@,
                                    i as int,
                                    content,
                                ) implies (body@.len() <= content.len() && body@
                                    == content.subrange(0, body@.len() as int) && quoted_rest(
                                    s@,
                                    j as int,
                                    content.subrange(body@.len() as int, content.len() as int),
                                )) by {
                                    let k = old_body.len() as int;
                                    lemma_u_escape_value(s@, old_j, content, k, hi as int);
                                    let c0 = content[k];
                                    assert(c0 as u32 as int == hi as int);
                                    assert(c0 as u32 == hi);
                                    assert(appended as u32 == c0 as u32);
                                    lemma_char_u32_inj(appended, c0);
                                    assert(appended == c0);
                                    assert(body@ =~= content.subrange(0, k + 1));
                                    assert(j as int == old_j + 6);
                                }
                            }
                        }
                    },
                }
            } else {
                proof {
                    assert forall|content: Seq<char>| #[trigger] quoted_rest(
                        s@,
                        i as int,
                        content,
                    ) implies false by {
                        let k = old_body.len() as int;
                        if k < content.len() {
                            lemma_quoted_step(s@, old_j, content, k);
                            lemma_escape_char_shape(content[k]);
                            assert(s@[old_j] == escape_char(content[k])[0]);
                            assert(s@[old_j + 1] == escape_char(content[k])[1]);
                        } else {
                            assert(escape_text(content.subrange(k, content.len() as int)) + seq![
                                '"',
                            ] =~= seq!['"']);
                            assert(s@.subrange(old_j, s@.len() as int)[0] == '"');
                        }
                    }
                }
                return None;
            }
        } else {
            body.push(c);
            j = j + 1;
            proof {
                assert forall|content: Seq<char>| #[trigger] quoted_rest(
                    s@,
                    i as int,
                    content,
                ) implies (body@.len() <= content.len() && body@ == content.subrange(
                    0,
                    body@.len() as int,
                ) && quoted_rest(
                    s@,
                    j as int,
                    content.subrange(body@.len() as int, content.len() as int),
                )) by {
                    let k = old_body.len() as int;
                    if k < content.len() {
                        lemma_quoted_step(s@, old_j, content, k);
                        lemma_escape_char_shape(content[k]);
                        assert(s@[old_j] == escape_char(content[k])[0]);
                        if is_escaped_char(content[k]) {
                            assert(s@[old_j] == '\\');
                            assert(false);
                        }
                        assert(escape_char(content[k]) == seq![content[k]]);
                        assert(content[k] == s@[old_j]);
                        assert(body@ =~= content.subrange(0, k + 1));
                    } else {
                        assert(escape_text(content.subrange(k, content.len() as int)) + seq![
                            '"',
                        ] =~= seq!['"']);
                        assert(s@.subrange(old_j, s@.len() as int)[0] == '"');
                        assert(false);
                    }
                }
            }
        }
    }
    proof {
        assert forall|content: Seq<char>| #[trigger] quoted_rest(s@, i as int, content)
            implies false by {
            assert(s@.subrange(j as int, s@.len() as int).len() >= 1);
        }
    }
    None
}

/// The head of a quoted rest whose next input characters spell a
/// `u`-escape: the escape encodes the next content character, whose value
/// is always below the surrogate range.
proof fn lemma_u_escape_value(s: Seq<char>, pos: int, content: Seq<char>, k: int, hi: int)
    requires
        0 <= pos <= s.len(),
        0 <= k <= content.len(),
        quoted_rest(s, pos, content.subrange(k, content.len() as int)),
        s[pos] == '\\',
        pos + 1 < s.len(),
        s[pos + 1] == 'u',
        pos + 6 <= s.len() ==> hi == ((spec_hex_val(s[pos + 2]) * 16 + spec_hex_val(
            s[pos + 3],
        )) * 16 + spec_hex_val(s[pos + 4])) * 16 + spec_hex_val(s[pos + 5]),
    ensures
        k < content.len(),
        content[k] as u32 as int == hi,
        hi < 0xD800,
        pos + 6 <= s.len(),
        quoted_rest(s, pos + 6, content.subrange(k + 1, content.len() as int)),
{
    if k == content.len() {
        assert(content.subrange(k, content.len() as int).len() == 0);
        assert(escape_text(content.subrange(k, content.len() as int)) + seq!['"'] =~= seq!['"']);
        assert(s.subrange(pos, s.len() as int)[0] == '"');
        assert(false);
    }
    lemma_quoted_step(s, pos, content, k);
    lemma_escape_char_shape(content[k]);
    let c0 = content[k];
    let e0 = escape_char(c0);
    assert(s[pos] == e0[0]);
    assert(s[pos + 1] == e0[1]);
    assert(e0.len() == 6);
    assert(s[pos + 2] == e0[2]);
    assert(s[pos + 3] == e0[3]);
    assert(s[pos + 4] == e0[4]);
    assert(s[pos + 5] == e0[5]);
    if (c0 as u32) < 32 {
        lemma_hex_val_of_hex_char(((c0 as u32) / 16) as int);
        lemma_hex_val_of_hex_char(((c0 as u32) % 16) as int);
        assert(hi == (((0 * 16 + 0) * 16 + ((c0 as u32) / 16) as int) * 16 + ((c0 as u32)
            % 16) as int));
        assert(hi == c0 as u32 as int);
    } else {
        assert(hi == c0 as u32 as int);
    }
}

fn is_digit(c: char) -> (r: bool)
    ensures
        r == (crate::text::digit_val(c) < 10),
{
    c == '0' || c == '1' || c == '2' || c == '3' || c == '4' || c == '5' || c == '6' || c == '7'
        || c == '8' || c == '9'
}

fn digit_u64(c: char) -> (r: u64)
    ensures
        r == crate::text::digit_val(c),
{
    if c == '0' {
        0
    } else if c == '1' {
        1
    } else if c == '2' {
        2
    } else if c == '3' {
        3
    } else if c == '4' {
        4
    } else if c == '5' {
        5
    } else if c == '6' {
        6
    } else if c == '7' {
        7
    } else if c == '8' {
        8
    } else if c == '9' {
        9
    } else {
        10
    }
}

/// Reads a number token; integer tokens whose value fits a signed 64-bit
/// integer become machine integers, everything else keeps its text. A
/// rest-of-input that is exactly a canonical integer text is read to
/// exactly that integer.
fn parse_number(s: &Vec<char>, i: usize) -> (r: Option<(JsonValue, usize)>)
    requires
        i < s@.len(),
    ensures
        r matches Some((_, j)) ==> i < j <= s@.len(),
        canonical_uint_rest(s@, i as int) ==> (r matches Some((v, j)) && v == JsonValue::Int(
            crate::text::digits_val(s@.subrange(i as int, s@.len() as int)) as i64,
        ) && j == s@.len()),
        canonical_negint_rest(s@, i as int) ==> (r matches Some((v, j)) && v == JsonValue::Int(
            (-crate::text::digits_val(s@.subrange(i + 1, s@.len() as int))) as i64,
        ) && j == s@.len()),
        r matches Some((v, _)) ==> wf_value(v),
    decreases s@.len() - i,
{
    let ghost is_neg = s@[i as int] == '-';
    let ghost fd: int = if is_neg {
        i + 1
    } else {
        i as int
    };
    let ghost dseg = s@.subrange(fd, s@.len() as int);
    let ghost canon = if is_neg {
        canonical_negint_rest(s@, i as int)
    } else {
        canonical_uint_rest(s@, i as int)
    };
    let n: usize = s.len();
    let mut j: usize = i;
    let mut neg: bool = false;
    proof {
        let seg0 = s@.subrange(i as int, s@.len() as int);
        assert(seg0[0] == s@[i as int]);
    }
    if s[j] == '-' {
        neg = true;
        j = j + 1;
    }
    if j >= n || !is_digit(s[j]) {
        proof {
            if canon {
                assert(dseg.len() > 0);
                assert(dseg[0] == s@[fd]);
                assert(crate::text::digit_val(s@[j as int]) < 10);
                assert(false);
            }
        }
        return None;
    }
    let mut acc: u128 = digit_u64(s[j]) as u128;
    let mut big: bool = false;
    proof {
        if canon {
            let first = dseg.subrange(0, 1);
            assert(first.len() == 1);
            assert(first[0] == dseg[0]);
            assert(first[first.len() - 1] == dseg[0]);
            assert(first.drop_last() =~= Seq::<char>::empty());
            assert(crate::text::digits_val(Seq::<char>::empty()) == 0);
            assert(crate::text::digits_val(first) == crate::text::digit_val(dseg[0]));
            assert(dseg[0] == s@[j as int]);
            assert(acc == crate::text::digits_val(dseg.subrange(0, j + 1 - fd)));
        }
    }
    j = j + 1;
    while j < n && is_digit(s[j])
        invariant
            n == s@.len(),
            i < j <= s@.len(),
            acc <= 92233720368547758089,
            big ==> acc > 9223372036854775808,
            !big ==> acc <= 9223372036854775808,
            neg == is_neg,
            is_neg == (s@[i as int] == '-'),
            fd == (if is_neg {
                i + 1
            } else {
                i as int
            }),
            dseg == s@.subrange(fd, s@.len() as int),
            canon == (if is_neg {
                canonical_negint_rest(s@, i as int)
            } else {
                canonical_uint_rest(s@, i as int)
            }),
            canon ==> !big && fd < j && j - fd <= dseg.len() && acc == crate::text::digits_val(
                dseg.subrange(0, j - fd),
            ),
            forall|t: int| i <= t < j ==> is_number_char(#[trigger] s@[t]),
        decreases s@.len() - j,
    {
        let ghost old_j = j as int;
        if big {
            // the magnitude already exceeds the signed 64-bit range
        } else {
            acc = acc * 10 + digit_u64(s[j]) as u128;
            if acc > 9223372036854775808 {
                big = true;
            }
        }
        proof {
            if canon {
                assert(dseg[old_j - fd] == s@[old_j]);
                let pre = dseg.subrange(0, old_j - fd);
                let cur = dseg.subrange(0, old_j - fd + 1);
                assert(cur.drop_last() =~= pre);
                assert(cur[cur.len() - 1] == dseg[old_j - fd]);
                assert(crate::text::digits_val(cur) == crate::text::digits_val(pre) * 10
                    + crate::text::digit_val(dseg[old_j - fd]));
                crate::text::lemma_digits_val_prefix_le(dseg, old_j - fd + 1);
                assert(crate::text::digits_val(cur) <= crate::text::digits_val(dseg));
                assert(acc == crate::text::digits_val(cur));
                assert(!big);
            }
        }
        j = j + 1;
    }
    proof {
        if canon {
            if j < n {
                assert(dseg[j - fd] == s@[j as int]);
                assert(crate::text::digit_val(s@[j as int]) < 10);
                assert(false);
            }
            assert(j == n);
            assert(dseg.subrange(0, j - fd) =~= dseg);
            assert(acc == crate::text::digits_val(dseg));
        }
    }
    let mut plain: bool = !big;
    if j < n && s[j] == '.' {
        plain = false;
        j = j + 1;
        while j < n && is_digit(s[j])
            invariant
                n == s@.len(),
                i < j <= s@.len(),
                forall|t: int| i <= t < j ==> is_number_char(#[trigger] s@[t]),
            decreases s@.len() - j,
        {
            j = j + 1;
        }
    }
    if j < n && (s[j] == 'e' || s[j] == 'E') {
        plain = false;
        j = j + 1;
        if j < n && (s[j] == '+' || s[j] == '-') {
            j = j + 1;
        }
        while j < n && is_digit(s[j])
            invariant
                n == s@.len(),
                i < j <= s@.len(),
                forall|t: int| i <= t < j ==> is_number_char(#[trigger] s@[t]),
            decreases s@.len() - j,
        {
            j = j + 1;
        }
    }
    let fits: bool = if neg {
        acc <= 9223372036854775808
    } else {
        acc <= 9223372036854775807
    };
    if plain && fits {
        if neg {
            if acc == 9223372036854775808 {
                Some((JsonValue::Int(i64::MIN), j))
            } else {
                Some((JsonValue::Int(-(acc as i64)), j))
            }
        } else {
            Some((JsonValue::Int(acc as i64), j))
        }
    } else {
        let mut token: Vec<char> = Vec::new();
        let mut k: usize = i;
        while k < j
            invariant
                i < j <= s@.len(),
                i <= k <= j,
                token@ == s@.subrange(i as int, k as int),
                forall|t: int| i <= t < j ==> is_number_char(#[trigger] s@[t]),
            decreases j - k,
        {
            token.push(s[k]);
            k = k + 1;
            proof {
                assert(s@.subrange(i as int, k as int) =~= s@.subrange(i as int, k - 1).push(
                    s@[k - 1],
                ));
            }
        }
        let text = crate::text::chars_to_string(&token);
        proof {
            assert(plausible_number_text(text@)) by {
                assert(text@.len() == j - i);
                assert forall|t: int| 0 <= t < text@.len() implies is_number_char(
                    #[trigger] text@[t],
                ) by {
                    assert(text@[t] == s@[i + t]);
                }
            }
        }
        Some((JsonValue::Real(text), j))
    }
}

fn expect_word(s: &Vec<char>, i: usize, a: char, b: char, c: char) -> (r: Option<usize>)
    requires
        i < s@.len(),
    ensures
        r matches Some(j) ==> i < j <= s@.len(),
        (r is Some) <==> (s@.len() - i >= 4 && s@[i + 1] == a && s@[i + 2] == b && s@[i + 3] == c),
        r matches Some(j) ==> j == i + 4,
{
    if s.len() - i >= 4 && s[i + 1] == a && s[i + 2] == b && s[i + 3] == c {
        Some(i + 4)
    } else {
        None
    }
}

/// The canonical integer reading of the rest of the input: digits only,
/// with a value in the signed 64-bit range.
pub open spec fn canonical_uint_rest(s: Seq<char>, i: int) -> bool {
    let seg = s.subrange(i, s.len() as int);
    &&& i < s.len()
    &&& crate::text::all_digits(seg)
    &&& crate::text::digits_val(seg) <= i64::MAX as int
}

/// The canonical negative-integer reading of the rest of the input: a
/// minus sign, then digits whose value stays in the signed 64-bit range.
pub open spec fn canonical_negint_rest(s: Seq<char>, i: int) -> bool {
    let seg = s.subrange(i + 1, s.len() as int);
    &&& i + 2 <= s.len()
    &&& s[i] == '-'
    &&& crate::text::all_digits(seg)
    &&& crate::text::digits_val(seg) <= 9223372036854775808int
}

/// Reads one JSON value starting at `i`; on success the returned position is
/// just past the value's last character. A rest-of-input that is exactly a
/// canonical scalar or string text is read to exactly that value.
fn parse_value(s: &Vec<char>, i: usize) -> (r: Option<(JsonValue, usize)>)
    requires
        i <= s@.len(),
    ensures
        r matches Some((_, j)) ==> i < j <= s@.len(),
        (s@.len() - i == 4 && s@[i as int] == 'n' && s@[i + 1] == 'u' && s@[i + 2] == 'l' && s@[i
            + 3] == 'l') ==> (r matches Some((v, j)) && v == JsonValue::Null && j == s@.len()),
        (s@.len() - i == 4 && s@[i as int] == 't' && s@[i + 1] == 'r' && s@[i + 2] == 'u' && s@[i
            + 3] == 'e') ==> (r matches Some((v, j)) && v == JsonValue::Bool(true) && j
            == s@.len()),
        (s@.len() - i == 5 && s@[i as int] == 'f' && s@[i + 1] == 'a' && s@[i + 2] == 'l' && s@[i
            + 3] == 's' && s@[i + 4] == 'e') ==> (r matches Some((v, j)) && v == JsonValue::Bool(
            false,
        ) && j == s@.len()),
        canonical_uint_rest(s@, i as int) ==> (r matches Some((v, j)) && v == JsonValue::Int(
            crate::text::digits_val(s@.subrange(i as int, s@.len() as int)) as i64,
        ) && j == s@.len()),
        canonical_negint_rest(s@, i as int) ==> (r matches Some((v, j)) && v == JsonValue::Int(
            (-crate::text::digits_val(s@.subrange(i + 1, s@.len() as int))) as i64,
        ) && j == s@.len()),
        forall|content: Seq<char>|
            s@.subrange(i as int, s@.len() as int) == seq!['"'] + #[trigger] escape_text(content)
                + seq!['"'] ==> (r matches Some((v, j)) && (v matches JsonValue::Str(t) && t@
                == content) && j == s@.len()),
        r matches Some((v, _)) ==> wf_value(v),
    decreases s@.len() - i, 0int,
{
    if i >= s.len() {
        proof {
            assert forall|content: Seq<char>|
                s@.subrange(i as int, s@.len() as int) == seq!['"'] + #[trigger] escape_text(
                    content,
                ) + seq!['"'] implies false by {
                assert(s@.subrange(i as int, s@.len() as int).len() == 0);
                assert((seq!['"'] + escape_text(content) + seq!['"']).len() >= 2);
            }
        }
        return None;
    }
    let c = s[i];
    proof {
        let seg = s@.subrange(i as int, s@.len() as int);
        assert(seg[0] == s@[i as int]);
        assert forall|content: Seq<char>|
            s@.subrange(i as int, s@.len() as int) == seq!['"'] + #[trigger] escape_text(content)
                + seq!['"'] implies s@[i as int] == '"' && quoted_rest(s@, i + 1, content) by {
            let e = escape_text(content);
            assert(seg[0] == ((seq!['"'] + e) + seq!['"'])[0]);
            assert(seg.len() == e.len() + 2);
            assert(s@.subrange(i + 1, s@.len() as int) =~= e + seq!['"']) by {
                assert forall|t: int|
                    0 <= t < s@.len() - i - 1 implies s@.subrange(i + 1, s@.len() as int)[t] == (e
                    + seq!['"'])[t] by {
                    assert(s@.subrange(i + 1, s@.len() as int)[t] == s@[i + 1 + t]);
                    assert(s@[i + 1 + t] == seg[t + 1]);
                    assert(seg[t + 1] == ((seq!['"'] + e) + seq!['"'])[t + 1]);
                    if t < e.len() {
                        assert(((seq!['"'] + e) + seq!['"'])[t + 1] == (seq!['"'] + e)[t + 1]);
                        assert((seq!['"'] + e)[t + 1] == e[t]);
                        assert((e + seq!['"'])[t] == e[t]);
                    } else {
                        assert(t == e.len());
                        assert(((seq!['"'] + e) + seq!['"'])[t + 1] == '"');
                        assert((e + seq!['"'])[t] == '"');
                    }
                }
            }
        }
    }
    if c == 'n' {
        match expect_word(s, i, 'u', 'l', 'l') {
            Some(j) => Some((JsonValue::Null, j)),
            None => None,
        }
    } else if c == 't' {
        match expect_word(s, i, 'r', 'u', 'e') {
            Some(j) => Some((JsonValue::Bool(true), j)),
            None => None,
        }
    } else if c == 'f' {
        if s.len() - i >= 5 && s[i + 1] == 'a' && s[i + 2] == 'l' && s[i + 3] == 's' && s[i + 4]
            == 'e' {
            Some((JsonValue::Bool(false), i + 5))
        } else {
            None
        }
    } else if c == '"' {
        match parse_string_body(s, i + 1) {
            Some((text, j)) => Some((JsonValue::Str(text), j)),
            None => None,
        }
    } else if c == '[' {
        parse_array_items(s, i + 1)
    } else if c == '{' {
        parse_object_members(s, i + 1)
    } else if c == '-' || is_digit(c) {
        parse_number(s, i)
    } else {
        None
    }
}

/// Reads the items of an array whose opening bracket sits just before `i`.
fn parse_array_items(s: &Vec<char>, i: usize) -> (r: Option<(JsonValue, usize)>)
    requires
        0 < i <= s@.len(),
    ensures
        r matches Some((_, j)) ==> i <= j <= s@.len(),
        r matches Some((v, _)) ==> wf_value(v),
    decreases s@.len() - i, 1int,
{
    let mut items: Vec<JsonValue> = Vec::new();
    let mut j: usize = skip_ws(s, i);
    if j < s.len() && s[j] == ']' {
        return Some((JsonValue::Array(items), j + 1));
    }
    loop
        invariant
            i <= j <= s@.len(),
            forall|t: int| 0 <= t < items@.len() ==> wf_value(#[trigger] items@[t]),
        decreases s@.len() - j,
    {
        match parse_value(s, j) {
            None => {
                return None;
            },
            Some((v, j2)) => {
                items.push(v);
                let j3: usize = skip_ws(s, j2);
                if j3 < s.len() && s[j3] == ',' {
                    let j4: usize = skip_ws(s, j3 + 1);
                    if j4 <= j {
                        return None;
                    }
                    j = j4;
                } else if j3 < s.len() && s[j3] == ']' {
                    return Some((JsonValue::Array(items), j3 + 1));
                } else {
                    return None;
                }
            },
        }
    }
}

/// Reads the members of an object whose opening brace sits just before `i`.
fn parse_object_members(s: &Vec<char>, i: usize) -> (r: Option<(JsonValue, usize)>)
    requires
        0 < i <= s@.len(),
    ensures
        r matches Some((_, j)) ==> i <= j <= s@.len(),
        r matches Some((v, _)) ==> wf_value(v),
    decreases s@.len() - i, 1int,
{
    let mut members: Vec<(String, JsonValue)> = Vec::new();
    let mut j: usize = skip_ws(s, i);
    if j < s.len() && s[j] == '}' {
        return Some((JsonValue::Object(members), j + 1));
    }
    loop
        invariant
            i <= j <= s@.len(),
            forall|t: int| 0 <= t < members@.len() ==> wf_value(#[trigger] members@[t].1),
        decreases s@.len() - j,
    {
        if j >= s.len() || s[j] != '"' {
            return None;
        }
        match parse_string_body(s, j + 1) {
            None => {
                return None;
            },
            Some((key, jk)) => {
                let jc: usize = skip_ws(s, jk);
                if jc >= s.len() || s[jc] != ':' {
                    return None;
                }
                let jv: usize = skip_ws(s, jc + 1);
                match parse_value(s, jv) {
                    None => {
                        return None;
                    },
                    Some((v, j2)) => {
                        members.push((key, v));
                        let j3: usize = skip_ws(s, j2);
                        if j3 < s.len() && s[j3] == ',' {
                            let j4: usize = skip_ws(s, j3 + 1);
                            if j4 <= j {
                                return None;
                            }
                            j = j4;
                        } else if j3 < s.len() && s[j3] == '}' {
                            return Some((JsonValue::Object(members), j3 + 1));
                        } else {
                            return None;
                        }
                    },
                }
            },
        }
    }
}

proof fn lemma_int_text_shape(s: Seq<char>, n: i64)
    requires
        s == crate::text::dec_int(n as int),
    ensures
        s.len() > 0,
        !spec_json_ws(s[0]),
        n >= 0 ==> canonical_uint_rest(s, 0) && crate::text::digits_val(
            s.subrange(0, s.len() as int),
        ) == n,
        n < 0 ==> canonical_negint_rest(s, 0) && crate::text::digits_val(
            s.subrange(1, s.len() as int),
        ) == -(n as int),
{
    if n >= 0 {
        crate::text::lemma_dec_digits_all_digits(n as nat);
        crate::text::lemma_digits_val_of_dec_digits(n as nat);
        assert(s.subrange(0, s.len() as int) =~= s);
        assert(crate::text::digit_val(s[0]) < 10);
        assert(!spec_json_ws(s[0]));
    } else {
        let mag = (-(n as int)) as nat;
        crate::text::lemma_dec_digits_all_digits(mag);
        crate::text::lemma_digits_val_of_dec_digits(mag);
        assert(s == seq!['-'] + crate::text::dec_digits(mag));
        assert(s[0] == '-');
        assert(s.subrange(1, s.len() as int) =~= crate::text::dec_digits(mag));
        assert(mag <= 9223372036854775808);
        assert(!spec_json_ws('-'));
    }
}

/// Reads a complete JSON text: one value, possibly surrounded by blank
/// space, covering the whole input. A canonical scalar or string text is
/// read to exactly the value it serializes, so writing such a value out
/// and reading it back is the identity.
pub fn parse_text(text: &str) -> (r: Option<JsonValue>)
    ensures
        text@ == "null"@ ==> r == Some(JsonValue::Null),
        text@ == "true"@ ==> r == Some(JsonValue::Bool(true)),
        text@ == "false"@ ==> r == Some(JsonValue::Bool(false)),
        forall|n: i64|
            text@ == crate::text::dec_int(n as int) ==> r == Some(JsonValue::Int(n)),
        forall|content: Seq<char>|
            text@ == seq!['"'] + #[trigger] escape_text(content) + seq!['"'] ==> (r matches Some(
                v,
            ) && (v matches JsonValue::Str(t) && t@ == content)),
        r matches Some(v) ==> wf_value(v),
{
    let s = crate::text::str_to_chars(text);
    let start: usize = skip_ws(&s, 0);
    proof {
        reveal_strlit("null");
        reveal_strlit("true");
        reveal_strlit("false");
        if s@.len() > 0 && !spec_json_ws(s@[0]) {
            assert(start == 0) by {
                if start > 0 {
                    assert(spec_json_ws(s@[0]));
                }
            }
        }
        assert forall|n: i64| s@ == crate::text::dec_int(n as int) implies (start == 0
            && s@.len() > 0) by {
            lemma_int_text_shape(s@, n);
            if start > 0 {
                assert(spec_json_ws(s@[0]));
            }
        }
        assert forall|content: Seq<char>|
            s@ == seq!['"'] + #[trigger] escape_text(content) + seq!['"'] implies (start == 0
            && s@.len() > 0 && s@.subrange(0, s@.len() as int) == seq!['"'] + escape_text(content)
            + seq!['"']) by {
            assert(s@[0] == ((seq!['"'] + escape_text(content)) + seq!['"'])[0]);
            assert(s@[0] == '"');
            if start > 0 {
                assert(spec_json_ws(s@[0]));
            }
            assert(s@.subrange(0, s@.len() as int) =~= s@);
        }
    }
    match parse_value(&s, start) {
        None => {
            proof {
                assert forall|n: i64|
                    s@ == crate::text::dec_int(n as int) implies false by {
                    lemma_int_text_shape(s@, n);
                }
                assert forall|content: Seq<char>|
                    s@ == seq!['"'] + #[trigger] escape_text(content) + seq!['"'] implies false by {
                }
            }
            None
        },
        Some((v, j)) => {
            let end: usize = skip_ws(&s, j);
            if end == s.len() {
                proof {
                    assert forall|n: i64|
                        s@ == crate::text::dec_int(n as int) implies v == JsonValue::Int(n) by {
                        lemma_int_text_shape(s@, n);
                    }
                    assert forall|content: Seq<char>|
                        s@ == seq!['"'] + #[trigger] escape_text(content) + seq!['"'] implies (v
                        matches JsonValue::Str(t) && t@ == content) by {
                    }
                }
                Some(v)
            } else {
                proof {
                    assert forall|n: i64|
                        s@ == crate::text::dec_int(n as int) implies false by {
                        lemma_int_text_shape(s@, n);
                        assert(j == s@.len());
                    }
                    assert forall|content: Seq<char>|
                        s@ == seq!['"'] + #[trigger] escape_text(content) + seq!['"'] implies false by {
                        assert(j == s@.len());
                    }
                }
                None
            }
        },
    }
}

} // verus!
