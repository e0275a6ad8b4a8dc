//! Compact JSON text of a value, as it appears inside protocol messages:
//! no whitespace, strings quoted with `"` and `\` escaped, the short
//! escapes `\b \f \n \r \t`, and `\u00xx` (lowercase hex) for the other
//! control characters.

use vstd::prelude::*;
use crate::json::JsonValue;
use crate::text::{int_text, i64_to_decimal, owned};

verus! {

/// Lowercase hexadecimal digit of `d < 16`.
pub open spec fn hex_digit(d: nat) -> char {
    if d < 10 {
        ((d + 48) as u32) as char
    } else {
        ((d + 87) as u32) as char
    }
}

/// The escaped form of one character inside a JSON string.
pub open spec fn escape_char(c: char) -> Seq<char> {
    if c == '"' {
        seq!['\\', '"']
    } else if c == '\\' {
        seq!['\\', '\\']
    } else if c == '\u{8}' {
        seq!['\\', 'b']
    } else if c == '\u{c}' {
        seq!['\\', 'f']
    } else if c == '\n' {
        seq!['\\', 'n']
    } else if c == '\r' {
        seq!['\\', 'r']
    } else if c == '\t' {
        seq!['\\', 't']
    } else if (c as u32) < 32 {
        seq!['\\', 'u', '0', '0', hex_digit(((c as u32) / 16) as nat), hex_digit(((c as u32) % 16) as nat)]
    } else {
        seq![c]
    }
}

/// The escaped form of a character sequence.
pub open spec fn escape_text(s: Seq<char>) -> Seq<char>
    decreases s.len(),
{
    if s.len() == 0 {
        Seq::empty()
    } else {
        escape_text(s.drop_last()) + escape_char(s.last())
    }
}

/// A JSON string literal.
pub open spec fn quoted(s: Seq<char>) -> Seq<char> {
    seq!['"'] + escape_text(s) + seq!['"']
}

/// The compact JSON text of a value.
pub open spec fn json_text(v: JsonValue) -> Seq<char>
    decreases v, 0int,
{
    match v {
        JsonValue::Null => "null"@,
        JsonValue::Bool(b) => if b { "true"@ } else { "false"@ },
        JsonValue::Int(n) => int_text(n as int),
        JsonValue::Number(t) => t@,
        JsonValue::Str(s) => quoted(s@),
        JsonValue::Array(items) => seq!['['] + items_text(items@) + seq![']'],
        JsonValue::Object(fields) => seq!['{'] + fields_text(fields@) + seq!['}'],
    }
}

/// The texts of a list of values, comma separated.
pub open spec fn items_text(items: Seq<JsonValue>) -> Seq<char>
    decreases items, 2int,
{
    if items.len() == 0 {
        Seq::empty()
    } else {
        json_text(items[0]) + items_tail(items.subrange(1, items.len() as int))
    }
}

/// Each value's text preceded by a comma.
pub open spec fn items_tail(items: Seq<JsonValue>) -> Seq<char>
    decreases items, 1int,
{
    if items.len() == 0 {
        Seq::empty()
    } else {
        seq![','] + json_text(items[0]) + items_tail(items.subrange(1, items.len() as int))
    }
}

/// The members of an object, comma separated.
pub open spec fn fields_text(fields: Seq<(String, JsonValue)>) -> Seq<char>
    decreases fields, 2int,
{
    if fields.len() == 0 {
        Seq::empty()
    } else {
        quoted(fields[0].0@) + seq![':'] + json_text(fields[0].1) + fields_tail(fields.subrange(1, fields.len() as int))
    }
}

/// Each member's text preceded by a comma.
pub open spec fn fields_tail(fields: Seq<(String, JsonValue)>) -> Seq<char>
    decreases fields, 1int,
{
    if fields.len() == 0 {
        Seq::empty()
    } else {
        seq![','] + quoted(fields[0].0@) + seq![':'] + json_text(fields[0].1)
            + fields_tail(fields.subrange(1, fields.len() as int))
    }
}

proof fn lemma_items_tail_push(s: Seq<JsonValue>, x: JsonValue)
    ensures
        items_tail(s.push(x)) == items_tail(s) + seq![','] + json_text(x),
    decreases s.len(),
{
    let t = s.push(x);
    if s.len() == 0 {
        assert(t.subrange(1, t.len() as int) =~= Seq::<JsonValue>::empty());
        assert(t[0] == x);
        assert(items_tail(Seq::<JsonValue>::empty()) =~= Seq::<char>::empty());
        assert(items_tail(t) =~= seq![','] + json_text(x));
        assert(items_tail(s) =~= Seq::<char>::empty());
    } else {
        let rest = s.subrange(1, s.len() as int);
        assert(t.subrange(1, t.len() as int) =~= rest.push(x));
        lemma_items_tail_push(rest, x);
        assert(items_tail(t) =~= items_tail(s) + seq![','] + json_text(x));
    }
}

proof fn lemma_items_text_push(s: Seq<JsonValue>, x: JsonValue)
    ensures
        items_text(s.push(x)) == if s.len() == 0 { json_text(x) } else { items_text(s) + seq![','] + json_text(x) },
{
    let t = s.push(x);
    if s.len() == 0 {
        assert(t.subrange(1, t.len() as int) =~= Seq::<JsonValue>::empty());
        assert(items_text(t) =~= json_text(x));
    } else {
        let rest = s.subrange(1, s.len() as int);
        assert(t.subrange(1, t.len() as int) =~= rest.push(x));
        lemma_items_tail_push(rest, x);
        assert(items_text(t) =~= items_text(s) + seq![','] + json_text(x));
    }
}

proof fn lemma_fields_tail_push(s: Seq<(String, JsonValue)>, x: (String, JsonValue))
    ensures
        fields_tail(s.push(x)) == fields_tail(s) + seq![','] + quoted(x.0@) + seq![':'] + json_text(x.1),
    decreases s.len(),
{
    let t = s.push(x);
    if s.len() == 0 {
        assert(t.subrange(1, t.len() as int) =~= Seq::<(String, JsonValue)>::empty());
        assert(t[0] == x);
        assert(fields_tail(Seq::<(String, JsonValue)>::empty()) =~= Seq::<char>::empty());
        assert(fields_tail(t) =~= seq![','] + quoted(x.0@) + seq![':'] + json_text(x.1));
        assert(fields_tail(s) =~= Seq::<char>::empty());
    } else {
        let rest = s.subrange(1, s.len() as int);
        assert(t.subrange(1, t.len() as int) =~= rest.push(x));
        lemma_fields_tail_push(rest, x);
        assert(fields_tail(t) =~= fields_tail(s) + seq![','] + quoted(x.0@) + seq![':'] + json_text(x.1));
    }
}

proof fn lemma_fields_text_push(s: Seq<(String, JsonValue)>, x: (String, JsonValue))
    ensures
        fields_text(s.push(x)) == if s.len() == 0 {
            quoted(x.0@) + seq![':'] + json_text(x.1)
        } else {
            fields_text(s) + seq![','] + quoted(x.0@) + seq![':'] + json_text(x.1)
        },
{
    let t = s.push(x);
    if s.len() == 0 {
        assert(t.subrange(1, t.len() as int) =~= Seq::<(String, JsonValue)>::empty());
        assert(fields_text(t) =~= quoted(x.0@) + seq![':'] + json_text(x.1));
    } else {
        let rest = s.subrange(1, s.len() as int);
        assert(t.subrange(1, t.len() as int) =~= rest.push(x));
        lemma_fields_tail_push(rest, x);
        assert(fields_text(t) =~= fields_text(s) + seq![','] + quoted(x.0@) + seq![':'] + json_text(x.1));
    }
}

/// The lowercase hexadecimal digit of `d < 16`, as text.
fn hex_text(d: u32) -> (res: &'static str)
    requires
        d < 16,
    ensures
        res@ == seq![hex_digit(d as nat)],
{
    let res = match d {
        0 => "0", 1 => "1", 2 => "2", 3 => "3", 4 => "4", 5 => "5", 6 => "6", 7 => "7",
        8 => "8", 9 => "9", 10 => "a", 11 => "b", 12 => "c", 13 => "d", 14 => "e", _ => "f",
    };
    proof {
        reveal_strlit("0"); reveal_strlit("1"); reveal_strlit("2"); reveal_strlit("3");
        reveal_strlit("4"); reveal_strlit("5"); reveal_strlit("6"); reveal_strlit("7");
        reveal_strlit("8"); reveal_strlit("9"); reveal_strlit("a"); reveal_strlit("b");
        reveal_strlit("c"); reveal_strlit("d"); reveal_strlit("e"); reveal_strlit("f");
        assert(res@ =~= seq![hex_digit(d as nat)]);
    }
    res
}

/// Appends the escaped form of `s[i]` to `out`.
fn push_escaped(out: &mut String, s: &str, i: usize)
    requires
        i < s@.len(),
        s@.len() <= usize::MAX,
    ensures
        final(out)@ == old(out)@ + escape_char(s@[i as int]),
{
    let c = s.get_char(i);
    if c == '"' {
        out.append("\\\"");
        proof { reveal_strlit("\\\""); assert(escape_char(c) =~= "\\\""@); }
    } else if c == '\\' {
        out.append("\\\\");
        proof { reveal_strlit("\\\\"); assert(escape_char(c) =~= "\\\\"@); }
    } else if c == '\u{8}' {
        out.append("\\b");
        proof { reveal_strlit("\\b"); assert(escape_char(c) =~= "\\b"@); }
    } else if c == '\u{c}' {
        out.append("\\f");
        proof { reveal_strlit("\\f"); assert(escape_char(c) =~= "\\f"@); }
    } else if c == '\n' {
        out.append("\\n");
        proof { reveal_strlit("\\n"); assert(escape_char(c) =~= "\\n"@); }
    } else if c == '\r' {
        out.append("\\r");
        proof { reveal_strlit("\\r"); assert(escape_char(c) =~= "\\r"@); }
    } else if c == '\t' {
        out.append("\\t");
        proof { reveal_strlit("\\t"); assert(escape_char(c) =~= "\\t"@); }
    } else if (c as u32) < 32 {
        let v: u32 = c as u32;
        out.append("\\u00");
        out.append(hex_text(v / 16));
        out.append(hex_text(v % 16));
        proof {
            reveal_strlit("\\u00");
        }
        assert(escape_char(c) =~= "\\u00"@ + seq![hex_digit((v / 16) as nat)] + seq![hex_digit((v % 16) as nat)]);
    } else {
        out.append(s.substring_char(i, i + 1));
        assert(s@.subrange(i as int, i + 1) =~= seq![c]);
    }
}

/// The JSON string literal of `s`.
pub fn quote_text(s: &str) -> (res: String)
    ensures
        res@ == quoted(s@),
{
    let mut out = owned("\"");
    proof { reveal_strlit("\""); }
    let n = s.unicode_len();
    let mut i: usize = 0;
    while i < n
        invariant
            n == s@.len(),
            i <= n,
            out@ == seq!['"'] + escape_text(s@.subrange(0, i as int)),
        decreases n - i,
    {
        push_escaped(&mut out, s, i);
        proof {
            assert(s@.subrange(0, i + 1).drop_last() =~= s@.subrange(0, i as int));
            assert(s@.subrange(0, i + 1).last() == s@[i as int]);
        }
        i = i + 1;
    }
    out.append("\"");
    proof { reveal_strlit("\""); }
    assert(s@.subrange(0, n as int) =~= s@);
    out
}

/// The compact JSON text of a value.
pub fn json_text_of(v: &JsonValue) -> (res: String)
    ensures
        res@ == json_text(*v),
    decreases v,
{
    match v {
        JsonValue::Null => {
            proof { reveal_strlit("null"); }
            owned("null")
        },
        JsonValue::Bool(b) => {
            proof { reveal_strlit("true"); reveal_strlit("false"); }
            if *b { owned("true") } else { owned("false") }
        },
        JsonValue::Int(n) => i64_to_decimal(*n),
        JsonValue::Number(t) => t.clone(),
        JsonValue::Str(s) => quote_text(s.as_str()),
        JsonValue::Array(items) => {
            let mut out = owned("[");
            proof { reveal_strlit("["); }
            let mut i: usize = 0;
            while i < items.len()
                invariant
                    *v == JsonValue::Array(*items),
                    i <= items@.len(),
                    out@ == seq!['['] + items_text(items@.subrange(0, i as int)),
                decreases items@.len() - i,
            {
                proof {
                    assert((*v)->Array_0 == *items);
                    assert(decreases_to!(*v => (*v)->Array_0));
                    assert(decreases_to!(*items => items@));
                    assert(decreases_to!(items@ => items@[i as int]));
                    lemma_items_text_push(items@.subrange(0, i as int), items@[i as int]);
                    assert(items@.subrange(0, i as int).push(items@[i as int]) =~= items@.subrange(0, i + 1));
                }
                if i > 0 {
                    out.append(",");
                    proof { reveal_strlit(","); }
                }
                let t = json_text_of(&items[i]);
                out.append(t.as_str());
                i = i + 1;
            }
            out.append("]");
            proof {
                reveal_strlit("]");
                assert(items@.subrange(0, items@.len() as int) =~= items@);
            }
            out
        },
        JsonValue::Object(fields) => {
            let mut out = owned("{");
            proof { reveal_strlit("{"); }
            let mut i: usize = 0;
            while i < fields.len()
                invariant
                    *v == JsonValue::Object(*fields),
                    i <= fields@.len(),
                    out@ == seq!['{'] + fields_text(fields@.subrange(0, i as int)),
                decreases fields@.len() - i,
            {
                proof {
                    assert((*v)->Object_0 == *fields);
                    assert(decreases_to!(*v => (*v)->Object_0));
                    assert(decreases_to!(*fields => fields@));
                    assert(decreases_to!(fields@ => fields@[i as int]));
                    assert(decreases_to!(fields@[i as int] => fields@[i as int].1));
                    lemma_fields_text_push(fields@.subrange(0, i as int), fields@[i as int]);
                    assert(fields@.subrange(0, i as int).push(fields@[i as int]) =~= fields@.subrange(0, i + 1));
                }
                if i > 0 {
                    out.append(",");
                    proof { reveal_strlit(","); }
                }
                let k = quote_text(fields[i].0.as_str());
                out.append(k.as_str());
                out.append(":");
                proof { reveal_strlit(":"); }
                let t = json_text_of(&fields[i].1);
                out.append(t.as_str());
                i = i + 1;
            }
            out.append("}");
            proof {
                reveal_strlit("}");
                assert(fields@.subrange(0, fields@.len() as int) =~= fields@);
            }
            out
        },
    }
}

} // verus!
