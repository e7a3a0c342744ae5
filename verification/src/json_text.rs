//! Compact JSON text of a value: no whitespace, entries in order, strings
//! escaped as JSON requires (quote, backslash and control characters).
use vstd::prelude::*;
use crate::json::{Json, JsonV};
use crate::text::string_of;

verus! {

pub open spec fn hex_digit(n: u32) -> char {
    seq!['0', '1', '2', '3', '4', '5', '6', '7', '8', '9', 'a', 'b', 'c', 'd', 'e', 'f'][n as int]
}

/// The text that stands for one character inside a JSON string.
pub open spec fn escape_char(c: char) -> Seq<char> {
    if c == '"' {
        seq!['\\', '"']
    } else if c == '\\' {
        seq!['\\', '\\']
    } else if c == '\u{8}' {
        seq!['\\', 'b']
    } else if c == '\t' {
        seq!['\\', 't']
    } else if c == '\n' {
        seq!['\\', 'n']
    } else if c == '\u{c}' {
        seq!['\\', 'f']
    } else if c == '\r' {
        seq!['\\', 'r']
    } else if (c as u32) < 0x20 {
        seq!['\\', 'u', '0', '0', hex_digit((c as u32) / 16), hex_digit((c as u32) % 16)]
    } else {
        seq![c]
    }
}

pub open spec fn escape_all(s: Seq<char>) -> Seq<char>
    decreases s.len(),
{
    if s.len() == 0 {
        Seq::empty()
    } else {
        escape_all(s.drop_last()) + escape_char(s.last())
    }
}

pub open spec fn quoted(s: Seq<char>) -> Seq<char> {
    seq!['"'] + escape_all(s) + seq!['"']
}

/// The compact JSON text of a value.
pub open spec fn json_text(v: JsonV) -> Seq<char>
    decreases v, 1int,
{
    match v {
        JsonV::Null => seq!['n', 'u', 'l', 'l'],
        JsonV::Bool(b) => if b { seq!['t', 'r', 'u', 'e'] } else { seq!['f', 'a', 'l', 's', 'e'] },
        JsonV::Number(n) => n,
        JsonV::Str(s) => quoted(s),
        JsonV::Array(a) => seq!['['] + items_text(a) + seq![']'],
        JsonV::Object(es) => seq!['{'] + entries_text(es) + seq!['}'],
    }
}

/// The items of an array, separated by commas.
pub open spec fn items_text(a: Seq<JsonV>) -> Seq<char>
    decreases a, 0int,
{
    if a.len() == 0 {
        Seq::empty()
    } else if a.len() == 1 {
        json_text(a[0])
    } else {
        items_text(a.drop_last()) + seq![','] + json_text(a.last())
    }
}

/// The entries of an object as `"key":value`, separated by commas.
pub open spec fn entries_text(es: Seq<(Seq<char>, JsonV)>) -> Seq<char>
    decreases es, 0int,
{
    if es.len() == 0 {
        Seq::empty()
    } else if es.len() == 1 {
        quoted(es[0].0) + seq![':'] + json_text(es[0].1)
    } else {
        entries_text(es.drop_last()) + seq![','] + quoted(es.last().0) + seq![':'] + json_text(es.last().1)
    }
}

fn push_all(out: &mut Vec<char>, s: &str)
    ensures
        final(out)@ == old(out)@ + s@,
{
    let v = crate::text::chars_of(s);
    let mut i: usize = 0;
    while i < v.len()
        invariant
            i <= v.len(),
            out@ == old(out)@ + v@.take(i as int),
        decreases v.len() - i,
    {
        out.push(v[i]);
        i = i + 1;
        assert(v@.take(i as int) =~= v@.take((i - 1) as int).push(v@[i - 1]));
    }
    assert(v@.take(i as int) =~= v@);
}

fn hex_of(n: u32) -> (c: char)
    requires
        n < 16,
    ensures
        c == hex_digit(n),
{
    let digits = ['0', '1', '2', '3', '4', '5', '6', '7', '8', '9', 'a', 'b', 'c', 'd', 'e', 'f'];
    assert(digits@ =~= seq!['0', '1', '2', '3', '4', '5', '6', '7', '8', '9', 'a', 'b', 'c', 'd', 'e', 'f']);
    digits[n as usize]
}

fn push_escaped(out: &mut Vec<char>, c: char)
    ensures
        final(out)@ == old(out)@ + escape_char(c),
{
    let ghost start = out@;
    if c == '"' {
        out.push('\\');
        out.push('"');
    } else if c == '\\' {
        out.push('\\');
        out.push('\\');
    } else if c == '\u{8}' {
        out.push('\\');
        out.push('b');
    } else if c == '\t' {
        out.push('\\');
        out.push('t');
    } else if c == '\n' {
        out.push('\\');
        out.push('n');
    } else if c == '\u{c}' {
        out.push('\\');
        out.push('f');
    } else if c == '\r' {
        out.push('\\');
        out.push('r');
    } else if (c as u32) < 0x20 {
        let n = c as u32;
        out.push('\\');
        out.push('u');
        out.push('0');
        out.push('0');
        out.push(hex_of(n / 16));
        out.push(hex_of(n % 16));
    } else {
        out.push(c);
    }
    assert(out@ =~= start + escape_char(c));
}

fn push_quoted(out: &mut Vec<char>, s: &str)
    ensures
        final(out)@ == old(out)@ + quoted(s@),
{
    let v = crate::text::chars_of(s);
    let ghost start = out@;
    out.push('"');
    let mut i: usize = 0;
    while i < v.len()
        invariant
            i <= v.len(),
            v@ == s@,
            out@ == start + seq!['"'] + escape_all(v@.take(i as int)),
        decreases v.len() - i,
    {
        push_escaped(out, v[i]);
        i = i + 1;
        assert(v@.take(i as int).drop_last() =~= v@.take((i - 1) as int));
        assert(out@ =~= start + seq!['"'] + escape_all(v@.take(i as int)));
    }
    out.push('"');
    assert(v@.take(i as int) =~= v@);
    assert(out@ =~= start + quoted(s@));
}

fn write_items(v: &Vec<Json>, out: &mut Vec<char>)
    ensures
        final(out)@ == old(out)@ + items_text(Json::Array(*v)@->Array_0),
    decreases v, 0int,
{
    let ghost start = out@;
    let ghost a = Json::Array(*v)@->Array_0;
    let mut i: usize = 0;
    while i < v.len()
        invariant
            i <= v.len(),
            a == Json::Array(*v)@->Array_0,
            a.len() == v.len(),
            forall|j: int| 0 <= j < v.len() ==> a[j] == (#[trigger] v@[j])@,
            out@ == start + items_text(a.take(i as int)),
        decreases v.len() - i,
    {
        proof {
            assert(decreases_to!(*v => v@));
            assert(decreases_to!(v@ => v@[i as int]));
        }
        if i > 0 {
            out.push(',');
        }
        v[i].write_text(out);
        i = i + 1;
        proof {
            assert(a.take(i as int).drop_last() =~= a.take((i - 1) as int));
            assert(a.take(i as int).last() == v@[i - 1]@);
            if i == 1 {
                assert(a.take(0) =~= Seq::<JsonV>::empty());
            }
            assert(out@ =~= start + items_text(a.take(i as int)));
        }
    }
    assert(a.take(i as int) =~= a);
}

fn write_entries(v: &Vec<(String, Json)>, out: &mut Vec<char>)
    ensures
        final(out)@ == old(out)@ + entries_text(Json::Object(*v)@->Object_0),
    decreases v, 0int,
{
    let ghost start = out@;
    let ghost es = Json::Object(*v)@->Object_0;
    let mut i: usize = 0;
    while i < v.len()
        invariant
            i <= v.len(),
            es == Json::Object(*v)@->Object_0,
            es.len() == v.len(),
            forall|j: int| 0 <= j < v.len() ==> es[j] == ((#[trigger] v@[j]).0@, v@[j].1@),
            out@ == start + entries_text(es.take(i as int)),
        decreases v.len() - i,
    {
        proof {
            assert(decreases_to!(*v => v@));
            assert(decreases_to!(v@ => v@[i as int]));
            assert(decreases_to!(v@[i as int] => v@[i as int].1));
        }
        if i > 0 {
            out.push(',');
        }
        push_quoted(out, v[i].0.as_str());
        out.push(':');
        v[i].1.write_text(out);
        i = i + 1;
        proof {
            assert(es.take(i as int).drop_last() =~= es.take((i - 1) as int));
            assert(es.take(i as int).last() == es[i - 1]);
            if i == 1 {
                assert(es.take(0) =~= Seq::<(Seq<char>, JsonV)>::empty());
            }
            assert(out@ =~= start + entries_text(es.take(i as int)));
        }
    }
    assert(es.take(i as int) =~= es);
}

impl Json {
    /// Appends the compact JSON text of this value.
    pub fn write_text(&self, out: &mut Vec<char>)
        ensures
            final(out)@ == old(out)@ + json_text(self@),
        decreases self, 1int,
    {
        let ghost start = out@;
        match self {
            Json::Null => {
                out.push('n'); out.push('u'); out.push('l'); out.push('l');
                assert(out@ =~= start + json_text(self@));
            },
            Json::Bool(b) => {
                if *b {
                    out.push('t'); out.push('r'); out.push('u'); out.push('e');
                } else {
                    out.push('f'); out.push('a'); out.push('l'); out.push('s'); out.push('e');
                }
                assert(out@ =~= start + json_text(self@));
            },
            Json::Number(n) => {
                push_all(out, n.as_str());
            },
            Json::Str(s) => {
                push_quoted(out, s.as_str());
            },
            Json::Array(v) => {
                out.push('[');
                write_items(v, out);
                out.push(']');
                assert(out@ =~= start + json_text(self@));
            },
            Json::Object(v) => {
                out.push('{');
                write_entries(v, out);
                out.push('}');
                assert(out@ =~= start + json_text(self@));
            },
        }
    }

    /// The compact JSON text of this value.
    pub fn to_text(&self) -> (r: String)
        ensures
            r@ == json_text(self@),
    {
        let mut out: Vec<char> = Vec::new();
        self.write_text(&mut out);
        assert(out@ =~= json_text(self@));
        string_of(out.as_slice())
    }
}

} // verus!
