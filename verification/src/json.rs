//! The wire value model: every frame exchanged with the gateway is one JSON
//! document. The library owns this codec so that the envelope layer can be
//! given exact contracts: serialization is specified character by character,
//! and the parser is proved to invert it.

use vstd::prelude::*;

verus! {

/// Mathematical model of a JSON document. Object members keep their order and
/// may repeat; a number is kept as its literal text.
#[verifier::ext_equal]
pub enum JsonV {
    Null,
    Bool(bool),
    Num(Seq<char>),
    Str(Seq<char>),
    Arr(Seq<JsonV>),
    Obj(Seq<(Seq<char>, JsonV)>),
}

/// A JSON document as exchanged with the gateway.
pub enum Json {
    Null,
    Bool(bool),
    /// A number, kept as its literal text (the protocol itself only ever
    /// reads integers; other numbers pass through unchanged).
    Num(String),
    Str(String),
    Arr(Vec<Json>),
    Obj(Vec<(String, Json)>),
}

pub open spec fn json_view(j: Json) -> JsonV
    decreases j,
{
    match j {
        Json::Null => JsonV::Null,
        Json::Bool(b) => JsonV::Bool(b),
        Json::Num(t) => JsonV::Num(t@),
        Json::Str(t) => JsonV::Str(t@),
        Json::Arr(v) => JsonV::Arr(elems_view(v@)),
        Json::Obj(m) => JsonV::Obj(members_view(m@)),
    }
}

pub open spec fn elems_view(s: Seq<Json>) -> Seq<JsonV>
    decreases s,
{
    if s.len() == 0 {
        Seq::empty()
    } else {
        seq![json_view(s[0])] + elems_view(s.drop_first())
    }
}

pub open spec fn members_view(s: Seq<(String, Json)>) -> Seq<(Seq<char>, JsonV)>
    decreases s,
{
    if s.len() == 0 {
        Seq::empty()
    } else {
        seq![(s[0].0@, json_view(s[0].1))] + members_view(s.drop_first())
    }
}

impl View for Json {
    type V = JsonV;

    open spec fn view(&self) -> JsonV {
        json_view(*self)
    }
}

pub proof fn lemma_elems_view(s: Seq<Json>)
    ensures
        elems_view(s).len() == s.len(),
        forall|i: int| 0 <= i < s.len() ==> elems_view(s)[i] == json_view(#[trigger] s[i]),
    decreases s,
{
    if s.len() > 0 {
        lemma_elems_view(s.drop_first());
        assert forall|i: int| 0 <= i < s.len() implies elems_view(s)[i] == json_view(
            #[trigger] s[i],
        ) by {
            if i > 0 {
                assert(elems_view(s)[i] == elems_view(s.drop_first())[i - 1]);
                assert(s.drop_first()[i - 1] == s[i]);
            }
        }
    }
}

pub proof fn lemma_members_view(s: Seq<(String, Json)>)
    ensures
        members_view(s).len() == s.len(),
        forall|i: int|
            0 <= i < s.len() ==> members_view(s)[i] == ((#[trigger] s[i]).0@, json_view(s[i].1)),
    decreases s,
{
    if s.len() > 0 {
        lemma_members_view(s.drop_first());
        assert forall|i: int| 0 <= i < s.len() implies members_view(s)[i] == ((#[trigger] s[i]).0@,
        json_view(s[i].1)) by {
            if i > 0 {
                assert(members_view(s)[i] == members_view(s.drop_first())[i - 1]);
                assert(s.drop_first()[i - 1] == s[i]);
            }
        }
    }
}

// ---------------------------------------------------------------------------
// Well-formedness
// ---------------------------------------------------------------------------
pub open spec fn is_digit(c: char) -> bool {
    '0' <= c && c <= '9'
}

pub open spec fn is_num_char(c: char) -> bool {
    is_digit(c) || c == '-' || c == '+' || c == '.' || c == 'e' || c == 'E'
}

/// The number texts the serializer accepts: nonempty, built from number
/// characters, and starting with a digit or a minus sign followed by a digit.
pub open spec fn num_text_ok(t: Seq<char>) -> bool {
    &&& t.len() > 0
    &&& (forall|i: int| 0 <= i < t.len() ==> is_num_char(#[trigger] t[i]))
    &&& (is_digit(t[0]) || (t[0] == '-' && t.len() > 1 && is_digit(t[1])))
}

/// A document the serializer emits in canonical form (every number literal in
/// it is acceptable).
pub open spec fn json_wf(v: JsonV) -> bool
    decreases v,
{
    match v {
        JsonV::Null => true,
        JsonV::Bool(_) => true,
        JsonV::Num(t) => num_text_ok(t),
        JsonV::Str(_) => true,
        JsonV::Arr(items) => forall|i: int| 0 <= i < items.len() ==> json_wf(#[trigger] items[i]),
        JsonV::Obj(ms) => forall|i: int| 0 <= i < ms.len() ==> json_wf((#[trigger] ms[i]).1),
    }
}

// ---------------------------------------------------------------------------
// Serialization, specified character by character
// ---------------------------------------------------------------------------
pub open spec fn spec_hex_char(n: int) -> char {
    if n == 0 {
        '0'
    } else if n == 1 {
        '1'
    } else if n == 2 {
        '2'
    } else if n == 3 {
        '3'
    } else if n == 4 {
        '4'
    } else if n == 5 {
        '5'
    } else if n == 6 {
        '6'
    } else if n == 7 {
        '7'
    } else if n == 8 {
        '8'
    } else if n == 9 {
        '9'
    } else if n == 10 {
        'a'
    } else if n == 11 {
        'b'
    } else if n == 12 {
        'c'
    } else if n == 13 {
        'd'
    } else if n == 14 {
        'e'
    } else {
        'f'
    }
}

/// How one character of a string is written: quote and backslash get a
/// backslash escape, control characters a `\u00XX` escape, everything else
/// passes through.
pub open spec fn esc_char(c: char) -> Seq<char> {
    if c == '"' {
        seq!['\\', '"']
    } else if c == '\\' {
        seq!['\\', '\\']
    } else if (c as u32) < 0x20 {
        seq!['\\', 'u', '0', '0', spec_hex_char(c as u32 as int / 16), spec_hex_char(
            c as u32 as int % 16,
        )]
    } else {
        seq![c]
    }
}

pub open spec fn ser_str_body(s: Seq<char>) -> Seq<char>
    decreases s.len(),
{
    if s.len() == 0 {
        Seq::empty()
    } else {
        esc_char(s[0]) + ser_str_body(s.drop_first())
    }
}

pub open spec fn ser_string(s: Seq<char>) -> Seq<char> {
    seq!['"'] + ser_str_body(s) + seq!['"']
}

/// Canonical serialization: no whitespace, members in order.
pub open spec fn ser_json(v: JsonV) -> Seq<char>
    decreases v,
{
    match v {
        JsonV::Null => seq!['n', 'u', 'l', 'l'],
        JsonV::Bool(b) => if b {
            seq!['t', 'r', 'u', 'e']
        } else {
            seq!['f', 'a', 'l', 's', 'e']
        },
        JsonV::Num(t) => t,
        JsonV::Str(s) => ser_string(s),
        JsonV::Arr(items) => seq!['['] + ser_elems(items) + seq![']'],
        JsonV::Obj(ms) => seq!['{'] + ser_members(ms) + seq!['}'],
    }
}

pub open spec fn ser_elems(items: Seq<JsonV>) -> Seq<char>
    decreases items,
{
    if items.len() == 0 {
        Seq::empty()
    } else if items.len() == 1 {
        ser_json(items[0])
    } else {
        ser_json(items[0]) + seq![','] + ser_elems(items.drop_first())
    }
}

pub open spec fn ser_members(ms: Seq<(Seq<char>, JsonV)>) -> Seq<char>
    decreases ms,
{
    if ms.len() == 0 {
        Seq::empty()
    } else if ms.len() == 1 {
        ser_string(ms[0].0) + seq![':'] + ser_json(ms[0].1)
    } else {
        ser_string(ms[0].0) + seq![':'] + ser_json(ms[0].1) + seq![','] + ser_members(
            ms.drop_first(),
        )
    }
}

// ---------------------------------------------------------------------------
// Bridges between `String` and `Vec<char>`
// ---------------------------------------------------------------------------
/// Relies on `str::chars` together with `Iterator::collect`: collecting the
/// characters of a string slice yields exactly the characters of its view.
#[verifier::external_body]
pub fn chars_vec(s: &str) -> (r: Vec<char>)
    ensures
        r@ == s@,
{
    s.chars().collect()
}

/// Relies on `String`'s `FromIterator<char>` implementation: collecting a
/// sequence of characters yields the string with exactly those characters.
#[verifier::external_body]
pub fn string_from_chars(v: &Vec<char>) -> (r: String)
    ensures
        r@ == v@,
{
    v.iter().collect()
}

// ---------------------------------------------------------------------------
// Executable serializer
// ---------------------------------------------------------------------------
fn push_all(cs: &Vec<char>, out: &mut Vec<char>)
    ensures
        final(out)@ == old(out)@ + cs@,
{
    let mut i: usize = 0;
    while i < cs.len()
        invariant
            0 <= i <= cs.len(),
            out@ == old(out)@ + cs@.take(i as int),
        decreases cs.len() - i,
    {
        out.push(cs[i]);
        assert(cs@.take(i + 1 as int) =~= cs@.take(i as int).push(cs@[i as int]));
        i = i + 1;
    }
    assert(cs@.take(cs@.len() as int) =~= cs@);
}

fn hex_char(n: u32) -> (r: char)
    requires
        n < 16,
    ensures
        r == spec_hex_char(n as int),
{
    if n == 0 {
        '0'
    } else if n == 1 {
        '1'
    } else if n == 2 {
        '2'
    } else if n == 3 {
        '3'
    } else if n == 4 {
        '4'
    } else if n == 5 {
        '5'
    } else if n == 6 {
        '6'
    } else if n == 7 {
        '7'
    } else if n == 8 {
        '8'
    } else if n == 9 {
        '9'
    } else if n == 10 {
        'a'
    } else if n == 11 {
        'b'
    } else if n == 12 {
        'c'
    } else if n == 13 {
        'd'
    } else if n == 14 {
        'e'
    } else {
        'f'
    }
}

fn write_char_escaped(c: char, out: &mut Vec<char>)
    ensures
        final(out)@ == old(out)@ + esc_char(c),
{
    if c == '"' {
        out.push('\\');
        out.push('"');
    } else if c == '\\' {
        out.push('\\');
        out.push('\\');
    } else {
        let n = c as u32;
        if n < 0x20 {
            out.push('\\');
            out.push('u');
            out.push('0');
            out.push('0');
            out.push(hex_char(n / 16));
            out.push(hex_char(n % 16));
        } else {
            out.push(c);
        }
    }
}

fn write_str_body(cs: &Vec<char>, start: usize, out: &mut Vec<char>)
    requires
        start <= cs.len(),
    ensures
        final(out)@ == old(out)@ + ser_str_body(cs@.skip(start as int)),
    decreases cs.len() - start,
{
    if start < cs.len() {
        write_char_escaped(cs[start], out);
        write_str_body(cs, start + 1, out);
        assert(cs@.skip(start as int).drop_first() =~= cs@.skip(start + 1 as int));
        assert(cs@.skip(start as int)[0] == cs@[start as int]);
    } else {
        assert(cs@.skip(start as int) =~= Seq::<char>::empty());
    }
}

fn write_string(s: &String, out: &mut Vec<char>)
    ensures
        final(out)@ == old(out)@ + ser_string(s@),
{
    out.push('"');
    let cs = chars_vec(s.as_str());
    write_str_body(&cs, 0, out);
    assert(cs@.skip(0) =~= cs@);
    out.push('"');
    assert(out@ =~= old(out)@ + ser_string(s@));
}

/// Appends the canonical serialization of `j` to `out`.
pub fn write_json(j: &Json, out: &mut Vec<char>)
    ensures
        final(out)@ == old(out)@ + ser_json(j@),
    decreases j,
{
    match j {
        Json::Null => {
            out.push('n');
            out.push('u');
            out.push('l');
            out.push('l');
            assert(out@ =~= old(out)@ + ser_json(j@));
        },
        Json::Bool(b) => {
            if *b {
                out.push('t');
                out.push('r');
                out.push('u');
                out.push('e');
            } else {
                out.push('f');
                out.push('a');
                out.push('l');
                out.push('s');
                out.push('e');
            }
            assert(out@ =~= old(out)@ + ser_json(j@));
        },
        Json::Num(t) => {
            let cs = chars_vec(t.as_str());
            push_all(&cs, out);
        },
        Json::Str(t) => {
            write_string(t, out);
        },
        Json::Arr(v) => {
            out.push('[');
            proof {
                lemma_elems_view(v@);
                assert(v@.skip(0) =~= v@);
            }
            write_elems(v, 0, out);
            out.push(']');
            assert(elems_view(v@).skip(0) =~= elems_view(v@));
            assert(out@ =~= old(out)@ + ser_json(j@));
        },
        Json::Obj(m) => {
            out.push('{');
            proof {
                lemma_members_view(m@);
                assert(m@.skip(0) =~= m@);
            }
            write_members(m, 0, out);
            out.push('}');
            assert(members_view(m@).skip(0) =~= members_view(m@));
            assert(out@ =~= old(out)@ + ser_json(j@));
        },
    }
}

fn write_elems(v: &Vec<Json>, start: usize, out: &mut Vec<char>)
    requires
        start <= v.len(),
    ensures
        final(out)@ == old(out)@ + ser_elems(elems_view(v@).skip(start as int)),
    decreases v@.skip(start as int),
{
    proof {
        lemma_elems_view(v@);
    }
    if start < v.len() {
        proof {
            assert(elems_view(v@).skip(start as int)[0] == elems_view(v@)[start as int]);
            assert(v@.skip(start as int)[0] == v@[start as int]);
        }
        write_json(&v[start], out);
        if start + 1 < v.len() {
            out.push(',');
            proof {
                assert(elems_view(v@).skip(start as int).drop_first() =~= elems_view(v@).skip(
                    start + 1 as int,
                ));
                assert(v@.skip(start as int).drop_first() =~= v@.skip(start + 1 as int));
            }
            write_elems(v, start + 1, out);
            assert(out@ =~= old(out)@ + ser_elems(elems_view(v@).skip(start as int)));
        } else {
            assert(elems_view(v@).skip(start as int).len() == 1);
        }
    } else {
        assert(elems_view(v@).skip(start as int) =~= Seq::<JsonV>::empty());
    }
}

fn write_members(m: &Vec<(String, Json)>, start: usize, out: &mut Vec<char>)
    requires
        start <= m.len(),
    ensures
        final(out)@ == old(out)@ + ser_members(members_view(m@).skip(start as int)),
    decreases m@.skip(start as int),
{
    proof {
        lemma_members_view(m@);
    }
    if start < m.len() {
        proof {
            assert(members_view(m@).skip(start as int)[0] == members_view(m@)[start as int]);
            assert(m@.skip(start as int)[0] == m@[start as int]);
        }
        write_string(&m[start].0, out);
        out.push(':');
        write_json(&m[start].1, out);
        if start + 1 < m.len() {
            out.push(',');
            proof {
                assert(members_view(m@).skip(start as int).drop_first() =~= members_view(m@).skip(
                    start + 1 as int,
                ));
                assert(m@.skip(start as int).drop_first() =~= m@.skip(start + 1 as int));
            }
            write_members(m, start + 1, out);
            assert(out@ =~= old(out)@ + ser_members(members_view(m@).skip(start as int)));
        } else {
            assert(members_view(m@).skip(start as int).len() == 1);
            assert(out@ =~= old(out)@ + ser_members(members_view(m@).skip(start as int)));
        }
    } else {
        assert(members_view(m@).skip(start as int) =~= Seq::<(Seq<char>, JsonV)>::empty());
    }
}

/// Serializes a document to its canonical text.
pub fn to_text(j: &Json) -> (r: String)
    ensures
        r@ == ser_json(j@),
{
    let mut out: Vec<char> = Vec::new();
    write_json(j, &mut out);
    string_from_chars(&out)
}

// ---------------------------------------------------------------------------
// Parsing, specified as recursive descent over the character sequence.
// Each parser returns the parsed value and the index just past it.
// ---------------------------------------------------------------------------
pub open spec fn is_hex_char(c: char) -> bool {
    is_digit(c) || ('a' <= c && c <= 'f')
}

pub open spec fn hex_val(c: char) -> int {
    if is_digit(c) {
        c as u32 as int - '0' as u32 as int
    } else {
        c as u32 as int - 'a' as u32 as int + 10
    }
}

/// The index just past the maximal run of number characters starting at `i`.
pub open spec fn num_end(s: Seq<char>, i: int) -> int
    decreases s.len() - i, 0int,
{
    if 0 <= i && i < s.len() && is_num_char(s[i]) {
        num_end(s, i + 1)
    } else {
        i
    }
}

pub open spec fn parse_number(s: Seq<char>, i: int) -> Option<(JsonV, int)>
    decreases s.len() - i, 1int,
{
    let j = num_end(s, i);
    let t = s.subrange(i, j);
    if 0 <= i <= j <= s.len() && num_text_ok(t) {
        Some((JsonV::Num(t), j))
    } else {
        None
    }
}

/// Parses the body of a string literal, starting just past the opening quote
/// and ending just past the closing quote.
pub open spec fn parse_str_body(s: Seq<char>, i: int) -> Option<(Seq<char>, int)>
    decreases s.len() - i, 0int,
{
    if i < 0 || i >= s.len() {
        None
    } else if s[i] == '"' {
        Some((Seq::empty(), i + 1))
    } else if s[i] == '\\' {
        if i + 1 < s.len() {
            let e = s[i + 1];
            if e == '"' || e == '\\' {
                match parse_str_body(s, i + 2) {
                    Some((cs, j)) => Some((seq![e] + cs, j)),
                    None => None,
                }
            } else if e == 'u' && i + 5 < s.len() && s[i + 2] == '0' && s[i + 3] == '0'
                && is_hex_char(s[i + 4]) && is_hex_char(s[i + 5]) && hex_val(s[i + 4]) * 16
                + hex_val(s[i + 5]) < 0x20 {
                let c = ((hex_val(s[i + 4]) * 16 + hex_val(s[i + 5])) as u8) as char;
                match parse_str_body(s, i + 6) {
                    Some((cs, j)) => Some((seq![c] + cs, j)),
                    None => None,
                }
            } else {
                None
            }
        } else {
            None
        }
    } else {
        match parse_str_body(s, i + 1) {
            Some((cs, j)) => Some((seq![s[i]] + cs, j)),
            None => None,
        }
    }
}

pub open spec fn parse_value(s: Seq<char>, i: int) -> Option<(JsonV, int)>
    decreases s.len() - i, 2int,
{
    if i < 0 || i >= s.len() {
        None
    } else {
        let c = s[i];
        if c == 'n' {
            if i + 4 <= s.len() && s.subrange(i, i + 4) == seq!['n', 'u', 'l', 'l'] {
                Some((JsonV::Null, i + 4))
            } else {
                None
            }
        } else if c == 't' {
            if i + 4 <= s.len() && s.subrange(i, i + 4) == seq!['t', 'r', 'u', 'e'] {
                Some((JsonV::Bool(true), i + 4))
            } else {
                None
            }
        } else if c == 'f' {
            if i + 5 <= s.len() && s.subrange(i, i + 5) == seq!['f', 'a', 'l', 's', 'e'] {
                Some((JsonV::Bool(false), i + 5))
            } else {
                None
            }
        } else if c == '"' {
            match parse_str_body(s, i + 1) {
                Some((cs, j)) => Some((JsonV::Str(cs), j)),
                None => None,
            }
        } else if c == '[' {
            if i + 1 < s.len() && s[i + 1] == ']' {
                Some((JsonV::Arr(Seq::empty()), i + 2))
            } else {
                match parse_elems(s, i + 1) {
                    Some((items, j)) => if j < s.len() && s[j] == ']' {
                        Some((JsonV::Arr(items), j + 1))
                    } else {
                        None
                    },
                    None => None,
                }
            }
        } else if c == '{' {
            if i + 1 < s.len() && s[i + 1] == '}' {
                Some((JsonV::Obj(Seq::empty()), i + 2))
            } else {
                match parse_members(s, i + 1) {
                    Some((ms, j)) => if j < s.len() && s[j] == '}' {
                        Some((JsonV::Obj(ms), j + 1))
                    } else {
                        None
                    },
                    None => None,
                }
            }
        } else if is_digit(c) || c == '-' {
            parse_number(s, i)
        } else {
            None
        }
    }
}

/// Parses one or more comma-separated array elements, stopping before the
/// closing bracket.
pub open spec fn parse_elems(s: Seq<char>, i: int) -> Option<(Seq<JsonV>, int)>
    decreases s.len() - i, 3int,
{
    match parse_value(s, i) {
        Some((v, j)) => if j < i {
            None
        } else if j < s.len() && s[j] == ',' {
            match parse_elems(s, j + 1) {
                Some((items, j2)) => Some((seq![v] + items, j2)),
                None => None,
            }
        } else {
            Some((seq![v], j))
        },
        None => None,
    }
}

/// Parses one or more comma-separated object members, stopping before the
/// closing brace.
pub open spec fn parse_members(s: Seq<char>, i: int) -> Option<(Seq<(Seq<char>, JsonV)>, int)>
    decreases s.len() - i, 3int,
{
    if 0 <= i && i < s.len() && s[i] == '"' {
        match parse_str_body(s, i + 1) {
            Some((k, j)) => if j < i {
                None
            } else if j < s.len() && s[j] == ':' {
                match parse_value(s, j + 1) {
                    Some((v, j2)) => if j2 < i {
                        None
                    } else if j2 < s.len() && s[j2] == ',' {
                        match parse_members(s, j2 + 1) {
                            Some((ms, j3)) => Some((seq![(k, v)] + ms, j3)),
                            None => None,
                        }
                    } else {
                        Some((seq![(k, v)], j2))
                    },
                    None => None,
                }
            } else {
                None
            },
            None => None,
        }
    } else {
        None
    }
}

/// A whole document: one value covering the entire text.
pub open spec fn parse_json(s: Seq<char>) -> Option<JsonV> {
    match parse_value(s, 0) {
        Some((v, j)) => if j == s.len() {
            Some(v)
        } else {
            None
        },
        None => None,
    }
}

// ---------------------------------------------------------------------------
// Executable parser, proved equal to the specification above
// ---------------------------------------------------------------------------
fn is_num_char_e(c: char) -> (r: bool)
    ensures
        r == is_num_char(c),
{
    ('0' <= c && c <= '9') || c == '-' || c == '+' || c == '.' || c == 'e' || c == 'E'
}

fn is_digit_e(c: char) -> (r: bool)
    ensures
        r == is_digit(c),
{
    '0' <= c && c <= '9'
}

fn p_number(s: &Vec<char>, i: usize) -> (r: Option<(Json, usize)>)
    requires
        i <= s@.len(),
    ensures
        match r {
            Some(p) => parse_number(s@, i as int) == Some((p.0@, p.1 as int)) && i <= p.1 <= s@.len(),
            None => parse_number(s@, i as int) is None,
        },
{
    let mut k: usize = i;
    while k < s.len() && is_num_char_e(s[k])
        invariant
            i <= k <= s@.len(),
            num_end(s@, i as int) == num_end(s@, k as int),
            forall|m: int| i <= m < k ==> is_num_char(#[trigger] s@[m]),
        decreases s@.len() - k,
    {
        proof {
            assert(num_end(s@, k as int) == num_end(s@, k + 1 as int));
        }
        k = k + 1;
    }
    proof {
        assert(num_end(s@, k as int) == k as int);
        assert(num_end(s@, i as int) == k as int);
    }
    let ghost t = s@.subrange(i as int, k as int);
    let ok = if i == k {
        false
    } else if is_digit_e(s[i]) {
        true
    } else if s[i] == '-' && i + 1 < k {
        is_digit_e(s[i + 1])
    } else {
        false
    };
    if ok {
        let mut cs: Vec<char> = Vec::new();
        let mut m: usize = i;
        while m < k
            invariant
                i <= m <= k <= s@.len(),
                cs@ == s@.subrange(i as int, m as int),
            decreases k - m,
        {
            cs.push(s[m]);
            proof {
                assert(s@.subrange(i as int, m + 1 as int) =~= s@.subrange(i as int, m as int).push(
                    s@[m as int],
                ));
            }
            m = m + 1;
        }
        proof {
            assert(num_text_ok(t));
        }
        Some((Json::Num(string_from_chars(&cs)), k))
    } else {
        proof {
            assert(!num_text_ok(t));
        }
        None
    }
}

fn hex_val_e(c: char) -> (r: u32)
    requires
        is_hex_char(c),
    ensures
        r == hex_val(c),
        r < 16,
{
    if '0' <= c && c <= '9' {
        c as u32 - '0' as u32
    } else {
        c as u32 - 'a' as u32 + 10
    }
}

fn p_str_body(s: &Vec<char>, i: usize) -> (r: Option<(Vec<char>, usize)>)
    requires
        i <= s@.len(),
    ensures
        match r {
            Some(p) => parse_str_body(s@, i as int) == Some((p.0@, p.1 as int)) && i < p.1
                <= s@.len(),
            None => parse_str_body(s@, i as int) is None,
        },
    decreases s@.len() - i,
{
    if i >= s.len() {
        return None;
    }
    let c = s[i];
    if c == '"' {
        let cs: Vec<char> = Vec::new();
        Some((cs, i + 1))
    } else if c == '\\' {
        if s.len() - i >= 2 {
            let e = s[i + 1];
            if e == '"' || e == '\\' {
                match p_str_body(s, i + 2) {
                    Some((mut cs, j)) => {
                        cs.insert(0, e);
                        Some((cs, j))
                    },
                    None => None,
                }
            } else if e == 'u' && s.len() - i >= 6 && s[i + 2] == '0' && s[i + 3] == '0' && (
            is_digit_e(s[i + 4]) || ('a' <= s[i + 4] && s[i + 4] <= 'f')) && (is_digit_e(s[i + 5])
                || ('a' <= s[i + 5] && s[i + 5] <= 'f')) && hex_val_e(s[i + 4]) * 16 + hex_val_e(
                s[i + 5],
            ) < 0x20 {
                let v = hex_val_e(s[i + 4]) * 16 + hex_val_e(s[i + 5]);
                let dc = (v as u8) as char;
                match p_str_body(s, i + 6) {
                    Some((mut cs, j)) => {
                        cs.insert(0, dc);
                        Some((cs, j))
                    },
                    None => None,
                }
            } else {
                None
            }
        } else {
            None
        }
    } else {
        match p_str_body(s, i + 1) {
            Some((mut cs, j)) => {
                cs.insert(0, c);
                Some((cs, j))
            },
            None => None,
        }
    }
}

fn p_value(s: &Vec<char>, i: usize) -> (r: Option<(Json, usize)>)
    requires
        i <= s@.len(),
    ensures
        match r {
            Some(p) => parse_value(s@, i as int) == Some((p.0@, p.1 as int)) && i < p.1 <= s@.len(),
            None => parse_value(s@, i as int) is None,
        },
    decreases s@.len() - i, 2int,
{
    if i >= s.len() {
        return None;
    }
    let c = s[i];
    if c == 'n' {
        if s.len() - i >= 4 && s[i + 1] == 'u' && s[i + 2] == 'l' && s[i + 3] == 'l' {
            proof {
                assert(s@.subrange(i as int, i + 4 as int) =~= seq!['n', 'u', 'l', 'l']);
            }
            Some((Json::Null, i + 4))
        } else {
            proof {
                if i + 4 <= s@.len() && s@.subrange(i as int, i + 4 as int) == seq![
                    'n',
                    'u',
                    'l',
                    'l',
                ] {
                    assert(s@[i + 1] == s@.subrange(i as int, i + 4 as int)[1]);
                    assert(s@[i + 2] == s@.subrange(i as int, i + 4 as int)[2]);
                    assert(s@[i + 3] == s@.subrange(i as int, i + 4 as int)[3]);
                }
            }
            None
        }
    } else if c == 't' {
        if s.len() - i >= 4 && s[i + 1] == 'r' && s[i + 2] == 'u' && s[i + 3] == 'e' {
            proof {
                assert(s@.subrange(i as int, i + 4 as int) =~= seq!['t', 'r', 'u', 'e']);
            }
            Some((Json::Bool(true), i + 4))
        } else {
            proof {
                if i + 4 <= s@.len() && s@.subrange(i as int, i + 4 as int) == seq![
                    't',
                    'r',
                    'u',
                    'e',
                ] {
                    assert(s@[i + 1] == s@.subrange(i as int, i + 4 as int)[1]);
                    assert(s@[i + 2] == s@.subrange(i as int, i + 4 as int)[2]);
                    assert(s@[i + 3] == s@.subrange(i as int, i + 4 as int)[3]);
                }
            }
            None
        }
    } else if c == 'f' {
        if s.len() - i >= 5 && s[i + 1] == 'a' && s[i + 2] == 'l' && s[i + 3] == 's' && s[i + 4]
            == 'e' {
            proof {
                assert(s@.subrange(i as int, i + 5 as int) =~= seq!['f', 'a', 'l', 's', 'e']);
            }
            Some((Json::Bool(false), i + 5))
        } else {
            proof {
                if i + 5 <= s@.len() && s@.subrange(i as int, i + 5 as int) == seq![
                    'f',
                    'a',
                    'l',
                    's',
                    'e',
                ] {
                    assert(s@[i + 1] == s@.subrange(i as int, i + 5 as int)[1]);
                    assert(s@[i + 2] == s@.subrange(i as int, i + 5 as int)[2]);
                    assert(s@[i + 3] == s@.subrange(i as int, i + 5 as int)[3]);
                    assert(s@[i + 4] == s@.subrange(i as int, i + 5 as int)[4]);
                }
            }
            None
        }
    } else if c == '"' {
        match p_str_body(s, i + 1) {
            Some((cs, j)) => Some((Json::Str(string_from_chars(&cs)), j)),
            None => None,
        }
    } else if c == '[' {
        if s.len() - i >= 2 && s[i + 1] == ']' {
            let items: Vec<Json> = Vec::new();
            proof {
                assert(elems_view(Seq::<Json>::empty()) =~= Seq::<JsonV>::empty());
            }
            Some((Json::Arr(items), i + 2))
        } else {
            match p_elems(s, i + 1) {
                Some((items, j)) => {
                    if j < s.len() && s[j] == ']' {
                        Some((Json::Arr(items), j + 1))
                    } else {
                        None
                    }
                },
                None => None,
            }
        }
    } else if c == '{' {
        if s.len() - i >= 2 && s[i + 1] == '}' {
            let ms: Vec<(String, Json)> = Vec::new();
            proof {
                assert(members_view(Seq::<(String, Json)>::empty()) =~= Seq::<
                    (Seq<char>, JsonV),
                >::empty());
            }
            Some((Json::Obj(ms), i + 2))
        } else {
            match p_members(s, i + 1) {
                Some((ms, j)) => {
                    if j < s.len() && s[j] == '}' {
                        Some((Json::Obj(ms), j + 1))
                    } else {
                        None
                    }
                },
                None => None,
            }
        }
    } else if is_digit_e(c) || c == '-' {
        p_number(s, i)
    } else {
        None
    }
}

fn p_elems(s: &Vec<char>, i: usize) -> (r: Option<(Vec<Json>, usize)>)
    requires
        i <= s@.len(),
    ensures
        match r {
            Some(p) => parse_elems(s@, i as int) == Some((elems_view(p.0@), p.1 as int)) && i < p.1
                <= s@.len(),
            None => parse_elems(s@, i as int) is None,
        },
    decreases s@.len() - i, 3int,
{
    match p_value(s, i) {
        Some((v, j)) => {
            if j < s.len() && s[j] == ',' {
                match p_elems(s, j + 1) {
                    Some((mut items, j2)) => {
                        let ghost items0 = items@;
                        items.insert(0, v);
                        proof {
                            assert(items@.drop_first() =~= items0);
                            assert(items@[0] == v);
                        }
                        Some((items, j2))
                    },
                    None => None,
                }
            } else {
                let mut items: Vec<Json> = Vec::new();
                items.push(v);
                proof {
                    assert(items@.drop_first() =~= Seq::<Json>::empty());
                    assert(elems_view(items@.drop_first()) =~= Seq::<JsonV>::empty());
                    assert(elems_view(items@) =~= seq![json_view(items@[0])]);
                }
                Some((items, j))
            }
        },
        None => None,
    }
}

fn p_members(s: &Vec<char>, i: usize) -> (r: Option<(Vec<(String, Json)>, usize)>)
    requires
        i <= s@.len(),
    ensures
        match r {
            Some(p) => parse_members(s@, i as int) == Some((members_view(p.0@), p.1 as int)) && i
                < p.1 <= s@.len(),
            None => parse_members(s@, i as int) is None,
        },
    decreases s@.len() - i, 3int,
{
    if i < s.len() && s[i] == '"' {
        match p_str_body(s, i + 1) {
            Some((kcs, j)) => {
                let key = string_from_chars(&kcs);
                if j < s.len() && s[j] == ':' {
                    match p_value(s, j + 1) {
                        Some((v, j2)) => {
                            if j2 < s.len() && s[j2] == ',' {
                                match p_members(s, j2 + 1) {
                                    Some((mut ms, j3)) => {
                                        let ghost ms0 = ms@;
                                        ms.insert(0, (key, v));
                                        proof {
                                            assert(ms@.drop_first() =~= ms0);
                                            assert(ms@[0].0 == key && ms@[0].1 == v);
                                        }
                                        Some((ms, j3))
                                    },
                                    None => None,
                                }
                            } else {
                                let mut ms: Vec<(String, Json)> = Vec::new();
                                ms.push((key, v));
                                proof {
                                    assert(ms@.drop_first() =~= Seq::<(String, Json)>::empty());
                                    assert(members_view(ms@.drop_first()) =~= Seq::<
                                        (Seq<char>, JsonV),
                                    >::empty());
                                    assert(members_view(ms@) =~= seq![
                                        (ms@[0].0@, json_view(ms@[0].1)),
                                    ]);
                                }
                                Some((ms, j2))
                            }
                        },
                        None => None,
                    }
                } else {
                    None
                }
            },
            None => None,
        }
    } else {
        None
    }
}

// ---------------------------------------------------------------------------
// The parser inverts the serializer
// ---------------------------------------------------------------------------
/// What may follow a serialized value inside a document: the end of the text
/// or a structural delimiter.
pub open spec fn val_end_ok(s: Seq<char>, j: int) -> bool {
    j == s.len() || s[j] == ',' || s[j] == ']' || s[j] == '}'
}

proof fn lemma_split(s: Seq<char>, i: int, a: Seq<char>, b: Seq<char>)
    requires
        0 <= i,
        i + a.len() + b.len() <= s.len(),
        s.subrange(i, i + a.len() + b.len()) == a + b,
    ensures
        s.subrange(i, i + a.len()) == a,
        s.subrange(i + a.len(), i + a.len() + b.len()) == b,
        forall|k: int| 0 <= k < a.len() ==> s[i + k] == a[k],
        forall|k: int| 0 <= k < b.len() ==> s[i + a.len() + k] == b[k],
        a.len() > 0 ==> s[i] == a[0],
        b.len() > 0 ==> s[i + a.len()] == b[0],
{
    assert forall|k: int| 0 <= k < a.len() implies s[i + k] == a[k] by {
        assert(s.subrange(i, i + a.len() + b.len())[k] == s[i + k]);
        assert((a + b)[k] == a[k]);
    }
    assert forall|k: int| 0 <= k < b.len() implies s[i + a.len() + k] == b[k] by {
        assert(s.subrange(i, i + a.len() + b.len())[a.len() + k] == s[i + a.len() + k]);
        assert((a + b)[a.len() + k] == b[k]);
    }
    assert(s.subrange(i, i + a.len()) =~= a);
    assert(s.subrange(i + a.len(), i + a.len() + b.len()) =~= b);
    if a.len() > 0 {
        assert(s[i + 0] == a[0]);
    }
    if b.len() > 0 {
        assert(s[i + a.len() + 0] == b[0]);
    }
}

proof fn lemma_num_end(s: Seq<char>, i: int, j: int)
    requires
        0 <= i <= j <= s.len(),
        forall|k: int| i <= k < j ==> is_num_char(#[trigger] s[k]),
        j == s.len() || !is_num_char(s[j]),
    ensures
        num_end(s, i) == j,
    decreases j - i,
{
    if i < j {
        lemma_num_end(s, i + 1, j);
    }
}

proof fn lemma_hex_val(n: int)
    requires
        0 <= n < 16,
    ensures
        is_hex_char(spec_hex_char(n)),
        hex_val(spec_hex_char(n)) == n,
{
}

proof fn lemma_ser_first(v: JsonV)
    requires
        json_wf(v),
    ensures
        ser_json(v).len() > 0,
        ser_json(v)[0] != ']' && ser_json(v)[0] != '}' && ser_json(v)[0] != ',',
{
    match v {
        JsonV::Num(t) => {
            assert(is_digit(t[0]) || t[0] == '-');
        },
        JsonV::Str(s0) => {
            assert(ser_json(v)[0] == '"');
        },
        _ => {},
    }
}

proof fn lemma_parse_ser_str_body(cs: Seq<char>, s: Seq<char>, i: int)
    requires
        0 <= i,
        i + ser_str_body(cs).len() + 1 <= s.len(),
        s.subrange(i, i + ser_str_body(cs).len()) == ser_str_body(cs),
        s[i + ser_str_body(cs).len()] == '"',
    ensures
        parse_str_body(s, i) == Some((cs, i + ser_str_body(cs).len() + 1)),
    decreases cs.len(),
{
    if cs.len() == 0 {
        assert(ser_str_body(cs).len() == 0);
        assert(s[i] == '"');
    } else {
        let c = cs[0];
        let rest = cs.drop_first();
        let e = esc_char(c);
        let rb = ser_str_body(rest);
        assert(ser_str_body(cs) == e + rb);
        assert(s.subrange(i, i + e.len() + rb.len()) == e + rb);
        lemma_split(s, i, e, rb);
        assert(s[i + e.len() + rb.len()] == '"');
        lemma_parse_ser_str_body(rest, s, i + e.len());
        if c == '"' {
            assert(s[i] == '\\' && s[i + 1] == '"');
            assert(seq![s[i + 1]] + rest =~= cs);
        } else if c == '\\' {
            assert(s[i] == '\\' && s[i + 1] == '\\');
            assert(seq![s[i + 1]] + rest =~= cs);
        } else if (c as u32) < 0x20 {
            let n = c as u32 as int;
            assert(s[i] == '\\' && s[i + 1] == 'u' && s[i + 2] == '0' && s[i + 3] == '0');
            assert(s[i + 4] == spec_hex_char(n / 16) && s[i + 5] == spec_hex_char(n % 16));
            lemma_hex_val(n / 16);
            lemma_hex_val(n % 16);
            assert(hex_val(s[i + 4]) * 16 + hex_val(s[i + 5]) == n);
            let u: u32 = c as u32;
            vstd::utf8::char_u32_cast(c, u);
            assert((u as char) == c);
            assert(((n as u8) as char) == c);
            assert(seq![((n as u8) as char)] + rest =~= cs);
        } else {
            assert(s[i] == c);
            assert(c != '"' && c != '\\');
            assert(seq![s[i]] + rest =~= cs);
        }
    }
}

proof fn lemma_parse_ser_value(v: JsonV, s: Seq<char>, i: int)
    requires
        json_wf(v),
        0 <= i,
        i + ser_json(v).len() <= s.len(),
        s.subrange(i, i + ser_json(v).len()) == ser_json(v),
        val_end_ok(s, i + ser_json(v).len()),
    ensures
        parse_value(s, i) == Some((v, i + ser_json(v).len())),
    decreases v, 0int,
{
    let l = ser_json(v).len() as int;
    assert forall|k: int| 0 <= k < l implies s[i + k] == ser_json(v)[k] by {
        assert(s.subrange(i, i + l)[k] == s[i + k]);
    }
    assert(s[i + 0] == ser_json(v)[0]);
    match v {
        JsonV::Null => {
            assert(s.subrange(i, i + 4) =~= seq!['n', 'u', 'l', 'l']);
            assert(parse_value(s, i) =~= Some((v, i + ser_json(v).len())));
        },
        JsonV::Bool(b) => {
            if b {
                assert(s.subrange(i, i + 4) =~= seq!['t', 'r', 'u', 'e']);
            } else {
                assert(s.subrange(i, i + 5) =~= seq!['f', 'a', 'l', 's', 'e']);
            }
            assert(parse_value(s, i) =~= Some((v, i + ser_json(v).len())));
        },
        JsonV::Num(t) => {
            assert forall|m: int| i <= m < i + t.len() implies is_num_char(#[trigger] s[m]) by {
                assert(s[i + (m - i)] == ser_json(v)[m - i]);
                assert(s[m] == t[m - i]);
            }
            assert(val_end_ok(s, i + t.len()));
            assert(i + t.len() == s.len() || !is_num_char(s[i + t.len()]));
            lemma_num_end(s, i, i + t.len());
            assert(s.subrange(i, i + t.len()) =~= t);
            assert(is_digit(s[i]) || s[i] == '-');
            assert(s[i] != 'n' && s[i] != 't' && s[i] != 'f' && s[i] != '"' && s[i] != '['
                && s[i] != '{');
            assert(parse_value(s, i) =~= Some((v, i + ser_json(v).len())));
        },
        JsonV::Str(s0) => {
            let q = seq!['"'];
            let body = ser_str_body(s0);
            assert(ser_json(v) == q + body + q);
            assert(q + (body + q) =~= ser_json(v));
            assert(s.subrange(i, i + q.len() + (body + q).len()) == q + (body + q));
            lemma_split(s, i, q, body + q);
            lemma_split(s, i + 1, body, q);
            assert(s[i] == '"');
            assert(s[i + 1 + body.len()] == '"');
            lemma_parse_ser_str_body(s0, s, i + 1);
            assert(parse_value(s, i) =~= Some((v, i + ser_json(v).len())));
        },
        JsonV::Arr(items) => {
            let e = ser_elems(items);
            assert(ser_json(v) == seq!['['] + e + seq![']']);
            assert(seq!['['] + (e + seq![']']) =~= ser_json(v));
            assert(s.subrange(i, i + 1 + (e + seq![']']).len()) == seq!['['] + (e + seq![']']));
            lemma_split(s, i, seq!['['], e + seq![']']);
            lemma_split(s, i + 1, e, seq![']']);
            assert(s[i] == '[');
            assert(s[i + 1 + e.len()] == ']');
            if items.len() == 0 {
                assert(e.len() == 0);
                assert(s[i + 1] == ']');
                assert(items =~= Seq::<JsonV>::empty());
                assert(v == JsonV::Arr(Seq::<JsonV>::empty()));
            } else {
                assert(json_wf(items[0]));
                lemma_ser_first(items[0]);
                if items.len() == 1 {
                    assert(e == ser_json(items[0]));
                } else {
                    assert(e == ser_json(items[0]) + seq![','] + ser_elems(items.drop_first()));
                    assert(e[0] == (ser_json(items[0]) + seq![','] + ser_elems(
                        items.drop_first(),
                    ))[0]);
                }
                assert(e[0] == ser_json(items[0])[0]);
                assert(s[i + 1] == e[0]);
                assert(s[i + 1] != ']');
                lemma_parse_ser_elems(items, s, i + 1);
            }
            assert(parse_value(s, i) =~= Some((v, i + ser_json(v).len())));
        },
        JsonV::Obj(ms) => {
            let e = ser_members(ms);
            assert(ser_json(v) == seq!['{'] + e + seq!['}']);
            assert(seq!['{'] + (e + seq!['}']) =~= ser_json(v));
            assert(s.subrange(i, i + 1 + (e + seq!['}']).len()) == seq!['{'] + (e + seq!['}']));
            lemma_split(s, i, seq!['{'], e + seq!['}']);
            lemma_split(s, i + 1, e, seq!['}']);
            assert(s[i] == '{');
            assert(s[i + 1 + e.len()] == '}');
            if ms.len() == 0 {
                assert(s[i + 1] == '}');
                assert(ms =~= Seq::<(Seq<char>, JsonV)>::empty());
                assert(v == JsonV::Obj(Seq::<(Seq<char>, JsonV)>::empty()));
            } else {
                if ms.len() == 1 {
                    assert(e == ser_string(ms[0].0) + seq![':'] + ser_json(ms[0].1));
                } else {
                    assert(e == ser_string(ms[0].0) + seq![':'] + ser_json(ms[0].1) + seq![',']
                        + ser_members(ms.drop_first()));
                }
                assert(e[0] == '"');
                assert(s[i + 1] == '"');
                assert(s[i + 1] != '}');
                lemma_parse_ser_members(ms, s, i + 1);
            }
            assert(parse_value(s, i) =~= Some((v, i + ser_json(v).len())));
        },
    }
}

proof fn lemma_parse_ser_elems(items: Seq<JsonV>, s: Seq<char>, i: int)
    requires
        items.len() > 0,
        forall|k: int| 0 <= k < items.len() ==> json_wf(#[trigger] items[k]),
        0 <= i,
        i + ser_elems(items).len() < s.len(),
        s.subrange(i, i + ser_elems(items).len()) == ser_elems(items),
        s[i + ser_elems(items).len()] == ']',
    ensures
        parse_elems(s, i) == Some((items, i + ser_elems(items).len())),
    decreases items, 1int,
{
    let v0 = items[0];
    let sv = ser_json(v0);
    let l0 = sv.len() as int;
    if items.len() == 1 {
        assert(ser_elems(items) == sv);
        lemma_parse_ser_value(v0, s, i);
        assert(s[i + l0] == ']');
        assert(seq![v0] =~= items);
    } else {
        let rest = items.drop_first();
        let se = ser_elems(rest);
        assert(ser_elems(items) == sv + seq![','] + se);
        assert(sv + (seq![','] + se) =~= ser_elems(items));
        assert(s.subrange(i, i + sv.len() + (seq![','] + se).len()) == sv + (seq![','] + se));
        lemma_split(s, i, sv, seq![','] + se);
        lemma_split(s, i + l0, seq![','], se);
        assert(s[i + l0] == ',');
        lemma_parse_ser_value(v0, s, i);
        assert(forall|k: int| 0 <= k < rest.len() ==> json_wf(#[trigger] rest[k]));
        lemma_parse_ser_elems(rest, s, i + l0 + 1);
        assert(seq![v0] + rest =~= items);
    }
}

proof fn lemma_parse_ser_members(ms: Seq<(Seq<char>, JsonV)>, s: Seq<char>, i: int)
    requires
        ms.len() > 0,
        forall|k: int| 0 <= k < ms.len() ==> json_wf((#[trigger] ms[k]).1),
        0 <= i,
        i + ser_members(ms).len() < s.len(),
        s.subrange(i, i + ser_members(ms).len()) == ser_members(ms),
        s[i + ser_members(ms).len()] == '}',
    ensures
        parse_members(s, i) == Some((ms, i + ser_members(ms).len())),
    decreases ms, 1int,
{
    let k0 = ms[0].0;
    let v0 = ms[0].1;
    let q = seq!['"'];
    let kb = ser_str_body(k0);
    let ks = ser_string(k0);
    let vs = ser_json(v0);
    assert(ks == q + kb + q);
    let jk = i + ks.len() as int;
    let jv = jk + 1 + vs.len() as int;
    if ms.len() == 1 {
        assert(ser_members(ms) == ks + seq![':'] + vs);
        assert(ks + (seq![':'] + vs) =~= ser_members(ms));
        assert(s.subrange(i, i + ks.len() + (seq![':'] + vs).len()) == ks + (seq![':'] + vs));
        lemma_split(s, i, ks, seq![':'] + vs);
        lemma_split(s, jk, seq![':'], vs);
    } else {
        let rest = ms.drop_first();
        let rm = ser_members(rest);
        assert(ser_members(ms) == ks + seq![':'] + vs + seq![','] + rm);
        assert(ks + (seq![':'] + (vs + (seq![','] + rm))) =~= ser_members(ms));
        assert(s.subrange(i, i + ks.len() + (seq![':'] + (vs + (seq![','] + rm))).len()) == ks + (
        seq![':'] + (vs + (seq![','] + rm))));
        lemma_split(s, i, ks, seq![':'] + (vs + (seq![','] + rm)));
        lemma_split(s, jk, seq![':'], vs + (seq![','] + rm));
        lemma_split(s, jk + 1, vs, seq![','] + rm);
        lemma_split(s, jv, seq![','], rm);
    }
    // the key string
    assert(q + (kb + q) =~= ks);
    assert(s.subrange(i, i + q.len() + (kb + q).len()) == q + (kb + q));
    lemma_split(s, i, q, kb + q);
    lemma_split(s, i + 1, kb, q);
    assert(s[i] == '"');
    assert(s[i + 1 + kb.len()] == '"');
    lemma_parse_ser_str_body(k0, s, i + 1);
    assert(i + 1 + kb.len() + 1 == jk);
    assert(s[jk] == ':');
    lemma_parse_ser_value(v0, s, jk + 1);
    if ms.len() == 1 {
        assert(jv == i + ser_members(ms).len());
        assert(s[jv] == '}');
        assert(ms[0] == (k0, v0));
        assert(seq![(k0, v0)] =~= ms);
    } else {
        let rest = ms.drop_first();
        assert(s[jv] == ',');
        lemma_parse_ser_members(rest, s, jv + 1);
        assert(ms[0] == (k0, v0));
        assert(seq![(k0, v0)] + rest =~= ms);
    }
}

/// The parser inverts the serializer: parsing the canonical text of a
/// well-formed document yields exactly that document.
pub proof fn lemma_json_round_trip(v: JsonV)
    requires
        json_wf(v),
    ensures
        parse_json(ser_json(v)) == Some(v),
{
    let s = ser_json(v);
    assert(s.subrange(0, s.len() as int) =~= s);
    lemma_parse_ser_value(v, s, 0);
}


// ---------------------------------------------------------------------------
// Object field lookup
// ---------------------------------------------------------------------------
/// First value bound to `key` among the members, in member order.
pub open spec fn spec_obj_get(ms: Seq<(Seq<char>, JsonV)>, key: Seq<char>) -> Option<JsonV>
    decreases ms.len(),
{
    if ms.len() == 0 {
        None
    } else if ms[0].0 == key {
        Some(ms[0].1)
    } else {
        spec_obj_get(ms.drop_first(), key)
    }
}

/// Field lookup on a document: a value only when the document is an object
/// holding the key.
pub open spec fn spec_get(v: JsonV, key: Seq<char>) -> Option<JsonV> {
    match v {
        JsonV::Obj(ms) => spec_obj_get(ms, key),
        _ => None,
    }
}

impl Json {
    /// First member bound to `key`, when this document is an object.
    pub fn get<'a>(&'a self, key: &String) -> (r: Option<&'a Json>)
        ensures
            match r {
                Some(f) => spec_get(self@, key@) == Some(f@),
                None => spec_get(self@, key@) is None,
            },
    {
        match self {
            Json::Obj(ms) => {
                proof {
                    lemma_members_view(ms@);
                    assert(members_view(ms@).skip(0) =~= members_view(ms@));
                    assert(self@ == JsonV::Obj(members_view(ms@)));
                }
                let mut i: usize = 0;
                while i < ms.len()
                    invariant
                        0 <= i <= ms@.len(),
                        self@ == JsonV::Obj(members_view(ms@)),
                        members_view(ms@).len() == ms@.len(),
                        forall|k: int|
                            0 <= k < ms@.len() ==> members_view(ms@)[k] == ((#[trigger] ms@[k]).0@,
                            json_view(ms@[k].1)),
                        spec_obj_get(members_view(ms@), key@) == spec_obj_get(
                            members_view(ms@).skip(i as int),
                            key@,
                        ),
                    decreases ms@.len() - i,
                {
                    let pair = &ms[i];
                    proof {
                        assert(members_view(ms@).skip(i as int)[0] == members_view(ms@)[i as int]);
                        assert(members_view(ms@).skip(i as int).drop_first() =~= members_view(
                            ms@,
                        ).skip(i + 1 as int));
                    }
                    if pair.0 == *key {
                        proof {
                            assert(members_view(ms@)[i as int].0 == key@);
                            assert(spec_obj_get(members_view(ms@).skip(i as int), key@) == Some(
                                members_view(ms@)[i as int].1,
                            ));
                            assert(pair == ms@[i as int]);
                            assert(json_view(pair.1) == members_view(ms@)[i as int].1);
                            assert(self@ == JsonV::Obj(members_view(ms@)));
                            assert(spec_get(self@, key@) == spec_obj_get(
                                members_view(ms@),
                                key@,
                            ));
                        }
                        return Some(&pair.1);
                    }
                    i = i + 1;
                }
                proof {
                    assert(members_view(ms@).skip(ms@.len() as int) =~= Seq::<
                        (Seq<char>, JsonV),
                    >::empty());
                }
                None
            },
            _ => None,
        }
    }
}

// ---------------------------------------------------------------------------
// Decimal texts for the integers the protocol carries
// ---------------------------------------------------------------------------
/// Decimal text of a nonnegative integer.
pub open spec fn dec_u(n: int) -> Seq<char>
    decreases n,
{
    if n < 10 {
        seq![spec_hex_char(n)]
    } else {
        dec_u(n / 10) + seq![spec_hex_char(n % 10)]
    }
}

/// Decimal text of an integer, with a leading minus sign when negative.
pub open spec fn dec_i(n: int) -> Seq<char> {
    if n < 0 {
        seq!['-'] + dec_u(-n)
    } else {
        dec_u(n)
    }
}

pub proof fn lemma_dec_u_digits(n: int)
    requires
        n >= 0,
    ensures
        dec_u(n).len() > 0,
        forall|k: int| 0 <= k < dec_u(n).len() ==> is_digit(#[trigger] dec_u(n)[k]),
    decreases n,
{
    if n >= 10 {
        lemma_dec_u_digits(n / 10);
    }
}

/// Decimal texts of integers are acceptable number texts.
pub proof fn lemma_dec_i_wf(n: int)
    ensures
        num_text_ok(dec_i(n)),
        json_wf(JsonV::Num(dec_i(n))),
{
    if n < 0 {
        lemma_dec_u_digits(-n);
        assert(dec_i(n)[0] == '-');
        assert(dec_i(n)[1] == dec_u(-n)[0]);
        assert forall|k: int| 0 <= k < dec_i(n).len() implies is_num_char(#[trigger] dec_i(n)[k]) by {
            if k > 0 {
                assert(dec_i(n)[k] == dec_u(-n)[k - 1]);
            }
        }
    } else {
        lemma_dec_u_digits(n);
        assert(dec_i(n) == dec_u(n));
    }
}

fn u64_to_dec(m: u64) -> (r: Vec<char>)
    ensures
        r@ == dec_u(m as int),
    decreases m,
{
    if m < 10 {
        let mut r: Vec<char> = Vec::new();
        r.push(hex_char((m % 16) as u32));
        proof {
            assert((m % 16) as int == m as int);
        }
        r
    } else {
        let mut r = u64_to_dec(m / 10);
        r.push(hex_char((m % 10) as u32));
        r
    }
}

/// Decimal text of an integer, as a character vector.
pub fn i64_to_dec(n: i64) -> (r: Vec<char>)
    ensures
        r@ == dec_i(n as int),
{
    if n >= 0 {
        u64_to_dec(n as u64)
    } else {
        let m: u64 = if n == i64::MIN {
            9223372036854775808u64
        } else {
            (-n) as u64
        };
        let digits = u64_to_dec(m);
        let mut r: Vec<char> = Vec::new();
        r.push('-');
        push_all(&digits, &mut r);
        proof {
            assert(r@ =~= seq!['-'] + dec_u(m as int));
        }
        r
    }
}

/// A fresh number document holding the decimal text of `n`.
pub fn json_int(n: i64) -> (r: Json)
    ensures
        r@ == JsonV::Num(dec_i(n as int)),
        json_wf(r@),
{
    let cs = i64_to_dec(n);
    proof {
        lemma_dec_i_wf(n as int);
    }
    Json::Num(string_from_chars(&cs))
}

// ---------------------------------------------------------------------------
// Reading integers back out of number texts
// ---------------------------------------------------------------------------
pub open spec fn digit_val(c: char) -> int {
    c as u32 as int - '0' as u32 as int
}

pub open spec fn all_digits(t: Seq<char>) -> bool {
    forall|k: int| 0 <= k < t.len() ==> is_digit(#[trigger] t[k])
}

/// Value of a digit string, most significant digit first.
pub open spec fn dec_val(t: Seq<char>) -> int
    decreases t.len(),
{
    if t.len() == 0 {
        0
    } else {
        dec_val(t.drop_last()) * 10 + digit_val(t.last())
    }
}

/// The signed integer a number text denotes, when it is a plain integer of at
/// most eighteen digits (the protocol's integers are far shorter).
pub open spec fn int_text_val(t: Seq<char>) -> Option<int> {
    if t.len() > 0 && t[0] == '-' {
        let m = t.drop_first();
        if 0 < m.len() <= 18 && all_digits(m) {
            Some(-dec_val(m))
        } else {
            None
        }
    } else {
        if 0 < t.len() <= 18 && all_digits(t) {
            Some(dec_val(t))
        } else {
            None
        }
    }
}

proof fn lemma_dec_val_bound(t: Seq<char>, b: int)
    requires
        all_digits(t),
        t.len() <= b,
        0 <= b <= 18,
    ensures
        0 <= dec_val(t) < pow10(b),
    decreases t.len(),
{
    lemma_pow10_pos(b);
    if t.len() > 0 {
        assert(all_digits(t.drop_last()));
        lemma_dec_val_bound(t.drop_last(), b - 1);
        assert(0 <= digit_val(t.last()) <= 9);
        assert(pow10(b) == pow10(b - 1) * 10);
    }
}

pub open spec fn pow10(k: int) -> int
    decreases k,
{
    if k <= 0 {
        1
    } else {
        pow10(k - 1) * 10
    }
}

proof fn lemma_pow10_pos(k: int)
    ensures
        pow10(k) >= 1,
    decreases k,
{
    if k > 0 {
        lemma_pow10_pos(k - 1);
    }
}

proof fn lemma_pow10_18()
    ensures
        pow10(18) == 1000000000000000000,
{
    reveal_with_fuel(pow10, 20);
}

fn digits_to_u64(cs: &Vec<char>, start: usize) -> (r: Option<u64>)
    requires
        start <= cs@.len(),
    ensures
        ({
            let t = cs@.skip(start as int);
            match r {
                Some(m) => 0 < t.len() <= 18 && all_digits(t) && m as int == dec_val(t),
                None => !(0 < t.len() <= 18 && all_digits(t)),
            }
        }),
{
    let ghost t = cs@.skip(start as int);
    if start == cs.len() || cs.len() - start > 18 {
        return None;
    }
    let mut acc: u64 = 0;
    let mut k: usize = start;
    proof {
        lemma_pow10_18();
        assert(t.take(0) =~= Seq::<char>::empty());
    }
    while k < cs.len()
        invariant
            start <= k <= cs@.len(),
            cs@.len() - start <= 18,
            t == cs@.skip(start as int),
            forall|m: int| 0 <= m < k - start ==> is_digit(#[trigger] t[m]),
            acc as int == dec_val(t.take(k - start)),
            (acc as int) < pow10(18),
            pow10(18) == 1000000000000000000,
        decreases cs@.len() - k,
    {
        let c = cs[k];
        if !is_digit_e(c) {
            proof {
                assert(t[k - start] == cs@[k as int]);
                assert(!all_digits(t));
            }
            return None;
        }
        let d: u64 = (c as u32 - '0' as u32) as u64;
        proof {
            let p = t.take(k - start);
            let q = t.take(k + 1 - start);
            assert(q.drop_last() =~= p);
            assert(q.last() == t[k - start]);
            assert(t[k - start] == cs@[k as int]);
            assert(all_digits(p));
            lemma_dec_val_bound(p, 17);
            assert(pow10(17) * 10 == pow10(18));
        }
        acc = acc * 10 + d;
        k = k + 1;
    }
    proof {
        assert(t.take(cs@.len() - start) =~= t);
    }
    Some(acc)
}

/// Reads the signed integer a number text denotes.
pub fn int_from_text(s: &String) -> (r: Option<i64>)
    ensures
        match r {
            Some(n) => int_text_val(s@) == Some(n as int),
            None => int_text_val(s@) is None,
        },
{
    let cs = chars_vec(s.as_str());
    if cs.len() == 0 {
        return None;
    }
    proof {
        lemma_pow10_18();
    }
    if cs[0] == '-' {
        proof {
            assert(cs@.skip(1) =~= s@.drop_first());
        }
        match digits_to_u64(&cs, 1) {
            Some(m) => {
                proof {
                    lemma_dec_val_bound(cs@.skip(1), 18);
                }
                Some(-(m as i64))
            },
            None => None,
        }
    } else {
        proof {
            assert(cs@.skip(0) =~= s@);
        }
        match digits_to_u64(&cs, 0) {
            Some(m) => {
                proof {
                    lemma_dec_val_bound(cs@.skip(0), 18);
                }
                Some(m as i64)
            },
            None => None,
        }
    }
}

/// Parses a whole document from its text.
pub fn from_text(s: &str) -> (r: Option<Json>)
    ensures
        match r {
            Some(j) => parse_json(s@) == Some(j@),
            None => parse_json(s@) is None,
        },
{
    let cs = chars_vec(s);
    match p_value(&cs, 0) {
        Some((j, n)) => if n == cs.len() {
            Some(j)
        } else {
            None
        },
        None => None,
    }
}

} // verus!
