//! A small JSON document model with a verified serializer and parser. The
//! plan document codec and the registry response decoder are built on it.
//! Numbers carry their lexeme rather than a binary value, so no precision
//! is lost and no floating point is involved.

use vstd::prelude::*;

use crate::text::push_char;

verus! {

/// A JSON value. A number holds its raw lexeme.
#[derive(Debug, PartialEq)]
pub enum Json {
    Null,
    Bool(bool),
    Num(String),
    Str(String),
    Arr(Vec<Json>),
    Obj(Vec<(String, Json)>),
}

/// Mathematical model of a JSON value.
pub enum JsonV {
    Null,
    Bool(bool),
    Num(Seq<char>),
    Str(Seq<char>),
    Arr(Seq<JsonV>),
    Obj(Seq<(Seq<char>, JsonV)>),
}

/// The models of a vector of JSON values.
pub open spec fn json_views(s: Seq<Json>) -> Seq<JsonV>
    decreases s,
{
    if s.len() == 0 {
        Seq::empty()
    } else {
        seq![json_view(s[0])] + json_views(s.skip(1))
    }
}

/// The models of a vector of object members.
pub open spec fn json_field_views(s: Seq<(String, Json)>) -> Seq<(Seq<char>, JsonV)>
    decreases s,
{
    if s.len() == 0 {
        Seq::empty()
    } else {
        seq![(s[0].0@, json_view(s[0].1))] + json_field_views(s.skip(1))
    }
}

/// The model of a JSON value.
pub open spec fn json_view(j: Json) -> JsonV
    decreases j,
{
    match j {
        Json::Null => JsonV::Null,
        Json::Bool(b) => JsonV::Bool(b),
        Json::Num(s) => JsonV::Num(s@),
        Json::Str(s) => JsonV::Str(s@),
        Json::Arr(items) => JsonV::Arr(json_views(items@)),
        Json::Obj(fields) => JsonV::Obj(json_field_views(fields@)),
    }
}

impl View for Json {
    type V = JsonV;

    open spec fn view(&self) -> JsonV {
        json_view(*self)
    }
}

impl DeepView for Json {
    type V = JsonV;

    open spec fn deep_view(&self) -> JsonV {
        json_view(*self)
    }
}

/// Characters that may continue a number lexeme.
pub open spec fn spec_num_char(c: char) -> bool {
    let u = c as u32;
    (48 <= u <= 57) || c == '-' || c == '+' || c == '.' || c == 'e' || c == 'E'
}

/// Decimal digits.
pub open spec fn spec_digit(c: char) -> bool {
    48 <= c as u32 <= 57
}

/// Well-formed values: every number lexeme is one the parser would read
/// back — nonempty, opening with a minus sign or digit, continuing with
/// number characters.
pub open spec fn json_wf(j: JsonV) -> bool
    decreases j,
{
    match j {
        JsonV::Null => true,
        JsonV::Bool(_) => true,
        JsonV::Num(s) => s.len() > 0 && (s[0] == '-' || spec_digit(s[0])) && (forall|i: int|
            0 <= i < s.len() ==> spec_num_char(#[trigger] s[i])),
        JsonV::Str(_) => true,
        JsonV::Arr(items) => forall|i: int| 0 <= i < items.len() ==> json_wf(#[trigger] items[i]),
        JsonV::Obj(fields) => forall|i: int|
            0 <= i < fields.len() ==> json_wf(#[trigger] fields[i].1),
    }
}

/// The lower-case hexadecimal digit of a value below sixteen.
pub open spec fn spec_hex_digit_char(d: u32) -> char {
    if d == 0 {
        '0'
    } else if d == 1 {
        '1'
    } else if d == 2 {
        '2'
    } else if d == 3 {
        '3'
    } else if d == 4 {
        '4'
    } else if d == 5 {
        '5'
    } else if d == 6 {
        '6'
    } else if d == 7 {
        '7'
    } else if d == 8 {
        '8'
    } else if d == 9 {
        '9'
    } else if d == 10 {
        'a'
    } else if d == 11 {
        'b'
    } else if d == 12 {
        'c'
    } else if d == 13 {
        'd'
    } else if d == 14 {
        'e'
    } else {
        'f'
    }
}

/// How one character of a string is written: quotes and backslashes are
/// escaped, control characters take the `\u00XX` form, everything else is
/// written as it stands.
pub open spec fn spec_escape_char(c: char) -> Seq<char> {
    if c == '"' {
        seq!['\\', '"']
    } else if c == '\\' {
        seq!['\\', '\\']
    } else if (c as u32) < 32 {
        seq![
            '\\',
            'u',
            '0',
            '0',
            spec_hex_digit_char((c as u32) / 16),
            spec_hex_digit_char((c as u32) % 16),
        ]
    } else {
        seq![c]
    }
}

/// A whole string's characters, escaped.
pub open spec fn spec_escape(s: Seq<char>) -> Seq<char>
    decreases s.len(),
{
    if s.len() == 0 {
        Seq::empty()
    } else {
        spec_escape_char(s[0]) + spec_escape(s.skip(1))
    }
}

/// The serialized items of an array, comma separated.
pub open spec fn spec_ser_items(items: Seq<JsonV>) -> Seq<char>
    decreases items, 1int,
{
    if items.len() == 0 {
        Seq::empty()
    } else if items.len() == 1 {
        spec_ser(items[0])
    } else {
        spec_ser(items[0]) + seq![','] + spec_ser_items(items.skip(1))
    }
}

/// The serialized members of an object, comma separated.
pub open spec fn spec_ser_fields(fields: Seq<(Seq<char>, JsonV)>) -> Seq<char>
    decreases fields, 1int,
{
    if fields.len() == 0 {
        Seq::empty()
    } else if fields.len() == 1 {
        spec_ser_field(fields[0])
    } else {
        spec_ser_field(fields[0]) + seq![','] + spec_ser_fields(fields.skip(1))
    }
}

/// One serialized member: quoted key, colon, value.
pub open spec fn spec_ser_field(field: (Seq<char>, JsonV)) -> Seq<char>
    decreases field, 1int,
{
    seq!['"'] + spec_escape(field.0) + seq!['"', ':'] + spec_ser(field.1)
}

/// The serialized form of a value: compact, no whitespace.
pub open spec fn spec_ser(j: JsonV) -> Seq<char>
    decreases j, 0int,
{
    match j {
        JsonV::Null => "null"@,
        JsonV::Bool(b) => if b {
            "true"@
        } else {
            "false"@
        },
        JsonV::Num(s) => s,
        JsonV::Str(s) => seq!['"'] + spec_escape(s) + seq!['"'],
        JsonV::Arr(items) => seq!['['] + spec_ser_items(items) + seq![']'],
        JsonV::Obj(fields) => seq!['{'] + spec_ser_fields(fields) + seq!['}'],
    }
}


/// Element views line up with the elements.
pub proof fn lemma_json_views_index(s: Seq<Json>)
    ensures
        json_views(s).len() == s.len(),
        forall|i: int|
            #![trigger s[i]]
            #![trigger json_views(s)[i]]
            0 <= i < s.len() ==> json_views(s)[i] == json_view(s[i]),
    decreases s.len(),
{
    if s.len() > 0 {
        lemma_json_views_index(s.skip(1));
        assert forall|i: int| 0 <= i < s.len() implies json_views(s)[i] == json_view(
            #[trigger] s[i],
        ) by {
            if i > 0 {
                assert(s.skip(1)[i - 1] == s[i]);
                assert(json_views(s)[i] == json_views(s.skip(1))[i - 1]);
            }
        }
    }
}

/// Member views line up with the members.
pub proof fn lemma_json_field_views_index(s: Seq<(String, Json)>)
    ensures
        json_field_views(s).len() == s.len(),
        forall|i: int|
            #![trigger s[i]]
            #![trigger json_field_views(s)[i]]
            0 <= i < s.len() ==> json_field_views(s)[i] == (s[i].0@, json_view(s[i].1)),
    decreases s.len(),
{
    if s.len() > 0 {
        lemma_json_field_views_index(s.skip(1));
        assert forall|i: int| 0 <= i < s.len() implies json_field_views(s)[i] == ((
        #[trigger] s[i]).0@, json_view(s[i].1)) by {
            if i > 0 {
                assert(s.skip(1)[i - 1] == s[i]);
                assert(json_field_views(s)[i] == json_field_views(s.skip(1))[i - 1]);
            }
        }
    }
}

/// Appending one character extends the escaped text by that character's
/// escape.
proof fn lemma_escape_snoc(s: Seq<char>, c: char)
    ensures
        spec_escape(s.push(c)) == spec_escape(s) + spec_escape_char(c),
    decreases s.len(),
{
    if s.len() == 0 {
        assert(s.push(c).skip(1) =~= s);
        assert(s.push(c)[0] == c);
        assert(spec_escape(s) == Seq::<char>::empty());
        assert(spec_escape(s.push(c)) =~= spec_escape(s) + spec_escape_char(c));
    } else {
        assert(s.push(c).skip(1) =~= s.skip(1).push(c));
        assert(s.push(c)[0] == s[0]);
        lemma_escape_snoc(s.skip(1), c);
        assert(spec_escape(s.push(c)) == spec_escape_char(s[0]) + (spec_escape(s.skip(1))
            + spec_escape_char(c)));
        assert(spec_escape_char(s[0]) + (spec_escape(s.skip(1)) + spec_escape_char(c))
            =~= (spec_escape_char(s[0]) + spec_escape(s.skip(1))) + spec_escape_char(c));
    }
}

pub(crate) fn hex_digit_char_of(d: u32) -> (r: char)
    requires
        d < 16,
    ensures
        r == spec_hex_digit_char(d),
{
    match d {
        0 => '0',
        1 => '1',
        2 => '2',
        3 => '3',
        4 => '4',
        5 => '5',
        6 => '6',
        7 => '7',
        8 => '8',
        9 => '9',
        10 => 'a',
        11 => 'b',
        12 => 'c',
        13 => 'd',
        14 => 'e',
        _ => 'f',
    }
}

/// Write one string in its quoted, escaped serialized form.
fn write_escaped_string(s: &str, out: &mut String)
    ensures
        final(out)@ == old(out)@ + seq!['"'] + spec_escape(s@) + seq!['"'],
{
    push_char(out, '"');
    let ghost base = out@;
    let n = s.unicode_len();
    let mut i: usize = 0;
    while i < n
        invariant
            i <= n,
            n == s@.len(),
            out@ == base + spec_escape(s@.subrange(0, i as int)),
        decreases n - i,
    {
        let c = s.get_char(i);
        let u = c as u32;
        if c == '"' {
            push_char(out, '\\');
            push_char(out, '"');
        } else if c == '\\' {
            push_char(out, '\\');
            push_char(out, '\\');
        } else if u < 32 {
            push_char(out, '\\');
            push_char(out, 'u');
            push_char(out, '0');
            push_char(out, '0');
            push_char(out, hex_digit_char_of(u / 16));
            push_char(out, hex_digit_char_of(u % 16));
        } else {
            push_char(out, c);
        }
        proof {
            lemma_escape_snoc(s@.subrange(0, i as int), s@[i as int]);
            assert(s@.subrange(0, i + 1) =~= s@.subrange(0, i as int).push(s@[i as int]));
            assert(out@ =~= base + spec_escape(s@.subrange(0, i + 1)));
        }
        i += 1;
    }
    push_char(out, '"');
    proof {
        assert(s@.subrange(0, n as int) =~= s@);
        assert(out@ =~= old(out)@ + seq!['"'] + spec_escape(s@) + seq!['"']);
    }
}

impl Json {
    /// Append this value's serialized form — compact JSON — to `out`.
    #[verifier::loop_isolation(false)]
    #[verifier::rlimit(80)]
    pub fn write(&self, out: &mut String)
        ensures
            final(out)@ == old(out)@ + spec_ser(self@),
        decreases *self,
    {
        match self {
            Json::Null => {
                out.append("null");
            },
            Json::Bool(b) => {
                if *b {
                    out.append("true");
                } else {
                    out.append("false");
                }
            },
            Json::Num(s) => {
                out.append(s.as_str());
            },
            Json::Str(s) => {
                write_escaped_string(s.as_str(), out);
                assert(out@ =~= old(out)@ + spec_ser(self@));
            },
            Json::Arr(items) => {
                let ghost itemsv = json_views(items@);
                proof {
                    lemma_json_views_index(items@);
                }
                push_char(out, '[');
                let ghost base = out@;
                let n = items.len();
                let mut i: usize = 0;
                while i < n
                    invariant
                        i <= n,
                        n == items@.len(),
                        itemsv == json_views(items@),
                        itemsv.len() == n,
                        forall|k: int| 0 <= k < n ==> itemsv[k] == json_view(#[trigger] items@[k]),
                        out@ + (if i == n {
                            Seq::<char>::empty()
                        } else if i == 0 {
                            spec_ser_items(itemsv)
                        } else {
                            seq![','] + spec_ser_items(itemsv.skip(i as int))
                        }) == base + spec_ser_items(itemsv),
                    decreases n - i,
                {
                    if i > 0 {
                        push_char(out, ',');
                    }
                    proof {
                        assert(decreases_to!(*self => (*self)->Arr_0));
                        assert((*self)->Arr_0 == *items);
                        assert(decreases_to!(*items => items@[i as int]));
                        if i > 0 {
                            assert(itemsv.skip(i as int)[0] == itemsv[i as int]);
                            assert(itemsv.skip(i as int).skip(1) =~= itemsv.skip(i + 1));
                        } else {
                            assert(itemsv.skip(0) =~= itemsv);
                        }
                    }
                    items[i].write(out);
                    i += 1;
                }
                push_char(out, ']');
                assert(out@ =~= old(out)@ + spec_ser(self@));
            },
            Json::Obj(fields) => {
                let ghost fieldsv = json_field_views(fields@);
                proof {
                    lemma_json_field_views_index(fields@);
                }
                push_char(out, '{');
                let ghost base = out@;
                let n = fields.len();
                let mut i: usize = 0;
                while i < n
                    invariant
                        i <= n,
                        n == fields@.len(),
                        fieldsv == json_field_views(fields@),
                        fieldsv.len() == n,
                        forall|k: int|
                            0 <= k < n ==> fieldsv[k] == ((#[trigger] fields@[k]).0@, json_view(
                                fields@[k].1,
                            )),
                        out@ + (if i == n {
                            Seq::<char>::empty()
                        } else if i == 0 {
                            spec_ser_fields(fieldsv)
                        } else {
                            seq![','] + spec_ser_fields(fieldsv.skip(i as int))
                        }) == base + spec_ser_fields(fieldsv),
                    decreases n - i,
                {
                    if i > 0 {
                        push_char(out, ',');
                    }
                    proof {
                        assert(decreases_to!(*self => (*self)->Obj_0));
                        assert((*self)->Obj_0 == *fields);
                        assert(decreases_to!(*fields => fields@[i as int]));
                        assert(decreases_to!(fields@[i as int] => fields@[i as int].1));
                        if i > 0 {
                            assert(fieldsv.skip(i as int)[0] == fieldsv[i as int]);
                            assert(fieldsv.skip(i as int).skip(1) =~= fieldsv.skip(i + 1));
                        } else {
                            assert(fieldsv.skip(0) =~= fieldsv);
                        }
                    }
                    write_escaped_string(fields[i].0.as_str(), out);
                    push_char(out, ':');
                    fields[i].1.write(out);
                    proof {
                        assert(spec_ser_field(fieldsv[i as int]) == seq!['"'] + spec_escape(
                            fields@[i as int].0@,
                        ) + seq!['"', ':'] + spec_ser(json_view(fields@[i as int].1)));
                    }
                    i += 1;
                }
                push_char(out, '}');
                assert(out@ =~= old(out)@ + spec_ser(self@));
            },
        }
    }

    /// This value's serialized form, as an owned string.
    pub fn to_json_string(&self) -> (r: String)
        ensures
            r@ == spec_ser(self@),
    {
        let mut out = String::new();
        self.write(&mut out);
        out
    }
}


/// Whitespace between tokens.
pub open spec fn spec_ws_char(c: char) -> bool {
    c == ' ' || c == '\t' || c == '\n' || c == '\r'
}

/// Nothing but whitespace.
pub open spec fn spec_all_ws(s: Seq<char>) -> bool {
    forall|i: int| 0 <= i < s.len() ==> spec_ws_char(#[trigger] s[i])
}

/// The numeric value of a hexadecimal digit.
pub open spec fn spec_hex_val(c: char) -> Option<u32> {
    let u = c as u32;
    if 48 <= u <= 57 {
        Some((u - 48) as u32)
    } else if 97 <= u <= 102 {
        Some((u - 87) as u32)
    } else if 65 <= u <= 70 {
        Some((u - 55) as u32)
    } else {
        None
    }
}

/// A unicode scalar value: what a `char` can hold.
pub open spec fn spec_valid_scalar(u: u32) -> bool {
    u < 0xD800 || (0xE000 <= u && u <= 0x10FFFF)
}

/// The character written by a one-letter escape, if the escape is legal.
pub open spec fn spec_short_escape(e: char) -> Option<char> {
    if e == '"' {
        Some('"')
    } else if e == '\\' {
        Some('\\')
    } else if e == '/' {
        Some('/')
    } else if e == 'n' {
        Some('\n')
    } else if e == 't' {
        Some('\t')
    } else if e == 'r' {
        Some('\r')
    } else if e == 'b' {
        Some(8u32 as char)
    } else if e == 'f' {
        Some(12u32 as char)
    } else {
        None
    }
}

/// The character a surrogate pair writes, when the six characters after
/// a high surrogate's escape are a low surrogate's escape completing it.
pub open spec fn spec_low_surrogate_char(
    c0: char,
    c1: char,
    h0: char,
    h1: char,
    h2: char,
    h3: char,
    code: u32,
) -> Option<char> {
    if c0 != '\\' || c1 != 'u' {
        None
    } else {
        match (spec_hex_val(h0), spec_hex_val(h1), spec_hex_val(h2), spec_hex_val(h3)) {
            (Some(e), Some(f), Some(g), Some(h)) => {
                let low = (e * 4096 + f * 256 + g * 16 + h) as u32;
                if 0xDC00 <= low < 0xE000 {
                    Some(((0x10000 + (code - 0xD800) * 0x400 + (low - 0xDC00)) as u32) as char)
                } else {
                    None
                }
            },
            _ => None,
        }
    }
}

/// Parse a string body, after its opening quote: the decoded content, and
/// what follows the closing quote.
pub open spec fn spec_parse_string_body(s: Seq<char>) -> Option<(Seq<char>, Seq<char>)>
    decreases s.len(),
{
    if s.len() == 0 {
        None
    } else if s[0] == '"' {
        Some((Seq::empty(), s.skip(1)))
    } else if s[0] == '\\' {
        if s.len() < 2 {
            None
        } else if s[1] == 'u' {
            if s.len() < 6 {
                None
            } else {
                match (spec_hex_val(s[2]), spec_hex_val(s[3]), spec_hex_val(s[4]), spec_hex_val(
                    s[5],
                )) {
                    (Some(a), Some(b), Some(c), Some(d)) => {
                        let code = (a * 4096 + b * 256 + c * 16 + d) as u32;
                        if spec_valid_scalar(code) {
                            match spec_parse_string_body(s.skip(6)) {
                                Some((content, rest)) => Some(
                                    (seq![code as char] + content, rest),
                                ),
                                None => None,
                            }
                        } else if 0xD800 <= code < 0xDC00 {
                            // A high surrogate: only legal as the first half of a
                            // surrogate pair, the sole escape form of the code
                            // points beyond the basic plane.
                            if s.len() < 12 {
                                None
                            } else {
                                match spec_low_surrogate_char(
                                    s[6],
                                    s[7],
                                    s[8],
                                    s[9],
                                    s[10],
                                    s[11],
                                    code,
                                ) {
                                    Some(ch2) => match spec_parse_string_body(s.skip(12)) {
                                        Some((content, rest)) => Some(
                                            (seq![ch2] + content, rest),
                                        ),
                                        None => None,
                                    },
                                    None => None,
                                }
                            }
                        } else {
                            None
                        }
                    },
                    _ => None,
                }
            }
        } else {
            match spec_short_escape(s[1]) {
                Some(c0) => match spec_parse_string_body(s.skip(2)) {
                    Some((content, rest)) => Some((seq![c0] + content, rest)),
                    None => None,
                },
                None => None,
            }
        }
    } else if (s[0] as u32) < 32 {
        None
    } else {
        match spec_parse_string_body(s.skip(1)) {
            Some((content, rest)) => Some((seq![s[0]] + content, rest)),
            None => None,
        }
    }
}

/// The longest numeric prefix of the input.
pub open spec fn spec_num_prefix_len(s: Seq<char>) -> int
    decreases s.len(),
{
    if s.len() > 0 && spec_num_char(s[0]) {
        1 + spec_num_prefix_len(s.skip(1))
    } else {
        0
    }
}

/// Parse one value, whitespace before it allowed: the value and what
/// follows it. (The parser never backtracks: the guards comparing suffix
/// lengths only serve its termination argument and never fire, since
/// parsing always consumes input.)
pub open spec fn spec_parse_value(s: Seq<char>) -> Option<(JsonV, Seq<char>)>
    decreases s.len(), 1int,
{
    if s.len() == 0 {
        None
    } else if spec_ws_char(s[0]) {
        spec_parse_value(s.skip(1))
    } else if s[0] == 'n' {
        if s.len() >= 4 && s.subrange(0, 4) == "null"@ {
            Some((JsonV::Null, s.skip(4)))
        } else {
            None
        }
    } else if s[0] == 't' {
        if s.len() >= 4 && s.subrange(0, 4) == "true"@ {
            Some((JsonV::Bool(true), s.skip(4)))
        } else {
            None
        }
    } else if s[0] == 'f' {
        if s.len() >= 5 && s.subrange(0, 5) == "false"@ {
            Some((JsonV::Bool(false), s.skip(5)))
        } else {
            None
        }
    } else if s[0] == '"' {
        match spec_parse_string_body(s.skip(1)) {
            Some((content, rest)) => Some((JsonV::Str(content), rest)),
            None => None,
        }
    } else if s[0] == '[' {
        match spec_parse_array_rest(s.skip(1)) {
            Some((items, rest)) => Some((JsonV::Arr(items), rest)),
            None => None,
        }
    } else if s[0] == '{' {
        match spec_parse_obj_rest(s.skip(1)) {
            Some((fields, rest)) => Some((JsonV::Obj(fields), rest)),
            None => None,
        }
    } else if s[0] == '-' || spec_digit(s[0]) {
        let k = spec_num_prefix_len(s);
        Some((JsonV::Num(s.take(k)), s.skip(k)))
    } else {
        None
    }
}

/// After `[`: the elements, up to and including the closing bracket.
pub open spec fn spec_parse_array_rest(s: Seq<char>) -> Option<(Seq<JsonV>, Seq<char>)>
    decreases s.len(), 2int,
{
    if s.len() == 0 {
        None
    } else if spec_ws_char(s[0]) {
        spec_parse_array_rest(s.skip(1))
    } else if s[0] == ']' {
        Some((Seq::empty(), s.skip(1)))
    } else {
        match spec_parse_value(s) {
            Some((v, rest)) => if rest.len() >= s.len() {
                None
            } else {
                match spec_parse_array_tail(rest) {
                    Some((items, rest2)) => Some((seq![v] + items, rest2)),
                    None => None,
                }
            },
            None => None,
        }
    }
}

/// After an element: the closing bracket, or a comma and more elements.
pub open spec fn spec_parse_array_tail(s: Seq<char>) -> Option<(Seq<JsonV>, Seq<char>)>
    decreases s.len(), 3int,
{
    if s.len() == 0 {
        None
    } else if spec_ws_char(s[0]) {
        spec_parse_array_tail(s.skip(1))
    } else if s[0] == ']' {
        Some((Seq::empty(), s.skip(1)))
    } else if s[0] == ',' {
        match spec_parse_value(s.skip(1)) {
            Some((v, rest)) => if rest.len() >= s.len() {
                None
            } else {
                match spec_parse_array_tail(rest) {
                    Some((items, rest2)) => Some((seq![v] + items, rest2)),
                    None => None,
                }
            },
            None => None,
        }
    } else {
        None
    }
}

/// A member key, whitespace before it allowed: the decoded key and what
/// follows its closing quote.
pub open spec fn spec_parse_key(s: Seq<char>) -> Option<(Seq<char>, Seq<char>)>
    decreases s.len(), 1int,
{
    if s.len() == 0 {
        None
    } else if spec_ws_char(s[0]) {
        spec_parse_key(s.skip(1))
    } else if s[0] == '"' {
        spec_parse_string_body(s.skip(1))
    } else {
        None
    }
}

/// A colon and the member's value.
pub open spec fn spec_parse_colon_value(s: Seq<char>) -> Option<(JsonV, Seq<char>)>
    decreases s.len(), 4int,
{
    if s.len() == 0 {
        None
    } else if spec_ws_char(s[0]) {
        spec_parse_colon_value(s.skip(1))
    } else if s[0] == ':' {
        spec_parse_value(s.skip(1))
    } else {
        None
    }
}

/// After `{`: the members, up to and including the closing brace.
pub open spec fn spec_parse_obj_rest(s: Seq<char>) -> Option<(Seq<(Seq<char>, JsonV)>, Seq<char>)>
    decreases s.len(), 2int,
{
    if s.len() == 0 {
        None
    } else if spec_ws_char(s[0]) {
        spec_parse_obj_rest(s.skip(1))
    } else if s[0] == '}' {
        Some((Seq::empty(), s.skip(1)))
    } else {
        match spec_parse_key(s) {
            Some((key, r1)) => if r1.len() >= s.len() {
                None
            } else {
                match spec_parse_colon_value(r1) {
                    Some((v, r2)) => if r2.len() >= s.len() {
                        None
                    } else {
                        match spec_parse_obj_tail(r2) {
                            Some((fields, r3)) => Some((seq![(key, v)] + fields, r3)),
                            None => None,
                        }
                    },
                    None => None,
                }
            },
            None => None,
        }
    }
}

/// After a member: the closing brace, or a comma and more members.
pub open spec fn spec_parse_obj_tail(s: Seq<char>) -> Option<(Seq<(Seq<char>, JsonV)>, Seq<char>)>
    decreases s.len(), 3int,
{
    if s.len() == 0 {
        None
    } else if spec_ws_char(s[0]) {
        spec_parse_obj_tail(s.skip(1))
    } else if s[0] == '}' {
        Some((Seq::empty(), s.skip(1)))
    } else if s[0] == ',' {
        match spec_parse_key(s.skip(1)) {
            Some((key, r1)) => if r1.len() >= s.len() {
                None
            } else {
                match spec_parse_colon_value(r1) {
                    Some((v, r2)) => if r2.len() >= s.len() {
                        None
                    } else {
                        match spec_parse_obj_tail(r2) {
                            Some((fields, r3)) => Some((seq![(key, v)] + fields, r3)),
                            None => None,
                        }
                    },
                    None => None,
                }
            },
            None => None,
        }
    } else {
        None
    }
}

/// Parse a whole document: one value and nothing but whitespace after it.
pub open spec fn spec_parse_json(s: Seq<char>) -> Option<JsonV> {
    match spec_parse_value(s) {
        Some((v, rest)) => if spec_all_ws(rest) {
            Some(v)
        } else {
            None
        },
        None => None,
    }
}


fn hex_val(c: char) -> (r: Option<u32>)
    ensures
        r == spec_hex_val(c),
{
    let u = c as u32;
    if 48 <= u && u <= 57 {
        Some(u - 48)
    } else if 97 <= u && u <= 102 {
        Some(u - 87)
    } else if 65 <= u && u <= 70 {
        Some(u - 55)
    } else {
        None
    }
}

/// Relies on `char::from_u32`: `Some` exactly for unicode scalar values —
/// everything below the surrogate range, and the surrogate gap's far side
/// up to the maximum code point.
#[verifier::external_body]
fn char_from_u32(u: u32) -> (r: Option<char>)
    ensures
        r == (if spec_valid_scalar(u) {
            Some(u as char)
        } else {
            None::<char>
        }),
{
    char::from_u32(u)
}

fn low_surrogate_char(c0: char, c1: char, h0: char, h1: char, h2: char, h3: char, code: u32) -> (r:
    Option<char>)
    requires
        0xD800 <= code < 0xDC00,
    ensures
        r == spec_low_surrogate_char(c0, c1, h0, h1, h2, h3, code),
{
    if !(c0 == '\\' && c1 == 'u') {
        return None;
    }
    match (hex_val(h0), hex_val(h1), hex_val(h2), hex_val(h3)) {
        (Some(e2), Some(f2), Some(g2), Some(h4)) => {
            let low: u32 = e2 * 4096 + f2 * 256 + g2 * 16 + h4;
            if 0xDC00 <= low && low < 0xE000 {
                let combined: u32 = 0x10000 + (code - 0xD800) * 0x400 + (low - 0xDC00);
                match char_from_u32(combined) {
                    Some(ch2) => Some(ch2),
                    None => {
                        proof {
                            assert(false);
                        }
                        None
                    },
                }
            } else {
                None
            }
        },
        _ => None,
    }
}

/// Parse one escape sequence at `cur` (where a backslash stands): the
/// decoded character and how many characters the escape spans, with the
/// rest of the string-body grammar left to the caller.
#[verifier::rlimit(100)]
fn parse_escape(s: &Vec<char>, cur: usize) -> (r: Option<(char, usize)>)
    requires
        cur < s@.len(),
        s@[cur as int] == '\\',
    ensures
        match r {
            Some(p) => 2 <= p.1 && cur + p.1 <= s@.len() && spec_parse_string_body(
                s@.skip(cur as int),
            ) == (match spec_parse_string_body(s@.skip(cur + p.1)) {
                Some(q) => Some((seq![p.0] + q.0, q.1)),
                None => None,
            }),
            None => spec_parse_string_body(s@.skip(cur as int)) is None,
        },
{
    proof {
        let tc = s@.skip(cur as int);
        assert(tc.len() == s@.len() - cur);
        assert(tc[0] == s@[cur as int]);
    }
    if s.len() - cur < 2 {
        return None;
    }
    let e = s[cur + 1];
    proof {
        let tc = s@.skip(cur as int);
        assert(tc[1] == s@[cur + 1]);
    }
    if e == 'u' {
        if s.len() - cur < 6 {
            return None;
        }
        proof {
            let tc = s@.skip(cur as int);
            assert(tc[2] == s@[cur + 2]);
            assert(tc[3] == s@[cur + 3]);
            assert(tc[4] == s@[cur + 4]);
            assert(tc[5] == s@[cur + 5]);
        }
        let h0 = hex_val(s[cur + 2]);
        let h1 = hex_val(s[cur + 3]);
        let h2 = hex_val(s[cur + 4]);
        let h3 = hex_val(s[cur + 5]);
        match (h0, h1, h2, h3) {
            (Some(a), Some(b), Some(cc), Some(d)) => {
                let code: u32 = a * 4096 + b * 256 + cc * 16 + d;
                match char_from_u32(code) {
                    Some(ch) => {
                        proof {
                            let tc = s@.skip(cur as int);
                            assert(tc.skip(6) =~= s@.skip(cur + 6));
                        }
                        Some((ch, 6))
                    },
                    None => {
                        if 0xD800 <= code && code < 0xDC00 {
                            if s.len() - cur < 12 {
                                return None;
                            }
                            proof {
                                let tc = s@.skip(cur as int);
                                assert(tc[6] == s@[cur + 6]);
                                assert(tc[7] == s@[cur + 7]);
                                assert(tc[8] == s@[cur + 8]);
                                assert(tc[9] == s@[cur + 9]);
                                assert(tc[10] == s@[cur + 10]);
                                assert(tc[11] == s@[cur + 11]);
                            }
                            match low_surrogate_char(
                                s[cur + 6],
                                s[cur + 7],
                                s[cur + 8],
                                s[cur + 9],
                                s[cur + 10],
                                s[cur + 11],
                                code,
                            ) {
                                Some(ch2) => {
                                    proof {
                                        let tc = s@.skip(cur as int);
                                        assert(tc.skip(12) =~= s@.skip(cur + 12));
                                    }
                                    Some((ch2, 12))
                                },
                                None => None,
                            }
                        } else {
                            None
                        }
                    },
                }
            },
            _ => None,
        }
    } else {
        match short_escape(e) {
            Some(c0) => {
                proof {
                    let tc = s@.skip(cur as int);
                    assert(tc.skip(2) =~= s@.skip(cur + 2));
                }
                Some((c0, 2))
            },
            None => None,
        }
    }
}

/// Parse a string body from `i` (just after the opening quote): the
/// decoded content and the position just after the closing quote.
#[verifier::rlimit(80)]
fn parse_string_body(s: &Vec<char>, i: usize) -> (r: Option<(String, usize)>)
    requires
        i <= s@.len(),
    ensures
        match r {
            Some(p) => i < p.1 <= s@.len() && spec_parse_string_body(s@.skip(i as int)) == Some(
                (p.0@, s@.skip(p.1 as int)),
            ),
            None => spec_parse_string_body(s@.skip(i as int)) is None,
        },
{
    let ghost t0 = s@.skip(i as int);
    let mut acc = String::new();
    let mut cur: usize = i;
    loop
        invariant
            i <= cur <= s@.len(),
            t0 == s@.skip(i as int),
            (match spec_parse_string_body(s@.skip(cur as int)) {
                Some(p2) => spec_parse_string_body(t0) == Some((acc@ + p2.0, p2.1)),
                None => spec_parse_string_body(t0) is None,
            }),
        decreases s@.len() - cur,
    {
        proof {
            let tc = s@.skip(cur as int);
            assert(tc.len() == s@.len() - cur);
            if cur < s@.len() {
                assert(tc[0] == s@[cur as int]);
            }
        }
        if cur >= s.len() {
            return None;
        }
        let c = s[cur];
        if c == '"' {
            proof {
                let tc = s@.skip(cur as int);
                assert(tc.skip(1) =~= s@.skip(cur + 1));
                assert(spec_parse_string_body(tc) == Some(
                    (Seq::<char>::empty(), s@.skip(cur + 1)),
                ));
                assert(acc@ + Seq::<char>::empty() =~= acc@);
            }
            return Some((acc, cur + 1));
        } else if c == '\\' {
            match parse_escape(s, cur) {
                Some((ch, k)) => {
                    let ghost acc0 = acc@;
                    push_char(&mut acc, ch);
                    proof {
                        if spec_parse_string_body(s@.skip(cur + k)) is Some {
                            let p2 = spec_parse_string_body(s@.skip(cur + k))->Some_0;
                            assert(acc0 + (seq![ch] + p2.0) =~= (acc0.push(ch)) + p2.0);
                        }
                    }
                    cur = cur + k;
                },
                None => {
                    return None;
                },
            }
        } else if (c as u32) < 32 {
            return None;
        } else {
            let ghost acc0 = acc@;
            push_char(&mut acc, c);
            proof {
                let tc = s@.skip(cur as int);
                assert(tc.skip(1) =~= s@.skip(cur + 1));
                assert(spec_parse_string_body(tc) == (
                match spec_parse_string_body(s@.skip(cur + 1)) {
                    Some(p2) => Some((seq![c] + p2.0, p2.1)),
                    None => None,
                }));
                if spec_parse_string_body(s@.skip(cur + 1)) is Some {
                    let p2 = spec_parse_string_body(s@.skip(cur + 1))->Some_0;
                    assert(acc0 + (seq![c] + p2.0) =~= (acc0.push(c)) + p2.0);
                }
            }
            cur = cur + 1;
        }
    }
}

fn short_escape(e: char) -> (r: Option<char>)
    ensures
        r == spec_short_escape(e),
{
    if e == '"' {
        Some('"')
    } else if e == '\\' {
        Some('\\')
    } else if e == '/' {
        Some('/')
    } else if e == 'n' {
        Some('\n')
    } else if e == 't' {
        Some('\t')
    } else if e == 'r' {
        Some('\r')
    } else if e == 'b' {
        match char_from_u32(8) {
            Some(c) => Some(c),
            None => None,
        }
    } else if e == 'f' {
        match char_from_u32(12) {
            Some(c) => Some(c),
            None => None,
        }
    } else {
        None
    }
}

/// Parse a member key from `i`: leading whitespace, the quoted key, and
/// the position just after its closing quote.
fn parse_key(s: &Vec<char>, i: usize) -> (r: Option<(String, usize)>)
    requires
        i <= s@.len(),
    ensures
        match r {
            Some(p) => i < p.1 <= s@.len() && spec_parse_key(s@.skip(i as int)) == Some(
                (p.0@, s@.skip(p.1 as int)),
            ),
            None => spec_parse_key(s@.skip(i as int)) is None,
        },
{
    let mut cur: usize = i;
    loop
        invariant
            i <= cur <= s@.len(),
            spec_parse_key(s@.skip(i as int)) == spec_parse_key(s@.skip(cur as int)),
        decreases s@.len() - cur,
    {
        proof {
            let tc = s@.skip(cur as int);
            assert(tc.len() == s@.len() - cur);
            if cur < s@.len() {
                assert(tc[0] == s@[cur as int]);
                assert(tc.skip(1) =~= s@.skip(cur + 1));
            }
        }
        if cur >= s.len() {
            return None;
        }
        let c = s[cur];
        if c == ' ' || c == '\t' || c == '\n' || c == '\r' {
            cur = cur + 1;
        } else if c == '"' {
            return parse_string_body(s, cur + 1);
        } else {
            return None;
        }
    }
}


/// Appending one element extends the element views by its view.
proof fn lemma_json_views_snoc(s: Seq<Json>, j: Json)
    ensures
        json_views(s.push(j)) == json_views(s) + seq![json_view(j)],
    decreases s.len(),
{
    if s.len() == 0 {
        assert(s.push(j).skip(1) =~= s);
        assert(s.push(j)[0] == j);
        assert(json_views(s.push(j)) =~= json_views(s) + seq![json_view(j)]);
    } else {
        assert(s.push(j).skip(1) =~= s.skip(1).push(j));
        assert(s.push(j)[0] == s[0]);
        lemma_json_views_snoc(s.skip(1), j);
        assert(json_views(s.push(j)) == seq![json_view(s[0])] + (json_views(s.skip(1))
            + seq![json_view(j)]));
        assert(seq![json_view(s[0])] + (json_views(s.skip(1)) + seq![json_view(j)])
            =~= (seq![json_view(s[0])] + json_views(s.skip(1))) + seq![json_view(j)]);
    }
}

/// Appending one member extends the member views by its view.
proof fn lemma_json_field_views_snoc(s: Seq<(String, Json)>, f: (String, Json))
    ensures
        json_field_views(s.push(f)) == json_field_views(s) + seq![(f.0@, json_view(f.1))],
    decreases s.len(),
{
    if s.len() == 0 {
        assert(s.push(f).skip(1) =~= s);
        assert(s.push(f)[0] == f);
        assert(json_field_views(s.push(f)) =~= json_field_views(s) + seq![
            (f.0@, json_view(f.1)),
        ]);
    } else {
        assert(s.push(f).skip(1) =~= s.skip(1).push(f));
        assert(s.push(f)[0] == s[0]);
        lemma_json_field_views_snoc(s.skip(1), f);
        assert(json_field_views(s.push(f)) == seq![(s[0].0@, json_view(s[0].1))] + (
        json_field_views(s.skip(1)) + seq![(f.0@, json_view(f.1))]));
        assert(seq![(s[0].0@, json_view(s[0].1))] + (json_field_views(s.skip(1)) + seq![
            (f.0@, json_view(f.1)),
        ]) =~= (seq![(s[0].0@, json_view(s[0].1))] + json_field_views(s.skip(1))) + seq![
            (f.0@, json_view(f.1)),
        ]);
    }
}

fn is_ws(c: char) -> (r: bool)
    ensures
        r == spec_ws_char(c),
{
    c == ' ' || c == '\t' || c == '\n' || c == '\r'
}

fn is_digit(c: char) -> (r: bool)
    ensures
        r == spec_digit(c),
{
    let u = c as u32;
    48 <= u && u <= 57
}

fn is_num_char(c: char) -> (r: bool)
    ensures
        r == spec_num_char(c),
{
    let u = c as u32;
    (48 <= u && u <= 57) || c == '-' || c == '+' || c == '.' || c == 'e' || c == 'E'
}

/// Parse one value from `i`, leading whitespace allowed: the value and the
/// position just after it.
#[verifier::rlimit(100)]
#[verifier::spinoff_prover]
pub fn parse_value(s: &Vec<char>, i: usize) -> (r: Option<(Json, usize)>)
    requires
        i <= s@.len(),
    ensures
        match r {
            Some(p) => i < p.1 <= s@.len() && spec_parse_value(s@.skip(i as int)) == Some(
                (p.0@, s@.skip(p.1 as int)),
            ),
            None => spec_parse_value(s@.skip(i as int)) is None,
        },
    decreases s@.len() - i, 1int,
{
    let mut cur: usize = i;
    while cur < s.len() && is_ws(s[cur])
        invariant
            i <= cur <= s@.len(),
            spec_parse_value(s@.skip(i as int)) == spec_parse_value(s@.skip(cur as int)),
        decreases s@.len() - cur,
    {
        proof {
            let tc = s@.skip(cur as int);
            assert(tc[0] == s@[cur as int]);
            assert(tc.skip(1) =~= s@.skip(cur + 1));
        }
        cur = cur + 1;
    }
    proof {
        let tc = s@.skip(cur as int);
        assert(tc.len() == s@.len() - cur);
        if cur < s@.len() {
            assert(tc[0] == s@[cur as int]);
            assert(tc.skip(1) =~= s@.skip(cur + 1));
        }
    }
    if cur >= s.len() {
        return None;
    }
    let c = s[cur];
    if c == 'n' {
        if s.len() - cur >= 4 && s[cur + 1] == 'u' && s[cur + 2] == 'l' && s[cur + 3] == 'l' {
            proof {
                reveal_strlit("null");
                let tc = s@.skip(cur as int);
                assert(tc[1] == s@[cur + 1]);
                assert(tc[2] == s@[cur + 2]);
                assert(tc[3] == s@[cur + 3]);
                assert(tc.subrange(0, 4) =~= "null"@);
                assert(tc.skip(4) =~= s@.skip(cur + 4));
            }
            Some((Json::Null, cur + 4))
        } else {
            proof {
                reveal_strlit("null");
                let tc = s@.skip(cur as int);
                if tc.len() >= 4 && tc.subrange(0, 4) == "null"@ {
                    assert(tc.subrange(0, 4)[1] == tc[1]);
                    assert(tc.subrange(0, 4)[2] == tc[2]);
                    assert(tc.subrange(0, 4)[3] == tc[3]);
                    assert(tc[1] == s@[cur + 1]);
                    assert(tc[2] == s@[cur + 2]);
                    assert(tc[3] == s@[cur + 3]);
                }
            }
            None
        }
    } else if c == 't' {
        if s.len() - cur >= 4 && s[cur + 1] == 'r' && s[cur + 2] == 'u' && s[cur + 3] == 'e' {
            proof {
                reveal_strlit("true");
                let tc = s@.skip(cur as int);
                assert(tc[1] == s@[cur + 1]);
                assert(tc[2] == s@[cur + 2]);
                assert(tc[3] == s@[cur + 3]);
                assert(tc.subrange(0, 4) =~= "true"@);
                assert(tc.skip(4) =~= s@.skip(cur + 4));
            }
            Some((Json::Bool(true), cur + 4))
        } else {
            proof {
                reveal_strlit("true");
                let tc = s@.skip(cur as int);
                if tc.len() >= 4 && tc.subrange(0, 4) == "true"@ {
                    assert(tc.subrange(0, 4)[1] == tc[1]);
                    assert(tc.subrange(0, 4)[2] == tc[2]);
                    assert(tc.subrange(0, 4)[3] == tc[3]);
                    assert(tc[1] == s@[cur + 1]);
                    assert(tc[2] == s@[cur + 2]);
                    assert(tc[3] == s@[cur + 3]);
                }
            }
            None
        }
    } else if c == 'f' {
        if s.len() - cur >= 5 && s[cur + 1] == 'a' && s[cur + 2] == 'l' && s[cur + 3] == 's'
            && s[cur + 4] == 'e' {
            proof {
                reveal_strlit("false");
                let tc = s@.skip(cur as int);
                assert(tc[1] == s@[cur + 1]);
                assert(tc[2] == s@[cur + 2]);
                assert(tc[3] == s@[cur + 3]);
                assert(tc[4] == s@[cur + 4]);
                assert(tc.subrange(0, 5) =~= "false"@);
                assert(tc.skip(5) =~= s@.skip(cur + 5));
            }
            Some((Json::Bool(false), cur + 5))
        } else {
            proof {
                reveal_strlit("false");
                let tc = s@.skip(cur as int);
                if tc.len() >= 5 && tc.subrange(0, 5) == "false"@ {
                    assert(tc.subrange(0, 5)[1] == tc[1]);
                    assert(tc.subrange(0, 5)[2] == tc[2]);
                    assert(tc.subrange(0, 5)[3] == tc[3]);
                    assert(tc.subrange(0, 5)[4] == tc[4]);
                    assert(tc[1] == s@[cur + 1]);
                    assert(tc[2] == s@[cur + 2]);
                    assert(tc[3] == s@[cur + 3]);
                    assert(tc[4] == s@[cur + 4]);
                }
            }
            None
        }
    } else if c == '"' {
        match parse_string_body(s, cur + 1) {
            Some((content, i2)) => Some((Json::Str(content), i2)),
            None => None,
        }
    } else if c == '[' {
        match parse_array_rest(s, cur + 1) {
            Some((items, i2)) => Some((Json::Arr(items), i2)),
            None => None,
        }
    } else if c == '{' {
        match parse_obj_rest(s, cur + 1) {
            Some((fields, i2)) => Some((Json::Obj(fields), i2)),
            None => None,
        }
    } else if c == '-' || is_digit(c) {
        let start = cur;
        let mut endp = cur;
        while endp < s.len() && is_num_char(s[endp])
            invariant
                start <= endp <= s@.len(),
                spec_num_prefix_len(s@.skip(start as int)) == (endp - start)
                    + spec_num_prefix_len(s@.skip(endp as int)),
            decreases s@.len() - endp,
        {
            proof {
                let te = s@.skip(endp as int);
                assert(te[0] == s@[endp as int]);
                assert(te.skip(1) =~= s@.skip(endp + 1));
            }
            endp = endp + 1;
        }
        proof {
            let te = s@.skip(endp as int);
            assert(te.len() == s@.len() - endp);
            if endp < s@.len() {
                assert(te[0] == s@[endp as int]);
            }
            assert(spec_num_prefix_len(s@.skip(endp as int)) == 0);
            let tc = s@.skip(cur as int);
            assert(tc[0] == c);
            assert(spec_num_char(tc[0]));
            assert(spec_num_prefix_len(tc) >= 1);
            assert(endp > start);
        }
        let mut lex = String::new();
        let mut p: usize = start;
        while p < endp
            invariant
                start <= p <= endp <= s@.len(),
                lex@ == s@.subrange(start as int, p as int),
            decreases endp - p,
        {
            push_char(&mut lex, s[p]);
            proof {
                assert(lex@ =~= s@.subrange(start as int, p + 1));
            }
            p = p + 1;
        }
        proof {
            let tc = s@.skip(cur as int);
            let k = spec_num_prefix_len(tc);
            assert(k == endp - start);
            assert(tc.take(k) =~= s@.subrange(start as int, endp as int));
            assert(tc.skip(k) =~= s@.skip(endp as int));
        }
        Some((Json::Num(lex), endp))
    } else {
        None
    }
}

/// Parse the remainder of an array, from just after its opening bracket:
/// the elements and the position just after the closing bracket.
fn parse_array_rest(s: &Vec<char>, i: usize) -> (r: Option<(Vec<Json>, usize)>)
    requires
        i <= s@.len(),
    ensures
        match r {
            Some(p) => i < p.1 <= s@.len() && spec_parse_array_rest(s@.skip(i as int)) == Some(
                (json_views(p.0@), s@.skip(p.1 as int)),
            ),
            None => spec_parse_array_rest(s@.skip(i as int)) is None,
        },
    decreases s@.len() - i, 2int,
{
    let mut acc: Vec<Json> = Vec::new();
    let mut cur: usize = i;
    while cur < s.len() && is_ws(s[cur])
        invariant
            i <= cur <= s@.len(),
            spec_parse_array_rest(s@.skip(i as int)) == spec_parse_array_rest(
                s@.skip(cur as int),
            ),
        decreases s@.len() - cur,
    {
        proof {
            let tc = s@.skip(cur as int);
            assert(tc[0] == s@[cur as int]);
            assert(tc.skip(1) =~= s@.skip(cur + 1));
        }
        cur = cur + 1;
    }
    proof {
        let tc = s@.skip(cur as int);
        assert(tc.len() == s@.len() - cur);
        if cur < s@.len() {
            assert(tc[0] == s@[cur as int]);
            assert(tc.skip(1) =~= s@.skip(cur + 1));
        }
    }
    if cur >= s.len() {
        return None;
    }
    if s[cur] == ']' {
        proof {
            assert(json_views(acc@) =~= Seq::<JsonV>::empty());
        }
        return Some((acc, cur + 1));
    }
    let (v0, first_end) = match parse_value(s, cur) {
        Some(p) => p,
        None => {
            return None;
        },
    };
    let ghost v0v = v0@;
    acc.push(v0);
    let mut cur2: usize = first_end;
    proof {
        let tc = s@.skip(cur as int);
        assert(s@.skip(cur2 as int).len() < tc.len());
        assert(acc@.len() == 1);
        assert(json_view(acc@[0]) == v0v);
        assert(acc@.skip(1) =~= Seq::<Json>::empty());
        assert(json_views(Seq::<Json>::empty()) == Seq::<JsonV>::empty());
        assert(json_views(acc@) =~= seq![v0v]);
    }
    loop
        invariant
            i < cur2 <= s@.len(),
            (match spec_parse_array_tail(s@.skip(cur2 as int)) {
                Some(p2) => spec_parse_array_rest(s@.skip(i as int)) == Some(
                    (json_views(acc@) + p2.0, p2.1),
                ),
                None => spec_parse_array_rest(s@.skip(i as int)) is None,
            }),
        decreases s@.len() - cur2,
    {
        proof {
            let tc = s@.skip(cur2 as int);
            assert(tc.len() == s@.len() - cur2);
            if cur2 < s@.len() {
                assert(tc[0] == s@[cur2 as int]);
                assert(tc.skip(1) =~= s@.skip(cur2 + 1));
            }
        }
        if cur2 >= s.len() {
            return None;
        }
        let c = s[cur2];
        if is_ws(c) {
            cur2 = cur2 + 1;
        } else if c == ']' {
            proof {
                assert(json_views(acc@) + Seq::<JsonV>::empty() =~= json_views(acc@));
            }
            return Some((acc, cur2 + 1));
        } else if c == ',' {
            match parse_value(s, cur2 + 1) {
                Some((v, i3)) => {
                    let ghost acc0 = acc@;
                    let ghost vv = v@;
                    proof {
                        let tc = s@.skip(cur2 as int);
                        assert(s@.skip(i3 as int).len() < tc.len());
                    }
                    acc.push(v);
                    proof {
                        lemma_json_views_snoc(acc0, acc[acc.len() - 1]);
                        assert(acc@ == acc0.push(acc@[acc@.len() - 1]));
                        assert(json_views(acc@) == json_views(acc0) + seq![vv]);
                        let tc = s@.skip(cur2 as int);
                        if spec_parse_array_tail(s@.skip(i3 as int)) is Some {
                            let p2 = spec_parse_array_tail(s@.skip(i3 as int))->Some_0;
                            assert(json_views(acc0) + (seq![vv] + p2.0) =~= (json_views(acc0)
                                + seq![vv]) + p2.0);
                        }
                    }
                    cur2 = i3;
                },
                None => {
                    return None;
                },
            }
        } else {
            return None;
        }
    }
}

/// Parse a colon and the member value that follows it.
fn parse_colon_value(s: &Vec<char>, i: usize) -> (r: Option<(Json, usize)>)
    requires
        i <= s@.len(),
    ensures
        match r {
            Some(p) => i < p.1 <= s@.len() && spec_parse_colon_value(s@.skip(i as int)) == Some(
                (p.0@, s@.skip(p.1 as int)),
            ),
            None => spec_parse_colon_value(s@.skip(i as int)) is None,
        },
    decreases s@.len() - i, 4int,
{
    let mut cur: usize = i;
    while cur < s.len() && is_ws(s[cur])
        invariant
            i <= cur <= s@.len(),
            spec_parse_colon_value(s@.skip(i as int)) == spec_parse_colon_value(
                s@.skip(cur as int),
            ),
        decreases s@.len() - cur,
    {
        proof {
            let tc = s@.skip(cur as int);
            assert(tc[0] == s@[cur as int]);
            assert(tc.skip(1) =~= s@.skip(cur + 1));
        }
        cur = cur + 1;
    }
    proof {
        let tc = s@.skip(cur as int);
        assert(tc.len() == s@.len() - cur);
        if cur < s@.len() {
            assert(tc[0] == s@[cur as int]);
            assert(tc.skip(1) =~= s@.skip(cur + 1));
        }
    }
    if cur >= s.len() {
        return None;
    }
    if s[cur] == ':' {
        parse_value(s, cur + 1)
    } else {
        None
    }
}

/// Parse the remainder of an object, from just after its opening brace:
/// the members and the position just after the closing brace.
fn parse_obj_rest(s: &Vec<char>, i: usize) -> (r: Option<(Vec<(String, Json)>, usize)>)
    requires
        i <= s@.len(),
    ensures
        match r {
            Some(p) => i < p.1 <= s@.len() && spec_parse_obj_rest(s@.skip(i as int)) == Some(
                (json_field_views(p.0@), s@.skip(p.1 as int)),
            ),
            None => spec_parse_obj_rest(s@.skip(i as int)) is None,
        },
    decreases s@.len() - i, 2int,
{
    let mut acc: Vec<(String, Json)> = Vec::new();
    let mut cur: usize = i;
    while cur < s.len() && is_ws(s[cur])
        invariant
            i <= cur <= s@.len(),
            spec_parse_obj_rest(s@.skip(i as int)) == spec_parse_obj_rest(s@.skip(cur as int)),
        decreases s@.len() - cur,
    {
        proof {
            let tc = s@.skip(cur as int);
            assert(tc[0] == s@[cur as int]);
            assert(tc.skip(1) =~= s@.skip(cur + 1));
        }
        cur = cur + 1;
    }
    proof {
        let tc = s@.skip(cur as int);
        assert(tc.len() == s@.len() - cur);
        if cur < s@.len() {
            assert(tc[0] == s@[cur as int]);
            assert(tc.skip(1) =~= s@.skip(cur + 1));
        }
    }
    if cur >= s.len() {
        return None;
    }
    if s[cur] == '}' {
        proof {
            assert(json_field_views(acc@) =~= Seq::<(Seq<char>, JsonV)>::empty());
        }
        return Some((acc, cur + 1));
    }
    let (key0, r1) = match parse_key(s, cur) {
        Some(p) => p,
        None => {
            return None;
        },
    };
    proof {
        let tc = s@.skip(cur as int);
        assert(s@.skip(r1 as int).len() < tc.len());
    }
    let (val0, r2) = match parse_colon_value(s, r1) {
        Some(p) => p,
        None => {
            return None;
        },
    };
    let ghost key0v = key0@;
    let ghost val0v = val0@;
    proof {
        let tc = s@.skip(cur as int);
        assert(s@.skip(r2 as int).len() < tc.len());
    }
    acc.push((key0, val0));
    let mut cur2: usize = r2;
    proof {
        assert(acc@.len() == 1);
        assert(acc@[0].0@ == key0v);
        assert(json_view(acc@[0].1) == val0v);
        assert(acc@.skip(1) =~= Seq::<(String, Json)>::empty());
        assert(json_field_views(Seq::<(String, Json)>::empty()) == Seq::<(
            Seq<char>,
            JsonV,
        )>::empty());
        assert(json_field_views(acc@) =~= seq![(key0v, val0v)]);
    }
    loop
        invariant
            i < cur2 <= s@.len(),
            (match spec_parse_obj_tail(s@.skip(cur2 as int)) {
                Some(p2) => spec_parse_obj_rest(s@.skip(i as int)) == Some(
                    (json_field_views(acc@) + p2.0, p2.1),
                ),
                None => spec_parse_obj_rest(s@.skip(i as int)) is None,
            }),
        decreases s@.len() - cur2,
    {
        proof {
            let tc = s@.skip(cur2 as int);
            assert(tc.len() == s@.len() - cur2);
            if cur2 < s@.len() {
                assert(tc[0] == s@[cur2 as int]);
                assert(tc.skip(1) =~= s@.skip(cur2 + 1));
            }
        }
        if cur2 >= s.len() {
            return None;
        }
        let c = s[cur2];
        if is_ws(c) {
            cur2 = cur2 + 1;
        } else if c == '}' {
            proof {
                assert(json_field_views(acc@) + Seq::<(Seq<char>, JsonV)>::empty()
                    =~= json_field_views(acc@));
            }
            return Some((acc, cur2 + 1));
        } else if c == ',' {
            let (key, r1b) = match parse_key(s, cur2 + 1) {
                Some(p) => p,
                None => {
                    return None;
                },
            };
            proof {
                let tc = s@.skip(cur2 as int);
                assert(s@.skip(r1b as int).len() < tc.len());
            }
            let (val, r2b) = match parse_colon_value(s, r1b) {
                Some(p) => p,
                None => {
                    return None;
                },
            };
            let ghost keyv = key@;
            let ghost valv = val@;
            let ghost acc0 = acc@;
            proof {
                let tc = s@.skip(cur2 as int);
                assert(s@.skip(r2b as int).len() < tc.len());
            }
            acc.push((key, val));
            proof {
                lemma_json_field_views_snoc(acc0, acc[acc.len() - 1]);
                assert(acc@ == acc0.push(acc@[acc@.len() - 1]));
                assert(json_field_views(acc@) == json_field_views(acc0) + seq![(keyv, valv)]);
                if spec_parse_obj_tail(s@.skip(r2b as int)) is Some {
                    let p2 = spec_parse_obj_tail(s@.skip(r2b as int))->Some_0;
                    assert(json_field_views(acc0) + (seq![(keyv, valv)] + p2.0) =~= (
                    json_field_views(acc0) + seq![(keyv, valv)]) + p2.0);
                }
            }
            cur2 = r2b;
        } else {
            return None;
        }
    }
}

/// Parse a whole document: one value with whitespace allowed around it.
pub fn parse_json(text: &str) -> (r: Option<Json>)
    ensures
        match r {
            Some(j) => spec_parse_json(text@) == Some(j@),
            None => spec_parse_json(text@) is None,
        },
{
    let chars = crate::text::str_to_chars(text);
    proof {
        assert(chars@.skip(0) =~= text@);
    }
    match parse_value(&chars, 0) {
        Some((j, i2)) => {
            let mut cur = i2;
            while cur < chars.len() && is_ws(chars[cur])
                invariant
                    i2 <= cur <= chars@.len(),
                    chars@ == text@,
                    forall|k: int| i2 <= k < cur ==> spec_ws_char(#[trigger] chars@[k]),
                decreases chars@.len() - cur,
            {
                cur = cur + 1;
            }
            if cur < chars.len() {
                proof {
                    assert(chars@.skip(i2 as int)[cur - i2] == chars@[cur as int]);
                    assert(!spec_all_ws(chars@.skip(i2 as int)));
                }
                None
            } else {
                proof {
                    assert forall|k: int| 0 <= k < chars@.skip(i2 as int).len() implies
                        spec_ws_char(#[trigger] chars@.skip(i2 as int)[k]) by {
                        assert(chars@.skip(i2 as int)[k] == chars@[i2 + k]);
                    }
                }
                Some(j)
            }
        },
        None => None,
    }
}


/// A hexadecimal digit reads back as its value.
proof fn lemma_hex_digit_roundtrip(d: u32)
    requires
        d < 16,
    ensures
        spec_hex_val(spec_hex_digit_char(d)) == Some(d),
{
}

/// Escaped text between quotes parses back to the characters it encodes.
#[verifier::rlimit(100)]
proof fn lemma_escape_roundtrip(s: Seq<char>, rest: Seq<char>)
    ensures
        spec_parse_string_body(spec_escape(s) + seq!['"'] + rest) == Some((s, rest)),
    decreases s.len(),
{
    let i = spec_escape(s) + seq!['"'] + rest;
    if s.len() == 0 {
        assert(spec_escape(s) == Seq::<char>::empty());
        assert(i[0] == '"');
        assert(i.skip(1) =~= rest);
        assert(spec_parse_string_body(i) == Some((Seq::<char>::empty(), rest)));
        assert(Seq::<char>::empty() =~= s);
    } else {
        let c = s[0];
        let tail = spec_escape(s.skip(1)) + seq!['"'] + rest;
        lemma_escape_roundtrip(s.skip(1), rest);
        assert(spec_escape(s) == spec_escape_char(c) + spec_escape(s.skip(1)));
        assert(i =~= spec_escape_char(c) + tail);
        if c == '"' {
            assert(i[0] == '\\');
            assert(i[1] == '"');
            assert(i.skip(2) =~= tail);
            assert(spec_short_escape('"') == Some('"'));
            assert(seq!['"'] + s.skip(1) =~= s);
        } else if c == '\\' {
            assert(i[0] == '\\');
            assert(i[1] == '\\');
            assert(i.skip(2) =~= tail);
            assert(spec_short_escape('\\') == Some('\\'));
            assert(seq!['\\'] + s.skip(1) =~= s);
        } else if (c as u32) < 32 {
            let u = c as u32;
            assert(i[0] == '\\');
            assert(i[1] == 'u');
            assert(i[2] == '0');
            assert(i[3] == '0');
            assert(i[4] == spec_hex_digit_char(u / 16));
            assert(i[5] == spec_hex_digit_char(u % 16));
            assert(i.len() >= 6);
            assert(i.skip(6) =~= tail);
            assert(spec_hex_val('0') == Some(0u32));
            lemma_hex_digit_roundtrip(u / 16);
            lemma_hex_digit_roundtrip(u % 16);
            assert((u / 16) * 16 + u % 16 == u) by (nonlinear_arith)
                requires
                    u < 32,
            ;
            let code = (0u32 * 4096 + 0u32 * 256 + (u / 16) * 16 + u % 16) as u32;
            assert(code == u);
            assert(spec_valid_scalar(code));
            vstd::utf8::char_u32_cast(c, code);
            assert(code as char == c);
            assert(seq![c] + s.skip(1) =~= s);
        } else {
            assert(i[0] == c);
            assert(i.skip(1) =~= tail);
            assert(seq![c] + s.skip(1) =~= s);
        }
    }
}

/// A numeric lexeme followed by a non-numeric character is read back
/// whole and exactly.
proof fn lemma_num_prefix(s: Seq<char>, rest: Seq<char>)
    requires
        forall|k: int| 0 <= k < s.len() ==> spec_num_char(#[trigger] s[k]),
        rest.len() > 0 ==> !spec_num_char(rest[0]),
    ensures
        spec_num_prefix_len(s + rest) == s.len(),
    decreases s.len(),
{
    if s.len() == 0 {
        assert(s + rest =~= rest);
    } else {
        assert((s + rest)[0] == s[0]);
        assert((s + rest).skip(1) =~= s.skip(1) + rest);
        lemma_num_prefix(s.skip(1), rest);
    }
}

/// The serialized form of a well-formed value is nonempty and opens with
/// a character that is neither whitespace nor a closing delimiter.
proof fn lemma_ser_first_char(j: JsonV)
    requires
        json_wf(j),
    ensures
        spec_ser(j).len() > 0,
        !spec_ws_char(spec_ser(j)[0]),
        spec_ser(j)[0] != ']',
        spec_ser(j)[0] != '}',
        spec_ser(j)[0] != ',',
{
    match j {
        JsonV::Null => {
            reveal_strlit("null");
        },
        JsonV::Bool(b) => {
            reveal_strlit("true");
            reveal_strlit("false");
        },
        JsonV::Num(s) => {
            assert(s[0] == '-' || spec_digit(s[0]));
        },
        JsonV::Str(s) => {
            assert(spec_ser(j)[0] == '"');
        },
        JsonV::Arr(items) => {
            assert(spec_ser(j)[0] == '[');
        },
        JsonV::Obj(fields) => {
            assert(spec_ser(j)[0] == '{');
        },
    }
}

/// Parsing after the serializer: one well-formed value followed by text
/// that cannot extend a trailing number reads back as exactly that value
/// with the text untouched.
#[verifier::rlimit(100)]
pub proof fn lemma_parse_ser_value(j: JsonV, rest: Seq<char>)
    requires
        json_wf(j),
        rest.len() > 0 ==> !spec_num_char(rest[0]),
    ensures
        spec_parse_value(spec_ser(j) + rest) == Some((j, rest)),
    decreases j, 0int,
{
    let i = spec_ser(j) + rest;
    lemma_ser_first_char(j);
    assert(i[0] == spec_ser(j)[0]);
    match j {
        JsonV::Null => {
            reveal_strlit("null");
            assert(i.len() >= 4);
            assert(i.subrange(0, 4) =~= "null"@);
            assert(i.skip(4) =~= rest);
        },
        JsonV::Bool(b) => {
            reveal_strlit("true");
            reveal_strlit("false");
            if b {
                assert(i.len() >= 4);
                assert(i.subrange(0, 4) =~= "true"@);
                assert(i.skip(4) =~= rest);
            } else {
                assert(i.len() >= 5);
                assert(i.subrange(0, 5) =~= "false"@);
                assert(i.skip(5) =~= rest);
            }
        },
        JsonV::Num(s) => {
            assert(i =~= s + rest);
            lemma_num_prefix(s, rest);
            let k = spec_num_prefix_len(i);
            assert(k == s.len());
            assert(i.take(k) =~= s);
            assert(i.skip(k) =~= rest);
        },
        JsonV::Str(s) => {
            assert(i[0] == '"');
            assert(i.skip(1) =~= spec_escape(s) + seq!['"'] + rest);
            lemma_escape_roundtrip(s, rest);
        },
        JsonV::Arr(items) => {
            assert(i[0] == '[');
            assert(i.skip(1) =~= spec_ser_items(items) + seq![']'] + rest);
            lemma_parse_ser_items(items, rest);
        },
        JsonV::Obj(fields) => {
            assert(i[0] == '{');
            assert(i.skip(1) =~= spec_ser_fields(fields) + seq!['}'] + rest);
            lemma_parse_ser_fields(fields, rest);
        },
    }
}

/// The serialized items of an array, the closing bracket, and trailing
/// text read back as exactly those items.
#[verifier::rlimit(100)]
proof fn lemma_parse_ser_items(items: Seq<JsonV>, rest: Seq<char>)
    requires
        forall|k: int| 0 <= k < items.len() ==> json_wf(#[trigger] items[k]),
    ensures
        spec_parse_array_rest(spec_ser_items(items) + seq![']'] + rest) == Some((items, rest)),
    decreases items, 1int,
{
    let i = spec_ser_items(items) + seq![']'] + rest;
    if items.len() == 0 {
        assert(spec_ser_items(items) == Seq::<char>::empty());
        assert(i[0] == ']');
        assert(i.skip(1) =~= rest);
        assert(Seq::<JsonV>::empty() =~= items);
    } else {
        let v0 = items[0];
        let rest1 = (if items.len() == 1 {
            Seq::<char>::empty()
        } else {
            seq![','] + spec_ser_items(items.skip(1))
        }) + seq![']'] + rest;
        assert(i =~= spec_ser(v0) + rest1);
        lemma_ser_first_char(v0);
        assert(i[0] == spec_ser(v0)[0]);
        assert(rest1[0] == ',' || rest1[0] == ']');
        assert(!spec_num_char(rest1[0]));
        lemma_parse_ser_value(v0, rest1);
        assert(spec_parse_value(i) == Some((v0, rest1)));
        assert(rest1.len() < i.len());
        lemma_parse_ser_array_tail(items.skip(1), rest);
        assert((if items.skip(1).len() == 0 {
            Seq::<char>::empty()
        } else {
            seq![','] + spec_ser_items(items.skip(1))
        }) + seq![']'] + rest =~= rest1);
        assert(spec_parse_array_tail(rest1) == Some((items.skip(1), rest)));
        assert(seq![v0] + items.skip(1) =~= items);
    }
}

/// After an element: the remaining serialized items, the closing bracket,
/// and trailing text read back as exactly those items.
#[verifier::rlimit(100)]
proof fn lemma_parse_ser_array_tail(items: Seq<JsonV>, rest: Seq<char>)
    requires
        forall|k: int| 0 <= k < items.len() ==> json_wf(#[trigger] items[k]),
    ensures
        spec_parse_array_tail((if items.len() == 0 {
            Seq::<char>::empty()
        } else {
            seq![','] + spec_ser_items(items)
        }) + seq![']'] + rest) == Some((items, rest)),
    decreases items, 2int,
{
    let i = (if items.len() == 0 {
        Seq::<char>::empty()
    } else {
        seq![','] + spec_ser_items(items)
    }) + seq![']'] + rest;
    if items.len() == 0 {
        assert(i[0] == ']');
        assert(i.skip(1) =~= rest);
        assert(Seq::<JsonV>::empty() =~= items);
    } else {
        assert(i[0] == ',');
        let v0 = items[0];
        let rest1 = (if items.len() == 1 {
            Seq::<char>::empty()
        } else {
            seq![','] + spec_ser_items(items.skip(1))
        }) + seq![']'] + rest;
        assert(i.skip(1) =~= spec_ser(v0) + rest1);
        lemma_ser_first_char(v0);
        assert(rest1[0] == ',' || rest1[0] == ']');
        assert(!spec_num_char(rest1[0]));
        lemma_parse_ser_value(v0, rest1);
        assert(spec_parse_value(i.skip(1)) == Some((v0, rest1)));
        assert(rest1.len() < i.len());
        lemma_parse_ser_array_tail(items.skip(1), rest);
        assert((if items.skip(1).len() == 0 {
            Seq::<char>::empty()
        } else {
            seq![','] + spec_ser_items(items.skip(1))
        }) + seq![']'] + rest =~= rest1);
        assert(spec_parse_array_tail(rest1) == Some((items.skip(1), rest)));
        assert(seq![v0] + items.skip(1) =~= items);
    }
}

/// One serialized member and trailing text read back as its key and
/// value.
proof fn lemma_parse_ser_member(field: (Seq<char>, JsonV), rest1: Seq<char>)
    requires
        json_wf(field.1),
        rest1.len() > 0 ==> !spec_num_char(rest1[0]),
    ensures
        spec_parse_key(spec_ser_field(field) + rest1) == Some(
            (field.0, seq![':'] + spec_ser(field.1) + rest1),
        ),
        spec_parse_colon_value(seq![':'] + spec_ser(field.1) + rest1) == Some(
            (field.1, rest1),
        ),
    decreases field, 3int,
{
    let i = spec_ser_field(field) + rest1;
    let after_key = seq![':'] + spec_ser(field.1) + rest1;
    assert(i[0] == '"');
    assert(i.skip(1) =~= spec_escape(field.0) + seq!['"'] + after_key);
    lemma_escape_roundtrip(field.0, after_key);
    assert(spec_parse_key(i) == Some((field.0, after_key)));
    assert(after_key[0] == ':');
    assert(after_key.skip(1) =~= spec_ser(field.1) + rest1);
    lemma_parse_ser_value(field.1, rest1);
}

/// The serialized members of an object, the closing brace, and trailing
/// text read back as exactly those members.
#[verifier::rlimit(100)]
proof fn lemma_parse_ser_fields(fields: Seq<(Seq<char>, JsonV)>, rest: Seq<char>)
    requires
        forall|k: int| 0 <= k < fields.len() ==> json_wf((#[trigger] fields[k]).1),
    ensures
        spec_parse_obj_rest(spec_ser_fields(fields) + seq!['}'] + rest) == Some(
            (fields, rest),
        ),
    decreases fields, 1int,
{
    let i = spec_ser_fields(fields) + seq!['}'] + rest;
    if fields.len() == 0 {
        assert(spec_ser_fields(fields) == Seq::<char>::empty());
        assert(i[0] == '}');
        assert(i.skip(1) =~= rest);
        assert(Seq::<(Seq<char>, JsonV)>::empty() =~= fields);
    } else {
        let f0 = fields[0];
        let rest1 = (if fields.len() == 1 {
            Seq::<char>::empty()
        } else {
            seq![','] + spec_ser_fields(fields.skip(1))
        }) + seq!['}'] + rest;
        assert(i =~= spec_ser_field(f0) + rest1);
        assert(i[0] == '"');
        assert(rest1[0] == ',' || rest1[0] == '}');
        assert(!spec_num_char(rest1[0]));
        lemma_parse_ser_member(f0, rest1);
        let after_key = seq![':'] + spec_ser(f0.1) + rest1;
        assert(spec_parse_key(i) == Some((f0.0, after_key)));
        assert(after_key.len() < i.len());
        assert(spec_parse_colon_value(after_key) == Some((f0.1, rest1)));
        assert(rest1.len() < i.len());
        lemma_parse_ser_obj_tail(fields.skip(1), rest);
        assert((if fields.skip(1).len() == 0 {
            Seq::<char>::empty()
        } else {
            seq![','] + spec_ser_fields(fields.skip(1))
        }) + seq!['}'] + rest =~= rest1);
        assert(spec_parse_obj_tail(rest1) == Some((fields.skip(1), rest)));
        assert(seq![f0] + fields.skip(1) =~= fields);
    }
}

/// After a member: the remaining serialized members, the closing brace,
/// and trailing text read back as exactly those members.
#[verifier::rlimit(100)]
proof fn lemma_parse_ser_obj_tail(fields: Seq<(Seq<char>, JsonV)>, rest: Seq<char>)
    requires
        forall|k: int| 0 <= k < fields.len() ==> json_wf((#[trigger] fields[k]).1),
    ensures
        spec_parse_obj_tail((if fields.len() == 0 {
            Seq::<char>::empty()
        } else {
            seq![','] + spec_ser_fields(fields)
        }) + seq!['}'] + rest) == Some((fields, rest)),
    decreases fields, 2int,
{
    let i = (if fields.len() == 0 {
        Seq::<char>::empty()
    } else {
        seq![','] + spec_ser_fields(fields)
    }) + seq!['}'] + rest;
    if fields.len() == 0 {
        assert(i[0] == '}');
        assert(i.skip(1) =~= rest);
        assert(Seq::<(Seq<char>, JsonV)>::empty() =~= fields);
    } else {
        assert(i[0] == ',');
        let f0 = fields[0];
        let rest1 = (if fields.len() == 1 {
            Seq::<char>::empty()
        } else {
            seq![','] + spec_ser_fields(fields.skip(1))
        }) + seq!['}'] + rest;
        assert(i.skip(1) =~= spec_ser_field(f0) + rest1);
        assert(rest1[0] == ',' || rest1[0] == '}');
        assert(!spec_num_char(rest1[0]));
        lemma_parse_ser_member(f0, rest1);
        let after_key = seq![':'] + spec_ser(f0.1) + rest1;
        assert(spec_parse_key(i.skip(1)) == Some((f0.0, after_key)));
        assert(after_key.len() < i.len());
        assert(spec_parse_colon_value(after_key) == Some((f0.1, rest1)));
        assert(rest1.len() < i.len());
        lemma_parse_ser_obj_tail(fields.skip(1), rest);
        assert((if fields.skip(1).len() == 0 {
            Seq::<char>::empty()
        } else {
            seq![','] + spec_ser_fields(fields.skip(1))
        }) + seq!['}'] + rest =~= rest1);
        assert(spec_parse_obj_tail(rest1) == Some((fields.skip(1), rest)));
        assert(seq![f0] + fields.skip(1) =~= fields);
    }
}

/// The document round trip: every well-formed value, serialized and
/// parsed back, is returned unchanged.
pub proof fn lemma_json_round_trip(j: JsonV)
    requires
        json_wf(j),
    ensures
        spec_parse_json(spec_ser(j)) == Some(j),
{
    lemma_parse_ser_value(j, Seq::<char>::empty());
    assert(spec_ser(j) + Seq::<char>::empty() =~= spec_ser(j));
    assert(spec_all_ws(Seq::<char>::empty()));
}

} // verus!
