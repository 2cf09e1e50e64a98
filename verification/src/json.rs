//! JSON values, the pretty layout in which the report is written, and a
//! reader of JSON text, with the proof that what is written reads back.
use vstd::prelude::*;
use crate::model::{escape_char, escape_json_text, hex_digit, hex_value, lemma_escape_front, push_escaped};
use crate::text::{decimal, digit_char, digit_value, digits_value, is_digit, push_char, push_decimal, string_from};

verus! {

/// A JSON value. Numbers are the non-negative integers that the report holds.
pub enum JsonValue {
    Null,
    Bool(bool),
    Number(nat),
    Text(Seq<char>),
    Array(Seq<JsonValue>),
    Object(Seq<(Seq<char>, JsonValue)>),
}

// ---------------------------------------------------------------------------
// Writing
// ---------------------------------------------------------------------------

/// `n` spaces.
pub open spec fn spaces(n: nat) -> Seq<char> {
    Seq::new(n, |i: int| ' ')
}

/// A text as a JSON string: escaped, between double quotes.
pub open spec fn quoted(t: Seq<char>) -> Seq<char> {
    seq!['"'] + escape_json_text(t) + seq!['"']
}

pub open spec fn null_text() -> Seq<char> {
    seq!['n', 'u', 'l', 'l']
}

pub open spec fn truth_text(b: bool) -> Seq<char> {
    if b {
        seq!['t', 'r', 'u', 'e']
    } else {
        seq!['f', 'a', 'l', 's', 'e']
    }
}

/// A value in the pretty layout, as it stands at nesting depth `d`: each item
/// of an array and each member of an object on a line of its own, indented
/// by two spaces per level, and the closing bracket on a line of its own.
pub open spec fn render(v: JsonValue, d: nat) -> Seq<char>
    decreases v, 0int,
{
    match v {
        JsonValue::Null => null_text(),
        JsonValue::Bool(b) => truth_text(b),
        JsonValue::Number(n) => decimal(n),
        JsonValue::Text(t) => quoted(t),
        JsonValue::Array(vs) => seq!['[', '\n'] + render_items(vs, 0, d),
        JsonValue::Object(fs) => seq!['{', '\n'] + render_members(fs, 0, d),
    }
}

/// The items of an array from the `i`-th on, and the line that closes it.
pub open spec fn render_items(vs: Seq<JsonValue>, i: nat, d: nat) -> Seq<char>
    decreases vs, vs.len() - i,
{
    if i < vs.len() {
        (if i == 0 { Seq::empty() } else { seq![',', '\n'] }) + spaces(2 * d + 2) + render(vs[i as int], d + 1)
            + render_items(vs, i + 1, d)
    } else {
        seq!['\n'] + spaces(2 * d) + seq![']']
    }
}

/// One member of an object: its key, a colon and its value.
pub open spec fn render_member(f: (Seq<char>, JsonValue), d: nat) -> Seq<char>
    decreases f, 1int,
{
    quoted(f.0) + seq![':', ' '] + render(f.1, d + 1)
}

/// The members of an object from the `i`-th on, and the line that closes it.
pub open spec fn render_members(fs: Seq<(Seq<char>, JsonValue)>, i: nat, d: nat) -> Seq<char>
    decreases fs, fs.len() - i,
{
    if i < fs.len() {
        (if i == 0 { Seq::empty() } else { seq![',', '\n'] }) + spaces(2 * d + 2) + render_member(fs[i as int], d)
            + render_members(fs, i + 1, d)
    } else {
        seq!['\n'] + spaces(2 * d) + seq!['}']
    }
}

// ---------------------------------------------------------------------------
// Reading
// ---------------------------------------------------------------------------

/// The white space that JSON allows between tokens.
pub open spec fn is_json_space(c: char) -> bool {
    c == ' ' || c == '\n' || c == '\r' || c == '\t'
}

pub open spec fn all_space(w: Seq<char>) -> bool {
    forall|i: int| 0 <= i < w.len() ==> is_json_space(#[trigger] w[i])
}

/// The text after its leading white space.
pub open spec fn skip_space(s: Seq<char>) -> Seq<char>
    decreases s.len(),
{
    if s.len() > 0 && is_json_space(s[0]) {
        skip_space(s.drop_first())
    } else {
        s
    }
}

pub proof fn lemma_skip_space_shortens(s: Seq<char>)
    ensures
        skip_space(s).len() <= s.len(),
    decreases s.len(),
{
    if s.len() > 0 && is_json_space(s[0]) {
        lemma_skip_space_shortens(s.drop_first());
    }
}

pub open spec fn is_hex(c: char) -> bool {
    let u = c as u32;
    (48 <= u <= 57) || (97 <= u <= 102) || (65 <= u <= 70)
}

/// The character that a two-character escape stands for.
pub open spec fn short_escape(c: char) -> Option<char> {
    if c == '"' {
        Some('"')
    } else if c == '\\' {
        Some('\\')
    } else if c == '/' {
        Some('/')
    } else if c == 'b' {
        Some('\u{8}')
    } else if c == 'f' {
        Some('\u{c}')
    } else if c == 'n' {
        Some('\n')
    } else if c == 'r' {
        Some('\r')
    } else if c == 't' {
        Some('\t')
    } else {
        None
    }
}

/// The inside of a JSON string, read up to its closing quote: the text it
/// stands for and what follows the quote. Raw control characters and unknown
/// escapes are refused; a `\u` escape names one character outside the
/// surrogate range.
pub open spec fn read_text(s: Seq<char>) -> Option<(Seq<char>, Seq<char>)>
    decreases s.len(),
{
    if s.len() == 0 {
        None
    } else if s[0] == '"' {
        Some((Seq::empty(), s.drop_first()))
    } else if s[0] == '\\' {
        if s.len() < 2 {
            None
        } else if s[1] == 'u' {
            if s.len() >= 6 && is_hex(s[2]) && is_hex(s[3]) && is_hex(s[4]) && is_hex(s[5]) {
                let v = hex_value(s[2]) * 4096 + hex_value(s[3]) * 256 + hex_value(s[4]) * 16 + hex_value(s[5]);
                if 0xD800 <= v < 0xE000 {
                    None
                } else {
                    match read_text(s.subrange(6, s.len() as int)) {
                        Some((t, r)) => Some((seq![(v as u32) as char] + t, r)),
                        None => None,
                    }
                }
            } else {
                None
            }
        } else {
            match short_escape(s[1]) {
                Some(c) => match read_text(s.subrange(2, s.len() as int)) {
                    Some((t, r)) => Some((seq![c] + t, r)),
                    None => None,
                },
                None => None,
            }
        }
    } else if (s[0] as u32) < 0x20 {
        None
    } else {
        match read_text(s.drop_first()) {
            Some((t, r)) => Some((seq![s[0]] + t, r)),
            None => None,
        }
    }
}

/// How many digits the text starts with.
pub open spec fn digit_run(s: Seq<char>) -> nat
    decreases s.len(),
{
    if s.len() > 0 && is_digit(s[0]) {
        1 + digit_run(s.drop_first())
    } else {
        0
    }
}

/// A non-negative integer without leading zeros.
pub open spec fn read_number(s: Seq<char>) -> Option<(JsonValue, Seq<char>)> {
    let k = digit_run(s);
    if k == 0 || (k > 1 && s[0] == '0') {
        None
    } else {
        Some((JsonValue::Number(digits_value(s.take(k as int)) as nat), s.skip(k as int)))
    }
}

/// One value after optional white space, and what follows it.
pub open spec fn read_value(s: Seq<char>) -> Option<(JsonValue, Seq<char>)>
    decreases s.len(), 0int,
{
    let t = skip_space(s);
    proof {
        lemma_skip_space_shortens(s);
    }
    if t.len() == 0 {
        None
    } else if t[0] == '"' {
        match read_text(t.drop_first()) {
            Some((x, r)) => Some((JsonValue::Text(x), r)),
            None => None,
        }
    } else if t[0] == '[' {
        match read_array(t.drop_first()) {
            Some((vs, r)) => Some((JsonValue::Array(vs), r)),
            None => None,
        }
    } else if t[0] == '{' {
        match read_object(t.drop_first()) {
            Some((fs, r)) => Some((JsonValue::Object(fs), r)),
            None => None,
        }
    } else if t.len() >= 4 && t.take(4) == null_text() {
        Some((JsonValue::Null, t.skip(4)))
    } else if t.len() >= 4 && t.take(4) == truth_text(true) {
        Some((JsonValue::Bool(true), t.skip(4)))
    } else if t.len() >= 5 && t.take(5) == truth_text(false) {
        Some((JsonValue::Bool(false), t.skip(5)))
    } else {
        read_number(t)
    }
}

/// The items of an array after its opening bracket, up to the closing one.
pub open spec fn read_array(s: Seq<char>) -> Option<(Seq<JsonValue>, Seq<char>)>
    decreases s.len(), 2int,
{
    let t = skip_space(s);
    if t.len() > 0 && t[0] == ']' {
        Some((Seq::empty(), t.drop_first()))
    } else {
        read_elements(s)
    }
}

/// One or more values separated by commas, up to the closing bracket.
pub open spec fn read_elements(s: Seq<char>) -> Option<(Seq<JsonValue>, Seq<char>)>
    decreases s.len(), 1int,
{
    match read_value(s) {
        Some((v, r)) => {
            let u = skip_space(r);
            proof {
                lemma_skip_space_shortens(r);
            }
            if u.len() > 0 && u[0] == ']' {
                Some((seq![v], u.drop_first()))
            } else if u.len() > 0 && u[0] == ',' && r.len() < s.len() {
                match read_elements(u.drop_first()) {
                    Some((vs, r2)) => Some((seq![v] + vs, r2)),
                    None => None,
                }
            } else {
                None
            }
        },
        None => None,
    }
}

/// The members of an object after its opening brace, up to the closing one.
pub open spec fn read_object(s: Seq<char>) -> Option<(Seq<(Seq<char>, JsonValue)>, Seq<char>)>
    decreases s.len(), 2int,
{
    let t = skip_space(s);
    if t.len() > 0 && t[0] == '}' {
        Some((Seq::empty(), t.drop_first()))
    } else {
        read_members(s)
    }
}

/// One or more `"key": value` members separated by commas, up to the
/// closing brace.
pub open spec fn read_members(s: Seq<char>) -> Option<(Seq<(Seq<char>, JsonValue)>, Seq<char>)>
    decreases s.len(), 1int,
{
    let t = skip_space(s);
    if t.len() > 0 && t[0] == '"' {
        match read_text(t.drop_first()) {
            Some((k, r1)) => {
                let u = skip_space(r1);
                proof {
                    lemma_skip_space_shortens(r1);
                }
                if u.len() > 0 && u[0] == ':' && r1.len() < s.len() {
                    match read_value(u.drop_first()) {
                        Some((v, r2)) => {
                            let w = skip_space(r2);
                            proof {
                                lemma_skip_space_shortens(r2);
                            }
                            if w.len() > 0 && w[0] == '}' {
                                Some((seq![(k, v)], w.drop_first()))
                            } else if w.len() > 0 && w[0] == ',' && r2.len() < s.len() {
                                match read_members(w.drop_first()) {
                                    Some((fs, r3)) => Some((seq![(k, v)] + fs, r3)),
                                    None => None,
                                }
                            } else {
                                None
                            }
                        },
                        None => None,
                    }
                } else {
                    None
                }
            },
            None => None,
        }
    } else {
        None
    }
}

/// A whole JSON document: one value, and nothing after it but white space.
pub open spec fn parse_json(s: Seq<char>) -> Option<JsonValue> {
    match read_value(s) {
        Some((v, r)) => if skip_space(r).len() == 0 {
            Some(v)
        } else {
            None
        },
        None => None,
    }
}

// ---------------------------------------------------------------------------
// What is written reads back
// ---------------------------------------------------------------------------

proof fn lemma_skip_to(w: Seq<char>, x: Seq<char>)
    requires
        all_space(w),
        x.len() > 0,
        !is_json_space(x[0]),
    ensures
        skip_space(w + x) == x,
    decreases w.len(),
{
    if w.len() == 0 {
        assert(w + x =~= x);
    } else {
        assert((w + x)[0] == w[0]);
        assert((w + x).drop_first() =~= w.drop_first() + x);
        lemma_skip_to(w.drop_first(), x);
    }
}

proof fn lemma_hex_digit(n: nat)
    requires
        n < 16,
    ensures
        is_hex(hex_digit(n)),
        hex_value(hex_digit(n)) == n,
{
}

/// One escaped character, read back.
proof fn lemma_read_escaped_char(c: char, tail: Seq<char>)
    ensures
        read_text(escape_char(c) + tail) == (match read_text(tail) {
            Some((t, r)) => Some((seq![c] + t, r)),
            None => None,
        }),
{
    let e = escape_char(c);
    let x = e + tail;
    if e.len() == 1 {
        assert(x[0] == c);
        assert(x.drop_first() =~= tail);
    } else if e.len() == 2 {
        assert(x[0] == '\\');
        assert(x[1] == e[1]);
        assert(x.subrange(2, x.len() as int) =~= tail);
    } else {
        let u = c as u32;
        let hi = (u / 16) as nat;
        let lo = (u % 16) as nat;
        lemma_hex_digit(hi);
        lemma_hex_digit(lo);
        assert(x[0] == '\\' && x[1] == 'u' && x[2] == '0' && x[3] == '0');
        assert(x[4] == hex_digit(hi) && x[5] == hex_digit(lo));
        assert(x.subrange(6, x.len() as int) =~= tail);
        assert(hi * 16 + lo == u);
        assert(((u as int) as u32) as char == c);
    }
}

/// An escaped text followed by a closing quote reads back as the text.
pub proof fn lemma_read_quoted(t: Seq<char>, rest: Seq<char>)
    ensures
        read_text(escape_json_text(t) + seq!['"'] + rest) == Some((t, rest)),
    decreases t.len(),
{
    if t.len() == 0 {
        assert(escape_json_text(t) == Seq::<char>::empty());
        let x = escape_json_text(t) + seq!['"'] + rest;
        assert(x[0] == '"');
        assert(x.drop_first() =~= rest);
        assert(t =~= Seq::<char>::empty());
    } else {
        let c = t[0];
        let tail = t.drop_first();
        assert(t =~= seq![c] + tail);
        lemma_escape_front(c, tail);
        lemma_read_quoted(tail, rest);
        assert(escape_json_text(t) + seq!['"'] + rest =~= escape_char(c) + (escape_json_text(tail) + seq!['"']
            + rest));
        lemma_read_escaped_char(c, escape_json_text(tail) + seq!['"'] + rest);
    }
}

proof fn lemma_decimal_digits(n: nat)
    ensures
        decimal(n).len() > 0,
        forall|i: int| 0 <= i < decimal(n).len() ==> is_digit(#[trigger] decimal(n)[i]),
        digits_value(decimal(n)) == n,
        n >= 10 ==> decimal(n)[0] != '0',
    decreases n,
{
    if n >= 10 {
        lemma_decimal_digits(n / 10);
        lemma_digit_char((n % 10) as nat);
        let p = decimal(n / 10);
        let q = p.push(digit_char((n % 10) as nat));
        assert(q.drop_last() =~= p);
        assert(q.last() == digit_char((n % 10) as nat));
        assert(digits_value(q) == digits_value(p) * 10 + digit_value(q.last()));
        assert(q[0] == p[0]);
        if n / 10 < 10 {
            assert(p[0] == digit_char(n / 10));
            lemma_digit_char(n / 10);
        }
    } else {
        lemma_digit_char(n);
        let q = seq![digit_char(n)];
        assert(q.drop_last() =~= Seq::<char>::empty());
        assert(digits_value(q) == digits_value(q.drop_last()) * 10 + digit_value(q.last()));
    }
}

proof fn lemma_digit_char(k: nat)
    requires
        k < 10,
    ensures
        is_digit(digit_char(k)),
        digit_value(digit_char(k)) == k,
        k > 0 ==> digit_char(k) != '0',
{
}

proof fn lemma_digit_run(ds: Seq<char>, rest: Seq<char>)
    requires
        forall|i: int| 0 <= i < ds.len() ==> is_digit(#[trigger] ds[i]),
        rest.len() == 0 || !is_digit(rest[0]),
    ensures
        digit_run(ds + rest) == ds.len(),
    decreases ds.len(),
{
    if ds.len() == 0 {
        assert(ds + rest =~= rest);
    } else {
        assert((ds + rest)[0] == ds[0]);
        assert((ds + rest).drop_first() =~= ds.drop_first() + rest);
        lemma_digit_run(ds.drop_first(), rest);
    }
}

/// A number in decimal reads back, when no digit follows it.
pub proof fn lemma_read_decimal(n: nat, rest: Seq<char>)
    requires
        rest.len() == 0 || !is_digit(rest[0]),
    ensures
        read_number(decimal(n) + rest) == Some((JsonValue::Number(n), rest)),
{
    lemma_decimal_digits(n);
    lemma_digit_run(decimal(n), rest);
    let x = decimal(n) + rest;
    let k = decimal(n).len();
    assert(x.take(k as int) =~= decimal(n));
    assert(x.skip(k as int) =~= rest);
    if k > 1 {
        assert(n >= 10);
        assert(x[0] == decimal(n)[0]);
    }
}

proof fn lemma_line_break_space(n: nat)
    ensures
        all_space(seq!['\n'] + spaces(n)),
        all_space(seq![' ']),
{
    let w = seq!['\n'] + spaces(n);
    assert forall|i: int| 0 <= i < w.len() implies is_json_space(#[trigger] w[i]) by {
        if i > 0 {
            assert(w[i] == spaces(n)[i - 1]);
        }
    }
    let b = seq![' '];
    assert forall|i: int| 0 <= i < b.len() implies is_json_space(#[trigger] b[i]) by {}
}

/// A rendered value is never empty, and it starts with neither white space
/// nor a closing bracket, brace or comma.
proof fn lemma_render_first(v: JsonValue, d: nat)
    ensures
        render(v, d).len() > 0,
        !is_json_space(render(v, d)[0]),
        render(v, d)[0] != ']',
        render(v, d)[0] != '}',
        render(v, d)[0] != ',',
{
    match v {
        JsonValue::Number(n) => {
            lemma_decimal_digits(n);
            assert(is_digit(decimal(n)[0]));
        },
        JsonValue::Text(t) => {
            assert(quoted(t)[0] == '"');
        },
        JsonValue::Array(vs) => {
            assert(render(v, d)[0] == '[');
        },
        JsonValue::Object(fs) => {
            assert(render(v, d)[0] == '{');
        },
        _ => {},
    }
}

/// A rendered value reads back as itself, after any white space and before
/// anything that does not start with a digit.
pub proof fn lemma_read_rendered(v: JsonValue, d: nat, w: Seq<char>, rest: Seq<char>)
    requires
        all_space(w),
        rest.len() == 0 || !is_digit(rest[0]),
    ensures
        read_value(w + render(v, d) + rest) == Some((v, rest)),
    decreases v, 0int,
{
    match v {
        JsonValue::Array(vs) => lemma_read_array(vs, d, w, rest),
        JsonValue::Object(fs) => lemma_read_object(fs, d, w, rest),
        _ => lemma_read_scalar(v, d, w, rest),
    }
}

proof fn lemma_read_scalar(v: JsonValue, d: nat, w: Seq<char>, rest: Seq<char>)
    requires
        all_space(w),
        rest.len() == 0 || !is_digit(rest[0]),
        !(v is Array),
        !(v is Object),
    ensures
        read_value(w + render(v, d) + rest) == Some((v, rest)),
{
    let x = render(v, d) + rest;
    assert(w + render(v, d) + rest =~= w + x);
    lemma_render_first(v, d);
    assert(x[0] == render(v, d)[0]);
    lemma_skip_to(w, x);
    match v {
        JsonValue::Number(n) => lemma_read_number_after(n, x, rest),
        JsonValue::Text(t) => {
            assert(x.drop_first() =~= escape_json_text(t) + seq!['"'] + rest);
            lemma_read_quoted(t, rest);
        },
        _ => lemma_read_literal(v, d, x, rest),
    }
}

proof fn lemma_read_number_after(n: nat, x: Seq<char>, rest: Seq<char>)
    requires
        x == decimal(n) + rest,
        rest.len() == 0 || !is_digit(rest[0]),
    ensures
        read_value(x) == Some((JsonValue::Number(n), rest)),
{
    lemma_decimal_digits(n);
    assert(x[0] == decimal(n)[0]);
    assert(is_digit(x[0]));
    assert(skip_space(x) == x);
    if x.len() >= 4 {
        assert(x.take(4)[0] == x[0]);
    }
    if x.len() >= 5 {
        assert(x.take(5)[0] == x[0]);
    }
    lemma_read_decimal(n, rest);
}

proof fn lemma_read_literal(v: JsonValue, d: nat, x: Seq<char>, rest: Seq<char>)
    requires
        x == render(v, d) + rest,
        v is Null || v is Bool,
    ensures
        read_value(x) == Some((v, rest)),
{
    assert(skip_space(x) == x);
    match v {
        JsonValue::Null => {
            assert(x.take(4) =~= null_text());
            assert(x.skip(4) =~= rest);
        },
        JsonValue::Bool(b) => {
            if b {
                assert(x.take(4) =~= truth_text(true));
                assert(x.skip(4) =~= rest);
            } else {
                assert(x.take(4)[0] == 'f');
                assert(x.take(5) =~= truth_text(false));
                assert(x.skip(5) =~= rest);
            }
        },
        _ => {},
    }
}

proof fn lemma_read_array(vs: Seq<JsonValue>, d: nat, w: Seq<char>, rest: Seq<char>)
    requires
        all_space(w),
    ensures
        read_value(w + render(JsonValue::Array(vs), d) + rest) == Some((JsonValue::Array(vs), rest)),
    decreases vs, vs.len() + 1,
{
    let v = JsonValue::Array(vs);
    let x = render(v, d) + rest;
    assert(w + render(v, d) + rest =~= w + x);
    lemma_render_first(v, d);
    assert(x[0] == '[');
    lemma_skip_to(w, x);
    let y = x.drop_first();
    assert(y =~= seq!['\n'] + render_items(vs, 0, d) + rest);
    if vs.len() == 0 {
        let w1 = seq!['\n'] + (seq!['\n'] + spaces(2 * d));
        assert(y =~= w1 + (seq![']'] + rest));
        assert forall|i: int| 0 <= i < w1.len() implies is_json_space(#[trigger] w1[i]) by {
            if i > 1 {
                assert(w1[i] == spaces(2 * d)[i - 2]);
            }
        }
        lemma_skip_to(w1, seq![']'] + rest);
        assert((seq![']'] + rest).drop_first() =~= rest);
        assert(vs =~= Seq::<JsonValue>::empty());
    } else {
        let w2 = seq!['\n'] + spaces(2 * d + 2);
        lemma_line_break_space(2 * d + 2);
        lemma_render_first(vs[0], d + 1);
        let z = render(vs[0], d + 1) + render_items(vs, 1, d) + rest;
        assert(y =~= w2 + z);
        assert(z[0] == render(vs[0], d + 1)[0]);
        lemma_skip_to(w2, z);
        assert(w2 + z =~= w2 + render(vs[0], d + 1) + render_items(vs, 1, d) + rest);
        lemma_read_elements(vs, 0, d, w2, rest);
        assert(vs.skip(0) =~= vs);
    }
}

proof fn lemma_read_object(fs: Seq<(Seq<char>, JsonValue)>, d: nat, w: Seq<char>, rest: Seq<char>)
    requires
        all_space(w),
    ensures
        read_value(w + render(JsonValue::Object(fs), d) + rest) == Some((JsonValue::Object(fs), rest)),
    decreases fs, fs.len() + 1,
{
    let v = JsonValue::Object(fs);
    let x = render(v, d) + rest;
    assert(w + render(v, d) + rest =~= w + x);
    lemma_render_first(v, d);
    assert(x[0] == '{');
    lemma_skip_to(w, x);
    let y = x.drop_first();
    assert(y =~= seq!['\n'] + render_members(fs, 0, d) + rest);
    if fs.len() == 0 {
        let w1 = seq!['\n'] + (seq!['\n'] + spaces(2 * d));
        assert(y =~= w1 + (seq!['}'] + rest));
        assert forall|i: int| 0 <= i < w1.len() implies is_json_space(#[trigger] w1[i]) by {
            if i > 1 {
                assert(w1[i] == spaces(2 * d)[i - 2]);
            }
        }
        lemma_skip_to(w1, seq!['}'] + rest);
        assert((seq!['}'] + rest).drop_first() =~= rest);
        assert(fs =~= Seq::<(Seq<char>, JsonValue)>::empty());
    } else {
        let w2 = seq!['\n'] + spaces(2 * d + 2);
        lemma_line_break_space(2 * d + 2);
        let z = render_member(fs[0], d) + render_members(fs, 1, d) + rest;
        assert(y =~= w2 + z);
        assert(z[0] == '"');
        lemma_skip_to(w2, z);
        assert(w2 + z =~= w2 + render_member(fs[0], d) + render_members(fs, 1, d) + rest);
        lemma_read_members(fs, 0, d, w2, rest);
        assert(fs.skip(0) =~= fs);
    }
}

proof fn lemma_read_elements(vs: Seq<JsonValue>, i: nat, d: nat, w: Seq<char>, rest: Seq<char>)
    requires
        i < vs.len(),
        all_space(w),
    ensures
        read_elements(w + render(vs[i as int], d + 1) + render_items(vs, i + 1, d) + rest) == Some(
            (vs.skip(i as int), rest),
        ),
    decreases vs, vs.len() - i,
{
    let r = render_items(vs, i + 1, d) + rest;
    let s = w + render(vs[i as int], d + 1) + render_items(vs, i + 1, d) + rest;
    assert(s =~= w + render(vs[i as int], d + 1) + r);
    lemma_render_first(vs[i as int], d + 1);
    if i + 1 < vs.len() {
        assert(r[0] == ',');
        lemma_read_rendered(vs[i as int], d + 1, w, r);
        let w2 = seq!['\n'] + spaces(2 * d + 2);
        lemma_line_break_space(2 * d + 2);
        assert(r.drop_first() =~= w2 + render(vs[(i + 1) as int], d + 1) + render_items(vs, i + 2, d) + rest);
        lemma_read_elements(vs, i + 1, d, w2, rest);
        assert(seq![vs[i as int]] + vs.skip((i + 1) as int) =~= vs.skip(i as int));
    } else {
        let w1 = seq!['\n'] + spaces(2 * d);
        lemma_line_break_space(2 * d);
        assert(r =~= w1 + (seq![']'] + rest));
        assert(r[0] == '\n');
        lemma_read_rendered(vs[i as int], d + 1, w, r);
        lemma_skip_to(w1, seq![']'] + rest);
        assert((seq![']'] + rest).drop_first() =~= rest);
        assert(seq![vs[i as int]] =~= vs.skip(i as int));
    }
}

proof fn lemma_read_members(
    fs: Seq<(Seq<char>, JsonValue)>,
    i: nat,
    d: nat,
    w: Seq<char>,
    rest: Seq<char>,
)
    requires
        i < fs.len(),
        all_space(w),
    ensures
        read_members(w + render_member(fs[i as int], d) + render_members(fs, i + 1, d) + rest) == Some(
            (fs.skip(i as int), rest),
        ),
    decreases fs, fs.len() - i,
{
    let k = fs[i as int].0;
    let v = fs[i as int].1;
    let r2 = render_members(fs, i + 1, d) + rest;
    let r1 = seq![':', ' '] + render(v, d + 1) + r2;
    let s = w + render_member(fs[i as int], d) + render_members(fs, i + 1, d) + rest;
    let q = seq!['"'] + (escape_json_text(k) + seq!['"'] + r1);
    assert(s =~= w + q);
    lemma_skip_to(w, q);
    assert(q.drop_first() =~= escape_json_text(k) + seq!['"'] + r1);
    lemma_read_quoted(k, r1);
    assert(r1[0] == ':');
    lemma_line_break_space(0);
    assert(r1.drop_first() =~= seq![' '] + render(v, d + 1) + r2);
    lemma_render_first(v, d + 1);
    if i + 1 < fs.len() {
        assert(r2[0] == ',');
        lemma_read_rendered(v, d + 1, seq![' '], r2);
        let w2 = seq!['\n'] + spaces(2 * d + 2);
        lemma_line_break_space(2 * d + 2);
        assert(r2.drop_first() =~= w2 + render_member(fs[(i + 1) as int], d) + render_members(fs, i + 2, d) + rest);
        lemma_read_members(fs, i + 1, d, w2, rest);
        assert(seq![(k, v)] + fs.skip((i + 1) as int) =~= fs.skip(i as int));
    } else {
        let w1 = seq!['\n'] + spaces(2 * d);
        lemma_line_break_space(2 * d);
        assert(r2 =~= w1 + (seq!['}'] + rest));
        assert(r2[0] == '\n');
        lemma_read_rendered(v, d + 1, seq![' '], r2);
        lemma_skip_to(w1, seq!['}'] + rest);
        assert((seq!['}'] + rest).drop_first() =~= rest);
        assert(seq![(k, v)] =~= fs.skip(i as int));
    }
}

/// Every value written in the pretty layout reads back, as a whole JSON
/// document, as that value.
pub proof fn rendered_json_reads_back(v: JsonValue)
    ensures
        parse_json(render(v, 0)) == Some(v),
{
    lemma_read_rendered(v, 0, Seq::empty(), Seq::empty());
    assert(Seq::<char>::empty() + render(v, 0) + Seq::<char>::empty() =~= render(v, 0));
}

// ---------------------------------------------------------------------------
// Writing, as the program does it
// ---------------------------------------------------------------------------

/// A JSON scalar as the program holds it.
pub enum JsonScalar {
    Null,
    Bool(bool),
    Number(u64),
    Text(String),
}

impl View for JsonScalar {
    type V = JsonValue;

    open spec fn view(&self) -> JsonValue {
        match self {
            JsonScalar::Null => JsonValue::Null,
            JsonScalar::Bool(b) => JsonValue::Bool(*b),
            JsonScalar::Number(n) => JsonValue::Number(*n as nat),
            JsonScalar::Text(t) => JsonValue::Text(t@),
        }
    }
}

/// The members of an object whose values are all scalars.
pub open spec fn fields_value(fs: Seq<(String, JsonScalar)>) -> Seq<(Seq<char>, JsonValue)> {
    fs.map_values(|f: (String, JsonScalar)| (f.0@, f.1@))
}

pub open spec fn flat_object(fs: Seq<(String, JsonScalar)>) -> JsonValue {
    JsonValue::Object(fields_value(fs))
}

/// A member of a document: a scalar, an object of scalars, or an array of
/// such objects.
pub enum JsonMember {
    Scalar(JsonScalar),
    Object(Vec<(String, JsonScalar)>),
    List(Vec<Vec<(String, JsonScalar)>>),
}

pub open spec fn flat_objects(os: Seq<Vec<(String, JsonScalar)>>) -> Seq<JsonValue> {
    os.map_values(|o: Vec<(String, JsonScalar)>| flat_object(o@))
}

impl View for JsonMember {
    type V = JsonValue;

    open spec fn view(&self) -> JsonValue {
        match self {
            JsonMember::Scalar(x) => x@,
            JsonMember::Object(fs) => flat_object(fs@),
            JsonMember::List(os) => JsonValue::Array(flat_objects(os@)),
        }
    }
}

pub open spec fn members_value(ms: Seq<(String, JsonMember)>) -> Seq<(Seq<char>, JsonValue)> {
    ms.map_values(|m: (String, JsonMember)| (m.0@, m.1@))
}

/// Appends a field with a scalar value.
pub fn push_field(fs: &mut Vec<(String, JsonScalar)>, key: &str, x: JsonScalar)
    ensures
        fields_value(final(fs)@) == fields_value(old(fs)@).push((key@, x@)),
{
    let ghost v = x@;
    let k = string_from(key);
    fs.push((k, x));
    assert(fields_value(fs@) =~= fields_value(old(fs)@).push((key@, v)));
}

/// Appends a member of a document.
pub fn push_document_member(ms: &mut Vec<(String, JsonMember)>, key: &str, m: JsonMember)
    ensures
        members_value(final(ms)@) == members_value(old(ms)@).push((key@, m@)),
{
    let ghost v = m@;
    let k = string_from(key);
    ms.push((k, m));
    assert(members_value(ms@) =~= members_value(old(ms)@).push((key@, v)));
}

fn push_spaces(s: &mut String, n: usize)
    ensures
        final(s)@ == old(s)@ + spaces(n as nat),
{
    for i in 0..n
        invariant
            s@ == old(s)@ + spaces(i as nat),
    {
        push_char(s, ' ');
        assert(spaces((i + 1) as nat) =~= spaces(i as nat).push(' '));
        assert(old(s)@ + spaces((i + 1) as nat) =~= (old(s)@ + spaces(i as nat)).push(' '));
    }
    assert(old(s)@ + spaces(0) =~= old(s)@);
}

fn push_quoted(s: &mut String, t: &str)
    ensures
        final(s)@ == old(s)@ + quoted(t@),
{
    push_char(s, '"');
    push_escaped(s, t);
    push_char(s, '"');
    assert(final(s)@ =~= old(s)@ + quoted(t@));
}

fn push_scalar(s: &mut String, x: &JsonScalar)
    ensures
        forall|d: nat| final(s)@ == old(s)@ + #[trigger] render(x@, d),
{
    match x {
        JsonScalar::Null => {
            push_char(s, 'n');
            push_char(s, 'u');
            push_char(s, 'l');
            push_char(s, 'l');
            assert(final(s)@ =~= old(s)@ + null_text());
        },
        JsonScalar::Bool(b) => {
            if *b {
                push_char(s, 't');
                push_char(s, 'r');
                push_char(s, 'u');
                push_char(s, 'e');
            } else {
                push_char(s, 'f');
                push_char(s, 'a');
                push_char(s, 'l');
                push_char(s, 's');
                push_char(s, 'e');
            }
            assert(final(s)@ =~= old(s)@ + truth_text(*b));
        },
        JsonScalar::Number(n) => {
            push_decimal(s, *n);
        },
        JsonScalar::Text(t) => {
            push_quoted(s, t.as_str());
        },
    }
}

/// Appends an object of scalars as it stands at depth `d`.
fn push_flat_object(s: &mut String, fs: &Vec<(String, JsonScalar)>, d: usize)
    requires
        d < 1000,
    ensures
        final(s)@ == old(s)@ + render(flat_object(fs@), d as nat),
{
    let ghost view = fields_value(fs@);
    let ghost goal = old(s)@ + render(flat_object(fs@), d as nat);
    push_char(s, '{');
    push_char(s, '\n');
    assert(goal =~= s@ + render_members(view, 0, d as nat));
    let n = fs.len();
    for i in 0..n
        invariant
            n == fs@.len(),
            d < 1000,
            view == fields_value(fs@),
            s@ + render_members(view, i as nat, d as nat) == goal,
    {
        let ghost before = s@;
        if i > 0 {
            push_char(s, ',');
            push_char(s, '\n');
        }
        push_spaces(s, 2 * d + 2);
        push_quoted(s, fs[i].0.as_str());
        push_char(s, ':');
        push_char(s, ' ');
        push_scalar(s, &fs[i].1);
        proof {
            let f = view[i as int];
            assert(f == (fs@[i as int].0@, fs@[i as int].1@));
            assert(render_member(f, d as nat) == quoted(f.0) + seq![':', ' '] + render(f.1, (d + 1) as nat));
            let sep = if i == 0 { Seq::<char>::empty() } else { seq![',', '\n'] };
            assert(render_members(view, i as nat, d as nat) == sep + spaces((2 * d + 2) as nat) + render_member(
                f,
                d as nat,
            ) + render_members(view, (i + 1) as nat, d as nat));
            assert(s@ =~= before + sep + spaces((2 * d + 2) as nat) + render_member(f, d as nat));
            assert(s@ + render_members(view, (i + 1) as nat, d as nat) =~= before + render_members(
                view,
                i as nat,
                d as nat,
            ));
        }
    }
    let ghost before = s@;
    push_char(s, '\n');
    push_spaces(s, 2 * d);
    push_char(s, '}');
    assert(render_members(view, n as nat, d as nat) == seq!['\n'] + spaces((2 * d) as nat) + seq!['}']);
    assert(s@ =~= before + render_members(view, n as nat, d as nat));
}

/// Appends an array of objects of scalars as it stands at depth `d`.
fn push_flat_list(s: &mut String, os: &Vec<Vec<(String, JsonScalar)>>, d: usize)
    requires
        d < 999,
    ensures
        final(s)@ == old(s)@ + render(JsonValue::Array(flat_objects(os@)), d as nat),
{
    let ghost view = flat_objects(os@);
    let ghost goal = old(s)@ + render(JsonValue::Array(view), d as nat);
    push_char(s, '[');
    push_char(s, '\n');
    assert(goal =~= s@ + render_items(view, 0, d as nat));
    let n = os.len();
    for i in 0..n
        invariant
            n == os@.len(),
            d < 999,
            view == flat_objects(os@),
            s@ + render_items(view, i as nat, d as nat) == goal,
    {
        let ghost before = s@;
        if i > 0 {
            push_char(s, ',');
            push_char(s, '\n');
        }
        push_spaces(s, 2 * d + 2);
        push_flat_object(s, &os[i], d + 1);
        proof {
            let sep = if i == 0 { Seq::<char>::empty() } else { seq![',', '\n'] };
            assert(view[i as int] == flat_object(os@[i as int]@));
            assert(render_items(view, i as nat, d as nat) == sep + spaces((2 * d + 2) as nat) + render(
                view[i as int],
                (d + 1) as nat,
            ) + render_items(view, (i + 1) as nat, d as nat));
            assert(s@ =~= before + sep + spaces((2 * d + 2) as nat) + render(view[i as int], (d + 1) as nat));
            assert(s@ + render_items(view, (i + 1) as nat, d as nat) =~= before + render_items(
                view,
                i as nat,
                d as nat,
            ));
        }
    }
    let ghost before = s@;
    push_char(s, '\n');
    push_spaces(s, 2 * d);
    push_char(s, ']');
    assert(render_items(view, n as nat, d as nat) == seq!['\n'] + spaces((2 * d) as nat) + seq![']']);
    assert(s@ =~= before + render_items(view, n as nat, d as nat));
}

fn push_member_value(s: &mut String, m: &JsonMember, d: usize)
    requires
        d < 999,
    ensures
        final(s)@ == old(s)@ + render(m@, d as nat),
{
    match m {
        JsonMember::Scalar(x) => push_scalar(s, x),
        JsonMember::Object(fs) => push_flat_object(s, fs, d),
        JsonMember::List(os) => push_flat_list(s, os, d),
    }
}

/// A document, an object of members, in the pretty layout.
pub fn render_document(ms: &Vec<(String, JsonMember)>) -> (res: String)
    ensures
        res@ == render(JsonValue::Object(members_value(ms@)), 0),
{
    let ghost view = members_value(ms@);
    let ghost goal = render(JsonValue::Object(view), 0);
    let mut s = String::new();
    push_char(&mut s, '{');
    push_char(&mut s, '\n');
    assert(goal =~= s@ + render_members(view, 0, 0));
    let n = ms.len();
    for i in 0..n
        invariant
            n == ms@.len(),
            view == members_value(ms@),
            s@ + render_members(view, i as nat, 0) == goal,
    {
        let ghost before = s@;
        if i > 0 {
            push_char(&mut s, ',');
            push_char(&mut s, '\n');
        }
        push_spaces(&mut s, 2);
        push_quoted(&mut s, ms[i].0.as_str());
        push_char(&mut s, ':');
        push_char(&mut s, ' ');
        push_member_value(&mut s, &ms[i].1, 1);
        proof {
            let f = view[i as int];
            assert(f == (ms@[i as int].0@, ms@[i as int].1@));
            assert(render_member(f, 0) == quoted(f.0) + seq![':', ' '] + render(f.1, 1));
            let sep = if i == 0 { Seq::<char>::empty() } else { seq![',', '\n'] };
            assert(render_members(view, i as nat, 0) == sep + spaces(2) + render_member(f, 0) + render_members(
                view,
                (i + 1) as nat,
                0,
            ));
            assert(s@ =~= before + sep + spaces(2) + render_member(f, 0));
            assert(s@ + render_members(view, (i + 1) as nat, 0) =~= before + render_members(view, i as nat, 0));
        }
    }
    let ghost before = s@;
    push_char(&mut s, '\n');
    push_char(&mut s, '}');
    assert(render_members(view, n as nat, 0) == seq!['\n'] + spaces(0) + seq!['}']);
    assert(s@ =~= before + render_members(view, n as nat, 0));
    s
}

} // verus!
