use vstd::prelude::*;

use crate::json::JsonValue;

verus! {

// ---------------------------------------------------------------------------
// The mathematical shape of a JSON document, and the view of `JsonValue`
// into it. Contracts about the wire form speak of this shape.
// ---------------------------------------------------------------------------

/// The mathematical shape of a JSON document. `Num` is a number kept as
/// its lexeme: not one of the protocol's own integers, only carried
/// through.
pub enum SpecJson {
    Null,
    Bool(bool),
    Int(int),
    Num(Seq<char>),
    Str(Seq<char>),
    Arr(Seq<SpecJson>),
    Obj(Seq<(Seq<char>, SpecJson)>),
}

/// The shape a `JsonValue` denotes.
pub open spec fn view_json(v: JsonValue) -> SpecJson
    decreases v,
{
    match v {
        JsonValue::Null => SpecJson::Null,
        JsonValue::Bool(b) => SpecJson::Bool(b),
        JsonValue::Int(n) => SpecJson::Int(n as int),
        JsonValue::Num(s) => SpecJson::Num(s@),
        JsonValue::Str(s) => SpecJson::Str(s@),
        JsonValue::Arr(items) => SpecJson::Arr(view_items(items@)),
        JsonValue::Obj(entries) => SpecJson::Obj(view_entries(entries@)),
    }
}

pub open spec fn view_items(items: Seq<JsonValue>) -> Seq<SpecJson>
    decreases items,
{
    if items.len() == 0 {
        Seq::empty()
    } else {
        seq![view_json(items[0])] + view_items(items.drop_first())
    }
}

pub open spec fn view_entries(entries: Seq<(Vec<char>, JsonValue)>) -> Seq<(Seq<char>, SpecJson)>
    decreases entries,
{
    if entries.len() == 0 {
        Seq::empty()
    } else {
        seq![(entries[0].0@, view_json(entries[0].1))] + view_entries(entries.drop_first())
    }
}

pub proof fn lemma_view_items_index(items: Seq<JsonValue>)
    ensures
        view_items(items).len() == items.len(),
        forall|i: int| 0 <= i < items.len() ==> view_items(items)[i] == view_json(#[trigger] items[i]),
    decreases items.len(),
{
    if items.len() > 0 {
        lemma_view_items_index(items.drop_first());
        assert forall|i: int| 0 <= i < items.len() implies view_items(items)[i] == view_json(
            #[trigger] items[i],
        ) by {
            if i > 0 {
                assert(view_items(items)[i] == view_items(items.drop_first())[i - 1]);
                assert(items.drop_first()[i - 1] == items[i]);
            }
        }
    }
}

pub proof fn lemma_view_entries_index(entries: Seq<(Vec<char>, JsonValue)>)
    ensures
        view_entries(entries).len() == entries.len(),
        forall|i: int|
            0 <= i < entries.len() ==> view_entries(entries)[i] == ((#[trigger] entries[i]).0@,
            view_json(entries[i].1)),
    decreases entries.len(),
{
    if entries.len() > 0 {
        lemma_view_entries_index(entries.drop_first());
        assert forall|i: int| 0 <= i < entries.len() implies view_entries(entries)[i] == ((
        #[trigger] entries[i]).0@, view_json(entries[i].1)) by {
            if i > 0 {
                assert(view_entries(entries)[i] == view_entries(entries.drop_first())[i - 1]);
                assert(entries.drop_first()[i - 1] == entries[i]);
            }
        }
    }
}

/// Appending one value appends its shape.
pub proof fn lemma_view_items_push(items: Seq<JsonValue>, x: JsonValue)
    ensures
        view_items(items.push(x)) == view_items(items).push(view_json(x)),
    decreases items.len(),
{
    if items.len() == 0 {
        assert(items.push(x)[0] == x);
        assert(items.push(x).drop_first() =~= Seq::<JsonValue>::empty());
        assert(view_items(Seq::<JsonValue>::empty()) == Seq::<SpecJson>::empty());
        assert(view_items(items.push(x)) == seq![view_json(x)] + Seq::<SpecJson>::empty());
        assert(view_items(items.push(x)) =~= view_items(items).push(view_json(x)));
    } else {
        lemma_view_items_push(items.drop_first(), x);
        assert(items.push(x)[0] == items[0]);
        assert(items.push(x).drop_first() =~= items.drop_first().push(x));
        assert(view_items(items.push(x)) == seq![view_json(items[0])] + view_items(
            items.drop_first(),
        ).push(view_json(x)));
        assert(view_items(items) == seq![view_json(items[0])] + view_items(items.drop_first()));
        assert(view_items(items.push(x)) =~= view_items(items).push(view_json(x)));
    }
}

/// Appending one field appends its shape.
pub proof fn lemma_view_entries_push(entries: Seq<(Vec<char>, JsonValue)>, x: (Vec<char>, JsonValue))
    ensures
        view_entries(entries.push(x)) == view_entries(entries).push((x.0@, view_json(x.1))),
    decreases entries.len(),
{
    if entries.len() == 0 {
        assert(entries.push(x)[0] == x);
        assert(entries.push(x).drop_first() =~= Seq::<(Vec<char>, JsonValue)>::empty());
        assert(view_entries(Seq::<(Vec<char>, JsonValue)>::empty()) == Seq::<
            (Seq<char>, SpecJson),
        >::empty());
        assert(view_entries(entries.push(x)) == seq![(x.0@, view_json(x.1))] + Seq::<
            (Seq<char>, SpecJson),
        >::empty());
        assert(view_entries(entries.push(x)) =~= view_entries(entries).push(
            (x.0@, view_json(x.1)),
        ));
    } else {
        lemma_view_entries_push(entries.drop_first(), x);
        assert(entries.push(x)[0] == entries[0]);
        assert(entries.push(x).drop_first() =~= entries.drop_first().push(x));
        assert(view_entries(entries.push(x)) == seq![(entries[0].0@, view_json(entries[0].1))]
            + view_entries(entries.drop_first()).push((x.0@, view_json(x.1))));
        assert(view_entries(entries) == seq![(entries[0].0@, view_json(entries[0].1))]
            + view_entries(entries.drop_first()));
        assert(view_entries(entries.push(x)) =~= view_entries(entries).push(
            (x.0@, view_json(x.1)),
        ));
    }
}

/// A document the wire form can carry exactly: every integer in it has at
/// most the magnitude of the largest 64-bit value.
pub open spec fn wf_json(j: SpecJson) -> bool
    decreases j,
{
    match j {
        SpecJson::Null => true,
        SpecJson::Bool(_) => true,
        SpecJson::Int(n) => -(u64::MAX as int) <= n <= u64::MAX as int,
        SpecJson::Num(_) => false,
        SpecJson::Str(_) => true,
        SpecJson::Arr(items) => forall|i: int| 0 <= i < items.len() ==> wf_json(#[trigger] items[i]),
        SpecJson::Obj(entries) => forall|i: int|
            0 <= i < entries.len() ==> wf_json((#[trigger] entries[i]).1),
    }
}

// ---------------------------------------------------------------------------
// Rendering: the one canonical text of a document. No whitespace, strings
// escaped minimally, integers in decimal without leading zeros.
// ---------------------------------------------------------------------------

/// Decimal digit characters.
pub open spec fn spec_digit_char(d: int) -> char {
    ((48 + d) as u8) as char
}

/// Hexadecimal digit characters, lower case.
pub open spec fn spec_hex_char(d: int) -> char {
    if d < 10 {
        ((48 + d) as u8) as char
    } else {
        ((87 + d) as u8) as char
    }
}

/// The decimal digits of a non-negative integer, no leading zeros.
pub open spec fn spec_digits(n: int) -> Seq<char>
    decreases n,
{
    if n < 10 {
        seq![spec_digit_char(n)]
    } else {
        spec_digits(n / 10).push(spec_digit_char(n % 10))
    }
}

/// The decimal text of an integer.
pub open spec fn spec_render_int(n: int) -> Seq<char> {
    if n < 0 {
        seq!['-'] + spec_digits(-n)
    } else {
        spec_digits(n)
    }
}

/// What one character contributes to a rendered string: itself, or its
/// escape — quote and backslash by a two-character escape, control
/// characters by a hexadecimal one.
pub open spec fn spec_escape_char(c: char) -> Seq<char> {
    if c == '"' {
        seq!['\\', '"']
    } else if c == '\\' {
        seq!['\\', '\\']
    } else if (c as u32) < 32 {
        seq![
            '\\',
            'u',
            '0',
            '0',
            spec_hex_char((c as u32 / 16) as int),
            spec_hex_char((c as u32 % 16) as int),
        ]
    } else {
        seq![c]
    }
}

/// The escaped body of a rendered string.
pub open spec fn spec_escape(s: Seq<char>) -> Seq<char>
    decreases s.len(),
{
    if s.len() == 0 {
        Seq::empty()
    } else {
        spec_escape(s.drop_last()) + spec_escape_char(s.last())
    }
}

/// The canonical text of a document.
pub open spec fn spec_render(j: SpecJson) -> Seq<char>
    decreases j,
{
    match j {
        SpecJson::Null => "null"@,
        SpecJson::Bool(b) => if b {
            "true"@
        } else {
            "false"@
        },
        SpecJson::Int(n) => spec_render_int(n),
        SpecJson::Num(s) => s,
        SpecJson::Str(s) => seq!['"'] + spec_escape(s) + seq!['"'],
        SpecJson::Arr(items) => seq!['['] + spec_render_items(items) + seq![']'],
        SpecJson::Obj(entries) => seq!['{'] + spec_render_entries(entries) + seq!['}'],
    }
}

/// Array elements, comma-separated.
pub open spec fn spec_render_items(items: Seq<SpecJson>) -> Seq<char>
    decreases items,
{
    if items.len() == 0 {
        Seq::empty()
    } else if items.len() == 1 {
        spec_render(items[0])
    } else {
        spec_render_items(items.drop_last()) + seq![','] + spec_render(items.last())
    }
}

/// Object fields: quoted key, colon, value, comma-separated.
pub open spec fn spec_render_entry(entry: (Seq<char>, SpecJson)) -> Seq<char>
    decreases entry,
{
    seq!['"'] + spec_escape(entry.0) + seq!['"', ':'] + spec_render(entry.1)
}

pub open spec fn spec_render_entries(entries: Seq<(Seq<char>, SpecJson)>) -> Seq<char>
    decreases entries,
{
    if entries.len() == 0 {
        Seq::empty()
    } else if entries.len() == 1 {
        spec_render_entry(entries[0])
    } else {
        spec_render_entries(entries.drop_last()) + seq![','] + spec_render_entry(entries.last())
    }
}

fn digit_char(d: u8) -> (r: char)
    requires
        d < 10,
    ensures
        r == spec_digit_char(d as int),
{
    (48 + d) as char
}

fn hex_char(d: u8) -> (r: char)
    requires
        d < 16,
    ensures
        r == spec_hex_char(d as int),
{
    if d < 10 {
        (48 + d) as char
    } else {
        (87 + d) as char
    }
}

fn render_digits(m: u128, out: &mut Vec<char>)
    ensures
        final(out)@ == old(out)@ + spec_digits(m as int),
    decreases m,
{
    if m >= 10 {
        render_digits(m / 10, out);
    }
    out.push(digit_char((m % 10) as u8));
    proof {
        if m >= 10 {
            assert(final(out)@ =~= old(out)@ + spec_digits(m as int));
        } else {
            assert(spec_digits(m as int) =~= seq![spec_digit_char(m as int)]);
            assert(final(out)@ =~= old(out)@ + spec_digits(m as int));
        }
    }
}

/// Appends the decimal text of an integer.
fn render_int(n: i128, out: &mut Vec<char>)
    ensures
        final(out)@ == old(out)@ + spec_render_int(n as int),
{
    if n < 0 {
        out.push('-');
        let m: u128 = ((-(n + 1)) as u128) + 1;
        proof {
            assert(m as int == -(n as int));
        }
        render_digits(m, out);
        proof {
            assert(out@ =~= old(out)@ + spec_render_int(n as int));
        }
    } else {
        render_digits(n as u128, out);
    }
}

/// Appends the escaped body of a string.
fn render_string_body(s: &Vec<char>, out: &mut Vec<char>)
    ensures
        final(out)@ == old(out)@ + spec_escape(s@),
{
    let n = s.len();
    let mut i: usize = 0;
    while i < n
        invariant
            i <= n,
            n == s@.len(),
            out@ == old(out)@ + spec_escape(s@.subrange(0, i as int)),
        decreases n - i,
    {
        let c = s[i];
        if c == '"' {
            out.push('\\');
            out.push('"');
        } else if c == '\\' {
            out.push('\\');
            out.push('\\');
        } else if (c as u32) < 32 {
            let u = c as u32;
            out.push('\\');
            out.push('u');
            out.push('0');
            out.push('0');
            proof {
                assert(((u / 16) as u8) as int == (c as u32 / 16) as int);
                assert(((u % 16) as u8) as int == (c as u32 % 16) as int);
            }
            out.push(hex_char((u / 16) as u8));
            out.push(hex_char((u % 16) as u8));
        } else {
            out.push(c);
        }
        proof {
            assert(s@.subrange(0, i + 1).drop_last() =~= s@.subrange(0, i as int));
            assert(s@.subrange(0, i + 1).last() == s@[i as int]);
            assert(out@ =~= old(out)@ + spec_escape(s@.subrange(0, i + 1)));
        }
        i += 1;
    }
    proof {
        assert(s@.subrange(0, n as int) =~= s@);
    }
}

/// Appends the canonical text of a document.
fn render_value(v: &JsonValue, out: &mut Vec<char>)
    ensures
        final(out)@ == old(out)@ + spec_render(view_json(*v)),
    decreases *v,
{
    match v {
        JsonValue::Null => {
            out.push('n');
            out.push('u');
            out.push('l');
            out.push('l');
            proof {
                reveal_strlit("null");
                assert(out@ =~= old(out)@ + "null"@);
            }
        },
        JsonValue::Bool(b) => {
            if *b {
                out.push('t');
                out.push('r');
                out.push('u');
                out.push('e');
                proof {
                    reveal_strlit("true");
                    assert(out@ =~= old(out)@ + "true"@);
                }
            } else {
                out.push('f');
                out.push('a');
                out.push('l');
                out.push('s');
                out.push('e');
                proof {
                    reveal_strlit("false");
                    assert(out@ =~= old(out)@ + "false"@);
                }
            }
        },
        JsonValue::Int(n) => {
            render_int(*n, out);
        },
        JsonValue::Num(lexeme) => {
            let n = lexeme.len();
            let mut i: usize = 0;
            while i < n
                invariant
                    i <= n,
                    n == lexeme@.len(),
                    *v == JsonValue::Num(*lexeme),
                    out@ == old(out)@ + lexeme@.subrange(0, i as int),
                decreases n - i,
            {
                out.push(lexeme[i]);
                proof {
                    assert(out@ =~= old(out)@ + lexeme@.subrange(0, i + 1));
                }
                i += 1;
            }
            proof {
                assert(lexeme@.subrange(0, n as int) =~= lexeme@);
            }
        },
        JsonValue::Str(s) => {
            out.push('"');
            render_string_body(s, out);
            out.push('"');
            proof {
                assert(out@ =~= old(out)@ + spec_render(view_json(*v)));
            }
        },
        JsonValue::Arr(items) => {
            out.push('[');
            proof {
                lemma_view_items_index(items@);
            }
            let n = items.len();
            let mut i: usize = 0;
            while i < n
                invariant
                    i <= n,
                    n == items@.len(),
                    *v == JsonValue::Arr(*items),
                    view_items(items@).len() == n,
                    forall|k: int|
                        0 <= k < n ==> view_items(items@)[k] == view_json(#[trigger] items@[k]),
                    out@ == old(out)@ + seq!['['] + spec_render_items(
                        view_items(items@).subrange(0, i as int),
                    ),
                decreases n - i,
            {
                if i > 0 {
                    out.push(',');
                }
                proof {
                    assert(decreases_to!(*v => v->Arr_0@[i as int]));
                    assert(v->Arr_0@[i as int] == items@[i as int]);
                }
                render_value(&items[i], out);
                proof {
                    let views = view_items(items@);
                    assert(views.subrange(0, i + 1).drop_last() =~= views.subrange(0, i as int));
                    assert(views.subrange(0, i + 1).last() == views[i as int]);
                    assert(out@ =~= old(out)@ + seq!['['] + spec_render_items(
                        views.subrange(0, i + 1),
                    ));
                }
                i += 1;
            }
            out.push(']');
            proof {
                assert(view_items(items@).subrange(0, n as int) =~= view_items(items@));
                assert(out@ =~= old(out)@ + spec_render(view_json(*v)));
            }
        },
        JsonValue::Obj(entries) => {
            out.push('{');
            proof {
                lemma_view_entries_index(entries@);
            }
            let n = entries.len();
            let mut i: usize = 0;
            while i < n
                invariant
                    i <= n,
                    n == entries@.len(),
                    *v == JsonValue::Obj(*entries),
                    view_entries(entries@).len() == n,
                    forall|k: int|
                        0 <= k < n ==> view_entries(entries@)[k] == ((#[trigger] entries@[k]).0@,
                        view_json(entries@[k].1)),
                    out@ == old(out)@ + seq!['{'] + spec_render_entries(
                        view_entries(entries@).subrange(0, i as int),
                    ),
                decreases n - i,
            {
                if i > 0 {
                    out.push(',');
                }
                out.push('"');
                render_string_body(&entries[i].0, out);
                out.push('"');
                out.push(':');
                proof {
                    assert(decreases_to!(*v => v->Obj_0@[i as int].1));
                    assert(v->Obj_0@[i as int].1 == entries@[i as int].1);
                }
                render_value(&entries[i].1, out);
                proof {
                    let views = view_entries(entries@);
                    assert(views[i as int] == (entries@[i as int].0@, view_json(
                        entries@[i as int].1,
                    )));
                    assert(spec_render_entry(views[i as int]) =~= seq!['"'] + spec_escape(
                        entries@[i as int].0@,
                    ) + seq!['"', ':'] + spec_render(view_json(entries@[i as int].1)));
                    assert(views.subrange(0, i + 1).drop_last() =~= views.subrange(0, i as int));
                    assert(views.subrange(0, i + 1).last() == views[i as int]);
                    assert(out@ =~= old(out)@ + seq!['{'] + spec_render_entries(
                        views.subrange(0, i + 1),
                    ));
                }
                i += 1;
            }
            out.push('}');
            proof {
                assert(view_entries(entries@).subrange(0, n as int) =~= view_entries(entries@));
                assert(out@ =~= old(out)@ + spec_render(view_json(*v)));
            }
        },
    }
}

/// The decimal text of an integer, as a string.
pub fn int_text(n: i128) -> (r: String)
    ensures
        r@ == spec_render_int(n as int),
{
    let mut out: Vec<char> = Vec::new();
    render_int(n, &mut out);
    proof {
        assert(out@ =~= spec_render_int(n as int));
    }
    crate::text::chars_to_string(&out)
}

/// The canonical text of a document, as characters.
pub fn render_json(v: &JsonValue) -> (r: Vec<char>)
    ensures
        r@ == spec_render(view_json(*v)),
{
    let mut out: Vec<char> = Vec::new();
    render_value(v, &mut out);
    proof {
        assert(out@ =~= spec_render(view_json(*v)));
    }
    out
}

// ---------------------------------------------------------------------------
// Parsing: the inverse direction. Each spec function is the grammar of one
// construct; the executable parser mirrors it exactly. Numbers that are
// not the protocol's own integers are kept as lexemes; a frame outside
// this grammar parses to nothing and is unrecognized.
// ---------------------------------------------------------------------------

/// The whitespace the grammar skips between tokens.
pub open spec fn is_json_ws(c: char) -> bool {
    c == ' ' || c == '\t' || c == '\n' || c == '\r'
}

/// The first position at or after `i` that holds no whitespace.
pub open spec fn spec_skip_ws(s: Seq<char>, i: int) -> int
    decreases s.len() - i,
{
    if 0 <= i < s.len() && is_json_ws(s[i]) {
        spec_skip_ws(s, i + 1)
    } else {
        i
    }
}

pub proof fn lemma_skip_ws_bounds(s: Seq<char>, i: int)
    requires
        0 <= i <= s.len(),
    ensures
        i <= spec_skip_ws(s, i) <= s.len(),
    decreases s.len() - i,
{
    if i < s.len() && is_json_ws(s[i]) {
        lemma_skip_ws_bounds(s, i + 1);
    }
}

/// A decimal digit.
pub open spec fn is_digit_char(c: char) -> bool {
    48 <= c as u32 <= 57
}

/// The end of the digit run starting at `i`.
pub open spec fn spec_digit_run_end(s: Seq<char>, i: int) -> int
    decreases s.len() - i,
{
    if 0 <= i < s.len() && is_digit_char(s[i]) {
        spec_digit_run_end(s, i + 1)
    } else {
        i
    }
}

/// The value of the digits in `[a, b)`.
pub open spec fn spec_digits_val(s: Seq<char>, a: int, b: int) -> int
    decreases b - a,
{
    if b <= a {
        0
    } else {
        spec_digits_val(s, a, b - 1) * 10 + (s[b - 1] as u32 - 48)
    }
}

/// Powers of ten.
pub open spec fn pow10(k: int) -> int
    decreases k,
{
    if k <= 0 {
        1
    } else {
        10 * pow10(k - 1)
    }
}

proof fn lemma_pow10_le(a: int, b: int)
    requires
        0 <= a <= b,
    ensures
        1 <= pow10(a) <= pow10(b),
    decreases b - a,
{
    if a < b {
        lemma_pow10_le(a, b - 1);
    } else {
        lemma_pow10_pos(a);
    }
}

proof fn lemma_pow10_pos(a: int)
    ensures
        pow10(a) >= 1,
    decreases a,
{
    if a > 0 {
        lemma_pow10_pos(a - 1);
    }
}

proof fn lemma_pow10_20()
    ensures
        pow10(20) == 100000000000000000000,
{
    assert(pow10(0) == 1);
    assert(pow10(1) == 10);
    assert(pow10(2) == 100);
    assert(pow10(3) == 1000);
    assert(pow10(4) == 10000);
    assert(pow10(5) == 100000);
    assert(pow10(6) == 1000000);
    assert(pow10(7) == 10000000);
    assert(pow10(8) == 100000000);
    assert(pow10(9) == 1000000000);
    assert(pow10(10) == 10000000000);
    assert(pow10(11) == 100000000000);
    assert(pow10(12) == 1000000000000);
    assert(pow10(13) == 10000000000000);
    assert(pow10(14) == 100000000000000);
    assert(pow10(15) == 1000000000000000);
    assert(pow10(16) == 10000000000000000);
    assert(pow10(17) == 100000000000000000);
    assert(pow10(18) == 1000000000000000000);
    assert(pow10(19) == 10000000000000000000);
    assert(pow10(20) == 100000000000000000000);
}

/// Digit runs stay under the matching power of ten.
proof fn lemma_digits_val_bound(s: Seq<char>, a: int, b: int)
    requires
        a <= b,
        forall|k: int| a <= k < b ==> is_digit_char(#[trigger] s[k]),
    ensures
        0 <= spec_digits_val(s, a, b) < pow10(b - a),
    decreases b - a,
{
    if b <= a {
    } else {
        lemma_digits_val_bound(s, a, b - 1);
    }
}

/// The numeric value of one hexadecimal digit, or -1.
pub open spec fn spec_hex_val(c: char) -> int {
    let u = c as u32;
    if 48 <= u <= 57 {
        u - 48
    } else if 97 <= u <= 102 {
        u - 87
    } else if 65 <= u <= 70 {
        u - 55
    } else {
        -1
    }
}

/// The value of four hexadecimal digits at `i`, or -1.
pub open spec fn spec_hex4(s: Seq<char>, i: int) -> int {
    let a = spec_hex_val(s[i]);
    let b = spec_hex_val(s[i + 1]);
    let c = spec_hex_val(s[i + 2]);
    let d = spec_hex_val(s[i + 3]);
    if a < 0 || b < 0 || c < 0 || d < 0 {
        -1
    } else {
        a * 4096 + b * 256 + c * 16 + d
    }
}

/// The character a two-character escape denotes, if the escape is known.
pub open spec fn spec_unescape_char(e: char) -> Option<char> {
    if e == '"' {
        Some('"')
    } else if e == '\\' {
        Some('\\')
    } else if e == '/' {
        Some('/')
    } else if e == 'n' {
        Some('\n')
    } else if e == 't' {
        Some('\t')
    } else if e == 'r' {
        Some('\r')
    } else if e == 'b' {
        Some('\u{8}')
    } else if e == 'f' {
        Some('\u{c}')
    } else {
        None
    }
}

/// The body of a string from position `i` (just after the opening quote)
/// up to its closing quote: the characters it denotes and the position
/// after the quote. Escapes are decoded; a hexadecimal escape is accepted
/// up to 127, so anything the renderer emits is read back; raw control
/// characters are refused.
pub open spec fn spec_parse_string(s: Seq<char>, i: int) -> Option<(Seq<char>, int)>
    decreases s.len() - i,
{
    if !(0 <= i < s.len()) {
        None
    } else {
        let c = s[i];
        if c == '"' {
            Some((Seq::empty(), i + 1))
        } else if c == '\\' {
            if i + 2 > s.len() {
                None
            } else {
                let e = s[i + 1];
                if e == 'u' {
                    if i + 6 > s.len() {
                        None
                    } else {
                        let h = spec_hex4(s, i + 2);
                        if h < 0 || h >= 128 {
                            None
                        } else {
                            match spec_parse_string(s, i + 6) {
                                Some(p) => Some((seq![((h as u8) as char)] + p.0, p.1)),
                                None => None,
                            }
                        }
                    }
                } else {
                    match spec_unescape_char(e) {
                        Some(c2) => match spec_parse_string(s, i + 2) {
                            Some(p) => Some((seq![c2] + p.0, p.1)),
                            None => None,
                        },
                        None => None,
                    }
                }
            }
        } else if (c as u32) < 32 {
            None
        } else {
            match spec_parse_string(s, i + 1) {
                Some(p) => Some((seq![c] + p.0, p.1)),
                None => None,
            }
        }
    }
}

/// Where a fraction part ends, the given position when there is none,
/// or -1 when a dot is not followed by a digit.
pub open spec fn spec_frac_end(s: Seq<char>, p: int) -> int {
    if 0 <= p < s.len() && s[p] == '.' {
        let fe = spec_digit_run_end(s, p + 1);
        if fe == p + 1 {
            -1
        } else {
            fe
        }
    } else {
        p
    }
}

/// Where an exponent part ends, the given position when there is none,
/// or -1 when the marker is not followed by a digit.
pub open spec fn spec_exp_end(s: Seq<char>, p: int) -> int {
    if 0 <= p < s.len() && (s[p] == 'e' || s[p] == 'E') {
        let q = if p + 1 < s.len() && (s[p + 1] == '+' || s[p + 1] == '-') {
            p + 2
        } else {
            p + 1
        };
        let xe = spec_digit_run_end(s, q);
        if xe == q {
            -1
        } else {
            xe
        }
    } else {
        p
    }
}

/// A number at position `i`: an optional minus, then digits without a
/// leading zero, then an optional fraction and exponent. A plain
/// integer of wire-sized magnitude is held exactly; any other number —
/// fractional, exponential, or beyond twenty digits or the largest
/// 64-bit magnitude — is kept as its lexeme and carried through.
pub open spec fn spec_parse_number(s: Seq<char>, i: int) -> Option<(SpecJson, int)> {
    if !(0 <= i < s.len()) {
        None
    } else {
        let neg = s[i] == '-';
        let d0 = if neg {
            i + 1
        } else {
            i
        };
        let end = spec_digit_run_end(s, d0);
        if end <= d0 {
            None
        } else if s[d0] as u32 == 48 && end - d0 > 1 {
            None
        } else {
            let fend = spec_frac_end(s, end);
            if fend < 0 {
                None
            } else {
                let xend = spec_exp_end(s, fend);
                if xend < 0 {
                    None
                } else if xend != end {
                    Some((SpecJson::Num(s.subrange(i, xend)), xend))
                } else if end - d0 > 20 {
                    Some((SpecJson::Num(s.subrange(i, end)), end))
                } else {
                    let val = spec_digits_val(s, d0, end);
                    if val > u64::MAX as int {
                        Some((SpecJson::Num(s.subrange(i, end)), end))
                    } else {
                        Some((SpecJson::Int(if neg { -val } else { val }), end))
                    }
                }
            }
        }
    }
}

/// A document at position `i` (no leading whitespace): the shape it
/// denotes and the position just after it.
pub open spec fn spec_parse_value(s: Seq<char>, i: int) -> Option<(SpecJson, int)>
    decreases s.len() - i, 2int,
{
    if !(0 <= i < s.len()) {
        None
    } else {
        let c = s[i];
        if c == 'n' {
            if i + 4 <= s.len() && s[i + 1] == 'u' && s[i + 2] == 'l' && s[i + 3] == 'l' {
                Some((SpecJson::Null, i + 4))
            } else {
                None
            }
        } else if c == 't' {
            if i + 4 <= s.len() && s[i + 1] == 'r' && s[i + 2] == 'u' && s[i + 3] == 'e' {
                Some((SpecJson::Bool(true), i + 4))
            } else {
                None
            }
        } else if c == 'f' {
            if i + 5 <= s.len() && s[i + 1] == 'a' && s[i + 2] == 'l' && s[i + 3] == 's' && s[i + 4]
                == 'e' {
                Some((SpecJson::Bool(false), i + 5))
            } else {
                None
            }
        } else if c == '"' {
            match spec_parse_string(s, i + 1) {
                Some(p) => Some((SpecJson::Str(p.0), p.1)),
                None => None,
            }
        } else if c == '-' || is_digit_char(c) {
            spec_parse_number(s, i)
        } else if c == '[' {
            let j = spec_skip_ws(s, i + 1);
            if !(i < j <= s.len()) {
                None
            } else if j < s.len() && s[j] == ']' {
                Some((SpecJson::Arr(Seq::empty()), j + 1))
            } else {
                match spec_parse_items(s, j) {
                    Some(p) => Some((SpecJson::Arr(p.0), p.1)),
                    None => None,
                }
            }
        } else if c == '{' {
            let j = spec_skip_ws(s, i + 1);
            if !(i < j <= s.len()) {
                None
            } else if j < s.len() && s[j] == '}' {
                Some((SpecJson::Obj(Seq::empty()), j + 1))
            } else {
                match spec_parse_entries(s, j) {
                    Some(p) => Some((SpecJson::Obj(p.0), p.1)),
                    None => None,
                }
            }
        } else {
            None
        }
    }
}

/// One or more comma-separated array elements at `i`, up to and including
/// the closing bracket.
pub open spec fn spec_parse_items(s: Seq<char>, i: int) -> Option<(Seq<SpecJson>, int)>
    decreases s.len() - i, 3int,
{
    match spec_parse_value(s, i) {
        None => None,
        Some(p) => {
            let (v, j) = p;
            if !(i < j <= s.len()) {
                None
            } else {
                let k = spec_skip_ws(s, j);
                if !(k < s.len()) {
                    None
                } else if s[k] == ',' {
                    let k2 = spec_skip_ws(s, k + 1);
                    if !(i < k2 <= s.len()) {
                        None
                    } else {
                        match spec_parse_items(s, k2) {
                            Some(q) => Some((seq![v] + q.0, q.1)),
                            None => None,
                        }
                    }
                } else if s[k] == ']' {
                    Some((seq![v], k + 1))
                } else {
                    None
                }
            }
        },
    }
}

/// One or more comma-separated object fields at `i`, up to and including
/// the closing brace.
pub open spec fn spec_parse_entries(s: Seq<char>, i: int) -> Option<
    (Seq<(Seq<char>, SpecJson)>, int),
>
    decreases s.len() - i, 3int,
{
    if !(0 <= i < s.len() && s[i] == '"') {
        None
    } else {
        match spec_parse_string(s, i + 1) {
            None => None,
            Some(p) => {
                let (key, j) = p;
                if !(i < j <= s.len()) {
                    None
                } else {
                    let k = spec_skip_ws(s, j);
                    if !(k < s.len() && s[k] == ':') {
                        None
                    } else {
                        let k2 = spec_skip_ws(s, k + 1);
                        if !(i < k2 <= s.len()) {
                            None
                        } else {
                            match spec_parse_value(s, k2) {
                                None => None,
                                Some(q) => {
                                    let (v, j2) = q;
                                    if !(i < j2 <= s.len()) {
                                        None
                                    } else {
                                        let k3 = spec_skip_ws(s, j2);
                                        if !(k3 < s.len()) {
                                            None
                                        } else if s[k3] == ',' {
                                            let k4 = spec_skip_ws(s, k3 + 1);
                                            if !(i < k4 <= s.len()) {
                                                None
                                            } else {
                                                match spec_parse_entries(s, k4) {
                                                    Some(q2) => Some(
                                                        (seq![(key, v)] + q2.0, q2.1),
                                                    ),
                                                    None => None,
                                                }
                                            }
                                        } else if s[k3] == '}' {
                                            Some((seq![(key, v)], k3 + 1))
                                        } else {
                                            None
                                        }
                                    }
                                },
                            }
                        }
                    }
                }
            },
        }
    }
}

/// A whole frame: one document, surrounded by nothing but whitespace.
pub open spec fn spec_parse_json(s: Seq<char>) -> Option<SpecJson> {
    let i = spec_skip_ws(s, 0);
    match spec_parse_value(s, i) {
        Some(p) => {
            let (v, j) = p;
            if 0 <= j <= s.len() && spec_skip_ws(s, j) == s.len() {
                Some(v)
            } else {
                None
            }
        },
        None => None,
    }
}

fn is_ws_char(c: char) -> (r: bool)
    ensures
        r == is_json_ws(c),
{
    c == ' ' || c == '\t' || c == '\n' || c == '\r'
}

fn is_digit_exec(c: char) -> (r: bool)
    ensures
        r == is_digit_char(c),
{
    let u = c as u32;
    48 <= u && u <= 57
}

/// Skips whitespace from `i`.
fn skip_ws(s: &Vec<char>, i: usize) -> (j: usize)
    requires
        i <= s@.len(),
    ensures
        j as int == spec_skip_ws(s@, i as int),
        i <= j <= s@.len(),
{
    let n = s.len();
    let mut j = i;
    while j < n && is_ws_char(s[j])
        invariant
            i <= j <= n,
            n == s@.len(),
            spec_skip_ws(s@, i as int) == spec_skip_ws(s@, j as int),
        decreases n - j,
    {
        j += 1;
    }
    j
}

fn hex_val(c: char) -> (r: i32)
    ensures
        r as int == spec_hex_val(c),
{
    let u = c as u32;
    if 48 <= u && u <= 57 {
        (u - 48) as i32
    } else if 97 <= u && u <= 102 {
        (u - 87) as i32
    } else if 65 <= u && u <= 70 {
        (u - 55) as i32
    } else {
        -1
    }
}

fn unescape_char(e: char) -> (r: Option<char>)
    ensures
        r == spec_unescape_char(e),
{
    if e == '"' {
        Some('"')
    } else if e == '\\' {
        Some('\\')
    } else if e == '/' {
        Some('/')
    } else if e == 'n' {
        Some('\n')
    } else if e == 't' {
        Some('\t')
    } else if e == 'r' {
        Some('\r')
    } else if e == 'b' {
        Some('\u{8}')
    } else if e == 'f' {
        Some('\u{c}')
    } else {
        None
    }
}

/// Reads a string body from just after its opening quote.
fn parse_string(s: &Vec<char>, i: usize) -> (r: Option<(Vec<char>, usize)>)
    requires
        i <= s@.len(),
    ensures
        r matches Some(p) ==> spec_parse_string(s@, i as int) == Some((p.0@, p.1 as int)) && i
            < p.1 <= s@.len(),
        r is None ==> spec_parse_string(s@, i as int) is None,
{
    let n = s.len();
    let mut acc: Vec<char> = Vec::new();
    let mut cur = i;
    while cur < n
        invariant
            i <= cur <= n,
            n == s@.len(),
            spec_parse_string(s@, i as int) == (match spec_parse_string(s@, cur as int) {
                Some(p) => Some::<(Seq<char>, int)>((acc@ + p.0, p.1)),
                None => None::<(Seq<char>, int)>,
            }),
        decreases n - cur,
    {
        let c = s[cur];
        if c == '"' {
            proof {
                assert(spec_parse_string(s@, cur as int) == Some((Seq::<char>::empty(),
                cur + 1 as int)));
                assert(acc@ + Seq::<char>::empty() =~= acc@);
            }
            return Some((acc, cur + 1));
        } else if c == '\\' {
            if n - cur < 2 {
                return None;
            }
            let e = s[cur + 1];
            if e == 'u' {
                if n - cur < 6 {
                    return None;
                }
                let h0 = hex_val(s[cur + 2]);
                let h1 = hex_val(s[cur + 3]);
                let h2 = hex_val(s[cur + 4]);
                let h3 = hex_val(s[cur + 5]);
                if h0 < 0 || h1 < 0 || h2 < 0 || h3 < 0 {
                    proof {
                        assert(spec_hex4(s@, cur + 2) == -1);
                    }
                    return None;
                }
                let h = h0 * 4096 + h1 * 256 + h2 * 16 + h3;
                proof {
                    assert(h as int == spec_hex4(s@, cur + 2));
                }
                if h >= 128 {
                    return None;
                }
                let c2 = (h as u8) as char;
                let ghost acc_old = acc@;
                acc.push(c2);
                proof {
                    let inner = spec_parse_string(s@, cur + 6 as int);
                    match inner {
                        Some(p) => {
                            assert(acc_old + (seq![c2] + p.0) =~= acc@ + p.0);
                        },
                        None => {},
                    }
                }
                cur += 6;
            } else {
                match unescape_char(e) {
                    Some(c2) => {
                        let ghost acc_old = acc@;
                        acc.push(c2);
                        proof {
                            let inner = spec_parse_string(s@, cur + 2 as int);
                            match inner {
                                Some(p) => {
                                    assert(acc_old + (seq![c2] + p.0) =~= acc@ + p.0);
                                },
                                None => {},
                            }
                        }
                        cur += 2;
                    },
                    None => {
                        return None;
                    },
                }
            }
        } else if (c as u32) < 32 {
            return None;
        } else {
            let ghost acc_old = acc@;
            acc.push(c);
            proof {
                let inner = spec_parse_string(s@, cur + 1 as int);
                match inner {
                    Some(p) => {
                        assert(acc_old + (seq![c] + p.0) =~= acc@ + p.0);
                    },
                    None => {},
                }
            }
            cur += 1;
        }
    }
    None
}

/// The end of the digit run starting at `from`.
fn digit_run(s: &Vec<char>, from: usize) -> (r: usize)
    requires
        from <= s@.len(),
    ensures
        r as int == spec_digit_run_end(s@, from as int),
        from <= r <= s@.len(),
        forall|k: int| from <= k < r ==> is_digit_char(#[trigger] s@[k]),
{
    let n = s.len();
    let mut end = from;
    while end < n && is_digit_exec(s[end])
        invariant
            from <= end <= n,
            n == s@.len(),
            spec_digit_run_end(s@, from as int) == spec_digit_run_end(s@, end as int),
            forall|k: int| from <= k < end ==> is_digit_char(#[trigger] s@[k]),
        decreases n - end,
    {
        end += 1;
    }
    end
}

/// The characters of `s` between two positions, copied out.
fn copy_range(s: &Vec<char>, from: usize, to: usize) -> (r: Vec<char>)
    requires
        from <= to <= s@.len(),
    ensures
        r@ == s@.subrange(from as int, to as int),
{
    let mut r: Vec<char> = Vec::new();
    let mut k = from;
    while k < to
        invariant
            from <= k <= to <= s@.len(),
            r@ == s@.subrange(from as int, k as int),
        decreases to - k,
    {
        r.push(s[k]);
        proof {
            assert(r@ =~= s@.subrange(from as int, k + 1));
        }
        k += 1;
    }
    r
}

/// Reads a number: a wire-sized plain integer exactly, anything else as
/// its lexeme.
fn parse_number(s: &Vec<char>, i: usize) -> (r: Option<(JsonValue, usize)>)
    requires
        i < s@.len(),
    ensures
        r matches Some(p) ==> spec_parse_number(s@, i as int) == Some((view_json(p.0),
        p.1 as int)) && i < p.1 <= s@.len(),
        r is None ==> spec_parse_number(s@, i as int) is None,
{
    let n = s.len();
    let neg = s[i] == '-';
    let d0 = if neg {
        i + 1
    } else {
        i
    };
    let end = digit_run(s, d0);
    if end <= d0 {
        return None;
    }
    if s[d0] as u32 == 48 && end - d0 > 1 {
        return None;
    }
    // fraction part
    let mut stop = end;
    if stop < n && s[stop] == '.' {
        let fe = digit_run(s, stop + 1);
        if fe == stop + 1 {
            return None;
        }
        stop = fe;
    }
    proof {
        assert(stop as int == spec_frac_end(s@, end as int));
    }
    // exponent part
    let ghost fend = stop as int;
    if stop < n && (s[stop] == 'e' || s[stop] == 'E') {
        let q = if stop + 1 < n && (s[stop + 1] == '+' || s[stop + 1] == '-') {
            stop + 2
        } else {
            stop + 1
        };
        let xe = digit_run(s, q);
        if xe == q {
            return None;
        }
        stop = xe;
    }
    proof {
        assert(stop as int == spec_exp_end(s@, fend));
    }
    if stop != end {
        return Some((JsonValue::Num(copy_range(s, i, stop)), stop));
    }
    if end - d0 > 20 {
        return Some((JsonValue::Num(copy_range(s, i, end)), end));
    }
    let mut acc: u128 = 0;
    let mut k = d0;
    proof {
        lemma_pow10_20();
        lemma_pow10_le(0, 20);
    }
    while k < end
        invariant
            d0 <= k <= end <= s@.len(),
            end - d0 <= 20,
            forall|j: int| d0 <= j < end ==> is_digit_char(#[trigger] s@[j]),
            acc as int == spec_digits_val(s@, d0 as int, k as int),
            (acc as int) < pow10(k - d0),
            pow10(20) == 100000000000000000000,
        decreases end - k,
    {
        let d = (s[k] as u32 - 48) as u128;
        proof {
            lemma_pow10_le(k - d0, 19);
            assert(pow10(k - d0 + 1) == 10 * pow10(k - d0));
            lemma_pow10_le(k - d0 + 1, 20);
        }
        acc = acc * 10 + d;
        k += 1;
    }
    if acc > u64::MAX as u128 {
        return Some((JsonValue::Num(copy_range(s, i, end)), end));
    }
    let value: i128 = if neg {
        -(acc as i128)
    } else {
        acc as i128
    };
    Some((JsonValue::Int(value), end))
}

/// Reads one document starting at `i`, which must not be whitespace.
fn parse_value(s: &Vec<char>, i: usize) -> (r: Option<(JsonValue, usize)>)
    requires
        i <= s@.len(),
    ensures
        r matches Some(p) ==> spec_parse_value(s@, i as int) == Some((view_json(p.0),
        p.1 as int)) && i < p.1 <= s@.len(),
        r is None ==> spec_parse_value(s@, i as int) is None,
    decreases s@.len() - i, 2int,
{
    let n = s.len();
    if i >= n {
        return None;
    }
    let c = s[i];
    if c == 'n' {
        if n - i >= 4 && s[i + 1] == 'u' && s[i + 2] == 'l' && s[i + 3] == 'l' {
            Some((JsonValue::Null, i + 4))
        } else {
            None
        }
    } else if c == 't' {
        if n - i >= 4 && s[i + 1] == 'r' && s[i + 2] == 'u' && s[i + 3] == 'e' {
            Some((JsonValue::Bool(true), i + 4))
        } else {
            None
        }
    } else if c == 'f' {
        if n - i >= 5 && s[i + 1] == 'a' && s[i + 2] == 'l' && s[i + 3] == 's' && s[i + 4] == 'e' {
            Some((JsonValue::Bool(false), i + 5))
        } else {
            None
        }
    } else if c == '"' {
        match parse_string(s, i + 1) {
            Some((cs, j)) => Some((JsonValue::Str(cs), j)),
            None => None,
        }
    } else if c == '-' || is_digit_exec(c) {
        parse_number(s, i)
    } else if c == '[' {
        let j = skip_ws(s, i + 1);
        if j < n && s[j] == ']' {
            proof {
                assert(view_items(Seq::<JsonValue>::empty()) =~= Seq::<SpecJson>::empty());
            }
            Some((JsonValue::Arr(Vec::new()), j + 1))
        } else {
            match parse_items(s, j) {
                Some((items, j2)) => Some((JsonValue::Arr(items), j2)),
                None => None,
            }
        }
    } else if c == '{' {
        let j = skip_ws(s, i + 1);
        if j < n && s[j] == '}' {
            proof {
                assert(view_entries(Seq::<(Vec<char>, JsonValue)>::empty())
                    =~= Seq::<(Seq<char>, SpecJson)>::empty());
            }
            Some((JsonValue::Obj(Vec::new()), j + 1))
        } else {
            match parse_entries(s, j) {
                Some((entries, j2)) => Some((JsonValue::Obj(entries), j2)),
                None => None,
            }
        }
    } else {
        None
    }
}

/// Reads the elements of a non-empty array, including the closing
/// bracket.
fn parse_items(s: &Vec<char>, i: usize) -> (r: Option<(Vec<JsonValue>, usize)>)
    requires
        i <= s@.len(),
    ensures
        r matches Some(p) ==> spec_parse_items(s@, i as int) == Some((view_items(p.0@),
        p.1 as int)) && i < p.1 <= s@.len(),
        r is None ==> spec_parse_items(s@, i as int) is None,
    decreases s@.len() - i, 3int,
{
    let n = s.len();
    match parse_value(s, i) {
        None => None,
        Some((v, j)) => {
            let k = skip_ws(s, j);
            if k >= n {
                return None;
            }
            if s[k] == ',' {
                let k2 = skip_ws(s, k + 1);
                match parse_items(s, k2) {
                    Some((rest, j2)) => {
                        let ghost rest_view = rest@;
                        let mut items = rest;
                        items.insert(0, v);
                        proof {
                            assert(items@ =~= seq![v] + rest_view);
                            assert((seq![v] + rest_view).drop_first() =~= rest_view);
                            assert(view_items(items@) =~= seq![view_json(v)] + view_items(
                                rest_view,
                            ));
                        }
                        Some((items, j2))
                    },
                    None => None,
                }
            } else if s[k] == ']' {
                let mut items: Vec<JsonValue> = Vec::new();
                items.push(v);
                proof {
                    assert(items@ =~= seq![v]);
                    assert(items@.drop_first() =~= Seq::<JsonValue>::empty());
                    assert(view_items(items@.drop_first()) =~= Seq::<SpecJson>::empty());
                    assert(view_items(items@) =~= seq![view_json(v)]);
                }
                Some((items, k + 1))
            } else {
                None
            }
        },
    }
}

/// Reads the fields of a non-empty object, including the closing brace.
fn parse_entries(s: &Vec<char>, i: usize) -> (r: Option<(Vec<(Vec<char>, JsonValue)>, usize)>)
    requires
        i <= s@.len(),
    ensures
        r matches Some(p) ==> spec_parse_entries(s@, i as int) == Some((view_entries(p.0@),
        p.1 as int)) && i < p.1 <= s@.len(),
        r is None ==> spec_parse_entries(s@, i as int) is None,
    decreases s@.len() - i, 3int,
{
    let n = s.len();
    if i >= n || s[i] != '"' {
        return None;
    }
    match parse_string(s, i + 1) {
        None => None,
        Some((key, j)) => {
            let k = skip_ws(s, j);
            if k >= n || s[k] != ':' {
                return None;
            }
            let k2 = skip_ws(s, k + 1);
            match parse_value(s, k2) {
                None => None,
                Some((v, j2)) => {
                    let k3 = skip_ws(s, j2);
                    if k3 >= n {
                        return None;
                    }
                    if s[k3] == ',' {
                        let k4 = skip_ws(s, k3 + 1);
                        match parse_entries(s, k4) {
                            Some((rest, j3)) => {
                                let ghost rest_view = rest@;
                                let ghost key_view = key@;
                                let mut entries = rest;
                                entries.insert(0, (key, v));
                                proof {
                                    assert(entries@ =~= seq![(key, v)] + rest_view);
                                    assert((seq![(key, v)] + rest_view).drop_first() =~= rest_view);
                                    assert(view_entries(entries@) =~= seq![(key_view, view_json(v))]
                                        + view_entries(rest_view));
                                }
                                Some((entries, j3))
                            },
                            None => None,
                        }
                    } else if s[k3] == '}' {
                        let mut entries: Vec<(Vec<char>, JsonValue)> = Vec::new();
                        entries.push((key, v));
                        proof {
                            assert(entries@.drop_first() =~= Seq::<(Vec<char>, JsonValue)>::empty());
                            assert(view_entries(entries@.drop_first()) =~= Seq::<(
                                Seq<char>,
                                SpecJson,
                            )>::empty());
                            assert(view_entries(entries@) =~= seq![(key@, view_json(v))]);
                        }
                        Some((entries, k3 + 1))
                    } else {
                        None
                    }
                },
            }
        },
    }
}

/// Reads a whole frame: one document surrounded by nothing but
/// whitespace. Anything else — trailing text, malformed numbers,
/// unknown escapes — yields nothing, and the frame is unrecognized.
pub fn parse_json(s: &Vec<char>) -> (r: Option<JsonValue>)
    ensures
        r matches Some(v) ==> spec_parse_json(s@) == Some(view_json(v)),
        r is None ==> spec_parse_json(s@) is None,
{
    let i = skip_ws(s, 0);
    match parse_value(s, i) {
        Some((v, j)) => {
            let k = skip_ws(s, j);
            if k == s.len() {
                Some(v)
            } else {
                None
            }
        },
        None => None,
    }
}

// ---------------------------------------------------------------------------
// Field lookup at the shape level, and its agreement with lookup on the
// carried values.
// ---------------------------------------------------------------------------

/// The first field with the given key, among shape-level fields.
pub open spec fn sj_obj_get(entries: Seq<(Seq<char>, SpecJson)>, key: Seq<char>) -> Option<SpecJson>
    decreases entries.len(),
{
    if entries.len() == 0 {
        None
    } else if entries[0].0 == key {
        Some(entries[0].1)
    } else {
        sj_obj_get(entries.drop_first(), key)
    }
}

/// The value under a key of a shape-level object.
pub open spec fn sj_field(j: SpecJson, key: Seq<char>) -> Option<SpecJson> {
    match j {
        SpecJson::Obj(entries) => sj_obj_get(entries, key),
        _ => None,
    }
}

proof fn lemma_obj_get_view(entries: Seq<(Vec<char>, JsonValue)>, key: Seq<char>)
    ensures
        match crate::json::spec_obj_get(entries, key) {
            Some(v) => sj_obj_get(view_entries(entries), key) == Some(view_json(v)),
            None => sj_obj_get(view_entries(entries), key) is None,
        },
    decreases entries.len(),
{
    if entries.len() > 0 {
        assert(view_entries(entries)[0] == (entries[0].0@, view_json(entries[0].1)));
        if entries[0].0@ != key {
            lemma_obj_get_view(entries.drop_first(), key);
            assert(view_entries(entries).drop_first() =~= view_entries(entries.drop_first()));
            assert(crate::json::obj_key_index(entries, key) == {
                let rest = crate::json::obj_key_index(entries.drop_first(), key);
                if rest < 0 {
                    -1
                } else {
                    rest + 1
                }
            });
            let rest = crate::json::obj_key_index(entries.drop_first(), key);
            if rest >= 0 {
                crate::json::lemma_obj_key_index(entries.drop_first(), key);
                assert(entries[rest + 1] == entries.drop_first()[rest]);
            }
        }
    }
}

/// A document's shape is a string, array or object exactly when the
/// document is.
pub proof fn lemma_view_kind(v: JsonValue)
    ensures
        (view_json(v) is Str) <==> v is Str,
        (view_json(v) is Arr) <==> v is Arr,
        (view_json(v) is Obj) <==> v is Obj,
        (view_json(v) is Null) <==> v is Null,
{
}

/// A successful shape-level lookup names a field of the object.
pub proof fn lemma_sj_obj_get_index(entries: Seq<(Seq<char>, SpecJson)>, key: Seq<char>)
    ensures
        sj_obj_get(entries, key) matches Some(v) ==> exists|a: int|
            0 <= a < entries.len() && (#[trigger] entries[a]).0 == key && entries[a].1 == v,
    decreases entries.len(),
{
    if entries.len() > 0 {
        if entries[0].0 == key {
        } else {
            lemma_sj_obj_get_index(entries.drop_first(), key);
            match sj_obj_get(entries, key) {
                Some(v) => {
                    let rest = entries.drop_first();
                    let a = choose|a: int|
                        0 <= a < rest.len() && (#[trigger] rest[a]).0 == key && rest[a].1 == v;
                    assert(entries[a + 1] == rest[a]);
                },
                None => {},
            }
        }
    }
}

/// A successful field lookup names a field of the object's shape.
pub proof fn lemma_sj_field_index(f: SpecJson, key: Seq<char>)
    ensures
        sj_field(f, key) matches Some(v) ==> (f is Obj && exists|a: int|
            0 <= a < f->Obj_0.len() && (#[trigger] f->Obj_0[a]).0 == key && f->Obj_0[a].1 == v),
{
    match f {
        SpecJson::Obj(entries) => {
            lemma_sj_obj_get_index(entries, key);
        },
        _ => {},
    }
}

/// Looking a key up on a document and looking it up on the document's
/// shape agree.
pub proof fn lemma_sj_field(j: JsonValue, key: Seq<char>)
    ensures
        match j.spec_field(key) {
            Some(v) => sj_field(view_json(j), key) == Some(view_json(v)),
            None => sj_field(view_json(j), key) is None,
        },
{
    match j {
        JsonValue::Obj(entries) => {
            lemma_obj_get_view(entries@, key);
        },
        _ => {},
    }
}

/// A copy of a text.
pub fn clone_chars(v: &Vec<char>) -> (r: Vec<char>)
    ensures
        r@ == v@,
{
    let n = v.len();
    let mut r: Vec<char> = Vec::new();
    let mut i: usize = 0;
    while i < n
        invariant
            i <= n,
            n == v@.len(),
            r@ == v@.subrange(0, i as int),
        decreases n - i,
    {
        r.push(v[i]);
        proof {
            assert(r@ =~= v@.subrange(0, i + 1));
        }
        i += 1;
    }
    proof {
        assert(v@.subrange(0, n as int) =~= v@);
    }
    r
}

/// A copy of a document: same shape.
pub fn clone_json(v: &JsonValue) -> (r: JsonValue)
    ensures
        view_json(r) == view_json(*v),
    decreases *v,
{
    match v {
        JsonValue::Null => JsonValue::Null,
        JsonValue::Bool(b) => JsonValue::Bool(*b),
        JsonValue::Int(n) => JsonValue::Int(*n),
        JsonValue::Num(s) => JsonValue::Num(clone_chars(s)),
        JsonValue::Str(s) => JsonValue::Str(clone_chars(s)),
        JsonValue::Arr(items) => {
            let n = items.len();
            let mut out: Vec<JsonValue> = Vec::new();
            let mut i: usize = 0;
            proof {
                lemma_view_items_index(items@);
            }
            while i < n
                invariant
                    i <= n,
                    n == items@.len(),
                    *v == JsonValue::Arr(*items),
                    view_items(items@).len() == n,
                    forall|k: int|
                        0 <= k < n ==> view_items(items@)[k] == view_json(#[trigger] items@[k]),
                    view_items(out@) == view_items(items@).subrange(0, i as int),
                decreases n - i,
            {
                proof {
                    assert(decreases_to!(*v => v->Arr_0@[i as int]));
                    assert(v->Arr_0@[i as int] == items@[i as int]);
                }
                let ghost pre = out@;
                out.push(clone_json(&items[i]));
                proof {
                    lemma_view_items_push(pre, out@.last());
                    assert(view_items(out@) =~= view_items(items@).subrange(0, i + 1));
                }
                i += 1;
            }
            let r = JsonValue::Arr(out);
            proof {
                assert(view_items(items@).subrange(0, n as int) =~= view_items(items@));
            }
            r
        },
        JsonValue::Obj(entries) => {
            let n = entries.len();
            let mut out: Vec<(Vec<char>, JsonValue)> = Vec::new();
            let mut i: usize = 0;
            proof {
                lemma_view_entries_index(entries@);
            }
            while i < n
                invariant
                    i <= n,
                    n == entries@.len(),
                    *v == JsonValue::Obj(*entries),
                    view_entries(entries@).len() == n,
                    forall|k: int|
                        0 <= k < n ==> view_entries(entries@)[k] == ((#[trigger] entries@[k]).0@,
                        view_json(entries@[k].1)),
                    view_entries(out@) == view_entries(entries@).subrange(0, i as int),
                decreases n - i,
            {
                proof {
                    assert(decreases_to!(*v => v->Obj_0@[i as int].1));
                    assert(v->Obj_0@[i as int].1 == entries@[i as int].1);
                }
                let ghost pre = out@;
                let key = clone_chars(&entries[i].0);
                let val = clone_json(&entries[i].1);
                out.push((key, val));
                proof {
                    lemma_view_entries_push(pre, out@.last());
                    assert(view_entries(out@) =~= view_entries(entries@).subrange(0, i + 1));
                }
                i += 1;
            }
            let r = JsonValue::Obj(out);
            proof {
                assert(view_entries(entries@).subrange(0, n as int) =~= view_entries(entries@));
            }
            r
        },
    }
}

// ---------------------------------------------------------------------------
// Round trip: parsing the canonical text of a well-formed document gives
// the document back. The lemmas below build up to that statement.
// ---------------------------------------------------------------------------

proof fn lemma_escape_front(cs: Seq<char>)
    requires
        cs.len() > 0,
    ensures
        spec_escape(cs) == spec_escape_char(cs[0]) + spec_escape(cs.drop_first()),
    decreases cs.len(),
{
    if cs.len() == 1 {
        assert(cs.drop_last() =~= Seq::<char>::empty());
        assert(cs.drop_first() =~= Seq::<char>::empty());
        assert(spec_escape(Seq::<char>::empty()) == Seq::<char>::empty());
        assert(cs.last() == cs[0]);
        assert(spec_escape(cs) =~= spec_escape_char(cs[0]) + spec_escape(cs.drop_first()));
    } else {
        lemma_escape_front(cs.drop_last());
        assert(cs.drop_last()[0] == cs[0]);
        assert(cs.drop_last().drop_first() =~= cs.drop_first().drop_last());
        assert(cs.drop_first().last() == cs.last());
        assert(spec_escape(cs.drop_first()) == spec_escape(cs.drop_first().drop_last())
            + spec_escape_char(cs.last()));
        assert(spec_escape(cs) =~= spec_escape_char(cs[0]) + spec_escape(cs.drop_first()));
    }
}

proof fn lemma_render_items_front(items: Seq<SpecJson>)
    requires
        items.len() > 0,
    ensures
        items.len() == 1 ==> spec_render_items(items) == spec_render(items[0]),
        items.len() > 1 ==> spec_render_items(items) == spec_render(items[0]) + seq![',']
            + spec_render_items(items.drop_first()),
    decreases items.len(),
{
    if items.len() == 1 {
    } else if items.len() == 2 {
        assert(items.drop_last()[0] == items[0]);
        assert(items.drop_last().len() == 1);
        assert(items.drop_first().len() == 1);
        assert(items.drop_first()[0] == items.last());
        assert(spec_render_items(items.drop_last()) == spec_render(items[0]));
        assert(spec_render_items(items.drop_first()) == spec_render(items.last()));
        assert(spec_render_items(items) =~= spec_render(items[0]) + seq![',']
            + spec_render_items(items.drop_first()));
    } else {
        lemma_render_items_front(items.drop_last());
        assert(items.drop_last()[0] == items[0]);
        assert(items.drop_last().drop_first() =~= items.drop_first().drop_last());
        assert(items.drop_first().last() == items.last());
        assert(items.drop_first().len() > 1);
        assert(spec_render_items(items.drop_first()) == spec_render_items(
            items.drop_first().drop_last(),
        ) + seq![','] + spec_render(items.last()));
        assert(spec_render_items(items) =~= spec_render(items[0]) + seq![',']
            + spec_render_items(items.drop_first()));
    }
}

proof fn lemma_render_entries_front(entries: Seq<(Seq<char>, SpecJson)>)
    requires
        entries.len() > 0,
    ensures
        entries.len() == 1 ==> spec_render_entries(entries) == spec_render_entry(entries[0]),
        entries.len() > 1 ==> spec_render_entries(entries) == spec_render_entry(entries[0])
            + seq![','] + spec_render_entries(entries.drop_first()),
    decreases entries.len(),
{
    if entries.len() == 1 {
    } else if entries.len() == 2 {
        assert(entries.drop_last()[0] == entries[0]);
        assert(entries.drop_last().len() == 1);
        assert(entries.drop_first().len() == 1);
        assert(entries.drop_first()[0] == entries.last());
        assert(spec_render_entries(entries.drop_last()) == spec_render_entry(entries[0]));
        assert(spec_render_entries(entries.drop_first()) == spec_render_entry(entries.last()));
        assert(spec_render_entries(entries) =~= spec_render_entry(entries[0]) + seq![',']
            + spec_render_entries(entries.drop_first()));
    } else {
        lemma_render_entries_front(entries.drop_last());
        assert(entries.drop_last()[0] == entries[0]);
        assert(entries.drop_last().drop_first() =~= entries.drop_first().drop_last());
        assert(entries.drop_first().last() == entries.last());
        assert(entries.drop_first().len() > 1);
        assert(spec_render_entries(entries.drop_first()) == spec_render_entries(
            entries.drop_first().drop_last(),
        ) + seq![','] + spec_render_entry(entries.last()));
        assert(spec_render_entries(entries) =~= spec_render_entry(entries[0]) + seq![',']
            + spec_render_entries(entries.drop_first()));
    }
}

proof fn lemma_digit_char_props(d: int)
    requires
        0 <= d < 10,
    ensures
        is_digit_char(spec_digit_char(d)),
        spec_digit_char(d) as u32 == 48 + d,
        !is_json_ws(spec_digit_char(d)),
        spec_digit_char(d) != '-',
        spec_digit_char(d) as u32 - 48 == d,
{
}

proof fn lemma_hex_char_props(d: int)
    requires
        0 <= d < 16,
    ensures
        spec_hex_val(spec_hex_char(d)) == d,
{
}

/// The digits of `n`: all decimal, never starting with a zero unless
/// `n` is zero, and no longer than the matching power of ten allows.
proof fn lemma_digits_props(n: int, k: int)
    requires
        0 <= n,
        1 <= k,
        n < pow10(k),
    ensures
        1 <= spec_digits(n).len() <= k,
        forall|i: int| 0 <= i < spec_digits(n).len() ==> is_digit_char(#[trigger] spec_digits(n)[i]),
        spec_digits(n)[0] as u32 == 48 ==> n == 0,
    decreases n,
{
    if n < 10 {
        lemma_digit_char_props(n);
        assert(spec_digits(n)[0] == spec_digit_char(n));
        if spec_digits(n)[0] as u32 == 48 {
            assert(n == 0);
        }
    } else {
        assert(k >= 2) by {
            if k == 1 {
                assert(pow10(0) == 1);
                assert(pow10(1) == 10);
            }
        }
        assert(n / 10 < pow10(k - 1)) by {
            assert(pow10(k) == 10 * pow10(k - 1));
        }
        lemma_digits_props(n / 10, k - 1);
        lemma_digit_char_props(n % 10);
        assert(spec_digits(n) == spec_digits(n / 10).push(spec_digit_char(n % 10)));
        assert(spec_digits(n)[0] == spec_digits(n / 10)[0]);
        assert(forall|i: int|
            0 <= i < spec_digits(n).len() - 1 ==> spec_digits(n)[i] == spec_digits(n / 10)[i]);
        if spec_digits(n)[0] as u32 == 48 {
            assert(n / 10 == 0);
            assert(false);
        }
    }
}

/// Reading the digits of `n` back as a value in place gives `n`.
proof fn lemma_digits_val_of(n: int, s: Seq<char>, a: int)
    requires
        0 <= n,
        0 <= a,
        a + spec_digits(n).len() <= s.len(),
        s.subrange(a, a + spec_digits(n).len() as int) == spec_digits(n),
    ensures
        spec_digits_val(s, a, a + spec_digits(n).len() as int) == n,
    decreases n,
{
    let m = spec_digits(n).len() as int;
    if n < 10 {
        lemma_digit_char_props(n);
        assert(s[a] == spec_digits(n)[0]);
        assert(spec_digits_val(s, a, a + 1) == spec_digits_val(s, a, a) * 10 + (s[a] as u32 - 48));
    } else {
        lemma_digit_char_props(n % 10);
        assert(spec_digits(n) == spec_digits(n / 10).push(spec_digit_char(n % 10)));
        assert(s.subrange(a, a + m - 1) =~= spec_digits(n / 10)) by {
            assert(forall|i: int|
                0 <= i < m - 1 ==> s.subrange(a, a + m)[i] == #[trigger] spec_digits(n)[i]);
        }
        lemma_digits_val_of(n / 10, s, a);
        assert(s[a + m - 1] == spec_digits(n)[m - 1]);
        assert(spec_digits(n)[m - 1] == spec_digit_char(n % 10));
        assert(spec_digits_val(s, a, a + m) == spec_digits_val(s, a, a + m - 1) * 10 + (s[a + m
            - 1] as u32 - 48));
    }
}

/// The rendered text of a well-formed document is never empty, never
/// starts with whitespace, and never starts with a closing bracket or
/// separator.
proof fn lemma_render_first(j: SpecJson)
    requires
        wf_json(j),
    ensures
        spec_render(j).len() > 0,
        !is_json_ws(spec_render(j)[0]),
        spec_render(j)[0] != ']',
        spec_render(j)[0] != '}',
        spec_render(j)[0] != ',',
    decreases j,
{
    reveal_strlit("null");
    reveal_strlit("true");
    reveal_strlit("false");
    match j {
        SpecJson::Null => {
            assert("null"@[0] == 'n');
        },
        SpecJson::Bool(b) => {
            if b {
                assert("true"@[0] == 't');
            } else {
                assert("false"@[0] == 'f');
            }
        },
        SpecJson::Num(_) => {
            assert(false);
        },
        SpecJson::Int(n) => {
            if n < 0 {
                assert(spec_render(j)[0] == '-');
            } else {
                lemma_pow10_pos(0);
                if n < 10 {
                    lemma_digit_char_props(n);
                    assert(spec_render(j)[0] == spec_digit_char(n));
                } else {
                    assert(spec_digits(n) == spec_digits(n / 10).push(spec_digit_char(n % 10)));
                    lemma_render_first_digits(n);
                    assert(spec_render(j) == spec_digits(n));
                    assert(spec_render(j)[0] as u32 != 93 && spec_render(j)[0] as u32 != 125
                        && spec_render(j)[0] as u32 != 44);
                }
            }
        },
        SpecJson::Str(cs) => {
            assert(spec_render(j)[0] == '"');
        },
        SpecJson::Arr(items) => {
            assert(spec_render(j)[0] == '[');
        },
        SpecJson::Obj(entries) => {
            assert(spec_render(j)[0] == '{');
        },
    }
}

proof fn lemma_render_first_digits(n: int)
    requires
        0 <= n,
    ensures
        spec_digits(n).len() > 0,
        is_digit_char(spec_digits(n)[0]),
        !is_json_ws(spec_digits(n)[0]),
        spec_digits(n)[0] != ']',
        spec_digits(n)[0] != '}',
        spec_digits(n)[0] != ',',
    decreases n,
{
    if n < 10 {
        lemma_digit_char_props(n);
    } else {
        lemma_render_first_digits(n / 10);
        assert(spec_digits(n) == spec_digits(n / 10).push(spec_digit_char(n % 10)));
        assert(spec_digits(n)[0] == spec_digits(n / 10)[0]);
    }
}

/// A digit run over a known span ends exactly at its end.
pub proof fn lemma_digit_run_end_at(s: Seq<char>, a: int, b: int)
    requires
        0 <= a <= b <= s.len(),
        forall|k: int| a <= k < b ==> is_digit_char(#[trigger] s[k]),
        b == s.len() || !is_digit_char(s[b]),
    ensures
        spec_digit_run_end(s, a) == b,
    decreases b - a,
{
    if a < b {
        lemma_digit_run_end_at(s, a + 1, b);
    }
}

/// Parsing the rendered text of an integer in place gives the integer
/// back, provided what follows cannot extend the number.
proof fn lemma_parse_number_render(n: int, s: Seq<char>, i: int)
    requires
        -(u64::MAX as int) <= n <= u64::MAX as int,
        0 <= i,
        i + spec_render_int(n).len() <= s.len(),
        s.subrange(i, i + spec_render_int(n).len() as int) == spec_render_int(n),
        ({
            let e = i + spec_render_int(n).len() as int;
            e == s.len() || (!is_digit_char(s[e]) && s[e] != '.' && s[e] != 'e' && s[e] != 'E')
        }),
    ensures
        spec_parse_number(s, i) == Some(
            (SpecJson::Int(n), i + spec_render_int(n).len() as int),
        ),
{
    lemma_pow10_20();
    let m = if n < 0 { -n } else { n };
    assert(m < pow10(20));
    lemma_digits_props(m, 20);
    let dl = spec_digits(m).len() as int;
    let d0 = if n < 0 { i + 1 } else { i };
    let e = i + spec_render_int(n).len() as int;
    assert(e == d0 + dl);
    if n < 0 {
        assert(spec_render_int(n) == seq!['-'] + spec_digits(m));
        assert(s[i] == s.subrange(i, e)[0]);
        assert(spec_render_int(n)[0] == '-');
        assert(s[i] == '-');
        assert forall|k: int| 0 <= k < dl implies s[d0 + k] == #[trigger] spec_digits(m)[k] by {
            assert(s.subrange(i, e)[k + 1] == spec_render_int(n)[k + 1]);
            assert(spec_render_int(n)[k + 1] == spec_digits(m)[k]);
        }
        assert(s.subrange(d0, e) =~= spec_digits(m));
    } else {
        assert(spec_render_int(n) == spec_digits(m));
        assert(s.subrange(d0, e) =~= spec_digits(m));
        assert forall|k: int| 0 <= k < dl implies s[d0 + k] == #[trigger] spec_digits(m)[k] by {
            assert(s.subrange(d0, e)[k] == spec_digits(m)[k]);
        }
        assert(s[i] == spec_digits(m)[0]);
        lemma_render_first_digits(m);
        assert(is_digit_char(s[i]));
        assert(s[i] as u32 != 45);
        assert(s[i] != '-');
    }
    assert forall|k: int| d0 <= k < e implies is_digit_char(#[trigger] s[k]) by {
        assert(s[k] == spec_digits(m)[k - d0]);
    }
    lemma_digit_run_end_at(s, d0, e);
    assert(spec_digit_run_end(s, d0) == e);
    assert(e > d0);
    assert(e - d0 <= 20);
    if s[d0] as u32 == 48 && e - d0 > 1 {
        assert(s[d0] == spec_digits(m)[0]);
        assert(m == 0);
        assert(dl == 1);
        assert(false);
    }
    lemma_digits_val_of(m, s, d0);
    assert(spec_digits_val(s, d0, e) == m);
    assert(m <= u64::MAX as int);
}

/// Parsing a rendered string body in place, from just after its opening
/// quote up to its closing quote, gives the characters back.
proof fn lemma_parse_string_render(cs: Seq<char>, s: Seq<char>, i: int)
    requires
        0 <= i,
        i + spec_escape(cs).len() + 1 <= s.len(),
        s.subrange(i, i + spec_escape(cs).len() as int) == spec_escape(cs),
        s[i + spec_escape(cs).len() as int] == '"',
    ensures
        spec_parse_string(s, i) == Some((cs, i + spec_escape(cs).len() + 1)),
    decreases cs.len(),
{
    let el = spec_escape(cs).len() as int;
    if cs.len() == 0 {
        assert(el == 0);
        assert(s[i] == '"');
    } else {
        lemma_escape_front(cs);
        let c = cs[0];
        let ec = spec_escape_char(c);
        let rest = cs.drop_first();
        let rl = spec_escape(rest).len() as int;
        assert(el == ec.len() + rl);
        assert(forall|k: int| 0 <= k < el ==> s[i + k] == #[trigger] spec_escape(cs)[k]);
        assert(forall|k: int| 0 <= k < ec.len() ==> spec_escape(cs)[k] == #[trigger] ec[k]);
        assert(forall|k: int|
            0 <= k < rl ==> spec_escape(cs)[ec.len() + k] == #[trigger] spec_escape(rest)[k]);
        let i2 = i + ec.len() as int;
        assert(s.subrange(i2, i2 + rl) =~= spec_escape(rest));
        assert(s[i2 + rl] == '"');
        lemma_parse_string_render(rest, s, i2);
        assert(seq![c] + rest =~= cs);
        if c == '"' {
            assert(ec =~= seq!['\\', '"']);
            assert(s[i] == '\\' && s[i + 1] == '"');
        } else if c == '\\' {
            assert(ec =~= seq!['\\', '\\']);
            assert(s[i] == '\\' && s[i + 1] == '\\');
        } else if (c as u32) < 32 {
            let hi = (c as u32 / 16) as int;
            let lo = (c as u32 % 16) as int;
            assert(ec =~= seq!['\\', 'u', '0', '0', spec_hex_char(hi), spec_hex_char(lo)]);
            assert(s[i] == '\\' && s[i + 1] == 'u');
            assert(s[i + 2] == '0' && s[i + 3] == '0');
            assert(s[i + 4] == spec_hex_char(hi) && s[i + 5] == spec_hex_char(lo));
            lemma_hex_char_props(hi);
            lemma_hex_char_props(lo);
            assert(spec_hex_val('0') == 0);
            let h = spec_hex4(s, i + 2);
            assert(h == hi * 16 + lo);
            assert(h == c as u32);
            assert(0 <= h < 128);
            assert((h as u8) as u32 == h);
            assert(((h as u8) as char) as u32 == h);
            assert(((h as u8) as char) as u32 == c as u32);
            vstd::utf8::char_u32_cast(c, c as u32);
            vstd::utf8::char_u32_cast((h as u8) as char, ((h as u8) as char) as u32);
            assert(((h as u8) as char) == c);
        } else {
            assert(ec =~= seq![c]);
            assert(s[i] == c);
            assert(c != '"' && c != '\\' && (c as u32) >= 32);
        }
    }
}

/// The condition a number needs of what follows it: the next character,
/// if any, cannot extend the number.
pub open spec fn no_number_extension(s: Seq<char>, e: int) -> bool {
    e == s.len() || (!is_digit_char(s[e]) && s[e] != '.' && s[e] != 'e' && s[e] != 'E')
}

/// Parsing the rendered text of a well-formed document in place gives
/// the document back, consuming exactly the rendered text.
proof fn lemma_parse_value_render(j: SpecJson, s: Seq<char>, i: int)
    requires
        wf_json(j),
        0 <= i,
        i + spec_render(j).len() <= s.len(),
        s.subrange(i, i + spec_render(j).len() as int) == spec_render(j),
        no_number_extension(s, i + spec_render(j).len() as int),
    ensures
        spec_parse_value(s, i) == Some((j, i + spec_render(j).len() as int)),
    decreases j,
{
    let rl = spec_render(j).len() as int;
    let e = i + rl;
    lemma_render_first(j);
    assert forall|k: int| 0 <= k < rl implies s[i + k] == #[trigger] spec_render(j)[k] by {
        assert(s.subrange(i, e)[k] == spec_render(j)[k]);
    }
    match j {
        SpecJson::Null => {
            reveal_strlit("null");
            assert(spec_render(j)[0] == 'n' && spec_render(j)[1] == 'u' && spec_render(j)[2]
                == 'l' && spec_render(j)[3] == 'l');
            assert(s[i] == 'n' && s[i + 1] == 'u' && s[i + 2] == 'l' && s[i + 3] == 'l');
            assert(spec_render(j).len() == 4);
            assert(i + 4 <= s.len());
            assert(spec_parse_value(s, i) == Some((SpecJson::Null, i + 4)));
            assert(spec_parse_value(s, i) == Some((j, e)));
        },
        SpecJson::Bool(b) => {
            reveal_strlit("true");
            reveal_strlit("false");
            if b {
                assert(spec_render(j)[0] == 't' && spec_render(j)[1] == 'r' && spec_render(j)[2]
                    == 'u' && spec_render(j)[3] == 'e');
                assert(s[i] == 't' && s[i + 1] == 'r' && s[i + 2] == 'u' && s[i + 3] == 'e');
                assert(spec_parse_value(s, i) == Some((j, e)));
            } else {
                assert(spec_render(j)[0] == 'f' && spec_render(j)[1] == 'a' && spec_render(j)[2]
                    == 'l' && spec_render(j)[3] == 's' && spec_render(j)[4] == 'e');
                assert(s[i] == 'f' && s[i + 1] == 'a' && s[i + 2] == 'l' && s[i + 3] == 's' && s[i
                    + 4] == 'e');
                assert(spec_parse_value(s, i) == Some((j, e)));
            }
        },
        SpecJson::Num(_) => {
            assert(false);
        },
        SpecJson::Int(n) => {
            lemma_parse_number_render(n, s, i);
            assert(s[i] == '-' || is_digit_char(s[i]));
            assert(s[i] != 'n' && s[i] != 't' && s[i] != 'f' && s[i] != '"' && s[i] != '['
                && s[i] != '{');
            assert(spec_parse_value(s, i) == Some((j, e)));
        },
        SpecJson::Str(cs) => {
            let el = spec_escape(cs).len() as int;
            assert(spec_render(j) == seq!['"'] + spec_escape(cs) + seq!['"']);
            assert(s[i] == '"');
            assert forall|k: int| 0 <= k < el implies s[i + 1 + k] == #[trigger] spec_escape(
                cs,
            )[k] by {
                assert(spec_render(j)[1 + k] == spec_escape(cs)[k]);
            }
            assert(s.subrange(i + 1, i + 1 + el) =~= spec_escape(cs));
            assert(spec_render(j)[1 + el] == '"');
            assert(s[i + 1 + el] == '"');
            lemma_parse_string_render(cs, s, i + 1);
            assert(spec_parse_value(s, i) == Some((j, e)));
        },
        SpecJson::Arr(items) => {
            assert(spec_render(j) == seq!['['] + spec_render_items(items) + seq![']']);
            assert(s[i] == '[');
            let il = spec_render_items(items).len() as int;
            assert forall|k: int| 0 <= k < il implies s[i + 1 + k] == #[trigger] spec_render_items(
                items,
            )[k] by {
                assert(spec_render(j)[1 + k] == spec_render_items(items)[k]);
            }
            assert(spec_render(j)[1 + il] == ']');
            assert(s[i + 1 + il] == ']');
            if items.len() == 0 {
                assert(il == 0);
                assert(s[i + 1] == ']');
                assert(!is_json_ws(s[i + 1]));
                assert(spec_skip_ws(s, i + 1) == i + 1);
                assert(items =~= Seq::<SpecJson>::empty());
            } else {
                lemma_render_items_front(items);
                lemma_render_first(items[0]);
                assert(spec_render_items(items)[0] == spec_render(items[0])[0]);
                assert(s[i + 1] == spec_render(items[0])[0]);
                assert(!is_json_ws(s[i + 1]));
                assert(spec_skip_ws(s, i + 1) == i + 1);
                assert(s[i + 1] != ']');
                assert(s.subrange(i + 1, i + 1 + il) =~= spec_render_items(items));
                assert(wf_json(j) ==> forall|k: int|
                    0 <= k < items.len() ==> wf_json(#[trigger] items[k]));
                lemma_parse_items_render(items, s, i + 1);
            }
            assert(spec_parse_value(s, i) == Some((j, e)));
        },
        SpecJson::Obj(entries) => {
            assert(spec_render(j) == seq!['{'] + spec_render_entries(entries) + seq!['}']);
            assert(s[i] == '{');
            let ol = spec_render_entries(entries).len() as int;
            assert forall|k: int| 0 <= k < ol implies s[i + 1 + k]
                == #[trigger] spec_render_entries(entries)[k] by {
                assert(spec_render(j)[1 + k] == spec_render_entries(entries)[k]);
            }
            assert(spec_render(j)[1 + ol] == '}');
            assert(s[i + 1 + ol] == '}');
            if entries.len() == 0 {
                assert(ol == 0);
                assert(s[i + 1] == '}');
                assert(!is_json_ws(s[i + 1]));
                assert(spec_skip_ws(s, i + 1) == i + 1);
                assert(entries =~= Seq::<(Seq<char>, SpecJson)>::empty());
            } else {
                lemma_render_entries_front(entries);
                assert(spec_render_entry(entries[0])[0] == '"');
                assert(spec_render_entries(entries)[0] == spec_render_entry(entries[0])[0]);
                assert(s[i + 1] == '"');
                assert(!is_json_ws(s[i + 1]));
                assert(spec_skip_ws(s, i + 1) == i + 1);
                assert(s[i + 1] != '}');
                assert(s.subrange(i + 1, i + 1 + ol) =~= spec_render_entries(entries));
                lemma_parse_entries_render(entries, s, i + 1);
            }
            assert(spec_parse_value(s, i) == Some((j, e)));
        },
    }
}

/// Parsing rendered array elements followed by the closing bracket
/// gives the elements back.
proof fn lemma_parse_items_render(items: Seq<SpecJson>, s: Seq<char>, i: int)
    requires
        items.len() > 0,
        forall|k: int| 0 <= k < items.len() ==> wf_json(#[trigger] items[k]),
        0 <= i,
        i + spec_render_items(items).len() + 1 <= s.len(),
        s.subrange(i, i + spec_render_items(items).len() as int) == spec_render_items(items),
        s[i + spec_render_items(items).len() as int] == ']',
    ensures
        spec_parse_items(s, i) == Some((items, i + spec_render_items(items).len() + 1)),
    decreases items,
{
    let il = spec_render_items(items).len() as int;
    lemma_render_items_front(items);
    let first = items[0];
    let fl = spec_render(first).len() as int;
    assert forall|k: int| 0 <= k < il implies s[i + k] == #[trigger] spec_render_items(items)[k] by {
        assert(s.subrange(i, i + il)[k] == spec_render_items(items)[k]);
    }
    if items.len() == 1 {
        assert(spec_render_items(items) == spec_render(first));
        assert forall|k: int| 0 <= k < fl implies s[i + k] == #[trigger] spec_render(first)[k] by {
            assert(spec_render_items(items)[k] == spec_render(first)[k]);
        }
        assert(s.subrange(i, i + fl) =~= spec_render(first));
        assert(s[i + fl] == ']');
        assert(no_number_extension(s, i + fl));
        lemma_parse_value_render(first, s, i);
        let j = i + fl;
        assert(!is_json_ws(s[j]));
        assert(spec_skip_ws(s, j) == j);
        assert(seq![first] =~= items);
    } else {
        assert(spec_render_items(items) == spec_render(first) + seq![','] + spec_render_items(
            items.drop_first(),
        ));
        assert forall|k: int| 0 <= k < fl implies s[i + k] == #[trigger] spec_render(first)[k] by {
            assert(spec_render_items(items)[k] == spec_render(first)[k]);
        }
        assert(s.subrange(i, i + fl) =~= spec_render(first));
        assert(spec_render_items(items)[fl] == ',');
        assert(s[i + fl] == ',');
        assert(no_number_extension(s, i + fl));
        lemma_parse_value_render(first, s, i);
        let j = i + fl;
        assert(!is_json_ws(s[j]));
        assert(spec_skip_ws(s, j) == j);
        assert(s[j] != ']');
        let rest = items.drop_first();
        let rl2 = spec_render_items(rest).len() as int;
        assert(il == fl + 1 + rl2);
        assert forall|k: int| 0 <= k < rl2 implies s[j + 1 + k] == #[trigger] spec_render_items(
            rest,
        )[k] by {
            assert(spec_render_items(items)[fl + 1 + k] == spec_render_items(rest)[k]);
        }
        assert(s.subrange(j + 1, j + 1 + rl2) =~= spec_render_items(rest));
        assert(s[j + 1 + rl2] == ']');
        lemma_render_items_front(rest);
        lemma_render_first(rest[0]);
        assert(spec_render_items(rest)[0] == spec_render(rest[0])[0]);
        assert(!is_json_ws(s[j + 1]));
        assert(spec_skip_ws(s, j + 1) == j + 1);
        assert(forall|k: int| 0 <= k < rest.len() ==> rest[k] == items[k + 1]);
        assert(forall|k: int| 0 <= k < rest.len() ==> wf_json(#[trigger] rest[k]));
        lemma_parse_items_render(rest, s, j + 1);
        assert(seq![first] + rest =~= items);
    }
}

/// Parsing rendered object fields followed by the closing brace gives
/// the fields back.
proof fn lemma_parse_entries_render(entries: Seq<(Seq<char>, SpecJson)>, s: Seq<char>, i: int)
    requires
        entries.len() > 0,
        forall|k: int| 0 <= k < entries.len() ==> wf_json((#[trigger] entries[k]).1),
        0 <= i,
        i + spec_render_entries(entries).len() + 1 <= s.len(),
        s.subrange(i, i + spec_render_entries(entries).len() as int) == spec_render_entries(
            entries,
        ),
        s[i + spec_render_entries(entries).len() as int] == '}',
    ensures
        spec_parse_entries(s, i) == Some((entries, i + spec_render_entries(entries).len() + 1)),
    decreases entries,
{
    let ol = spec_render_entries(entries).len() as int;
    lemma_render_entries_front(entries);
    let key = entries[0].0;
    let value = entries[0].1;
    let el = spec_render_entry(entries[0]).len() as int;
    let kl = spec_escape(key).len() as int;
    let vl = spec_render(value).len() as int;
    assert(spec_render_entry(entries[0]) == seq!['"'] + spec_escape(key) + seq!['"', ':']
        + spec_render(value));
    assert(el == kl + 3 + vl);
    assert forall|k: int| 0 <= k < ol implies s[i + k] == #[trigger] spec_render_entries(
        entries,
    )[k] by {
        assert(s.subrange(i, i + ol)[k] == spec_render_entries(entries)[k]);
    }
    assert forall|k: int| 0 <= k < el implies s[i + k] == #[trigger] spec_render_entry(
        entries[0],
    )[k] by {
        assert(spec_render_entries(entries)[k] == spec_render_entry(entries[0])[k]);
    }
    assert(spec_render_entry(entries[0])[0] == '"');
    assert(s[i] == '"');
    assert forall|k: int| 0 <= k < kl implies s[i + 1 + k] == #[trigger] spec_escape(key)[k] by {
        assert(spec_render_entry(entries[0])[1 + k] == spec_escape(key)[k]);
    }
    assert(s.subrange(i + 1, i + 1 + kl) =~= spec_escape(key));
    assert(spec_render_entry(entries[0])[1 + kl] == '"');
    assert(s[i + 1 + kl] == '"');
    lemma_parse_string_render(key, s, i + 1);
    let j = i + 1 + kl + 1;
    assert(spec_render_entry(entries[0])[kl + 2] == ':');
    assert(s[j] == ':');
    assert(!is_json_ws(s[j]));
    assert(spec_skip_ws(s, j) == j);
    let k2 = j + 1;
    lemma_render_first(value);
    assert forall|k: int| 0 <= k < vl implies s[k2 + k] == #[trigger] spec_render(value)[k] by {
        assert(spec_render_entry(entries[0])[kl + 3 + k] == spec_render(value)[k]);
    }
    assert(s.subrange(k2, k2 + vl) =~= spec_render(value));
    assert(!is_json_ws(s[k2]));
    assert(spec_skip_ws(s, k2) == k2);
    let j2 = k2 + vl;
    assert(j2 == i + el);
    if entries.len() == 1 {
        assert(spec_render_entries(entries) == spec_render_entry(entries[0]));
        assert(s[j2] == '}');
        assert(no_number_extension(s, j2));
        lemma_parse_value_render(value, s, k2);
        assert(!is_json_ws(s[j2]));
        assert(spec_skip_ws(s, j2) == j2);
        assert(seq![(key, value)] =~= entries);
    } else {
        assert(spec_render_entries(entries) == spec_render_entry(entries[0]) + seq![',']
            + spec_render_entries(entries.drop_first()));
        assert(spec_render_entries(entries)[el] == ',');
        assert(s[j2] == ',');
        assert(no_number_extension(s, j2));
        lemma_parse_value_render(value, s, k2);
        assert(!is_json_ws(s[j2]));
        assert(spec_skip_ws(s, j2) == j2);
        let rest = entries.drop_first();
        let rl2 = spec_render_entries(rest).len() as int;
        assert(ol == el + 1 + rl2);
        assert forall|k: int| 0 <= k < rl2 implies s[j2 + 1 + k] == #[trigger] spec_render_entries(
            rest,
        )[k] by {
            assert(spec_render_entries(entries)[el + 1 + k] == spec_render_entries(rest)[k]);
        }
        assert(s.subrange(j2 + 1, j2 + 1 + rl2) =~= spec_render_entries(rest));
        assert(s[j2 + 1 + rl2] == '}');
        lemma_render_entries_front(rest);
        assert(spec_render_entry(rest[0])[0] == '"');
        assert(spec_render_entries(rest)[0] == spec_render_entry(rest[0])[0]);
        assert(s[j2 + 1] == '"');
        assert(!is_json_ws(s[j2 + 1]));
        assert(spec_skip_ws(s, j2 + 1) == j2 + 1);
        assert(forall|k: int| 0 <= k < rest.len() ==> rest[k] == entries[k + 1]);
        assert(forall|k: int| 0 <= k < rest.len() ==> wf_json((#[trigger] rest[k]).1));
        lemma_parse_entries_render(rest, s, j2 + 1);
        assert(seq![(key, value)] + rest =~= entries);
    }
}

/// Round trip: parsing the canonical text of a well-formed document —
/// one whose integers are of wire-sized magnitude — gives exactly the
/// document back. With the request encoder's contract this says that
/// encoding a request and decoding the wire form reproduces its echo
/// id, its action name and its parameters.
pub proof fn lemma_parse_render_json(j: SpecJson)
    requires
        wf_json(j),
    ensures
        spec_parse_json(spec_render(j)) == Some(j),
{
    let s = spec_render(j);
    lemma_render_first(j);
    assert(spec_skip_ws(s, 0) == 0);
    assert(s.subrange(0, s.len() as int) =~= s);
    assert(no_number_extension(s, s.len() as int));
    lemma_parse_value_render(j, s, 0);
    assert(spec_skip_ws(s, s.len() as int) == s.len() as int);
}

} // verus!
