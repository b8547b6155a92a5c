use vstd::prelude::*;

use crate::json::{json_m, Json, JsonM};

verus! {

broadcast use vstd::string::group_string_axioms, vstd::std_specs::vec::group_vec_axioms, crate::json::lemma_height_entry, crate::json::lemma_height_index;

// ---------------------------------------------------------------------
// The compact text form of a JSON value
// ---------------------------------------------------------------------

/// The compact text of a JSON value: no added whitespace, properties
/// in order, absent properties never present, strings with `"`, `\`
/// and the common control characters escaped.
pub open spec fn json_text(j: JsonM) -> Seq<char>
    decreases j, 0int,
{
    match j {
        JsonM::Null => "null"@,
        JsonM::Bool(b) => if b {
            "true"@
        } else {
            "false"@
        },
        JsonM::Num(n) => num_chars(n),
        JsonM::Str(s) => seq!['"'] + escaped(s) + seq!['"'],
        JsonM::Arr(items) => seq!['['] + items_text(items, 0) + seq![']'],
        JsonM::Obj(es) => seq!['{'] + entries_text(es, 0) + seq!['}'],
    }
}

/// The text of an array's elements from index `i` on, comma-separated.
pub open spec fn items_text(s: Seq<JsonM>, i: int) -> Seq<char>
    decreases s, s.len() - i,
{
    if 0 <= i < s.len() {
        if i + 1 < s.len() {
            json_text(s[i]) + seq![','] + items_text(s, i + 1)
        } else {
            json_text(s[i])
        }
    } else {
        Seq::empty()
    }
}

/// The text of an object's properties from index `i` on.
pub open spec fn entries_text(s: Seq<(Seq<char>, JsonM)>, i: int) -> Seq<char>
    decreases s, s.len() - i,
{
    if 0 <= i < s.len() {
        let head = seq!['"'] + escaped(s[i].0) + seq!['"', ':'] + json_text(s[i].1);
        if i + 1 < s.len() {
            head + seq![','] + entries_text(s, i + 1)
        } else {
            head
        }
    } else {
        Seq::empty()
    }
}

/// A string's characters with the JSON escapes applied.
pub open spec fn escaped(s: Seq<char>) -> Seq<char>
    decreases s.len(),
{
    if s.len() == 0 {
        Seq::empty()
    } else {
        esc_char(s[0]) + escaped(s.drop_first())
    }
}

/// The escape of one character: the named short escapes where JSON has
/// them, `\u00XX` for the other control characters, and the character
/// itself otherwise.
pub open spec fn esc_char(c: char) -> Seq<char> {
    if c == '"' {
        seq!['\\', '"']
    } else if c == '\\' {
        seq!['\\', '\\']
    } else if c == '\u{8}' {
        seq!['\\', 'b']
    } else if c == '\u{c}' {
        seq!['\\', 'f']
    } else if c == '\n' {
        seq!['\\', 'n']
    } else if c == '\r' {
        seq!['\\', 'r']
    } else if c == '\t' {
        seq!['\\', 't']
    } else if (c as u32) < 32 {
        seq!['\\', 'u', '0', '0', hex_digit_s((c as u32 / 16) as int), hex_digit_s(
            (c as u32 % 16) as int,
        )]
    } else {
        seq![c]
    }
}

/// The character of one lowercase hexadecimal digit.
pub open spec fn hex_digit_s(d: int) -> char {
    if d < 10 {
        digit_char_s(d)
    } else if d == 10 {
        'a'
    } else if d == 11 {
        'b'
    } else if d == 12 {
        'c'
    } else if d == 13 {
        'd'
    } else if d == 14 {
        'e'
    } else {
        'f'
    }
}

/// The decimal text of an integer.
pub open spec fn num_chars(n: int) -> Seq<char> {
    if n < 0 {
        seq!['-'] + digit_seq(-n)
    } else {
        digit_seq(n)
    }
}

/// The decimal digits of a nonnegative integer.
pub open spec fn digit_seq(m: int) -> Seq<char>
    decreases m,
{
    if m < 10 {
        seq![digit_char_s(if m >= 0 { m } else { 0 })]
    } else {
        digit_seq(m / 10) + seq![digit_char_s(m % 10)]
    }
}

/// The character of one decimal digit.
pub open spec fn digit_char_s(d: int) -> char {
    if d == 0 {
        '0'
    } else if d == 1 {
        '1'
    } else if d == 2 {
        '2'
    } else if d == 3 {
        '3'
    } else if d == 4 {
        '4'
    } else if d == 5 {
        '5'
    } else if d == 6 {
        '6'
    } else if d == 7 {
        '7'
    } else if d == 8 {
        '8'
    } else {
        '9'
    }
}

// ---------------------------------------------------------------------
// The printer
// ---------------------------------------------------------------------

/// Relies on `String::push`: appends one character.
#[verifier::external_body]
pub(crate) fn push_char(s: &mut String, c: char)
    ensures
        final(s)@ == old(s)@.push(c),
{
    s.push(c);
}

/// Relies on `String::push_str`: appends a string slice.
#[verifier::external_body]
fn push_lit(s: &mut String, lit: &str)
    ensures
        final(s)@ == old(s)@ + lit@,
{
    s.push_str(lit);
}

/// Writes one decimal digit.
fn write_digit(out: &mut String, d: u64)
    requires
        d < 10,
    ensures
        final(out)@ == old(out)@.push(digit_char_s(d as int)),
{
    let c: char = if d == 0 {
        '0'
    } else if d == 1 {
        '1'
    } else if d == 2 {
        '2'
    } else if d == 3 {
        '3'
    } else if d == 4 {
        '4'
    } else if d == 5 {
        '5'
    } else if d == 6 {
        '6'
    } else if d == 7 {
        '7'
    } else if d == 8 {
        '8'
    } else {
        '9'
    };
    push_char(out, c);
}

/// Writes the decimal digits of a nonnegative number.
fn write_digits(out: &mut String, m: u64)
    ensures
        final(out)@ == old(out)@ + digit_seq(m as int),
    decreases m,
{
    if m < 10 {
        let ghost before = out@;
        write_digit(out, m);
        proof {
            assert(before + digit_seq(m as int) =~= before.push(digit_char_s(m as int)));
        }
    } else {
        write_digits(out, m / 10);
        let ghost mid = out@;
        write_digit(out, m % 10);
        proof {
            assert(old(out)@ + digit_seq(m as int) =~= mid.push(digit_char_s((m as int) % 10)));
        }
    }
}

/// Writes a signed number.
fn write_num(out: &mut String, n: i64)
    ensures
        final(out)@ == old(out)@ + num_chars(n as int),
{
    if n >= 0 {
        write_digits(out, n as u64);
    } else {
        let ghost before = out@;
        push_char(out, '-');
        let mag: u64 = if n == i64::MIN {
            9223372036854775808u64
        } else {
            (-n) as u64
        };
        write_digits(out, mag);
        proof {
            assert(before + num_chars(n as int) =~= before.push('-') + digit_seq(mag as int));
        }
    }
}

/// Taking one more character extends the escaped text by its escape.
proof fn lemma_escaped_snoc(s: Seq<char>, i: int)
    requires
        0 <= i < s.len(),
    ensures
        escaped(s.take(i + 1)) == escaped(s.take(i)) + esc_char(s[i]),
    decreases i,
{
    if i == 0 {
        assert(s.take(1) =~= seq![s[0]]);
        assert(s.take(1).drop_first() =~= Seq::<char>::empty());
        assert(s.take(0) =~= Seq::<char>::empty());
        assert(escaped(Seq::<char>::empty()) =~= Seq::<char>::empty());
        assert(s.take(1)[0] == s[0]);
        assert(escaped(s.take(1)) =~= esc_char(s[0]) + escaped(s.take(1).drop_first()));
        assert(escaped(s.take(1)) =~= esc_char(s[0]));
        assert(escaped(s.take(0)) + esc_char(s[0]) =~= esc_char(s[0]));
    } else {
        lemma_escaped_snoc(s.drop_first(), i - 1);
        assert(s.take(i + 1)[0] == s[0]);
        assert(s.take(i + 1).drop_first() =~= s.drop_first().take(i));
        assert(s.take(i)[0] == s[0]);
        assert(s.take(i).drop_first() =~= s.drop_first().take(i - 1));
        assert(s.drop_first()[i - 1] == s[i]);
        assert(escaped(s.take(i + 1)) =~= esc_char(s[0]) + escaped(s.drop_first().take(i)));
        assert(escaped(s.take(i)) + esc_char(s[i]) =~= esc_char(s[0]) + (escaped(
            s.drop_first().take(i - 1),
        ) + esc_char(s.drop_first()[i - 1])));
    }
}

/// Writes one lowercase hexadecimal digit.
fn write_hex_digit(out: &mut String, d: u32)
    requires
        d < 16,
    ensures
        final(out)@ == old(out)@.push(hex_digit_s(d as int)),
{
    let c: char = if d == 0 {
        '0'
    } else if d == 1 {
        '1'
    } else if d == 2 {
        '2'
    } else if d == 3 {
        '3'
    } else if d == 4 {
        '4'
    } else if d == 5 {
        '5'
    } else if d == 6 {
        '6'
    } else if d == 7 {
        '7'
    } else if d == 8 {
        '8'
    } else if d == 9 {
        '9'
    } else if d == 10 {
        'a'
    } else if d == 11 {
        'b'
    } else if d == 12 {
        'c'
    } else if d == 13 {
        'd'
    } else if d == 14 {
        'e'
    } else {
        'f'
    };
    push_char(out, c);
}

/// Writes a string body with escapes.
fn write_escaped(out: &mut String, s: &str)
    ensures
        final(out)@ == old(out)@ + escaped(s@),
{
    let n = vstd::string::StrSliceExecFns::unicode_len(s);
    proof {
        assert(s@.take(0) =~= Seq::<char>::empty());
        assert(out@ =~= out@ + escaped(s@.take(0)));
    }
    let mut i: usize = 0;
    while i < n
        invariant
            0 <= i <= n,
            n == s@.len(),
            out@ == old(out)@ + escaped(s@.take(i as int)),
        decreases n - i,
    {
        let c = vstd::string::StrSliceExecFns::get_char(s, i);
        let ghost mid = out@;
        if c == '"' {
            push_char(out, '\\');
            push_char(out, '"');
        } else if c == '\\' {
            push_char(out, '\\');
            push_char(out, '\\');
        } else if c == '\u{8}' {
            push_char(out, '\\');
            push_char(out, 'b');
        } else if c == '\u{c}' {
            push_char(out, '\\');
            push_char(out, 'f');
        } else if c == '\n' {
            push_char(out, '\\');
            push_char(out, 'n');
        } else if c == '\r' {
            push_char(out, '\\');
            push_char(out, 'r');
        } else if c == '\t' {
            push_char(out, '\\');
            push_char(out, 't');
        } else if (c as u32) < 32 {
            push_char(out, '\\');
            push_char(out, 'u');
            push_char(out, '0');
            push_char(out, '0');
            write_hex_digit(out, (c as u32) / 16);
            write_hex_digit(out, (c as u32) % 16);
        } else {
            push_char(out, c);
        }
        proof {
            assert(out@ =~= mid + esc_char(s@[i as int]));
            lemma_escaped_snoc(s@, i as int);
            assert(out@ =~= old(out)@ + escaped(s@.take(i + 1)));
        }
        i += 1;
    }
    proof {
        assert(s@.take(n as int) =~= s@);
    }
}

/// The text of the first `i` elements, with their separating commas.
pub open spec fn items_prefix(s: Seq<JsonM>, i: int) -> Seq<char>
    decreases i,
{
    if i <= 0 {
        Seq::empty()
    } else if i == 1 {
        json_text(s[0])
    } else {
        items_prefix(s, i - 1) + seq![','] + json_text(s[i - 1])
    }
}

/// The text of the first `i` properties, with their separating commas.
pub open spec fn entries_prefix(s: Seq<(Seq<char>, JsonM)>, i: int) -> Seq<char>
    decreases i,
{
    if i <= 0 {
        Seq::empty()
    } else if i == 1 {
        seq!['"'] + escaped(s[0].0) + seq!['"', ':'] + json_text(s[0].1)
    } else {
        entries_prefix(s, i - 1) + seq![','] + (seq!['"'] + escaped(s[i - 1].0) + seq!['"', ':']
            + json_text(s[i - 1].1))
    }
}

/// The whole prefix is the comma-joined element text.
proof fn lemma_items_prefix(s: Seq<JsonM>, i: int)
    requires
        0 <= i < s.len(),
    ensures
        items_prefix(s, s.len() as int) == items_prefix(s, i) + (if i > 0 {
            seq![',']
        } else {
            Seq::empty()
        }) + items_text(s, i),
    decreases s.len() - i,
{
    if i + 1 == s.len() {
        assert(items_prefix(s, s.len() as int) =~= items_prefix(s, i) + (if i > 0 {
            seq![',']
        } else {
            Seq::<char>::empty()
        }) + items_text(s, i));
    } else {
        lemma_items_prefix(s, i + 1);
        assert(items_prefix(s, i + 1) =~= items_prefix(s, i) + (if i > 0 {
            seq![',']
        } else {
            Seq::<char>::empty()
        }) + json_text(s[i]));
        assert(items_prefix(s, s.len() as int) =~= items_prefix(s, i) + (if i > 0 {
            seq![',']
        } else {
            Seq::<char>::empty()
        }) + items_text(s, i));
    }
}

/// The whole prefix is the comma-joined property text.
proof fn lemma_entries_prefix(s: Seq<(Seq<char>, JsonM)>, i: int)
    requires
        0 <= i < s.len(),
    ensures
        entries_prefix(s, s.len() as int) == entries_prefix(s, i) + (if i > 0 {
            seq![',']
        } else {
            Seq::empty()
        }) + entries_text(s, i),
    decreases s.len() - i,
{
    if i + 1 == s.len() {
        assert(entries_prefix(s, s.len() as int) =~= entries_prefix(s, i) + (if i > 0 {
            seq![',']
        } else {
            Seq::<char>::empty()
        }) + entries_text(s, i));
    } else {
        lemma_entries_prefix(s, i + 1);
        assert(entries_prefix(s, i + 1) =~= entries_prefix(s, i) + (if i > 0 {
            seq![',']
        } else {
            Seq::<char>::empty()
        }) + (seq!['"'] + escaped(s[i].0) + seq!['"', ':'] + json_text(s[i].1)));
        assert(entries_prefix(s, s.len() as int) =~= entries_prefix(s, i) + (if i > 0 {
            seq![',']
        } else {
            Seq::<char>::empty()
        }) + entries_text(s, i));
    }
}

/// Writes a JSON value in its compact text form.
#[verifier::rlimit(100)]
#[verifier::spinoff_prover]
fn write_json(out: &mut String, j: &Json)
    ensures
        final(out)@ == old(out)@ + json_text(j@),
    decreases crate::json::json_height(json_m(*j)), 1int,
{
    match j {
        Json::Null => {
            push_lit(out, "null");
        },
        Json::Bool(b) => {
            if *b {
                push_lit(out, "true");
            } else {
                push_lit(out, "false");
            }
        },
        Json::Num(n) => {
            write_num(out, *n);
        },
        Json::Str(s) => {
            let ghost before = out@;
            push_char(out, '"');
            write_escaped(out, s.as_str());
            push_char(out, '"');
            proof {
                assert(out@ =~= before + json_text(json_m(*j)));
            }
        },
        Json::Arr(items) => {
            proof {
                crate::json::lemma_arr_m_at(*items, 0);
            }
            let ghost s = crate::json::arr_m_at(*items, 0);
            let ghost before = out@;
            push_char(out, '[');
            let mut i: usize = 0;
            while i < items.len()
                invariant
                    0 <= i <= items@.len(),
                    json_m(*j) == JsonM::Arr(s),
                    s.len() == items@.len(),
                    forall|k: int| 0 <= k < items@.len() ==> s[k] == json_m(items@[k]),
                    out@ == before.push('[') + items_prefix(s, i as int),
                decreases items@.len() - i,
            {
                let ghost mid = out@;
                if i > 0 {
                    push_char(out, ',');
                }
                proof {
                    assert(s[i as int] == json_m(items@[i as int]));
                    assert(crate::json::json_height(s[i as int]) < crate::json::json_height(
                        json_m(*j),
                    ));
                }
                write_json(out, &items[i]);
                proof {
                    if i == 0 {
                        assert(out@ =~= before.push('[') + items_prefix(s, i + 1));
                    } else {
                        assert(out@ =~= mid + seq![','] + json_text(s[i as int]));
                        assert(out@ =~= before.push('[') + items_prefix(s, i + 1));
                    }
                }
                i += 1;
            }
            push_char(out, ']');
            proof {
                if s.len() == 0 {
                    assert(items_text(s, 0) =~= Seq::<char>::empty());
                    assert(out@ =~= before + json_text(json_m(*j)));
                } else {
                    lemma_items_prefix(s, 0);
                    assert(items_prefix(s, 0) =~= Seq::<char>::empty());
                    assert(items_prefix(s, s.len() as int) =~= items_text(s, 0));
                    assert(out@ =~= before + json_text(json_m(*j)));
                }
            }
        },
        Json::Obj(entries) => {
            proof {
                crate::json::lemma_obj_m_at(*entries, 0);
            }
            let ghost s = crate::json::obj_m_at(*entries, 0);
            let ghost before = out@;
            push_char(out, '{');
            let mut i: usize = 0;
            while i < entries.len()
                invariant
                    0 <= i <= entries@.len(),
                    json_m(*j) == JsonM::Obj(s),
                    s.len() == entries@.len(),
                    forall|k: int|
                        0 <= k < entries@.len() ==> s[k] == (
                            entries@[k].0@,
                            json_m(entries@[k].1),
                        ),
                    out@ == before.push('{') + entries_prefix(s, i as int),
                decreases entries@.len() - i,
            {
                let ghost mid = out@;
                if i > 0 {
                    push_char(out, ',');
                }
                let ghost mid2 = out@;
                push_char(out, '"');
                write_escaped(out, entries[i].0.as_str());
                push_char(out, '"');
                push_char(out, ':');
                proof {
                    assert(s[i as int] == (entries@[i as int].0@, json_m(entries@[i as int].1)));
                    assert(out@ =~= mid2 + (seq!['"'] + escaped(s[i as int].0) + seq!['"', ':']));
                    assert(crate::json::json_height(json_m(entries@[i as int].1))
                        < crate::json::json_height(json_m(*j)));
                }
                write_json(out, &entries[i].1);
                proof {
                    if i == 0 {
                        assert(out@ =~= before.push('{') + entries_prefix(s, i + 1));
                    } else {
                        assert(out@ =~= mid + seq![','] + (seq!['"'] + escaped(s[i as int].0)
                            + seq!['"', ':'] + json_text(s[i as int].1)));
                        assert(out@ =~= before.push('{') + entries_prefix(s, i + 1));
                    }
                }
                i += 1;
            }
            push_char(out, '}');
            proof {
                if s.len() == 0 {
                    assert(entries_text(s, 0) =~= Seq::<char>::empty());
                    assert(out@ =~= before + json_text(json_m(*j)));
                } else {
                    lemma_entries_prefix(s, 0);
                    assert(entries_prefix(s, 0) =~= Seq::<char>::empty());
                    assert(entries_prefix(s, s.len() as int) =~= entries_text(s, 0));
                    assert(out@ =~= before + json_text(json_m(*j)));
                }
            }
        },
    }
}

/// Renders a JSON value as compact text.
pub fn render_json(j: &Json) -> (r: String)
    ensures
        r@ == json_text(j@),
{
    let mut out = String::new();
    write_json(&mut out, j);
    proof {
        assert(Seq::<char>::empty() + json_text(json_m(*j)) =~= json_text(json_m(*j)));
    }
    out
}

// ---------------------------------------------------------------------
// Scanning helpers shared with the text parser
// ---------------------------------------------------------------------

/// JSON whitespace.
pub open spec fn is_ws(c: char) -> bool {
    c == ' ' || c == '\t' || c == '\n' || c == '\r'
}

/// The first non-whitespace position at or after `i`.
pub open spec fn ws_end(s: Seq<char>, i: int) -> int
    decreases s.len() - i,
{
    if 0 <= i < s.len() && is_ws(s[i]) {
        ws_end(s, i + 1)
    } else {
        i
    }
}

/// Skipping whitespace never moves backwards nor past the end.
pub broadcast proof fn lemma_ws_end(s: Seq<char>, i: int)
    ensures
        i <= #[trigger] ws_end(s, i),
        i <= s.len() ==> ws_end(s, i) <= s.len(),
        forall|k: int| i <= k < ws_end(s, i) ==> is_ws(s[k]),
        0 <= ws_end(s, i) < s.len() ==> !is_ws(s[ws_end(s, i)]),
    decreases s.len() - i,
{
    if 0 <= i < s.len() && is_ws(s[i]) {
        lemma_ws_end(s, i + 1);
    }
}

/// Whether the literal `lit` occurs at position `i`.
pub open spec fn lit_at(s: Seq<char>, i: int, lit: Seq<char>) -> bool {
    &&& 0 <= i
    &&& i + lit.len() <= s.len()
    &&& s.subrange(i, i + lit.len()) == lit
}

/// A decimal digit.
pub open spec fn is_digit(c: char) -> bool {
    48 <= c as u32 <= 57
}

/// The value of one decimal digit character.
pub open spec fn digit_val(c: char) -> int {
    c as u32 - 48
}

/// The first non-digit position at or after `i`.
pub open spec fn digits_end(s: Seq<char>, i: int) -> int
    decreases s.len() - i,
{
    if 0 <= i < s.len() && is_digit(s[i]) {
        digits_end(s, i + 1)
    } else {
        i
    }
}

/// A digit run never moves backwards nor past the end, and covers
/// exactly the digits.
pub broadcast proof fn lemma_digits_end(s: Seq<char>, i: int)
    ensures
        i <= #[trigger] digits_end(s, i),
        i <= s.len() ==> digits_end(s, i) <= s.len(),
        forall|k: int| i <= k < digits_end(s, i) ==> is_digit(s[k]),
        0 <= digits_end(s, i) < s.len() ==> !is_digit(s[digits_end(s, i)]),
    decreases s.len() - i,
{
    if 0 <= i < s.len() && is_digit(s[i]) {
        lemma_digits_end(s, i + 1);
    }
}


} // verus!
