use vstd::prelude::*;

use crate::codec::DecodeError;
use crate::json::{json_m, Json, JsonM};

verus! {

broadcast use vstd::string::group_string_axioms, vstd::std_specs::vec::group_vec_axioms, crate::text::lemma_ws_end, crate::text::lemma_digits_end;

// ---------------------------------------------------------------------
// The text grammar: JSON, UTF-8, with two documented restrictions —
// numbers are integers of at most eighteen digits (no fractions or
// exponents), and `\uXXXX` string escapes are not accepted (the engine
// emits none; the named escapes all are).
// ---------------------------------------------------------------------

/// The value of the digit run from `i` (inclusive) to `e` (exclusive).
pub open spec fn digits_value(s: Seq<char>, i: int, e: int) -> int
    decreases e - i,
{
    if i < e {
        digits_value(s, i, e - 1) * 10 + crate::text::digit_val(s[e - 1])
    } else {
        0
    }
}

/// Ten to the `k`.
pub open spec fn pow10(k: nat) -> int
    decreases k,
{
    if k == 0 {
        1
    } else {
        10 * pow10((k - 1) as nat)
    }
}

/// A digit run of `e - i` digits is below ten to that count.
pub proof fn lemma_digits_value_bound(s: Seq<char>, i: int, e: int)
    requires
        i <= e,
        forall|k: int| i <= k < e ==> crate::text::is_digit(#[trigger] s[k]),
    ensures
        0 <= digits_value(s, i, e) < pow10((e - i) as nat),
    decreases e - i,
{
    if i < e {
        lemma_digits_value_bound(s, i, e - 1);
    }
}

/// The number token at `i`: an optional sign and at most eighteen
/// digits, with no leading zeros.
pub open spec fn num_at(s: Seq<char>, i: int) -> Option<(JsonM, int)> {
    let neg = 0 <= i < s.len() && s[i] == '-';
    let i0 = if neg {
        i + 1
    } else {
        i
    };
    if !(0 <= i0 < s.len() && crate::text::is_digit(s[i0])) {
        None
    } else if s[i0] == '0' {
        Some((JsonM::Num(0), i0 + 1))
    } else {
        let e = crate::text::digits_end(s, i0);
        if e - i0 <= 18 {
            let v = digits_value(s, i0, e);
            Some(
                (
                    JsonM::Num(
                        if neg {
                            -v
                        } else {
                            v
                        },
                    ),
                    e,
                ),
            )
        } else {
            None
        }
    }
}

/// The character an escape letter stands for, if any.
pub open spec fn unesc(c: char) -> Option<char> {
    if c == '"' {
        Some('"')
    } else if c == '\\' {
        Some('\\')
    } else if c == '/' {
        Some('/')
    } else if c == 'b' {
        Some('\u{8}')
    } else if c == 'f' {
        Some('\u{c}')
    } else if c == 'n' {
        Some('\n')
    } else if c == 'r' {
        Some('\r')
    } else if c == 't' {
        Some('\t')
    } else {
        None
    }
}

/// A hexadecimal digit, in either case.
pub open spec fn is_hex(c: char) -> bool {
    ||| 48 <= c as u32 <= 57
    ||| 97 <= c as u32 <= 102
    ||| 65 <= c as u32 <= 70
}

/// The value of a hexadecimal digit character.
pub open spec fn hex_val(c: char) -> int {
    if 48 <= c as u32 <= 57 {
        c as u32 - 48
    } else if 97 <= c as u32 <= 102 {
        c as u32 - 87
    } else {
        c as u32 - 55
    }
}

/// The character `char::from_u32` builds from a scalar value; the
/// wrapper below ties the name to that call.
pub uninterp spec fn char_of(v: int) -> char;

/// Whether a `\uXXXX` escape value is a scalar the parser accepts:
/// anything in the basic plane except the surrogate range.
pub open spec fn bmp_scalar(v: int) -> bool {
    0 <= v < 0xD800 || 0xE000 <= v <= 0xFFFF
}

/// The body of a string token, starting after the opening quote:
/// the unescaped content and the position after the closing quote.
/// Unescaped control characters are not accepted.
pub open spec fn str_at(s: Seq<char>, i: int) -> Option<(Seq<char>, int)>
    decreases s.len() - i,
{
    if !(0 <= i < s.len()) {
        None
    } else if s[i] == '"' {
        Some((Seq::empty(), i + 1))
    } else if s[i] == '\\' {
        if !(i + 1 < s.len()) {
            None
        } else if s[i + 1] == 'u' {
            if i + 6 <= s.len() && is_hex(s[i + 2]) && is_hex(s[i + 3]) && is_hex(s[i + 4])
                && is_hex(s[i + 5]) {
                let v = hex_val(s[i + 2]) * 4096 + hex_val(s[i + 3]) * 256 + hex_val(s[i + 4])
                    * 16 + hex_val(s[i + 5]);
                if bmp_scalar(v) {
                    match str_at(s, i + 6) {
                        Some((rest, j)) => Some((seq![char_of(v)] + rest, j)),
                        None => None,
                    }
                } else {
                    None
                }
            } else {
                None
            }
        } else {
            match unesc(s[i + 1]) {
                Some(u) => match str_at(s, i + 2) {
                    Some((rest, j)) => Some((seq![u] + rest, j)),
                    None => None,
                },
                None => None,
            }
        }
    } else if (s[i] as u32) < 32 {
        None
    } else {
        match str_at(s, i + 1) {
            Some((rest, j)) => Some((seq![s[i]] + rest, j)),
            None => None,
        }
    }
}

/// A string token always ends after it starts and within the text.
pub proof fn lemma_str_at_progress(s: Seq<char>, i: int)
    ensures
        str_at(s, i) matches Some(r) ==> i < r.1 <= s.len(),
    decreases s.len() - i,
{
    if 0 <= i < s.len() {
        if s[i] == '"' {
        } else if s[i] == '\\' {
            if i + 1 < s.len() {
                if s[i + 1] == 'u' {
                    if i + 6 <= s.len() {
                        lemma_str_at_progress(s, i + 6);
                    }
                } else {
                    lemma_str_at_progress(s, i + 2);
                }
            }
        } else {
            lemma_str_at_progress(s, i + 1);
        }
    }
}

/// A position known to lie strictly after `i`.
pub open spec fn past(i: int, j: int) -> int {
    if j > i {
        j
    } else {
        i + 1
    }
}

/// The JSON value at `i` (no leading or trailing whitespace consumed):
/// kinds are told apart by their first character.
pub open spec fn value_at(s: Seq<char>, i: int) -> Option<(JsonM, int)>
    decreases s.len() - i, 0int,
{
    if !(0 <= i < s.len()) {
        None
    } else {
        let c = s[i];
        if c == 'n' {
            if crate::text::lit_at(s, i, "null"@) {
                Some((JsonM::Null, i + 4))
            } else {
                None
            }
        } else if c == 't' {
            if crate::text::lit_at(s, i, "true"@) {
                Some((JsonM::Bool(true), i + 4))
            } else {
                None
            }
        } else if c == 'f' {
            if crate::text::lit_at(s, i, "false"@) {
                Some((JsonM::Bool(false), i + 5))
            } else {
                None
            }
        } else if c == '"' {
            match str_at(s, i + 1) {
                Some((t, j)) => Some((JsonM::Str(t), j)),
                None => None,
            }
        } else if c == '-' || crate::text::is_digit(c) {
            num_at(s, i)
        } else if c == '[' {
            let i1 = crate::text::ws_end(s, i + 1);
            if i1 < s.len() && s[i1] == ']' {
                Some((JsonM::Arr(Seq::empty()), i1 + 1))
            } else {
                match elems_at(s, i1) {
                    Some((items, j)) => Some((JsonM::Arr(items), j)),
                    None => None,
                }
            }
        } else if c == '{' {
            let i1 = crate::text::ws_end(s, i + 1);
            if i1 < s.len() && s[i1] == '}' {
                Some((JsonM::Obj(Seq::empty()), i1 + 1))
            } else {
                match members_at(s, i1) {
                    Some((es, j)) => Some((JsonM::Obj(es), j)),
                    None => None,
                }
            }
        } else {
            None
        }
    }
}

/// The elements of an array from the first value at `i` through the
/// closing bracket.
pub open spec fn elems_at(s: Seq<char>, i: int) -> Option<(Seq<JsonM>, int)>
    decreases s.len() - i, 1int,
{
    if !(0 <= i <= s.len()) {
        None
    } else {
        match value_at(s, i) {
            None => None,
            Some((v, j0)) => {
                let j1 = crate::text::ws_end(s, past(i, j0));
                if j1 < s.len() && s[j1] == ',' {
                    match elems_at(s, crate::text::ws_end(s, j1 + 1)) {
                        Some((rest, k)) => Some((seq![v] + rest, k)),
                        None => None,
                    }
                } else if j1 < s.len() && s[j1] == ']' {
                    Some((seq![v], j1 + 1))
                } else {
                    None
                }
            },
        }
    }
}

/// The properties of an object from the first key at `i` through the
/// closing brace.
pub open spec fn members_at(s: Seq<char>, i: int) -> Option<(Seq<(Seq<char>, JsonM)>, int)>
    decreases s.len() - i, 1int,
{
    if !(0 <= i < s.len() && s[i] == '"') {
        None
    } else {
        match str_at(s, i + 1) {
            None => None,
            Some((k0, jk0)) => {
                let j1 = crate::text::ws_end(s, past(i, jk0));
                if j1 < s.len() && s[j1] == ':' {
                    let j2 = crate::text::ws_end(s, j1 + 1);
                    match value_at(s, j2) {
                        None => None,
                        Some((v, jv0)) => {
                            let j3 = crate::text::ws_end(s, past(i, jv0));
                            if j3 < s.len() && s[j3] == ',' {
                                match members_at(s, crate::text::ws_end(s, j3 + 1)) {
                                    Some((rest, k)) => Some((seq![(k0, v)] + rest, k)),
                                    None => None,
                                }
                            } else if j3 < s.len() && s[j3] == '}' {
                                Some((seq![(k0, v)], j3 + 1))
                            } else {
                                None
                            }
                        },
                    }
                } else {
                    None
                }
            },
        }
    }
}

/// The JSON value a whole text stands for, if any: one value with
/// optional surrounding whitespace and nothing else.
pub open spec fn json_of_text(s: Seq<char>) -> Option<JsonM> {
    match value_at(s, crate::text::ws_end(s, 0)) {
        Some((j, i1)) => if i1 <= s.len() && crate::text::ws_end(s, i1) == s.len() {
            Some(j)
        } else {
            None
        },
        None => None,
    }
}


/// A number token always ends after it starts and within the text.
pub proof fn lemma_num_at_progress(s: Seq<char>, i: int)
    ensures
        num_at(s, i) matches Some(r) ==> i < r.1 <= s.len(),
{
    broadcast use crate::text::lemma_digits_end;

    let neg = 0 <= i < s.len() && s[i] == '-';
    let i0 = if neg {
        i + 1
    } else {
        i
    };
    if 0 <= i0 < s.len() && crate::text::is_digit(s[i0]) && s[i0] != '0' {
        assert(crate::text::digits_end(s, i0) == crate::text::digits_end(s, i0 + 1));
    }
}

/// A value always ends after it starts and within the text.
pub proof fn lemma_value_at_progress(s: Seq<char>, i: int)
    ensures
        value_at(s, i) matches Some(r) ==> i < r.1 <= s.len(),
    decreases s.len() - i, 0int,
{
    broadcast use crate::text::lemma_ws_end;

    if 0 <= i < s.len() {
        let c = s[i];
        if c == 'n' {
            reveal_strlit("null");
            assert("null"@.len() == 4);
        } else if c == 't' {
            reveal_strlit("true");
            assert("true"@.len() == 4);
        } else if c == 'f' {
            reveal_strlit("false");
            assert("false"@.len() == 5);
        } else if c == '"' {
            lemma_str_at_progress(s, i + 1);
        } else if c == '-' || crate::text::is_digit(c) {
            lemma_num_at_progress(s, i);
        } else if c == '[' {
            let i1 = crate::text::ws_end(s, i + 1);
            if !(i1 < s.len() && s[i1] == ']') {
                lemma_elems_at_progress(s, i1);
            }
        } else if c == '{' {
            let i1 = crate::text::ws_end(s, i + 1);
            if !(i1 < s.len() && s[i1] == '}') {
                lemma_members_at_progress(s, i1);
            }
        }
    }
}

/// An element list always ends after it starts and within the text.
pub proof fn lemma_elems_at_progress(s: Seq<char>, i: int)
    ensures
        elems_at(s, i) matches Some(r) ==> i < r.1 <= s.len(),
    decreases s.len() - i, 1int,
{
    broadcast use crate::text::lemma_ws_end;

    if 0 <= i <= s.len() {
        lemma_value_at_progress(s, i);
        if let Some((v, j0)) = value_at(s, i) {
            let j1 = crate::text::ws_end(s, past(i, j0));
            if j1 < s.len() && s[j1] == ',' {
                lemma_elems_at_progress(s, crate::text::ws_end(s, j1 + 1));
            }
        }
    }
}

/// A property list always ends after it starts and within the text.
pub proof fn lemma_members_at_progress(s: Seq<char>, i: int)
    ensures
        members_at(s, i) matches Some(r) ==> i < r.1 <= s.len(),
    decreases s.len() - i, 1int,
{
    broadcast use crate::text::lemma_ws_end;

    if 0 <= i < s.len() && s[i] == '"' {
        lemma_str_at_progress(s, i + 1);
        if let Some((k0, jk0)) = str_at(s, i + 1) {
            let j1 = crate::text::ws_end(s, past(i, jk0));
            if j1 < s.len() && s[j1] == ':' {
                let j2 = crate::text::ws_end(s, j1 + 1);
                lemma_value_at_progress(s, j2);
                if let Some((v, jv0)) = value_at(s, j2) {
                    let j3 = crate::text::ws_end(s, past(i, jv0));
                    if j3 < s.len() && s[j3] == ',' {
                        lemma_members_at_progress(s, crate::text::ws_end(s, j3 + 1));
                    }
                }
            }
        }
    }
}

// ---------------------------------------------------------------------
// The parser
// ---------------------------------------------------------------------

/// Whether a character is JSON whitespace.
fn is_ws_c(c: char) -> (r: bool)
    ensures
        r == crate::text::is_ws(c),
{
    c == ' ' || c == '\t' || c == '\n' || c == '\r'
}

/// Whether a character is a decimal digit.
fn is_digit_c(c: char) -> (r: bool)
    ensures
        r == crate::text::is_digit(c),
{
    let u = c as u32;
    48 <= u && u <= 57
}

/// Skips whitespace.
fn skip_ws(s: &str, n: usize, i: usize) -> (r: usize)
    requires
        n == s@.len(),
        i <= n,
    ensures
        r as int == crate::text::ws_end(s@, i as int),
        i <= r <= n,
{
    let mut k: usize = i;
    while k < n && is_ws_c(vstd::string::StrSliceExecFns::get_char(s, k))
        invariant
            n == s@.len(),
            i <= k <= n,
            crate::text::ws_end(s@, i as int) == crate::text::ws_end(s@, k as int),
        decreases n - k,
    {
        k += 1;
    }
    k
}

/// Relies on `char::from_u32`: the result is `Some` exactly for valid
/// Unicode scalar values, and the returned character has that value;
/// `char_of` names it.
#[verifier::external_body]
fn char_from_u32(v: u32) -> (r: Option<char>)
    ensures
        r matches Some(c) ==> c as u32 == v && c == char_of(v as int),
        r is Some <==> (v < 0xD800 || (0xE000 <= v && v <= 0x10FFFF)),
{
    char::from_u32(v)
}

/// Whether a character is a hexadecimal digit.
fn is_hex_c(c: char) -> (r: bool)
    ensures
        r == is_hex(c),
{
    let u = c as u32;
    (48 <= u && u <= 57) || (97 <= u && u <= 102) || (65 <= u && u <= 70)
}

/// The value of a hexadecimal digit character.
fn hex_val_c(c: char) -> (r: u32)
    requires
        is_hex(c),
    ensures
        r as int == hex_val(c),
        r < 16,
{
    let u = c as u32;
    if 48 <= u && u <= 57 {
        u - 48
    } else if 97 <= u && u <= 102 {
        u - 87
    } else {
        u - 55
    }
}

/// Parses the body of a string token, after the opening quote.
fn parse_str_body(s: &str, n: usize, i: usize) -> (r: Result<(String, usize), DecodeError>)
    requires
        n == s@.len(),
        i <= n,
    ensures
        r matches Ok((t, j)) ==> str_at(s@, i as int) == Some((t@, j as int)) && i < j <= n,
        r is Err ==> str_at(s@, i as int) is None,
{
    let mut acc = String::new();
    let mut cur: usize = i;
    proof {
        assert(acc@ =~= Seq::<char>::empty());
        lemma_str_at_progress(s@, i as int);
        if let Some((rest0, j0)) = str_at(s@, i as int) {
            assert(acc@ + rest0 =~= rest0);
        }
    }
    while cur < n
        invariant
            n == s@.len(),
            i <= cur <= n,
            match str_at(s@, cur as int) {
                Some((rest, j)) => str_at(s@, i as int) == Some((acc@ + rest, j)) && cur < j,
                None => str_at(s@, i as int) is None,
            },
        decreases n - cur,
    {
        let c = vstd::string::StrSliceExecFns::get_char(s, cur);
        if c == '"' {
            proof {
                assert(str_at(s@, cur as int) == Some((Seq::<char>::empty(), cur + 1)));
                assert(acc@ + Seq::<char>::empty() =~= acc@);
            }
            return Ok((acc, cur + 1));
        } else if c == '\\' {
            if cur + 1 >= n {
                proof {
                    assert(str_at(s@, cur as int) is None);
                }
                return Err(DecodeError::here("unterminated string escape"));
            }
            let c2 = vstd::string::StrSliceExecFns::get_char(s, cur + 1);
            if c2 == 'u' {
                if n - cur < 6 {
                    proof {
                        assert(str_at(s@, cur as int) is None);
                    }
                    return Err(DecodeError::here("truncated unicode escape"));
                }
                let h1 = vstd::string::StrSliceExecFns::get_char(s, cur + 2);
                let h2 = vstd::string::StrSliceExecFns::get_char(s, cur + 3);
                let h3 = vstd::string::StrSliceExecFns::get_char(s, cur + 4);
                let h4 = vstd::string::StrSliceExecFns::get_char(s, cur + 5);
                if !(is_hex_c(h1) && is_hex_c(h2) && is_hex_c(h3) && is_hex_c(h4)) {
                    proof {
                        assert(str_at(s@, cur as int) is None);
                    }
                    return Err(DecodeError::here("malformed unicode escape"));
                }
                let v: u32 = hex_val_c(h1) * 4096 + hex_val_c(h2) * 256 + hex_val_c(h3) * 16
                    + hex_val_c(h4);
                if !(v < 0xD800 || (0xE000 <= v && v <= 0xFFFF)) {
                    proof {
                        assert(!bmp_scalar(v as int));
                        assert(str_at(s@, cur as int) is None);
                    }
                    return Err(DecodeError::here("unsupported unicode escape"));
                }
                let ch = match char_from_u32(v) {
                    Some(ch) => ch,
                    None => {
                        proof {
                            assert(false);
                        }
                        return Err(DecodeError::here("unsupported unicode escape"));
                    },
                };
                let ghost before = acc@;
                crate::text::push_char(&mut acc, ch);
                proof {
                    lemma_str_at_progress(s@, cur + 6);
                    if let Some((rest2, j2)) = str_at(s@, cur + 6) {
                        assert(str_at(s@, cur as int) == Some((seq![char_of(v as int)] + rest2, j2)));
                        assert(acc@ + rest2 =~= before + (seq![char_of(v as int)] + rest2));
                    } else {
                        assert(str_at(s@, cur as int) is None);
                    }
                }
                cur += 6;
                continue;
            }
            let u: char = if c2 == '"' {
                '"'
            } else if c2 == '\\' {
                '\\'
            } else if c2 == '/' {
                '/'
            } else if c2 == 'b' {
                '\u{8}'
            } else if c2 == 'f' {
                '\u{c}'
            } else if c2 == 'n' {
                '\n'
            } else if c2 == 'r' {
                '\r'
            } else if c2 == 't' {
                '\t'
            } else {
                proof {
                    assert(unesc(s@[cur + 1]) is None);
                    assert(str_at(s@, cur as int) is None);
                }
                return Err(DecodeError::here("unsupported string escape"));
            };
            let ghost before = acc@;
            crate::text::push_char(&mut acc, u);
            proof {
                assert(unesc(s@[cur + 1]) == Some(u));
                lemma_str_at_progress(s@, cur + 2);
                if let Some((rest2, j2)) = str_at(s@, cur + 2) {
                    assert(str_at(s@, cur as int) == Some((seq![u] + rest2, j2)));
                    assert(acc@ + rest2 =~= before + (seq![u] + rest2));
                } else {
                    assert(str_at(s@, cur as int) is None);
                }
            }
            cur += 2;
        } else if (c as u32) < 32 {
            proof {
                assert(str_at(s@, cur as int) is None);
            }
            return Err(DecodeError::here("unescaped control character"));
        } else {
            let ghost before = acc@;
            crate::text::push_char(&mut acc, c);
            proof {
                lemma_str_at_progress(s@, cur + 1);
                if let Some((rest2, j2)) = str_at(s@, cur + 1) {
                    assert(str_at(s@, cur as int) == Some((seq![c] + rest2, j2)));
                    assert(acc@ + rest2 =~= before + (seq![c] + rest2));
                } else {
                    assert(str_at(s@, cur as int) is None);
                }
            }
            cur += 1;
        }
    }
    proof {
        assert(str_at(s@, cur as int) is None);
    }
    Err(DecodeError::here("unterminated string"))
}

/// Ten to the `a` divides ten to the `b` when `a <= b`.
proof fn lemma_pow10_le(a: nat, b: nat)
    requires
        a <= b,
    ensures
        pow10(a) <= pow10(b),
        pow10(a) >= 1,
    decreases b,
{
    if a < b {
        lemma_pow10_le(a, (b - 1) as nat);
    } else if a > 0 {
        lemma_pow10_le((a - 1) as nat, (b - 1) as nat);
    }
}

/// Parses a number token.
fn parse_num(s: &str, n: usize, i: usize) -> (r: Result<(i64, usize), DecodeError>)
    requires
        n == s@.len(),
        i < n,
    ensures
        r matches Ok((v, j)) ==> num_at(s@, i as int) == Some((JsonM::Num(v as int), j as int))
            && i < j <= n,
        r is Err ==> num_at(s@, i as int) is None,
{
    let neg = vstd::string::StrSliceExecFns::get_char(s, i) == '-';
    let i0: usize = if neg {
        i + 1
    } else {
        i
    };
    if i0 >= n {
        return Err(DecodeError::here("expected a digit"));
    }
    let c0 = vstd::string::StrSliceExecFns::get_char(s, i0);
    if !is_digit_c(c0) {
        return Err(DecodeError::here("expected a digit"));
    }
    if c0 == '0' {
        return Ok((0i64, i0 + 1));
    }
    let mut e: usize = i0;
    while e < n && is_digit_c(vstd::string::StrSliceExecFns::get_char(s, e))
        invariant
            n == s@.len(),
            i0 <= e <= n,
            crate::text::digits_end(s@, i0 as int) == crate::text::digits_end(s@, e as int),
        decreases n - e,
    {
        e += 1;
    }
    proof {
        assert(crate::text::digits_end(s@, i0 as int) == e);
    }
    if e - i0 > 18 {
        return Err(DecodeError::here("number out of range"));
    }
    proof {
        lemma_digits_value_bound(s@, i0 as int, e as int);
        assert(pow10(18) == 1000000000000000000) by {
            reveal_with_fuel(pow10, 19);
        }
    }
    let mut acc: i64 = 0;
    let mut k: usize = i0;
    while k < e
        invariant
            n == s@.len(),
            i0 <= k <= e <= n,
            e - i0 <= 18,
            forall|m: int| i0 <= m < e ==> crate::text::is_digit(#[trigger] s@[m]),
            acc == digits_value(s@, i0 as int, k as int),
            0 <= acc < pow10((k - i0) as nat),
            pow10(18) == 1000000000000000000,
        decreases e - k,
    {
        let d: u32 = vstd::string::StrSliceExecFns::get_char(s, k) as u32;
        proof {
            lemma_pow10_le((k - i0 + 1) as nat, 18nat);
        }
        acc = acc * 10 + ((d - 48) as i64);
        k += 1;
    }
    let v: i64 = if neg {
        -acc
    } else {
        acc
    };
    Ok((v, e))
}

/// Parses the JSON value at `i`.
#[verifier::rlimit(100)]
#[verifier::spinoff_prover]
fn parse_value(s: &str, n: usize, i: usize) -> (r: Result<(Json, usize), DecodeError>)
    requires
        n == s@.len(),
        i <= n,
    ensures
        r matches Ok((v, j)) ==> value_at(s@, i as int) == Some((v@, j as int)) && i < j <= n,
        r is Err ==> value_at(s@, i as int) is None,
    decreases s@.len() - i, 0int,
{
    if i >= n {
        return Err(DecodeError::here("expected a value"));
    }
    let c = vstd::string::StrSliceExecFns::get_char(s, i);
    if c == 'n' {
        if n - i >= 4 && vstd::string::StrSliceExecFns::get_char(s, i + 1) == 'u'
            && vstd::string::StrSliceExecFns::get_char(s, i + 2) == 'l'
            && vstd::string::StrSliceExecFns::get_char(s, i + 3) == 'l' {
            proof {
                reveal_strlit("null");
                assert("null"@.len() == 4);
                assert(s@.subrange(i as int, i + 4) =~= "null"@);
            }
            Ok((Json::Null, i + 4))
        } else {
            proof {
                reveal_strlit("null");
                assert("null"@.len() == 4);
                assert(!crate::text::lit_at(s@, i as int, "null"@)) by {
                    if crate::text::lit_at(s@, i as int, "null"@) {
                        assert(s@.subrange(i as int, i + 4)[1] == s@[i + 1]);
                        assert(s@.subrange(i as int, i + 4)[2] == s@[i + 2]);
                        assert(s@.subrange(i as int, i + 4)[3] == s@[i + 3]);
                    }
                }
            }
            Err(DecodeError::here("expected a value"))
        }
    } else if c == 't' {
        if n - i >= 4 && vstd::string::StrSliceExecFns::get_char(s, i + 1) == 'r'
            && vstd::string::StrSliceExecFns::get_char(s, i + 2) == 'u'
            && vstd::string::StrSliceExecFns::get_char(s, i + 3) == 'e' {
            proof {
                reveal_strlit("true");
                assert("true"@.len() == 4);
                assert(s@.subrange(i as int, i + 4) =~= "true"@);
            }
            Ok((Json::Bool(true), i + 4))
        } else {
            proof {
                reveal_strlit("true");
                assert("true"@.len() == 4);
                assert(!crate::text::lit_at(s@, i as int, "true"@)) by {
                    if crate::text::lit_at(s@, i as int, "true"@) {
                        assert(s@.subrange(i as int, i + 4)[1] == s@[i + 1]);
                        assert(s@.subrange(i as int, i + 4)[2] == s@[i + 2]);
                        assert(s@.subrange(i as int, i + 4)[3] == s@[i + 3]);
                    }
                }
            }
            Err(DecodeError::here("expected a value"))
        }
    } else if c == 'f' {
        if n - i >= 5 && vstd::string::StrSliceExecFns::get_char(s, i + 1) == 'a'
            && vstd::string::StrSliceExecFns::get_char(s, i + 2) == 'l'
            && vstd::string::StrSliceExecFns::get_char(s, i + 3) == 's'
            && vstd::string::StrSliceExecFns::get_char(s, i + 4) == 'e' {
            proof {
                reveal_strlit("false");
                assert("false"@.len() == 5);
                assert(s@.subrange(i as int, i + 5) =~= "false"@);
            }
            Ok((Json::Bool(false), i + 5))
        } else {
            proof {
                reveal_strlit("false");
                assert("false"@.len() == 5);
                assert(!crate::text::lit_at(s@, i as int, "false"@)) by {
                    if crate::text::lit_at(s@, i as int, "false"@) {
                        assert(s@.subrange(i as int, i + 5)[1] == s@[i + 1]);
                        assert(s@.subrange(i as int, i + 5)[2] == s@[i + 2]);
                        assert(s@.subrange(i as int, i + 5)[3] == s@[i + 3]);
                        assert(s@.subrange(i as int, i + 5)[4] == s@[i + 4]);
                    }
                }
            }
            Err(DecodeError::here("expected a value"))
        }
    } else if c == '"' {
        match parse_str_body(s, n, i + 1) {
            Ok((t, j)) => Ok((Json::Str(t), j)),
            Err(e) => Err(e),
        }
    } else if c == '-' || is_digit_c(c) {
        match parse_num(s, n, i) {
            Ok((v, j)) => Ok((Json::Num(v), j)),
            Err(e) => Err(e),
        }
    } else if c == '[' {
        let i1 = skip_ws(s, n, i + 1);
        if i1 < n && vstd::string::StrSliceExecFns::get_char(s, i1) == ']' {
            let items: Vec<Json> = Vec::new();
            let r = Json::Arr(items);
            proof {
                assert(r@ =~= JsonM::Arr(Seq::<JsonM>::empty()));
            }
            Ok((r, i1 + 1))
        } else {
            match parse_elems(s, n, i1) {
                Ok((items, j)) => {
                    let ghost gitems = items;
                    let r = Json::Arr(items);
                    proof {
                        crate::json::lemma_arr_m_at(gitems, 0);
                        assert(crate::json::arr_m_at(gitems, 0) =~= crate::codec::jsons_m(
                            gitems@,
                        ));
                    }
                    Ok((r, j))
                },
                Err(e) => Err(e),
            }
        }
    } else if c == '{' {
        let i1 = skip_ws(s, n, i + 1);
        if i1 < n && vstd::string::StrSliceExecFns::get_char(s, i1) == '}' {
            let entries: Vec<(String, Json)> = Vec::new();
            let r = Json::Obj(entries);
            proof {
                assert(r@ =~= JsonM::Obj(Seq::<(Seq<char>, JsonM)>::empty()));
            }
            Ok((r, i1 + 1))
        } else {
            match parse_members(s, n, i1) {
                Ok((entries, j)) => {
                    let ghost ge = entries;
                    let r = Json::Obj(entries);
                    proof {
                        crate::json::lemma_obj_m_at(ge, 0);
                        assert(crate::json::obj_m_at(ge, 0) =~= crate::json::entries_m(ge@));
                    }
                    Ok((r, j))
                },
                Err(e) => Err(e),
            }
        }
    } else {
        Err(DecodeError::here("expected a value"))
    }
}

/// Parses array elements from the first value through the closing
/// bracket.
#[verifier::rlimit(100)]
#[verifier::spinoff_prover]
fn parse_elems(s: &str, n: usize, i: usize) -> (r: Result<(Vec<Json>, usize), DecodeError>)
    requires
        n == s@.len(),
        i <= n,
    ensures
        r matches Ok((items, j)) ==> elems_at(s@, i as int) == Some(
            (crate::codec::jsons_m(items@), j as int),
        ) && i < j <= n,
        r is Err ==> elems_at(s@, i as int) is None,
    decreases s@.len() - i, 1int,
{
    let mut out: Vec<Json> = Vec::new();
    let mut cur: usize = i;
    proof {
        lemma_elems_at_progress(s@, i as int);
        if let Some((rest0, j0)) = elems_at(s@, i as int) {
            assert(crate::codec::jsons_m(out@) + rest0 =~= rest0);
        }
    }
    loop
        invariant
            n == s@.len(),
            i <= cur <= n,
            match elems_at(s@, cur as int) {
                Some((rest, j)) => elems_at(s@, i as int) == Some(
                    (crate::codec::jsons_m(out@) + rest, j),
                ) && cur < j && j <= n,
                None => elems_at(s@, i as int) is None,
            },
        decreases n - cur,
    {
        let ghost gout = out@;
        match parse_value(s, n, cur) {
            Err(e) => {
                return Err(e);
            },
            Ok((v, jv)) => {
                out.push(v);
                proof {
                    assert(crate::codec::jsons_m(out@) =~= crate::codec::jsons_m(gout).push(
                        json_m(v),
                    ));
                }
                let j1 = skip_ws(s, n, jv);
                if j1 < n && vstd::string::StrSliceExecFns::get_char(s, j1) == ',' {
                    let next = skip_ws(s, n, j1 + 1);
                    proof {
                        lemma_elems_at_progress(s@, next as int);
                        if let Some((rest2, j2)) = elems_at(s@, next as int) {
                            assert(elems_at(s@, cur as int) == Some(
                                (seq![json_m(v)] + rest2, j2),
                            ));
                            assert(crate::codec::jsons_m(gout) + (seq![json_m(v)] + rest2) =~= 
                                crate::codec::jsons_m(out@) + rest2);
                        } else {
                            assert(elems_at(s@, cur as int) is None);
                        }
                    }
                    if next <= cur {
                        proof {
                            assert(false);
                        }
                        return Err(DecodeError::here("expected a value"));
                    }
                    cur = next;
                } else if j1 < n && vstd::string::StrSliceExecFns::get_char(s, j1) == ']' {
                    proof {
                        assert(elems_at(s@, cur as int) == Some((seq![json_m(v)], j1 + 1)));
                        assert(crate::codec::jsons_m(gout) + seq![json_m(v)] =~= 
                            crate::codec::jsons_m(out@));
                    }
                    return Ok((out, j1 + 1));
                } else {
                    proof {
                        assert(elems_at(s@, cur as int) is None);
                    }
                    return Err(DecodeError::here("expected a comma or closing bracket"));
                }
            },
        }
    }
}

/// Parses object properties from the first key through the closing
/// brace.
#[verifier::rlimit(100)]
#[verifier::spinoff_prover]
fn parse_members(s: &str, n: usize, i: usize) -> (r: Result<
    (Vec<(String, Json)>, usize),
    DecodeError,
>)
    requires
        n == s@.len(),
        i <= n,
    ensures
        r matches Ok((entries, j)) ==> members_at(s@, i as int) == Some(
            (crate::json::entries_m(entries@), j as int),
        ) && i < j <= n,
        r is Err ==> members_at(s@, i as int) is None,
    decreases s@.len() - i, 1int,
{
    let mut out: Vec<(String, Json)> = Vec::new();
    let mut cur: usize = i;
    proof {
        lemma_members_at_progress(s@, i as int);
        if let Some((rest0, j0)) = members_at(s@, i as int) {
            assert(crate::json::entries_m(out@) + rest0 =~= rest0);
        }
    }
    loop
        invariant
            n == s@.len(),
            i <= cur <= n,
            match members_at(s@, cur as int) {
                Some((rest, j)) => members_at(s@, i as int) == Some(
                    (crate::json::entries_m(out@) + rest, j),
                ) && cur < j && j <= n,
                None => members_at(s@, i as int) is None,
            },
        decreases n - cur,
    {
        let ghost gout = out@;
        if !(cur < n && vstd::string::StrSliceExecFns::get_char(s, cur) == '"') {
            proof {
                assert(members_at(s@, cur as int) is None);
            }
            return Err(DecodeError::here("expected a property name"));
        }
        let (key, jk) = match parse_str_body(s, n, cur + 1) {
            Ok(p) => p,
            Err(e) => {
                proof {
                    assert(members_at(s@, cur as int) is None);
                }
                return Err(e);
            },
        };
        let j1 = skip_ws(s, n, jk);
        if !(j1 < n && vstd::string::StrSliceExecFns::get_char(s, j1) == ':') {
            proof {
                assert(members_at(s@, cur as int) is None);
            }
            return Err(DecodeError::here("expected a colon"));
        }
        let j2 = skip_ws(s, n, j1 + 1);
        let (v, jv) = match parse_value(s, n, j2) {
            Ok(p) => p,
            Err(e) => {
                proof {
                    assert(members_at(s@, cur as int) is None);
                }
                return Err(e);
            },
        };
        let ghost gkey = key@;
        out.push((key, v));
        proof {
            assert(crate::json::entries_m(out@) =~= crate::json::entries_m(gout).push(
                (gkey, json_m(v)),
            ));
        }
        let j3 = skip_ws(s, n, jv);
        if j3 < n && vstd::string::StrSliceExecFns::get_char(s, j3) == ',' {
            let next = skip_ws(s, n, j3 + 1);
            proof {
                lemma_members_at_progress(s@, next as int);
                if let Some((rest2, k2)) = members_at(s@, next as int) {
                    assert(members_at(s@, cur as int) == Some(
                        (seq![(gkey, json_m(v))] + rest2, k2),
                    ));
                    assert(crate::json::entries_m(gout) + (seq![(gkey, json_m(v))] + rest2) =~= 
                        crate::json::entries_m(out@) + rest2);
                } else {
                    assert(members_at(s@, cur as int) is None);
                }
            }
            if next <= cur {
                proof {
                    assert(false);
                }
                return Err(DecodeError::here("expected a property name"));
            }
            cur = next;
        } else if j3 < n && vstd::string::StrSliceExecFns::get_char(s, j3) == '}' {
            proof {
                assert(members_at(s@, cur as int) == Some(
                    (seq![(gkey, json_m(v))], j3 + 1),
                ));
                assert(crate::json::entries_m(gout) + seq![(gkey, json_m(v))] =~= 
                    crate::json::entries_m(out@));
            }
            return Ok((out, j3 + 1));
        } else {
            proof {
                assert(members_at(s@, cur as int) is None);
            }
            return Err(DecodeError::here("expected a comma or closing brace"));
        }
    }
}

/// Parses a whole JSON text: one value with optional surrounding
/// whitespace and nothing else.
pub fn parse_json(s: &str) -> (r: Result<Json, DecodeError>)
    ensures
        r matches Ok(j) ==> json_of_text(s@) == Some(j@),
        r is Err ==> json_of_text(s@) is None,
{
    let n = vstd::string::StrSliceExecFns::unicode_len(s);
    let i0 = skip_ws(s, n, 0);
    match parse_value(s, n, i0) {
        Ok((j, i1)) => {
            if skip_ws(s, n, i1) == n {
                Ok(j)
            } else {
                Err(DecodeError::here("trailing characters after the value"))
            }
        },
        Err(e) => Err(e),
    }
}

} // verus!
