//! A verified parser for the identification service's JSON responses.
//!
//! The grammar is defined once, as spec functions over the raw bytes, and the
//! executable parser is proved to return exactly what the spec parser says.
//! Strings are unescaped to their UTF-8 bytes (including `\uXXXX` escapes and
//! surrogate pairs); numbers are read as fixed-point values in millionths,
//! exact for the scores and durations the service sends. Two deliberate
//! restrictions against full JSON, chosen for this response format: numerals
//! with exponent notation are not accepted, and a numeral's integer part is
//! limited to twelve digits.

use vstd::prelude::*;

use vstd::utf8::encode_scalar;

verus! {

/// A parsed JSON value. Numbers are fixed point in millionths; strings are
/// unescaped UTF-8 bytes.
pub enum JsonValue {
    Null,
    Bool(bool),
    Num(i64),
    Str(Vec<u8>),
    Arr(Vec<JsonValue>),
    Obj(Vec<(Vec<u8>, JsonValue)>),
}

/// The mathematical shape of a parsed JSON value.
pub enum JsonRep {
    Null,
    Bool(bool),
    Num(int),
    Str(Seq<u8>),
    Arr(Seq<JsonRep>),
    Obj(Seq<(Seq<u8>, JsonRep)>),
}

/// The mathematical value of a parsed JSON value.
pub open spec fn rep_of(v: JsonValue) -> JsonRep
    decreases v,
{
    match v {
        JsonValue::Null => JsonRep::Null,
        JsonValue::Bool(b) => JsonRep::Bool(b),
        JsonValue::Num(n) => JsonRep::Num(n as int),
        JsonValue::Str(s) => JsonRep::Str(s@),
        JsonValue::Arr(items) => JsonRep::Arr(reps_of(items@)),
        JsonValue::Obj(members) => JsonRep::Obj(member_reps_of(members@)),
    }
}

/// The mathematical values of a sequence of parsed elements.
pub open spec fn reps_of(items: Seq<JsonValue>) -> Seq<JsonRep>
    decreases items,
{
    if items.len() == 0 {
        Seq::empty()
    } else {
        reps_of(items.drop_last()).push(rep_of(items.last()))
    }
}

/// The mathematical values of a sequence of parsed object members.
pub open spec fn member_reps_of(members: Seq<(Vec<u8>, JsonValue)>) -> Seq<(Seq<u8>, JsonRep)>
    decreases members,
{
    if members.len() == 0 {
        Seq::empty()
    } else {
        member_reps_of(members.drop_last()).push(
            (members.last().0@, rep_of(members.last().1)),
        )
    }
}

impl View for JsonValue {
    type V = JsonRep;

    open spec fn view(&self) -> JsonRep {
        rep_of(*self)
    }
}

/// `reps_of` maps the sequence element by element.
pub proof fn lemma_reps_of_index(items: Seq<JsonValue>)
    ensures
        reps_of(items).len() == items.len(),
        forall|i: int| 0 <= i < items.len() ==> #[trigger] reps_of(items)[i] == rep_of(items[i]),
    decreases items.len(),
{
    if items.len() > 0 {
        lemma_reps_of_index(items.drop_last());
        assert forall|i: int|
            0 <= i < items.len() implies #[trigger] reps_of(items)[i] == rep_of(items[i]) by {
            if i < items.len() - 1 {
                assert(items.drop_last()[i] == items[i]);
            }
        }
    }
}

/// `member_reps_of` maps the sequence element by element.
pub proof fn lemma_member_reps_of_index(members: Seq<(Vec<u8>, JsonValue)>)
    ensures
        member_reps_of(members).len() == members.len(),
        forall|i: int|
            0 <= i < members.len() ==> #[trigger] member_reps_of(members)[i] == (members[i].0@,
            rep_of(members[i].1)),
    decreases members.len(),
{
    if members.len() > 0 {
        lemma_member_reps_of_index(members.drop_last());
        assert forall|i: int|
            0 <= i < members.len() implies #[trigger] member_reps_of(members)[i] == (
        members[i].0@, rep_of(members[i].1)) by {
            if i < members.len() - 1 {
                assert(members.drop_last()[i] == members[i]);
            }
        }
    }
}

/// JSON whitespace.
pub open spec fn is_ws(b: u8) -> bool {
    b == 32 || b == 9 || b == 10 || b == 13
}

/// A decimal digit.
pub open spec fn is_digit(b: u8) -> bool {
    48 <= b <= 57
}

/// The first position at or after `i` that does not hold whitespace.
pub open spec fn skip_ws(s: Seq<u8>, i: int) -> int
    decreases s.len() - i when 0 <= i
{
    if 0 <= i < s.len() && is_ws(s[i]) {
        skip_ws(s, i + 1)
    } else {
        i
    }
}

/// The first position at or after `i` that does not hold a digit.
pub open spec fn digits_end(s: Seq<u8>, i: int) -> int
    decreases s.len() - i when 0 <= i
{
    if 0 <= i < s.len() && is_digit(s[i]) {
        digits_end(s, i + 1)
    } else {
        i
    }
}

/// The value of the decimal digits `s[i..j]`.
pub open spec fn digits_value(s: Seq<u8>, i: int, j: int) -> int
    decreases j - i,
{
    if i < j {
        digits_value(s, i, j - 1) * 10 + (s[j - 1] - 48)
    } else {
        0
    }
}

/// Ten to the `n`.
pub open spec fn pow10(n: nat) -> int
    decreases n,
{
    if n == 0 {
        1
    } else {
        10 * pow10((n - 1) as nat)
    }
}

/// The value in millionths contributed by the fraction digits `s[i..j]`: the
/// first six digits scaled up, further digits ignored.
pub open spec fn frac_micro(s: Seq<u8>, i: int, j: int) -> int {
    let m = if j - i < 6 {
        j - i
    } else {
        6
    };
    digits_value(s, i, i + m) * pow10((6 - m) as nat)
}

/// The value of a hexadecimal digit, or -1.
pub open spec fn hex_val(b: u8) -> int {
    if 48 <= b <= 57 {
        b - 48
    } else if 65 <= b <= 70 {
        b - 55
    } else if 97 <= b <= 102 {
        b - 87
    } else {
        -1
    }
}

/// The value of the four hexadecimal digits at `i`, or -1.
pub open spec fn spec_hex4(s: Seq<u8>, i: int) -> int {
    if 0 <= i && i + 4 <= s.len() {
        let a = hex_val(s[i]);
        let b = hex_val(s[i + 1]);
        let c = hex_val(s[i + 2]);
        let d = hex_val(s[i + 3]);
        if a >= 0 && b >= 0 && c >= 0 && d >= 0 {
            a * 4096 + b * 256 + c * 16 + d
        } else {
            -1
        }
    } else {
        -1
    }
}

/// Unescapes the escape whose marker character stands at `i` (just after the
/// backslash): the UTF-8 bytes it denotes and the position after it. A
/// `\uXXXX` escape encodes its code point; a high surrogate must be followed
/// by a `\uXXXX` low surrogate and the pair encodes one scalar.
pub open spec fn spec_parse_escape(s: Seq<u8>, i: int) -> Option<(Seq<u8>, int)> {
    if !(0 <= i < s.len()) {
        None
    } else {
        let c = s[i];
        if c == 34 {
            Some((seq![34u8], i + 1))
        } else if c == 92 {
            Some((seq![92u8], i + 1))
        } else if c == 47 {
            Some((seq![47u8], i + 1))
        } else if c == 98 {
            Some((seq![8u8], i + 1))
        } else if c == 102 {
            Some((seq![12u8], i + 1))
        } else if c == 110 {
            Some((seq![10u8], i + 1))
        } else if c == 114 {
            Some((seq![13u8], i + 1))
        } else if c == 116 {
            Some((seq![9u8], i + 1))
        } else if c == 117 {
            let cu = spec_hex4(s, i + 1);
            if cu < 0 {
                None
            } else if 0xD800 <= cu <= 0xDBFF {
                if i + 7 <= s.len() && s[i + 5] == 92 && s[i + 6] == 117 {
                    let lo = spec_hex4(s, i + 7);
                    if 0xDC00 <= lo <= 0xDFFF {
                        Some(
                            (
                                encode_scalar(
                                    (0x10000 + (cu - 0xD800) * 0x400 + (lo - 0xDC00)) as u32,
                                ),
                                i + 11,
                            ),
                        )
                    } else {
                        None
                    }
                } else {
                    None
                }
            } else if 0xDC00 <= cu <= 0xDFFF {
                None
            } else {
                Some((encode_scalar(cu as u32), i + 5))
            }
        } else {
            None
        }
    }
}

/// Parses a string body starting at `i` (just after the opening quote): the
/// unescaped bytes and the position after the closing quote. Raw control
/// characters are not allowed; any other byte passes through, so multi-byte
/// UTF-8 in the input is preserved.
pub open spec fn spec_parse_string(s: Seq<u8>, i: int) -> Option<(Seq<u8>, int)>
    decreases s.len() - i when 0 <= i
{
    if !(0 <= i < s.len()) {
        None
    } else if s[i] == 34 {
        Some((Seq::empty(), i + 1))
    } else if s[i] == 92 {
        match spec_parse_escape(s, i + 1) {
            Some((bytes, j)) => {
                if j <= i + 1 || j > s.len() {
                    None
                } else {
                    match spec_parse_string(s, j) {
                        Some((rest, k)) => Some((bytes + rest, k)),
                        None => None,
                    }
                }
            },
            None => None,
        }
    } else if s[i] < 32 {
        None
    } else {
        match spec_parse_string(s, i + 1) {
            Some((rest, k)) => Some((seq![s[i]] + rest, k)),
            None => None,
        }
    }
}

/// Parses a numeral at `i`: its value in millionths and the position after
/// it. An optional minus sign, one to twelve integer digits, and optionally a
/// point with at least one fraction digit; the first six fraction digits
/// carry value. No exponent notation.
pub open spec fn spec_parse_number(s: Seq<u8>, i: int) -> Option<(int, int)> {
    if i < 0 {
        None
    } else {
        let neg = i < s.len() && s[i] == 45;
        let i1 = if neg {
            i + 1
        } else {
            i
        };
        let j = digits_end(s, i1);
        if !(i1 < s.len() && is_digit(s[i1])) {
            None
        } else if j - i1 > 12 {
            None
        } else {
            let int_part = digits_value(s, i1, j);
            if j < s.len() && s[j] == 46 {
                let k = digits_end(s, j + 1);
                if !(j + 1 < s.len() && is_digit(s[j + 1])) {
                    None
                } else {
                    let micro = int_part * 1000000 + frac_micro(s, j + 1, k);
                    Some(
                        (
                            if neg {
                                -micro
                            } else {
                                micro
                            },
                            k,
                        ),
                    )
                }
            } else {
                let micro = int_part * 1000000;
                Some(
                    (
                        if neg {
                            -micro
                        } else {
                            micro
                        },
                        j,
                    ),
                )
            }
        }
    }
}

/// Parses a value whose first non-whitespace byte stands at or after `i`.
pub open spec fn spec_parse_value(s: Seq<u8>, i: int) -> Option<(JsonRep, int)>
    decreases s.len() - i, 0int when 0 <= i
{
    if i < 0 {
        None
    } else {
        let j = skip_ws(s, i);
        if j < i || j >= s.len() {
            None
        } else if s[j] == 110 {
            if s.len() - j >= 4 && s[j + 1] == 117 && s[j + 2] == 108 && s[j + 3] == 108 {
                Some((JsonRep::Null, j + 4))
            } else {
                None
            }
        } else if s[j] == 116 {
            if s.len() - j >= 4 && s[j + 1] == 114 && s[j + 2] == 117 && s[j + 3] == 101 {
                Some((JsonRep::Bool(true), j + 4))
            } else {
                None
            }
        } else if s[j] == 102 {
            if s.len() - j >= 5 && s[j + 1] == 97 && s[j + 2] == 108 && s[j + 3] == 115 && s[j + 4]
                == 101 {
                Some((JsonRep::Bool(false), j + 5))
            } else {
                None
            }
        } else if s[j] == 34 {
            match spec_parse_string(s, j + 1) {
                Some((bytes, k)) => Some((JsonRep::Str(bytes), k)),
                None => None,
            }
        } else if s[j] == 91 {
            let m = skip_ws(s, j + 1);
            if m < j + 1 {
                None
            } else if m < s.len() && s[m] == 93 {
                Some((JsonRep::Arr(Seq::empty()), m + 1))
            } else {
                match spec_parse_elements(s, j + 1) {
                    Some((elems, k)) => Some((JsonRep::Arr(elems), k)),
                    None => None,
                }
            }
        } else if s[j] == 123 {
            let m = skip_ws(s, j + 1);
            if m < j + 1 {
                None
            } else if m < s.len() && s[m] == 125 {
                Some((JsonRep::Obj(Seq::empty()), m + 1))
            } else {
                match spec_parse_members(s, j + 1) {
                    Some((members, k)) => Some((JsonRep::Obj(members), k)),
                    None => None,
                }
            }
        } else if s[j] == 45 || is_digit(s[j]) {
            match spec_parse_number(s, j) {
                Some((micro, k)) => Some((JsonRep::Num(micro), k)),
                None => None,
            }
        } else {
            None
        }
    }
}

/// Parses the elements of a non-empty array, starting just after `[` or `,`.
pub open spec fn spec_parse_elements(s: Seq<u8>, i: int) -> Option<(Seq<JsonRep>, int)>
    decreases s.len() - i, 1int when 0 <= i
{
    if i < 0 {
        None
    } else {
        match spec_parse_value(s, i) {
            Some((v, k)) => {
                if k <= i || k > s.len() {
                    None
                } else {
                    let m = skip_ws(s, k);
                    if m < k {
                        None
                    } else if m < s.len() && s[m] == 44 {
                        match spec_parse_elements(s, m + 1) {
                            Some((rest, end)) => Some((seq![v] + rest, end)),
                            None => None,
                        }
                    } else if m < s.len() && s[m] == 93 {
                        Some((seq![v], m + 1))
                    } else {
                        None
                    }
                }
            },
            None => None,
        }
    }
}

/// Parses the members of a non-empty object, starting just after `{` or `,`.
pub open spec fn spec_parse_members(s: Seq<u8>, i: int) -> Option<(Seq<(Seq<u8>, JsonRep)>, int)>
    decreases s.len() - i, 1int when 0 <= i
{
    if i < 0 {
        None
    } else {
        let j = skip_ws(s, i);
        if j < i || !(j < s.len() && s[j] == 34) {
            None
        } else {
            match spec_parse_string(s, j + 1) {
                Some((key, k)) => {
                    if k <= j || k > s.len() {
                        None
                    } else {
                        let m = skip_ws(s, k);
                        if m < k || !(m < s.len() && s[m] == 58) {
                            None
                        } else {
                            match spec_parse_value(s, m + 1) {
                                Some((v, e)) => {
                                    if e <= m || e > s.len() {
                                        None
                                    } else {
                                        let m2 = skip_ws(s, e);
                                        if m2 < e {
                                            None
                                        } else if m2 < s.len() && s[m2] == 44 {
                                            match spec_parse_members(s, m2 + 1) {
                                                Some((rest, end)) => Some(
                                                    (seq![(key, v)] + rest, end),
                                                ),
                                                None => None,
                                            }
                                        } else if m2 < s.len() && s[m2] == 125 {
                                            Some((seq![(key, v)], m2 + 1))
                                        } else {
                                            None
                                        }
                                    }
                                },
                                None => None,
                            }
                        }
                    }
                },
                None => None,
            }
        }
    }
}

/// A whole document: one value, with nothing but whitespace after it.
pub open spec fn spec_parse_document(s: Seq<u8>) -> Option<JsonRep> {
    match spec_parse_value(s, 0) {
        Some((v, k)) => {
            if 0 <= k <= s.len() && skip_ws(s, k) == s.len() {
                Some(v)
            } else {
                None
            }
        },
        None => None,
    }
}

/// Ten to the `n`, exactly, for the small exponents the parser uses.
proof fn lemma_pow10_values()
    ensures
        pow10(0) == 1,
        pow10(1) == 10,
        pow10(2) == 100,
        pow10(3) == 1000,
        pow10(4) == 10000,
        pow10(5) == 100000,
        pow10(6) == 1000000,
        pow10(7) == 10000000,
        pow10(8) == 100000000,
        pow10(9) == 1000000000,
        pow10(10) == 10000000000,
        pow10(11) == 100000000000,
        pow10(12) == 1000000000000,
{
    assert(pow10(0) == 1);
    assert(pow10(1) == 10);
    assert(pow10(2) == 100);
    assert(pow10(3) == 1000);
    assert(pow10(4) == 10000);
    assert(pow10(5) == 100000);
    assert(pow10(6) == 1000000);
    assert(pow10(7) == 10000000);
    assert(pow10(8) == 100000000);
    assert(pow10(9) == 1000000000);
    assert(pow10(10) == 10000000000);
    assert(pow10(11) == 100000000000);
    assert(pow10(12) == 1000000000000);
}

/// Powers of ten are positive and grow with the exponent.
proof fn lemma_pow10_mono(a: nat, b: nat)
    requires
        a <= b,
    ensures
        1 <= pow10(a) <= pow10(b),
    decreases b,
{
    if b == 0 {
    } else if a == b {
        lemma_pow10_mono((a - 1) as nat, (b - 1) as nat);
    } else {
        lemma_pow10_mono(a, (b - 1) as nat);
    }
}

/// The value of a digit run is bounded by the power of ten of its length.
proof fn lemma_digits_value_bound(s: Seq<u8>, i: int, j: int)
    requires
        i <= j,
        forall|t: int| i <= t < j ==> is_digit(#[trigger] s[t]),
    ensures
        0 <= digits_value(s, i, j) < pow10((j - i) as nat),
    decreases j - i,
{
    if i < j {
        lemma_digits_value_bound(s, i, j - 1);
    }
}


/// Powers of ten multiply by adding exponents.
proof fn lemma_pow10_add(a: nat, b: nat)
    ensures
        pow10(a + b) == pow10(a) * pow10(b),
    decreases a,
{
    if a == 0 {
    } else {
        lemma_pow10_add((a - 1) as nat, b);
        assert(pow10(a + b) == 10 * pow10((a + b - 1) as nat));
        assert(10 * (pow10((a - 1) as nat) * pow10(b)) == (10 * pow10((a - 1) as nat)) * pow10(
            b,
        )) by (nonlinear_arith);
    }
}

/// A fraction value below its digit-run bound, scaled, stays below one
/// million.
proof fn lemma_frac_scale_bound(fv: int, scale: int, pm: int)
    by (nonlinear_arith)
    requires
        0 <= fv,
        fv < pm,
        0 < scale,
        pm * scale == 1000000,
    ensures
        fv * scale < 1000000,
{
}

/// The first non-whitespace position at or after `i`.
fn skip_ws_exec(s: &[u8], i: usize) -> (r: usize)
    requires
        i <= s@.len(),
    ensures
        r as int == skip_ws(s@, i as int),
        i <= r <= s@.len(),
    decreases s@.len() - i,
{
    if i < s.len() && (s[i] == 32 || s[i] == 9 || s[i] == 10 || s[i] == 13) {
        skip_ws_exec(s, i + 1)
    } else {
        i
    }
}

/// The first non-digit position at or after `i`.
fn digits_end_exec(s: &[u8], i: usize) -> (r: usize)
    requires
        i <= s@.len(),
    ensures
        r as int == digits_end(s@, i as int),
        i <= r <= s@.len(),
        forall|t: int| i <= t < r ==> is_digit(#[trigger] s@[t]),
        (i < s@.len() && is_digit(s@[i as int])) ==> r > i,
        r < s@.len() ==> !is_digit(s@[r as int]),
    decreases s@.len() - i,
{
    if i < s.len() && 48 <= s[i] && s[i] <= 57 {
        digits_end_exec(s, i + 1)
    } else {
        i
    }
}

/// The value of the digit run `s[i..j]`.
fn digits_value_exec(s: &[u8], i: usize, j: usize) -> (r: u64)
    requires
        i <= j <= s@.len(),
        j - i <= 12,
        forall|t: int| i <= t < j ==> is_digit(#[trigger] s@[t]),
    ensures
        r as int == digits_value(s@, i as int, j as int),
        r < 1000000000000u64,
    decreases j - i,
{
    proof {
        lemma_digits_value_bound(s@, i as int, j as int);
        lemma_pow10_mono((j - i) as nat, 12);
        lemma_pow10_values();
    }
    if i < j {
        let prev = digits_value_exec(s, i, j - 1);
        proof {
            lemma_digits_value_bound(s@, i as int, j as int - 1);
            lemma_pow10_mono((j - i - 1) as nat, 11);
        }
        prev * 10 + (s[j - 1] - 48) as u64
    } else {
        0
    }
}

/// Ten to the `n` for `n` up to six.
fn pow10_exec_small(n: u64) -> (r: u64)
    requires
        n <= 6,
    ensures
        r as int == pow10(n as nat),
        1 <= r <= 1000000,
{
    proof {
        lemma_pow10_values();
    }
    if n == 0 {
        1
    } else if n == 1 {
        10
    } else if n == 2 {
        100
    } else if n == 3 {
        1000
    } else if n == 4 {
        10000
    } else if n == 5 {
        100000
    } else {
        1000000
    }
}

/// The value of the four hexadecimal digits at `i`, if they are there.
fn hex4_exec(s: &[u8], i: usize) -> (r: Option<u32>)
    requires
        i <= s@.len(),
    ensures
        r is Some <==> spec_hex4(s@, i as int) >= 0,
        r matches Some(v) ==> (v as int == spec_hex4(s@, i as int) && v <= 0xFFFF),
{
    if s.len() - i < 4 {
        return None;
    }
    let a = hex_digit(s[i]);
    let b = hex_digit(s[i + 1]);
    let c = hex_digit(s[i + 2]);
    let d = hex_digit(s[i + 3]);
    match (a, b, c, d) {
        (Some(a), Some(b), Some(c), Some(d)) => Some(
            (a as u32) * 4096 + (b as u32) * 256 + (c as u32) * 16 + (d as u32),
        ),
        _ => None,
    }
}

/// The value of one hexadecimal digit.
fn hex_digit(b: u8) -> (r: Option<u8>)
    ensures
        r is Some <==> hex_val(b) >= 0,
        r matches Some(v) ==> (v as int == hex_val(b) && v <= 15),
{
    if 48 <= b && b <= 57 {
        Some(b - 48)
    } else if 65 <= b && b <= 70 {
        Some(b - 55)
    } else if 97 <= b && b <= 102 {
        Some(b - 87)
    } else {
        None
    }
}

/// The UTF-8 encoding of a scalar value.
fn encode_scalar_exec(scalar: u32) -> (r: Vec<u8>)
    ensures
        r@ == encode_scalar(scalar),
{
    let mut v: Vec<u8> = Vec::new();
    if scalar <= 0x7F {
        v.push((scalar & 0x7F) as u8);
    } else if 0x80 <= scalar && scalar <= 0x7FF {
        v.push(0xC0u8 | (((scalar >> 6) & 0x1F) as u8));
        v.push(0x80u8 | ((scalar & 0x3F) as u8));
    } else if 0x800 <= scalar && scalar <= 0xFFFF && !(0xD800 <= scalar && scalar <= 0xDFFF) {
        v.push(0xE0u8 | (((scalar >> 12) & 0x0F) as u8));
        v.push(0x80u8 | (((scalar >> 6) & 0x3F) as u8));
        v.push(0x80u8 | ((scalar & 0x3F) as u8));
    } else {
        v.push(0xF0u8 | (((scalar >> 18) & 0x7) as u8));
        v.push(0x80u8 | (((scalar >> 12) & 0x3F) as u8));
        v.push(0x80u8 | (((scalar >> 6) & 0x3F) as u8));
        v.push(0x80u8 | ((scalar & 0x3F) as u8));
    }
    proof {
        assert(v@ =~= encode_scalar(scalar));
    }
    v
}

/// Unescapes the escape whose marker stands at `i`.
fn parse_escape_exec(s: &[u8], i: usize) -> (r: Option<(Vec<u8>, usize)>)
    requires
        i <= s@.len(),
    ensures
        r is Some <==> spec_parse_escape(s@, i as int) is Some,
        r matches Some((b, k)) ==> (spec_parse_escape(s@, i as int) == Some((b@, k as int)) && i
            < k <= s@.len()),
{
    if i >= s.len() {
        return None;
    }
    let c = s[i];
    if c == 34 || c == 92 || c == 47 {
        let mut v: Vec<u8> = Vec::new();
        v.push(c);
        proof {
            assert(v@ =~= seq![c]);
        }
        Some((v, i + 1))
    } else if c == 98 || c == 102 || c == 110 || c == 114 || c == 116 {
        let unescaped: u8 = if c == 98 {
            8
        } else if c == 102 {
            12
        } else if c == 110 {
            10
        } else if c == 114 {
            13
        } else {
            9
        };
        let mut v: Vec<u8> = Vec::new();
        v.push(unescaped);
        proof {
            assert(v@ =~= seq![unescaped]);
        }
        Some((v, i + 1))
    } else if c == 117 {
        match hex4_exec(s, i + 1) {
            Some(cu) => {
                if 0xD800 <= cu && cu <= 0xDBFF {
                    if s.len() - i >= 7 && s[i + 5] == 92 && s[i + 6] == 117 {
                        match hex4_exec(s, i + 7) {
                            Some(lo) => {
                                if 0xDC00 <= lo && lo <= 0xDFFF {
                                    let scalar = 0x10000 + (cu - 0xD800) * 0x400 + (lo - 0xDC00);
                                    Some((encode_scalar_exec(scalar), i + 11))
                                } else {
                                    None
                                }
                            },
                            None => None,
                        }
                    } else {
                        None
                    }
                } else if 0xDC00 <= cu && cu <= 0xDFFF {
                    None
                } else {
                    Some((encode_scalar_exec(cu), i + 5))
                }
            },
            None => None,
        }
    } else {
        None
    }
}

/// Parses a string body starting just after the opening quote.
fn parse_string_exec(s: &[u8], i: usize) -> (r: Option<(Vec<u8>, usize)>)
    requires
        i <= s@.len(),
    ensures
        r is Some <==> spec_parse_string(s@, i as int) is Some,
        r matches Some((b, k)) ==> (spec_parse_string(s@, i as int) == Some((b@, k as int)) && i
            < k <= s@.len()),
    decreases s@.len() - i,
{
    if i >= s.len() {
        return None;
    }
    let c = s[i];
    if c == 34 {
        let v: Vec<u8> = Vec::new();
        Some((v, i + 1))
    } else if c == 92 {
        match parse_escape_exec(s, i + 1) {
            Some((bytes, j)) => {
                if j <= i + 1 {
                    return None;
                }
                match parse_string_exec(s, j) {
                    Some((rest, k)) => {
                        let mut out = bytes;
                        let mut rest = rest;
                        out.append(&mut rest);
                        Some((out, k))
                    },
                    None => None,
                }
            },
            None => None,
        }
    } else if c < 32 {
        None
    } else {
        match parse_string_exec(s, i + 1) {
            Some((rest, k)) => {
                let mut out: Vec<u8> = Vec::new();
                out.push(c);
                let mut rest = rest;
                out.append(&mut rest);
                proof {
                    assert(out@ =~= seq![c] + spec_parse_string(s@, i as int + 1)->Some_0.0);
                }
                Some((out, k))
            },
            None => None,
        }
    }
}

/// Parses a numeral at `i` into its value in millionths.
fn parse_number_exec(s: &[u8], i: usize) -> (r: Option<(i64, usize)>)
    requires
        i <= s@.len(),
    ensures
        r is Some <==> spec_parse_number(s@, i as int) is Some,
        r matches Some((v, k)) ==> (spec_parse_number(s@, i as int) == Some((v as int, k as int))
            && i < k <= s@.len()),
{
    proof {
        lemma_pow10_values();
    }
    let neg = i < s.len() && s[i] == 45;
    let i1 = if neg {
        i + 1
    } else {
        i
    };
    let j = digits_end_exec(s, i1);
    if !(i1 < s.len() && 48 <= s[i1] && s[i1] <= 57) {
        return None;
    }
    if j - i1 > 12 {
        return None;
    }
    let int_part = digits_value_exec(s, i1, j);
    if j < s.len() && s[j] == 46 {
        if !(j + 1 < s.len() && 48 <= s[j + 1] && s[j + 1] <= 57) {
            return None;
        }
        let k = digits_end_exec(s, j + 1);
        let fl = k - (j + 1);
        let m = if fl < 6 {
            fl
        } else {
            6
        };
        let fv = digits_value_exec(s, j + 1, j + 1 + m);
        let scale = pow10_exec_small((6 - m) as u64);
        proof {
            lemma_digits_value_bound(s@, (j + 1) as int, (j + 1 + m) as int);
            lemma_pow10_add(m as nat, (6 - m) as nat);
            lemma_frac_scale_bound(
                fv as int,
                scale as int,
                pow10(m as nat),
            );
            assert(fv as int * scale as int == frac_micro(s@, (j + 1) as int, k as int));
        }
        let micro = int_part * 1000000 + fv * scale;
        let val: i64 = if neg {
            -(micro as i64)
        } else {
            micro as i64
        };
        Some((val, k))
    } else {
        let micro = int_part * 1000000;
        let val: i64 = if neg {
            -(micro as i64)
        } else {
            micro as i64
        };
        Some((val, j))
    }
}

/// Parses a value whose first non-whitespace byte stands at or after `i`.
pub fn parse_value_exec(s: &[u8], i: usize) -> (r: Option<(JsonValue, usize)>)
    requires
        i <= s@.len(),
    ensures
        r is Some <==> spec_parse_value(s@, i as int) is Some,
        r matches Some((v, k)) ==> (spec_parse_value(s@, i as int) == Some((v@, k as int)) && i
            <= k <= s@.len()),
    decreases s@.len() - i, 0int,
{
    let j = skip_ws_exec(s, i);
    if j >= s.len() {
        return None;
    }
    let c = s[j];
    if c == 110 {
        if s.len() - j >= 4 && s[j + 1] == 117 && s[j + 2] == 108 && s[j + 3] == 108 {
            Some((JsonValue::Null, j + 4))
        } else {
            None
        }
    } else if c == 116 {
        if s.len() - j >= 4 && s[j + 1] == 114 && s[j + 2] == 117 && s[j + 3] == 101 {
            Some((JsonValue::Bool(true), j + 4))
        } else {
            None
        }
    } else if c == 102 {
        if s.len() - j >= 5 && s[j + 1] == 97 && s[j + 2] == 108 && s[j + 3] == 115 && s[j + 4]
            == 101 {
            Some((JsonValue::Bool(false), j + 5))
        } else {
            None
        }
    } else if c == 34 {
        match parse_string_exec(s, j + 1) {
            Some((bytes, k)) => Some((JsonValue::Str(bytes), k)),
            None => None,
        }
    } else if c == 91 {
        let m = skip_ws_exec(s, j + 1);
        if m < s.len() && s[m] == 93 {
            let empty: Vec<JsonValue> = Vec::new();
            proof {
                assert(reps_of(empty@) =~= Seq::<JsonRep>::empty());
            }
            Some((JsonValue::Arr(empty), m + 1))
        } else {
            match parse_elements_exec(s, j + 1) {
                Some((elems, k)) => Some((JsonValue::Arr(elems), k)),
                None => None,
            }
        }
    } else if c == 123 {
        let m = skip_ws_exec(s, j + 1);
        if m < s.len() && s[m] == 125 {
            let empty: Vec<(Vec<u8>, JsonValue)> = Vec::new();
            proof {
                assert(member_reps_of(empty@) =~= Seq::<(Seq<u8>, JsonRep)>::empty());
            }
            Some((JsonValue::Obj(empty), m + 1))
        } else {
            match parse_members_exec(s, j + 1) {
                Some((members, k)) => Some((JsonValue::Obj(members), k)),
                None => None,
            }
        }
    } else if c == 45 || (48 <= c && c <= 57) {
        match parse_number_exec(s, j) {
            Some((micro, k)) => Some((JsonValue::Num(micro), k)),
            None => None,
        }
    } else {
        None
    }
}

/// Parses the elements of a non-empty array, starting just after `[` or `,`.
fn parse_elements_exec(s: &[u8], i: usize) -> (r: Option<(Vec<JsonValue>, usize)>)
    requires
        i <= s@.len(),
    ensures
        r is Some <==> spec_parse_elements(s@, i as int) is Some,
        r matches Some((v, k)) ==> (spec_parse_elements(s@, i as int) == Some(
            (reps_of(v@), k as int),
        ) && i <= k <= s@.len()),
    decreases s@.len() - i, 1int,
{
    match parse_value_exec(s, i) {
        Some((v, k)) => {
            if k <= i {
                return None;
            }
            let m = skip_ws_exec(s, k);
            if m < s.len() && s[m] == 44 {
                match parse_elements_exec(s, m + 1) {
                    Some((rest, end)) => {
                        let ghost rest_seq = rest@;
                        let mut out: Vec<JsonValue> = Vec::new();
                        out.push(v);
                        let mut rest = rest;
                        out.append(&mut rest);
                        proof {
                            lemma_reps_of_index(out@);
                            lemma_reps_of_index(rest_seq);
                            assert(out@ =~= seq![v] + rest_seq);
                            assert(reps_of(out@) =~= seq![rep_of(v)] + reps_of(rest_seq));
                        }
                        Some((out, end))
                    },
                    None => None,
                }
            } else if m < s.len() && s[m] == 93 {
                let mut out: Vec<JsonValue> = Vec::new();
                out.push(v);
                proof {
                    lemma_reps_of_index(out@);
                    assert(out@ =~= seq![v]);
                    assert(reps_of(out@) =~= seq![rep_of(v)]);
                }
                Some((out, m + 1))
            } else {
                None
            }
        },
        None => None,
    }
}

/// Parses the members of a non-empty object, starting just after `{` or `,`.
fn parse_members_exec(s: &[u8], i: usize) -> (r: Option<(Vec<(Vec<u8>, JsonValue)>, usize)>)
    requires
        i <= s@.len(),
    ensures
        r is Some <==> spec_parse_members(s@, i as int) is Some,
        r matches Some((v, k)) ==> (spec_parse_members(s@, i as int) == Some(
            (member_reps_of(v@), k as int),
        ) && i <= k <= s@.len()),
    decreases s@.len() - i, 1int,
{
    let j = skip_ws_exec(s, i);
    if !(j < s.len() && s[j] == 34) {
        return None;
    }
    match parse_string_exec(s, j + 1) {
        Some((key, k)) => {
            let m = skip_ws_exec(s, k);
            if !(m < s.len() && s[m] == 58) {
                return None;
            }
            match parse_value_exec(s, m + 1) {
                Some((v, e)) => {
                    if e <= m {
                        return None;
                    }
                    let m2 = skip_ws_exec(s, e);
                    if m2 < s.len() && s[m2] == 44 {
                        match parse_members_exec(s, m2 + 1) {
                            Some((rest, end)) => {
                                let ghost rest_seq = rest@;
                                let mut out: Vec<(Vec<u8>, JsonValue)> = Vec::new();
                                out.push((key, v));
                                let mut rest = rest;
                                out.append(&mut rest);
                                proof {
                                    lemma_member_reps_of_index(out@);
                                    lemma_member_reps_of_index(rest_seq);
                                    assert(out@ =~= seq![(key, v)] + rest_seq);
                                    assert(member_reps_of(out@) =~= seq![(key@, rep_of(v))]
                                        + member_reps_of(rest_seq));
                                }
                                Some((out, end))
                            },
                            None => None,
                        }
                    } else if m2 < s.len() && s[m2] == 125 {
                        let mut out: Vec<(Vec<u8>, JsonValue)> = Vec::new();
                        out.push((key, v));
                        proof {
                            lemma_member_reps_of_index(out@);
                            assert(out@ =~= seq![(key, v)]);
                            assert(member_reps_of(out@) =~= seq![(key@, rep_of(v))]);
                        }
                        Some((out, m2 + 1))
                    } else {
                        None
                    }
                },
                None => None,
            }
        },
        None => None,
    }
}

/// Parses a whole document: one value with nothing but whitespace after it.
pub fn parse_document(s: &[u8]) -> (r: Option<JsonValue>)
    ensures
        r is Some <==> spec_parse_document(s@) is Some,
        r matches Some(v) ==> spec_parse_document(s@) == Some(v@),
{
    match parse_value_exec(s, 0) {
        Some((v, k)) => {
            let e = skip_ws_exec(s, k);
            if e == s.len() {
                Some(v)
            } else {
                None
            }
        },
        None => None,
    }
}

} // verus!
