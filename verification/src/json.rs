//! The wire-format value tree and its text form.
//!
//! The interpreter hands each element over as one JSON text.  This
//! module holds the tree those texts denote, an exact parser for them,
//! and the writer that lays a tree back out as canonical text.
//!
//! Numbers denote millimetres and are read into nanometre integers;
//! a number finer than a nanometre, or farther than [`NM_LIMIT`] from
//! zero, and the spellings of the non-finite values (`NaN`,
//! `Infinity`), are reported as out of range rather than parsed.

use vstd::prelude::*;
use crate::geom::{NM_LIMIT, in_range};
use crate::strutil::push_char;

verus! {

broadcast use {
    vstd::std_specs::vec::axiom_vec_index_decreases,
    vstd::seq::axiom_seq_index_decreases,
    vstd::seq::axiom_seq_subrange_decreases,
};

/// Why a wire text was refused: not JSON at all, or a number the model
/// cannot carry.
#[derive(Clone, Copy, Debug, PartialEq, Eq, Structural)]
pub enum JErr {
    Syntax,
    Range,
}

/// A wire-format value.
#[derive(Debug)]
pub enum Json {
    Null,
    Bool(bool),
    Num(i64),
    Str(String),
    Arr(Vec<Json>),
    Obj(Vec<(String, Json)>),
}

/// The mathematical image of a [`Json`].
pub enum JsonV {
    Null,
    Bool(bool),
    Num(int),
    Str(Seq<char>),
    Arr(Seq<JsonV>),
    Obj(Seq<(Seq<char>, JsonV)>),
}

/// The image of a wire value.
pub open spec fn json_view(j: Json) -> JsonV
    decreases j,
{
    match j {
        Json::Null => JsonV::Null,
        Json::Bool(b) => JsonV::Bool(b),
        Json::Num(v) => JsonV::Num(v as int),
        Json::Str(s) => JsonV::Str(s@),
        Json::Arr(a) => JsonV::Arr(
            Seq::new(
                a.len() as nat,
                |i: int|
                    if 0 <= i < a.len() {
                        json_view(a[i])
                    } else {
                        JsonV::Null
                    },
            ),
        ),
        Json::Obj(o) => JsonV::Obj(
            Seq::new(
                o.len() as nat,
                |i: int|
                    if 0 <= i < o.len() {
                        (o[i].0@, json_view(o[i].1))
                    } else {
                        (Seq::empty(), JsonV::Null)
                    },
            ),
        ),
    }
}

impl View for Json {
    type V = JsonV;

    open spec fn view(&self) -> JsonV {
        json_view(*self)
    }
}

/// The images of the items of an array.
pub open spec fn arr_view(a: Seq<Json>) -> Seq<JsonV> {
    Seq::new(a.len(), |i: int| json_view(a[i]))
}

/// The images of the fields of an object.
pub open spec fn fields_view(o: Seq<(String, Json)>) -> Seq<(Seq<char>, JsonV)> {
    Seq::new(o.len(), |i: int| (o[i].0@, json_view(o[i].1)))
}

/// The image of an array value is the image of its items.
pub proof fn lemma_view_arr(a: Vec<Json>)
    ensures
        json_view(Json::Arr(a)) == JsonV::Arr(arr_view(a@)),
{
    match json_view(Json::Arr(a)) {
        JsonV::Arr(s) => {
            assert(s =~= arr_view(a@));
        },
        _ => {},
    }
}

/// The image of an object value is the image of its fields.
pub proof fn lemma_view_obj(o: Vec<(String, Json)>)
    ensures
        json_view(Json::Obj(o)) == JsonV::Obj(fields_view(o@)),
{
    match json_view(Json::Obj(o)) {
        JsonV::Obj(s) => {
            assert(s =~= fields_view(o@));
        },
        _ => {},
    }
}

/// The first value bound to `key`, scanning the fields in order.
pub open spec fn sp_obj_get(fields: Seq<(Seq<char>, JsonV)>, key: Seq<char>) -> Option<JsonV>
    decreases fields.len(),
{
    if fields.len() == 0 {
        None
    } else if fields[0].0 == key {
        Some(fields[0].1)
    } else {
        sp_obj_get(fields.drop_first(), key)
    }
}

/// Exec twin of [`sp_obj_get`].
pub fn obj_get<'a>(fields: &'a Vec<(String, Json)>, key: &str) -> (r: Option<&'a Json>)
    ensures
        match r {
            Some(j) => sp_obj_get(fields_view(fields@), key@) == Some(j@),
            None => sp_obj_get(fields_view(fields@), key@) is None,
        },
{
    let ghost all = fields_view(fields@);
    let mut i: usize = 0;
    proof {
        assert(all.skip(0) =~= all);
    }
    while i < fields.len()
        invariant
            i <= fields@.len(),
            all == fields_view(fields@),
            sp_obj_get(all.skip(i as int), key@) == sp_obj_get(all, key@),
        decreases fields@.len() - i,
    {
        if crate::strutil::str_eq(fields[i].0.as_str(), key) {
            proof {
                assert(all.skip(i as int)[0] == all[i as int]);
            }
            return Some(&fields[i].1);
        }
        proof {
            assert(all.skip(i as int)[0] == all[i as int]);
            assert(all.skip(i as int).drop_first() =~= all.skip(i + 1));
        }
        i += 1;
    }
    proof {
        assert(all.skip(i as int).len() == 0);
    }
    None
}

/// A JSON whitespace character.
pub open spec fn is_ws(c: char) -> bool {
    c == ' ' || c == '\n' || c == '\t' || c == '\r'
}

/// The first index at or after `i` that does not hold whitespace.
pub open spec fn sp_ws(s: Seq<char>, i: int) -> int
    decreases s.len() - i,
{
    if 0 <= i < s.len() && is_ws(s[i]) {
        sp_ws(s, i + 1)
    } else {
        i
    }
}

/// The whitespace scan stays within the text.
pub proof fn lemma_sp_ws_bounds(s: Seq<char>, i: int)
    requires
        0 <= i <= s.len(),
    ensures
        i <= sp_ws(s, i) <= s.len(),
    decreases s.len() - i,
{
    if i < s.len() && is_ws(s[i]) {
        lemma_sp_ws_bounds(s, i + 1);
    }
}

/// Exec twin of [`is_ws`].
fn ws_check(c: char) -> (r: bool)
    ensures
        r == is_ws(c),
{
    c == ' ' || c == '\n' || c == '\t' || c == '\r'
}

/// Exec twin of [`sp_ws`].
pub fn ws_end(s: &str, i: usize) -> (r: usize)
    requires
        i <= s@.len(),
    ensures
        r == sp_ws(s@, i as int),
        i <= r <= s@.len(),
{
    let n = s.unicode_len();
    let mut p = i;
    while p < n && ws_check(s.get_char(p))
        invariant
            n == s@.len(),
            i <= p <= n,
            sp_ws(s@, i as int) == sp_ws(s@, p as int),
        decreases n - p,
    {
        p += 1;
    }
    p
}

/// A decimal digit.
pub open spec fn is_digit(c: char) -> bool {
    48 <= c as u32 <= 57
}

/// The value of a decimal digit.
pub open spec fn digit_val(c: char) -> int {
    c as u32 - 48
}

/// The end of the run of digits starting at `i`.
pub open spec fn digits_end(s: Seq<char>, i: int) -> int
    decreases s.len() - i,
{
    if 0 <= i < s.len() && is_digit(s[i]) {
        digits_end(s, i + 1)
    } else {
        i
    }
}

/// The digit run stays within the text and holds digits only.
pub proof fn lemma_digits_end(s: Seq<char>, i: int)
    requires
        0 <= i <= s.len(),
    ensures
        i <= digits_end(s, i) <= s.len(),
        forall|k: int| i <= k < digits_end(s, i) ==> is_digit(#[trigger] s[k]),
        digits_end(s, i) < s.len() ==> !is_digit(s[digits_end(s, i)]),
    decreases s.len() - i,
{
    if i < s.len() && is_digit(s[i]) {
        lemma_digits_end(s, i + 1);
    }
}

/// The number the digits in `[a, b)` spell.
pub open spec fn dval(s: Seq<char>, a: int, b: int) -> int
    decreases b - a,
{
    if a >= b {
        0
    } else {
        dval(s, a, b - 1) * 10 + digit_val(s[b - 1])
    }
}

/// The mantissa spelled by an integral digit run `[a, b)` followed by
/// a fractional digit run `[c, d)`.
pub open spec fn mant(s: Seq<char>, a: int, b: int, c: int, d: int) -> int
    decreases d - c,
{
    if c >= d {
        dval(s, a, b)
    } else {
        mant(s, a, b, c, d - 1) * 10 + digit_val(s[d - 1])
    }
}

/// Ten to the `k`, and one for a negative `k`.
pub open spec fn pow10(k: int) -> int
    decreases k,
{
    if k <= 0 {
        1
    } else {
        10 * pow10(k - 1)
    }
}

/// The small powers of ten, spelled out for the scaling code.
pub proof fn lemma_pow10_small()
    ensures
        pow10(0) == 1,
        pow10(1) == 10,
        pow10(2) == 100,
        pow10(3) == 1000,
        pow10(4) == 10000,
        pow10(5) == 100000,
        pow10(6) == 1000000,
        pow10(7) == 10000000,
        pow10(8) == 100000000,
        pow10(9) == 1000000000,
        pow10(10) == 10000000000,
        pow10(11) == 100000000000,
        pow10(12) == 1000000000000,
        pow10(13) == 10000000000000,
{
    assert(pow10(0) == 1);
    assert(pow10(1) == 10);
    assert(pow10(2) == 100);
    assert(pow10(3) == 1000);
    assert(pow10(4) == 10000);
    assert(pow10(5) == 100000);
    assert(pow10(6) == 1000000);
    assert(pow10(7) == 10000000);
    assert(pow10(8) == 100000000);
    assert(pow10(9) == 1000000000);
    assert(pow10(10) == 10000000000);
    assert(pow10(11) == 100000000000);
    assert(pow10(12) == 1000000000000);
    assert(pow10(13) == 10000000000000);
}

/// Powers of ten are positive.
pub proof fn lemma_pow10_pos(k: int)
    ensures
        pow10(k) >= 1,
    decreases k,
{
    if k > 0 {
        lemma_pow10_pos(k - 1);
    }
}

/// Powers of ten grow with the exponent.
pub proof fn lemma_pow10_mono(a: int, b: int)
    requires
        a <= b,
    ensures
        pow10(a) <= pow10(b),
    decreases b - a,
{
    if a < b {
        lemma_pow10_mono(a, b - 1);
        lemma_pow10_pos(b - 1);
    }
}

/// The value of a number token at `i`, in nanometres, with the index
/// just past it.  A value finer than a nanometre or beyond
/// [`NM_LIMIT`] is out of range, as the model cannot carry it; so is
/// any exponent written with more than three digits, which no
/// carryable value needs.
pub open spec fn sp_number(s: Seq<char>, i: int) -> Result<(int, int), JErr> {
    let neg = 0 <= i < s.len() && s[i] == '-';
    let i1 = if neg {
        i + 1
    } else {
        i
    };
    let j = digits_end(s, i1);
    if j == i1 {
        Err(JErr::Syntax)
    } else if s[i1] == '0' && j > i1 + 1 {
        Err(JErr::Syntax)
    } else {
        let hasfrac = j < s.len() && s[j] == '.';
        let fs = if hasfrac {
            j + 1
        } else {
            j
        };
        let fe = if hasfrac {
            digits_end(s, j + 1)
        } else {
            j
        };
        if hasfrac && fe == fs {
            Err(JErr::Syntax)
        } else {
            let hasexp = fe < s.len() && (s[fe] == 'e' || s[fe] == 'E');
            if hasexp {
                let en = fe + 1 < s.len() && s[fe + 1] == '-';
                let ep = fe + 1 < s.len() && s[fe + 1] == '+';
                let ds = if en || ep {
                    fe + 2
                } else {
                    fe + 1
                };
                let de = digits_end(s, ds);
                if de == ds {
                    Err(JErr::Syntax)
                } else if de - ds > 3 {
                    Err(JErr::Range)
                } else {
                    let ev = if en {
                        -dval(s, ds, de)
                    } else {
                        dval(s, ds, de)
                    };
                    sp_num_value(s, neg, i1, j, fs, fe, ev, de)
                }
            } else {
                sp_num_value(s, neg, i1, j, fs, fe, 0, fe)
            }
        }
    }
}

/// The nanometre value of a scanned number: the mantissa scaled by ten
/// to the `6 + ev - (d - c)`, negative when `neg`.
pub open spec fn sp_num_value(
    s: Seq<char>,
    neg: bool,
    a: int,
    b: int,
    c: int,
    d: int,
    ev: int,
    end: int,
) -> Result<(int, int), JErr> {
    let m = mant(s, a, b, c, d);
    if m == 0 {
        Ok((0, end))
    } else {
        let k = 6 + ev - (d - c);
        if k < 0 {
            Err(JErr::Range)
        } else if m * pow10(k) > NM_LIMIT as int {
            Err(JErr::Range)
        } else {
            Ok(
                (
                    if neg {
                        -(m * pow10(k))
                    } else {
                        m * pow10(k)
                    },
                    end,
                ),
            )
        }
    }
}

/// Exec twin of [`is_digit`].
fn digit_check(c: char) -> (r: bool)
    ensures
        r == is_digit(c),
{
    let u = c as u32;
    48 <= u && u <= 57
}

/// Ten to the `k` for the small exponents the scaling needs.
fn pow10_of(k: u64) -> (r: u64)
    requires
        k <= 12,
    ensures
        r as int == pow10(k as int),
{
    proof {
        lemma_pow10_small();
    }
    match k {
        0 => 1,
        1 => 10,
        2 => 100,
        3 => 1000,
        4 => 10000,
        5 => 100000,
        6 => 1000000,
        7 => 10000000,
        8 => 100000000,
        9 => 1000000000,
        10 => 10000000000,
        11 => 100000000000,
        _ => 1000000000000,
    }
}

/// Exec twin of [`sp_number`]: reads the number token at `i`.
#[verifier::rlimit(80)]
pub fn parse_number(s: &str, i: usize) -> (r: Result<(i64, usize), JErr>)
    requires
        i <= s@.len(),
    ensures
        match r {
            Ok((v, n)) => sp_number(s@, i as int) == Ok::<(int, int), JErr>((v as int, n as int))
                && i < n <= s@.len() && in_range(v as int),
            Err(e) => sp_number(s@, i as int) == Err::<(int, int), JErr>(e),
        },
{
    let n = s.unicode_len();
    let neg = i < n && s.get_char(i) == '-';
    let i1 = if neg {
        i + 1
    } else {
        i
    };
    if i1 > n {
        proof {
            assert(digits_end(s@, i1 as int) == i1);
        }
        return Err(JErr::Syntax);
    }
    // integer digits, accumulating the mantissa as it is scanned
    let mut pos = i1;
    let mut acc: u64 = 0;
    let mut big = false;
    proof {
        lemma_digits_end(s@, i1 as int);
    }
    while pos < n && digit_check(s.get_char(pos))
        invariant
            n == s@.len(),
            i1 <= pos <= n,
            forall|k: int| i1 <= k < pos ==> is_digit(#[trigger] s@[k]),
            digits_end(s@, i1 as int) == digits_end(s@, pos as int),
            !big ==> acc as int == dval(s@, i1 as int, pos as int) && acc <= NM_LIMIT as u64,
            big ==> dval(s@, i1 as int, pos as int) > NM_LIMIT as int,
        decreases n - pos,
    {
        let c = s.get_char(pos);
        let d = (c as u32 - 48) as u64;
        if !big {
            let na = acc * 10 + d;
            if na > 1000000000000u64 {
                big = true;
            } else {
                acc = na;
            }
        }
        pos += 1;
    }
    let j = pos;
    proof {
        assert(digits_end(s@, j as int) == j);
    }
    if j == i1 {
        return Err(JErr::Syntax);
    }
    if j > i1 + 1 && s.get_char(i1) == '0' {
        return Err(JErr::Syntax);
    }
    // fractional digits continue the same mantissa
    let hasfrac = j < n && s.get_char(j) == '.';
    let fs = if hasfrac {
        j + 1
    } else {
        j
    };
    let mut fe = fs;
    if hasfrac {
        pos = j + 1;
        proof {
            lemma_digits_end(s@, pos as int);
            assert(mant(s@, i1 as int, j as int, fs as int, fs as int) == dval(
                s@,
                i1 as int,
                j as int,
            ));
        }
        while pos < n && digit_check(s.get_char(pos))
            invariant
                n == s@.len(),
                i1 <= j,
                fs == j + 1,
                fs <= pos <= n,
                forall|k: int| fs <= k < pos ==> is_digit(#[trigger] s@[k]),
                digits_end(s@, fs as int) == digits_end(s@, pos as int),
                !big ==> acc as int == mant(s@, i1 as int, j as int, fs as int, pos as int)
                    && acc <= NM_LIMIT as u64,
                big ==> mant(s@, i1 as int, j as int, fs as int, pos as int) > NM_LIMIT as int,
            decreases n - pos,
        {
            let c = s.get_char(pos);
            let d = (c as u32 - 48) as u64;
            if !big {
                let na = acc * 10 + d;
                if na > 1000000000000u64 {
                    big = true;
                } else {
                    acc = na;
                }
            }
            pos += 1;
        }
        fe = pos;
        proof {
            assert(digits_end(s@, fe as int) == fe);
        }
        if fe == fs {
            return Err(JErr::Syntax);
        }
    } else {
        proof {
            assert(mant(s@, i1 as int, j as int, fs as int, fe as int) == dval(
                s@,
                i1 as int,
                j as int,
            ));
        }
    }
    let ghost m = mant(s@, i1 as int, j as int, fs as int, fe as int);
    // exponent, capped at three digits
    let mut ev: i64 = 0;
    let mut end = fe;
    let hasexp = fe < n && {
        let c = s.get_char(fe);
        c == 'e' || c == 'E'
    };
    if hasexp {
        let en = fe + 1 < n && s.get_char(fe + 1) == '-';
        let ep = fe + 1 < n && s.get_char(fe + 1) == '+';
        let ds = if en || ep {
            fe + 2
        } else {
            fe + 1
        };
        if ds > n {
            proof {
                assert(digits_end(s@, ds as int) == ds);
            }
            return Err(JErr::Syntax);
        }
        let mut p = ds;
        let mut ea: u64 = 0;
        proof {
            lemma_digits_end(s@, ds as int);
        }
        while p < n && p - ds < 4 && digit_check(s.get_char(p))
            invariant
                n == s@.len(),
                ds <= p <= n,
                p - ds <= 4,
                forall|k: int| ds <= k < p ==> is_digit(#[trigger] s@[k]),
                digits_end(s@, ds as int) == digits_end(s@, p as int),
                ea as int == dval(s@, ds as int, p as int),
                (ea as int) < pow10(p as int - ds as int),
            decreases n - p,
        {
            proof {
                lemma_pow10_small();
                assert(pow10(p + 1 - ds as int) == 10 * pow10(p as int - ds as int));
                lemma_pow10_mono(p as int - ds as int, 3);
            }
            let c = s.get_char(p);
            let d = (c as u32 - 48) as u64;
            ea = ea * 10 + d;
            p += 1;
        }
        if p < n && digit_check(s.get_char(p)) {
            // a longer digit run than the cap allows
            proof {
                assert(digits_end(s@, p as int) == digits_end(s@, p + 1));
                lemma_digits_end(s@, p + 1);
                assert(digits_end(s@, ds as int) - ds > 3);
            }
            return Err(JErr::Range);
        }
        proof {
            assert(digits_end(s@, p as int) == p);
        }
        let de = p;
        if de == ds {
            return Err(JErr::Syntax);
        }
        if de - ds > 3 {
            return Err(JErr::Range);
        }
        proof {
            lemma_pow10_small();
            lemma_pow10_mono(p as int - ds as int, 3);
        }
        ev = if en {
            -(ea as i64)
        } else {
            ea as i64
        };
        end = de;
    }
    // scale the mantissa into nanometres
    proof {
        lemma_pow10_pos(6 + ev - (fe - fs));
    }
    if !big && acc == 0 {
        return Ok((0, end));
    }
    if big {
        proof {
            let k = 6 + ev - (fe as int - fs as int);
            if k >= 0 {
                lemma_pow10_pos(k);
                assert(m * pow10(k) > NM_LIMIT as int) by (nonlinear_arith)
                    requires
                        m > NM_LIMIT as int,
                        pow10(k) >= 1,
                ;
            }
        }
        return Err(JErr::Range);
    }
    // 1 <= acc == m <= NM_LIMIT
    let flen = fe - fs;
    let kw: i128 = 6 + (ev as i128) - (flen as i128);
    if kw < 0 {
        return Err(JErr::Range);
    }
    if kw > 12 {
        proof {
            lemma_pow10_small();
            lemma_pow10_mono(13, kw as int);
            assert(m * pow10(kw as int) >= pow10(kw as int)) by (nonlinear_arith)
                requires
                    m >= 1,
                    pow10(kw as int) >= 1,
            ;
        }
        return Err(JErr::Range);
    }
    let k: u64 = kw as u64;
    let p10 = pow10_of(k);
    if acc > 1000000000000u64 / p10 {
        proof {
            assert(m * pow10(k as int) > NM_LIMIT as int) by (nonlinear_arith)
                requires
                    m == acc as int,
                    pow10(k as int) == p10 as int,
                    p10 >= 1,
                    acc as int > (NM_LIMIT as int) / (p10 as int),
                    NM_LIMIT as int == 1000000000000,
            ;
        }
        return Err(JErr::Range);
    }
    proof {
        assert(acc as int * (p10 as int) <= NM_LIMIT as int) by (nonlinear_arith)
            requires
                p10 >= 1,
                acc as int <= (NM_LIMIT as int) / (p10 as int),
                NM_LIMIT as int == 1000000000000,
        ;
    }
    let v = acc * p10;
    let sv: i64 = if neg {
        -(v as i64)
    } else {
        v as i64
    };
    Ok((sv, end))
}


/// The decoded form of a single-character backslash escape.
pub open spec fn esc_char(e: char) -> Option<char> {
    if e == '"' {
        Some('"')
    } else if e == '\\' {
        Some('\\')
    } else if e == '/' {
        Some('/')
    } else if e == 'b' {
        Some('\u{0008}')
    } else if e == 'f' {
        Some('\u{000C}')
    } else if e == 'n' {
        Some('\n')
    } else if e == 'r' {
        Some('\r')
    } else if e == 't' {
        Some('\t')
    } else {
        None
    }
}

/// A hexadecimal digit, either case.
pub open spec fn is_hex(c: char) -> bool {
    is_digit(c) || 97 <= c as u32 <= 102 || 65 <= c as u32 <= 70
}

/// The value of a hexadecimal digit.
pub open spec fn hex_val(c: char) -> int {
    if is_digit(c) {
        digit_val(c)
    } else if 97 <= c as u32 {
        c as u32 - 87
    } else {
        c as u32 - 55
    }
}

/// Four hexadecimal digits stand at `i`.
pub open spec fn hex4_ok(s: Seq<char>, i: int) -> bool {
    i + 4 <= s.len() && is_hex(s[i]) && is_hex(s[i + 1]) && is_hex(s[i + 2]) && is_hex(s[i + 3])
}

/// The value of the four hexadecimal digits at `i`.
pub open spec fn hex4_val(s: Seq<char>, i: int) -> int {
    4096 * hex_val(s[i]) + 256 * hex_val(s[i + 1]) + 16 * hex_val(s[i + 2]) + hex_val(s[i + 3])
}

/// The content and end of a string literal, read from just after the
/// opening quote.  Escapes are decoded; `\u` escapes naming surrogate
/// halves, and raw control characters, are refused.
pub open spec fn sp_str_rest(s: Seq<char>, i: int) -> Result<(Seq<char>, int), JErr>
    decreases s.len() - i,
{
    if !(0 <= i < s.len()) {
        Err(JErr::Syntax)
    } else if s[i] == '"' {
        Ok((Seq::empty(), i + 1))
    } else if s[i] == '\\' {
        if i + 1 >= s.len() {
            Err(JErr::Syntax)
        } else if s[i + 1] == 'u' {
            if hex4_ok(s, i + 2) {
                let code = hex4_val(s, i + 2);
                if 0xD800 <= code < 0xE000 {
                    Err(JErr::Syntax)
                } else {
                    match sp_str_rest(s, i + 6) {
                        Ok((t, j)) => Ok((seq![((code as u32) as char)] + t, j)),
                        Err(e) => Err(e),
                    }
                }
            } else {
                Err(JErr::Syntax)
            }
        } else {
            match esc_char(s[i + 1]) {
                Some(c) => match sp_str_rest(s, i + 2) {
                    Ok((t, j)) => Ok((seq![c] + t, j)),
                    Err(e) => Err(e),
                },
                None => Err(JErr::Syntax),
            }
        }
    } else if (s[i] as u32) < 32 {
        Err(JErr::Syntax)
    } else {
        match sp_str_rest(s, i + 1) {
            Ok((t, j)) => Ok((seq![s[i]] + t, j)),
            Err(e) => Err(e),
        }
    }
}

/// Relies on `char::from_u32`: the character with the given scalar
/// value, exactly for scalar values.
#[verifier::external_body]
fn char_from_u32(v: u32) -> (r: Option<char>)
    ensures
        r == if v < 0xD800 || (0xE000 <= v && v <= 0x10FFFF) {
            Some((v as char))
        } else {
            None::<char>
        },
{
    char::from_u32(v)
}

/// Exec twin of [`is_hex`].
fn hex_check(c: char) -> (r: bool)
    ensures
        r == is_hex(c),
{
    let u = c as u32;
    (48 <= u && u <= 57) || (97 <= u && u <= 102) || (65 <= u && u <= 70)
}

/// Exec twin of [`hex_val`].
fn hex_of(c: char) -> (r: u32)
    requires
        is_hex(c),
    ensures
        r as int == hex_val(c),
        r <= 15,
{
    let u = c as u32;
    if 48 <= u && u <= 57 {
        u - 48
    } else if 97 <= u {
        u - 87
    } else {
        u - 55
    }
}

/// Exec twin of [`sp_str_rest`].
pub fn parse_str_rest(s: &str, i: usize) -> (r: Result<(String, usize), JErr>)
    requires
        i <= s@.len(),
    ensures
        match r {
            Ok((t, j)) => sp_str_rest(s@, i as int) == Ok::<(Seq<char>, int), JErr>(
                (t@, j as int),
            ) && i < j <= s@.len(),
            Err(e) => sp_str_rest(s@, i as int) == Err::<(Seq<char>, int), JErr>(e),
        },
{
    let n = s.unicode_len();
    let mut out = String::new();
    let mut p = i;
    loop
        invariant
            n == s@.len(),
            i <= p <= n,
            (match sp_str_rest(s@, p as int) {
                Ok((t, j)) => sp_str_rest(s@, i as int) == Ok::<(Seq<char>, int), JErr>(
                    (out@ + t, j),
                ),
                Err(e) => sp_str_rest(s@, i as int) == Err::<(Seq<char>, int), JErr>(e),
            }),
        decreases n - p,
    {
        if p >= n {
            return Err(JErr::Syntax);
        }
        let ghost p0 = p as int;
        let c = s.get_char(p);
        if c == '"' {
            proof {
                assert(out@ + Seq::<char>::empty() =~= out@);
            }
            return Ok((out, p + 1));
        }
        if c == '\\' {
            if p + 1 >= n {
                return Err(JErr::Syntax);
            }
            let e = s.get_char(p + 1);
            if e == 'u' {
                if !(n - p >= 6 && hex_check(s.get_char(p + 2)) && hex_check(s.get_char(p + 3))
                    && hex_check(s.get_char(p + 4)) && hex_check(s.get_char(p + 5))) {
                    return Err(JErr::Syntax);
                }
                let code = 4096 * hex_of(s.get_char(p + 2)) + 256 * hex_of(s.get_char(p + 3)) + 16
                    * hex_of(s.get_char(p + 4)) + hex_of(s.get_char(p + 5));
                if 0xD800 <= code && code < 0xE000 {
                    return Err(JErr::Syntax);
                }
                let ch = match char_from_u32(code) {
                    Some(ch) => ch,
                    None => {
                        proof {
                            assert(false);
                        }
                        return Err(JErr::Syntax);
                    },
                };
                let ghost out0 = out@;
                push_char(&mut out, ch);
                p += 6;
                proof {
                    match sp_str_rest(s@, p as int) {
                        Ok((t, j)) => {
                            assert(sp_str_rest(s@, p0) == Ok::<(Seq<char>, int), JErr>(
                                (seq![ch] + t, j),
                            ));
                            assert(out@ + t =~= out0 + (seq![ch] + t));
                        },
                        Err(_) => {},
                    }
                }
            } else {
                let ch: char = if e == '"' {
                    '"'
                } else if e == '\\' {
                    '\\'
                } else if e == '/' {
                    '/'
                } else if e == 'b' {
                    '\u{0008}'
                } else if e == 'f' {
                    '\u{000C}'
                } else if e == 'n' {
                    '\n'
                } else if e == 'r' {
                    '\r'
                } else if e == 't' {
                    '\t'
                } else {
                    return Err(JErr::Syntax);
                };
                let ghost out0 = out@;
                push_char(&mut out, ch);
                p += 2;
                proof {
                    match sp_str_rest(s@, p as int) {
                        Ok((t, j)) => {
                            assert(out@ + t =~= out0 + (seq![ch] + t));
                        },
                        Err(_) => {},
                    }
                }
            }
        } else {
            let u = c as u32;
            if u < 32 {
                return Err(JErr::Syntax);
            }
            let ghost out0 = out@;
            push_char(&mut out, c);
            p += 1;
            proof {
                match sp_str_rest(s@, p as int) {
                    Ok((t, j)) => {
                        assert(out@ + t =~= out0 + (seq![c] + t));
                    },
                    Err(_) => {},
                }
            }
        }
    }
}

/// The value at `i` and the index just past it.  The spellings of the
/// non-finite numbers are recognized so that they can be refused as
/// out of range rather than as noise.
pub open spec fn sp_value(s: Seq<char>, i: int) -> Result<(JsonV, int), JErr>
    decreases s.len() - i, 0int,
{
    if !(0 <= i < s.len()) {
        Err(JErr::Syntax)
    } else {
        let c = s[i];
        if c == '{' {
            let j = sp_ws(s, i + 1);
            if !(i + 1 <= j <= s.len()) {
                Err(JErr::Syntax)
            } else if j < s.len() && s[j] == '}' {
                Ok((JsonV::Obj(Seq::empty()), j + 1))
            } else {
                match sp_members(s, j) {
                    Ok((fs, e)) => Ok((JsonV::Obj(fs), e)),
                    Err(er) => Err(er),
                }
            }
        } else if c == '[' {
            let j = sp_ws(s, i + 1);
            if !(i + 1 <= j <= s.len()) {
                Err(JErr::Syntax)
            } else if j < s.len() && s[j] == ']' {
                Ok((JsonV::Arr(Seq::empty()), j + 1))
            } else {
                match sp_elems(s, j) {
                    Ok((vs, e)) => Ok((JsonV::Arr(vs), e)),
                    Err(er) => Err(er),
                }
            }
        } else if c == '"' {
            match sp_str_rest(s, i + 1) {
                Ok((t, j)) => Ok((JsonV::Str(t), j)),
                Err(e) => Err(e),
            }
        } else if c == 't' {
            if i + 4 <= s.len() && s.subrange(i, i + 4) == "true"@ {
                Ok((JsonV::Bool(true), i + 4))
            } else {
                Err(JErr::Syntax)
            }
        } else if c == 'f' {
            if i + 5 <= s.len() && s.subrange(i, i + 5) == "false"@ {
                Ok((JsonV::Bool(false), i + 5))
            } else {
                Err(JErr::Syntax)
            }
        } else if c == 'n' {
            if i + 4 <= s.len() && s.subrange(i, i + 4) == "null"@ {
                Ok((JsonV::Null, i + 4))
            } else {
                Err(JErr::Syntax)
            }
        } else if c == 'N' {
            if i + 3 <= s.len() && s.subrange(i, i + 3) == "NaN"@ {
                Err(JErr::Range)
            } else {
                Err(JErr::Syntax)
            }
        } else if c == 'I' {
            if i + 8 <= s.len() && s.subrange(i, i + 8) == "Infinity"@ {
                Err(JErr::Range)
            } else {
                Err(JErr::Syntax)
            }
        } else if c == '-' && i + 1 < s.len() && s[i + 1] == 'I' {
            if i + 9 <= s.len() && s.subrange(i + 1, i + 9) == "Infinity"@ {
                Err(JErr::Range)
            } else {
                Err(JErr::Syntax)
            }
        } else if c == '-' || is_digit(c) {
            match sp_number(s, i) {
                Ok((v, j)) => Ok((JsonV::Num(v), j)),
                Err(e) => Err(e),
            }
        } else {
            Err(JErr::Syntax)
        }
    }
}

/// The members of an object, read from the first key, with the index
/// just past the closing brace.
pub open spec fn sp_members(s: Seq<char>, i: int) -> Result<(Seq<(Seq<char>, JsonV)>, int), JErr>
    decreases s.len() - i, 1int,
{
    if !(0 <= i < s.len() && s[i] == '"') {
        Err(JErr::Syntax)
    } else {
        match sp_str_rest(s, i + 1) {
            Err(e) => Err(e),
            Ok((k, j1)) => {
                if !(i + 2 <= j1 <= s.len()) {
                    Err(JErr::Syntax)
                } else {
                    let j2 = sp_ws(s, j1);
                    if !(j1 <= j2 <= s.len()) {
                        Err(JErr::Syntax)
                    } else if !(j2 < s.len() && s[j2] == ':') {
                        Err(JErr::Syntax)
                    } else {
                        let j3 = sp_ws(s, j2 + 1);
                        if !(j2 + 1 <= j3 <= s.len()) {
                            Err(JErr::Syntax)
                        } else {
                            match sp_value(s, j3) {
                                Err(e) => Err(e),
                                Ok((v, j4)) => {
                                    if !(j3 < j4 <= s.len()) {
                                        Err(JErr::Syntax)
                                    } else {
                                        let j5 = sp_ws(s, j4);
                                        if !(j4 <= j5 <= s.len()) {
                                            Err(JErr::Syntax)
                                        } else if j5 < s.len() && s[j5] == '}' {
                                            Ok((seq![(k, v)], j5 + 1))
                                        } else if j5 < s.len() && s[j5] == ',' {
                                            let j6 = sp_ws(s, j5 + 1);
                                            if !(j5 + 1 <= j6 <= s.len()) {
                                                Err(JErr::Syntax)
                                            } else {
                                                match sp_members(s, j6) {
                                                    Ok((rest, e)) => Ok((seq![(k, v)] + rest, e)),
                                                    Err(er) => Err(er),
                                                }
                                            }
                                        } else {
                                            Err(JErr::Syntax)
                                        }
                                    }
                                },
                            }
                        }
                    }
                }
            },
        }
    }
}

/// The items of an array, read from the first value, with the index
/// just past the closing bracket.
pub open spec fn sp_elems(s: Seq<char>, i: int) -> Result<(Seq<JsonV>, int), JErr>
    decreases s.len() - i, 1int,
{
    match sp_value(s, i) {
        Err(e) => Err(e),
        Ok((v, j)) => {
            if !(i < j <= s.len()) {
                Err(JErr::Syntax)
            } else {
                let j1 = sp_ws(s, j);
                if !(j <= j1 <= s.len()) {
                    Err(JErr::Syntax)
                } else if j1 < s.len() && s[j1] == ']' {
                    Ok((seq![v], j1 + 1))
                } else if j1 < s.len() && s[j1] == ',' {
                    let j2 = sp_ws(s, j1 + 1);
                    if !(j1 + 1 <= j2 <= s.len()) {
                        Err(JErr::Syntax)
                    } else {
                        match sp_elems(s, j2) {
                            Ok((rest, e)) => Ok((seq![v] + rest, e)),
                            Err(er) => Err(er),
                        }
                    }
                } else {
                    Err(JErr::Syntax)
                }
            }
        },
    }
}

/// The value a whole text denotes: one value wrapped in whitespace.
pub open spec fn sp_parse(s: Seq<char>) -> Result<JsonV, JErr> {
    let i = sp_ws(s, 0);
    if !(0 <= i <= s.len()) {
        Err(JErr::Syntax)
    } else {
        match sp_value(s, i) {
            Err(e) => Err(e),
            Ok((j, n)) => {
                if !(0 <= n <= s.len()) {
                    Err(JErr::Syntax)
                } else if sp_ws(s, n) == s.len() {
                    Ok(j)
                } else {
                    Err(JErr::Syntax)
                }
            },
        }
    }
}

/// Exec twin of [`sp_value`].
pub fn parse_value(s: &str, i: usize) -> (r: Result<(Json, usize), JErr>)
    requires
        i <= s@.len(),
    ensures
        match r {
            Ok((j, n)) => sp_value(s@, i as int) == Ok::<(JsonV, int), JErr>((j@, n as int)) && i
                < n <= s@.len(),
            Err(e) => sp_value(s@, i as int) == Err::<(JsonV, int), JErr>(e),
        },
    decreases s@.len() - i, 0int,
{
    let n = s.unicode_len();
    if i >= n {
        return Err(JErr::Syntax);
    }
    let c = s.get_char(i);
    if c == '{' {
        let j = ws_end(s, i + 1);
        if j < n && s.get_char(j) == '}' {
            let fs: Vec<(String, Json)> = Vec::new();
            proof {
                lemma_view_obj(fs);
                assert(fields_view(fs@) =~= Seq::<(Seq<char>, JsonV)>::empty());
            }
            return Ok((Json::Obj(fs), j + 1));
        }
        match parse_members(s, j) {
            Ok((fs, e)) => {
                proof {
                    lemma_view_obj(fs);
                }
                Ok((Json::Obj(fs), e))
            },
            Err(er) => Err(er),
        }
    } else if c == '[' {
        let j = ws_end(s, i + 1);
        if j < n && s.get_char(j) == ']' {
            let vs: Vec<Json> = Vec::new();
            proof {
                lemma_view_arr(vs);
                assert(arr_view(vs@) =~= Seq::<JsonV>::empty());
            }
            return Ok((Json::Arr(vs), j + 1));
        }
        match parse_elems(s, j) {
            Ok((vs, e)) => {
                proof {
                    lemma_view_arr(vs);
                }
                Ok((Json::Arr(vs), e))
            },
            Err(er) => Err(er),
        }
    } else if c == '"' {
        match parse_str_rest(s, i + 1) {
            Ok((t, j)) => Ok((Json::Str(t), j)),
            Err(e) => Err(e),
        }
    } else if c == 't' {
        proof {
            reveal_strlit("true");
        }
        if n - i >= 4 && crate::strutil::matches_at(s, i, "true") {
            Ok((Json::Bool(true), i + 4))
        } else {
            Err(JErr::Syntax)
        }
    } else if c == 'f' {
        proof {
            reveal_strlit("false");
        }
        if n - i >= 5 && crate::strutil::matches_at(s, i, "false") {
            Ok((Json::Bool(false), i + 5))
        } else {
            Err(JErr::Syntax)
        }
    } else if c == 'n' {
        proof {
            reveal_strlit("null");
        }
        if n - i >= 4 && crate::strutil::matches_at(s, i, "null") {
            Ok((Json::Null, i + 4))
        } else {
            Err(JErr::Syntax)
        }
    } else if c == 'N' {
        proof {
            reveal_strlit("NaN");
        }
        if n - i >= 3 && crate::strutil::matches_at(s, i, "NaN") {
            Err(JErr::Range)
        } else {
            Err(JErr::Syntax)
        }
    } else if c == 'I' {
        proof {
            reveal_strlit("Infinity");
        }
        if n - i >= 8 && crate::strutil::matches_at(s, i, "Infinity") {
            Err(JErr::Range)
        } else {
            Err(JErr::Syntax)
        }
    } else {
        let minus_inf = c == '-' && i + 1 < n && s.get_char(i + 1) == 'I';
        if minus_inf {
            proof {
                reveal_strlit("Infinity");
            }
            if n - (i + 1) >= 8 && crate::strutil::matches_at(s, i + 1, "Infinity") {
                Err(JErr::Range)
            } else {
                Err(JErr::Syntax)
            }
        } else if c == '-' || digit_check(c) {
            match parse_number(s, i) {
                Ok((v, j)) => Ok((Json::Num(v), j)),
                Err(e) => Err(e),
            }
        } else {
            Err(JErr::Syntax)
        }
    }
}

/// Exec twin of [`sp_members`].
pub fn parse_members(s: &str, i: usize) -> (r: Result<(Vec<(String, Json)>, usize), JErr>)
    requires
        i <= s@.len(),
    ensures
        match r {
            Ok((fs, e)) => sp_members(s@, i as int) == Ok::<(Seq<(Seq<char>, JsonV)>, int), JErr>(
                (fields_view(fs@), e as int),
            ) && i < e <= s@.len(),
            Err(er) => sp_members(s@, i as int) == Err::<(Seq<(Seq<char>, JsonV)>, int), JErr>(er),
        },
    decreases s@.len() - i, 1int,
{
    let n = s.unicode_len();
    if !(i < n && s.get_char(i) == '"') {
        return Err(JErr::Syntax);
    }
    let (k, j1) = match parse_str_rest(s, i + 1) {
        Ok(p) => p,
        Err(e) => {
            return Err(e);
        },
    };
    let j2 = ws_end(s, j1);
    if !(j2 < n && s.get_char(j2) == ':') {
        return Err(JErr::Syntax);
    }
    let j3 = ws_end(s, j2 + 1);
    let (v, j4) = match parse_value(s, j3) {
        Ok(p) => p,
        Err(e) => {
            return Err(e);
        },
    };
    let j5 = ws_end(s, j4);
    if j5 < n && s.get_char(j5) == '}' {
        let mut fs: Vec<(String, Json)> = Vec::new();
        let ghost kv = (k@, v@);
        fs.push((k, v));
        proof {
            assert(fields_view(fs@) =~= seq![kv]);
        }
        return Ok((fs, j5 + 1));
    }
    if j5 < n && s.get_char(j5) == ',' {
        let j6 = ws_end(s, j5 + 1);
        match parse_members(s, j6) {
            Ok((rest, e)) => {
                let ghost kv = (k@, v@);
                let ghost r0 = rest@;
                let mut rest = rest;
                rest.insert(0, (k, v));
                proof {
                    assert(fields_view(rest@) =~= seq![kv] + fields_view(r0));
                }
                Ok((rest, e))
            },
            Err(er) => Err(er),
        }
    } else {
        Err(JErr::Syntax)
    }
}

/// Exec twin of [`sp_elems`].
pub fn parse_elems(s: &str, i: usize) -> (r: Result<(Vec<Json>, usize), JErr>)
    requires
        i <= s@.len(),
    ensures
        match r {
            Ok((vs, e)) => sp_elems(s@, i as int) == Ok::<(Seq<JsonV>, int), JErr>(
                (arr_view(vs@), e as int),
            ) && i < e <= s@.len(),
            Err(er) => sp_elems(s@, i as int) == Err::<(Seq<JsonV>, int), JErr>(er),
        },
    decreases s@.len() - i, 1int,
{
    let n = s.unicode_len();
    let (v, j) = match parse_value(s, i) {
        Ok(p) => p,
        Err(e) => {
            return Err(e);
        },
    };
    let j1 = ws_end(s, j);
    if j1 < n && s.get_char(j1) == ']' {
        let mut vs: Vec<Json> = Vec::new();
        let ghost vv = v@;
        vs.push(v);
        proof {
            assert(arr_view(vs@) =~= seq![vv]);
        }
        return Ok((vs, j1 + 1));
    }
    if j1 < n && s.get_char(j1) == ',' {
        let j2 = ws_end(s, j1 + 1);
        match parse_elems(s, j2) {
            Ok((rest, e)) => {
                let ghost vv = v@;
                let ghost r0 = rest@;
                let mut rest = rest;
                rest.insert(0, v);
                proof {
                    assert(arr_view(rest@) =~= seq![vv] + arr_view(r0));
                }
                Ok((rest, e))
            },
            Err(er) => Err(er),
        }
    } else {
        Err(JErr::Syntax)
    }
}

/// Exec twin of [`sp_parse`]: reads a whole wire text.
pub fn parse_json(s: &str) -> (r: Result<Json, JErr>)
    ensures
        match r {
            Ok(j) => sp_parse(s@) == Ok::<JsonV, JErr>(j@),
            Err(e) => sp_parse(s@) == Err::<JsonV, JErr>(e),
        },
{
    let i = ws_end(s, 0);
    match parse_value(s, i) {
        Ok((j, p)) => {
            let e = ws_end(s, p);
            if e == s.unicode_len() {
                Ok(j)
            } else {
                Err(JErr::Syntax)
            }
        },
        Err(e) => Err(e),
    }
}


/// The canonical spelling of one character inside a string literal.
pub open spec fn esc_text(c: char) -> Seq<char> {
    if c == '"' {
        seq!['\\', '"']
    } else if c == '\\' {
        seq!['\\', '\\']
    } else if c == '\n' {
        seq!['\\', 'n']
    } else if c == '\r' {
        seq!['\\', 'r']
    } else if c == '\t' {
        seq!['\\', 't']
    } else if (c as u32) < 32 {
        seq![
            '\\',
            'u',
            '0',
            '0',
            crate::geom::hex_digit_char((c as u32) as int / 16),
            crate::geom::hex_digit_char((c as u32) as int % 16),
        ]
    } else {
        seq![c]
    }
}

/// The canonical spelling of a whole string content.
pub open spec fn escaped_text(t: Seq<char>) -> Seq<char>
    decreases t.len(),
{
    if t.len() == 0 {
        Seq::empty()
    } else {
        escaped_text(t.drop_last()) + esc_text(t.last())
    }
}

/// The canonical text of a wire value: no spacing, strings escaped,
/// numbers in the exact millimetre form of [`crate::geom::nm_text`].
pub open spec fn json_text(j: JsonV) -> Seq<char>
    decreases j,
{
    match j {
        JsonV::Null => "null"@,
        JsonV::Bool(b) => if b {
            "true"@
        } else {
            "false"@
        },
        JsonV::Num(v) => crate::geom::nm_text(v),
        JsonV::Str(t) => seq!['"'] + escaped_text(t) + seq!['"'],
        JsonV::Arr(items) => seq!['['] + items_text(items) + seq![']'],
        JsonV::Obj(fields) => seq!['{'] + obj_text(fields) + seq!['}'],
    }
}

/// The canonical text of an array's items, comma separated.
pub open spec fn items_text(items: Seq<JsonV>) -> Seq<char>
    decreases items,
{
    if items.len() == 0 {
        Seq::empty()
    } else if items.len() == 1 {
        json_text(items[0])
    } else {
        items_text(items.drop_last()) + seq![','] + json_text(items.last())
    }
}

/// The canonical text of one object field.
pub open spec fn field_text(f: (Seq<char>, JsonV)) -> Seq<char>
    decreases f,
{
    seq!['"'] + escaped_text(f.0) + seq!['"', ':'] + json_text(f.1)
}

/// The canonical text of an object's fields, comma separated.
pub open spec fn obj_text(fields: Seq<(Seq<char>, JsonV)>) -> Seq<char>
    decreases fields,
{
    if fields.len() == 0 {
        Seq::empty()
    } else if fields.len() == 1 {
        field_text(fields[0])
    } else {
        obj_text(fields.drop_last()) + seq![','] + field_text(fields.last())
    }
}

/// Appends the escaped form of the text.
fn push_escaped(out: &mut String, t: &str)
    ensures
        final(out)@ == old(out)@ + escaped_text(t@),
{
    let n = t.unicode_len();
    let mut i: usize = 0;
    proof {
        assert(t@.take(0) =~= Seq::<char>::empty());
        assert(old(out)@ + escaped_text(t@.take(0)) =~= old(out)@);
    }
    while i < n
        invariant
            n == t@.len(),
            i <= n,
            out@ == old(out)@ + escaped_text(t@.take(i as int)),
        decreases n - i,
    {
        let c = t.get_char(i);
        let ghost out0 = out@;
        if c == '"' {
            push_char(out, '\\');
            push_char(out, '"');
        } else if c == '\\' {
            push_char(out, '\\');
            push_char(out, '\\');
        } else if c == '\n' {
            push_char(out, '\\');
            push_char(out, 'n');
        } else if c == '\r' {
            push_char(out, '\\');
            push_char(out, 'r');
        } else if c == '\t' {
            push_char(out, '\\');
            push_char(out, 't');
        } else {
            let u = c as u32;
            if u < 32 {
                push_char(out, '\\');
                push_char(out, 'u');
                push_char(out, '0');
                push_char(out, '0');
                push_char(out, crate::geom::hex_digit_of((u / 16) as u64));
                push_char(out, crate::geom::hex_digit_of((u % 16) as u64));
            } else {
                push_char(out, c);
            }
        }
        proof {
            assert(out@ =~= out0 + esc_text(t@[i as int]));
        }
        i += 1;
        proof {
            assert(t@.take(i as int).drop_last() =~= t@.take(i - 1));
            assert(t@.take(i as int).last() == t@[i - 1]);
            assert(out@ =~= old(out)@ + escaped_text(t@.take(i as int)));
        }
    }
    proof {
        assert(t@.take(n as int) =~= t@);
    }
}

/// Appends the canonical text of a wire value.
pub fn push_json_text(out: &mut String, j: &Json)
    ensures
        final(out)@ == old(out)@ + json_text(j@),
    decreases j@,
{
    broadcast use vstd::std_specs::vec::axiom_vec_index_decreases;

    match j {
        Json::Null => {
            out.append("null");
        },
        Json::Bool(b) => {
            if *b {
                out.append("true");
            } else {
                out.append("false");
            }
        },
        Json::Num(v) => {
            crate::geom::push_nm_text(out, *v);
        },
        Json::Str(t) => {
            let ghost out0 = out@;
            push_char(out, '"');
            push_escaped(out, t.as_str());
            push_char(out, '"');
            proof {
                assert(out@ =~= out0 + json_text(j@));
            }
        },
        Json::Arr(items) => {
            let ghost out0 = out@;
            let ghost vs = arr_view(items@);
            proof {
                lemma_view_arr(*items);
            }
            push_char(out, '[');
            let mut ii: usize = 0;
            proof {
                assert(vs.take(0) =~= Seq::<JsonV>::empty());
                assert(out@ =~= out0 + seq!['['] + items_text(vs.take(0)));
            }
            while ii < items.len()
                invariant
                    j@ == JsonV::Arr(vs),
                    vs == arr_view(items@),
                    ii <= items@.len(),
                    out@ == out0 + seq!['['] + items_text(vs.take(ii as int)),
                decreases items@.len() - ii,
            {
                if ii > 0 {
                    push_char(out, ',');
                }
                let ghost mid = out@;
                proof {
                    assert(decreases_to!(j@ => j@->Arr_0));
                    assert(j@->Arr_0 == vs);
                    assert(decreases_to!(vs => vs[ii as int]));
                    assert(vs[ii as int] == items[ii as int]@);
                    assert(decreases_to!(j@ => items[ii as int]@));
                }
                push_json_text(out, &items[ii]);
                ii += 1;
                proof {
                    assert(vs.take(ii as int).drop_last() =~= vs.take(ii - 1));
                    assert(vs.take(ii as int).last() == vs[ii - 1]);
                    assert(vs[ii - 1] == items@[ii - 1]@);
                    if ii == 1 {
                        assert(items_text(vs.take(1)) == json_text(vs[0]));
                        assert(out@ =~= out0 + seq!['['] + items_text(vs.take(ii as int)));
                    } else {
                        assert(items_text(vs.take(ii as int)) == items_text(vs.take(ii - 1))
                            + seq![','] + json_text(vs[ii - 1]));
                        assert(out@ =~= out0 + seq!['['] + items_text(vs.take(ii as int)));
                    }
                }
            }
            push_char(out, ']');
            proof {
                assert(vs.take(items@.len() as int) =~= vs);
                assert(out@ =~= out0 + json_text(j@));
            }
        },
        Json::Obj(fields) => {
            let ghost out0 = out@;
            let ghost fs = fields_view(fields@);
            proof {
                lemma_view_obj(*fields);
            }
            push_char(out, '{');
            let mut ii: usize = 0;
            proof {
                assert(fs.take(0) =~= Seq::<(Seq<char>, JsonV)>::empty());
                assert(out@ =~= out0 + seq!['{'] + obj_text(fs.take(0)));
            }
            while ii < fields.len()
                invariant
                    j@ == JsonV::Obj(fs),
                    fs == fields_view(fields@),
                    ii <= fields@.len(),
                    out@ == out0 + seq!['{'] + obj_text(fs.take(ii as int)),
                decreases fields@.len() - ii,
            {
                if ii > 0 {
                    push_char(out, ',');
                }
                let ghost mid = out@;
                push_char(out, '"');
                push_escaped(out, fields[ii].0.as_str());
                push_char(out, '"');
                push_char(out, ':');
                proof {
                    assert(decreases_to!(j@ => j@->Obj_0));
                    assert(j@->Obj_0 == fs);
                    assert(decreases_to!(fs => fs[ii as int]));
                    assert(decreases_to!(fs[ii as int] => fs[ii as int].1));
                    assert(fs[ii as int].1 == fields[ii as int].1@);
                    assert(decreases_to!(j@ => fields[ii as int].1@));
                }
                push_json_text(out, &fields[ii].1);
                ii += 1;
                proof {
                    assert(out@ =~= mid + field_text(fs[ii - 1]));
                    assert(fs.take(ii as int).drop_last() =~= fs.take(ii - 1));
                    assert(fs.take(ii as int).last() == fs[ii - 1]);
                    if ii == 1 {
                        assert(obj_text(fs.take(1)) == field_text(fs[0]));
                        assert(out@ =~= out0 + seq!['{'] + obj_text(fs.take(ii as int)));
                    } else {
                        assert(obj_text(fs.take(ii as int)) == obj_text(fs.take(ii - 1)) + seq![
                            ',',
                        ] + field_text(fs[ii - 1]));
                        assert(out@ =~= out0 + seq!['{'] + obj_text(fs.take(ii as int)));
                    }
                }
            }
            push_char(out, '}');
            proof {
                assert(fs.take(fields@.len() as int) =~= fs);
                assert(out@ =~= out0 + json_text(j@));
            }
        },
    }
}

/// The canonical text of a wire value as a fresh string.
pub fn json_to_string(j: &Json) -> (r: String)
    ensures
        r@ == json_text(j@),
{
    let mut out = String::new();
    push_json_text(&mut out, j);
    proof {
        assert(Seq::<char>::empty() + json_text(j@) =~= json_text(j@));
    }
    out
}

} // verus!
