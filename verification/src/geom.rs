//! Coordinates, bounds and exact decimal text.
//!
//! Geometry is measured in nanometres: one millionth of a millimetre,
//! held in a signed 64-bit integer.  Every coordinate accepted by the
//! decoder lies within [`NM_LIMIT`] of the origin, which keeps all the
//! derived arithmetic comfortably inside the machine range.

use vstd::prelude::*;
use crate::strutil::push_char;

verus! {

/// One millimetre in nanometres.
pub const NM_PER_MM: i64 = 1000000;

/// The largest magnitude a coordinate or extent may have: one kilometre.
pub const NM_LIMIT: i64 = 1000000000000;

/// True of a value that may serve as a coordinate.
pub open spec fn in_range(v: int) -> bool {
    -NM_LIMIT <= v <= NM_LIMIT
}

/// An axis-aligned bounding rectangle, minimum corner to maximum corner.
#[derive(Clone, Copy, Debug, PartialEq, Eq, Structural)]
pub struct Bound {
    pub min_x: i64,
    pub min_y: i64,
    pub max_x: i64,
    pub max_y: i64,
}

/// The mathematical image of a [`Bound`].
pub struct BoundV {
    pub min_x: int,
    pub min_y: int,
    pub max_x: int,
    pub max_y: int,
}

impl View for Bound {
    type V = BoundV;

    open spec fn view(&self) -> BoundV {
        BoundV {
            min_x: self.min_x as int,
            min_y: self.min_y as int,
            max_x: self.max_x as int,
            max_y: self.max_y as int,
        }
    }
}

/// The degenerate bound at the origin.
pub open spec fn origin_bound() -> BoundV {
    BoundV { min_x: 0, min_y: 0, max_x: 0, max_y: 0 }
}

/// The smallest bound containing both arguments.
pub open spec fn combine_bounds(a: BoundV, b: BoundV) -> BoundV {
    BoundV {
        min_x: vstd::math::min(a.min_x, b.min_x),
        min_y: vstd::math::min(a.min_y, b.min_y),
        max_x: vstd::math::max(a.max_x, b.max_x),
        max_y: vstd::math::max(a.max_y, b.max_y),
    }
}

/// `outer` contains every point of `inner`.
pub open spec fn bound_contains(outer: BoundV, inner: BoundV) -> bool {
    outer.min_x <= inner.min_x && outer.min_y <= inner.min_y && inner.max_x <= outer.max_x
        && inner.max_y <= outer.max_y
}

/// A well-formed bound has its minimum corner at or before its maximum,
/// and lies within the workable coordinate range.
pub open spec fn bound_wf(b: BoundV) -> bool {
    &&& b.min_x <= b.max_x
    &&& b.min_y <= b.max_y
    &&& -3 * (NM_LIMIT as int) <= b.min_x
    &&& -3 * (NM_LIMIT as int) <= b.min_y
    &&& b.max_x <= 3 * (NM_LIMIT as int)
    &&& b.max_y <= 3 * (NM_LIMIT as int)
}

impl Bound {
    /// The smallest bound containing both `self` and `b`.
    pub fn combine(&self, b: &Bound) -> (r: Bound)
        ensures
            r@ == combine_bounds(self@, b@),
    {
        Bound {
            min_x: if self.min_x <= b.min_x {
                self.min_x
            } else {
                b.min_x
            },
            min_y: if self.min_y <= b.min_y {
                self.min_y
            } else {
                b.min_y
            },
            max_x: if self.max_x >= b.max_x {
                self.max_x
            } else {
                b.max_x
            },
            max_y: if self.max_y >= b.max_y {
                self.max_y
            } else {
                b.max_y
            },
        }
    }
}

impl Default for Bound {
    /// The origin-zero bound.
    fn default() -> (r: Self)
        ensures
            r@ == origin_bound(),
    {
        Bound { min_x: 0, min_y: 0, max_x: 0, max_y: 0 }
    }
}

/// The decimal digit character for a value in 0..=9.
pub open spec fn digit_char(d: int) -> char {
    if d == 0 {
        '0'
    } else if d == 1 {
        '1'
    } else if d == 2 {
        '2'
    } else if d == 3 {
        '3'
    } else if d == 4 {
        '4'
    } else if d == 5 {
        '5'
    } else if d == 6 {
        '6'
    } else if d == 7 {
        '7'
    } else if d == 8 {
        '8'
    } else {
        '9'
    }
}

/// The decimal digits of a non-negative number, most significant first.
pub open spec fn nat_text(n: int) -> Seq<char>
    decreases n,
{
    if n < 10 {
        seq![digit_char(n)]
    } else {
        nat_text(n / 10).push(digit_char(n % 10))
    }
}

/// The fractional digits of `f` written to `width` places with the
/// trailing zeros trimmed; `f` is positive and below ten to the `width`.
pub open spec fn frac_text(f: int, width: int) -> Seq<char>
    decreases width,
{
    if width <= 1 {
        seq![digit_char(f % 10)]
    } else if f % 10 == 0 {
        frac_text(f / 10, width - 1)
    } else {
        pad_text(f, width)
    }
}

/// The decimal digits of `f` zero-padded on the left to `width` places.
pub open spec fn pad_text(f: int, width: int) -> Seq<char>
    decreases width,
{
    if width <= 1 {
        seq![digit_char(f % 10)]
    } else {
        pad_text(f / 10, width - 1).push(digit_char(f % 10))
    }
}

/// The canonical millimetre text of a nanometre value: integral part,
/// and a fractional part only when it is non-zero, trailing zeros
/// trimmed.  This is the number format of the exported file.
pub open spec fn nm_text(v: int) -> Seq<char> {
    let a = vstd::math::abs(v) as int;
    let whole = a / (NM_PER_MM as int);
    let frac = a % (NM_PER_MM as int);
    let digits = if frac == 0 {
        nat_text(whole)
    } else {
        nat_text(whole) + seq!['.'] + frac_text(frac, 6)
    };
    if v < 0 {
        seq!['-'] + digits
    } else {
        digits
    }
}

/// The uppercase hexadecimal digit character for a value in 0..=15.
pub open spec fn hex_digit_char(d: int) -> char {
    if d < 10 {
        digit_char(d)
    } else if d == 10 {
        'A'
    } else if d == 11 {
        'B'
    } else if d == 12 {
        'C'
    } else if d == 13 {
        'D'
    } else if d == 14 {
        'E'
    } else {
        'F'
    }
}

/// The uppercase hexadecimal digits of a non-negative number.
pub open spec fn hex_text(n: int) -> Seq<char>
    decreases n,
{
    if n < 16 {
        seq![hex_digit_char(n)]
    } else {
        hex_text(n / 16).push(hex_digit_char(n % 16))
    }
}

/// Exec twin of [`digit_char`].
fn digit_of(d: u64) -> (r: char)
    requires
        d <= 9,
    ensures
        r == digit_char(d as int),
{
    match d {
        0 => '0',
        1 => '1',
        2 => '2',
        3 => '3',
        4 => '4',
        5 => '5',
        6 => '6',
        7 => '7',
        8 => '8',
        _ => '9',
    }
}

/// Exec twin of [`hex_digit_char`].
pub(crate) fn hex_digit_of(d: u64) -> (r: char)
    requires
        d <= 15,
    ensures
        r == hex_digit_char(d as int),
{
    match d {
        0 => '0',
        1 => '1',
        2 => '2',
        3 => '3',
        4 => '4',
        5 => '5',
        6 => '6',
        7 => '7',
        8 => '8',
        9 => '9',
        10 => 'A',
        11 => 'B',
        12 => 'C',
        13 => 'D',
        14 => 'E',
        _ => 'F',
    }
}

/// Appends the decimal digits of `n`.
pub fn push_nat_text(out: &mut String, n: u64)
    ensures
        final(out)@ == old(out)@ + nat_text(n as int),
    decreases n,
{
    if n < 10 {
        push_char(out, digit_of(n));
        proof {
            assert(old(out)@ + nat_text(n as int) =~= old(out)@.push(digit_char(n as int)));
        }
    } else {
        push_nat_text(out, n / 10);
        push_char(out, digit_of(n % 10));
        proof {
            assert(old(out)@ + nat_text(n as int) =~= (old(out)@ + nat_text(n as int / 10)).push(
                digit_char(n as int % 10),
            ));
        }
    }
}

/// Appends the uppercase hexadecimal digits of `n`.
pub fn push_hex_text(out: &mut String, n: u64)
    ensures
        final(out)@ == old(out)@ + hex_text(n as int),
    decreases n,
{
    if n < 16 {
        push_char(out, hex_digit_of(n));
        proof {
            assert(old(out)@ + hex_text(n as int) =~= old(out)@.push(hex_digit_char(n as int)));
        }
    } else {
        push_hex_text(out, n / 16);
        push_char(out, hex_digit_of(n % 16));
        proof {
            assert(old(out)@ + hex_text(n as int) =~= (old(out)@ + hex_text(n as int / 16)).push(
                hex_digit_char(n as int % 16),
            ));
        }
    }
}

/// Appends the fractional digits, mirroring [`frac_text`].
fn push_frac_text(out: &mut String, f: u64, width: u64)
    requires
        1 <= width <= 6,
    ensures
        final(out)@ == old(out)@ + frac_text(f as int, width as int),
    decreases width,
{
    if width <= 1 {
        push_char(out, digit_of(f % 10));
        proof {
            assert(old(out)@ + frac_text(f as int, width as int) =~= old(out)@.push(
                digit_char(f as int % 10),
            ));
        }
    } else if f % 10 == 0 {
        push_frac_text(out, f / 10, width - 1);
    } else {
        push_pad_text(out, f, width);
    }
}

/// Appends zero-padded digits, mirroring [`pad_text`].
fn push_pad_text(out: &mut String, f: u64, width: u64)
    requires
        1 <= width <= 6,
    ensures
        final(out)@ == old(out)@ + pad_text(f as int, width as int),
    decreases width,
{
    if width <= 1 {
        push_char(out, digit_of(f % 10));
        proof {
            assert(old(out)@ + pad_text(f as int, width as int) =~= old(out)@.push(
                digit_char(f as int % 10),
            ));
        }
    } else {
        push_pad_text(out, f / 10, width - 1);
        push_char(out, digit_of(f % 10));
        proof {
            assert(old(out)@ + pad_text(f as int, width as int) =~= (old(out)@ + pad_text(
                f as int / 10,
                width as int - 1,
            )).push(digit_char(f as int % 10)));
        }
    }
}

/// Appends the canonical millimetre text of a nanometre value.
pub fn push_nm_text(out: &mut String, v: i64)
    ensures
        final(out)@ == old(out)@ + nm_text(v as int),
{
    let ghost start = out@;
    let a: u64 = if v < 0 {
        push_char(out, '-');
        if v == i64::MIN {
            9223372036854775808u64
        } else {
            (-v) as u64
        }
    } else {
        v as u64
    };
    proof {
        assert(a as int == vstd::math::abs(v as int));
    }
    let whole = a / 1000000;
    let frac = a % 1000000;
    let ghost mid = out@;
    push_nat_text(out, whole);
    if frac != 0 {
        push_char(out, '.');
        push_frac_text(out, frac, 6);
        proof {
            assert(out@ =~= mid + (nat_text(whole as int) + seq!['.'] + frac_text(
                frac as int,
                6,
            )));
        }
    }
    proof {
        if v < 0 {
            assert(mid =~= start + seq!['-']);
            assert(out@ =~= start + nm_text(v as int));
        } else {
            assert(out@ =~= start + nm_text(v as int));
        }
    }
}

/// The canonical millimetre text of a nanometre value as a fresh string.
pub fn nm_to_string(v: i64) -> (r: String)
    ensures
        r@ == nm_text(v as int),
{
    let mut out = String::new();
    push_nm_text(&mut out, v);
    proof {
        assert(Seq::<char>::empty() + nm_text(v as int) =~= nm_text(v as int));
    }
    out
}

} // verus!
