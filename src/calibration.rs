//! The touch calibration matrix, its text form, and the integer affine
//! transform from raw touch-sensor units to display pixels.
use vstd::prelude::*;

verus! {

/// A point: raw sensor units before calibration, display pixels after.
#[derive(Debug, Clone, Copy, PartialEq, Eq, Structural)]
pub struct Coord {
    pub x: i32,
    pub y: i32,
}

/// The seven calibration coefficients, in the order of the calibration file.
#[derive(Debug, Clone, Copy, PartialEq, Eq, Structural)]
pub struct CalibrationMatrix {
    pub xscale: i32,
    pub xymix: i32,
    pub xoffset: i32,
    pub yxmix: i32,
    pub yscale: i32,
    pub yoffset: i32,
    pub scaler: i32,
}

/// Integer division truncating toward zero, as Rust's `/` does.
pub open spec fn trunc_div(a: int, b: int) -> int {
    if a >= 0 && b > 0 {
        a / b
    } else if a < 0 && b < 0 {
        (-a) / (-b)
    } else if a < 0 {
        -((-a) / b)
    } else {
        -(a / (-b))
    }
}

/// One calibrated coordinate: each coefficient is divided by the scaler on
/// its own, truncating, before it multiplies a raw coordinate.
pub open spec fn affine(scale: int, mix: int, offset: int, scaler: int, primary: int, other: int) -> int {
    primary * trunc_div(scale, scaler) + other * trunc_div(mix, scaler) + trunc_div(offset, scaler)
}

/// Whether an integer is representable as an `i32`.
pub open spec fn fits_i32(v: int) -> bool {
    i32::MIN <= v <= i32::MAX
}

impl CalibrationMatrix {
    /// The coefficients in file order.
    pub open spec fn values(self) -> Seq<i32> {
        seq![self.xscale, self.xymix, self.xoffset, self.yxmix, self.yscale, self.yoffset, self.scaler]
    }

    /// A usable matrix has a nonzero scaler.
    pub open spec fn wf(self) -> bool {
        self.scaler != 0
    }

    /// The calibrated x coordinate of a raw point.
    pub open spec fn x_of(self, raw: Coord) -> int {
        affine(self.xscale as int, self.xymix as int, self.xoffset as int, self.scaler as int,
            raw.x as int, raw.y as int)
    }

    /// The calibrated y coordinate of a raw point.
    pub open spec fn y_of(self, raw: Coord) -> int {
        affine(self.yscale as int, self.yxmix as int, self.yoffset as int, self.scaler as int,
            raw.y as int, raw.x as int)
    }

    /// The matrix whose coefficients, in file order, are `v`; `None` unless
    /// `v` holds exactly seven values with a nonzero scaler.
    pub fn from_values(v: &Vec<i32>) -> (m: Option<CalibrationMatrix>)
        ensures
            m is Some <==> v@.len() == 7 && v@[6] != 0,
            m is Some ==> m->Some_0.values() == v@ && m->Some_0.wf(),
    {
        if v.len() != 7 || v[6] == 0 {
            return None;
        }
        let m = CalibrationMatrix {
            xscale: v[0],
            xymix: v[1],
            xoffset: v[2],
            yxmix: v[3],
            yscale: v[4],
            yoffset: v[5],
            scaler: v[6],
        };
        assert(m.values() =~= v@);
        Some(m)
    }

    /// The coefficients in file order.
    pub fn values_vec(&self) -> (v: Vec<i32>)
        ensures
            v@ == self.values(),
    {
        let v: Vec<i32> = vec![self.xscale, self.xymix, self.xoffset, self.yxmix, self.yscale,
            self.yoffset, self.scaler];
        assert(v@ =~= self.values());
        v
    }

    /// The calibrated point of `raw`, or `None` when a calibrated coordinate
    /// does not fit in an `i32`.
    pub fn apply(&self, raw: &Coord) -> (p: Option<Coord>)
        requires
            self.wf(),
        ensures
            p is Some <==> fits_i32(self.x_of(*raw)) && fits_i32(self.y_of(*raw)),
            p is Some ==> p->Some_0.x == self.x_of(*raw) && p->Some_0.y == self.y_of(*raw),
    {
        let x = affine_exec(self.xscale, self.xymix, self.xoffset, self.scaler, raw.x, raw.y);
        let y = affine_exec(self.yscale, self.yxmix, self.yoffset, self.scaler, raw.y, raw.x);
        if x < i32::MIN as i128 || x > i32::MAX as i128 || y < i32::MIN as i128 || y
            > i32::MAX as i128 {
            return None;
        }
        Some(Coord { x: x as i32, y: y as i32 })
    }
}

/// The coefficient `c / scaler`, truncated toward zero.
fn scaled_coefficient(c: i32, scaler: i32) -> (q: i128)
    requires
        scaler != 0,
    ensures
        q == trunc_div(c as int, scaler as int),
        -0x8000_0000 <= q <= 0x8000_0000,
{
    let q = (c as i128).checked_div(scaler as i128);
    proof {
        let (a, b) = (c as int, scaler as int);
        if a < 0 && b > 0 {
            assert((-a) / b <= -a) by (nonlinear_arith) requires -a > 0, b > 0;
        } else if a >= 0 && b < 0 {
            assert(a / (-b) <= a) by (nonlinear_arith) requires a >= 0, -b > 0;
        } else if a < 0 && b < 0 {
            assert((-a) / (-b) <= -a) by (nonlinear_arith) requires -a > 0, -b > 0;
        } else {
            assert(a / b <= a) by (nonlinear_arith) requires a >= 0, b > 0;
        }
    }
    q.unwrap()
}

/// `affine` on machine integers, in a type wide enough for every input.
fn affine_exec(scale: i32, mix: i32, offset: i32, scaler: i32, primary: i32, other: i32) -> (r: i128)
    requires
        scaler != 0,
    ensures
        r == affine(scale as int, mix as int, offset as int, scaler as int, primary as int, other as int),
{
    let a = scaled_coefficient(scale, scaler);
    let b = scaled_coefficient(mix, scaler);
    let c = scaled_coefficient(offset, scaler);
    let p = primary as i128;
    let o = other as i128;
    assert(-0x4000_0000_0000_0000 <= p * a <= 0x4000_0000_0000_0000) by (nonlinear_arith)
        requires -0x8000_0000 <= p <= 0x8000_0000, -0x8000_0000 <= a <= 0x8000_0000;
    assert(-0x4000_0000_0000_0000 <= o * b <= 0x4000_0000_0000_0000) by (nonlinear_arith)
        requires -0x8000_0000 <= o <= 0x8000_0000, -0x8000_0000 <= b <= 0x8000_0000;
    p * a + o * b + c
}

/// Applies the calibration coefficients `calibration_data` (in file order)
/// to `incoord`, writing the calibrated point to `out`.
pub fn convert_touch_coords(calibration_data: &Vec<i32>, incoord: &Coord, out: &mut Coord)
    requires
        calibration_data@.len() == 7,
        calibration_data@[6] != 0,
        fits_i32(affine(calibration_data@[0] as int, calibration_data@[1] as int,
            calibration_data@[2] as int, calibration_data@[6] as int, incoord.x as int,
            incoord.y as int)),
        fits_i32(affine(calibration_data@[4] as int, calibration_data@[3] as int,
            calibration_data@[5] as int, calibration_data@[6] as int, incoord.y as int,
            incoord.x as int)),
    ensures
        final(out).x == affine(calibration_data@[0] as int, calibration_data@[1] as int,
            calibration_data@[2] as int, calibration_data@[6] as int, incoord.x as int,
            incoord.y as int),
        final(out).y == affine(calibration_data@[4] as int, calibration_data@[3] as int,
            calibration_data@[5] as int, calibration_data@[6] as int, incoord.y as int,
            incoord.x as int),
{
    let scaler = calibration_data[6];
    let x = affine_exec(calibration_data[0], calibration_data[1], calibration_data[2], scaler,
        incoord.x, incoord.y);
    let y = affine_exec(calibration_data[4], calibration_data[3], calibration_data[5], scaler,
        incoord.y, incoord.x);
    out.x = x as i32;
    out.y = y as i32;
}

/// Why a calibration text was refused.
#[derive(Debug, Clone, Copy, PartialEq, Eq, Structural)]
pub enum CalibrationError {
    /// A field is not a decimal integer that fits in an `i32`.
    InvalidNumber,
    /// The text does not hold exactly seven fields; `count` is how many it holds.
    WrongCount { count: usize },
    /// The scaler, the seventh field, is zero.
    ZeroScaler,
}

/// The largest value the digit accumulator keeps; anything above it fits in
/// no `i32`, whatever the sign.
const DIGITS_CAP: u64 = 0x8000_0001;

/// Field separators: ASCII space, tab, line feed, vertical tab, form feed
/// and carriage return.
pub open spec fn is_space(b: u8) -> bool {
    b == 0x20 || b == 0x09 || b == 0x0a || b == 0x0b || b == 0x0c || b == 0x0d
}

/// An ASCII decimal digit.
pub open spec fn is_digit(b: u8) -> bool {
    0x30 <= b <= 0x39
}

/// Every byte is an ASCII decimal digit.
pub open spec fn all_digits(d: Seq<u8>) -> bool {
    forall|i: int| 0 <= i < d.len() ==> is_digit(#[trigger] d[i])
}

/// The value of a sequence of decimal digits, most significant first.
pub open spec fn digits_value(d: Seq<u8>) -> int
    decreases d.len(),
{
    if d.len() == 0 {
        0
    } else {
        10 * digits_value(d.drop_last()) + (d.last() - 0x30)
    }
}

/// The integer a field spells: an optional `+` or `-`, then one or more digits.
pub open spec fn field_number(f: Seq<u8>) -> Option<int> {
    let signed = f.len() > 0 && (f[0] == 0x2d || f[0] == 0x2b);
    let d = if signed { f.subrange(1, f.len() as int) } else { f };
    if d.len() > 0 && all_digits(d) {
        Some(if signed && f[0] == 0x2d { -digits_value(d) } else { digits_value(d) })
    } else {
        None
    }
}

/// The `i32` a field spells, if it spells one.
pub open spec fn field_i32(f: Seq<u8>) -> Option<i32> {
    match field_number(f) {
        Some(v) => if fits_i32(v) { Some(v as i32) } else { None },
        None => None,
    }
}

/// Reading `s` from the left: the fields completed so far, and the field
/// still open at the end of `s`.
pub open spec fn scan(s: Seq<u8>) -> (Seq<Seq<u8>>, Seq<u8>)
    decreases s.len(),
{
    if s.len() == 0 {
        (Seq::empty(), Seq::empty())
    } else {
        let (done, open) = scan(s.drop_last());
        if !is_space(s.last()) {
            (done, open.push(s.last()))
        } else if open.len() > 0 {
            (done.push(open), Seq::empty())
        } else {
            (done, open)
        }
    }
}

/// The maximal runs of non-separator bytes of `s`, in order.
pub open spec fn fields(s: Seq<u8>) -> Seq<Seq<u8>> {
    let (done, open) = scan(s);
    if open.len() > 0 {
        done.push(open)
    } else {
        done
    }
}

/// Whether every field spells an `i32`.
pub open spec fn all_fields_valid(fs: Seq<Seq<u8>>) -> bool {
    forall|j: int| 0 <= j < fs.len() ==> (#[trigger] field_i32(fs[j])) is Some
}

/// The integers that the fields spell.
pub open spec fn field_values(fs: Seq<Seq<u8>>) -> Seq<i32> {
    fs.map_values(|f: Seq<u8>| field_i32(f)->Some_0)
}

spec fn capped(v: int) -> int {
    if v < DIGITS_CAP {
        v
    } else {
        DIGITS_CAP as int
    }
}

/// The `i32` that the field `f` spells, if any.
pub fn parse_field(f: &Vec<u8>) -> (r: Option<i32>)
    ensures
        r == field_i32(f@),
{
    let n = f.len();
    let signed = n > 0 && (f[0] == 0x2d || f[0] == 0x2b);
    let start: usize = if signed { 1 } else { 0 };
    if start >= n {
        return None;
    }
    let ghost d = if signed { f@.subrange(1, n as int) } else { f@ };
    let mut acc: u64 = 0;
    let mut k: usize = start;
    while k < n
        invariant
            start <= k <= n,
            n == f@.len(),
            signed == (n > 0 && (f@[0] == 0x2d || f@[0] == 0x2b)),
            start == if signed { 1usize } else { 0usize },
            d == if signed { f@.subrange(1, n as int) } else { f@ },
            d == f@.subrange(start as int, n as int),
            all_digits(f@.subrange(start as int, k as int)),
            acc == capped(digits_value(f@.subrange(start as int, k as int))),
            digits_value(f@.subrange(start as int, k as int)) >= 0,
        decreases n - k,
    {
        let b = f[k];
        if b < 0x30 || b > 0x39 {
            assert(!is_digit(d[k - start]));
            assert(!all_digits(d));
            assert(field_number(f@) is None);
            return None;
        }
        let ghost prev = f@.subrange(start as int, k as int);
        assert(f@.subrange(start as int, k + 1).drop_last() =~= prev);
        acc = acc * 10 + (b - 0x30) as u64;
        if acc > DIGITS_CAP {
            acc = DIGITS_CAP;
        }
        k = k + 1;
        assert(all_digits(f@.subrange(start as int, k as int))) by {
            assert forall|i: int| 0 <= i < k - start implies is_digit(
                #[trigger] f@.subrange(start as int, k as int)[i],
            ) by {
                if i < k - 1 - start {
                    assert(f@.subrange(start as int, k as int)[i] == prev[i]);
                }
            }
        }
    }
    assert(f@.subrange(start as int, n as int) =~= d);
    if acc == DIGITS_CAP {
        return None;
    }
    let v = acc as i64;
    if f[0] == 0x2d {
        if v > 0x8000_0000 {
            return None;
        }
        Some((-v) as i32)
    } else {
        if v > 0x7fff_ffff {
            return None;
        }
        Some(v as i32)
    }
}

/// Reads the calibration text: whitespace-separated decimal integers,
/// exactly seven of them, with a nonzero scaler last.
pub fn parse_calibration(text: &[u8]) -> (r: Result<CalibrationMatrix, CalibrationError>)
    ensures
        r == Err::<CalibrationMatrix, CalibrationError>(CalibrationError::InvalidNumber)
            <==> !all_fields_valid(fields(text@)),
        (r matches Err(CalibrationError::WrongCount { count }) && count == fields(text@).len())
            <==> all_fields_valid(fields(text@)) && fields(text@).len() != 7,
        r == Err::<CalibrationMatrix, CalibrationError>(CalibrationError::ZeroScaler)
            <==> all_fields_valid(fields(text@)) && fields(text@).len() == 7
            && field_values(fields(text@))[6] == 0,
        r is Ok <==> all_fields_valid(fields(text@)) && fields(text@).len() == 7
            && field_values(fields(text@))[6] != 0,
        r is Ok ==> r->Ok_0.values() == field_values(fields(text@)) && r->Ok_0.wf(),
{
    let n = text.len();
    let mut values: Vec<i32> = Vec::new();
    let mut bad = false;
    let mut open: Vec<u8> = Vec::new();
    let mut i: usize = 0;
    while i < n
        invariant
            n == text@.len(),
            i <= n,
            open@ == scan(text@.take(i as int)).1,
            bad == !all_fields_valid(scan(text@.take(i as int)).0),
            !bad ==> values@ == field_values(scan(text@.take(i as int)).0),
            values@.len() <= i,
        decreases n - i,
    {
        let b = text[i];
        let ghost before = scan(text@.take(i as int));
        assert(text@.take(i + 1).drop_last() =~= text@.take(i as int));
        if b == 0x20 || b == 0x09 || b == 0x0a || b == 0x0b || b == 0x0c || b == 0x0d {
            if open.len() > 0 {
                let ghost done = before.0.push(open@);
                match parse_field(&open) {
                    Some(v) => {
                        values.push(v);
                        proof {
                            if !bad {
                                assert(values@ =~= field_values(done));
                            }
                        }
                    },
                    None => {
                        bad = true;
                        assert(field_i32(done[done.len() - 1]) is None);
                    },
                }
                assert(bad == !all_fields_valid(done)) by {
                    if !bad {
                        assert forall|j: int| 0 <= j < done.len() implies (#[trigger] field_i32(
                            done[j],
                        )) is Some by {
                            if j < before.0.len() {
                                assert(done[j] == before.0[j]);
                            }
                        }
                    } else if all_fields_valid(before.0) {
                        assert(field_i32(done[done.len() - 1]) is None);
                    } else {
                        let j = choose|j: int| 0 <= j < before.0.len() && (#[trigger] field_i32(
                            before.0[j],
                        )) is None;
                        assert(done[j] == before.0[j]);
                    }
                }
                open = Vec::new();
            }
        } else {
            open.push(b);
        }
        i = i + 1;
    }
    assert(text@.take(n as int) =~= text@);
    let ghost fs = fields(text@);
    if open.len() > 0 {
        let ghost done = scan(text@).0;
        match parse_field(&open) {
            Some(v) => {
                values.push(v);
                proof {
                    if !bad {
                        assert(values@ =~= field_values(fs));
                    }
                }
            },
            None => {
                bad = true;
                assert(field_i32(fs[fs.len() - 1]) is None);
            },
        }
        assert(bad == !all_fields_valid(fs)) by {
            if !bad {
                assert forall|j: int| 0 <= j < fs.len() implies (#[trigger] field_i32(fs[j])) is Some by {
                    if j < done.len() {
                        assert(fs[j] == done[j]);
                    }
                }
            } else if all_fields_valid(done) {
                assert(field_i32(fs[fs.len() - 1]) is None);
            } else {
                let j = choose|j: int| 0 <= j < done.len() && (#[trigger] field_i32(done[j])) is None;
                assert(fs[j] == done[j]);
            }
        }
    }
    if bad {
        return Err(CalibrationError::InvalidNumber);
    }
    if values.len() != 7 {
        return Err(CalibrationError::WrongCount { count: values.len() });
    }
    match CalibrationMatrix::from_values(&values) {
        Some(m) => Ok(m),
        None => Err(CalibrationError::ZeroScaler),
    }
}

} // verus!
