//! Inertia of a solid cylinder and its `inertial` markup fragment.
use vstd::prelude::*;
use crate::decimal::{
    abs,
    fixed9_text,
    plain_text,
    push_fixed9,
    push_plain,
    round_from_parts,
    round_ratio,
};
use crate::elements::Origin;
use crate::markup::text_bytes;
use vstd::utf8::encode_utf8;

verus! {

/// Largest value of `|m| · (3r² + l²)`, in billionths cubed (ten billion
/// units): the bound under which the moments fit in 64 bits and their exact
/// arithmetic in 128.
pub const MAX_SPREAD: u128 = 10_000_000_000_000_000_000_000_000_000_000_000_000;

/// The coefficient of the moments about the transverse axes, in ten-millionths
/// (0.0833333, one twelfth to seven places).
pub const TRANSVERSE_COEFF: u128 = 833_333;

/// The six moments of an inertia tensor, in billionths.
#[derive(Debug, Default)]
pub struct InertiaTensor {
    pub ixx: i64,
    pub ixy: i64,
    pub ixz: i64,
    pub iyy: i64,
    pub iyz: i64,
    pub izz: i64,
}

/// A solid cylinder along the z axis: radius, length and mass in billionths,
/// and the pose of its inertial frame.
#[derive(Debug, Clone)]
pub struct CylinderInertia {
    pub inertial_radius: i64,
    pub inertial_length: i64,
    pub inertial_mass: i64,
    pub inertial_origin: Origin,
}

/// The moment about a transverse axis, `0.0833333 · m · (3r² + l²)`, in
/// billionths rounded to the nearest (ties to even), for `r`, `l`, `m` in
/// billionths.
pub open spec fn transverse_moment(r: int, l: int, m: int) -> int {
    round_ratio(
        TRANSVERSE_COEFF * m * (3 * r * r + l * l),
        10_000_000_000_000_000_000_000_000,
    )
}

/// The moment about the axis, `m · r² / 2`, in billionths rounded to the
/// nearest (ties to even), for `r`, `m` in billionths.
pub open spec fn axial_moment(r: int, m: int) -> int {
    round_ratio(m * r * r, 2_000_000_000_000_000_000)
}

/// Mass times `3r² + l²` lies within `MAX_SPREAD`.
pub open spec fn in_range(r: int, l: int, m: int) -> bool {
    abs(m) * (3 * r * r + l * l) <= MAX_SPREAD
}

/// The `origin` element of a pose, values in shortest form.
#[verifier::opaque]
pub open spec fn origin_text(o: Origin) -> Seq<char> {
    "<origin xyz=\""@ + triple_text(o.xyz) + "\" rpy=\""@ + triple_text(o.rpy) + "\"/>"@
}

pub open spec fn triple_text(t: (i64, i64, i64)) -> Seq<char> {
    plain_text(t.0 as int) + " "@ + plain_text(t.1 as int) + " "@ + plain_text(t.2 as int)
}

/// Appends the `origin` element of a pose.
pub fn push_origin(out: &mut String, o: &Origin)
    ensures
        final(out)@ == old(out)@ + origin_text(*o),
{
    reveal(origin_text);
    out.append("<origin xyz=\"");
    push_triple(out, o.xyz);
    out.append("\" rpy=\"");
    push_triple(out, o.rpy);
    out.append("\"/>");
    assert(final(out)@ =~= old(out)@ + origin_text(*o));
}

fn push_triple(out: &mut String, t: (i64, i64, i64))
    ensures
        final(out)@ == old(out)@ + triple_text(t),
{
    push_plain(out, t.0);
    out.append(" ");
    push_plain(out, t.1);
    out.append(" ");
    push_plain(out, t.2);
    assert(final(out)@ =~= old(out)@ + triple_text(t));
}

fn abs_u128(v: i64) -> (r: u128)
    ensures
        r as int == abs(v as int),
{
    if v < 0 {
        (0i128 - v as i128) as u128
    } else {
        v as u128
    }
}

/// `0.0833333 · m · (3r² + l²)` rounded to billionths.
fn transverse(r: i64, l: i64, m: i64) -> (res: i64)
    requires
        in_range(r as int, l as int, m as int),
    ensures
        res == transverse_moment(r as int, l as int, m as int),
{
    if m == 0 {
        proof {
            assert(TRANSVERSE_COEFF * m * (3 * r * r + l * l) == 0) by (nonlinear_arith)
                requires
                    m == 0,
            ;
        }
        return 0;
    }
    let ra = abs_u128(r);
    let la = abs_u128(l);
    let ma = abs_u128(m);
    proof {
        assert(ra * ra == r * r && la * la == l * l) by (nonlinear_arith)
            requires
                ra == abs(r as int),
                la == abs(l as int),
        ;
        assert(3 * r * r + l * l == 3 * (ra * ra) + la * la) by (nonlinear_arith)
            requires
                ra * ra == r * r,
                la * la == l * l,
        ;
        assert(ma * (3 * (ra * ra) + la * la) <= MAX_SPREAD);
        assert(3 * (ra * ra) + la * la <= MAX_SPREAD) by (nonlinear_arith)
            requires
                ma >= 1,
                ma * (3 * (ra * ra) + la * la) <= MAX_SPREAD,
                ra * ra >= 0,
                la * la >= 0,
        ;
    }
    let s: u128 = 3 * (ra * ra) + la * la;
    let t: u128 = ma * s;
    let unit: u128 = 1_000_000_000_000_000_000;
    let q = t / unit;
    let rem = t % unit;
    let cq = TRANSVERSE_COEFF * q;
    let a = cq / 10_000_000;
    let b = cq % 10_000_000;
    let inner = b * unit + TRANSVERSE_COEFF * rem;
    let d: u128 = 10_000_000_000_000_000_000_000_000;
    let rounded = round_from_parts(a + inner / d, inner % d, d);
    proof {
        let n = 833_333 * m * (3 * r * r + l * l);
        assert(t == q * unit + rem);
        assert(cq == a * 10_000_000 + b);
        assert(inner == (inner / d) * d + inner % d);
        assert((a + inner / d) * d + inner % d == 833_333 * t) by (nonlinear_arith)
            requires
                t == q * unit + rem,
                cq == 833_333 * q,
                cq == a * 10_000_000 + b,
                inner == b * unit + 833_333 * rem,
                inner == (inner / d) * d + inner % d,
                unit == 1_000_000_000_000_000_000,
                d == 10_000_000_000_000_000_000_000_000,
        ;
        assert(n == (if m < 0 { -(833_333 * t) } else { 833_333 * t as int })) by (nonlinear_arith)
            requires
                n == 833_333 * m * (3 * r * r + l * l),
                t == ma * s,
                s == 3 * (r * r) + l * l,
                ma == abs(m as int),
        ;
        assert(s >= 0);
        assert(t >= 0);
        assert(n < 0 ==> m < 0);
        assert(m < 0 && t > 0 ==> n < 0) by (nonlinear_arith)
            requires
                n == (if m < 0 { -(833_333 * t) } else { 833_333 * t as int }),
        ;
        assert(rounded <= 900_000_000_000_000_000) by (nonlinear_arith)
            requires
                rounded <= a + inner / d + 1,
                a == cq / 10_000_000,
                cq == 833_333 * q,
                q == t / unit,
                t <= MAX_SPREAD,
                unit == 1_000_000_000_000_000_000,
                inner < 2 * d,
                d == 10_000_000_000_000_000_000_000_000,
        ;
    }
    if m < 0 {
        -(rounded as i64)
    } else {
        rounded as i64
    }
}

/// `m · r² / 2` rounded to billionths.
fn axial(r: i64, l: i64, m: i64) -> (res: i64)
    requires
        in_range(r as int, l as int, m as int),
    ensures
        res == axial_moment(r as int, m as int),
{
    let ra = abs_u128(r);
    let ma = abs_u128(m);
    proof {
        let la = abs(l as int);
        assert(ra * ra == r * r && la * la == l * l) by (nonlinear_arith)
            requires
                ra == abs(r as int),
                la == abs(l as int),
        ;
        assert(3 * r * r + l * l == 3 * (ra * ra) + la * la) by (nonlinear_arith)
            requires
                ra * ra == r * r,
                la * la == l * l,
        ;
        assert(ma * (3 * (ra * ra) + la * la) <= MAX_SPREAD);
        assert(ra * ra <= 85_070_591_730_234_615_865_843_651_857_942_052_864) by (nonlinear_arith)
            requires
                ra <= 9_223_372_036_854_775_808,
        ;
        assert(ma * (ra * ra) <= MAX_SPREAD) by (nonlinear_arith)
            requires
                ma * (3 * (ra * ra) + la * la) <= MAX_SPREAD,
                ma >= 0,
                la * la >= 0,
                ra * ra >= 0,
        ;
    }
    let t: u128 = ma * (ra * ra);
    let d: u128 = 2_000_000_000_000_000_000;
    let rounded = round_from_parts(t / d, t % d, d);
    proof {
        let n = m * r * r;
        assert(t == (t / d) * d + t % d);
        assert(n == (if m < 0 { -(t as int) } else { t as int })) by (nonlinear_arith)
            requires
                n == m * r * r,
                t == ma * (ra * ra),
                ra == abs(r as int),
                ma == abs(m as int),
        ;
        assert(rounded <= 5_000_000_000_000_000_001) by (nonlinear_arith)
            requires
                rounded <= t / d + 1,
                t <= MAX_SPREAD,
                d == 2_000_000_000_000_000_000,
        ;
    }
    if m < 0 {
        -(rounded as i64)
    } else {
        rounded as i64
    }
}

/// The `inertia` element of the six moments, each with nine fraction digits.
#[verifier::opaque]
pub open spec fn inertia_text(ixx: int, ixy: int, ixz: int, iyy: int, iyz: int, izz: int) -> Seq<
    char,
> {
    "<inertia ixx=\""@ + fixed9_text(ixx) + "\" ixy=\""@ + fixed9_text(ixy) + "\" ixz=\""@
        + fixed9_text(ixz) + "\" iyy=\""@ + fixed9_text(iyy) + "\" iyz=\""@ + fixed9_text(iyz)
        + "\" izz=\""@ + fixed9_text(izz) + "\"/>"@
}

/// Appends the `inertia` element of a tensor.
fn push_inertia(out: &mut String, t: &InertiaTensor)
    ensures
        final(out)@ == old(out)@ + inertia_text(
            t.ixx as int,
            t.ixy as int,
            t.ixz as int,
            t.iyy as int,
            t.iyz as int,
            t.izz as int,
        ),
{
    reveal(inertia_text);
    out.append("<inertia ixx=\"");
    push_fixed9(out, t.ixx);
    out.append("\" ixy=\"");
    push_fixed9(out, t.ixy);
    out.append("\" ixz=\"");
    push_fixed9(out, t.ixz);
    out.append("\" iyy=\"");
    push_fixed9(out, t.iyy);
    out.append("\" iyz=\"");
    push_fixed9(out, t.iyz);
    out.append("\" izz=\"");
    push_fixed9(out, t.izz);
    out.append("\"/>");
    assert(final(out)@ =~= old(out)@ + inertia_text(
        t.ixx as int,
        t.ixy as int,
        t.ixz as int,
        t.iyy as int,
        t.iyz as int,
        t.izz as int,
    ));
}

impl CylinderInertia {
    /// Mass times `3r² + l²` lies within `MAX_SPREAD`.
    pub open spec fn well_formed(&self) -> bool {
        in_range(
            self.inertial_radius as int,
            self.inertial_length as int,
            self.inertial_mass as int,
        )
    }

    /// The `inertial` fragment: mass, origin and the tensor's six moments.
    pub open spec fn fragment(&self) -> Seq<char> {
        let r = self.inertial_radius as int;
        let l = self.inertial_length as int;
        let m = self.inertial_mass as int;
        let t = transverse_moment(r, l, m);
        "<inertial>"@ + "<mass value=\""@ + fixed9_text(m) + "\"/>"@ + origin_text(
            self.inertial_origin,
        ) + inertia_text(t, 0, 0, t, 0, axial_moment(r, m)) + "</inertial>"@
    }

    pub fn new(radius: i64, length: i64, mass: i64, origin: Origin) -> (r: Self)
        ensures
            r.inertial_radius == radius,
            r.inertial_length == length,
            r.inertial_mass == mass,
            r.inertial_origin == origin,
    {
        CylinderInertia {
            inertial_radius: radius,
            inertial_length: length,
            inertial_mass: mass,
            inertial_origin: origin,
        }
    }

    /// The inertia tensor of the solid cylinder, each moment rounded to
    /// billionths; the products of inertia are zero.
    pub fn calculate_inertia(&self) -> (t: InertiaTensor)
        requires
            self.well_formed(),
        ensures
            t.ixx == transverse_moment(
                self.inertial_radius as int,
                self.inertial_length as int,
                self.inertial_mass as int,
            ),
            t.iyy == t.ixx,
            t.izz == axial_moment(self.inertial_radius as int, self.inertial_mass as int),
            t.ixy == 0,
            t.ixz == 0,
            t.iyz == 0,
    {
        let ixx_iyy = transverse(self.inertial_radius, self.inertial_length, self.inertial_mass);
        let izz = axial(self.inertial_radius, self.inertial_length, self.inertial_mass);
        InertiaTensor { ixx: ixx_iyy, ixy: 0, ixz: 0, iyy: ixx_iyy, iyz: 0, izz }
    }

    /// Appends the `inertial` fragment.
    pub fn push_fragment(&self, out: &mut String)
        requires
            self.well_formed(),
        ensures
            final(out)@ == old(out)@ + self.fragment(),
    {
        let inertia = self.calculate_inertia();
        out.append("<inertial>");
        out.append("<mass value=\"");
        push_fixed9(out, self.inertial_mass);
        out.append("\"/>");
        push_origin(out, &self.inertial_origin);
        push_inertia(out, &inertia);
        out.append("</inertial>");
        assert(final(out)@ =~= old(out)@ + self.fragment());
    }

    /// The `inertial` fragment as text.
    pub fn render_fragment(&self) -> (r: String)
        requires
            self.well_formed(),
        ensures
            r@ == self.fragment(),
    {
        let mut out = String::new();
        self.push_fragment(&mut out);
        assert(out@ =~= self.fragment());
        out
    }

    /// The `inertial` fragment as UTF-8 bytes; writing to memory cannot fail.
    pub fn to_xml(&self) -> (r: Result<Vec<u8>, quick_xml::Error>)
        requires
            self.well_formed(),
        ensures
            r matches Ok(b) && b@ == encode_utf8(self.fragment()),
    {
        Ok(text_bytes(&self.render_fragment()))
    }
}

impl Default for CylinderInertia {
    /// A cylinder of zero size and mass at the identity pose.
    fn default() -> (r: Self)
        ensures
            r.inertial_radius == 0,
            r.inertial_length == 0,
            r.inertial_mass == 0,
            r.inertial_origin.xyz == (0i64, 0i64, 0i64),
            r.inertial_origin.rpy == (0i64, 0i64, 0i64),
    {
        CylinderInertia {
            inertial_radius: 0,
            inertial_length: 0,
            inertial_mass: 0,
            inertial_origin: Origin::default(),
        }
    }
}

} // verus!
