//! Conversion from a parsed board description into the board model: decimal
//! coordinates are scaled by the description's resolution into internal
//! fixed-point units, padstacks and images are resolved, and component
//! placements are laid out in world coordinates.
//!
//! A decimal is held exactly as a scaled integer, `num / 10^scale`; all
//! arithmetic on the way to internal units is exact, and a value that the
//! resolution cannot represent is an error, never a silent rounding.

use vstd::prelude::*;

verus! {

use crate::primitive::{Pt, Rt, Polygon, Path, pt_ok, pt_pad_ok};
use crate::shape::Shape;
use crate::pcb::{
    Pcb, LayerShape, Keepout, KeepoutType, Padstack, Pin, Component, Net, PinRef,
};

/// A decimal number, exactly: `num / 10^scale`.
#[derive(Clone, Copy, Debug, PartialEq, Eq, Structural)]
pub struct Dec {
    pub num: i128,
    pub scale: u32,
}

impl Dec {
    /// The working range of the converter's decimals.
    pub open spec fn wf(self) -> bool {
        &&& -0x1_0000_0000_0000_0000_0000_0000i128 <= self.num
            <= 0x1_0000_0000_0000_0000_0000_0000i128
        &&& self.scale <= 20
    }

    pub fn new(num: i128, scale: u32) -> (r: Dec)
        requires
            -0x1_0000_0000_0000_0000_0000_0000i128 <= num <= 0x1_0000_0000_0000_0000_0000_0000i128,
            scale <= 20,
        ensures
            r.num == num,
            r.scale == scale,
            r.wf(),
    {
        Dec { num, scale }
    }
}

/// `10^e`, for the scales a decimal can carry.
pub open spec fn spec_pow10(e: int) -> int
    decreases e,
{
    if e <= 0 {
        1
    } else {
        10 * spec_pow10(e - 1)
    }
}

fn pow10(e: u32) -> (r: i128)
    requires
        e <= 21,
    ensures
        r as int == spec_pow10(e as int),
        1 <= r <= 1_000_000_000_000_000_000_000i128,
{
    let mut r: i128 = 1;
    let mut i: u32 = 0;
    while i < e
        invariant
            i <= e,
            e <= 21,
            r as int == spec_pow10(i as int),
            1 <= r,
        decreases e - i,
    {
        proof {
            lemma_pow10_grows(i as int, 20);
            reveal_with_fuel(spec_pow10, 22);
            assert(spec_pow10(20) == 100_000_000_000_000_000_000int);
        }
        r = r * 10;
        i = i + 1;
    }
    proof {
        lemma_pow10_grows(e as int, 21);
        reveal_with_fuel(spec_pow10, 23);
        assert(spec_pow10(21) == 1_000_000_000_000_000_000_000int);
    }
    r
}

proof fn lemma_pow10_pos(e: int)
    ensures
        spec_pow10(e) >= 1,
    decreases (if e >= 0 {
        e
    } else {
        0
    }),
{
    if e > 0 {
        lemma_pow10_pos(e - 1);
    }
}

proof fn lemma_pow10_grows(a: int, b: int)
    requires
        a <= b,
    ensures
        spec_pow10(a) <= spec_pow10(b),
    decreases b - a,
{
    if a < b {
        lemma_pow10_grows(a, b - 1);
        if b > 0 {
            lemma_pow10_pos(b - 1);
        }
    }
}

/// Integer division truncating toward zero, as hardware division does.
pub open spec fn trunc_div(a: int, b: int) -> int {
    if a >= 0 {
        a / b
    } else {
        -((-a) / b)
    }
}

/// The exact integer value of `d` times `10^extra`, truncated toward zero:
/// `(d.num * 10^extra) / 10^scale`.
pub open spec fn spec_dec_trunc(d: Dec) -> int {
    trunc_div(d.num as int, spec_pow10(d.scale as int))
}

/// The length unit of a board description.
#[derive(Clone, Copy, Debug, PartialEq, Eq, Structural)]
pub enum DsnDimensionUnit {
    Inch,
    Mil,
    Cm,
    Mm,
    Um,
}

/// A unit together with the resolution divisor.
#[derive(Clone, Copy, Debug, PartialEq, Eq, Structural)]
pub struct DsnDimension {
    pub dimension: DsnDimensionUnit,
    pub amount: u64,
}

/// A point with decimal coordinates.
#[derive(Clone, Copy, Debug, PartialEq, Eq, Structural)]
pub struct DsnPt {
    pub x: Dec,
    pub y: Dec,
}

/// The shapes a board description can carry.
#[derive(Clone, Debug)]
pub enum DsnShape {
    Rect { layer: usize, x: Dec, y: Dec, w: Dec, h: Dec },
    Circle { layer: usize, diameter: Dec, p: DsnPt },
    Polygon { layer: usize, aperture_width: Dec, pts: Vec<DsnPt> },
    Path { layer: usize, aperture_width: Dec, pts: Vec<DsnPt> },
}

#[derive(Clone, Copy, Debug, PartialEq, Eq, Structural)]
pub enum DsnKeepoutType {
    Keepout,
    ViaKeepout,
    WireKeepout,
}

#[derive(Clone, Debug)]
pub struct DsnKeepout {
    pub keepout_type: DsnKeepoutType,
    pub shape: DsnShape,
}

#[derive(Clone, Debug)]
pub struct DsnPadstack {
    pub padstack_id: u64,
    pub shapes: Vec<DsnShape>,
    pub attach: bool,
}

/// A pin of an image: its id, padstack reference and local offset.
#[derive(Clone, Copy, Debug)]
pub struct DsnImagePin {
    pub pin_id: u64,
    pub padstack_id: u64,
    pub p: DsnPt,
}

/// A component footprint in the library.
#[derive(Clone, Debug)]
pub struct DsnImage {
    pub image_id: u64,
    pub pins: Vec<DsnImagePin>,
    pub keepouts: Vec<DsnKeepout>,
}

/// A placement: which image stands where.
#[derive(Clone, Copy, Debug)]
pub struct DsnComponent {
    pub component_id: u64,
    pub image_id: u64,
    pub p: DsnPt,
}

#[derive(Clone, Copy, Debug, PartialEq, Eq, Structural)]
pub struct DsnPinRef {
    pub component_id: u64,
    pub pin_id: u64,
}

#[derive(Clone, Debug)]
pub struct DsnNet {
    pub net_id: u64,
    pub pins: Vec<DsnPinRef>,
}

/// A parsed board description, ready for conversion.
#[derive(Clone, Debug)]
pub struct DsnPcb {
    pub resolution: DsnDimension,
    pub unit: DsnDimension,
    pub layers: Vec<u64>,
    pub boundaries: Vec<DsnShape>,
    pub keepouts: Vec<DsnKeepout>,
    pub padstacks: Vec<DsnPadstack>,
    pub images: Vec<DsnImage>,
    pub components: Vec<DsnComponent>,
    pub vias: Vec<u64>,
    pub nets: Vec<DsnNet>,
}

/// Why a description could not be converted.
#[derive(Clone, Copy, Debug, PartialEq, Eq, Structural)]
pub enum ConvertError {
    /// A coordinate is not representable in internal units at this
    /// resolution.
    Unrepresentable,
    /// The unit section and the resolution section disagree.
    UnitMismatch,
    /// Two padstacks share an id.
    DuplicatePadstack,
    /// Two images share an id.
    DuplicateImage,
    /// A referenced padstack or image does not exist.
    UnknownReference,
    /// A shape is degenerate: too few vertices or a negative extent.
    BadShape,
}

/// Converts a parsed board description into the board model.
#[derive(Clone, Debug)]
pub struct Converter {
    pub dsn: DsnPcb,
}

impl Converter {
    pub open spec fn wf(self) -> bool {
        &&& self.dsn.resolution.amount >= 1
        &&& self.dsn.resolution.amount <= 1_000_000_000
    }

    pub fn new(dsn: DsnPcb) -> (r: Result<Converter, ConvertError>)
        ensures
            match r {
                Ok(c) => c.wf() && c.dsn == dsn,
                Err(e) => e == ConvertError::Unrepresentable,
            },
    {
        if dsn.resolution.amount < 1 || dsn.resolution.amount > 1_000_000_000 {
            return Err(ConvertError::Unrepresentable);
        }
        Ok(Converter { dsn })
    }

    /// Millimetres per unit of the description's dimension, as an exact
    /// decimal.
    pub fn mm(&self) -> (r: Dec)
        ensures
            r.wf(),
            r == match self.dsn.resolution.dimension {
                DsnDimensionUnit::Inch => Dec { num: 254, scale: 1 },
                DsnDimensionUnit::Mil => Dec { num: 254, scale: 4 },
                DsnDimensionUnit::Cm => Dec { num: 10, scale: 0 },
                DsnDimensionUnit::Mm => Dec { num: 1, scale: 0 },
                DsnDimensionUnit::Um => Dec { num: 1000, scale: 0 },
            },
    {
        match self.dsn.resolution.dimension {
            DsnDimensionUnit::Inch => Dec { num: 254, scale: 1 },
            DsnDimensionUnit::Mil => Dec { num: 254, scale: 4 },
            DsnDimensionUnit::Cm => Dec { num: 10, scale: 0 },
            DsnDimensionUnit::Mm => Dec { num: 1, scale: 0 },
            DsnDimensionUnit::Um => Dec { num: 1000, scale: 0 },
        }
    }

    /// A description coordinate scaled into internal units, exactly:
    /// `mm * amount * v`.
    pub fn coord(&self, v: Dec) -> (r: Result<Dec, ConvertError>)
        requires
            self.wf(),
        ensures
            match r {
                Ok(d) => {
                    &&& d.wf()
                    &&& d.num as int == self.spec_mm_num() * self.dsn.resolution.amount * v.num
                    &&& d.scale as int == self.spec_mm_scale() + v.scale
                },
                Err(e) => e == ConvertError::Unrepresentable,
            },
    {
        let mm = self.mm();
        if v.num < -1_000_000_000_000_000_000_000_000i128 || v.num
            > 1_000_000_000_000_000_000_000_000i128 || v.scale > 20 {
            return Err(ConvertError::Unrepresentable);
        }
        proof {
            assert(0 <= (mm.num as int) * (self.dsn.resolution.amount as int)
                <= 1_000_000_000_000) by (nonlinear_arith)
                requires
                    1 <= mm.num as int <= 1000,
                    1 <= self.dsn.resolution.amount as int <= 1_000_000_000,
            ;
        }
        let m1: i128 = mm.num * (self.dsn.resolution.amount as i128);
        proof {
            assert(-1_000_000_000_000_000_000_000_000_000_000_000_000i128 <= (m1 as int) * (
            v.num as int) <= 1_000_000_000_000_000_000_000_000_000_000_000_000i128)
                by (nonlinear_arith)
                requires
                    0 <= m1 as int <= 1_000_000_000_000,
                    -1_000_000_000_000_000_000_000_000i128 <= v.num as int
                        <= 1_000_000_000_000_000_000_000_000i128,
            ;
        }
        let m2: i128 = m1 * v.num;
        if m2 < -0x1_0000_0000_0000_0000_0000_0000i128 || m2
            > 0x1_0000_0000_0000_0000_0000_0000i128 {
            return Err(ConvertError::Unrepresentable);
        }
        let sc = mm.scale + v.scale;
        if sc > 20 {
            return Err(ConvertError::Unrepresentable);
        }
        proof {
            assert(m2 as int == self.spec_mm_num() * self.dsn.resolution.amount * v.num)
                by (nonlinear_arith)
                requires
                    m1 as int == self.spec_mm_num() * (self.dsn.resolution.amount as int),
                    m2 as int == (m1 as int) * (v.num as int),
            ;
        }
        Ok(Dec { num: m2, scale: sc })
    }

    pub open spec fn spec_mm_num(self) -> int {
        match self.dsn.resolution.dimension {
            DsnDimensionUnit::Inch => 254,
            DsnDimensionUnit::Mil => 254,
            DsnDimensionUnit::Cm => 10,
            DsnDimensionUnit::Mm => 1,
            DsnDimensionUnit::Um => 1000,
        }
    }

    pub open spec fn spec_mm_scale(self) -> int {
        match self.dsn.resolution.dimension {
            DsnDimensionUnit::Inch => 1,
            DsnDimensionUnit::Mil => 4,
            DsnDimensionUnit::Cm => 0,
            DsnDimensionUnit::Mm => 0,
            DsnDimensionUnit::Um => 0,
        }
    }

    /// The board's resolution as an exact rational: millimetres per internal
    /// unit, `mm / amount`.
    pub fn resolution(&self) -> (r: (u64, u64))
        requires
            self.wf(),
        ensures
            r.1 >= 1,
            r.0 as int == self.spec_mm_num(),
            r.1 as int == spec_pow10(self.spec_mm_scale()) * self.dsn.resolution.amount,
    {
        let mm = self.mm();
        let p = pow10(mm.scale);
        // mm.num is one of a few small positive constants; the denominator
        // carries the scale and the resolution divisor.
        let num: u64 = mm.num as u64;
        proof {
            lemma_pow10_grows(mm.scale as int, 4);
            reveal_with_fuel(spec_pow10, 6);
            assert(spec_pow10(4) == 10_000int);
            assert(1 <= (p as int) * (self.dsn.resolution.amount as int)
                <= 10_000_000_000_000i128) by (nonlinear_arith)
                requires
                    1 <= p as int <= 10_000,
                    1 <= self.dsn.resolution.amount as int <= 1_000_000_000,
            ;
        }
        let den128: i128 = p * (self.dsn.resolution.amount as i128);
        (num, den128 as u64)
    }

    /// The integral value of a converted coordinate, truncated toward zero;
    /// an error when it does not fit the kernel's coordinate range.
    pub fn to_i64(&self, v: Dec) -> (r: Result<i64, ConvertError>)
        requires
            v.wf(),
        ensures
            match r {
                Ok(i) => i as int == spec_dec_trunc(v) && crate::coord_ok(i as int),
                Err(e) => e == ConvertError::Unrepresentable,
            },
    {
        let p = pow10(v.scale);
        let neg = v.num < 0;
        let mag: i128 = if neg {
            -v.num
        } else {
            v.num
        };
        let q: i128 = mag / p;
        let signed: i128 = if neg {
            -q
        } else {
            q
        };
        proof {
            vstd::arithmetic::div_mod::lemma_div_pos_is_pos(mag as int, p as int);
        }
        if signed < -crate::COORD_MAX as i128 || signed > crate::COORD_MAX as i128 {
            return Err(ConvertError::Unrepresentable);
        }
        Ok(signed as i64)
    }

    /// A converted coordinate as an internal length (non-negative).
    pub fn to_u64(&self, v: Dec) -> (r: Result<i64, ConvertError>)
        requires
            v.wf(),
        ensures
            match r {
                Ok(i) => i as int == spec_dec_trunc(v) && 0 <= i && crate::coord_ok(i as int),
                Err(e) => e == ConvertError::Unrepresentable,
            },
    {
        let i = self.to_i64(v)?;
        if i < 0 {
            return Err(ConvertError::Unrepresentable);
        }
        Ok(i)
    }

    /// Convert one description coordinate into internal units.
    pub fn pt(&self, v: &DsnPt) -> (r: Result<Pt, ConvertError>)
        requires
            self.wf(),
        ensures
            match r {
                Ok(p) => pt_ok(p),
                Err(e) => e == ConvertError::Unrepresentable,
            },
    {
        let x = self.coord(v.x)?;
        let y = self.coord(v.y)?;
        let xi = self.to_i64(x)?;
        let yi = self.to_i64(y)?;
        Ok(Pt { x: xi, y: yi })
    }

    /// Convert a description rectangle.
    pub fn rect(&self, layer: usize, x: Dec, y: Dec, w: Dec, h: Dec) -> (r: Result<
        Rt,
        ConvertError,
    >)
        requires
            self.wf(),
        ensures
            match r {
                Ok(t) => t.wf(),
                Err(e) => e == ConvertError::Unrepresentable || e == ConvertError::BadShape,
            },
    {
        let xc = self.coord(x)?;
        let yc = self.coord(y)?;
        let wc = self.coord(w)?;
        let hc = self.coord(h)?;
        let x0 = self.to_i64(xc)?;
        let y0 = self.to_i64(yc)?;
        let wi = self.to_i64(wc)?;
        let hi = self.to_i64(hc)?;
        if wi < 0 || hi < 0 {
            return Err(ConvertError::BadShape);
        }
        let x1: i64 = if x0 > crate::COORD_MAX - wi {
            return Err(ConvertError::Unrepresentable);
        } else {
            x0 + wi
        };
        let y1: i64 = if y0 > crate::COORD_MAX - hi {
            return Err(ConvertError::Unrepresentable);
        } else {
            y0 + hi
        };
        Ok(Rt { x0, y0, x1, y1 })
    }

    /// Convert one description shape into a kernel shape.
    pub fn shape(&self, v: &DsnShape) -> (r: Result<LayerShape, ConvertError>)
        requires
            self.wf(),
        ensures
            match r {
                Ok(s) => s.wf(),
                Err(_) => true,
            },
    {
        match v {
            DsnShape::Rect { layer, x, y, w, h } => {
                let t = self.rect(*layer, *x, *y, *w, *h)?;
                Ok(LayerShape { layer: *layer, shape: Shape::Rect(t) })
            },
            DsnShape::Circle { layer, diameter, p } => {
                let c = self.pt(p)?;
                let dc = self.coord(*diameter)?;
                // Half the diameter, exactly: scale the mantissa by five and
                // shift the decimal point.
                if dc.num < -0x1000_0000_0000_0000_0000_0000i128 || dc.num
                    > 0x1000_0000_0000_0000_0000_0000i128 || dc.scale > 19 {
                    return Err(ConvertError::Unrepresentable);
                }
                let half = Dec { num: dc.num * 5, scale: dc.scale + 1 };
                let rr = self.to_u64(half)?;
                if !(c.x as i128 - rr as i128 >= -crate::COORD_MAX as i128 && c.x as i128
                    + rr as i128 <= crate::COORD_MAX as i128 && c.y as i128 - rr as i128
                    >= -crate::COORD_MAX as i128 && c.y as i128 + rr as i128
                    <= crate::COORD_MAX as i128) {
                    return Err(ConvertError::Unrepresentable);
                }
                Ok(
                    LayerShape {
                        layer: *layer,
                        shape: Shape::Circle(crate::primitive::Circle { p: c, r: rr }),
                    },
                )
            },
            DsnShape::Polygon { layer, aperture_width, pts } => {
                let ps = self.pts(pts)?;
                if ps.len() < 3 || ps.len() > 1_000_000 {
                    return Err(ConvertError::BadShape);
                }
                Ok(LayerShape { layer: *layer, shape: Shape::Polygon(crate::primitive::poly(ps)) })
            },
            DsnShape::Path { layer, aperture_width, pts } => {
                let ps = self.pts(pts)?;
                let wc = self.coord(*aperture_width)?;
                if wc.num < -0x1000_0000_0000_0000_0000_0000i128 || wc.num
                    > 0x1000_0000_0000_0000_0000_0000i128 || wc.scale > 19 {
                    return Err(ConvertError::Unrepresentable);
                }
                let half = Dec { num: wc.num * 5, scale: wc.scale + 1 };
                let rr = self.to_u64(half)?;
                if ps.len() < 2 || ps.len() > 1_000_000 {
                    return Err(ConvertError::BadShape);
                }
                let mut k: usize = 0;
                let n = ps.len();
                while k < n
                    invariant
                        n == ps@.len(),
                        k <= n,
                        0 <= rr,
                        forall|t: int| 0 <= t < k ==> pt_pad_ok(#[trigger] ps@[t], rr),
                        forall|t: int| 0 <= t < ps@.len() ==> pt_ok(#[trigger] ps@[t]),
                    decreases n - k,
                {
                    let p = ps[k];
                    if !(p.x as i128 - rr as i128 >= -crate::COORD_MAX as i128 && p.x as i128
                        + rr as i128 <= crate::COORD_MAX as i128 && p.y as i128 - rr as i128
                        >= -crate::COORD_MAX as i128 && p.y as i128 + rr as i128
                        <= crate::COORD_MAX as i128) {
                        return Err(ConvertError::Unrepresentable);
                    }
                    k = k + 1;
                }
                Ok(
                    LayerShape {
                        layer: *layer,
                        shape: Shape::Path(crate::primitive::path(ps, rr)),
                    },
                )
            },
        }
    }

    /// Convert a list of description points.
    fn pts(&self, v: &Vec<DsnPt>) -> (r: Result<Vec<Pt>, ConvertError>)
        requires
            self.wf(),
        ensures
            match r {
                Ok(ps) => forall|i: int| 0 <= i < ps@.len() ==> pt_ok(#[trigger] ps@[i]),
                Err(e) => e == ConvertError::Unrepresentable,
            },
    {
        let mut out: Vec<Pt> = Vec::new();
        let n = v.len();
        let mut i: usize = 0;
        while i < n
            invariant
                self.wf(),
                n == v@.len(),
                i <= n,
                forall|k: int| 0 <= k < out@.len() ==> pt_ok(#[trigger] out@[k]),
            decreases n - i,
        {
            let p = self.pt(&v[i])?;
            out.push(p);
            i = i + 1;
        }
        Ok(out)
    }

    /// Convert a keepout.
    pub fn keepout(&self, v: &DsnKeepout) -> (r: Result<Keepout, ConvertError>)
        requires
            self.wf(),
        ensures
            match r {
                Ok(k) => k.shape.wf(),
                Err(_) => true,
            },
    {
        let s = self.shape(&v.shape)?;
        Ok(
            Keepout {
                kind: match v.keepout_type {
                    DsnKeepoutType::Keepout => KeepoutType::Keepout,
                    DsnKeepoutType::ViaKeepout => KeepoutType::ViaKeepout,
                    DsnKeepoutType::WireKeepout => KeepoutType::WireKeepout,
                },
                shape: s,
            },
        )
    }

    /// Convert a padstack.
    pub fn padstack(&self, v: &DsnPadstack) -> (r: Result<Padstack, ConvertError>)
        requires
            self.wf(),
        ensures
            match r {
                Ok(p) => p.wf() && p.id == v.padstack_id && p.attach == v.attach
                    && p.shapes@.len() == v.shapes@.len(),
                Err(_) => true,
            },
    {
        let mut shapes: Vec<LayerShape> = Vec::new();
        let n = v.shapes.len();
        let mut i: usize = 0;
        while i < n
            invariant
                self.wf(),
                n == v.shapes@.len(),
                shapes@.len() == i,
                i <= n,
                forall|k: int| 0 <= k < shapes@.len() ==> (#[trigger] shapes@[k]).wf(),
            decreases n - i,
        {
            let s = self.shape(&v.shapes[i])?;
            shapes.push(s);
            i = i + 1;
        }
        Ok(Padstack { id: v.padstack_id, shapes, attach: v.attach })
    }

    /// Convert an image: a pin list with local offsets, resolved against the
    /// converted padstacks.
    pub fn image(&self, v: &DsnImage, padstacks: &Vec<Padstack>) -> (r: Result<
        Component,
        ConvertError,
    >)
        requires
            self.wf(),
            forall|i: int| 0 <= i < padstacks@.len() ==> (#[trigger] padstacks@[i]).wf(),
        ensures
            match r {
                Ok(c) => c.wf() && c.id == v.image_id,
                Err(_) => true,
            },
    {
        let mut pins: Vec<Pin> = Vec::new();
        let n = v.pins.len();
        let mut i: usize = 0;
        while i < n
            invariant
                self.wf(),
                n == v.pins@.len(),
                i <= n,
                forall|k: int| 0 <= k < padstacks@.len() ==> (#[trigger] padstacks@[k]).wf(),
                forall|k: int| 0 <= k < pins@.len() ==> (#[trigger] pins@[k]).wf(),
            decreases n - i,
        {
            let dp = &v.pins[i];
            let p = self.pt(&dp.p)?;
            let ps = match find_padstack(padstacks, dp.padstack_id) {
                Some(j) => crate::pcb::clone_padstack(&padstacks[j]),
                None => {
                    return Err(ConvertError::UnknownReference);
                },
            };
            pins.push(Pin { id: dp.pin_id, p, padstack: ps });
            i = i + 1;
        }
        let mut keepouts: Vec<Keepout> = Vec::new();
        let n2 = v.keepouts.len();
        i = 0;
        while i < n2
            invariant
                self.wf(),
                n2 == v.keepouts@.len(),
                i <= n2,
                forall|k: int| 0 <= k < keepouts@.len() ==> (#[trigger] keepouts@[k]).shape.wf(),
            decreases n2 - i,
        {
            let k = self.keepout(&v.keepouts[i])?;
            keepouts.push(k);
            i = i + 1;
        }
        Ok(Component { id: v.image_id, p: Pt { x: 0, y: 0 }, pins, keepouts })
    }

    /// Convert a placement: the placed image, translated into world
    /// coordinates.
    pub fn component(&self, v: &DsnComponent, images: &Vec<Component>) -> (r: Result<
        Component,
        ConvertError,
    >)
        requires
            self.wf(),
            forall|i: int| 0 <= i < images@.len() ==> (#[trigger] images@[i]).wf(),
        ensures
            match r {
                Ok(c) => c.wf() && c.id == v.component_id,
                Err(_) => true,
            },
    {
        let w = self.pt(&v.p)?;
        let img = match find_component_by_id(images, v.image_id) {
            Some(j) => crate::pcb::clone_component(&images[j]),
            None => {
                return Err(ConvertError::UnknownReference);
            },
        };
        let placed = translate_component(&img, w.x, w.y);
        match placed {
            Some(mut c) => {
                c.id = v.component_id;
                Ok(c)
            },
            None => Err(ConvertError::Unrepresentable),
        }
    }

    /// Convert a net.
    pub fn net(&self, v: &DsnNet) -> (r: Net)
        ensures
            r.id == v.net_id,
            r.pins@.len() == v.pins@.len(),
    {
        let mut pins: Vec<PinRef> = Vec::new();
        let n = v.pins.len();
        let mut i: usize = 0;
        while i < n
            invariant
                n == v.pins@.len(),
                pins@.len() == i,
                i <= n,
            decreases n - i,
        {
            pins.push(PinRef { component: v.pins[i].component_id, pin: v.pins[i].pin_id });
            i = i + 1;
        }
        Net { id: v.net_id, pins }
    }

    /// Convert every padstack, refusing duplicate ids.
    pub fn convert_padstacks(&self) -> (r: Result<Vec<Padstack>, ConvertError>)
        requires
            self.wf(),
        ensures
            match r {
                Ok(ps) => {
                    &&& ps@.len() == self.dsn.padstacks@.len()
                    &&& forall|i: int|
                        0 <= i < ps@.len() ==> (#[trigger] ps@[i]).wf() && ps@[i].id
                            == self.dsn.padstacks@[i].padstack_id && ps@[i].attach
                            == self.dsn.padstacks@[i].attach && ps@[i].shapes@.len()
                            == self.dsn.padstacks@[i].shapes@.len()
                },
                Err(_) => true,
            },
    {
        let mut out: Vec<Padstack> = Vec::new();
        let n = self.dsn.padstacks.len();
        let mut i: usize = 0;
        while i < n
            invariant
                self.wf(),
                n == self.dsn.padstacks@.len(),
                out@.len() == i,
                i <= n,
                forall|k: int|
                    0 <= k < out@.len() ==> (#[trigger] out@[k]).wf() && out@[k].id
                        == self.dsn.padstacks@[k].padstack_id && out@[k].attach
                        == self.dsn.padstacks@[k].attach && out@[k].shapes@.len()
                        == self.dsn.padstacks@[k].shapes@.len(),
            decreases n - i,
        {
            let p = self.padstack(&self.dsn.padstacks[i])?;
            if find_padstack(&out, p.id).is_some() {
                return Err(ConvertError::DuplicatePadstack);
            }
            out.push(p);
            i = i + 1;
        }
        Ok(out)
    }

    /// Convert every image, refusing duplicate ids.
    pub fn convert_images(&self, padstacks: &Vec<Padstack>) -> (r: Result<
        Vec<Component>,
        ConvertError,
    >)
        requires
            self.wf(),
            forall|i: int| 0 <= i < padstacks@.len() ==> (#[trigger] padstacks@[i]).wf(),
        ensures
            match r {
                Ok(cs) => {
                    &&& cs@.len() == self.dsn.images@.len()
                    &&& forall|i: int|
                        0 <= i < cs@.len() ==> (#[trigger] cs@[i]).wf() && cs@[i].id
                            == self.dsn.images@[i].image_id
                },
                Err(_) => true,
            },
    {
        let mut out: Vec<Component> = Vec::new();
        let n = self.dsn.images.len();
        let mut i: usize = 0;
        while i < n
            invariant
                self.wf(),
                n == self.dsn.images@.len(),
                out@.len() == i,
                i <= n,
                forall|k: int| 0 <= k < padstacks@.len() ==> (#[trigger] padstacks@[k]).wf(),
                forall|k: int|
                    0 <= k < out@.len() ==> (#[trigger] out@[k]).wf() && out@[k].id
                        == self.dsn.images@[k].image_id,
            decreases n - i,
        {
            let c = self.image(&self.dsn.images[i], padstacks)?;
            if find_component_by_id(&out, c.id).is_some() {
                return Err(ConvertError::DuplicateImage);
            }
            out.push(c);
            i = i + 1;
        }
        Ok(out)
    }

    /// Convert the whole description into a board.
    pub fn convert(self) -> (r: Result<Pcb, ConvertError>)
        requires
            self.wf(),
        ensures
            self.dsn.unit.dimension != self.dsn.resolution.dimension ==> r
                == Err::<Pcb, ConvertError>(ConvertError::UnitMismatch),
            match r {
                Ok(pcb) => {
                    &&& pcb.wf()
                    &&& pcb.resolution_num as int == self.spec_mm_num()
                    &&& pcb.resolution_den as int == spec_pow10(self.spec_mm_scale())
                        * self.dsn.resolution.amount
                    &&& pcb.layers@ == self.dsn.layers@
                    &&& pcb.boundaries@.len() == self.dsn.boundaries@.len()
                    &&& pcb.keepouts@.len() == self.dsn.keepouts@.len()
                    &&& pcb.via_padstacks@.len() == self.dsn.vias@.len()
                    &&& pcb.components@.len() == self.dsn.components@.len()
                    &&& forall|i: int|
                        0 <= i < pcb.components@.len() ==> (#[trigger] pcb.components@[i]).id
                            == self.dsn.components@[i].component_id
                    &&& pcb.nets@.len() == self.dsn.nets@.len()
                    &&& forall|i: int|
                        0 <= i < pcb.nets@.len() ==> (#[trigger] pcb.nets@[i]).id
                            == self.dsn.nets@[i].net_id && pcb.nets@[i].pins@.len()
                            == self.dsn.nets@[i].pins@.len()
                    &&& pcb.wires@.len() == 0
                    &&& pcb.vias@.len() == 0
                },
                Err(_) => true,
            },
    {
        if self.dsn.unit.dimension != self.dsn.resolution.dimension {
            return Err(ConvertError::UnitMismatch);
        }
        let mut pcb = Pcb::new();
        let (rn, rd) = self.resolution();
        pcb.resolution_num = rn;
        pcb.resolution_den = rd;
        let padstacks = self.convert_padstacks()?;
        let images = self.convert_images(&padstacks)?;
        let ghost base = pcb;
        // Physical structure.
        let nl = self.dsn.layers.len();
        let mut i: usize = 0;
        while i < nl
            invariant
                self.wf(),
                self.dsn.unit.dimension == self.dsn.resolution.dimension,
                nl == self.dsn.layers@.len(),
                i <= nl,
                pcb.wf(),
                pcb.layers@ == self.dsn.layers@.take(i as int),
                pcb == (Pcb { layers: pcb.layers, ..base }),
            decreases nl - i,
        {
            pcb.add_layer(self.dsn.layers[i]);
            proof {
                assert(pcb.layers@ =~= self.dsn.layers@.take(i + 1));
            }
            i = i + 1;
        }
        proof {
            assert(self.dsn.layers@.take(nl as int) =~= self.dsn.layers@);
        }
        let nb = self.dsn.boundaries.len();
        i = 0;
        while i < nb
            invariant
                self.wf(),
                self.dsn.unit.dimension == self.dsn.resolution.dimension,
                nb == self.dsn.boundaries@.len(),
                i <= nb,
                pcb.wf(),
                pcb.layers@ == self.dsn.layers@,
                pcb.boundaries@.len() == i,
                pcb == (Pcb { layers: pcb.layers, boundaries: pcb.boundaries, ..base }),
            decreases nb - i,
        {
            let s = self.shape(&self.dsn.boundaries[i])?;
            pcb.add_boundary(s);
            i = i + 1;
        }
        let nk = self.dsn.keepouts.len();
        i = 0;
        while i < nk
            invariant
                self.wf(),
                self.dsn.unit.dimension == self.dsn.resolution.dimension,
                nk == self.dsn.keepouts@.len(),
                i <= nk,
                pcb.wf(),
                pcb.layers@ == self.dsn.layers@,
                pcb.boundaries@.len() == nb == self.dsn.boundaries@.len(),
                pcb.keepouts@.len() == i,
                pcb == (Pcb {
                    layers: pcb.layers,
                    boundaries: pcb.boundaries,
                    keepouts: pcb.keepouts,
                    ..base
                }),
            decreases nk - i,
        {
            let k = self.keepout(&self.dsn.keepouts[i])?;
            pcb.add_keepout(k);
            i = i + 1;
        }
        let nv = self.dsn.vias.len();
        i = 0;
        while i < nv
            invariant
                self.wf(),
                self.dsn.unit.dimension == self.dsn.resolution.dimension,
                nv == self.dsn.vias@.len(),
                i <= nv,
                pcb.wf(),
                pcb.layers@ == self.dsn.layers@,
                pcb.boundaries@.len() == self.dsn.boundaries@.len(),
                pcb.keepouts@.len() == self.dsn.keepouts@.len(),
                pcb.via_padstacks@.len() == i,
                pcb == (Pcb {
                    layers: pcb.layers,
                    boundaries: pcb.boundaries,
                    keepouts: pcb.keepouts,
                    via_padstacks: pcb.via_padstacks,
                    ..base
                }),
                forall|k: int| 0 <= k < padstacks@.len() ==> (#[trigger] padstacks@[k]).wf(),
            decreases nv - i,
        {
            match find_padstack(&padstacks, self.dsn.vias[i]) {
                Some(j) => {
                    pcb.add_via_padstack(crate::pcb::clone_padstack(&padstacks[j]));
                },
                None => {
                    return Err(ConvertError::UnknownReference);
                },
            }
            i = i + 1;
        }
        let nc = self.dsn.components.len();
        i = 0;
        while i < nc
            invariant
                self.wf(),
                self.dsn.unit.dimension == self.dsn.resolution.dimension,
                nc == self.dsn.components@.len(),
                i <= nc,
                pcb.wf(),
                pcb.layers@ == self.dsn.layers@,
                pcb.boundaries@.len() == self.dsn.boundaries@.len(),
                pcb.keepouts@.len() == self.dsn.keepouts@.len(),
                pcb.via_padstacks@.len() == self.dsn.vias@.len(),
                pcb.components@.len() == i,
                forall|k: int|
                    0 <= k < i ==> (#[trigger] pcb.components@[k]).id
                        == self.dsn.components@[k].component_id,
                pcb == (Pcb {
                    layers: pcb.layers,
                    boundaries: pcb.boundaries,
                    keepouts: pcb.keepouts,
                    via_padstacks: pcb.via_padstacks,
                    components: pcb.components,
                    ..base
                }),
                forall|k: int| 0 <= k < images@.len() ==> (#[trigger] images@[k]).wf(),
            decreases nc - i,
        {
            let c = self.component(&self.dsn.components[i], &images)?;
            pcb.add_component(c);
            i = i + 1;
        }
        // Routing.
        let nn = self.dsn.nets.len();
        i = 0;
        while i < nn
            invariant
                self.wf(),
                self.dsn.unit.dimension == self.dsn.resolution.dimension,
                nn == self.dsn.nets@.len(),
                i <= nn,
                pcb.wf(),
                pcb.layers@ == self.dsn.layers@,
                pcb.boundaries@.len() == self.dsn.boundaries@.len(),
                pcb.keepouts@.len() == self.dsn.keepouts@.len(),
                pcb.via_padstacks@.len() == self.dsn.vias@.len(),
                pcb.components@.len() == self.dsn.components@.len(),
                forall|k: int|
                    0 <= k < pcb.components@.len() ==> (#[trigger] pcb.components@[k]).id
                        == self.dsn.components@[k].component_id,
                pcb.nets@.len() == i,
                forall|k: int|
                    0 <= k < i ==> (#[trigger] pcb.nets@[k]).id == self.dsn.nets@[k].net_id
                        && pcb.nets@[k].pins@.len() == self.dsn.nets@[k].pins@.len(),
                pcb == (Pcb {
                    layers: pcb.layers,
                    boundaries: pcb.boundaries,
                    keepouts: pcb.keepouts,
                    via_padstacks: pcb.via_padstacks,
                    components: pcb.components,
                    nets: pcb.nets,
                    ..base
                }),
            decreases nn - i,
        {
            let n = self.net(&self.dsn.nets[i]);
            pcb.add_net(n);
            i = i + 1;
        }
        Ok(pcb)
    }
}

/// The index of the padstack with the given id.
fn find_padstack(v: &Vec<Padstack>, id: u64) -> (r: Option<usize>)
    ensures
        match r {
            Some(i) => i < v@.len() && v@[i as int].id == id,
            None => true,
        },
{
    let n = v.len();
    let mut i: usize = 0;
    while i < n
        invariant
            n == v@.len(),
            i <= n,
        decreases n - i,
    {
        if v[i].id == id {
            return Some(i);
        }
        i = i + 1;
    }
    None
}

/// The index of the component with the given id.
fn find_component_by_id(v: &Vec<Component>, id: u64) -> (r: Option<usize>)
    ensures
        match r {
            Some(i) => i < v@.len() && v@[i as int].id == id,
            None => true,
        },
{
    let n = v.len();
    let mut i: usize = 0;
    while i < n
        invariant
            n == v@.len(),
            i <= n,
        decreases n - i,
    {
        if v[i].id == id {
            return Some(i);
        }
        i = i + 1;
    }
    None
}

/// Translate a point, checking the kernel's coordinate range.
fn translate_pt(p: Pt, dx: i64, dy: i64) -> (r: Option<Pt>)
    requires
        pt_ok(p),
        crate::coord_ok(dx as int),
        crate::coord_ok(dy as int),
    ensures
        match r {
            Some(q) => pt_ok(q) && q.x == p.x + dx && q.y == p.y + dy,
            None => true,
        },
{
    let x: i128 = p.x as i128 + dx as i128;
    let y: i128 = p.y as i128 + dy as i128;
    if x < -crate::COORD_MAX as i128 || x > crate::COORD_MAX as i128 || y
        < -crate::COORD_MAX as i128 || y > crate::COORD_MAX as i128 {
        return None;
    }
    Some(Pt { x: x as i64, y: y as i64 })
}

/// Translate a shape, checking the coordinate range.
fn translate_shape(s: &Shape, dx: i64, dy: i64) -> (r: Option<Shape>)
    requires
        s.wf(),
        crate::coord_ok(dx as int),
        crate::coord_ok(dy as int),
    ensures
        match r {
            Some(t) => t.wf(),
            None => true,
        },
{
    match s {
        Shape::Circle(c) => {
            let p = match translate_pt(c.p, dx, dy) {
                Some(p) => p,
                None => {
                    return None;
                },
            };
            if !(p.x as i128 - c.r as i128 >= -crate::COORD_MAX as i128 && p.x as i128
                + c.r as i128 <= crate::COORD_MAX as i128 && p.y as i128 - c.r as i128
                >= -crate::COORD_MAX as i128 && p.y as i128 + c.r as i128
                <= crate::COORD_MAX as i128) {
                return None;
            }
            Some(Shape::Circle(crate::primitive::Circle { p, r: c.r }))
        },
        Shape::Line(l) => {
            let st = match translate_pt(l.st, dx, dy) {
                Some(p) => p,
                None => {
                    return None;
                },
            };
            let en = match translate_pt(l.en, dx, dy) {
                Some(p) => p,
                None => {
                    return None;
                },
            };
            Some(Shape::Line(crate::primitive::Line { st, en }))
        },
        Shape::Point(p) => {
            match translate_pt(*p, dx, dy) {
                Some(q) => Some(Shape::Point(q)),
                None => None,
            }
        },
        Shape::Segment(sg) => {
            let st = match translate_pt(sg.st, dx, dy) {
                Some(p) => p,
                None => {
                    return None;
                },
            };
            let en = match translate_pt(sg.en, dx, dy) {
                Some(p) => p,
                None => {
                    return None;
                },
            };
            Some(Shape::Segment(crate::primitive::Segment { st, en }))
        },
        Shape::Rect(t) => {
            let a = match translate_pt(Pt { x: t.x0, y: t.y0 }, dx, dy) {
                Some(p) => p,
                None => {
                    return None;
                },
            };
            let b = match translate_pt(Pt { x: t.x1, y: t.y1 }, dx, dy) {
                Some(p) => p,
                None => {
                    return None;
                },
            };
            Some(Shape::Rect(Rt { x0: a.x, y0: a.y, x1: b.x, y1: b.y }))
        },
        Shape::Tri(t) => {
            let a = match translate_pt(t.a, dx, dy) {
                Some(p) => p,
                None => {
                    return None;
                },
            };
            let b = match translate_pt(t.b, dx, dy) {
                Some(p) => p,
                None => {
                    return None;
                },
            };
            let c = match translate_pt(t.c, dx, dy) {
                Some(p) => p,
                None => {
                    return None;
                },
            };
            Some(Shape::Tri(crate::primitive::Tri { a, b, c }))
        },
        Shape::Polygon(pg) => {
            let pts = match translate_pts(&pg.pts, dx, dy) {
                Some(ps) => ps,
                None => {
                    return None;
                },
            };
            let mut tris: Vec<crate::primitive::Tri> = Vec::new();
            let n = pg.tris.len();
            let mut i: usize = 0;
            while i < n
                invariant
                    pg.wf(),
                    n == pg.tris@.len(),
                    i <= n,
                    crate::coord_ok(dx as int),
                    crate::coord_ok(dy as int),
                    forall|k: int| 0 <= k < tris@.len() ==> (#[trigger] tris@[k]).wf(),
                decreases n - i,
            {
                let t = &pg.tris[i];
                let a = match translate_pt(t.a, dx, dy) {
                    Some(p) => p,
                    None => {
                        return None;
                    },
                };
                let b = match translate_pt(t.b, dx, dy) {
                    Some(p) => p,
                    None => {
                        return None;
                    },
                };
                let c = match translate_pt(t.c, dx, dy) {
                    Some(p) => p,
                    None => {
                        return None;
                    },
                };
                tris.push(crate::primitive::Tri { a, b, c });
                i = i + 1;
            }
            if pts.len() < 3 {
                return None;
            }
            Some(Shape::Polygon(Polygon { pts, tris }))
        },
        Shape::Path(pa) => {
            let pts = match translate_pts(&pa.pts, dx, dy) {
                Some(ps) => ps,
                None => {
                    return None;
                },
            };
            if pts.len() < 2 || pts.len() > 1_000_000 {
                return None;
            }
            let n = pts.len();
            let mut i: usize = 0;
            while i < n
                invariant
                    n == pts@.len(),
                    i <= n,
                    0 <= pa.r,
                    forall|k: int| 0 <= k < pts@.len() ==> pt_ok(#[trigger] pts@[k]),
                    forall|k: int| 0 <= k < i ==> pt_pad_ok(#[trigger] pts@[k], pa.r),
                decreases n - i,
            {
                let p = pts[i];
                if !(p.x as i128 - pa.r as i128 >= -crate::COORD_MAX as i128 && p.x as i128
                    + pa.r as i128 <= crate::COORD_MAX as i128 && p.y as i128 - pa.r as i128
                    >= -crate::COORD_MAX as i128 && p.y as i128 + pa.r as i128
                    <= crate::COORD_MAX as i128) {
                    return None;
                }
                i = i + 1;
            }
            Some(Shape::Path(Path { pts, r: pa.r }))
        },
    }
}

/// Translate a point list, checking the coordinate range.
fn translate_pts(v: &Vec<Pt>, dx: i64, dy: i64) -> (r: Option<Vec<Pt>>)
    requires
        forall|i: int| 0 <= i < v@.len() ==> pt_ok(#[trigger] v@[i]),
        crate::coord_ok(dx as int),
        crate::coord_ok(dy as int),
    ensures
        match r {
            Some(ps) => ps@.len() == v@.len() && forall|i: int|
                0 <= i < ps@.len() ==> pt_ok(#[trigger] ps@[i]),
            None => true,
        },
{
    let mut out: Vec<Pt> = Vec::new();
    let n = v.len();
    let mut i: usize = 0;
    while i < n
        invariant
            n == v@.len(),
            i <= n,
            out@.len() == i,
            crate::coord_ok(dx as int),
            crate::coord_ok(dy as int),
            forall|k: int| 0 <= k < v@.len() ==> pt_ok(#[trigger] v@[k]),
            forall|k: int| 0 <= k < out@.len() ==> pt_ok(#[trigger] out@[k]),
        decreases n - i,
    {
        match translate_pt(v[i], dx, dy) {
            Some(p) => {
                out.push(p);
            },
            None => {
                return None;
            },
        }
        i = i + 1;
    }
    Some(out)
}

/// Place a component footprint at a world offset.
fn translate_component(c: &Component, dx: i64, dy: i64) -> (r: Option<Component>)
    requires
        c.wf(),
        crate::coord_ok(dx as int),
        crate::coord_ok(dy as int),
    ensures
        match r {
            Some(t) => t.wf(),
            None => true,
        },
{
    let p = match translate_pt(c.p, dx, dy) {
        Some(p) => p,
        None => {
            return None;
        },
    };
    let mut pins: Vec<Pin> = Vec::new();
    let n = c.pins.len();
    let mut i: usize = 0;
    while i < n
        invariant
            c.wf(),
            n == c.pins@.len(),
            i <= n,
            crate::coord_ok(dx as int),
            crate::coord_ok(dy as int),
            forall|k: int| 0 <= k < pins@.len() ==> (#[trigger] pins@[k]).wf(),
        decreases n - i,
    {
        let pin = &c.pins[i];
        let wp = match translate_pt(pin.p, dx, dy) {
            Some(p) => p,
            None => {
                return None;
            },
        };
        // Pad shapes move with the pin into world coordinates.
        let mut shapes: Vec<LayerShape> = Vec::new();
        let ns = pin.padstack.shapes.len();
        let mut j: usize = 0;
        while j < ns
            invariant
                c.wf(),
                n == c.pins@.len(),
                i < n,
                *pin == c.pins@[i as int],
                ns == pin.padstack.shapes@.len(),
                j <= ns,
                pt_ok(wp),
                forall|k: int| 0 <= k < shapes@.len() ==> (#[trigger] shapes@[k]).wf(),
            decreases ns - j,
        {
            let ls = &pin.padstack.shapes[j];
            let moved = match translate_shape(&ls.shape, wp.x, wp.y) {
                Some(s) => s,
                None => {
                    return None;
                },
            };
            shapes.push(LayerShape { layer: ls.layer, shape: moved });
            j = j + 1;
        }
        pins.push(
            Pin {
                id: pin.id,
                p: wp,
                padstack: Padstack {
                    id: pin.padstack.id,
                    shapes,
                    attach: pin.padstack.attach,
                },
            },
        );
        i = i + 1;
    }
    let mut keepouts: Vec<Keepout> = Vec::new();
    let n2 = c.keepouts.len();
    i = 0;
    while i < n2
        invariant
            c.wf(),
            n2 == c.keepouts@.len(),
            i <= n2,
            crate::coord_ok(dx as int),
            crate::coord_ok(dy as int),
            forall|k: int| 0 <= k < keepouts@.len() ==> (#[trigger] keepouts@[k]).shape.wf(),
        decreases n2 - i,
    {
        let ko = &c.keepouts[i];
        let moved = match translate_shape(&ko.shape.shape, dx, dy) {
            Some(s) => s,
            None => {
                return None;
            },
        };
        keepouts.push(
            Keepout { kind: ko.kind, shape: LayerShape { layer: ko.shape.layer, shape: moved } },
        );
        i = i + 1;
    }
    Some(Component { id: c.id, p, pins, keepouts })
}

} // verus!
