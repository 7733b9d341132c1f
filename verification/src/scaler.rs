//! The variation resolver: mapping user `(tag, value)` settings to
//! normalized axis coordinates through the `fvar` axis bounds and optional
//! `avar` segment maps.

use vstd::prelude::*;

use crate::fixed::{
    lemma_trunc_div_exact, lemma_trunc_div_scale, lemma_trunc_div_scale_signed, trunc_div, F2Dot14,
    Fixed,
};

verus! {

/// A four-byte ASCII identifier, stored big-endian in a 32-bit word.
pub type Tag = u32;

/// A user variation setting: an axis tag and a design-space value.
#[derive(Clone, Copy, Debug, PartialEq, Eq, Structural)]
pub struct Variation {
    /// The axis tag.
    pub tag: Tag,
    /// The user value in design space.
    pub value: Fixed,
}

/// One variation axis of the font: its tag and its minimum, default and
/// maximum design-space values.
#[derive(Clone, Copy, Debug, PartialEq, Eq, Structural)]
pub struct VariationAxis {
    /// The axis tag.
    pub tag: Tag,
    /// The minimum design-space value.
    pub min_value: Fixed,
    /// The default design-space value.
    pub default_value: Fixed,
    /// The maximum design-space value.
    pub max_value: Fixed,
}

/// The normalized coordinate of `value` on an axis with the given bounds:
/// clamp to `[min, max]`, map `[min, default, max]` piecewise linearly to
/// `[-1, 0, 1]` with truncating fixed-point division, and clamp to
/// `[-1, 1]` (all values in 16.16 bits).
pub open spec fn spec_normalize(min: int, def: int, max: int, value: int) -> int
    recommends
        min <= def <= max,
{
    let v = if value < min {
        min
    } else if value > max {
        max
    } else {
        value
    };
    let n = if v < def {
        -trunc_div((def - v) * 0x10000, def - min)
    } else if v > def {
        trunc_div((v - def) * 0x10000, max - def)
    } else {
        0
    };
    if n < -0x10000 {
        -0x10000
    } else if n > 0x10000 {
        0x10000
    } else {
        n
    }
}

impl VariationAxis {
    /// The bounds are ordered around the default.
    pub open spec fn wf(&self) -> bool {
        self.min_value@ <= self.default_value@ <= self.max_value@
    }

    /// Normalize a design-space value to `[-1, 0, 1]` against this axis's
    /// `[min, default, max]`, clamping out-of-range input.
    pub fn normalize(&self, value: Fixed) -> (r: Fixed)
        requires
            self.wf(),
        ensures
            r@ == spec_normalize(
                self.min_value@ as int,
                self.default_value@ as int,
                self.max_value@ as int,
                value@ as int,
            ),
            -0x10000 <= r@ <= 0x10000,
    {
        let min = self.min_value.to_bits();
        let def = self.default_value.to_bits();
        let max = self.max_value.to_bits();
        let v: i32 = if value.to_bits() < min {
            min
        } else if value.to_bits() > max {
            max
        } else {
            value.to_bits()
        };
        if v < def {
            let q = ratio_towards_one(def as i64 - v as i64, def as i64 - min as i64);
            Fixed::from_bits(-q)
        } else if v > def {
            let q = ratio_towards_one(v as i64 - def as i64, max as i64 - def as i64);
            Fixed::from_bits(q)
        } else {
            Fixed::from_bits(0)
        }
    }
}

/// The ratio `num / den` scaled to 16.16 bits and truncated toward zero,
/// for `0 <= num <= den`: a value between zero and one.
fn ratio_towards_one(num: i64, den: i64) -> (r: i32)
    requires
        0 < den <= 0x1_0000_0000,
        0 <= num <= den,
    ensures
        r == trunc_div(num as int * 0x10000, den as int),
        0 <= r <= 0x10000,
{
    proof {
        assert(num as int * 0x10000 <= den as int * 0x10000) by (nonlinear_arith)
            requires
                num <= den,
        ;
        assert(num as int * 0x10000 >= 0) by (nonlinear_arith)
            requires
                num >= 0,
        ;
        lemma_trunc_div_scale(0x10000, num as int, den as int);
        assert(0x10000 * (num as int) == num as int * 0x10000) by (nonlinear_arith);
    }
    let p: u64 = (num as u64) * 0x10000;
    let b: u64 = den as u64;
    let q: u64 = p / b;
    proof {
        assert(p == crate::fixed::abs_int(num as int * 0x10000));
        assert(b == crate::fixed::abs_int(den as int));
        assert(trunc_div(num as int * 0x10000, den as int) == p as int / b as int);
    }
    q as i32
}

/// Normalizing the default yields zero; the minimum yields minus one and
/// the maximum yields plus one whenever they lie strictly beyond the
/// default (all values in 16.16 bits).
pub proof fn lemma_normalize_endpoints(min: int, def: int, max: int)
    requires
        min <= def <= max,
    ensures
        spec_normalize(min, def, max, def) == 0,
        min < def ==> spec_normalize(min, def, max, min) == -0x10000,
        def < max ==> spec_normalize(min, def, max, max) == 0x10000,
{
    if min < def {
        lemma_trunc_div_exact(0x10000, def - min);
        assert((def - min) * 0x10000 == 0x10000 * (def - min)) by (nonlinear_arith);
    }
    if def < max {
        lemma_trunc_div_exact(0x10000, max - def);
        assert((max - def) * 0x10000 == 0x10000 * (max - def)) by (nonlinear_arith);
    }
}

/// One record of an `avar` segment map, pairing a from-coordinate with a
/// to-coordinate, both normalized 2.14 values.
#[derive(Clone, Copy, Debug, PartialEq, Eq, Structural)]
pub struct AxisValueMap {
    /// The coordinate being mapped.
    pub from_coordinate: F2Dot14,
    /// The coordinate it maps to.
    pub to_coordinate: F2Dot14,
}

/// The piecewise-linear remapping of `coord` through the records: outside
/// the first and last from-coordinates the mapping shifts by that record's
/// difference; between two records it interpolates linearly with truncating
/// fixed-point division; the result is clamped to `[-1, 1]`. All values in
/// 16.16 bits; an empty map is the identity (unclamped).
pub open spec fn spec_apply(entries: Seq<AxisValueMap>, coord: int) -> int {
    if entries.len() == 0 {
        coord
    } else {
        let raw = spec_apply_raw(entries, coord, 0);
        if raw < -0x10000 {
            -0x10000
        } else if raw > 0x10000 {
            0x10000
        } else {
            raw
        }
    }
}

/// The from-coordinate of record `i`, in 16.16 bits.
pub open spec fn map_from(entries: Seq<AxisValueMap>, i: int) -> int {
    entries[i].from_coordinate@ as int * 4
}

/// The to-coordinate of record `i`, in 16.16 bits.
pub open spec fn map_to(entries: Seq<AxisValueMap>, i: int) -> int {
    entries[i].to_coordinate@ as int * 4
}

/// The unclamped remapping: scan from record `i` for the segment holding
/// `coord`.
pub open spec fn spec_apply_raw(entries: Seq<AxisValueMap>, coord: int, i: int) -> int
    recommends
        0 <= i < entries.len(),
    decreases entries.len() - i,
{
    if i < 0 || i >= entries.len() {
        coord
    } else if coord <= map_from(entries, i) && i == 0 {
        coord + map_to(entries, 0) - map_from(entries, 0)
    } else if i + 1 >= entries.len() {
        coord + map_to(entries, i) - map_from(entries, i)
    } else if coord <= map_from(entries, i + 1) {
        map_to(entries, i) + trunc_div(
            (map_to(entries, i + 1) - map_to(entries, i)) * (coord - map_from(entries, i)),
            map_from(entries, i + 1) - map_from(entries, i),
        )
    } else {
        spec_apply_raw(entries, coord, i + 1)
    }
}

/// An `avar` segment map for one axis: records ordered by strictly
/// increasing from-coordinate.
pub struct SegmentMap {
    entries: Vec<AxisValueMap>,
}

impl View for SegmentMap {
    type V = Seq<AxisValueMap>;

    closed spec fn view(&self) -> Seq<AxisValueMap> {
        self.entries@
    }
}

impl SegmentMap {
    /// The from-coordinates increase strictly.
    pub open spec fn wf(&self) -> bool {
        forall|i: int, j: int|
            0 <= i < j < self@.len() ==> self@[i].from_coordinate@ < self@[j].from_coordinate@
    }

    /// A segment map over the given records, which must be ordered by
    /// strictly increasing from-coordinate.
    pub fn new(entries: Vec<AxisValueMap>) -> (r: SegmentMap)
        requires
            forall|i: int, j: int|
                0 <= i < j < entries@.len() ==> entries@[i].from_coordinate@
                    < entries@[j].from_coordinate@,
        ensures
            r@ == entries@,
            r.wf(),
    {
        SegmentMap { entries }
    }

    /// Remap a normalized coordinate through this segment map.
    pub fn apply(&self, coord: Fixed) -> (r: Fixed)
        requires
            self.wf(),
            -0x10000 <= coord@ <= 0x10000,
        ensures
            r@ == spec_apply(self@, coord@ as int),
            -0x10000 <= r@ <= 0x10000,
    {
        let n = self.entries.len();
        if n == 0 {
            return coord;
        }
        let c = coord.to_bits();
        let mut raw: i32 = 0;
        if c <= self.entries[0].from_coordinate.to_fixed().to_bits() {
            let f0 = self.entries[0].from_coordinate.to_fixed().to_bits();
            let t0 = self.entries[0].to_coordinate.to_fixed().to_bits();
            raw = c + t0 - f0;
        } else {
            let mut i: usize = 0;
            loop
                invariant
                    0 <= i < n,
                    n == self@.len(),
                    self.wf(),
                    -0x10000 <= c <= 0x10000,
                    c == coord@,
                    c > map_from(self@, i as int),
                    spec_apply_raw(self@, c as int, i as int) == spec_apply_raw(
                        self@,
                        c as int,
                        0,
                    ),
                ensures
                    raw as int == spec_apply_raw(self@, c as int, 0),
                decreases n - i,
            {
                if i + 1 >= n {
                    raw = c + self.entries[i].to_coordinate.to_fixed().to_bits()
                        - self.entries[i].from_coordinate.to_fixed().to_bits();
                    break;
                }
                let f_next = self.entries[i + 1].from_coordinate.to_fixed().to_bits();
                if c <= f_next {
                    let f_cur = self.entries[i].from_coordinate.to_fixed().to_bits();
                    let t_cur = self.entries[i].to_coordinate.to_fixed().to_bits();
                    let t_next = self.entries[i + 1].to_coordinate.to_fixed().to_bits();
                    proof {
                        lemma_trunc_div_scale_signed(
                            (t_next - t_cur) as int,
                            (c - f_cur) as int,
                            (f_next - f_cur) as int,
                        );
                    }
                    let d = Fixed::from_bits(t_next - t_cur).mul_div(
                        Fixed::from_bits(c - f_cur),
                        Fixed::from_bits(f_next - f_cur),
                    );
                    raw = t_cur + d.to_bits();
                    break;
                }
                i = i + 1;
            }
        }
        let clamped: i32 = if raw < -0x10000 {
            -0x10000
        } else if raw > 0x10000 {
            0x10000
        } else {
            raw
        };
        Fixed::from_bits(clamped)
    }
}

/// The 2.14 value nearest to a 16.16 value in `[-1, 1]`: add two and shift
/// right by two (rounding half toward positive infinity).
pub open spec fn spec_to_f2dot14(m: int) -> i16
    recommends
        -0x10000 <= m <= 0x10000,
{
    ((m + 2) / 4) as i16
}

/// Convert a clamped 16.16 value to the nearest 2.14 value.
pub fn fixed_to_f2dot14(f: Fixed) -> (r: F2Dot14)
    requires
        -0x10000 <= f@ <= 0x10000,
    ensures
        r@ == spec_to_f2dot14(f@ as int),
{
    let x: i32 = f.to_bits() + 2;
    if x >= 0 {
        let q: u32 = (x as u32) / 4;
        F2Dot14::from_bits(q as i16)
    } else {
        let m: u32 = ((-(x as i64)) as u32 + 3) / 4;
        proof {
            let n = -(x as int);
            vstd::arithmetic::div_mod::lemma_fundamental_div_mod(n + 3, 4);
            let q = (n + 3) / 4;
            vstd::arithmetic::div_mod::lemma_fundamental_div_mod_converse(
                x as int,
                4,
                -q,
                4 * q - n,
            );
        }
        F2Dot14::from_bits((-(m as i64)) as i16)
    }
}

/// The normalized coordinate an axis ends up with after walking the user
/// settings in order: each setting whose tag matches the axis normalizes
/// its value against the axis bounds, remaps it through the axis's segment
/// map when one exists, and overwrites the previous coordinate as the
/// nearest 2.14 value.
pub open spec fn spec_axis_coord(
    axis: VariationAxis,
    map: Option<Seq<AxisValueMap>>,
    vars: Seq<Variation>,
    acc: i16,
) -> i16
    decreases vars.len(),
{
    if vars.len() == 0 {
        acc
    } else {
        let v = vars[0];
        let acc2: i16 = if v.tag == axis.tag {
            let n = spec_normalize(
                axis.min_value@ as int,
                axis.default_value@ as int,
                axis.max_value@ as int,
                v.value@ as int,
            );
            let m = match map {
                Some(e) => spec_apply(e, n),
                None => n,
            };
            spec_to_f2dot14(m)
        } else {
            acc
        };
        spec_axis_coord(axis, map, vars.skip(1), acc2)
    }
}

/// The segment map for axis `i`, when the font has one.
pub open spec fn spec_map_at(maps: Option<Seq<Seq<AxisValueMap>>>, i: int) -> Option<
    Seq<AxisValueMap>,
> {
    match maps {
        Some(ms) => if 0 <= i < ms.len() {
            Some(ms[i])
        } else {
            None
        },
        None => None,
    }
}

/// The views of a vector of segment maps.
pub open spec fn spec_maps_view(maps: Option<Vec<SegmentMap>>) -> Option<Seq<Seq<AxisValueMap>>> {
    match maps {
        Some(ms) => Some(Seq::new(ms@.len(), |i: int| ms@[i]@)),
        None => None,
    }
}

/// The mutable state of the resolver: the resolved normalized coordinates
/// and the pending user settings. Setting one kind of input clears the
/// other.
pub struct Context {
    /// Normalized coordinates, one per axis.
    pub coords: Vec<F2Dot14>,
    /// Pending user variation settings.
    pub variations: Vec<Variation>,
}

impl Context {
    /// A context with no coordinates and no settings.
    pub fn new() -> (r: Context)
        ensures
            r.coords@.len() == 0,
            r.variations@.len() == 0,
    {
        Context { coords: Vec::new(), variations: Vec::new() }
    }

    /// Specify a variation with a set of normalized coordinates, clearing
    /// any user settings.
    pub fn set_coords(&mut self, coords: Vec<F2Dot14>)
        ensures
            final(self).coords == coords,
            final(self).variations@.len() == 0,
    {
        self.variations = Vec::new();
        self.coords = coords;
    }

    /// Add user variation settings, clearing any normalized coordinates.
    /// Settings accumulate: a later call appends after the earlier ones,
    /// and a later setting for the same tag wins at resolution.
    pub fn add_variations(&mut self, variations: Vec<Variation>)
        ensures
            final(self).variations@ == old(self).variations@ + variations@,
            final(self).coords@.len() == 0,
    {
        self.coords = Vec::new();
        let mut incoming = variations;
        self.variations.append(&mut incoming);
    }

    /// Resolve the pending user settings into normalized coordinates: one
    /// coordinate per axis, default zero, each matching setting normalized
    /// against its axis and remapped through the axis's segment map. With
    /// no pending settings this does nothing.
    pub fn resolve_variations(&mut self, axes: &Vec<VariationAxis>, avar_maps: &Option<
        Vec<SegmentMap>,
    >)
        requires
            forall|i: int| 0 <= i < axes@.len() ==> (#[trigger] axes@[i]).wf(),
            (*avar_maps matches Some(ms) ==> forall|i: int|
                0 <= i < ms@.len() ==> (#[trigger] ms@[i]).wf()),
        ensures
            final(self).variations == old(self).variations,
            old(self).variations@.len() == 0 ==> final(self).coords == old(self).coords,
            old(self).variations@.len() > 0 ==> {
                &&& final(self).coords@.len() == axes@.len()
                &&& (forall|i: int|
                    0 <= i < axes@.len() ==> (#[trigger] final(self).coords@[i])@
                        == spec_axis_coord(
                        axes@[i],
                        spec_map_at(spec_maps_view(*avar_maps), i),
                        old(self).variations@,
                        0i16,
                    ))
            },
    {
        if self.variations.len() == 0 {
            return ;
        }
        let axis_count = axes.len();
        let mut coords: Vec<F2Dot14> = Vec::new();
        let mut i: usize = 0;
        while i < axis_count
            invariant
                i <= axis_count,
                axis_count == axes@.len(),
                coords@.len() == i,
                forall|k: int| 0 <= k < axes@.len() ==> (#[trigger] axes@[k]).wf(),
                (*avar_maps matches Some(ms) ==> forall|k: int|
                    0 <= k < ms@.len() ==> (#[trigger] ms@[k]).wf()),
                self.variations == old(self).variations,
                self.variations@.len() > 0,
                forall|k: int|
                    0 <= k < i ==> (#[trigger] coords@[k])@ == spec_axis_coord(
                        axes@[k],
                        spec_map_at(spec_maps_view(*avar_maps), k),
                        old(self).variations@,
                        0i16,
                    ),
            decreases axis_count - i,
        {
            let axis = axes[i];
            let mut acc = F2Dot14::from_bits(0);
            let mut j: usize = 0;
            proof {
                assert(self.variations@.skip(0) =~= self.variations@);
            }
            while j < self.variations.len()
                invariant
                    j <= self.variations@.len(),
                    i < axes@.len(),
                    axis == axes@[i as int],
                    axis.wf(),
                    (*avar_maps matches Some(ms) ==> forall|k: int|
                        0 <= k < ms@.len() ==> (#[trigger] ms@[k]).wf()),
                    self.variations == old(self).variations,
                    spec_axis_coord(
                        axes@[i as int],
                        spec_map_at(spec_maps_view(*avar_maps), i as int),
                        self.variations@.skip(j as int),
                        acc@,
                    ) == spec_axis_coord(
                        axes@[i as int],
                        spec_map_at(spec_maps_view(*avar_maps), i as int),
                        self.variations@,
                        0i16,
                    ),
                decreases self.variations@.len() - j,
            {
                let v = self.variations[j];
                if v.tag == axis.tag {
                    let normalized = axis.normalize(v.value);
                    let mapped: Fixed = match avar_maps {
                        Some(maps) => {
                            if i < maps.len() {
                                maps[i].apply(normalized)
                            } else {
                                normalized
                            }
                        },
                        None => normalized,
                    };
                    acc = fixed_to_f2dot14(mapped);
                }
                j = j + 1;
                proof {
                    assert(self.variations@.skip(j - 1).skip(1) =~= self.variations@.skip(
                        j as int,
                    ));
                }
            }
            proof {
                assert(self.variations@.skip(self.variations@.len() as int) =~= Seq::<
                    Variation,
                >::empty());
            }
            coords.push(acc);
            i = i + 1;
        }
        self.coords = coords;
    }
}

} // verus!
