//! The glyph variations (`gvar`) table: the top-level table model, per-glyph
//! variation data, tuple variations, and the per-tuple scalar computation
//! over normalized axis coordinates.

use vstd::prelude::*;

use crate::fixed::{lemma_trunc_div_scale, to_fixed_spec, trunc_div, F2Dot14, Fixed};
use crate::font_data::{be_u16, be_u32, FontData, ReadError};
use crate::variations::{
    spec_deltas, spec_packed_points, spec_tuple, PackedDeltas, PackedPointNumbers,
    PackedPointNumbersIter, DeltaRunIter, SharedTuples, Tuple, TupleVariationCount,
    spec_header_size, TupleVariationHeader, TupleVariationHeaderIter,
};

verus! {

/// An unsigned 16-bit glyph index.
#[derive(Clone, Copy, Debug, PartialEq, Eq, Structural)]
pub struct GlyphId {
    index: u16,
}

impl View for GlyphId {
    type V = u16;

    closed spec fn view(&self) -> u16 {
        self.index
    }
}

impl GlyphId {
    /// The glyph with the given index.
    pub fn new(index: u16) -> (r: GlyphId)
        ensures
            r@ == index,
    {
        GlyphId { index }
    }

    /// The raw index.
    pub fn to_u16(self) -> (r: u16)
        ensures
            r == self@,
    {
        self.index
    }
}

/// The `gvar` flags word; bit 0 selects 32-bit over 16-bit entries in the
/// per-glyph offsets array.
#[derive(Clone, Copy, Debug, PartialEq, Eq, Structural)]
pub struct GvarFlags {
    bits: u16,
}

impl View for GvarFlags {
    type V = u16;

    closed spec fn view(&self) -> u16 {
        self.bits
    }
}

impl GvarFlags {
    /// Wrap a raw flags word.
    pub fn from_bits(bits: u16) -> (r: GvarFlags)
        ensures
            r@ == bits,
    {
        GvarFlags { bits }
    }

    /// True when the offsets array stores 32-bit entries.
    pub fn long_offsets(&self) -> (r: bool)
        ensures
            r == (self@ as int % 2 == 1),
    {
        self.bits % 2 == 1
    }
}

/// The value of the offsets-array entry at `idx`: the stored 32-bit value
/// with long offsets, else the stored 16-bit value doubled (short entries
/// hold half the byte offset).
pub open spec fn spec_offset_value(d: Seq<u8>, long: bool, idx: int) -> int {
    if long {
        be_u32(d, 20 + 4 * idx) as int
    } else {
        2 * be_u16(d, 20 + 2 * idx) as int
    }
}

/// True when the offsets-array entry at `idx` lies within the data.
pub open spec fn spec_offset_readable(d: Seq<u8>, long: bool, idx: int) -> bool {
    20 + (if long {
        4int
    } else {
        2int
    }) * (idx + 1) <= d.len()
}

/// An offsets-array entry: 16 or 32 bits on disk depending on the `gvar`
/// flags; a short entry stores half the actual byte offset.
#[derive(Clone, Copy, Debug, PartialEq, Eq, Structural)]
pub struct U16Or32 {
    value: u32,
}

impl View for U16Or32 {
    type V = u32;

    closed spec fn view(&self) -> u32 {
        self.value
    }
}

impl U16Or32 {
    /// The on-disk size in bytes selected by the flags.
    pub fn compute_size(args: &GvarFlags) -> (r: usize)
        ensures
            r == (if args@ as int % 2 == 1 {
                4int
            } else {
                2int
            }),
    {
        if args.long_offsets() {
            4
        } else {
            2
        }
    }

    /// Decode an entry from the front of `data`: four bytes with long
    /// offsets, else two bytes doubled when read.
    pub fn read_with_args(data: FontData, args: &GvarFlags) -> (r: Result<U16Or32, ReadError>)
        ensures
            ({
                let long = args@ as int % 2 == 1;
                let sz: int = if long {
                    4
                } else {
                    2
                };
                &&& sz <= data@.len() ==> (r matches Ok(v) && v@ == (if long {
                    be_u32(data@, 0) as int
                } else {
                    2 * be_u16(data@, 0) as int
                }))
                &&& sz > data@.len() ==> r == Err::<U16Or32, ReadError>(ReadError::OutOfBounds)
            }),
    {
        if args.long_offsets() {
            match data.read_u32(0) {
                Ok(v) => Ok(U16Or32 { value: v }),
                Err(e) => Err(e),
            }
        } else {
            match data.read_u16(0) {
                Ok(v) => Ok(U16Or32 { value: v as u32 * 2 }),
                Err(e) => Err(e),
            }
        }
    }

    /// The decoded byte offset.
    pub fn get(self) -> (r: u32)
        ensures
            r == self@,
    {
        self.value
    }
}

/// The fixed-size preamble of one glyph's variation data: the packed
/// flags-and-count word and the offset of the serialized tuple bodies.
pub struct GlyphVariationDataHeader<'a> {
    data: FontData<'a>,
    tuple_variation_count: TupleVariationCount,
    serialized_data_offset: u16,
}

impl<'a> GlyphVariationDataHeader<'a> {
    /// The bytes the header was read from.
    pub closed spec fn data_spec(&self) -> Seq<u8> {
        self.data@
    }

    /// The header fields match its bytes and the data covers them.
    pub open spec fn wf(&self) -> bool {
        &&& self.data_spec().len() >= 4
        &&& self.count_spec()@ == be_u16(self.data_spec(), 0)
        &&& self.offset_spec() == be_u16(self.data_spec(), 2)
    }

    /// The packed flags-and-count word.
    pub closed spec fn count_spec(&self) -> TupleVariationCount {
        self.tuple_variation_count
    }

    /// The stored offset of the serialized data.
    pub closed spec fn offset_spec(&self) -> u16 {
        self.serialized_data_offset
    }

    /// Read the header at the front of `data`.
    pub fn read(data: FontData<'a>) -> (r: Result<GlyphVariationDataHeader<'a>, ReadError>)
        ensures
            data@.len() >= 4 ==> (r matches Ok(h) && h.wf() && h.data_spec() == data@),
            data@.len() < 4 ==> r == Err::<GlyphVariationDataHeader<'a>, ReadError>(
                ReadError::OutOfBounds,
            ),
    {
        let count_bits = match data.read_u16(0) {
            Ok(v) => v,
            Err(e) => {
                return Err(ReadError::OutOfBounds);
            },
        };
        let offset = match data.read_u16(2) {
            Ok(v) => v,
            Err(e) => {
                return Err(ReadError::OutOfBounds);
            },
        };
        Ok(
            GlyphVariationDataHeader {
                data,
                tuple_variation_count: TupleVariationCount::from_bits(count_bits),
                serialized_data_offset: offset,
            },
        )
    }

    /// The packed flags-and-count word.
    pub fn tuple_variation_count(&self) -> (r: TupleVariationCount)
        ensures
            r == self.count_spec(),
    {
        self.tuple_variation_count
    }

    /// The stored offset of the serialized data.
    pub fn serialized_data_offset(&self) -> (r: u16)
        ensures
            r == self.offset_spec(),
    {
        self.serialized_data_offset
    }

    /// The serialized tuple bodies: everything from the stored offset on.
    pub fn serialized_data(&self) -> (r: Result<FontData<'a>, ReadError>)
        ensures
            self.offset_spec() <= self.data_spec().len() ==> (r matches Ok(d) && d@
                == self.data_spec().skip(self.offset_spec() as int)),
            self.offset_spec() > self.data_spec().len() ==> r == Err::<FontData<'a>, ReadError>(
                ReadError::OutOfBounds,
            ),
    {
        match self.data.split_off(self.serialized_data_offset as usize) {
            Some(d) => {
                proof {
                    assert(self.data@.subrange(self.offset_spec() as int, self.data@.len() as int)
                        =~= self.data_spec().skip(self.offset_spec() as int));
                }
                Ok(d)
            },
            None => Err(ReadError::OutOfBounds),
        }
    }

    /// The region holding the tuple variation headers, which follow the
    /// four fixed header bytes.
    pub fn raw_tuple_header_data(&self) -> (r: FontData<'a>)
        requires
            self.wf(),
        ensures
            r@ == self.data_spec().skip(4),
    {
        let r = match self.data.split_off(4) {
            Some(d) => d,
            None => {
                proof {
                    assert(false);
                }
                self.data
            },
        };
        proof {
            assert(self.data@.subrange(4, self.data@.len() as int) =~= self.data_spec().skip(4));
        }
        r
    }
}

/// The top-level `gvar` table: version, axis count, shared tuples, and the
/// per-glyph variation data offsets.
pub struct Gvar<'a> {
    data: FontData<'a>,
    axis_count: u16,
    shared_tuple_count: u16,
    shared_tuples_offset: u32,
    glyph_count: u16,
    flags: GvarFlags,
    glyph_variation_data_array_offset: u32,
}

impl<'a> Gvar<'a> {
    /// The table bytes.
    pub closed spec fn data_spec(&self) -> Seq<u8> {
        self.data@
    }

    /// The number of variation axes; matches `fvar`.
    pub closed spec fn axis_count_spec(&self) -> u16 {
        self.axis_count
    }

    /// The number of shared peak tuples.
    pub closed spec fn shared_tuple_count_spec(&self) -> u16 {
        self.shared_tuple_count
    }

    /// The offset of the shared tuples from the table start.
    pub closed spec fn shared_tuples_offset_spec(&self) -> u32 {
        self.shared_tuples_offset
    }

    /// The number of glyphs; the offsets array has one more entry.
    pub closed spec fn glyph_count_spec(&self) -> u16 {
        self.glyph_count
    }

    /// True when the offsets array stores 32-bit entries.
    pub closed spec fn long_offsets_spec(&self) -> bool {
        self.flags@ as int % 2 == 1
    }

    /// The offset of the glyph variation data from the table start.
    pub closed spec fn array_offset_spec(&self) -> u32 {
        self.glyph_variation_data_array_offset
    }

    /// The table fields match its bytes and the fixed header is covered.
    pub open spec fn wf(&self) -> bool {
        &&& self.data_spec().len() >= 20
        &&& be_u16(self.data_spec(), 0) == 1
        &&& self.axis_count_spec() == be_u16(self.data_spec(), 4)
        &&& self.shared_tuple_count_spec() == be_u16(self.data_spec(), 6)
        &&& self.shared_tuples_offset_spec() == be_u32(self.data_spec(), 8)
        &&& self.glyph_count_spec() == be_u16(self.data_spec(), 12)
        &&& self.long_offsets_spec() == (be_u16(self.data_spec(), 14) as int % 2 == 1)
        &&& self.array_offset_spec() == be_u32(self.data_spec(), 16)
    }

    /// Read the fixed `gvar` header at the front of `data`. The major
    /// version must be 1.
    pub fn read(data: FontData<'a>) -> (r: Result<Gvar<'a>, ReadError>)
        ensures
            data@.len() >= 20 && be_u16(data@, 0) == 1 ==> (r matches Ok(g) && g.wf()
                && g.data_spec() == data@),
            data@.len() < 20 ==> r == Err::<Gvar<'a>, ReadError>(ReadError::OutOfBounds),
            data@.len() >= 20 && be_u16(data@, 0) != 1 ==> (r matches Err(e) && e matches
                ReadError::InvalidFormat(_)),
    {
        let data_len = data.len();
        if data_len < 20 {
            return Err(ReadError::OutOfBounds);
        }
        let major = match data.read_u16(0) {
            Ok(v) => v,
            Err(_) => {
                return Err(ReadError::OutOfBounds);
            },
        };
        if major != 1 {
            return Err(ReadError::InvalidFormat("unsupported gvar major version"));
        }
        let axis_count = match data.read_u16(4) {
            Ok(v) => v,
            Err(_) => {
                return Err(ReadError::OutOfBounds);
            },
        };
        let shared_tuple_count = match data.read_u16(6) {
            Ok(v) => v,
            Err(_) => {
                return Err(ReadError::OutOfBounds);
            },
        };
        let shared_tuples_offset = match data.read_u32(8) {
            Ok(v) => v,
            Err(_) => {
                return Err(ReadError::OutOfBounds);
            },
        };
        let glyph_count = match data.read_u16(12) {
            Ok(v) => v,
            Err(_) => {
                return Err(ReadError::OutOfBounds);
            },
        };
        let flags_bits = match data.read_u16(14) {
            Ok(v) => v,
            Err(_) => {
                return Err(ReadError::OutOfBounds);
            },
        };
        let glyph_variation_data_array_offset = match data.read_u32(16) {
            Ok(v) => v,
            Err(_) => {
                return Err(ReadError::OutOfBounds);
            },
        };
        Ok(
            Gvar {
                data,
                axis_count,
                shared_tuple_count,
                shared_tuples_offset,
                glyph_count,
                flags: GvarFlags::from_bits(flags_bits),
                glyph_variation_data_array_offset,
            },
        )
    }

    /// The number of variation axes.
    pub fn axis_count(&self) -> (r: u16)
        ensures
            r == self.axis_count_spec(),
    {
        self.axis_count
    }

    /// The number of shared peak tuples.
    pub fn shared_tuple_count(&self) -> (r: u16)
        ensures
            r == self.shared_tuple_count_spec(),
    {
        self.shared_tuple_count
    }

    /// The number of glyphs covered by the offsets array.
    pub fn glyph_count(&self) -> (r: u16)
        ensures
            r == self.glyph_count_spec(),
    {
        self.glyph_count
    }

    /// The shared peak tuples stored at the table's shared-tuples offset.
    pub fn shared_tuples(&self) -> (r: Result<SharedTuples, ReadError>)
        ensures
            ({
                let d = self.data_spec();
                let off = self.shared_tuples_offset_spec() as int;
                let need = 2 * (self.shared_tuple_count_spec() as int) * (
                self.axis_count_spec() as int);
                &&& (off + need <= d.len()) ==> (r matches Ok(st) && st@.len()
                    == self.shared_tuple_count_spec() && (forall|i: int|
                    0 <= i < self.shared_tuple_count_spec() ==> st@[i] == spec_tuple(
                        d.skip(off),
                        i * 2 * (self.axis_count_spec() as int),
                        self.axis_count_spec() as nat,
                    )))
                &&& (off + need > d.len()) ==> r == Err::<SharedTuples, ReadError>(
                    ReadError::OutOfBounds,
                )
            }),
    {
        let data_len = self.data.len();
        if self.shared_tuples_offset as u64 > data_len as u64 {
            proof {
                assert(2 * (self.shared_tuple_count_spec() as int) * (
                self.axis_count_spec() as int) >= 0) by (nonlinear_arith);
            }
            return Err(ReadError::OutOfBounds);
        }
        let tuple_data = match self.data.split_off(self.shared_tuples_offset as usize) {
            Some(d) => d,
            None => {
                proof {
                    assert(false);
                }
                return Err(ReadError::OutOfBounds);
            },
        };
        proof {
            assert(tuple_data@ =~= self.data_spec().skip(self.shared_tuples_offset_spec() as int));
        }
        SharedTuples::read_with_args(tuple_data, &(self.shared_tuple_count, self.axis_count))
    }

    /// The byte range of one glyph's variation data: the table's data-array
    /// offset plus the decoded offsets-array entries at `gid` and `gid + 1`.
    /// Both entries must exist and the range must lie within the table;
    /// the end never precedes the start.
    pub fn data_for_gid(&self, gid: GlyphId) -> (r: Result<FontData<'a>, ReadError>)
        requires
            self.wf(),
        ensures
            ({
                let d = self.data_spec();
                let long = self.long_offsets_spec();
                let in_array = gid@ + 1 <= self.glyph_count_spec() && spec_offset_readable(
                    d,
                    long,
                    gid@ + 1,
                );
                let start = self.array_offset_spec() + spec_offset_value(d, long, gid@ as int);
                let end = self.array_offset_spec() + spec_offset_value(d, long, gid@ + 1);
                if in_array {
                    if start <= end <= d.len() {
                        r matches Ok(sub) && sub@ == d.subrange(start, end)
                    } else {
                        r == Err::<FontData<'a>, ReadError>(ReadError::OutOfBounds)
                    }
                } else {
                    r == Err::<FontData<'a>, ReadError>(ReadError::OutOfBounds)
                }
            }),
    {
        let start_idx = gid.to_u16() as usize;
        let end_idx = start_idx + 1;
        if end_idx > self.glyph_count as usize {
            return Err(ReadError::OutOfBounds);
        }
        let start_off = match self.offset_at(start_idx) {
            Ok(v) => v,
            Err(e) => {
                proof {
                    let szs: int = if self.long_offsets_spec() {
                        4
                    } else {
                        2
                    };
                    assert(szs * (gid@ + 2) >= szs * (gid@ + 1)) by (nonlinear_arith)
                        requires
                            szs >= 0,
                            gid@ >= 0,
                    ;
                }
                return Err(e);
            },
        };
        let end_off = match self.offset_at(end_idx) {
            Ok(v) => v,
            Err(e) => {
                return Err(e);
            },
        };
        let data_start = self.glyph_variation_data_array_offset;
        let start: u64 = data_start as u64 + start_off.get() as u64;
        let end: u64 = data_start as u64 + end_off.get() as u64;
        let data_len = self.data.len();
        if start > end || end > data_len as u64 {
            return Err(ReadError::OutOfBounds);
        }
        match self.data.slice(start as usize, end as usize) {
            Some(sub) => Ok(sub),
            None => {
                proof {
                    assert(false);
                }
                Err(ReadError::OutOfBounds)
            },
        }
    }

    /// The decoded offsets-array entry at `idx`.
    fn offset_at(&self, idx: usize) -> (r: Result<U16Or32, ReadError>)
        requires
            self.wf(),
            idx <= 0x10000,
        ensures
            ({
                let d = self.data_spec();
                let long = self.long_offsets_spec();
                &&& spec_offset_readable(d, long, idx as int) ==> (r matches Ok(v) && v@
                    == spec_offset_value(d, long, idx as int))
                &&& !spec_offset_readable(d, long, idx as int) ==> r == Err::<U16Or32, ReadError>(
                    ReadError::OutOfBounds,
                )
            }),
    {
        let ghost d = self.data_spec();
        let data_len = self.data.len();
        let sz: usize = U16Or32::compute_size(&self.flags);
        proof {
            assert(sz * idx <= 4 * 0x10000) by (nonlinear_arith)
                requires
                    sz <= 4,
                    idx <= 0x10000,
            ;
        }
        let pos: usize = 20 + sz * idx;
        let entry_data = match self.data.split_off(pos) {
            Some(sub) => sub,
            None => {
                proof {
                    assert(sz * (idx + 1) == sz * idx + sz) by (nonlinear_arith);
                    assert(sz * idx >= 0) by (nonlinear_arith)
                        requires
                            sz >= 0,
                            idx >= 0,
                    ;
                }
                return Err(ReadError::OutOfBounds);
            },
        };
        proof {
            assert(entry_data@ =~= d.skip(pos as int));
            assert(sz * (idx + 1) == sz * idx + sz) by (nonlinear_arith);
            if sz <= entry_data@.len() {
                if self.long_offsets_spec() {
                    assert(be_u32(entry_data@, 0) == be_u32(d, pos as int)) by {
                        assert(entry_data@[0] == d[pos as int]);
                        assert(entry_data@[1] == d[pos as int + 1]);
                        assert(entry_data@[2] == d[pos as int + 2]);
                        assert(entry_data@[3] == d[pos as int + 3]);
                    }
                } else {
                    assert(be_u16(entry_data@, 0) == be_u16(d, pos as int)) by {
                        assert(entry_data@[0] == d[pos as int]);
                        assert(entry_data@[1] == d[pos as int + 1]);
                    }
                }
            }
        }
        U16Or32::read_with_args(entry_data, &self.flags)
    }

    /// The variation data for a specific glyph: the glyph's byte range
    /// decoded into headers, shared point numbers, and the serialized body.
    pub fn glyph_variation_data(&self, gid: GlyphId) -> (r: Result<
        GlyphVariationData<'a>,
        ReadError,
    >)
        requires
            self.wf(),
        ensures
            ({
                let d = self.data_spec();
                let long = self.long_offsets_spec();
                let axis = self.axis_count_spec() as int;
                let stc = self.shared_tuple_count_spec() as int;
                let in_array = gid@ + 1 <= self.glyph_count_spec() && spec_offset_readable(
                    d,
                    long,
                    gid@ + 1,
                );
                let start = self.array_offset_spec() + spec_offset_value(d, long, gid@ as int);
                let end = self.array_offset_spec() + spec_offset_value(d, long, gid@ + 1);
                let shared_ok = self.shared_tuples_offset_spec() + 2 * stc * axis <= d.len();
                let range_ok = in_array && start <= end <= d.len();
                let sub = d.subrange(start, end);
                let cnt_ok = sub.len() >= 4;
                let off = be_u16(sub, 2) as int;
                let off_ok = cnt_ok && off <= sub.len();
                let pp_ok = off_ok && (be_u16(sub, 0) >= 0x8000 ==> spec_packed_points(
                    sub.skip(off),
                ) is Some);
                &&& (r is Ok <==> shared_ok && range_ok && cnt_ok && off_ok && pp_ok)
                &&& (r is Err ==> r == Err::<GlyphVariationData<'a>, ReadError>(
                    ReadError::OutOfBounds,
                ))
                &&& (r matches Ok(g) ==> {
                    &&& g.axis_count_spec() == self.axis_count_spec()
                    &&& g.shared_view().len() == stc
                    &&& (forall|i: int|
                        0 <= i < stc ==> g.shared_view()[i] == spec_tuple(
                            d.skip(self.shared_tuples_offset_spec() as int),
                            i * 2 * axis,
                            self.axis_count_spec() as nat,
                        ))
                    &&& g.count_word() == be_u16(sub, 0)
                    &&& g.header_data_spec() == sub.skip(4)
                    &&& (be_u16(sub, 0) >= 0x8000 ==> (spec_packed_points(sub.skip(off))
                        matches Some(pp) && g.shared_points_view() == Some(pp.0)
                        && g.serialized_spec() == sub.skip(off).skip(pp.1)))
                    &&& (be_u16(sub, 0) < 0x8000 ==> g.shared_points_view() is None
                        && g.serialized_spec() == sub.skip(off))
                })
            }),
    {
        let shared_tuples = match self.shared_tuples() {
            Ok(st) => st,
            Err(e) => {
                return Err(e);
            },
        };
        let axis_count = self.axis_count();
        let data = match self.data_for_gid(gid) {
            Ok(d) => d,
            Err(e) => {
                return Err(e);
            },
        };
        GlyphVariationData::new(data, axis_count, shared_tuples)
    }
}

/// One glyph's variation data: the tuple count word, the header region, the
/// optional shared point numbers, and the serialized tuple bodies.
pub struct GlyphVariationData<'a> {
    axis_count: u16,
    shared_tuples: SharedTuples,
    shared_point_numbers: Option<PackedPointNumbers>,
    tuple_count: TupleVariationCount,
    header_data: FontData<'a>,
    serialized_data: FontData<'a>,
}

impl<'a> GlyphVariationData<'a> {
    /// The number of variation axes.
    pub closed spec fn axis_count_spec(&self) -> u16 {
        self.axis_count
    }

    /// The shared peak tuples of the enclosing table.
    pub closed spec fn shared_view(&self) -> Seq<Seq<i16>> {
        self.shared_tuples@
    }

    /// The shared point numbers, when the count word announces them.
    pub closed spec fn shared_points_view(&self) -> Option<Seq<u16>> {
        match self.shared_point_numbers {
            Some(p) => Some(p@),
            None => None,
        }
    }

    /// The packed flags-and-count word.
    pub closed spec fn count_word(&self) -> u16 {
        self.tuple_count@
    }

    /// The bytes of the tuple variation headers.
    pub closed spec fn header_data_spec(&self) -> Seq<u8> {
        self.header_data@
    }

    /// The serialized tuple bodies, after any shared point numbers.
    pub closed spec fn serialized_spec(&self) -> Seq<u8> {
        self.serialized_data@
    }

    /// Build the per-glyph view: read the header, slice off the header
    /// region and the serialized region, and decode the shared point
    /// numbers when the count word announces them. A count word that
    /// announces shared point numbers the data does not hold is an error.
    pub fn new(data: FontData<'a>, axis_count: u16, shared_tuples: SharedTuples) -> (r: Result<
        GlyphVariationData<'a>,
        ReadError,
    >)
        ensures
            ({
                let d = data@;
                let cnt = be_u16(d, 0);
                let off = be_u16(d, 2) as int;
                let cnt_ok = d.len() >= 4;
                let off_ok = cnt_ok && off <= d.len();
                let pp_ok = off_ok && (cnt >= 0x8000 ==> spec_packed_points(d.skip(off)) is Some);
                &&& (r is Ok <==> pp_ok)
                &&& (r is Err ==> r == Err::<GlyphVariationData<'a>, ReadError>(
                    ReadError::OutOfBounds,
                ))
                &&& (r matches Ok(g) ==> {
                    &&& g.axis_count_spec() == axis_count
                    &&& g.shared_view() == shared_tuples@
                    &&& g.count_word() == cnt
                    &&& g.header_data_spec() == d.skip(4)
                    &&& (cnt >= 0x8000 ==> (spec_packed_points(d.skip(off)) matches Some(pp)
                        && g.shared_points_view() == Some(pp.0) && g.serialized_spec() == d.skip(
                        off,
                    ).skip(pp.1)))
                    &&& (cnt < 0x8000 ==> g.shared_points_view() is None && g.serialized_spec()
                        == d.skip(off))
                })
            }),
    {
        let header = match GlyphVariationDataHeader::read(data) {
            Ok(h) => h,
            Err(e) => {
                return Err(ReadError::OutOfBounds);
            },
        };
        let header_data = header.raw_tuple_header_data();
        let count = header.tuple_variation_count();
        let serialized = match header.serialized_data() {
            Ok(s) => s,
            Err(e) => {
                return Err(ReadError::OutOfBounds);
            },
        };
        let shared_point_numbers: Option<PackedPointNumbers>;
        let serialized_data: FontData<'a>;
        if count.shared_point_numbers() {
            match PackedPointNumbers::split_off_front(serialized) {
                Ok((packed, rest)) => {
                    shared_point_numbers = Some(packed);
                    serialized_data = rest;
                },
                Err(e) => {
                    return Err(ReadError::OutOfBounds);
                },
            }
        } else {
            shared_point_numbers = None;
            serialized_data = serialized;
        }
        Ok(
            GlyphVariationData {
                tuple_count: count,
                axis_count,
                shared_tuples,
                shared_point_numbers,
                header_data,
                serialized_data,
            },
        )
    }

    /// An iterator over the variation tuples of this glyph, pairing each
    /// header with its slice of the serialized body.
    pub fn tuples(&self) -> (r: TupleVariationIter<'a>)
        ensures
            r.wf(),
            r.position() == 0,
            r.count_spec() == self.count_word() as int % 0x1000,
            r.axis_spec() == self.axis_count_spec(),
            r.shared_view() == self.shared_view(),
            r.shared_points_view() == self.shared_points_view(),
            r.body_view() == self.serialized_spec(),
            r.headers_left() == self.count_word() as int % 0x1000,
            r.header_bytes() == self.header_data_spec(),
    {
        let count = self.tuple_count.count() as usize;
        TupleVariationIter {
            current: 0,
            tuple_count: count,
            axis_count: self.axis_count,
            shared_tuples: self.shared_tuples.duplicate(),
            shared_point_numbers: match &self.shared_point_numbers {
                Some(p) => Some(p.duplicate()),
                None => None,
            },
            header_iter: TupleVariationHeaderIter::new(self.header_data, count, self.axis_count),
            serialized_data: self.serialized_data,
        }
    }

    /// The number of variation axes.
    pub fn axis_count(&self) -> (r: u16)
        ensures
            r == self.axis_count_spec(),
    {
        self.axis_count
    }

    /// The number of tuple variations for this glyph.
    pub fn tuple_count(&self) -> (r: usize)
        ensures
            r == self.count_word() as int % 0x1000,
    {
        self.tuple_count.count() as usize
    }
}

/// An iterator over the tuple variations of one glyph, walking the header
/// region in lockstep with the serialized body region.
pub struct TupleVariationIter<'a> {
    current: usize,
    tuple_count: usize,
    axis_count: u16,
    shared_tuples: SharedTuples,
    shared_point_numbers: Option<PackedPointNumbers>,
    header_iter: TupleVariationHeaderIter<'a>,
    serialized_data: FontData<'a>,
}

impl<'a> TupleVariationIter<'a> {
    /// The header cursor agrees with the iterator on the axis count and
    /// the number of headers.
    pub closed spec fn wf(&self) -> bool {
        &&& self.header_iter.axes() == self.axis_count
        &&& self.header_iter.header_count() == self.tuple_count as int
        &&& self.header_iter.position() == self.current as int
    }

    /// How many tuples have been yielded.
    pub closed spec fn position(&self) -> int {
        self.current as int
    }

    /// The total number of tuples.
    pub closed spec fn count_spec(&self) -> int {
        self.tuple_count as int
    }

    /// The number of variation axes.
    pub closed spec fn axis_spec(&self) -> u16 {
        self.axis_count
    }

    /// The shared peak tuples.
    pub closed spec fn shared_view(&self) -> Seq<Seq<i16>> {
        self.shared_tuples@
    }

    /// The shared point numbers, if any.
    pub closed spec fn shared_points_view(&self) -> Option<Seq<u16>> {
        match self.shared_point_numbers {
            Some(p) => Some(p@),
            None => None,
        }
    }

    /// The remaining serialized body bytes.
    pub closed spec fn body_view(&self) -> Seq<u8> {
        self.serialized_data@
    }

    /// The headers the header cursor has not yielded yet.
    pub closed spec fn headers_left(&self) -> int {
        self.header_iter.header_count() - self.header_iter.position()
    }

    /// The remaining bytes of the header region.
    pub closed spec fn header_bytes(&self) -> Seq<u8> {
        self.header_iter.remaining()
    }

    /// Parse the next tuple variation, or `None` after the last one. A
    /// truncated header or body surfaces as `OutOfBounds`; a tuple whose
    /// private-point-numbers flag is clear inside data that has no shared
    /// point numbers is malformed and surfaces as `MalformedData`. A
    /// yielded tuple consumes exactly its header's `variation_data_size`
    /// bytes from the body region; its point numbers are its own when the
    /// header's private-point-numbers flag is set and the shared ones
    /// otherwise, and its deltas decode from what remains of its slice of
    /// the body.
    pub fn next_tuple(&mut self) -> (r: Option<Result<TupleVariation, ReadError>>)
        requires
            old(self).wf(),
        ensures
            final(self).wf(),
            final(self).axis_spec() == old(self).axis_spec(),
            final(self).shared_view() == old(self).shared_view(),
            final(self).shared_points_view() == old(self).shared_points_view(),
            final(self).count_spec() == old(self).count_spec(),
            old(self).position() >= old(self).count_spec() ==> r is None && *final(self) == *old(
                self,
            ),
            r is Some ==> final(self).position() == old(self).position() + 1,
            ({
                let hb = old(self).header_bytes();
                let axis = old(self).axis_spec();
                let hs = spec_header_size(hb, axis);
                let ti = be_u16(hb, 2);
                let size = be_u16(hb, 0) as int;
                let consumed = old(self).body_view().take(size);
                let started = old(self).position() < old(self).count_spec();
                &&& (started && hs <= hb.len() && size <= old(self).body_view().len() && (
                ti as int % 0x4000 >= 0x2000 ==> spec_packed_points(consumed) is Some) && (
                ti as int % 0x4000 < 0x2000 ==> old(self).shared_points_view() is Some)) ==> (
                r matches Some(inner) && inner is Ok)
                &&& (started && hs > hb.len()) ==> r == Some(
                    Err::<TupleVariation, ReadError>(ReadError::OutOfBounds),
                )
                &&& (started && hs <= hb.len() && size > old(self).body_view().len()) ==> r
                    == Some(Err::<TupleVariation, ReadError>(ReadError::OutOfBounds))
                &&& (started && hs <= hb.len() && size <= old(self).body_view().len()
                    && ti as int % 0x4000 >= 0x2000 && spec_packed_points(consumed) is None) ==> r
                    == Some(Err::<TupleVariation, ReadError>(ReadError::OutOfBounds))
                &&& (started && hs <= hb.len() && size <= old(self).body_view().len()
                    && ti as int % 0x4000 < 0x2000 && old(self).shared_points_view() is None) ==> (
                r matches Some(inner) && inner matches Err(e) && e matches ReadError::MalformedData(
                    _,
                ))
            }),
            r matches Some(Ok(tv)) ==> ({
                let size = tv.size_spec() as int;
                let consumed = old(self).body_view().take(size);
                let hb = old(self).header_bytes();
                let axis = old(self).axis_spec();
                let hs = spec_header_size(hb, axis);
                let ti = be_u16(hb, 2);
                let peak_len: int = if ti >= 0x8000 {
                    2 * axis as int
                } else {
                    0
                };
                &&& hs <= hb.len()
                &&& final(self).header_bytes() == hb.skip(hs)
                &&& tv.size_spec() == be_u16(hb, 0)
                &&& tv.index_bits() == ti
                &&& tv.embedded_peak_view() == (if ti >= 0x8000 {
                    Some(spec_tuple(hb, 4, axis as nat))
                } else {
                    Option::<Seq<i16>>::None
                })
                &&& tv.inter_start_view() == (if ti as int % 0x8000 >= 0x4000 {
                    Some(spec_tuple(hb, 4 + peak_len, axis as nat))
                } else {
                    Option::<Seq<i16>>::None
                })
                &&& tv.inter_end_view() == (if ti as int % 0x8000 >= 0x4000 {
                    Some(spec_tuple(hb, 4 + peak_len + 2 * axis as int, axis as nat))
                } else {
                    Option::<Seq<i16>>::None
                })
                &&& tv.axis_count_spec() == old(self).axis_spec()
                &&& tv.shared_view() == old(self).shared_view()
                &&& size <= old(self).body_view().len()
                &&& final(self).body_view() == old(self).body_view().skip(size)
                &&& (tv.index_bits() as int % 0x4000 >= 0x2000 ==> (spec_packed_points(consumed)
                    matches Some(pp) && tv.points_view() == pp.0 && tv.deltas_view() == spec_deltas(
                    consumed.skip(pp.1),
                )))
                &&& (tv.index_bits() as int % 0x4000 < 0x2000 ==> (old(self).shared_points_view()
                    matches Some(sp) && tv.points_view() == sp && tv.deltas_view() == spec_deltas(
                    consumed,
                )))
            }),
    {
        if self.current >= self.tuple_count {
            return None;
        }
        self.current = self.current + 1;
        let header = match self.header_iter.next() {
            None => {
                proof {
                    assert(false);
                }  // the header cursor walks in lockstep with the count
                return None;
            },
            Some(Err(e)) => {
                return Some(Err(e));
            },
            Some(Ok(h)) => h,
        };
        let data_len = header.variation_data_size() as usize;
        let var_data = match self.serialized_data.take_up_to(data_len) {
            Some(v) => v,
            None => {
                return Some(Err(ReadError::OutOfBounds));
            },
        };
        let point_numbers: PackedPointNumbers;
        let deltas_data: FontData<'a>;
        if header.tuple_index().private_point_numbers() {
            match PackedPointNumbers::split_off_front(var_data) {
                Ok((packed, rest)) => {
                    point_numbers = packed;
                    deltas_data = rest;
                },
                Err(e) => {
                    return Some(Err(e));
                },
            }
        } else {
            match &self.shared_point_numbers {
                Some(p) => {
                    point_numbers = p.duplicate();
                    deltas_data = var_data;
                },
                None => {
                    // a tuple that reuses shared point numbers when the
                    // glyph has none is malformed
                    return Some(
                        Err(
                            ReadError::MalformedData(
                                "tuple reuses shared point numbers the glyph does not have",
                            ),
                        ),
                    );
                },
            }
        }
        proof {
            assert(old(self).body_view().subrange(0, data_len as int) =~= old(
                self,
            ).body_view().take(data_len as int));
            assert(old(self).body_view().subrange(data_len as int, old(self).body_view().len() as int)
                =~= old(self).body_view().skip(data_len as int));
        }
        Some(
            Ok(
                TupleVariation {
                    axis_count: self.axis_count,
                    header,
                    shared_tuples: self.shared_tuples.duplicate(),
                    packed_deltas: PackedDeltas::new(deltas_data),
                    point_numbers,
                },
            ),
        )
    }
}

/// A single tuple variation: its header, the shared tuples it may refer to,
/// its decoded point numbers, and its decoded deltas.
pub struct TupleVariation {
    axis_count: u16,
    header: TupleVariationHeader,
    shared_tuples: SharedTuples,
    packed_deltas: PackedDeltas,
    point_numbers: PackedPointNumbers,
}

/// The resolved peak tuple: the shared tuple named by the low 12 bits when
/// no peak is embedded (the shared reference wins), else the embedded peak,
/// else the empty tuple.
pub open spec fn spec_peak(bits: u16, shared: Seq<Seq<i16>>, embedded: Option<Seq<i16>>) -> Seq<
    i16,
> {
    if bits < 0x8000 {
        let idx = bits as int % 0x1000;
        if idx < shared.len() {
            shared[idx]
        } else {
            match embedded {
                Some(t) => t,
                None => Seq::empty(),
            }
        }
    } else {
        match embedded {
            Some(t) => t,
            None => Seq::empty(),
        }
    }
}

impl TupleVariation {
    /// The number of variation axes.
    pub closed spec fn axis_count_spec(&self) -> u16 {
        self.axis_count
    }

    /// The header's packed flags-and-index word.
    pub closed spec fn index_bits(&self) -> u16 {
        self.header.index_bits()
    }

    /// The header's stored body size in bytes.
    pub closed spec fn size_spec(&self) -> u16 {
        self.header.size_spec()
    }

    /// The embedded peak tuple, if the header carries one.
    pub closed spec fn embedded_peak_view(&self) -> Option<Seq<i16>> {
        self.header.peak_spec()
    }

    /// The intermediate start tuple, if the header carries one.
    pub closed spec fn inter_start_view(&self) -> Option<Seq<i16>> {
        self.header.inter_start_spec()
    }

    /// The intermediate end tuple, if the header carries one.
    pub closed spec fn inter_end_view(&self) -> Option<Seq<i16>> {
        self.header.inter_end_spec()
    }

    /// The shared peak tuples of the enclosing table.
    pub closed spec fn shared_view(&self) -> Seq<Seq<i16>> {
        self.shared_tuples@
    }

    /// The decoded point numbers this tuple's deltas apply to.
    pub closed spec fn points_view(&self) -> Seq<u16> {
        self.point_numbers@
    }

    /// The decoded delta values, x deltas first, then y deltas.
    pub closed spec fn deltas_view(&self) -> Seq<i16> {
        self.packed_deltas@
    }

    /// The resolved peak tuple.
    pub open spec fn peak_view(&self) -> Seq<i16> {
        spec_peak(self.index_bits(), self.shared_view(), self.embedded_peak_view())
    }

    /// True when this tuple provides deltas for all points in the glyph.
    pub fn all_points(&self) -> (r: bool)
        ensures
            r == (self.points_view().len() == 0),
    {
        self.point_numbers.count() == 0
    }

    /// The resolved peak tuple for this variation.
    pub fn peak(&self) -> (r: Tuple)
        ensures
            r@ == self.peak_view(),
    {
        match self.header.tuple_index().tuple_records_index() {
            Some(idx) => match self.shared_tuples.get(idx as usize) {
                Some(t) => t,
                None => match self.header.peak_tuple() {
                    Some(t) => t,
                    None => Tuple::empty(),
                },
            },
            None => match self.header.peak_tuple() {
                Some(t) => t,
                None => Tuple::empty(),
            },
        }
    }

    /// Compute the scalar for this tuple at a point in design space.
    ///
    /// `coords` may be shorter than the axis count; missing trailing axes
    /// are treated as zero. Returns `None` when the tuple is not applicable
    /// at the given coordinates. A returned scalar always lies in [0, 1].
    pub fn compute_scalar(&self, coords: &[F2Dot14]) -> (r: Option<Fixed>)
        ensures
            ({
                let s = spec_compute_scalar(
                    self.peak_view(),
                    self.inter_start_view(),
                    self.inter_end_view(),
                    spec_coords(coords@),
                    self.axis_count_spec() as int,
                );
                match s {
                    Some(v) => r matches Some(f) && f@ == v && 0 <= v <= 0x10000,
                    None => r is None,
                }
            }),
    {
        let ghost peakv = self.peak_view();
        let ghost sv = self.inter_start_view();
        let ghost ev = self.inter_end_view();
        let ghost cv = spec_coords(coords@);
        let mut scalar = Fixed::from_bits(0x10000);
        let peak = self.peak();
        let inter_start = self.header.intermediate_start_tuple();
        let inter_end = self.header.intermediate_end_tuple();
        let n = self.axis_count;
        if peak.len() != n as usize {
            return None;
        }
        let mut i: usize = 0;
        while i < n as usize
            invariant
                i <= n,
                0 <= scalar@ <= 0x10000,
                peak@ == peakv,
                peakv == self.peak_view(),
                sv == self.inter_start_view(),
                ev == self.inter_end_view(),
                n == self.axis_count_spec(),
                peakv.len() == n,
                cv == spec_coords(coords@),
                (match inter_start {
                    Some(t) => sv matches Some(x) && x == t@,
                    None => sv is None,
                }),
                (match inter_end {
                    Some(t) => ev matches Some(x) && x == t@,
                    None => ev is None,
                }),
                spec_scalar_axes(peakv, sv, ev, cv, i as int, n as int, scalar@ as int)
                    == spec_scalar_axes(peakv, sv, ev, cv, 0, n as int, 0x10000),
            decreases n - i,
        {
            let coord: i32 = slice_coord(coords, i);
            let peak_i: i32 = tuple_coord(&peak, i);
            let ghost acc0 = scalar@ as int;
            if peak_i == 0 || peak_i == coord {
                i = i + 1;
                continue;
            }
            if coord == 0 {
                proof {
                    assert(spec_scalar_axes(peakv, sv, ev, cv, i as int, n as int, scalar@ as int)
                        is None);
                }
                return None;
            }
            let use_intermediate: bool = match (&inter_start, &inter_end) {
                (Some(_), Some(_)) => true,
                _ => false,
            };
            if use_intermediate {
                let start: i32 = match &inter_start {
                    Some(t) => tuple_coord(t, i),
                    None => 0,
                };
                let end: i32 = match &inter_end {
                    Some(t) => tuple_coord(t, i),
                    None => 0,
                };
                if coord <= start || coord >= end {
                    proof {
                        assert(spec_scalar_axes(
                            peakv,
                            sv,
                            ev,
                            cv,
                            i as int,
                            n as int,
                            scalar@ as int,
                        ) is None);
                    }
                    return None;
                }
                if coord < peak_i {
                    proof {
                        lemma_trunc_div_scale(acc0, coord - start, peak_i - start);
                    }
                    scalar = scalar.mul_div(
                        Fixed::from_bits(coord - start),
                        Fixed::from_bits(peak_i - start),
                    );
                } else {
                    proof {
                        lemma_trunc_div_scale(acc0, end - coord, end - peak_i);
                    }
                    scalar = scalar.mul_div(
                        Fixed::from_bits(end - coord),
                        Fixed::from_bits(end - peak_i),
                    );
                }
            } else {
                let lo: i32 = if peak_i < 0 {
                    peak_i
                } else {
                    0
                };
                let hi: i32 = if peak_i > 0 {
                    peak_i
                } else {
                    0
                };
                if coord < lo || coord > hi {
                    proof {
                        assert(spec_scalar_axes(
                            peakv,
                            sv,
                            ev,
                            cv,
                            i as int,
                            n as int,
                            scalar@ as int,
                        ) is None);
                    }
                    return None;
                }
                proof {
                    assert(coord as int * peak_i as int >= 0) by (nonlinear_arith)
                        requires
                            (peak_i > 0 && 0 <= coord <= peak_i) || (peak_i < 0 && peak_i <= coord
                                <= 0),
                    ;
                    lemma_trunc_div_scale(acc0, coord as int, peak_i as int);
                }
                scalar = scalar.mul_div(Fixed::from_bits(coord), Fixed::from_bits(peak_i));
            }
            i = i + 1;
        }
        Some(scalar)
    }

    /// An iterator over this tuple's per-point deltas, pairing each point
    /// number with its x delta from the first half of the delta stream and
    /// its y delta from the second half. Scaling is not applied.
    pub fn deltas(&self) -> (r: DeltaIter)
        ensures
            r.wf(),
            r.deltas_view() == self.deltas_view(),
            r.points_view() == self.points_view(),
            r.position() == 0,
    {
        let total = self.packed_deltas.count() / 2;
        let x_iter = self.packed_deltas.iter();
        let mut y_iter = self.packed_deltas.iter();
        let mut skipped: usize = 0;
        while skipped < total
            invariant
                skipped <= total,
                total == self.deltas_view().len() as int / 2,
                y_iter.deltas() == self.deltas_view(),
                y_iter.position() == skipped,
            decreases total - skipped,
        {
            let discard = y_iter.next();
            skipped = skipped + 1;
        }
        DeltaIter {
            cur: 0,
            total,
            points: self.point_numbers.iter(),
            x_iter,
            y_iter,
        }
    }
}

/// The fixed-point coordinate of axis `i` in `s`: the stored 2.14 value as
/// 16.16, or zero past the end of `s`.
pub open spec fn coord_at(s: Seq<i16>, i: int) -> int {
    to_fixed_spec(
        if 0 <= i < s.len() {
            s[i]
        } else {
            0i16
        },
    )
}

/// The views of a slice of normalized coordinates.
pub open spec fn spec_coords(cs: Seq<F2Dot14>) -> Seq<i16> {
    Seq::new(cs.len(), |i: int| cs[i]@)
}

/// The scalar contribution of axes `i` to `n`, starting from the partial
/// product `acc` (16.16 bits). Per axis: a zero or matching peak
/// contributes factor one; a zero coordinate under a non-zero peak makes
/// the tuple inapplicable; with an intermediate region the factor is a
/// linear ramp between start and peak or peak and end, open at both ends;
/// otherwise the coordinate must lie between zero and the peak and the
/// factor is `coord / peak`. Each factor is applied by a truncated
/// fixed-point multiply-divide.
pub open spec fn spec_scalar_axes(
    peak: Seq<i16>,
    istart: Option<Seq<i16>>,
    iend: Option<Seq<i16>>,
    coords: Seq<i16>,
    i: int,
    n: int,
    acc: int,
) -> Option<int>
    decreases n - i,
{
    if i >= n {
        Some(acc)
    } else {
        let c = coord_at(coords, i);
        let p = coord_at(peak, i);
        if p == 0 || p == c {
            spec_scalar_axes(peak, istart, iend, coords, i + 1, n, acc)
        } else if c == 0 {
            None
        } else if istart is Some && iend is Some {
            let s = coord_at(istart.unwrap(), i);
            let e = coord_at(iend.unwrap(), i);
            if c <= s || c >= e {
                None
            } else if c < p {
                spec_scalar_axes(peak, istart, iend, coords, i + 1, n, trunc_div(acc * (c - s), p - s))
            } else {
                spec_scalar_axes(peak, istart, iend, coords, i + 1, n, trunc_div(acc * (e - c), e - p))
            }
        } else {
            let lo: int = if p < 0 {
                p
            } else {
                0
            };
            let hi: int = if p > 0 {
                p
            } else {
                0
            };
            if c < lo || c > hi {
                None
            } else {
                spec_scalar_axes(peak, istart, iend, coords, i + 1, n, trunc_div(acc * c, p))
            }
        }
    }
}

/// The scalar for a whole tuple: the product over all axes starting from
/// one, or `None` when the peak's length does not match the axis count or
/// some axis makes the tuple inapplicable.
pub open spec fn spec_compute_scalar(
    peak: Seq<i16>,
    istart: Option<Seq<i16>>,
    iend: Option<Seq<i16>>,
    coords: Seq<i16>,
    axis_count: int,
) -> Option<int> {
    if peak.len() != axis_count {
        None
    } else {
        spec_scalar_axes(peak, istart, iend, coords, 0, axis_count, 0x10000)
    }
}

/// Whenever the scalar computation starts from a partial product in
/// [0, 1], its result also lies in [0, 1] (as 16.16 bits).
pub proof fn lemma_scalar_axes_range(
    peak: Seq<i16>,
    istart: Option<Seq<i16>>,
    iend: Option<Seq<i16>>,
    coords: Seq<i16>,
    i: int,
    n: int,
    acc: int,
)
    requires
        0 <= acc <= 0x10000,
    ensures
        spec_scalar_axes(peak, istart, iend, coords, i, n, acc) matches Some(s) ==> 0 <= s
            <= 0x10000,
    decreases n - i,
{
    if i < n {
        let c = coord_at(coords, i);
        let p = coord_at(peak, i);
        if p == 0 || p == c {
            lemma_scalar_axes_range(peak, istart, iend, coords, i + 1, n, acc);
        } else if c == 0 {
        } else if istart is Some && iend is Some {
            let s = coord_at(istart.unwrap(), i);
            let e = coord_at(iend.unwrap(), i);
            if c <= s || c >= e {
            } else if c < p {
                lemma_trunc_div_scale(acc, c - s, p - s);
                lemma_scalar_axes_range(peak, istart, iend, coords, i + 1, n, trunc_div(acc * (c - s), p - s));
            } else {
                lemma_trunc_div_scale(acc, e - c, e - p);
                lemma_scalar_axes_range(peak, istart, iend, coords, i + 1, n, trunc_div(acc * (e - c), e - p));
            }
        } else {
            let lo: int = if p < 0 {
                p
            } else {
                0
            };
            let hi: int = if p > 0 {
                p
            } else {
                0
            };
            if c < lo || c > hi {
            } else {
                assert(c * p >= 0) by (nonlinear_arith)
                    requires
                        (p > 0 && 0 <= c <= p) || (p < 0 && p <= c <= 0),
                ;
                lemma_trunc_div_scale(acc, c, p);
                lemma_scalar_axes_range(peak, istart, iend, coords, i + 1, n, trunc_div(acc * c, p));
            }
        }
    }
}

/// A returned scalar always lies in [0, 1] (as 16.16 bits).
pub proof fn lemma_scalar_in_unit_range(
    peak: Seq<i16>,
    istart: Option<Seq<i16>>,
    iend: Option<Seq<i16>>,
    coords: Seq<i16>,
    axis_count: int,
)
    ensures
        spec_compute_scalar(peak, istart, iend, coords, axis_count) matches Some(s) ==> 0 <= s
            <= 0x10000,
{
    if peak.len() == axis_count {
        lemma_scalar_axes_range(peak, istart, iend, coords, 0, axis_count, 0x10000);
    }
}

/// Delta information for a single point or component in a glyph.
#[derive(Clone, Copy, Debug, PartialEq, Eq, Structural)]
pub struct GlyphDelta {
    /// The point or component index.
    pub position: u16,
    /// The x delta.
    pub x_delta: i16,
    /// The y delta.
    pub y_delta: i16,
}

/// The sequence of per-point deltas carried by a tuple: element `i` pairs
/// the `i`-th point number (or `i` itself when the point numbers stand for
/// all points) with the `i`-th x delta and the `i`-th y delta, where the x
/// deltas fill the first half of the flat delta stream and the y deltas the
/// second. The sequence ends at the shorter of the point-number stream and
/// half the delta stream.
pub open spec fn spec_glyph_deltas(points: Seq<u16>, deltas: Seq<i16>) -> Seq<GlyphDelta> {
    let total = deltas.len() as int / 2;
    let n: int = if points.len() == 0 {
        total
    } else if points.len() < total {
        points.len() as int
    } else {
        total
    };
    Seq::new(
        n as nat,
        |i: int|
            GlyphDelta {
                position: if points.len() == 0 {
                    (i % 0x10000) as u16
                } else {
                    points[i]
                },
                x_delta: deltas[i],
                y_delta: deltas[total + i],
            },
    )
}

/// When the delta stream holds exactly two values per point, the paired
/// sequence covers every point: its length equals the number of points and
/// element `i` carries point `i`'s x and y deltas.
pub proof fn lemma_deltas_pair_each_point(points: Seq<u16>, deltas: Seq<i16>)
    requires
        points.len() > 0,
        deltas.len() == 2 * points.len(),
    ensures
        spec_glyph_deltas(points, deltas).len() == points.len(),
        forall|i: int|
            0 <= i < points.len() ==> spec_glyph_deltas(points, deltas)[i] == (GlyphDelta {
                position: points[i],
                x_delta: deltas[i],
                y_delta: deltas[points.len() + i],
            }),
{
    assert(deltas.len() as int / 2 == points.len());
}

/// An iterator over the per-point deltas of one tuple variation.
pub struct DeltaIter {
    cur: usize,
    total: usize,
    points: PackedPointNumbersIter,
    x_iter: DeltaRunIter,
    y_iter: DeltaRunIter,
}

impl DeltaIter {
    /// The two delta cursors walk one stream, split in half; the point
    /// cursor walks in lockstep with the x cursor.
    pub closed spec fn wf(&self) -> bool {
        &&& self.x_iter.deltas() == self.y_iter.deltas()
        &&& self.total == self.x_iter.deltas().len() as int / 2
        &&& self.cur <= self.total
        &&& self.x_iter.position() == self.cur
        &&& self.y_iter.position() == self.total + self.cur
        &&& self.points.position() == self.cur
    }

    /// The flat delta stream.
    pub closed spec fn deltas_view(&self) -> Seq<i16> {
        self.x_iter.deltas()
    }

    /// The decoded point numbers.
    pub closed spec fn points_view(&self) -> Seq<u16> {
        self.points.points()
    }

    /// How many deltas have been yielded.
    pub closed spec fn position(&self) -> int {
        self.cur as int
    }

    /// The next per-point delta: the delta at the current position of
    /// `spec_glyph_deltas`, or `None` past its end.
    pub fn next(&mut self) -> (r: Option<GlyphDelta>)
        requires
            old(self).wf(),
        ensures
            final(self).wf(),
            final(self).deltas_view() == old(self).deltas_view(),
            final(self).points_view() == old(self).points_view(),
            ({
                let gd = spec_glyph_deltas(old(self).points_view(), old(self).deltas_view());
                if old(self).position() < gd.len() {
                    r == Some(gd[old(self).position()]) && final(self).position() == old(
                        self,
                    ).position() + 1
                } else {
                    r is None && final(self).position() == old(self).position()
                }
            }),
    {
        if self.cur == self.total {
            return None;
        }
        let position = match self.points.next() {
            Some(p) => p,
            None => {
                return None;
            },
        };
        let x_delta = match self.x_iter.next() {
            Some(v) => v,
            None => {
                proof {
                    assert(false);
                }
                return None;
            },
        };
        let y_delta = match self.y_iter.next() {
            Some(v) => v,
            None => {
                proof {
                    assert(false);
                }
                return None;
            },
        };
        self.cur = self.cur + 1;
        Some(GlyphDelta { position, x_delta, y_delta })
    }
}

/// The fixed-point coordinate of `t` at axis `i`, zero past the end.
fn tuple_coord(t: &Tuple, i: usize) -> (r: i32)
    ensures
        r == coord_at(t@, i as int),
{
    match t.get(i) {
        Some(v) => v.to_fixed().to_bits(),
        None => 0,
    }
}

/// The fixed-point coordinate of `coords` at axis `i`, zero past the end.
fn slice_coord(coords: &[F2Dot14], i: usize) -> (r: i32)
    ensures
        r == coord_at(spec_coords(coords@), i as int),
{
    if i < coords.len() {
        let v: F2Dot14 = *vstd::slice::slice_index_get(coords, i);
        v.to_fixed().to_bits()
    } else {
        0
    }
}

} // verus!
