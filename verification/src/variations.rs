//! Shared pieces of tuple variation data: packed point numbers, packed
//! deltas, tuples of normalized coordinates, and tuple variation headers.
//!
//! Both packed codecs are run-length schemes driven by a control byte. The
//! decoded streams are pinned down by recursive specification functions over
//! the raw bytes, and the executable decoders are proved to produce exactly
//! those streams.

use vstd::prelude::*;

use crate::fixed::F2Dot14;
use crate::font_data::{as_i16, as_i8, be_u16, FontData, ReadError};

verus! {

/// A fresh vector with the same contents as `v`.
pub fn copy_vec<T: Copy>(v: &Vec<T>) -> (r: Vec<T>)
    ensures
        r@ == v@,
{
    let mut out: Vec<T> = Vec::new();
    let mut i: usize = 0;
    while i < v.len()
        invariant
            i <= v@.len(),
            out@ == v@.take(i as int),
        decreases v@.len() - i,
    {
        out.push(v[i]);
        i = i + 1;
        proof {
            assert(out@ =~= v@.take(i as int));
        }
    }
    proof {
        assert(out@ =~= v@);
    }
    out
}

// ---------------------------------------------------------------------------
// Packed point numbers
// ---------------------------------------------------------------------------
/// The declared point count of a packed-point-numbers stream: one byte if its
/// high bit is clear, otherwise a big-endian 16-bit value with the high bit
/// masked out.
pub open spec fn spec_point_count(d: Seq<u8>) -> u16 {
    if d.len() == 0 {
        0u16
    } else if d[0] < 128 {
        d[0] as u16
    } else if d.len() < 2 {
        0u16
    } else {
        (be_u16(d, 0) - 0x8000) as u16
    }
}

/// The number of bytes the count header occupies.
pub open spec fn spec_point_count_len(d: Seq<u8>) -> int {
    if d.len() == 0 {
        1
    } else if d[0] < 128 {
        1
    } else {
        2
    }
}

/// Decode `k` cumulative point numbers of one run from the front of `d`,
/// where each stored delta is one byte (or two if `words`) and is added to
/// the previous point number modulo 2^16. Returns the values and the bytes
/// consumed, or `None` if the data runs out.
pub open spec fn spec_run_points(d: Seq<u8>, k: nat, words: bool, prev: u16) -> Option<
    (Seq<u16>, int),
>
    decreases k,
{
    if k == 0 {
        Some((Seq::empty(), 0))
    } else {
        let sz: int = if words {
            2
        } else {
            1
        };
        if d.len() < sz {
            None
        } else {
            let delta: int = if words {
                be_u16(d, 0) as int
            } else {
                d[0] as int
            };
            let v: u16 = ((prev as int + delta) % 0x10000) as u16;
            match spec_run_points(d.skip(sz), (k - 1) as nat, words, v) {
                None => None,
                Some(rest) => Some((seq![v] + rest.0, sz + rest.1)),
            }
        }
    }
}

/// Decode `n` point numbers from the run sequence at the front of `d`.
/// Each run starts with a control byte: bit 7 selects 16-bit deltas, bits
/// 0 to 6 hold the run length minus one. A final run may extend past `n`;
/// its bytes are still consumed but only `n` values are kept.
pub open spec fn spec_point_runs(d: Seq<u8>, n: nat, prev: u16) -> Option<(Seq<u16>, int)>
    decreases n,
{
    if n == 0 {
        Some((Seq::empty(), 0))
    } else if d.len() == 0 {
        None
    } else {
        let control = d[0];
        let words = control >= 128;
        let run = ((control as int % 128) + 1) as nat;
        match spec_run_points(d.skip(1), run, words, prev) {
            None => None,
            Some(first) => {
                let remaining: nat = if run >= n {
                    0
                } else {
                    (n - run) as nat
                };
                match spec_point_runs(d.skip(1 + first.1), remaining, first.0[run - 1]) {
                    None => None,
                    Some(rest) => Some(((first.0 + rest.0).take(n as int), 1 + first.1 + rest.1)),
                }
            },
        }
    }
}

/// Decode a whole packed-point-numbers stream from the front of `d`: the
/// count header, then enough runs to cover the count. Returns the point
/// numbers and the total bytes consumed, or `None` on truncated data.
pub open spec fn spec_packed_points(d: Seq<u8>) -> Option<(Seq<u16>, int)> {
    if d.len() < spec_point_count_len(d) {
        None
    } else {
        match spec_point_runs(
            d.skip(spec_point_count_len(d)),
            spec_point_count(d) as nat,
            0u16,
        ) {
            None => None,
            Some(runs) => Some((runs.0, spec_point_count_len(d) + runs.1)),
        }
    }
}

/// A successful run decode yields exactly `k` values in `k * size` bytes,
/// no more than the data holds.
pub proof fn lemma_run_points_len(d: Seq<u8>, k: nat, words: bool, prev: u16)
    ensures
        spec_run_points(d, k, words, prev) matches Some(r) ==> r.0.len() == k && r.1 == k * (
        if words {
            2int
        } else {
            1int
        }) && r.1 <= d.len(),
    decreases k,
{
    if k > 0 {
        let sz: int = if words {
            2
        } else {
            1
        };
        if d.len() >= sz {
            let delta: int = if words {
                be_u16(d, 0) as int
            } else {
                d[0] as int
            };
            let v: u16 = ((prev as int + delta) % 0x10000) as u16;
            lemma_run_points_len(d.skip(sz), (k - 1) as nat, words, v);
            assert((k - 1) * sz == k * sz - sz) by (nonlinear_arith);
        }
    }
}

/// A successful point-runs decode yields exactly `n` values and consumes no
/// more bytes than the data holds.
pub proof fn lemma_point_runs_len(d: Seq<u8>, n: nat, prev: u16)
    ensures
        spec_point_runs(d, n, prev) matches Some(r) ==> r.0.len() == n && 0 <= r.1 <= d.len(),
    decreases n,
{
    if n > 0 && d.len() > 0 {
        let control = d[0];
        let words = control >= 128;
        let run = ((control as int % 128) + 1) as nat;
        lemma_run_points_len(d.skip(1), run, words, prev);
        match spec_run_points(d.skip(1), run, words, prev) {
            None => {},
            Some(first) => {
                let remaining: nat = if run >= n {
                    0
                } else {
                    (n - run) as nat
                };
                lemma_point_runs_len(d.skip(1 + first.1), remaining, first.0[run - 1]);
            },
        }
    }
}

/// Decoded packed point numbers: the stream's declared count and the point
/// numbers it carries. An empty set means the deltas of the enclosing tuple
/// apply to every point of the glyph in order.
pub struct PackedPointNumbers {
    values: Vec<u16>,
}

impl View for PackedPointNumbers {
    type V = Seq<u16>;

    closed spec fn view(&self) -> Seq<u16> {
        self.values@
    }
}

impl PackedPointNumbers {
    /// Decode a packed-point-numbers stream from the front of `data`,
    /// returning it together with the remainder of `data`.
    pub fn split_off_front<'a>(data: FontData<'a>) -> (r: Result<
        (PackedPointNumbers, FontData<'a>),
        ReadError,
    >)
        ensures
            spec_packed_points(data@) matches Some(pu) ==> r matches Ok(pair) && pair.0@ == pu.0
                && pair.1@ == data@.skip(pu.1) && 0 <= pu.1 <= data@.len(),
            spec_packed_points(data@) is None ==> r == Err::<(PackedPointNumbers, FontData<'a>),
                ReadError,
            >(ReadError::OutOfBounds),
    {
        match Self::decode(&data) {
            Ok((values, used)) => {
                proof {
                    lemma_point_runs_len(
                        data@.skip(spec_point_count_len(data@)),
                        spec_point_count(data@) as nat,
                        0u16,
                    );
                }
                let rest = match data.split_off(used) {
                    Some(rest) => rest,
                    None => {
                        proof {
                            assert(false);
                        }
                        return Err(ReadError::OutOfBounds);
                    },
                };
                Ok((PackedPointNumbers { values }, rest))
            },
            Err(e) => Err(e),
        }
    }

    /// The number of point numbers in the stream.
    pub fn count(&self) -> (r: usize)
        ensures
            r == self@.len(),
    {
        self.values.len()
    }

    /// A fresh copy holding the same point numbers.
    pub fn duplicate(&self) -> (r: PackedPointNumbers)
        ensures
            r@ == self@,
    {
        PackedPointNumbers { values: copy_vec(&self.values) }
    }

    /// A cursor over the point numbers. When the stream is empty it yields
    /// the infinite sequence 0, 1, 2, ... ("all points in order").
    pub fn iter(&self) -> (r: PackedPointNumbersIter)
        ensures
            r.points() == self@,
            r.position() == 0,
    {
        PackedPointNumbersIter { values: copy_vec(&self.values), pos: 0 }
    }

    /// Decode one run of `run` cumulative point numbers starting at `start`.
    fn decode_run(data: &FontData, start: usize, run: usize, words: bool, prev: u16) -> (r: Result<
        Vec<u16>,
        ReadError,
    >)
        requires
            start <= data@.len(),
            1 <= run <= 128,
        ensures
            ({
                let rs = spec_run_points(data@.skip(start as int), run as nat, words, prev);
                match r {
                    Ok(v) => rs matches Some(p) && p.0 == v@ && v@.len() == run && start + run * (
                    if words {
                        2int
                    } else {
                        1int
                    }) <= data@.len(),
                    Err(e) => rs is None && e == ReadError::OutOfBounds,
                }
            }),
    {
        let ghost d = data@;
        let data_len: usize = data.len();
        let sz: usize = if words {
            2
        } else {
            1
        };
        let mut run_vals: Vec<u16> = Vec::new();
        let mut cur: u16 = prev;
        let mut j: usize = 0;
        while j < run
            invariant
                j <= run,
                run <= 128,
                d.len() == data_len,
                sz == (if words {
                    2int
                } else {
                    1int
                }),
                run_vals@.len() == j,
                cur == (if j == 0 {
                    prev
                } else {
                    run_vals@[j - 1]
                }),
                start + j * sz <= d.len(),
                data@ == d,
                ({
                    let here = spec_run_points(d.skip(start + j * sz), (run - j) as nat, words, cur);
                    let rs = spec_run_points(d.skip(start as int), run as nat, words, prev);
                    match here {
                        None => rs is None,
                        Some(h) => rs matches Some(p) && p.0 == run_vals@ + h.0 && p.1 == j * sz
                            + h.1,
                    }
                }),
            decreases run - j,
        {
            let ghost dhere = d.skip(start + j * sz);
            let ghost run_vals0 = run_vals@;
            let delta: u16;
            if words {
                match data.read_u16(start + j * 2) {
                    Ok(v) => {
                        delta = v;
                        proof {
                            assert(be_u16(dhere, 0) == be_u16(d, start + j * 2)) by {
                                assert(dhere[0] == d[start + j * 2]);
                                assert(dhere[1] == d[start + j * 2 + 1]);
                            }
                        }
                    },
                    Err(_) => {
                        proof {
                            assert(dhere.len() < 2);
                        }
                        return Err(ReadError::OutOfBounds);
                    },
                }
            } else {
                match data.read_u8(start + j) {
                    Ok(v) => {
                        delta = v as u16;
                        proof {
                            assert(dhere[0] == d[start + j]);
                        }
                    },
                    Err(_) => {
                        proof {
                            assert(dhere.len() < 1);
                        }
                        return Err(ReadError::OutOfBounds);
                    },
                }
            }
            let next: u16 = ((cur as u32 + delta as u32) % 0x10000) as u16;
            run_vals.push(next);
            cur = next;
            j = j + 1;
            proof {
                assert(dhere.skip(sz as int) =~= d.skip(start + j * sz));
                match spec_run_points(d.skip(start + j * sz), (run - j) as nat, words, cur) {
                    None => {},
                    Some(h) => {
                        assert(run_vals0 + (seq![next] + h.0) =~= run_vals@ + h.0);
                    },
                }
            }
        }
        proof {
            assert(spec_run_points(d.skip(start + run * sz), 0, words, cur) == Some::<
                (Seq<u16>, int),
            >((Seq::empty(), 0)));
            match spec_run_points(d.skip(start + run * sz), 0, words, cur) {
                None => {},
                Some(h) => {
                    assert(run_vals@ + h.0 =~= run_vals@);
                },
            }
        }
        Ok(run_vals)
    }

    /// Decode the count header and the runs; `Ok` carries the point numbers
    /// and the total bytes consumed.
    fn decode(data: &FontData) -> (r: Result<(Vec<u16>, usize), ReadError>)
        ensures
            spec_packed_points(data@) matches Some(pu) ==> r matches Ok(p) && p.0@ == pu.0 && p.1
                == pu.1 && p.1 <= data@.len(),
            spec_packed_points(data@) is None ==> r == Err::<(Vec<u16>, usize), ReadError>(
                ReadError::OutOfBounds,
            ),
    {
        let ghost d = data@;
        let data_len: usize = data.len();
        let b0 = match data.read_u8(0) {
            Ok(v) => v,
            Err(_) => {
                return Err(ReadError::OutOfBounds);
            },
        };
        let count: u16;
        let header_len: usize;
        if b0 < 128 {
            count = b0 as u16;
            header_len = 1;
        } else {
            match data.read_u16(0) {
                Ok(v) => {
                    count = v - 0x8000;
                    header_len = 2;
                },
                Err(_) => {
                    return Err(ReadError::OutOfBounds);
                },
            }
        }
        let mut vals: Vec<u16> = Vec::new();
        let mut prev: u16 = 0;
        let mut rem: usize = count as usize;
        let mut pos: usize = header_len;
        proof {
            match spec_point_runs(d.skip(header_len as int), count as nat, 0u16) {
                None => {},
                Some(c) => {
                    assert(Seq::<u16>::empty() + c.0 =~= c.0);
                },
            }
        }
        while rem > 0
            invariant
                header_len == spec_point_count_len(d),
                count == spec_point_count(d),
                header_len <= pos <= d.len(),
                d.len() == data_len,
                rem <= count,
                data@ == d,
                ({
                    let top = spec_point_runs(d.skip(header_len as int), count as nat, 0u16);
                    match spec_point_runs(d.skip(pos as int), rem as nat, prev) {
                        None => top is None,
                        Some(cur) => top matches Some(t) && t.0 == vals@ + cur.0 && t.1 == pos
                            - header_len + cur.1,
                    }
                }),
            decreases rem,
        {
            let ghost dpos = d.skip(pos as int);
            let ghost vals0 = vals@;
            let control = match data.read_u8(pos) {
                Ok(c) => c,
                Err(_) => {
                    proof {
                        assert(dpos.len() == 0);
                    }
                    return Err(ReadError::OutOfBounds);
                },
            };
            proof {
                assert(dpos[0] == d[pos as int]);
                assert(dpos.skip(1) =~= d.skip(pos + 1));
            }
            let words = control >= 128;
            let sz: usize = if words {
                2
            } else {
                1
            };
            let run: usize = (control % 128) as usize + 1;
            let ghost run_spec = spec_run_points(d.skip(pos + 1), run as nat, words, prev);
            proof {
                lemma_run_points_len(d.skip(pos + 1), run as nat, words, prev);
            }
            // decode the whole run
            let run_vals: Vec<u16> = match Self::decode_run(data, pos + 1, run, words, prev) {
                Ok(v) => v,
                Err(_) => {
                    return Err(ReadError::OutOfBounds);
                },
            };
            // append the kept prefix of the run
            let keep: usize = if run < rem {
                run
            } else {
                rem
            };
            let mut k: usize = 0;
            proof {
                assert(vals@ =~= vals0 + run_vals@.take(0));
            }
            while k < keep
                invariant
                    k <= keep,
                    keep <= run,
                    run_vals@.len() == run,
                    vals@ == vals0 + run_vals@.take(k as int),
                decreases keep - k,
            {
                vals.push(run_vals[k]);
                k = k + 1;
                proof {
                    assert(vals@ =~= vals0 + run_vals@.take(k as int));
                }
            }
            let new_pos = pos + 1 + run * sz;
            let new_rem = rem - keep;
            let last = run_vals[run - 1];
            proof {
                assert(dpos.skip(1 + (run * sz) as int) =~= d.skip(new_pos as int));
                let here = spec_point_runs(d.skip(new_pos as int), new_rem as nat, last);
                lemma_point_runs_len(d.skip(new_pos as int), new_rem as nat, last);
                match here {
                    None => {
                        assert(spec_point_runs(d.skip(pos as int), rem as nat, prev) is None);
                    },
                    Some(h) => {
                        if run < rem {
                            assert(h.0.len() == new_rem);
                            assert((run_vals@ + h.0).take(rem as int) =~= run_vals@ + h.0);
                            assert(vals0 + (run_vals@ + h.0) =~= (vals0 + run_vals@.take(
                                keep as int,
                            )) + h.0);
                        } else {
                            assert(h.0 =~= Seq::<u16>::empty());
                            assert((run_vals@ + h.0).take(rem as int) =~= run_vals@.take(
                                keep as int,
                            ));
                            assert(vals0 + run_vals@.take(keep as int) + h.0 =~= vals0
                                + run_vals@.take(keep as int));
                        }
                    },
                }
            }
            pos = new_pos;
            rem = new_rem;
            prev = last;
        }
        proof {
            assert(spec_point_runs(d.skip(pos as int), 0, prev) == Some::<(Seq<u16>, int)>(
                (Seq::empty(), 0),
            ));
            assert(vals@ + Seq::<u16>::empty() =~= vals@);
        }
        Ok((vals, pos))
    }
}

// ---------------------------------------------------------------------------
// Packed deltas
// ---------------------------------------------------------------------------
/// Decode a packed-deltas stream. Each run starts with a control byte: bit 7
/// marks a run of zeros with no data bytes, bit 6 selects 16-bit over 8-bit
/// deltas, and the low six bits hold the run length minus one. Decoding stops
/// at the end of the data or at a run whose data bytes are missing.
pub open spec fn spec_deltas(d: Seq<u8>) -> Seq<i16>
    decreases d.len(),
{
    if d.len() == 0 {
        Seq::empty()
    } else {
        let control = d[0];
        let run = (control as int % 64) + 1;
        if control >= 128 {
            Seq::new(run as nat, |i: int| 0i16) + spec_deltas(d.skip(1))
        } else if control >= 64 {
            if d.len() < 1 + run * 2 {
                Seq::empty()
            } else {
                Seq::new(run as nat, |i: int| as_i16(be_u16(d, 1 + 2 * i))) + spec_deltas(
                    d.skip(1 + run * 2),
                )
            }
        } else {
            if d.len() < 1 + run {
                Seq::empty()
            } else {
                Seq::new(run as nat, |i: int| as_i8(d[1 + i]) as i16) + spec_deltas(
                    d.skip(1 + run),
                )
            }
        }
    }
}

/// Decoded packed deltas: the flat stream of delta values, x deltas first,
/// then y deltas.
pub struct PackedDeltas {
    values: Vec<i16>,
}

impl View for PackedDeltas {
    type V = Seq<i16>;

    closed spec fn view(&self) -> Seq<i16> {
        self.values@
    }
}

impl PackedDeltas {
    /// Decode the packed-deltas stream held in `data`.
    pub fn new(data: FontData) -> (r: PackedDeltas)
        ensures
            r@ == spec_deltas(data@),
    {
        PackedDeltas { values: Self::decode(&data) }
    }

    /// The number of delta values in the stream.
    pub fn count(&self) -> (r: usize)
        ensures
            r == self@.len(),
    {
        self.values.len()
    }

    /// A fresh copy holding the same deltas.
    pub fn duplicate(&self) -> (r: PackedDeltas)
        ensures
            r@ == self@,
    {
        PackedDeltas { values: copy_vec(&self.values) }
    }

    /// A cursor over the delta values.
    pub fn iter(&self) -> (r: DeltaRunIter)
        ensures
            r.deltas() == self@,
            r.position() == 0,
    {
        DeltaRunIter { values: copy_vec(&self.values), pos: 0 }
    }

    /// Decode one non-zero run of `run` values starting at `start`.
    fn decode_delta_run(data: &FontData, start: usize, run: usize, words: bool) -> (r: Vec<i16>)
        requires
            words ==> start + run * 2 <= data@.len(),
            !words ==> start + run <= data@.len(),
        ensures
            r@ == (if words {
                Seq::new(run as nat, |i: int| as_i16(be_u16(data@, start + 2 * i)))
            } else {
                Seq::new(run as nat, |i: int| as_i8(data@[start + i]) as i16)
            }),
    {
        let ghost d = data@;
        let ghost target: Seq<i16> = if words {
            Seq::new(run as nat, |i: int| as_i16(be_u16(d, start + 2 * i)))
        } else {
            Seq::new(run as nat, |i: int| as_i8(d[start + i]) as i16)
        };
        let data_len: usize = data.len();
        let mut out: Vec<i16> = Vec::new();
        let mut j: usize = 0;
        while j < run
            invariant
                j <= run,
                d.len() == data_len,
                data@ == d,
                words ==> start + run * 2 <= d.len(),
                !words ==> start + run <= d.len(),
                target == (if words {
                    Seq::new(run as nat, |i: int| as_i16(be_u16(d, start + 2 * i)))
                } else {
                    Seq::new(run as nat, |i: int| as_i8(d[start + i]) as i16)
                }),
                out@ == target.take(j as int),
            decreases run - j,
        {
            if words {
                proof {
                    assert(j * 2 < run * 2) by (nonlinear_arith)
                        requires
                            j < run,
                    ;
                    assert(j * 2 + 2 <= run * 2) by (nonlinear_arith)
                        requires
                            j < run,
                    ;
                }
                let v = match data.read_i16(start + j * 2) {
                    Ok(v) => v,
                    Err(_) => {
                        proof {
                            assert(false);
                        }
                        return out;
                    },
                };
                out.push(v);
            } else {
                let v = match data.read_i8(start + j) {
                    Ok(v) => v,
                    Err(_) => {
                        proof {
                            assert(false);
                        }
                        return out;
                    },
                };
                out.push(v as i16);
            }
            j = j + 1;
            proof {
                assert(out@ =~= target.take(j as int));
            }
        }
        proof {
            assert(out@ =~= target);
        }
        out
    }

    /// Decode every run in the data.
    fn decode(data: &FontData) -> (r: Vec<i16>)
        ensures
            r@ == spec_deltas(data@),
    {
        let ghost d = data@;
        let data_len: usize = data.len();
        let mut vals: Vec<i16> = Vec::new();
        let mut pos: usize = 0;
        proof {
            assert(d.skip(0) =~= d);
            assert(Seq::<i16>::empty() + spec_deltas(d) =~= spec_deltas(d));
        }
        while pos < data_len
            invariant
                pos <= d.len(),
                d.len() == data_len,
                data@ == d,
                spec_deltas(d) == vals@ + spec_deltas(d.skip(pos as int)),
            decreases d.len() - pos,
        {
            let ghost dpos = d.skip(pos as int);
            let ghost vals0 = vals@;
            let control = match data.read_u8(pos) {
                Ok(c) => c,
                Err(_) => {
                    proof {
                        assert(false);
                    }
                    return vals;
                },
            };
            proof {
                assert(dpos[0] == d[pos as int]);
            }
            let run: usize = (control % 64) as usize + 1;
            if control >= 128 {
                // a run of zeros with no data bytes
                let ghost target = Seq::new(run as nat, |i: int| 0i16);
                let mut j: usize = 0;
                while j < run
                    invariant
                        j <= run,
                        vals@ == vals0 + Seq::new(j as nat, |i: int| 0i16),
                    decreases run - j,
                {
                    vals.push(0i16);
                    j = j + 1;
                    proof {
                        assert(vals@ =~= vals0 + Seq::new(j as nat, |i: int| 0i16));
                    }
                }
                proof {
                    assert(dpos.skip(1) =~= d.skip(pos + 1));
                    assert(vals0 + (target + spec_deltas(d.skip(pos + 1))) =~= vals@ + spec_deltas(
                        d.skip(pos + 1),
                    ));
                }
                pos = pos + 1;
            } else {
                let words = control >= 64;
                let sz: usize = if words {
                    2
                } else {
                    1
                };
                // stop early on a run whose data bytes are missing
                if (data_len - pos - 1) / sz < run {
                    proof {
                        assert(dpos.len() < 1 + run * sz) by (nonlinear_arith)
                            requires
                                dpos.len() == data_len - pos,
                                (data_len - pos - 1) as int / (sz as int) < run,
                                sz == 1 || sz == 2,
                                run >= 1,
                                pos < data_len,
                        ;
                        assert(spec_deltas(dpos) =~= Seq::<i16>::empty());
                        assert(vals@ + Seq::<i16>::empty() =~= vals@);
                    }
                    return vals;
                }
                proof {
                    assert(1 + run * sz <= dpos.len()) by (nonlinear_arith)
                        requires
                            dpos.len() == data_len - pos,
                            (data_len - pos - 1) as int / (sz as int) >= run,
                            sz == 1 || sz == 2,
                            run >= 1,
                            pos < data_len,
                    ;
                }
                let run_vals = Self::decode_delta_run(data, pos + 1, run, words);
                let ghost target: Seq<i16> = if words {
                    Seq::new(run as nat, |i: int| as_i16(be_u16(dpos, 1 + 2 * i)))
                } else {
                    Seq::new(run as nat, |i: int| as_i8(dpos[1 + i]) as i16)
                };
                proof {
                    assert(run_vals@ =~= target) by {
                        assert forall|i: int| 0 <= i < run implies run_vals@[i] == target[i] by {
                            if words {
                                assert(dpos[1 + 2 * i] == d[pos + 1 + 2 * i]);
                                assert(dpos[1 + 2 * i + 1] == d[pos + 1 + 2 * i + 1]);
                                assert(be_u16(dpos, 1 + 2 * i) == be_u16(d, pos + 1 + 2 * i));
                            } else {
                                assert(dpos[1 + i] == d[pos + 1 + i]);
                            }
                        }
                    }
                }
                let mut k: usize = 0;
                while k < run
                    invariant
                        k <= run,
                        run_vals@.len() == run,
                        vals@ == vals0 + run_vals@.take(k as int),
                    decreases run - k,
                {
                    vals.push(run_vals[k]);
                    k = k + 1;
                    proof {
                        assert(vals@ =~= vals0 + run_vals@.take(k as int));
                    }
                }
                proof {
                    assert(run_vals@.take(run as int) =~= run_vals@);
                    assert(dpos.skip(1 + (run * sz) as int) =~= d.skip(pos + 1 + run * sz));
                    assert(vals0 + (target + spec_deltas(d.skip(pos + 1 + run * sz))) =~= vals@
                        + spec_deltas(d.skip(pos + 1 + run * sz)));
                }
                pos = pos + 1 + run * sz;
            }
        }
        proof {
            assert(spec_deltas(d.skip(pos as int)) =~= Seq::<i16>::empty());
            assert(vals@ + Seq::<i16>::empty() =~= vals@);
        }
        vals
    }
}

/// A cursor over decoded delta values.
pub struct DeltaRunIter {
    values: Vec<i16>,
    pos: usize,
}

impl DeltaRunIter {
    /// The decoded delta values the cursor walks over.
    pub closed spec fn deltas(&self) -> Seq<i16> {
        self.values@
    }

    /// How many values have been yielded.
    pub closed spec fn position(&self) -> int {
        self.pos as int
    }

    /// The next delta value, or `None` when the stream is exhausted.
    pub fn next(&mut self) -> (r: Option<i16>)
        ensures
            final(self).deltas() == old(self).deltas(),
            old(self).position() < old(self).deltas().len() ==> r == Some(
                old(self).deltas()[old(self).position()],
            ) && final(self).position() == old(self).position() + 1,
            old(self).position() >= old(self).deltas().len() ==> r is None && final(self).position()
                == old(self).position(),
    {
        if self.pos < self.values.len() {
            let v = self.values[self.pos];
            self.pos = self.pos + 1;
            Some(v)
        } else {
            None
        }
    }
}

/// A cursor over decoded point numbers. An empty stream stands for "all
/// points of the glyph in order" and yields 0, 1, 2, ...
pub struct PackedPointNumbersIter {
    values: Vec<u16>,
    pos: usize,
}

impl PackedPointNumbersIter {
    /// The decoded point numbers the cursor walks over.
    pub closed spec fn points(&self) -> Seq<u16> {
        self.values@
    }

    /// How many values have been yielded.
    pub closed spec fn position(&self) -> int {
        self.pos as int
    }

    /// The next point number: the next decoded value, or the next index when
    /// the stream stands for all points.
    pub fn next(&mut self) -> (r: Option<u16>)
        ensures
            final(self).points() == old(self).points(),
            old(self).points().len() == 0 ==> r == Some((old(self).position() % 0x10000) as u16)
                && final(self).position() == (if old(self).position() < usize::MAX {
                old(self).position() + 1
            } else {
                old(self).position()
            }),
            old(self).points().len() > 0 && old(self).position() < old(self).points().len() ==> r
                == Some(old(self).points()[old(self).position()]) && final(self).position() == old(
                self,
            ).position() + 1,
            old(self).points().len() > 0 && old(self).position() >= old(self).points().len() ==> r
                is None && final(self).position() == old(self).position(),
    {
        if self.values.len() == 0 {
            let v: u16 = (self.pos % 0x10000) as u16;
            if self.pos < usize::MAX {
                self.pos = self.pos + 1;
            }
            Some(v)
        } else if self.pos < self.values.len() {
            let v = self.values[self.pos];
            self.pos = self.pos + 1;
            Some(v)
        } else {
            None
        }
    }
}

// ---------------------------------------------------------------------------
// Tuples
// ---------------------------------------------------------------------------
/// The `n` big-endian 16-bit coordinates stored at `off` in `d`.
pub open spec fn spec_tuple(d: Seq<u8>, off: int, n: nat) -> Seq<i16> {
    Seq::new(n, |i: int| as_i16(be_u16(d, off + 2 * i)))
}

/// A tuple of normalized axis coordinates, one `F2Dot14` per axis.
pub struct Tuple {
    values: Vec<F2Dot14>,
}

impl View for Tuple {
    type V = Seq<i16>;

    closed spec fn view(&self) -> Seq<i16> {
        Seq::new(self.values@.len(), |i: int| self.values@[i]@)
    }
}

impl Tuple {
    /// A tuple with no coordinates.
    pub fn empty() -> (r: Tuple)
        ensures
            r@ == Seq::<i16>::empty(),
    {
        let t = Tuple { values: Vec::new() };
        proof {
            assert(t@ =~= Seq::<i16>::empty());
        }
        t
    }

    /// The number of coordinates.
    pub fn len(&self) -> (r: usize)
        ensures
            r == self@.len(),
    {
        self.values.len()
    }

    /// The coordinate for axis `i`, or `None` past the end.
    pub fn get(&self, i: usize) -> (r: Option<F2Dot14>)
        ensures
            i < self@.len() ==> (r matches Some(v) && v@ == self@[i as int]),
            i >= self@.len() ==> r is None,
    {
        if i < self.values.len() {
            Some(self.values[i])
        } else {
            None
        }
    }

    /// The coordinates as a vector.
    pub fn values(&self) -> (r: &Vec<F2Dot14>)
        ensures
            r@.len() == self@.len(),
            forall|i: int| 0 <= i < self@.len() ==> r@[i]@ == self@[i],
    {
        &self.values
    }

    /// A fresh copy holding the same coordinates.
    pub fn duplicate(&self) -> (r: Tuple)
        ensures
            r@ == self@,
    {
        let t = Tuple { values: copy_vec(&self.values) };
        proof {
            assert(t@ =~= self@);
        }
        t
    }

    /// Read `axis_count` coordinates stored at `offset` in `data`.
    pub fn read(data: &FontData, offset: usize, axis_count: u16) -> (r: Result<Tuple, ReadError>)
        ensures
            offset + 2 * axis_count <= data@.len() ==> (r matches Ok(t) && t@ == spec_tuple(
                data@,
                offset as int,
                axis_count as nat,
            )),
            offset + 2 * axis_count > data@.len() ==> r == Err::<Tuple, ReadError>(
                ReadError::OutOfBounds,
            ),
    {
        let ghost d = data@;
        let data_len: usize = data.len();
        let need: usize = axis_count as usize * 2;
        if offset > data_len || data_len - offset < need {
            return Err(ReadError::OutOfBounds);
        }
        let mut values: Vec<F2Dot14> = Vec::new();
        let mut j: usize = 0;
        while j < axis_count as usize
            invariant
                j <= axis_count,
                offset + 2 * (axis_count as int) <= d.len(),
                d.len() == data_len,
                data@ == d,
                values@.len() == j,
                forall|i: int|
                    0 <= i < j ==> values@[i]@ == as_i16(be_u16(d, offset + 2 * i)),
            decreases axis_count - j,
        {
            let v = match data.read_i16(offset + j * 2) {
                Ok(v) => v,
                Err(_) => {
                    proof {
                        assert(false);
                    }
                    return Err(ReadError::OutOfBounds);
                },
            };
            values.push(F2Dot14::from_bits(v));
            j = j + 1;
        }
        let t = Tuple { values };
        proof {
            assert(t@ =~= spec_tuple(d, offset as int, axis_count as nat));
        }
        Ok(t)
    }
}

/// The array of peak tuples shared across all glyph variations of a font,
/// parameterised by `(count, axis_count)` at decode time.
pub struct SharedTuples {
    tuples: Vec<Tuple>,
}

impl View for SharedTuples {
    type V = Seq<Seq<i16>>;

    closed spec fn view(&self) -> Seq<Seq<i16>> {
        Seq::new(self.tuples@.len(), |i: int| self.tuples@[i]@)
    }
}

impl SharedTuples {
    /// Decode `args.0` shared tuples of `args.1` axes each from the front of
    /// `data`.
    pub fn read_with_args(data: FontData, args: &(u16, u16)) -> (r: Result<SharedTuples, ReadError>)
        ensures
            2 * (args.0 as int) * (args.1 as int) <= data@.len() ==> (r matches Ok(st) && st@.len()
                == args.0 && (forall|i: int|
                0 <= i < args.0 ==> st@[i] == spec_tuple(
                    data@,
                    i * 2 * (args.1 as int),
                    args.1 as nat,
                ))),
            2 * (args.0 as int) * (args.1 as int) > data@.len() ==> r == Err::<
                SharedTuples,
                ReadError,
            >(ReadError::OutOfBounds),
    {
        let ghost d = data@;
        let count: u16 = args.0;
        let axis_count: u16 = args.1;
        let data_len: usize = data.len();
        let per: usize = 2 * axis_count as usize;
        proof {
            assert(count as int * per as int <= 0x10000 * 0x20000) by (nonlinear_arith)
                requires
                    count <= 0xffff,
                    per <= 0x1ffff,
            ;
        }
        if count as u64 * per as u64 > data_len as u64 {
            proof {
                assert(2 * (count as int) * (axis_count as int) == count as int * per as int)
                    by (nonlinear_arith)
                    requires
                        per == 2 * axis_count as int,
                ;
            }
            return Err(ReadError::OutOfBounds);
        }
        proof {
            assert(2 * (count as int) * (axis_count as int) == count as int * per as int)
                by (nonlinear_arith)
                requires
                    per == 2 * axis_count as int,
            ;
        }
        let mut tuples: Vec<Tuple> = Vec::new();
        let mut i: usize = 0;
        while i < count as usize
            invariant
                i <= count,
                per == 2 * axis_count as int,
                count as int * per as int <= d.len(),
                d.len() == data_len,
                data@ == d,
                tuples@.len() == i,
                forall|k: int|
                    0 <= k < i ==> tuples@[k]@ == spec_tuple(d, k * per as int, axis_count as nat),
            decreases count - i,
        {
            proof {
                assert(i * per + per <= count as int * per as int) by (nonlinear_arith)
                    requires
                        i < count as int,
                        per >= 0,
                ;
                assert(i * per >= 0) by (nonlinear_arith)
                    requires
                        i >= 0,
                        per >= 0,
                ;
            }
            let t = match Tuple::read(&data, i * per, axis_count) {
                Ok(t) => t,
                Err(e) => {
                    proof {
                        assert(false);
                    }
                    return Err(e);
                },
            };
            tuples.push(t);
            i = i + 1;
            proof {
                assert((i - 1) * per as int == (i - 1) * 2 * (axis_count as int))
                    by (nonlinear_arith)
                    requires
                        per == 2 * axis_count as int,
                ;
            }
        }
        let st = SharedTuples { tuples };
        proof {
            assert(st@.len() == count);
            assert forall|k: int| 0 <= k < count implies st@[k] == spec_tuple(
                d,
                k * 2 * (axis_count as int),
                axis_count as nat,
            ) by {
                assert(k * per as int == k * 2 * (axis_count as int)) by (nonlinear_arith)
                    requires
                        per == 2 * axis_count as int,
                ;
            }
        }
        Ok(st)
    }

    /// The number of shared tuples.
    pub fn len(&self) -> (r: usize)
        ensures
            r == self@.len(),
    {
        self.tuples.len()
    }

    /// The shared tuple at `idx`, or `None` past the end.
    pub fn get(&self, idx: usize) -> (r: Option<Tuple>)
        ensures
            idx < self@.len() ==> (r matches Some(t) && t@ == self@[idx as int]),
            idx >= self@.len() ==> r is None,
    {
        if idx < self.tuples.len() {
            Some(self.tuples[idx].duplicate())
        } else {
            None
        }
    }

    /// A fresh copy holding the same tuples.
    pub fn duplicate(&self) -> (r: SharedTuples)
        ensures
            r@ == self@,
    {
        let mut tuples: Vec<Tuple> = Vec::new();
        let mut i: usize = 0;
        while i < self.tuples.len()
            invariant
                i <= self.tuples@.len(),
                tuples@.len() == i,
                forall|k: int| 0 <= k < i ==> tuples@[k]@ == self.tuples@[k]@,
            decreases self.tuples@.len() - i,
        {
            tuples.push(self.tuples[i].duplicate());
            i = i + 1;
        }
        let st = SharedTuples { tuples };
        proof {
            assert(st@ =~= self@);
        }
        st
    }
}

// ---------------------------------------------------------------------------
// Tuple variation headers
// ---------------------------------------------------------------------------
/// The packed flags-and-count word leading the per-glyph variation data:
/// the low 12 bits hold the tuple count, the top bit marks shared point
/// numbers.
#[derive(Clone, Copy, Debug, PartialEq, Eq, Structural)]
pub struct TupleVariationCount {
    bits: u16,
}

impl View for TupleVariationCount {
    type V = u16;

    closed spec fn view(&self) -> u16 {
        self.bits
    }
}

impl TupleVariationCount {
    /// Wrap a raw flags-and-count word.
    pub fn from_bits(bits: u16) -> (r: TupleVariationCount)
        ensures
            r@ == bits,
    {
        TupleVariationCount { bits }
    }

    /// The number of tuple variations.
    pub fn count(&self) -> (r: u16)
        ensures
            r == self@ as int % 0x1000,
    {
        self.bits % 0x1000
    }

    /// True when the serialized data begins with shared point numbers.
    pub fn shared_point_numbers(&self) -> (r: bool)
        ensures
            r == (self@ >= 0x8000),
    {
        self.bits >= 0x8000
    }
}

/// The packed flags-and-index word of one tuple variation header: an
/// embedded-peak flag (bit 15), an intermediate-region flag (bit 14), a
/// private-point-numbers flag (bit 13), and, when the peak is not embedded,
/// a shared-tuple index in the low 12 bits.
#[derive(Clone, Copy, Debug, PartialEq, Eq, Structural)]
pub struct TupleIndex {
    bits: u16,
}

impl View for TupleIndex {
    type V = u16;

    closed spec fn view(&self) -> u16 {
        self.bits
    }
}

impl TupleIndex {
    /// Wrap a raw flags-and-index word.
    pub fn from_bits(bits: u16) -> (r: TupleIndex)
        ensures
            r@ == bits,
    {
        TupleIndex { bits }
    }

    /// True when the header carries its own peak tuple.
    pub fn embedded_peak_tuple(&self) -> (r: bool)
        ensures
            r == (self@ >= 0x8000),
    {
        self.bits >= 0x8000
    }

    /// True when the header carries intermediate start and end tuples.
    pub fn intermediate_region(&self) -> (r: bool)
        ensures
            r == (self@ as int % 0x8000 >= 0x4000),
    {
        self.bits % 0x8000 >= 0x4000
    }

    /// True when the tuple's serialized data begins with its own point
    /// numbers.
    pub fn private_point_numbers(&self) -> (r: bool)
        ensures
            r == (self@ as int % 0x4000 >= 0x2000),
    {
        self.bits % 0x4000 >= 0x2000
    }

    /// The shared-tuple index, present only when no peak tuple is embedded.
    pub fn tuple_records_index(&self) -> (r: Option<u16>)
        ensures
            self@ < 0x8000 ==> r == Some((self@ as int % 0x1000) as u16),
            self@ >= 0x8000 ==> r is None,
    {
        if self.bits < 0x8000 {
            Some(self.bits % 0x1000)
        } else {
            None
        }
    }
}

/// The size in bytes of the tuple variation header starting at the front of
/// `d`: four fixed bytes, an optional embedded peak tuple, and an optional
/// pair of intermediate tuples.
pub open spec fn spec_header_size(d: Seq<u8>, axis_count: u16) -> int {
    let ti = be_u16(d, 2);
    4 + (if ti >= 0x8000 {
        2 * axis_count as int
    } else {
        0
    }) + (if ti as int % 0x8000 >= 0x4000 {
        4 * axis_count as int
    } else {
        0
    })
}

/// One tuple variation header: the byte size of the tuple's serialized body,
/// the packed flags-and-index word, and the optional peak and intermediate
/// tuples.
pub struct TupleVariationHeader {
    variation_data_size: u16,
    tuple_index: TupleIndex,
    peak_tuple: Option<Tuple>,
    intermediate_start_tuple: Option<Tuple>,
    intermediate_end_tuple: Option<Tuple>,
}

impl TupleVariationHeader {
    /// The stored byte size of the tuple's serialized body.
    pub closed spec fn size_spec(&self) -> u16 {
        self.variation_data_size
    }

    /// The packed flags-and-index word.
    pub closed spec fn index_bits(&self) -> u16 {
        self.tuple_index@
    }

    /// The embedded peak tuple, if the header carries one.
    pub closed spec fn peak_spec(&self) -> Option<Seq<i16>> {
        match self.peak_tuple {
            Some(t) => Some(t@),
            None => None,
        }
    }

    /// The intermediate start tuple, if the header carries one.
    pub closed spec fn inter_start_spec(&self) -> Option<Seq<i16>> {
        match self.intermediate_start_tuple {
            Some(t) => Some(t@),
            None => None,
        }
    }

    /// The intermediate end tuple, if the header carries one.
    pub closed spec fn inter_end_spec(&self) -> Option<Seq<i16>> {
        match self.intermediate_end_tuple {
            Some(t) => Some(t@),
            None => None,
        }
    }

    /// The byte size of the tuple's serialized body.
    pub fn variation_data_size(&self) -> (r: u16)
        ensures
            r == self.size_spec(),
    {
        self.variation_data_size
    }

    /// The packed flags-and-index word.
    pub fn tuple_index(&self) -> (r: TupleIndex)
        ensures
            r@ == self.index_bits(),
    {
        self.tuple_index
    }

    /// The embedded peak tuple, if present.
    pub fn peak_tuple(&self) -> (r: Option<Tuple>)
        ensures
            self.peak_spec() matches Some(t) ==> r matches Some(rt) && rt@ == t,
            self.peak_spec() is None ==> r is None,
    {
        match &self.peak_tuple {
            Some(t) => Some(t.duplicate()),
            None => None,
        }
    }

    /// The intermediate start tuple, if present.
    pub fn intermediate_start_tuple(&self) -> (r: Option<Tuple>)
        ensures
            self.inter_start_spec() matches Some(t) ==> r matches Some(rt) && rt@ == t,
            self.inter_start_spec() is None ==> r is None,
    {
        match &self.intermediate_start_tuple {
            Some(t) => Some(t.duplicate()),
            None => None,
        }
    }

    /// The intermediate end tuple, if present.
    pub fn intermediate_end_tuple(&self) -> (r: Option<Tuple>)
        ensures
            self.inter_end_spec() matches Some(t) ==> r matches Some(rt) && rt@ == t,
            self.inter_end_spec() is None ==> r is None,
    {
        match &self.intermediate_end_tuple {
            Some(t) => Some(t.duplicate()),
            None => None,
        }
    }

    /// Parse one header from the front of `data`, returning it with its
    /// size in bytes.
    pub fn read(data: &FontData, axis_count: u16) -> (r: Result<
        (TupleVariationHeader, usize),
        ReadError,
    >)
        ensures
            spec_header_size(data@, axis_count) <= data@.len() ==> (r matches Ok(p) && {
                let ti = be_u16(data@, 2);
                let peak_len: int = if ti >= 0x8000 {
                    2 * axis_count as int
                } else {
                    0
                };
                &&& p.1 == spec_header_size(data@, axis_count)
                &&& p.0.size_spec() == be_u16(data@, 0)
                &&& p.0.index_bits() == ti
                &&& p.0.peak_spec() == (if ti >= 0x8000 {
                    Some(spec_tuple(data@, 4, axis_count as nat))
                } else {
                    Option::<Seq<i16>>::None
                })
                &&& p.0.inter_start_spec() == (if ti as int % 0x8000 >= 0x4000 {
                    Some(spec_tuple(data@, 4 + peak_len, axis_count as nat))
                } else {
                    Option::<Seq<i16>>::None
                })
                &&& p.0.inter_end_spec() == (if ti as int % 0x8000 >= 0x4000 {
                    Some(
                        spec_tuple(
                            data@,
                            4 + peak_len + 2 * axis_count as int,
                            axis_count as nat,
                        ),
                    )
                } else {
                    Option::<Seq<i16>>::None
                })
            }),
            spec_header_size(data@, axis_count) > data@.len() ==> r == Err::<
                (TupleVariationHeader, usize),
                ReadError,
            >(ReadError::OutOfBounds),
    {
        let size = match data.read_u16(0) {
            Ok(v) => v,
            Err(e) => {
                return Err(ReadError::OutOfBounds);
            },
        };
        let ti_bits = match data.read_u16(2) {
            Ok(v) => v,
            Err(e) => {
                return Err(ReadError::OutOfBounds);
            },
        };
        let tuple_index = TupleIndex::from_bits(ti_bits);
        let mut offset: usize = 4;
        let peak_tuple: Option<Tuple>;
        if ti_bits >= 0x8000 {
            match Tuple::read(data, offset, axis_count) {
                Ok(t) => {
                    peak_tuple = Some(t);
                },
                Err(_) => {
                    return Err(ReadError::OutOfBounds);
                },
            }
            offset = offset + 2 * axis_count as usize;
        } else {
            peak_tuple = None;
        }
        let intermediate_start_tuple: Option<Tuple>;
        let intermediate_end_tuple: Option<Tuple>;
        if ti_bits % 0x8000 >= 0x4000 {
            match Tuple::read(data, offset, axis_count) {
                Ok(t) => {
                    intermediate_start_tuple = Some(t);
                },
                Err(_) => {
                    return Err(ReadError::OutOfBounds);
                },
            }
            match Tuple::read(data, offset + 2 * axis_count as usize, axis_count) {
                Ok(t) => {
                    intermediate_end_tuple = Some(t);
                },
                Err(_) => {
                    return Err(ReadError::OutOfBounds);
                },
            }
            offset = offset + 4 * axis_count as usize;
        } else {
            intermediate_start_tuple = None;
            intermediate_end_tuple = None;
        }
        Ok(
            (
                TupleVariationHeader {
                    variation_data_size: size,
                    tuple_index,
                    peak_tuple,
                    intermediate_start_tuple,
                    intermediate_end_tuple,
                },
                offset,
            ),
        )
    }
}

/// A cursor yielding the tuple variation headers of one glyph in on-disk
/// order.
pub struct TupleVariationHeaderIter<'a> {
    data: FontData<'a>,
    n_headers: usize,
    current: usize,
    axis_count: u16,
}

impl<'a> TupleVariationHeaderIter<'a> {
    /// The bytes still to be parsed.
    pub closed spec fn remaining(&self) -> Seq<u8> {
        self.data@
    }

    /// How many headers have been yielded.
    pub closed spec fn position(&self) -> int {
        self.current as int
    }

    /// The number of headers in the region.
    pub closed spec fn header_count(&self) -> int {
        self.n_headers as int
    }

    /// The number of axes each tuple spans.
    pub closed spec fn axes(&self) -> u16 {
        self.axis_count
    }

    /// A cursor over `n_headers` headers at the front of `data`.
    pub fn new(data: FontData<'a>, n_headers: usize, axis_count: u16) -> (r:
        TupleVariationHeaderIter<'a>)
        ensures
            r.remaining() == data@,
            r.position() == 0,
            r.header_count() == n_headers,
            r.axes() == axis_count,
    {
        TupleVariationHeaderIter { data, n_headers, current: 0, axis_count }
    }

    /// Parse the next header, or `None` after the last one. An `Err` means
    /// the header region was truncated.
    pub fn next(&mut self) -> (r: Option<Result<TupleVariationHeader, ReadError>>)
        ensures
            final(self).header_count() == old(self).header_count(),
            final(self).axes() == old(self).axes(),
            old(self).position() >= old(self).header_count() ==> r is None && *final(self)
                == *old(self),
            old(self).position() < old(self).header_count() ==> final(self).position() == old(
                self,
            ).position() + 1 && (r matches Some(inner) && {
                let hs = spec_header_size(old(self).remaining(), old(self).axes());
                &&& hs <= old(self).remaining().len() ==> (inner matches Ok(h) && {
                    let d = old(self).remaining();
                    let ti = be_u16(d, 2);
                    let peak_len: int = if ti >= 0x8000 {
                        2 * old(self).axes() as int
                    } else {
                        0
                    };
                    &&& h.size_spec() == be_u16(d, 0)
                    &&& h.index_bits() == ti
                    &&& h.peak_spec() == (if ti >= 0x8000 {
                        Some(spec_tuple(d, 4, old(self).axes() as nat))
                    } else {
                        Option::<Seq<i16>>::None
                    })
                    &&& h.inter_start_spec() == (if ti as int % 0x8000 >= 0x4000 {
                        Some(spec_tuple(d, 4 + peak_len, old(self).axes() as nat))
                    } else {
                        Option::<Seq<i16>>::None
                    })
                    &&& h.inter_end_spec() == (if ti as int % 0x8000 >= 0x4000 {
                        Some(
                            spec_tuple(
                                d,
                                4 + peak_len + 2 * old(self).axes() as int,
                                old(self).axes() as nat,
                            ),
                        )
                    } else {
                        Option::<Seq<i16>>::None
                    })
                    &&& final(self).remaining() == d.skip(hs)
                })
                &&& hs > old(self).remaining().len() ==> inner == Err::<
                    TupleVariationHeader,
                    ReadError,
                >(ReadError::OutOfBounds) && final(self).remaining() == old(self).remaining()
            }),
    {
        if self.current >= self.n_headers {
            return None;
        }
        self.current = self.current + 1;
        match TupleVariationHeader::read(&self.data, self.axis_count) {
            Ok((header, size)) => {
                let rest = match self.data.split_off(size) {
                    Some(rest) => rest,
                    None => {
                        proof {
                            assert(false);
                        }
                        return Some(Err(ReadError::OutOfBounds));
                    },
                };
                self.data = rest;
                Some(Ok(header))
            },
            Err(e) => Some(Err(e)),
        }
    }
}

} // verus!
