//! Tests for the `gvar` table model: shared tuples, per-glyph variation
//! data, packed streams, and the scalar computation.

use read_fonts::fixed::{F2Dot14, Fixed};
use read_fonts::font_data::{FontData, ReadError};
use read_fonts::gvar::{GlyphDelta, GlyphId, GlyphVariationData, Gvar, GvarFlags, U16Or32};
use read_fonts::variations::SharedTuples;

fn f2dot14_from_f32(v: f32) -> F2Dot14 {
    F2Dot14::from_bits((v * 16384.0).round() as i16)
}

// Shared tuples in the 'gvar' table of the Skia font, as printed
// in Apple's TrueType specification.
fn skia_gvar_shared_tuples_data() -> Vec<u8> {
    vec![
        0x40, 0x00, 0x00, 0x00, 0xC0, 0x00, 0x00, 0x00, 0x00, 0x00, 0x40, 0x00, 0x00, 0x00, 0xC0,
        0x00, 0xC0, 0x00, 0xC0, 0x00, 0x40, 0x00, 0xC0, 0x00, 0x40, 0x00, 0x40, 0x00, 0xC0, 0x00,
        0x40, 0x00,
    ]
}

fn skia_gvar_i_data() -> Vec<u8> {
    vec![
        0x00, 0x08, 0x00, 0x24, 0x00, 0x33, 0x20, 0x00, 0x00, 0x15, 0x20, 0x01, 0x00, 0x1B, 0x20,
        0x02, 0x00, 0x24, 0x20, 0x03, 0x00, 0x15, 0x20, 0x04, 0x00, 0x26, 0x20, 0x07, 0x00, 0x0D,
        0x20, 0x06, 0x00, 0x1A, 0x20, 0x05, 0x00, 0x40, 0x01, 0x01, 0x01, 0x81, 0x80, 0x43, 0xFF,
        0x7E, 0xFF, 0x7E, 0xFF, 0x7E, 0xFF, 0x7E, 0x00, 0x81, 0x45, 0x01, 0x01, 0x01, 0x03, 0x01,
        0x04, 0x01, 0x04, 0x01, 0x04, 0x01, 0x02, 0x80, 0x40, 0x00, 0x82, 0x81, 0x81, 0x04, 0x3A,
        0x5A, 0x3E, 0x43, 0x20, 0x81, 0x04, 0x0E, 0x40, 0x15, 0x45, 0x7C, 0x83, 0x00, 0x0D, 0x9E,
        0xF3, 0xF2, 0xF0, 0xF0, 0xF0, 0xF0, 0xF3, 0x9E, 0xA0, 0xA1, 0xA1, 0xA1, 0x9F, 0x80, 0x00,
        0x91, 0x81, 0x91, 0x00, 0x0D, 0x0A, 0x0A, 0x09, 0x0A, 0x0A, 0x0A, 0x0A, 0x0A, 0x0A, 0x0A,
        0x0A, 0x0A, 0x0A, 0x0B, 0x80, 0x00, 0x15, 0x81, 0x81, 0x00, 0xC4, 0x89, 0x00, 0xC4, 0x83,
        0x00, 0x0D, 0x80, 0x99, 0x98, 0x96, 0x96, 0x96, 0x96, 0x99, 0x80, 0x82, 0x83, 0x83, 0x83,
        0x81, 0x80, 0x40, 0xFF, 0x18, 0x81, 0x81, 0x04, 0xE6, 0xF9, 0x10, 0x21, 0x02, 0x81, 0x04,
        0xE8, 0xE5, 0xEB, 0x4D, 0xDA, 0x83, 0x00, 0x0D, 0xCE, 0xD3, 0xD4, 0xD3, 0xD3, 0xD3, 0xD5,
        0xD2, 0xCE, 0xCC, 0xCD, 0xCD, 0xCD, 0xCD, 0x80, 0x00, 0xA1, 0x81, 0x91, 0x00, 0x0D, 0x07,
        0x03, 0x04, 0x02, 0x02, 0x02, 0x03, 0x03, 0x07, 0x07, 0x08, 0x08, 0x08, 0x07, 0x80, 0x00,
        0x09, 0x81, 0x81, 0x00, 0x28, 0x40, 0x00, 0xA4, 0x02, 0x24, 0x24, 0x66, 0x81, 0x04, 0x08,
        0xFA, 0xFA, 0xFA, 0x28, 0x83, 0x00, 0x82, 0x02, 0xFF, 0xFF, 0xFF, 0x83, 0x02, 0x01, 0x01,
        0x01, 0x84, 0x91, 0x00, 0x80, 0x06, 0x07, 0x08, 0x08, 0x08, 0x08, 0x0A, 0x07, 0x80, 0x03,
        0xFE, 0xFF, 0xFF, 0xFF, 0x81, 0x00, 0x08, 0x81, 0x82, 0x02, 0xEE, 0xEE, 0xEE, 0x8B, 0x6D,
        0x00,
    ]
}

fn collect_deltas(tv: &read_fonts::gvar::TupleVariation) -> Vec<GlyphDelta> {
    let mut iter = tv.deltas();
    let mut out = Vec::new();
    while let Some(d) = iter.next() {
        out.push(d);
    }
    out
}

#[test]
fn test_shared_tuples() {
    let minus_one = F2Dot14::from_bits(0xC000u16 as i16);
    assert_eq!(minus_one, f2dot14_from_f32(-1.0));

    let one = F2Dot14::from_bits(0x4000);
    let zero = F2Dot14::from_bits(0);
    let expected: Vec<(F2Dot14, F2Dot14)> = vec![
        (one, zero),
        (minus_one, zero),
        (zero, one),
        (zero, minus_one),
        (minus_one, minus_one),
        (one, minus_one),
        (one, one),
        (minus_one, one),
    ];

    let data = skia_gvar_shared_tuples_data();
    let tuples = SharedTuples::read_with_args(FontData::new(&data), &(expected.len() as u16, 2))
        .unwrap();
    let mut tuple_vec: Vec<(F2Dot14, F2Dot14)> = Vec::new();
    for i in 0..tuples.len() {
        let tup = tuples.get(i).unwrap();
        let values = tup.values();
        assert_eq!(values.len(), 2);
        (tuple_vec).push((values[0], values[1]));
    }
    assert_eq!(tuple_vec, expected);
}

#[test]
fn smoke_test() {
    let data = skia_gvar_i_data();
    let shared_data = skia_gvar_shared_tuples_data();
    let header =
        read_fonts::gvar::GlyphVariationDataHeader::read(FontData::new(&data)).unwrap();
    assert_eq!(header.serialized_data_offset(), 36);
    assert_eq!(header.tuple_variation_count().count(), 8);
    let shared_tuples =
        SharedTuples::read_with_args(FontData::new(&shared_data), &(8, 2)).unwrap();

    let vardata = GlyphVariationData::new(FontData::new(&data), 2, shared_tuples).unwrap();
    assert_eq!(vardata.tuple_count(), 8);
    let mut tuples = vardata.tuples();
    let first = tuples.next_tuple().unwrap().unwrap();
    let deltas = collect_deltas(&first);
    assert_eq!(deltas.len(), 18);
    let expected_pairs: Vec<(i16, i16)> = vec![
        (257, 0),
        (-127, 0),
        (-128, 58),
        (-130, 90),
        (-130, 62),
        (-130, 67),
        (-130, 32),
        (-127, 0),
        (257, 0),
        (259, 14),
        (260, 64),
        (260, 21),
        (260, 69),
        (258, 124),
        (0, 0),
        (130, 0),
        (0, 0),
        (0, 0),
    ];
    let expected: Vec<GlyphDelta> = expected_pairs
        .iter()
        .copied()
        .enumerate()
        .map(|(pos, (x_delta, y_delta))| GlyphDelta {
            position: pos as u16,
            x_delta,
            y_delta,
        })
        .collect();

    for (a, b) in deltas.iter().zip(expected.iter()) {
        assert_eq!(a, b);
    }
}

// Build one glyph's variation data: a count word, the headers, and the
// serialized bodies of each (peak, point-number bytes, delta bytes) entry.
fn build_glyph_var_data(tuples: &[(i16, Vec<u8>, Vec<u8>)]) -> Vec<u8> {
    let mut headers: Vec<u8> = Vec::new();
    let mut bodies: Vec<u8> = Vec::new();
    for (peak, points, deltas) in tuples {
        let size = (points.len() + deltas.len()) as u16;
        headers.extend_from_slice(&size.to_be_bytes());
        // embedded peak and private point numbers
        headers.extend_from_slice(&0xA000u16.to_be_bytes());
        headers.extend_from_slice(&peak.to_be_bytes());
        bodies.extend_from_slice(points);
        bodies.extend_from_slice(deltas);
    }
    let mut out: Vec<u8> = Vec::new();
    out.extend_from_slice(&(tuples.len() as u16).to_be_bytes());
    let offset = (4 + headers.len()) as u16;
    out.extend_from_slice(&offset.to_be_bytes());
    out.extend_from_slice(&headers);
    out.extend_from_slice(&bodies);
    if out.len() % 2 == 1 {
        out.push(0);
    }
    out
}

// Encode one run of 16-bit deltas (at most 64 values).
fn words_run(values: &[i16]) -> Vec<u8> {
    let mut out = vec![0x40u8 | (values.len() as u8 - 1)];
    for v in values {
        out.extend_from_slice(&v.to_be_bytes());
    }
    out
}

// Encode one run of 8-bit deltas (at most 64 values).
fn bytes_run(values: &[i8]) -> Vec<u8> {
    let mut out = vec![values.len() as u8 - 1];
    for v in values {
        out.push(*v as u8);
    }
    out
}

// A one-axis `gvar` table with short offsets over the given glyph bodies.
fn build_gvar(glyphs: &[Vec<u8>]) -> Vec<u8> {
    let mut out: Vec<u8> = Vec::new();
    out.extend_from_slice(&1u16.to_be_bytes()); // major
    out.extend_from_slice(&0u16.to_be_bytes()); // minor
    out.extend_from_slice(&1u16.to_be_bytes()); // axis count
    out.extend_from_slice(&0u16.to_be_bytes()); // shared tuple count
    out.extend_from_slice(&20u32.to_be_bytes()); // shared tuples offset
    out.extend_from_slice(&(glyphs.len() as u16).to_be_bytes()); // glyph count
    out.extend_from_slice(&0u16.to_be_bytes()); // flags: short offsets
    let array_offset = 20 + 2 * (glyphs.len() as u32 + 1);
    out.extend_from_slice(&array_offset.to_be_bytes());
    let mut acc: u16 = 0;
    out.extend_from_slice(&acc.to_be_bytes());
    for g in glyphs {
        assert!(g.len() % 2 == 0);
        acc += (g.len() / 2) as u16;
        out.extend_from_slice(&acc.to_be_bytes());
    }
    for g in glyphs {
        out.extend_from_slice(g);
    }
    out
}

#[test]
fn vazirmatn_var() {
    let minus_one: i16 = 0xC000u16 as i16;
    let plus_one: i16 = 0x4000;
    let all_points = vec![0u8];

    let g1_t1_x: Vec<i16> = vec![
        -90, -134, 4, -6, -81, 18, -25, -33, -109, -121, -111, -111, -22, -22, 0, -113, 0, 0,
    ];
    let g1_t1_y: Vec<i16> = vec![83, 0, 0, 0, 0, 0, 83, 0, 0, 0, -50, 54, 54, -50, 0, 0, 0, 0];
    let g1_t2_x: Vec<i16> = vec![
        20, 147, -33, -53, 59, -90, 37, -6, 109, 90, -79, -79, -8, -8, 0, 59, 0, 0,
    ];
    let g1_t2_y: Vec<i16> = vec![-177, 0, 0, 0, 0, 0, -177, 0, 0, 0, 4, -109, -109, 4, 0, 0, 0, 0];
    let mut g1_t1: Vec<i16> = g1_t1_x.clone();
    g1_t1.extend_from_slice(&g1_t1_y);
    let mut g1_t2: Vec<i16> = g1_t2_x.clone();
    g1_t2.extend_from_slice(&g1_t2_y);
    let glyph1 = build_glyph_var_data(&[
        (minus_one, all_points.clone(), words_run(&g1_t1)),
        (plus_one, all_points.clone(), words_run(&g1_t2)),
    ]);

    // point numbers 1 and 3, stored as cumulative byte deltas
    let points_1_3 = vec![0x02u8, 0x01, 1, 2];
    let glyph2 = build_glyph_var_data(&[
        (minus_one, points_1_3.clone(), bytes_run(&[-51, -113, 8, 0])),
        (plus_one, points_1_3.clone(), bytes_run(&[-54, 59, -1, 0])),
    ]);

    // eight points: first tuple all zero, second with two y dips
    let zero_run_16 = vec![0x8Fu8];
    let mut g3_t2: Vec<i8> = vec![0; 8];
    g3_t2.extend_from_slice(&[0, -20, -20, 0, 0, 0, 0, 0]);
    let glyph3 = build_glyph_var_data(&[
        (minus_one, all_points.clone(), zero_run_16),
        (plus_one, all_points.clone(), bytes_run(&g3_t2)),
    ]);

    let font = build_gvar(&[Vec::new(), glyph1, glyph2, glyph3]);
    let gvar = Gvar::read(FontData::new(&font)).unwrap();

    let a_glyph_var = gvar.glyph_variation_data(GlyphId::new(1)).unwrap();
    assert_eq!(a_glyph_var.axis_count(), 1);
    let mut tuples = a_glyph_var.tuples();
    let tup1 = tuples.next_tuple().unwrap().unwrap();
    assert_eq!(tup1.peak().values(), &vec![f2dot14_from_f32(-1.0)]);
    assert_eq!(collect_deltas(&tup1).len(), 18);
    let x_vals = &[
        -90, -134, 4, -6, -81, 18, -25, -33, -109, -121, -111, -111, -22, -22, 0, -113, 0, 0,
    ];
    let y_vals = &[83, 0, 0, 0, 0, 0, 83, 0, 0, 0, -50, 54, 54, -50, 0, 0, 0, 0];
    assert_eq!(
        collect_deltas(&tup1).iter().map(|d| d.x_delta).collect::<Vec<_>>(),
        x_vals
    );
    assert_eq!(
        collect_deltas(&tup1).iter().map(|d| d.y_delta).collect::<Vec<_>>(),
        y_vals
    );
    let tup2 = tuples.next_tuple().unwrap().unwrap();
    assert_eq!(tup2.peak().values(), &vec![f2dot14_from_f32(1.0)]);
    let x_vals = &[
        20, 147, -33, -53, 59, -90, 37, -6, 109, 90, -79, -79, -8, -8, 0, 59, 0, 0,
    ];
    let y_vals = &[
        -177, 0, 0, 0, 0, 0, -177, 0, 0, 0, 4, -109, -109, 4, 0, 0, 0, 0,
    ];
    assert_eq!(
        collect_deltas(&tup2).iter().map(|d| d.x_delta).collect::<Vec<_>>(),
        x_vals
    );
    assert_eq!(
        collect_deltas(&tup2).iter().map(|d| d.y_delta).collect::<Vec<_>>(),
        y_vals
    );
    assert!(tuples.next_tuple().is_none());

    let agrave_glyph_var = gvar.glyph_variation_data(GlyphId::new(2)).unwrap();
    let mut tuples = agrave_glyph_var.tuples();
    let tup1 = tuples.next_tuple().unwrap().unwrap();
    assert_eq!(
        collect_deltas(&tup1)
            .iter()
            .map(|d| (d.position, d.x_delta, d.y_delta))
            .collect::<Vec<_>>(),
        &[(1, -51, 8), (3, -113, 0)]
    );
    let tup2 = tuples.next_tuple().unwrap().unwrap();
    assert_eq!(
        collect_deltas(&tup2)
            .iter()
            .map(|d| (d.position, d.x_delta, d.y_delta))
            .collect::<Vec<_>>(),
        &[(1, -54, -1), (3, 59, 0)]
    );

    let grave_glyph_var = gvar.glyph_variation_data(GlyphId::new(3)).unwrap();
    let mut tuples = grave_glyph_var.tuples();
    let tup1 = tuples.next_tuple().unwrap().unwrap();
    let tup2 = tuples.next_tuple().unwrap().unwrap();
    assert!(tuples.next_tuple().is_none());
    assert_eq!(collect_deltas(&tup1).len(), 8);
    assert_eq!(
        collect_deltas(&tup2).iter().map(|d| d.y_delta).collect::<Vec<_>>(),
        &[0, -20, -20, 0, 0, 0, 0, 0]
    );
}

#[test]
fn short_offsets_are_doubled() {
    // a stored short offset of 1 means byte offset 2
    let data = vec![0x00u8, 0x01];
    let entry = U16Or32::read_with_args(FontData::new(&data), &GvarFlags::from_bits(0)).unwrap();
    assert_eq!(entry.get(), 2);
    let long = vec![0x00u8, 0x00, 0x00, 0x01];
    let entry =
        U16Or32::read_with_args(FontData::new(&long), &GvarFlags::from_bits(1)).unwrap();
    assert_eq!(entry.get(), 1);
}

#[test]
fn data_for_gid_is_a_subrange() {
    let glyph1 = build_glyph_var_data(&[(0x4000, vec![0u8], bytes_run(&[1, 2, -3, 4]))]);
    let font = build_gvar(&[Vec::new(), glyph1.clone()]);
    let gvar = Gvar::read(FontData::new(&font)).unwrap();
    let data = gvar.data_for_gid(GlyphId::new(0)).unwrap();
    assert_eq!(data.len(), 0);
    let data = gvar.data_for_gid(GlyphId::new(1)).unwrap();
    assert_eq!(data.len(), glyph1.len());
    // past the offsets array
    match gvar.data_for_gid(GlyphId::new(2)) {
        Err(e) => assert_eq!(e, ReadError::OutOfBounds),
        Ok(_) => panic!("expected an error past the offsets array"),
    }
}

#[test]
fn bad_version_is_invalid_format() {
    let mut font = build_gvar(&[Vec::new()]);
    font[0] = 2;
    match Gvar::read(FontData::new(&font)) {
        Err(ReadError::InvalidFormat(_)) => {}
        other => panic!("expected InvalidFormat, got {:?}", other.is_ok()),
    }
    // truncated table
    assert_eq!(
        Gvar::read(FontData::new(&font[..10])).err(),
        Some(ReadError::OutOfBounds)
    );
}

#[test]
fn scalar_non_intermediate() {
    // one axis, embedded peak 0.5, empty delta body
    let data = build_glyph_var_data(&[(0x2000, vec![0u8], Vec::new())]);
    let shared = SharedTuples::read_with_args(FontData::new(&[]), &(0, 1)).unwrap();
    let vardata = GlyphVariationData::new(FontData::new(&data), 1, shared).unwrap();
    let tv = vardata.tuples().next_tuple().unwrap().unwrap();
    let half = tv
        .compute_scalar(&[F2Dot14::from_bits(0x1000)])
        .unwrap();
    assert_eq!(half.to_bits(), 0x8000);
    assert!(tv.compute_scalar(&[F2Dot14::from_bits(-0x1000)]).is_none());
    // a matching coordinate contributes factor one
    let full = tv.compute_scalar(&[F2Dot14::from_bits(0x2000)]).unwrap();
    assert_eq!(full.to_bits(), 0x10000);
    // zero coordinate under a non-zero peak: not applicable
    assert!(tv.compute_scalar(&[F2Dot14::from_bits(0)]).is_none());
}

#[test]
fn scalar_intermediate() {
    // start -1, peak -0.5, end 0
    let mut headers: Vec<u8> = Vec::new();
    headers.extend_from_slice(&1u16.to_be_bytes()); // body size: the point byte
    headers.extend_from_slice(&0xE000u16.to_be_bytes()); // peak + intermediate + private
    headers.extend_from_slice(&(0xE000u16 as i16).to_be_bytes()); // peak -0.5
    headers.extend_from_slice(&(0xC000u16 as i16).to_be_bytes()); // start -1
    headers.extend_from_slice(&0i16.to_be_bytes()); // end 0
    let mut data: Vec<u8> = Vec::new();
    data.extend_from_slice(&1u16.to_be_bytes());
    data.extend_from_slice(&((4 + headers.len()) as u16).to_be_bytes());
    data.extend_from_slice(&headers);
    data.push(0); // all-points marker
    let shared = SharedTuples::read_with_args(FontData::new(&[]), &(0, 1)).unwrap();
    let vardata = GlyphVariationData::new(FontData::new(&data), 1, shared).unwrap();
    let tv = vardata.tuples().next_tuple().unwrap().unwrap();
    let s = tv
        .compute_scalar(&[F2Dot14::from_bits(0xD000u16 as i16)])
        .unwrap();
    assert_eq!(s.to_bits(), 0x8000);
    // the region is open at both ends
    assert!(tv.compute_scalar(&[F2Dot14::from_bits(0)]).is_none());
    assert!(tv
        .compute_scalar(&[F2Dot14::from_bits(0xC000u16 as i16)])
        .is_none());
}

// Build glyph variation data whose serialized region starts with shared
// point numbers; the tuples carry no private points of their own.
fn build_shared_points_glyph(shared_points: &[u8], tuples: &[(i16, Vec<u8>)]) -> Vec<u8> {
    let mut headers: Vec<u8> = Vec::new();
    let mut bodies: Vec<u8> = Vec::new();
    for (peak, deltas) in tuples {
        headers.extend_from_slice(&(deltas.len() as u16).to_be_bytes());
        headers.extend_from_slice(&0x8000u16.to_be_bytes()); // embedded peak only
        headers.extend_from_slice(&peak.to_be_bytes());
        bodies.extend_from_slice(deltas);
    }
    let mut out: Vec<u8> = Vec::new();
    out.extend_from_slice(&(0x8000u16 | tuples.len() as u16).to_be_bytes());
    out.extend_from_slice(&((4 + headers.len()) as u16).to_be_bytes());
    out.extend_from_slice(&headers);
    out.extend_from_slice(shared_points);
    out.extend_from_slice(&bodies);
    out
}

#[test]
fn shared_point_numbers_are_reused() {
    let shared_points = vec![0x02u8, 0x01, 1, 2]; // points 1 and 3
    let data = build_shared_points_glyph(
        &shared_points,
        &[
            (0x4000, bytes_run(&[-51, -113, 8, 0])),
            (0x2000, bytes_run(&[-54, 59, -1, 0])),
        ],
    );
    let shared = SharedTuples::read_with_args(FontData::new(&[]), &(0, 1)).unwrap();
    let vardata = GlyphVariationData::new(FontData::new(&data), 1, shared).unwrap();
    let mut tuples = vardata.tuples();
    let tup1 = tuples.next_tuple().unwrap().unwrap();
    assert_eq!(
        collect_deltas(&tup1)
            .iter()
            .map(|d| (d.position, d.x_delta, d.y_delta))
            .collect::<Vec<_>>(),
        &[(1, -51, 8), (3, -113, 0)]
    );
    let tup2 = tuples.next_tuple().unwrap().unwrap();
    assert_eq!(
        collect_deltas(&tup2)
            .iter()
            .map(|d| (d.position, d.x_delta, d.y_delta))
            .collect::<Vec<_>>(),
        &[(1, -54, -1), (3, 59, 0)]
    );
    assert!(tuples.next_tuple().is_none());
}

#[test]
fn tuple_without_points_is_malformed() {
    // the count word announces no shared point numbers, yet the tuple's
    // private-point-numbers flag is clear: the data is inconsistent and
    // the iterator surfaces it
    let mut data: Vec<u8> = Vec::new();
    data.extend_from_slice(&1u16.to_be_bytes());
    data.extend_from_slice(&10u16.to_be_bytes());
    data.extend_from_slice(&2u16.to_be_bytes()); // body size
    data.extend_from_slice(&0x8000u16.to_be_bytes()); // embedded peak only
    data.extend_from_slice(&0x4000u16.to_be_bytes()); // peak 1.0
    data.extend_from_slice(&[0x00, 0x00]); // body bytes
    let shared = SharedTuples::read_with_args(FontData::new(&[]), &(0, 1)).unwrap();
    let vardata = GlyphVariationData::new(FontData::new(&data), 1, shared).unwrap();
    let mut tuples = vardata.tuples();
    match tuples.next_tuple() {
        Some(Err(ReadError::MalformedData(_))) => {}
        _ => panic!("expected MalformedData"),
    }
    assert!(tuples.next_tuple().is_none());
}

#[test]
fn wide_point_count_header() {
    // a point count with the high bit set is stored as two bytes
    let mut data: Vec<u8> = vec![0x80, 0x03, 0x02, 5, 6, 7];
    data.push(0); // trailing byte beyond the stream
    let (points, rest) =
        read_fonts::variations::PackedPointNumbers::split_off_front(FontData::new(&data))
            .unwrap();
    assert_eq!(points.count(), 3);
    let mut iter = points.iter();
    assert_eq!(iter.next(), Some(5));
    assert_eq!(iter.next(), Some(11));
    assert_eq!(iter.next(), Some(18));
    assert_eq!(iter.next(), None);
    assert_eq!(rest.len(), 1);
}

#[test]
fn rereading_yields_identical_sequences() {
    let data = skia_gvar_i_data();
    let shared_data = skia_gvar_shared_tuples_data();
    let shared_a = SharedTuples::read_with_args(FontData::new(&shared_data), &(8, 2)).unwrap();
    let shared_b = SharedTuples::read_with_args(FontData::new(&shared_data), &(8, 2)).unwrap();
    let va = GlyphVariationData::new(FontData::new(&data), 2, shared_a).unwrap();
    let vb = GlyphVariationData::new(FontData::new(&data), 2, shared_b).unwrap();
    let mut ta = va.tuples();
    let mut tb = vb.tuples();
    loop {
        match (ta.next_tuple(), tb.next_tuple()) {
            (Some(Ok(a)), Some(Ok(b))) => {
                assert_eq!(collect_deltas(&a), collect_deltas(&b));
                assert_eq!(a.peak().values(), b.peak().values());
            }
            (None, None) => break,
            _ => panic!("iterators disagree"),
        }
    }
}

#[test]
fn tuples_consume_their_stated_sizes() {
    // two tuples whose bodies are 6 and 5 bytes: the sum of consumed bytes
    // equals the body region length
    let glyph = build_glyph_var_data(&[
        (0x4000, vec![0u8], bytes_run(&[1, -1, 2, -2])),
        (0x2000, vec![0u8], bytes_run(&[5, 6, 7])),
    ]);
    let shared = SharedTuples::read_with_args(FontData::new(&[]), &(0, 1)).unwrap();
    let vardata = GlyphVariationData::new(FontData::new(&glyph), 1, shared).unwrap();
    let mut tuples = vardata.tuples();
    let t1 = tuples.next_tuple().unwrap().unwrap();
    let t2 = tuples.next_tuple().unwrap().unwrap();
    assert!(tuples.next_tuple().is_none());
    assert_eq!(collect_deltas(&t1).len(), 2);
    assert_eq!(collect_deltas(&t2).len(), 1);
}
