//! Tests for the variation resolver: axis normalization and avar remapping.

use read_fonts::codegen::Mode;
use read_fonts::fixed::{F2Dot14, Fixed};
use read_fonts::scaler::{AxisValueMap, Context, SegmentMap, Variation, VariationAxis};
use std::str::FromStr;

fn fixed_from_f32(v: f32) -> Fixed {
    Fixed::from_bits((v * 65536.0).round() as i32)
}

fn weight_axis() -> VariationAxis {
    VariationAxis {
        tag: u32::from_be_bytes(*b"wght"),
        min_value: fixed_from_f32(100.0),
        default_value: fixed_from_f32(400.0),
        max_value: fixed_from_f32(900.0),
    }
}

#[test]
fn normalize_endpoints() {
    let axis = weight_axis();
    assert_eq!(axis.normalize(fixed_from_f32(400.0)).to_bits(), 0);
    assert_eq!(axis.normalize(fixed_from_f32(100.0)).to_bits(), -0x10000);
    assert_eq!(axis.normalize(fixed_from_f32(900.0)).to_bits(), 0x10000);
    // out-of-range values clamp to the ends
    assert_eq!(axis.normalize(fixed_from_f32(50.0)).to_bits(), -0x10000);
    assert_eq!(axis.normalize(fixed_from_f32(1000.0)).to_bits(), 0x10000);
}

#[test]
fn normalize_interpolates() {
    let axis = weight_axis();
    // 650 is halfway between the default 400 and the maximum 900
    assert_eq!(axis.normalize(fixed_from_f32(650.0)).to_bits(), 0x8000);
    // 250 is halfway between the minimum 100 and the default 400
    assert_eq!(axis.normalize(fixed_from_f32(250.0)).to_bits(), -0x8000);
}

#[test]
fn segment_map_identity_and_interpolation() {
    let map = SegmentMap::new(vec![
        AxisValueMap { from_coordinate: F2Dot14::from_bits(-16384), to_coordinate: F2Dot14::from_bits(-16384) },
        AxisValueMap { from_coordinate: F2Dot14::from_bits(0), to_coordinate: F2Dot14::from_bits(0) },
        AxisValueMap { from_coordinate: F2Dot14::from_bits(16384), to_coordinate: F2Dot14::from_bits(8192) },
    ]);
    // identity on the left half
    assert_eq!(map.apply(Fixed::from_bits(-0x8000)).to_bits(), -0x8000);
    // the right half is compressed toward 0.5
    assert_eq!(map.apply(Fixed::from_bits(0x10000)).to_bits(), 0x8000);
    assert_eq!(map.apply(Fixed::from_bits(0x8000)).to_bits(), 0x4000);
    // an empty map is the identity
    let empty = SegmentMap::new(Vec::new());
    assert_eq!(empty.apply(Fixed::from_bits(0x1234)).to_bits(), 0x1234);
}

#[test]
fn resolve_variations_matches_by_tag() {
    let axes = vec![weight_axis()];
    let mut context = Context::new();
    context.add_variations(vec![Variation {
        tag: u32::from_be_bytes(*b"wght"),
        value: fixed_from_f32(900.0),
    }]);
    context.resolve_variations(&axes, &None);
    assert_eq!(context.coords.len(), 1);
    assert_eq!(context.coords[0].to_bits(), 16384);

    // an unknown tag leaves the axis at its default
    let mut context = Context::new();
    context.add_variations(vec![Variation {
        tag: u32::from_be_bytes(*b"wdth"),
        value: fixed_from_f32(900.0),
    }]);
    context.resolve_variations(&axes, &None);
    assert_eq!(context.coords[0].to_bits(), 0);

    // a later setting for the same tag wins
    let mut context = Context::new();
    context.add_variations(vec![
        Variation { tag: u32::from_be_bytes(*b"wght"), value: fixed_from_f32(900.0) },
        Variation { tag: u32::from_be_bytes(*b"wght"), value: fixed_from_f32(100.0) },
    ]);
    context.resolve_variations(&axes, &None);
    assert_eq!(context.coords[0].to_bits(), -16384);

    // with no settings the resolver does nothing
    let mut untouched = Context::new();
    untouched.resolve_variations(&axes, &None);
    assert_eq!(untouched.coords.len(), 0);
}

#[test]
fn variation_settings_accumulate() {
    let axes = vec![weight_axis()];

    // adding an empty batch keeps the earlier settings
    let mut context = Context::new();
    context.add_variations(vec![Variation {
        tag: u32::from_be_bytes(*b"wght"),
        value: fixed_from_f32(900.0),
    }]);
    context.add_variations(Vec::new());
    assert_eq!(context.variations.len(), 1);
    context.resolve_variations(&axes, &None);
    assert_eq!(context.coords[0].to_bits(), 16384);

    // a second batch appends after the first, so its setting wins
    let mut context = Context::new();
    context.add_variations(vec![Variation {
        tag: u32::from_be_bytes(*b"wght"),
        value: fixed_from_f32(900.0),
    }]);
    context.add_variations(vec![Variation {
        tag: u32::from_be_bytes(*b"wght"),
        value: fixed_from_f32(100.0),
    }]);
    assert_eq!(context.variations.len(), 2);
    context.resolve_variations(&axes, &None);
    assert_eq!(context.coords[0].to_bits(), -16384);

    // setting coordinates clears the accumulated settings
    let mut context = Context::new();
    context.add_variations(vec![Variation {
        tag: u32::from_be_bytes(*b"wght"),
        value: fixed_from_f32(900.0),
    }]);
    context.set_coords(Vec::new());
    assert_eq!(context.variations.len(), 0);
}

#[test]
fn resolve_variations_applies_avar() {
    let mut context = Context::new();
    let axes = vec![weight_axis()];

    let maps = Some(vec![SegmentMap::new(vec![
        AxisValueMap { from_coordinate: F2Dot14::from_bits(-16384), to_coordinate: F2Dot14::from_bits(-16384) },
        AxisValueMap { from_coordinate: F2Dot14::from_bits(0), to_coordinate: F2Dot14::from_bits(0) },
        AxisValueMap { from_coordinate: F2Dot14::from_bits(16384), to_coordinate: F2Dot14::from_bits(8192) },
    ])]);
    context.add_variations(vec![Variation {
        tag: u32::from_be_bytes(*b"wght"),
        value: fixed_from_f32(900.0),
    }]);
    context.resolve_variations(&axes, &maps);
    assert_eq!(context.coords[0].to_bits(), 8192);
}

#[test]
fn mode_from_str() {
    assert!(matches!(Mode::from_str("parse"), Ok(Mode::Parse)));
    assert!(matches!(Mode::from_str("compile"), Ok(Mode::Compile)));
    assert!(Mode::from_str("other").is_err());
}
