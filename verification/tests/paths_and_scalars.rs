use mgstudio_render::align_up;
use mgstudio_render::fbits::{f32_bits_gt_zero, f32_bits_is_zero, f32_bits_le, push_u32_le};
use mgstudio_render::source_spec::{
    join_dir_best_effort, normalize_logical_path, parse_dir_source, PathError, SourceSpecError,
};

#[test]
fn parse_dir_source_strips_scheme_and_trims() {
    let d = parse_dir_source("  dir:/data/assets  ", ".").unwrap();
    assert_eq!(d.base, "/data/assets");
    let d = parse_dir_source("plain/path", ".").unwrap();
    assert_eq!(d.base, "plain/path");
}

#[test]
fn parse_dir_source_falls_back_to_default() {
    let d = parse_dir_source("   ", "./fallback").unwrap();
    assert_eq!(d.base, "./fallback");
    // The default is subject to the same scheme stripping.
    let d = parse_dir_source("", "dir:base").unwrap();
    assert_eq!(d.base, "base");
}

#[test]
fn parse_dir_source_rejects_empty_base() {
    assert_eq!(parse_dir_source("dir:   ", "").unwrap_err(), SourceSpecError::EmptyBase);
}

#[test]
fn normalize_collapses_separators() {
    assert_eq!(normalize_logical_path("a//b///c").unwrap(), "a/b/c");
    assert_eq!(normalize_logical_path("sprites/hero.png").unwrap(), "sprites/hero.png");
    assert_eq!(normalize_logical_path("solo").unwrap(), "solo");
    assert_eq!(normalize_logical_path("trailing/").unwrap(), "trailing");
}

#[test]
fn normalize_rejects_bad_paths() {
    assert_eq!(normalize_logical_path("").unwrap_err(), PathError::EmptyPath);
    assert_eq!(normalize_logical_path("/abs").unwrap_err(), PathError::AbsolutePath);
    assert_eq!(normalize_logical_path("\\abs").unwrap_err(), PathError::AbsolutePath);
    assert_eq!(normalize_logical_path("a/../b").unwrap_err(), PathError::TraversalSegment);
    assert_eq!(normalize_logical_path("a/./b").unwrap_err(), PathError::TraversalSegment);
    assert_eq!(normalize_logical_path("a/b:c").unwrap_err(), PathError::InvalidSegment);
    assert_eq!(normalize_logical_path("a/b\\c").unwrap_err(), PathError::InvalidSegment);
}

#[test]
fn join_uses_single_separator_for_valid_paths() {
    assert_eq!(join_dir_best_effort("assets", "sprites/hero.png"), "assets/sprites/hero.png");
    assert_eq!(join_dir_best_effort("assets/", "a//b"), "assets/a/b");
    assert_eq!(join_dir_best_effort("", "a/b"), "a/b");
}

#[test]
fn join_falls_back_for_invalid_paths() {
    // An absolute logical path fails validation; the naive join strips
    // the meeting separators.
    assert_eq!(join_dir_best_effort("assets//", "/abs/icon.png"), "assets/abs/icon.png");
    assert_eq!(join_dir_best_effort("///", "/x"), "x");
}

#[test]
fn align_up_rounds_to_multiples() {
    assert_eq!(align_up(0, 256), 0);
    assert_eq!(align_up(1, 256), 256);
    assert_eq!(align_up(80, 256), 256);
    assert_eq!(align_up(256, 256), 256);
    assert_eq!(align_up(257, 256), 512);
    assert_eq!(align_up(500, 0), 500);
}

#[test]
fn scalar_bit_predicates_match_float_semantics() {
    assert!(f32_bits_is_zero(0.0f32.to_bits()));
    assert!(f32_bits_is_zero((-0.0f32).to_bits()));
    assert!(!f32_bits_is_zero(1.0f32.to_bits()));

    assert!(f32_bits_gt_zero(0.5f32.to_bits()));
    assert!(f32_bits_gt_zero(f32::INFINITY.to_bits()));
    assert!(!f32_bits_gt_zero(0.0f32.to_bits()));
    assert!(!f32_bits_gt_zero((-3.0f32).to_bits()));
    assert!(!f32_bits_gt_zero(f32::NAN.to_bits()));

    let pairs: [(f32, f32); 8] = [
        (0.25, 0.75),
        (0.75, 0.25),
        (-1.5, 1.5),
        (-0.0, 0.0),
        (0.0, -0.0),
        (-7.25, -2.5),
        (f32::NEG_INFINITY, 3.0),
        (2.0, 2.0),
    ];
    for (a, b) in pairs {
        assert_eq!(f32_bits_le(a.to_bits(), b.to_bits()), a <= b, "{a} <= {b}");
    }
    assert!(!f32_bits_le(f32::NAN.to_bits(), 1.0f32.to_bits()));
    assert!(!f32_bits_le(1.0f32.to_bits(), f32::NAN.to_bits()));
}

#[test]
fn words_serialize_little_endian() {
    let mut buf: Vec<u8> = Vec::new();
    push_u32_le(&mut buf, 0x0A0B_0C0D);
    push_u32_le(&mut buf, 1.0f32.to_bits());
    assert_eq!(&buf[..4], &[0x0D, 0x0C, 0x0B, 0x0A]);
    assert_eq!(&buf[4..], &1.0f32.to_le_bytes());
}
