//! End-to-end encoder tests: version selection, data encoding,
//! error-correction vectors, and round trips through an independent,
//! standard-compliant decoder.

use qr_symbol::api::{generate, generate_qr_code_with_options};
use qr_symbol::codec::{add_ec, encode, fits, select_version};
use qr_symbol::gf::{gen_poly, rs_remainder};
use qr_symbol::grid::ModuleGrid;
use qr_symbol::types::{
    CenterImage, EcLevel, LocatorStyle, ModuleStyle, QrError, QuietZone,
};

/// Decodes a finished grid with the `qr_code` crate's decoder.
fn decode_grid(g: &ModuleGrid) -> String {
    let n = g.size;
    let cells = g.cells.clone();
    let simple = qr_code::decode::SimpleGrid::from_func(n, |x, y| cells[y * n + x]);
    let (_meta, content) = qr_code::decode::Grid::new(simple)
        .decode()
        .expect("the symbol must decode");
    content
}

#[test]
fn select_version_minimal_for_small_payloads() {
    // Version 1 at level L holds 17 bytes; 18 bytes need version 2.
    assert_eq!(select_version(17, EcLevel::L, None), Ok(1));
    assert_eq!(select_version(18, EcLevel::L, None), Ok(2));
    // No smaller version than the returned one fits.
    let v = select_version(100, EcLevel::H, None).unwrap();
    for w in 1..v {
        assert!(!fits(100, w, EcLevel::H));
    }
    assert!(fits(100, v, EcLevel::H));
}

#[test]
fn select_version_respects_minimum() {
    assert_eq!(select_version(5, EcLevel::M, Some(5)), Ok(5));
    assert_eq!(select_version(5, EcLevel::M, Some(40)), Ok(40));
    assert_eq!(select_version(5, EcLevel::M, Some(41)), Err(QrError::UnsupportedVersion));
    assert_eq!(select_version(5, EcLevel::M, Some(0)), Err(QrError::UnsupportedVersion));
}

#[test]
fn version_forty_boundary() {
    // Level L data capacity of version 40 is 2956 codewords: 2953 payload bytes.
    assert_eq!(select_version(2953, EcLevel::L, None), Ok(40));
    assert_eq!(select_version(2954, EcLevel::L, None), Err(QrError::DataTooLong));
    // Level H: 1276 data codewords, 1273 payload bytes.
    assert_eq!(select_version(1273, EcLevel::H, None), Ok(40));
    assert_eq!(select_version(1274, EcLevel::H, None), Err(QrError::DataTooLong));
}

#[test]
fn boundary_payload_encodes_and_decodes() {
    let payload = vec![b'x'; 2953];
    let g = generate(&payload, EcLevel::L, None).expect("exactly at capacity");
    assert_eq!(g.version, 40);
    assert_eq!(g.size, 177);
    assert_eq!(decode_grid(&g).as_bytes(), &payload[..]);
    let too_long = vec![b'x'; 2954];
    match generate(&too_long, EcLevel::L, None) {
        Err(e) => assert_eq!(e, QrError::DataTooLong),
        Ok(_) => panic!("a payload one byte over capacity must be rejected"),
    }
}

#[test]
fn empty_payload_data_codewords() {
    // Mode 0100, count 0, terminator, then alternating pad codewords.
    let cw = encode(&Vec::new(), 1, EcLevel::M).unwrap();
    assert_eq!(
        cw,
        vec![0x40, 0x00, 0xec, 0x11, 0xec, 0x11, 0xec, 0x11, 0xec, 0x11, 0xec, 0x11, 0xec, 0x11,
            0xec, 0x11]
    );
}

#[test]
fn generator_polynomial_matches_standard() {
    // Degree-ten generator from the standard's tables.
    assert_eq!(gen_poly(10), vec![1, 216, 194, 159, 111, 199, 94, 95, 113, 157, 193]);
}

#[test]
fn reed_solomon_known_vector() {
    // The classic version 1-M worked example.
    let data = vec![32u8, 91, 11, 120, 209, 114, 220, 77, 67, 64, 236, 17, 236, 17, 236, 17];
    let gen = gen_poly(10);
    assert_eq!(
        rs_remainder(&data, &gen),
        vec![196, 35, 39, 119, 235, 215, 231, 226, 93, 23]
    );
}

#[test]
fn interleaving_single_block_is_identity_plus_ec() {
    let data = vec![32u8, 91, 11, 120, 209, 114, 220, 77, 67, 64, 236, 17, 236, 17, 236, 17];
    let full = add_ec(&data, 1, EcLevel::M);
    assert_eq!(full.len(), 26);
    assert_eq!(&full[..16], &data[..]);
    assert_eq!(&full[16..], &[196, 35, 39, 119, 235, 215, 231, 226, 93, 23]);
}

#[test]
fn hello_is_version_one_with_finder_patterns() {
    let g = generate(&b"HELLO".to_vec(), EcLevel::M, None).expect("fits version 1");
    assert_eq!(g.version, 1);
    assert_eq!(g.size, 21);
    let cell = |r: usize, c: usize| g.cells[r * 21 + c];
    // Finder pattern at the three corners: dark border, light ring, dark core.
    for corner in [(0usize, 0usize), (0, 14), (14, 0)] {
        let (r0, c0) = corner;
        for k in 0..7 {
            assert!(cell(r0, c0 + k), "outer border row");
            assert!(cell(r0 + 6, c0 + k), "outer border row");
            assert!(cell(r0 + k, c0), "outer border column");
            assert!(cell(r0 + k, c0 + 6), "outer border column");
        }
        assert!(!cell(r0 + 1, c0 + 1) && !cell(r0 + 1, c0 + 5), "light ring");
        assert!(cell(r0 + 3, c0 + 3), "dark core");
    }
    // Separators are light.
    for k in 0..8 {
        assert!(!cell(7, k));
        assert!(!cell(k, 7));
    }
    assert_eq!(decode_grid(&g), "HELLO");
}

#[test]
fn two_hundred_bytes_h_min_five() {
    let payload = vec![b'a'; 200];
    let g = generate(&payload, EcLevel::H, Some(5)).expect("fits");
    // The smallest version of at least 5 whose H capacity covers 200 bytes.
    assert_eq!(g.version, 15);
    for w in 5..15 {
        assert!(!fits(200, w, EcLevel::H));
    }
    assert_eq!(decode_grid(&g).as_bytes(), &payload[..]);
}

#[test]
fn round_trip_across_levels_and_versions() {
    let cases: Vec<Vec<u8>> = vec![
        vec![b'Q'],
        b"byte mode payload".to_vec(),
        vec![b'z'; 17],
        vec![b'z'; 18],
        vec![b'w'; 107],
        vec![b'm'; 300],
    ];
    for payload in cases {
        for ec in [EcLevel::L, EcLevel::M, EcLevel::Q, EcLevel::H] {
            let g = generate(&payload, ec, None).expect("payload fits");
            assert_eq!(decode_grid(&g).as_bytes(), &payload[..], "level {:?}", ec);
        }
    }
}

#[test]
fn encoding_is_deterministic() {
    let payload = b"determinism check".to_vec();
    let a = generate(&payload, EcLevel::Q, Some(3)).unwrap();
    let b = generate(&payload, EcLevel::Q, Some(3)).unwrap();
    assert_eq!(a.version, b.version);
    assert_eq!(a.cells, b.cells);
    let ra = generate_qr_code_with_options(
        &payload,
        ModuleStyle::Circles,
        LocatorStyle::Rounded,
        CenterImage::Dino,
        QuietZone::Included,
    )
    .unwrap();
    let rb = generate_qr_code_with_options(
        &payload,
        ModuleStyle::Squares,
        LocatorStyle::Square,
        CenterImage::NoCenterImage,
        QuietZone::Included,
    )
    .unwrap();
    // Style options are presentation-only: the pixels are identical.
    assert_eq!(ra.data, rb.data);
    assert_eq!(ra.size, rb.size);
}

#[test]
fn with_options_prefers_version_five() {
    let res = generate_qr_code_with_options(
        &b"HELLO".to_vec(),
        ModuleStyle::Circles,
        LocatorStyle::Rounded,
        CenterImage::Dino,
        QuietZone::WillBeAddedByClient,
    )
    .unwrap();
    // Version 5 is 37 modules; no quiet zone is added here.
    assert_eq!(res.original_size, 37);
    assert_eq!(res.size, 37);
    assert_eq!(res.data.len(), 37 * 37);
}

#[test]
fn with_options_takes_a_larger_version_when_five_is_too_small() {
    // 100 bytes exceed version 5-M (84 bytes) and land in version 6-M (106).
    let payload = vec![b'f'; 100];
    let res = generate_qr_code_with_options(
        &payload,
        ModuleStyle::Squares,
        LocatorStyle::Square,
        CenterImage::NoCenterImage,
        QuietZone::WillBeAddedByClient,
    )
    .unwrap();
    assert_eq!(res.original_size, 41);
}

#[test]
fn with_options_reports_data_too_long() {
    let payload = vec![b'f'; 3000];
    match generate_qr_code_with_options(
        &payload,
        ModuleStyle::Squares,
        LocatorStyle::Square,
        CenterImage::NoCenterImage,
        QuietZone::WillBeAddedByClient,
    ) {
        Err(e) => assert_eq!(e, QrError::DataTooLong),
        Ok(_) => panic!("an oversized payload must be rejected"),
    }
}
