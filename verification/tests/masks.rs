//! Mask selection against an independent penalty harness, and renderer
//! checks.

use qr_symbol::api::generate;
use qr_symbol::codec::{add_ec, encode, select_version};
use qr_symbol::grid::build_grid;
use qr_symbol::mask::{choose_mask, finalize_mask, penalty};
use qr_symbol::render::render;
use qr_symbol::types::EcLevel;

/// Rule one, independently: runs of five or more equal modules.
fn ref_runs(line: &[bool]) -> u64 {
    let mut score = 0u64;
    let mut i = 0;
    while i < line.len() {
        let mut j = i;
        while j < line.len() && line[j] == line[i] {
            j += 1;
        }
        let run = j - i;
        if run >= 5 {
            score += 3 + (run as u64 - 5);
        }
        i = j;
    }
    score
}

/// Rule three, independently: finder-like windows of eleven modules.
fn ref_finder_like(line: &[bool]) -> u64 {
    let pat_a = [true, false, true, true, true, false, true, false, false, false, false];
    let pat_b = [false, false, false, false, true, false, true, true, true, false, true];
    let mut score = 0u64;
    if line.len() < 11 {
        return 0;
    }
    for k in 0..=(line.len() - 11) {
        let w = &line[k..k + 11];
        if w == &pat_a[..] || w == &pat_b[..] {
            score += 40;
        }
    }
    score
}

/// All four penalty rules, written independently of the library.
fn ref_penalty(cells: &[bool], n: usize) -> u64 {
    let mut total = 0u64;
    for r in 0..n {
        let row: Vec<bool> = (0..n).map(|c| cells[r * n + c]).collect();
        total += ref_runs(&row) + ref_finder_like(&row);
    }
    for c in 0..n {
        let col: Vec<bool> = (0..n).map(|r| cells[r * n + c]).collect();
        total += ref_runs(&col) + ref_finder_like(&col);
    }
    for r in 0..n - 1 {
        for c in 0..n - 1 {
            let a = cells[r * n + c];
            if a == cells[r * n + c + 1] && a == cells[(r + 1) * n + c]
                && a == cells[(r + 1) * n + c + 1]
            {
                total += 3;
            }
        }
    }
    let dark = cells.iter().filter(|&&b| b).count() as u64;
    let t = (n * n) as u64;
    let diff = if 20 * dark >= 10 * t { 20 * dark - 10 * t } else { 10 * t - 20 * dark };
    total + 10 * (diff / t)
}

#[test]
fn chosen_mask_has_minimum_penalty() {
    for payload in [&b"MASK SELECTION"[..], &b"another payload, longer, with more data"[..]] {
        let v = select_version(payload.len(), EcLevel::M, None).unwrap();
        let cw = encode(&payload.to_vec(), v, EcLevel::M).unwrap();
        let full = add_ec(&cw, v, EcLevel::M);
        let g = build_grid(&full, v).unwrap();
        let (chosen, out) = choose_mask(&g, EcLevel::M);
        let mut scores = Vec::new();
        for m in 0..8u8 {
            let cand = finalize_mask(&g, EcLevel::M, m);
            let independent = ref_penalty(&cand.cells, cand.size);
            assert_eq!(penalty(&cand), independent, "mask {}", m);
            scores.push(independent);
        }
        let best = *scores.iter().min().unwrap();
        assert_eq!(scores[chosen as usize], best);
        // Ties break toward the lowest mask index.
        let first_best = scores.iter().position(|&p| p == best).unwrap();
        assert_eq!(chosen as usize, first_best);
        assert_eq!(penalty(&out), best);
    }
}

#[test]
fn renderer_adds_quiet_zone() {
    let g = generate(&b"HELLO".to_vec(), EcLevel::M, None).unwrap();
    assert_eq!(g.size, 21);
    let buf = render(&g, 4);
    // A 21x21 grid with a four-module quiet zone renders as 29x29.
    assert_eq!(buf.len(), 29 * 29);
    for r in 0..29 {
        for c in 0..29 {
            let px = buf[r * 29 + c];
            if r < 4 || r >= 25 || c < 4 || c >= 25 {
                assert_eq!(px, 0, "quiet zone at ({}, {})", r, c);
            } else {
                let dark = g.cells[(r - 4) * 21 + (c - 4)];
                assert_eq!(px, if dark { 1 } else { 0 });
            }
        }
    }
}

#[test]
fn renderer_without_quiet_zone_copies_the_grid() {
    let g = generate(&b"no margin"[..].to_vec(), EcLevel::L, None).unwrap();
    let buf = render(&g, 0);
    assert_eq!(buf.len(), g.size * g.size);
    for (i, &px) in buf.iter().enumerate() {
        assert_eq!(px == 1, g.cells[i]);
        assert!(px <= 1);
    }
}
