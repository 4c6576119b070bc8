use finvoroo_print_agent::print::escpos_raster::{
    center_content_on_head, escpos_payload, escpos_payload_with_cut_feed, is_narrow_band_80mm_head,
    is_wide_80mm_left_align_head, left_margin_nudge_dots, pack_luma, pad_bitmap_to_head,
    pad_bitmap_to_head_centered, paper_geometry, paper_geometry_for_printer, payload_width_dots,
    shift_content_left, trim_leading_blank_columns, trim_leading_blank_rows, trim_trailing_blank_columns,
    trim_trailing_blank_rows, append_blank_rows, content_ink_column_bounds, crop_columns, is_full_width_rule_row,
    MonoBitmap, BLACK_THRESHOLD, CUT_FEED_UNITS_DEFAULT,
};

#[test]
fn geometry_uses_printable_width_not_roll_width() {
    assert_eq!(paper_geometry(58), (48, 384));
    assert_eq!(paper_geometry(80), (72, 576));
}

#[test]
fn layout_and_payload_both_use_576_dot_band_on_80mm() {
    for printer in [
        "Black Copper POS-80",
        "BlackCopper BC-96AC",
        "Xprinter XP-N160II",
        "Bixolon SRP-350plusIII",
        "Epson TM-T88VI",
    ] {
        assert_eq!(paper_geometry_for_printer(80, printer), (72, 576), "{printer}");
        assert_eq!(payload_width_dots(80, printer), 576, "{printer}");
    }
    assert_eq!(paper_geometry_for_printer(58, "Black Copper POS-80"), (48, 384));
    assert_eq!(payload_width_dots(58, "Black Copper POS-80"), 384);
}

#[test]
fn center_content_does_not_pad_when_capture_matches_head_width() {
    let luma = vec![0u8; 576];
    let bitmap = pack_luma(576, 1, &luma, 576, BLACK_THRESHOLD);
    let out = center_content_on_head(bitmap, 576);
    assert_eq!(out.width, 576);
    assert_eq!(out.bits, vec![0xff; 72]);
}

#[test]
fn center_content_on_head_balances_gutters_on_640() {
    let mut luma = vec![255u8; 16];
    for i in 4..12 {
        luma[i] = 0;
    }
    let bitmap = pack_luma(16, 1, &luma, 16, BLACK_THRESHOLD);
    let centered = center_content_on_head(bitmap, 32);
    assert_eq!(centered.width, 32);
    for x in 0..32u32 {
        let byte = (x / 8) as usize;
        let mask = 0x80u8 >> (x % 8);
        let ink = centered.bits[byte] & mask != 0;
        assert_eq!(ink, (12..20).contains(&x), "col {x}");
    }
}

#[test]
fn narrow_band_detector_only_matches_known_premium_heads() {
    assert!(is_narrow_band_80mm_head("Bixolon SRP-350plusIII"));
    assert!(is_narrow_band_80mm_head("Bixolon BC-95AC"));
    assert!(is_narrow_band_80mm_head("Epson TM-T20III"));
    assert!(!is_narrow_band_80mm_head("Black Copper POS-80"));
    assert!(!is_narrow_band_80mm_head("BC-96AC"));
    assert!(!is_narrow_band_80mm_head("BC86"));
    assert!(!is_narrow_band_80mm_head("Xprinter XP-N160II"));
    assert!(!is_narrow_band_80mm_head("POS-80 USB"));
    assert!(is_wide_80mm_left_align_head("BC-96AC"));
    assert!(!is_wide_80mm_left_align_head("Bixolon SRP-350plusIII"));
}

#[test]
fn geometry_layout_width_matches_dot_pitch() {
    for roll in [58, 80] {
        let (layout_mm, dots) = paper_geometry(roll);
        assert_eq!(dots, layout_mm * 8, "{roll}mm roll");
    }
}

#[test]
fn grey_logo_edges_burn_instead_of_fading() {
    let luma = [200u8, 207, 220, 255];
    let bitmap = pack_luma(4, 1, &luma, 8, BLACK_THRESHOLD);
    assert_eq!(bitmap.bits[0] & 0b1100_0000, 0b1100_0000);
    assert_eq!(bitmap.bits[0] & 0b0011_0000, 0);
}

#[test]
fn left_margin_nudge_is_disabled_for_universal_layout() {
    assert_eq!(left_margin_nudge_dots("Bixolon SRP-350plusIII", 80), 0);
    assert_eq!(left_margin_nudge_dots("Black Copper POS-80", 80), 0);
    assert_eq!(left_margin_nudge_dots("Xprinter XP-N160II", 58), 0);
}

#[test]
fn shift_content_left_moves_ink_without_changing_width() {
    let mut luma = vec![255u8; 16];
    for i in 8..16 {
        luma[i] = 0;
    }
    let bitmap = pack_luma(16, 1, &luma, 16, BLACK_THRESHOLD);
    let shifted = shift_content_left(bitmap, 8);
    assert_eq!(shifted.width, 16);
    assert_eq!(shifted.bits[0], 0b1111_1111);
    assert_eq!(shifted.bits[1], 0);
}

#[test]
fn pack_luma_sets_leftmost_dot_in_high_bit() {
    let luma = [0u8, 255, 255, 255, 255, 255, 255, 255];
    let bitmap = pack_luma(8, 1, &luma, 8, BLACK_THRESHOLD);
    assert_eq!(bitmap.bits, vec![0b1000_0000]);
    assert!(!bitmap.is_blank());
}

#[test]
fn pack_luma_pads_narrow_capture_with_white() {
    let luma = [0u8, 0];
    let bitmap = pack_luma(2, 1, &luma, 16, BLACK_THRESHOLD);
    assert_eq!(bitmap.stride(), 2);
    assert_eq!(bitmap.bits, vec![0b1100_0000, 0]);
}

#[test]
fn blank_capture_is_detected() {
    let luma = vec![255u8; 32];
    assert!(pack_luma(8, 4, &luma, 8, BLACK_THRESHOLD).is_blank());
}

#[test]
fn trim_keeps_ink_and_requested_margin() {
    let mut luma = vec![255u8; 8 * 10];
    for i in 0..8 {
        luma[8 * 2 + i] = 0;
    }
    let bitmap = pack_luma(8, 10, &luma, 8, BLACK_THRESHOLD);
    let trimmed = trim_trailing_blank_rows(bitmap, 3);
    assert_eq!(trimmed.height, 6);
    assert_eq!(trimmed.bits.len(), 6);
}

#[test]
fn trim_leading_drops_top_whitespace() {
    let mut luma = vec![255u8; 8 * 10];
    for i in 0..8 {
        luma[8 * 7 + i] = 0;
    }
    let bitmap = pack_luma(8, 10, &luma, 8, BLACK_THRESHOLD);
    let trimmed = trim_leading_blank_rows(bitmap);
    assert_eq!(trimmed.height, 3);
    assert_eq!(trimmed.bits.len(), 3);
}

#[test]
fn pad_bitmap_to_head_left_aligns_narrow_capture() {
    let luma = vec![0u8; 8 * 2];
    let bitmap = pack_luma(8, 2, &luma, 8, BLACK_THRESHOLD);
    let padded = pad_bitmap_to_head(bitmap, 16);
    assert_eq!(padded.width, 16);
    assert_eq!(padded.stride(), 2);
    assert_eq!(padded.bits.len(), 4);
}

#[test]
fn pad_bitmap_to_head_centered_splits_leftover() {
    let luma = vec![0u8; 8];
    let bitmap = pack_luma(8, 1, &luma, 8, BLACK_THRESHOLD);
    let padded = pad_bitmap_to_head_centered(bitmap, 16);
    assert_eq!(padded.width, 16);
    assert_eq!(padded.bits[0] & 0b1111_0000, 0);
    assert_eq!(padded.bits[0] & 0b0000_1111, 0b0000_1111);
    assert_eq!(padded.bits[1] & 0b1111_0000, 0b1111_0000);
    assert_eq!(padded.bits[1] & 0b0000_1111, 0);
}

#[test]
fn trim_leaves_blank_bitmap_alone() {
    let luma = vec![255u8; 8 * 4];
    let trimmed = trim_trailing_blank_rows(pack_luma(8, 4, &luma, 8, BLACK_THRESHOLD), 2);
    assert_eq!(trimmed.height, 4);
}

#[test]
fn payload_bands_long_receipts_and_cuts_once() {
    let height = 300;
    let luma = vec![0u8; 8 * height as usize];
    let bitmap = pack_luma(8, height, &luma, 8, BLACK_THRESHOLD);
    let payload = escpos_payload(&bitmap, 8);

    assert!(payload.starts_with(&[0x1b, 0x40]));
    assert!(payload.ends_with(&[0x1d, 0x56, 0x42, CUT_FEED_UNITS_DEFAULT]));

    let bands = payload.windows(4).filter(|w| *w == [0x1d, 0x76, 0x30, 0x00]).count();
    assert_eq!(bands, 3, "300 rows should stream as 128 + 128 + 44");

    let cuts = payload
        .windows(4)
        .filter(|w| *w == [0x1d, 0x56, 0x42, CUT_FEED_UNITS_DEFAULT])
        .count();
    assert_eq!(cuts, 1, "exactly one cut per receipt");
}

#[test]
fn payload_zeroes_left_margin_and_claims_full_print_width() {
    let luma = vec![0u8; 576 * 2];
    let bitmap = pack_luma(576, 2, &luma, 576, BLACK_THRESHOLD);
    let payload = escpos_payload(&bitmap, 576);

    let margin_at = payload
        .windows(4)
        .position(|w| w == [0x1d, 0x4c, 0x00, 0x00])
        .expect("GS L 0 0 left margin reset");
    let area_at = payload
        .windows(4)
        .position(|w| w == [0x1d, 0x57, 0x40, 0x02])
        .expect("GS W print area of 576 dots");
    let band_at = payload
        .windows(4)
        .position(|w| w == [0x1d, 0x76, 0x30, 0x00])
        .expect("band header");

    assert!(margin_at < band_at, "left margin reset must precede the image");
    assert!(area_at < band_at, "print area must precede the image");
}

#[test]
fn payload_sets_print_area_to_the_narrow_roll_width() {
    let luma = vec![0u8; 384];
    let bitmap = pack_luma(384, 1, &luma, 384, BLACK_THRESHOLD);
    let payload = escpos_payload(&bitmap, 384);
    assert!(
        payload.windows(4).any(|w| w == [0x1d, 0x57, 0x80, 0x01]),
        "58mm print area should be 384 dots"
    );
}

#[test]
fn payload_band_header_carries_width_and_row_count() {
    let luma = vec![0u8; 576 * 2];
    let bitmap = pack_luma(576, 2, &luma, 576, BLACK_THRESHOLD);
    let payload = escpos_payload(&bitmap, 576);
    let at = payload
        .windows(4)
        .position(|w| w == [0x1d, 0x76, 0x30, 0x00])
        .expect("band header");
    assert_eq!(&payload[at + 4..at + 8], &[72, 0, 2, 0]);
}

// ---- further cases ----------------------------------------------------------

fn bitmap_from_rows(width: u32, rows: &[&[u8]]) -> MonoBitmap {
    let mut luma = Vec::new();
    for row in rows {
        luma.extend_from_slice(row);
    }
    pack_luma(width, rows.len() as u32, &luma, width, BLACK_THRESHOLD)
}

#[test]
fn pack_luma_threshold_is_strict() {
    let luma = [207u8, 208, 209, 0, 255, 255, 255, 255];
    let bitmap = pack_luma(8, 1, &luma, 8, BLACK_THRESHOLD);
    assert_eq!(bitmap.bits, vec![0b1001_0000]);
}

#[test]
fn pack_luma_drops_columns_past_the_target_width() {
    let luma = [0u8; 16];
    let bitmap = pack_luma(16, 1, &luma, 4, BLACK_THRESHOLD);
    assert_eq!(bitmap.width, 4);
    assert_eq!(bitmap.bits, vec![0b1111_0000]);
}

#[test]
fn trim_leading_blank_columns_moves_ink_to_the_left_edge() {
    let w = 255u8;
    let bitmap = bitmap_from_rows(16, &[&[w, w, w, w, w, w, w, w, w, w, 0, 0, w, w, w, w]]);
    let trimmed = trim_leading_blank_columns(bitmap);
    assert_eq!(trimmed.width, 6);
    assert_eq!(trimmed.bits, vec![0b1100_0000]);
}

#[test]
fn trim_trailing_blank_columns_keeps_the_inked_span() {
    let w = 255u8;
    let bitmap = bitmap_from_rows(16, &[&[0, w, w, w, 0, w, w, w, w, w, w, w, w, w, w, w]]);
    let trimmed = trim_trailing_blank_columns(bitmap);
    assert_eq!(trimmed.width, 5);
    assert_eq!(trimmed.bits, vec![0b1000_1000]);
}

#[test]
fn full_width_rule_rows_are_recognised() {
    assert!(is_full_width_rule_row(&[0xff, 0xff], 16));
    assert!(!is_full_width_rule_row(&[0x00, 0x00], 16));
}

#[test]
fn content_bounds_of_a_blank_bitmap_are_none() {
    let bitmap = bitmap_from_rows(8, &[&[255u8; 8]]);
    assert_eq!(content_ink_column_bounds(&bitmap), None);
}

#[test]
fn content_bounds_span_the_inked_columns() {
    let w = 255u8;
    let bitmap = bitmap_from_rows(16, &[&[w, w, 0, w, w, w, w, w, w, 0, w, w, w, w, w, w]]);
    assert_eq!(content_ink_column_bounds(&bitmap), Some((2, 10)));
}

#[test]
fn append_blank_rows_adds_white_rows_below() {
    let bitmap = bitmap_from_rows(8, &[&[0u8; 8]]);
    let taller = append_blank_rows(bitmap, 2);
    assert_eq!(taller.height, 3);
    assert_eq!(taller.bits, vec![0xff, 0, 0]);
}

#[test]
fn payload_with_cut_feed_uses_the_given_feed() {
    let bitmap = bitmap_from_rows(8, &[&[0u8; 8]]);
    let payload = escpos_payload_with_cut_feed(&bitmap, 8, 80);
    assert!(payload.ends_with(&[0x1d, 0x56, 0x42, 80]));
    assert_eq!(payload.len(), 27 + 8 + 8 + 1 + 4);
}

#[test]
fn empty_bitmap_payload_has_no_band() {
    let bitmap = MonoBitmap { width: 8, height: 0, bits: Vec::new() };
    let payload = escpos_payload(&bitmap, 576);
    assert_eq!(payload.windows(4).filter(|w| *w == [0x1d, 0x76, 0x30, 0x00]).count(), 0);
    assert_eq!(payload.len(), 27 + 8 + 4);
}

#[test]
fn shift_by_zero_or_full_width_is_identity() {
    let bitmap = bitmap_from_rows(8, &[&[0u8, 255, 0, 255, 0, 255, 0, 255]]);
    let same = shift_content_left(bitmap, 0);
    assert_eq!(same.bits, vec![0b1010_1010]);
    let again = shift_content_left(same, 8);
    assert_eq!(again.bits, vec![0b1010_1010]);
}

#[test]
fn pad_to_a_narrower_head_crops() {
    let bitmap = bitmap_from_rows(16, &[&[0u8; 16]]);
    let padded = pad_bitmap_to_head(bitmap, 8);
    assert_eq!(padded.width, 8);
    assert_eq!(padded.bits, vec![0xff]);
}

#[test]
fn crop_keeps_the_requested_columns() {
    let w = 255u8;
    let bitmap = bitmap_from_rows(16, &[&[w, w, 0, 0, w, w, w, w, w, w, w, w, w, w, w, 0]]);
    let cropped = crop_columns(bitmap, 2, 6);
    assert_eq!(cropped.width, 4);
    assert_eq!(cropped.bits, vec![0b1100_0000]);
    let whole = bitmap_from_rows(8, &[&[0u8; 8]]);
    let same = crop_columns(whole, 0, 100);
    assert_eq!(same.width, 8);
    let right = crop_columns(same, 6, 100);
    assert_eq!(right.width, 2);
    assert_eq!(right.bits, vec![0b1100_0000]);
}

#[test]
fn shifting_a_bitmap_without_rows_keeps_its_width() {
    let bitmap = MonoBitmap { width: 16, height: 0, bits: Vec::new() };
    let shifted = shift_content_left(bitmap, 8);
    assert_eq!(shifted.width, 16);
    assert_eq!(shifted.height, 0);
    assert!(shifted.bits.is_empty());
}

#[test]
fn cropping_to_an_odd_head_width_whitens_the_rest_of_the_byte() {
    let bitmap = bitmap_from_rows(16, &[&[0u8; 16]]);
    let cropped = pad_bitmap_to_head(bitmap, 12);
    assert_eq!(cropped.width, 12);
    assert_eq!(cropped.bits, vec![0xff, 0b1111_0000]);
    let centered = pad_bitmap_to_head_centered(bitmap_from_rows(16, &[&[0u8; 16]]), 12);
    assert_eq!(centered.bits, vec![0xff, 0b1111_0000]);
}
