use h264_reader::nal::slice::cavlc::{
    coeff_token_0, coeff_token_2, coeff_token_4, coeff_token_chroma_dc, run_before_1, run_before_2, run_before_3,
    run_before_4, run_before_5, run_before_6, run_before_gt6, total_zeros_1, total_zeros_10, total_zeros_11,
    total_zeros_12, total_zeros_13, total_zeros_14, total_zeros_15, total_zeros_2, total_zeros_3, total_zeros_4,
    total_zeros_5, total_zeros_6, total_zeros_7, total_zeros_8, total_zeros_9, total_zeros_chroma_dc_1,
    total_zeros_chroma_dc_2, total_zeros_chroma_dc_3,
};
fn check_prefix_free_coeff_token(table: &[(u8, u16, u8, u8)], name: &str) {
    for i in 0..table.len() {
        for j in (i + 1)..table.len() {
            let (len_a, bits_a, tc_a, to_a) = table[i];
            let (len_b, bits_b, tc_b, to_b) = table[j];
            if len_a == len_b {
                // Same length: just check they differ in bits (no duplicate codes)
                assert_ne!(
                    bits_a, bits_b,
                    "{name}: duplicate code at entries {i} (TC={tc_a},TO={to_a}) and {j} (TC={tc_b},TO={to_b}), len={len_a} bits={bits_a:#b}"
                );
            } else {
                // Different length: check neither is a prefix of the other
                let (short_len, short_bits, long_len, long_bits) = if len_a < len_b {
                    (len_a, bits_a, len_b, bits_b)
                } else {
                    (len_b, bits_b, len_a, bits_a)
                };
                let shifted = long_bits >> (long_len - short_len);
                assert_ne!(
                    shifted, short_bits,
                    "{name}: prefix collision between entry {i} (len={len_a},bits={bits_a:#b},TC={tc_a},TO={to_a}) and entry {j} (len={len_b},bits={bits_b:#b},TC={tc_b},TO={to_b})"
                );
            }
        }
    }
}

fn check_coeff_token_coverage(table: &[(u8, u16, u8, u8)], max_num_coeff: u8, name: &str) {
    let mut seen_pairs = std::collections::HashSet::new();
    let mut seen_codes = std::collections::HashSet::new();
    for (idx, &(len, bits, tc, to)) in table.iter().enumerate() {
        assert!(len > 0, "{}[{}]: zero-length code", name, idx);
        assert!(
            (bits as u32) < (1u32 << len),
            "{}[{}]: bits {:#b} don't fit in {} bits",
            name,
            idx,
            bits,
            len
        );
        assert!(
            to <= tc.min(3),
            "{}[{}]: TO={} > min(3, TC={})",
            name,
            idx,
            to,
            tc
        );
        assert!(
            tc <= max_num_coeff,
            "{}[{}]: TC={} > max={}",
            name,
            idx,
            tc,
            max_num_coeff
        );
        assert!(
            seen_pairs.insert((tc, to)),
            "{}[{}]: duplicate (TC={}, TO={})",
            name,
            idx,
            tc,
            to
        );
        assert!(
            seen_codes.insert((len, bits)),
            "{}[{}]: duplicate code (len={}, bits={:#b})",
            name,
            idx,
            len,
            bits
        );
    }
    // Check all valid (TC, TO) pairs are present
    for tc in 0..=max_num_coeff {
        for to in 0..=tc.min(3) {
            assert!(
                seen_pairs.contains(&(tc, to)),
                "{}: missing (TC={}, TO={})",
                name,
                tc,
                to
            );
        }
    }
}

#[test]
fn coeff_token_tables_are_prefix_free() {
    check_prefix_free_coeff_token(&coeff_token_0()[..], "COEFF_TOKEN_0");
    check_prefix_free_coeff_token(&coeff_token_2()[..], "COEFF_TOKEN_2");
    check_prefix_free_coeff_token(&coeff_token_4()[..], "COEFF_TOKEN_4");
    check_prefix_free_coeff_token(&coeff_token_chroma_dc()[..], "COEFF_TOKEN_CHROMA_DC");
}

#[test]
fn coeff_token_0_complete_coverage() {
    check_coeff_token_coverage(&coeff_token_0()[..], 16, "COEFF_TOKEN_0");
}

#[test]
fn coeff_token_2_complete_coverage() {
    check_coeff_token_coverage(&coeff_token_2()[..], 16, "COEFF_TOKEN_2");
}

#[test]
fn coeff_token_4_complete_coverage() {
    check_coeff_token_coverage(&coeff_token_4()[..], 16, "COEFF_TOKEN_4");
}

#[test]
fn coeff_token_chroma_dc_complete_coverage() {
    check_coeff_token_coverage(&coeff_token_chroma_dc()[..], 4, "COEFF_TOKEN_CHROMA_DC");
}

fn check_prefix_free_value_vlc(table: &[(u8, u16, u8)], name: &str) {
    for i in 0..table.len() {
        for j in (i + 1)..table.len() {
            let (len_a, bits_a, val_a) = table[i];
            let (len_b, bits_b, val_b) = table[j];
            if len_a == len_b {
                assert_ne!(
                    bits_a, bits_b,
                    "{name}: duplicate code at entries {i} (val={val_a}) and {j} (val={val_b}), len={len_a} bits={bits_a:#b}"
                );
            } else {
                let (short_len, short_bits, long_len, long_bits) = if len_a < len_b {
                    (len_a, bits_a, len_b, bits_b)
                } else {
                    (len_b, bits_b, len_a, bits_a)
                };
                let shifted = long_bits >> (long_len - short_len);
                assert_ne!(
                    shifted, short_bits,
                    "{name}: prefix collision between entry {i} (len={len_a},bits={bits_a:#b},val={val_a}) and entry {j} (len={len_b},bits={bits_b:#b},val={val_b})"
                );
            }
        }
    }
}

fn check_value_vlc_coverage(table: &[(u8, u16, u8)], max_val: u8, name: &str) {
    let mut seen_vals = std::collections::HashSet::new();
    let mut seen_codes = std::collections::HashSet::new();
    for (idx, &(len, bits, val)) in table.iter().enumerate() {
        assert!(len > 0, "{}[{}]: zero-length code", name, idx);
        assert!(
            (bits as u32) < (1u32 << len),
            "{}[{}]: bits {:#b} don't fit in {} bits",
            name,
            idx,
            bits,
            len
        );
        assert!(
            val <= max_val,
            "{}[{}]: val={} > max={}",
            name,
            idx,
            val,
            max_val
        );
        assert!(
            seen_vals.insert(val),
            "{}[{}]: duplicate value {}",
            name,
            idx,
            val
        );
        assert!(
            seen_codes.insert((len, bits)),
            "{}[{}]: duplicate code (len={}, bits={:#b})",
            name,
            idx,
            len,
            bits
        );
    }
    for v in 0..=max_val {
        assert!(seen_vals.contains(&v), "{}: missing value {}", name, v);
    }
}

#[test]
fn total_zeros_luma_tables_complete_and_prefix_free() {
    let tables: &[(&[(u8, u16, u8)], u8, &str)] = &[
        (&total_zeros_1()[..], 15, "TOTAL_ZEROS_1"),
        (&total_zeros_2()[..], 14, "TOTAL_ZEROS_2"),
        (&total_zeros_3()[..], 13, "TOTAL_ZEROS_3"),
        (&total_zeros_4()[..], 12, "TOTAL_ZEROS_4"),
        (&total_zeros_5()[..], 11, "TOTAL_ZEROS_5"),
        (&total_zeros_6()[..], 10, "TOTAL_ZEROS_6"),
        (&total_zeros_7()[..], 9, "TOTAL_ZEROS_7"),
        (&total_zeros_8()[..], 8, "TOTAL_ZEROS_8"),
        (&total_zeros_9()[..], 7, "TOTAL_ZEROS_9"),
        (&total_zeros_10()[..], 6, "TOTAL_ZEROS_10"),
        (&total_zeros_11()[..], 5, "TOTAL_ZEROS_11"),
        (&total_zeros_12()[..], 4, "TOTAL_ZEROS_12"),
        (&total_zeros_13()[..], 3, "TOTAL_ZEROS_13"),
        (&total_zeros_14()[..], 2, "TOTAL_ZEROS_14"),
        (&total_zeros_15()[..], 1, "TOTAL_ZEROS_15"),
    ];
    for &(table, max_val, name) in tables {
        check_prefix_free_value_vlc(table, name);
        check_value_vlc_coverage(table, max_val, name);
    }
}

#[test]
fn total_zeros_chroma_dc_tables_complete_and_prefix_free() {
    let tables: &[(&[(u8, u16, u8)], u8, &str)] = &[
        (&total_zeros_chroma_dc_1()[..], 3, "TOTAL_ZEROS_CHROMA_DC_1"),
        (&total_zeros_chroma_dc_2()[..], 2, "TOTAL_ZEROS_CHROMA_DC_2"),
        (&total_zeros_chroma_dc_3()[..], 1, "TOTAL_ZEROS_CHROMA_DC_3"),
    ];
    for &(table, max_val, name) in tables {
        check_prefix_free_value_vlc(table, name);
        check_value_vlc_coverage(table, max_val, name);
    }
}

#[test]
fn run_before_tables_complete_and_prefix_free() {
    let tables: &[(&[(u8, u16, u8)], u8, &str)] = &[
        (&run_before_1()[..], 1, "RUN_BEFORE_1"),
        (&run_before_2()[..], 2, "RUN_BEFORE_2"),
        (&run_before_3()[..], 3, "RUN_BEFORE_3"),
        (&run_before_4()[..], 4, "RUN_BEFORE_4"),
        (&run_before_5()[..], 5, "RUN_BEFORE_5"),
        (&run_before_6()[..], 6, "RUN_BEFORE_6"),
        (&run_before_gt6()[..], 14, "RUN_BEFORE_GT6"),
    ];
    for &(table, max_val, name) in tables {
        check_prefix_free_value_vlc(table, name);
        check_value_vlc_coverage(table, max_val, name);
    }
}

#[test]
fn coeff_token_tables_sorted_by_length() {
    for (table, name) in [
        (&coeff_token_0()[..], "COEFF_TOKEN_0"),
        (&coeff_token_2()[..], "COEFF_TOKEN_2"),
        (&coeff_token_4()[..], "COEFF_TOKEN_4"),
        (&coeff_token_chroma_dc()[..], "COEFF_TOKEN_CHROMA_DC"),
    ] {
        for i in 1..table.len() {
            assert!(
                table[i].0 >= table[i - 1].0,
                "{name}: not sorted by length at index {i}: {} < {}",
                table[i].0,
                table[i - 1].0
            );
        }
    }
}

#[test]
fn value_vlc_tables_sorted_by_length() {
    let tables: &[(&[(u8, u16, u8)], &str)] = &[
        (&total_zeros_1()[..], "TOTAL_ZEROS_1"),
        (&total_zeros_2()[..], "TOTAL_ZEROS_2"),
        (&total_zeros_3()[..], "TOTAL_ZEROS_3"),
        (&total_zeros_4()[..], "TOTAL_ZEROS_4"),
        (&total_zeros_5()[..], "TOTAL_ZEROS_5"),
        (&total_zeros_6()[..], "TOTAL_ZEROS_6"),
        (&total_zeros_7()[..], "TOTAL_ZEROS_7"),
        (&total_zeros_8()[..], "TOTAL_ZEROS_8"),
        (&total_zeros_9()[..], "TOTAL_ZEROS_9"),
        (&total_zeros_10()[..], "TOTAL_ZEROS_10"),
        (&total_zeros_11()[..], "TOTAL_ZEROS_11"),
        (&total_zeros_12()[..], "TOTAL_ZEROS_12"),
        (&total_zeros_13()[..], "TOTAL_ZEROS_13"),
        (&total_zeros_14()[..], "TOTAL_ZEROS_14"),
        (&total_zeros_15()[..], "TOTAL_ZEROS_15"),
        (&total_zeros_chroma_dc_1()[..], "TOTAL_ZEROS_CHROMA_DC_1"),
        (&total_zeros_chroma_dc_2()[..], "TOTAL_ZEROS_CHROMA_DC_2"),
        (&total_zeros_chroma_dc_3()[..], "TOTAL_ZEROS_CHROMA_DC_3"),
        (&run_before_1()[..], "RUN_BEFORE_1"),
        (&run_before_2()[..], "RUN_BEFORE_2"),
        (&run_before_3()[..], "RUN_BEFORE_3"),
        (&run_before_4()[..], "RUN_BEFORE_4"),
        (&run_before_5()[..], "RUN_BEFORE_5"),
        (&run_before_6()[..], "RUN_BEFORE_6"),
        (&run_before_gt6()[..], "RUN_BEFORE_GT6"),
    ];
    for &(table, name) in tables {
        for i in 1..table.len() {
            assert!(
                table[i].0 >= table[i - 1].0,
                "{name}: not sorted by length at index {i}: {} < {}",
                table[i].0,
                table[i - 1].0
            );
        }
    }
}
