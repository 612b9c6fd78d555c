use pizza_tower_timing::scanner::{find_in, matches_at_offset, scan_regions, Pattern, Region};

fn pattern(bytes: &[Option<u8>]) -> Pattern {
    Pattern { bytes: bytes.to_vec() }
}

#[test]
fn finds_first_match_with_wildcards() {
    let pat = pattern(&[Some(0x89), None, Some(0x48)]);
    let hay = [0u8, 0x89, 0x11, 0x48, 0x89, 0x22, 0x48];
    assert_eq!(find_in(&hay, &pat), Some(1));
}

#[test]
fn reports_no_match() {
    let pat = pattern(&[Some(0x89), None, Some(0x48)]);
    let hay = [0x89u8, 0x11, 0x47, 0x89];
    assert_eq!(find_in(&hay, &pat), None);
    assert_eq!(find_in(&[], &pat), None);
}

#[test]
fn match_at_the_very_end() {
    let pat = pattern(&[Some(1), Some(2)]);
    let hay = [0u8, 0, 1, 2];
    assert_eq!(find_in(&hay, &pat), Some(2));
    assert!(matches_at_offset(&hay, &pat, 2));
    assert!(!matches_at_offset(&hay, &pat, 3));
}

#[test]
fn embedded_pattern_is_found_for_any_wildcard_bytes() {
    let pat = pattern(&[Some(0xAA), None, None, Some(0xBB)]);
    for filler in [0u8, 0x7F, 0xAA, 0xBB, 0xFF] {
        let mut hay = vec![0x10u8; 20];
        hay[9] = 0xAA;
        hay[10] = filler;
        hay[11] = filler ^ 0x55;
        hay[12] = 0xBB;
        assert_eq!(find_in(&hay, &pat), Some(9));
    }
}

#[test]
fn each_occurrence_is_found_from_its_start() {
    let pat = pattern(&[Some(7), None, Some(9)]);
    let hay = [7u8, 1, 9, 0, 7, 2, 9, 0, 7, 3, 9];
    let mut found = Vec::new();
    let mut start = 0usize;
    while let Some(i) = find_in(&hay[start..], &pat) {
        found.push(start + i);
        start = start + i + pat.bytes.len();
    }
    assert_eq!(found, vec![0, 4, 8]);
}

#[test]
fn scan_direction_picks_the_region() {
    let pat = pattern(&[Some(0xC2), Some(0x5A)]);
    let regions = vec![
        Region { address: 0x1000, bytes: vec![0, 0xC2, 0x5A] },
        Region { address: 0x2000, bytes: vec![0, 0, 0] },
        Region { address: 0x3000, bytes: vec![0xC2, 0x5A, 0xC2, 0x5A] },
    ];
    assert_eq!(scan_regions(&regions, &pat, false), Some(0x1001));
    assert_eq!(scan_regions(&regions, &pat, true), Some(0x3000));
    let empty_only = vec![Region { address: 0x2000, bytes: vec![0, 0, 0] }];
    assert_eq!(scan_regions(&empty_only, &pat, false), None);
    assert_eq!(scan_regions(&Vec::new(), &pat, true), None);
}
