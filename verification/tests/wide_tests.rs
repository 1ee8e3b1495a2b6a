use chatterlog::strings::{decode_line, is_wide_string, units_from_bytes, wstr_eq};

/// A NUL-terminated wide string, as the OS hands names back.
fn wstr(s: &str) -> Vec<u16> {
    s.encode_utf16().chain(std::iter::once(0)).collect()
}

#[test]
fn eq() {
    let empty = wstr("");
    let alien = wstr("alien");
    let alien_xd = wstr("alien\0xd");
    let alien_no = wstr("alien\0no");
    let a = wstr("a");
    let alienpls = wstr("alienpls");
    let blien = wstr("blien");
    let alienpls_no = wstr("alienpls\0no");

    let eq_pairs: [(Option<&[u16]>, Option<&[u16]>); 4] = [
        (None, None),
        (Some(&empty), Some(&empty)),
        (Some(&alien), Some(&alien)),
        (Some(&alien_xd), Some(&alien_no)),
    ];
    for (lhs, rhs) in eq_pairs {
        assert!(wstr_eq(lhs, rhs));
        assert!(wstr_eq(rhs, lhs));
    }

    let ne_pairs: [(Option<&[u16]>, Option<&[u16]>); 5] = [
        (None, Some(&a)),
        (Some(&a), Some(&empty)),
        (Some(&alien), Some(&alienpls)),
        (Some(&alien), Some(&blien)),
        (Some(&alien_xd), Some(&alienpls_no)),
    ];
    for (lhs, rhs) in ne_pairs {
        assert!(!wstr_eq(lhs, rhs));
        assert!(!wstr_eq(rhs, lhs));
    }
}

#[test]
fn wide_heuristic_classification() {
    // Wide-encoded text has zero bytes at every odd position.
    let wide: Vec<u8> = b"H\0e\0l\0l\0o\0".to_vec();
    assert!(is_wide_string(&wide));

    // Narrow text has letters at odd positions.
    assert!(!is_wide_string(b"Hello"));

    // One nonzero odd-position byte classifies narrow.
    assert!(!is_wide_string(&[0, 1]));

    // Too short to have an odd position: vacuously wide.
    assert!(is_wide_string(b""));
    assert!(is_wide_string(&[7]));

    // Only the first ten odd positions are inspected.
    let mut long: Vec<u8> = vec![0; 20];
    long.extend_from_slice(b"xx");
    assert!(is_wide_string(&long));
    let mut bad_early: Vec<u8> = vec![0; 20];
    bad_early[19] = 1;
    assert!(!is_wide_string(&bad_early));
}

#[test]
fn decode_drops_trailing_nuls() {
    let units: Vec<u16> = "Hi".encode_utf16().chain([0, 0, 0]).collect();
    assert_eq!(decode_line(&units), "Hi");
    // Embedded NULs that are not trailing stay.
    let units: Vec<u16> = vec!['A' as u16, 0, 'B' as u16];
    assert_eq!(decode_line(&units), "A\0B");
}

#[test]
fn decode_replaces_unpaired_surrogates() {
    let units: Vec<u16> = vec![0xD800, 'A' as u16];
    assert_eq!(decode_line(&units), "\u{FFFD}A");
    // A well-formed pair decodes to its supplementary character.
    let units: Vec<u16> = vec![0xD834, 0xDD1E];
    assert_eq!(decode_line(&units), "\u{1D11E}");
}

#[test]
fn units_pair_little_endian_bytes() {
    let units = units_from_bytes(&[0x48, 0x00, 0x65, 0x00, 0x34, 0x12]);
    assert_eq!(units, vec![0x48, 0x65, 0x1234]);
    // A trailing odd byte is dropped.
    let units = units_from_bytes(&[0x41, 0x00, 0x7F]);
    assert_eq!(units, vec![0x41]);
}
