use chatterlog::qt::{
    build_qstring_payload, find_qtcore, payload_allocation_size, qtcore_version, InjectError,
    QtVersion,
};

fn units(s: &str) -> Vec<u16> {
    s.encode_utf16().collect()
}

#[test]
fn qt6() {
    let (buf, _start) = QtVersion::Qt6.make_qstring(0, &units("Hello"));
    assert_eq!(
        buf,
        b"H\0e\0l\0l\0o\0\0\0\0\0\0\0\0\0\0\0\0\0\0\0\0\0\x05\0\0\0\0\0\0\0"
    );
}

#[test]
fn qt5() {
    let (buf, _start) = QtVersion::Qt5.make_qstring(0, &units("Hello"));
    assert_eq!(
        buf,
        b"\x08\0\0\0\0\0\0\0\xFF\xFF\xFF\xFF\x05\0\0\0\0\0\0\0\0\0\0\0\x18\0\0\0\0\0\0\0H\0e\0l\0l\0o\0\0\0"
    );
}

#[test]
fn remote_pointers_use_the_remote_base() {
    // Version A's object sits at the payload head and points 8 bytes past it.
    let base: u64 = 0x1000;
    let (buf, start) = QtVersion::Qt5.make_qstring(base, &units("Hi"));
    assert_eq!(start, base);
    assert_eq!(&buf[0..8], &0x1008u64.to_le_bytes());

    // Version B's object is the trailing structure after the units, and its
    // data pointer is the remote base where the units lie.
    let (buf, start) = QtVersion::Qt6.make_qstring(base, &units("Hi"));
    assert_eq!(start, base + 4);
    assert_eq!(&buf[4..12], &0u64.to_le_bytes());
    assert_eq!(&buf[12..20], &base.to_le_bytes());
    assert_eq!(&buf[20..28], &2u64.to_le_bytes());
}

#[test]
fn payload_length_matches_allocation_size() {
    for text in ["", "Hello", "with space", "\u{1D11E}music"] {
        for version in [QtVersion::Qt5, QtVersion::Qt6] {
            let alloc = payload_allocation_size(version, text).unwrap();
            let (buf, _) = build_qstring_payload(version, 0x4000, text).unwrap();
            assert_eq!(buf.len(), alloc);
        }
    }
    assert_eq!(payload_allocation_size(QtVersion::Qt5, "Hello"), Some(44));
    assert_eq!(payload_allocation_size(QtVersion::Qt6, "Hello"), Some(34));
}

#[test]
fn payload_encodes_supplementary_characters_as_pairs() {
    // One supplementary character is two code units: its surrogate pair,
    // little-endian, then the trailing structure with length 2.
    let (buf, _) = build_qstring_payload(QtVersion::Qt6, 0, "\u{1D11E}").unwrap();
    assert_eq!(&buf[0..4], &[0x34, 0xD8, 0x1E, 0xDD]);
    assert_eq!(buf.len(), 28);
    assert_eq!(&buf[20..28], &2u64.to_le_bytes());
}

#[test]
fn qtcore_paths_imply_versions() {
    assert_eq!(
        qtcore_version(b"C:\\Qt\\bin\\Qt6Core.dll"),
        Some(QtVersion::Qt6)
    );
    assert_eq!(
        qtcore_version(b"C:\\Qt\\bin\\Qt6Cored.dll"),
        Some(QtVersion::Qt6)
    );
    assert_eq!(
        qtcore_version(b"C:\\Qt\\bin\\Qt5Core.dll"),
        Some(QtVersion::Qt5)
    );
    assert_eq!(
        qtcore_version(b"C:\\Qt\\bin\\Qt5Cored.dll"),
        Some(QtVersion::Qt5)
    );
    assert_eq!(qtcore_version(b"C:\\Windows\\System32\\kernel32.dll"), None);
    assert_eq!(qtcore_version(b"Qt6Core.dll.bak"), None);
}

#[test]
fn find_qtcore_takes_the_first_match() {
    let paths: Vec<Vec<u8>> = vec![
        b"C:\\app\\app.exe".to_vec(),
        b"C:\\Qt\\bin\\Qt5Core.dll".to_vec(),
        b"C:\\Qt\\bin\\Qt6Core.dll".to_vec(),
    ];
    assert_eq!(find_qtcore(&paths), Ok((1, QtVersion::Qt5)));
}

#[test]
fn find_qtcore_reports_toolkit_not_found() {
    let paths: Vec<Vec<u8>> = vec![b"C:\\app\\app.exe".to_vec()];
    assert_eq!(find_qtcore(&paths), Err(InjectError::ToolkitNotFound));
    assert_eq!(
        find_qtcore(&Vec::new()),
        Err(InjectError::ToolkitNotFound)
    );
    assert_eq!(
        find_qtcore(&paths).unwrap_err().message(),
        "no toolkit core library is loaded in the target"
    );
}

#[test]
fn inject_errors_have_distinct_messages() {
    let variants = [
        InjectError::ToolkitNotFound,
        InjectError::LibraryLoadError,
        InjectError::ExportNotFound,
        InjectError::AllocationError,
        InjectError::SizeMismatch,
        InjectError::WriteFailed,
        InjectError::ThreadCreationError,
    ];
    for (i, a) in variants.iter().enumerate() {
        for (j, b) in variants.iter().enumerate() {
            assert_eq!(a.message() == b.message(), i == j);
        }
    }
}
