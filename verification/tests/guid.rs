use comreg::com::{Guid, GuidExt};

fn sample() -> Guid {
    Guid { data1: 0x12345678, data2: 0x9abc, data3: 0xdef0, data4: 0x123456789abcdef0 }
}

#[test]
fn guid_formats_to_expected_ascii() {
    let ascii = sample().to_ascii_with_nul();
    let expected: &[u8] = b"{12345678-9abc-def0-1234-56789abcdef0}\0";
    assert_eq!(ascii.len(), 39);
    assert_eq!(ascii.as_slice(), expected);
}

#[test]
fn guid_formats_to_expected_wide() {
    let wide = sample().to_wide();
    let expected: Vec<u16> =
        "{12345678-9abc-def0-1234-56789abcdef0}\0".encode_utf16().collect();
    assert_eq!(wide.len(), 39);
    assert_eq!(wide, expected);
}

#[test]
fn guid_zero_formats_with_fixed_width() {
    let g = Guid { data1: 0, data2: 0, data3: 0, data4: 0 };
    let ascii = g.to_ascii_with_nul();
    assert_eq!(ascii.as_slice(), b"{00000000-0000-0000-0000-000000000000}\0" as &[u8]);
}

#[test]
fn guid_all_ones_formats_lowercase() {
    let g = Guid { data1: u32::MAX, data2: u16::MAX, data3: u16::MAX, data4: u64::MAX };
    let ascii = g.to_ascii_with_nul();
    assert_eq!(ascii.as_slice(), b"{ffffffff-ffff-ffff-ffff-ffffffffffff}\0" as &[u8]);
}

#[test]
fn guid_equality_is_by_fields() {
    assert_eq!(sample(), sample());
    let other = Guid { data1: 0x12345679, ..sample() };
    assert_ne!(sample(), other);
}
