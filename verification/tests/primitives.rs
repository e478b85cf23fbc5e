use lustre_hsm::action::{
    HsmCopytoolAction, HSMA_ARCHIVE, HSMA_CANCEL, HSMA_NONE, HSMA_REMOVE, HSMA_RESTORE,
};
use lustre_hsm::cstr::{bytes_eq, contains_nul, find_nul};
use lustre_hsm::cursor::ByteCursor;
use lustre_hsm::error::DecodeError;
use lustre_hsm::item::{put_extent, put_fid, HsmExtent, LuFid};
use lustre_hsm::layout::{padding8, put_u32, put_u64, HAI_SIZE, HAL_SIZE, HAL_VERSION};

#[test]
fn layout_constants() {
    assert_eq!(HAL_VERSION, 1);
    assert_eq!(HAL_SIZE, 32);
    assert_eq!(HAI_SIZE, 72);
}

#[test]
fn action_codes() {
    assert_eq!(HSMA_NONE, 10);
    assert_eq!(HSMA_ARCHIVE, 20);
    assert_eq!(HSMA_RESTORE, 21);
    assert_eq!(HSMA_REMOVE, 22);
    assert_eq!(HSMA_CANCEL, 23);
    assert_eq!(HsmCopytoolAction::NoAction.code(), 10);
    assert_eq!(HsmCopytoolAction::Archive.code(), 20);
    assert_eq!(HsmCopytoolAction::Restore.code(), 21);
    assert_eq!(HsmCopytoolAction::Remove.code(), 22);
    assert_eq!(HsmCopytoolAction::Cancel.code(), 23);
}

#[test]
fn known_codes_are_classified() {
    assert_eq!(HsmCopytoolAction::try_from(10), Ok(HsmCopytoolAction::NoAction));
    assert_eq!(HsmCopytoolAction::try_from(20), Ok(HsmCopytoolAction::Archive));
    assert_eq!(HsmCopytoolAction::try_from(21), Ok(HsmCopytoolAction::Restore));
    assert_eq!(HsmCopytoolAction::try_from(22), Ok(HsmCopytoolAction::Remove));
    assert_eq!(HsmCopytoolAction::try_from(23), Ok(HsmCopytoolAction::Cancel));
    let through_into: Result<HsmCopytoolAction, DecodeError> = 22u32.try_into();
    assert_eq!(through_into, Ok(HsmCopytoolAction::Remove));
}

#[test]
fn unknown_codes_are_errors() {
    for code in [0u32, 1, 9, 11, 19, 24, 1 << 16, u32::MAX] {
        assert_eq!(HsmCopytoolAction::try_from(code), Err(DecodeError::UnknownAction(code)));
    }
}

#[test]
fn every_action_is_recovered_from_its_code() {
    for action in [
        HsmCopytoolAction::NoAction,
        HsmCopytoolAction::Archive,
        HsmCopytoolAction::Restore,
        HsmCopytoolAction::Remove,
        HsmCopytoolAction::Cancel,
    ] {
        assert_eq!(HsmCopytoolAction::try_from(action.code()), Ok(action));
    }
}

#[test]
fn padding_to_a_multiple_of_eight() {
    assert_eq!(padding8(0), 0);
    assert_eq!(padding8(1), 7);
    assert_eq!(padding8(7), 1);
    assert_eq!(padding8(8), 0);
    assert_eq!(padding8(72), 0);
    assert_eq!(padding8(73), 7);
    assert_eq!(padding8(88), 0);
    assert_eq!(padding8(usize::MAX), 1);
}

#[test]
fn integers_are_written_little_endian() {
    let mut out = vec![0xEE];
    put_u32(&mut out, 0x04030201);
    put_u64(&mut out, 0x0C0B0A0908070605);
    assert_eq!(out, vec![0xEE, 1, 2, 3, 4, 5, 6, 7, 8, 9, 10, 11, 12]);
    let mut edge = Vec::new();
    put_u32(&mut edge, u32::MAX);
    put_u32(&mut edge, 0);
    put_u64(&mut edge, u64::MAX);
    put_u64(&mut edge, 1 << 32);
    assert_eq!(&edge[..8], &[0xFF, 0xFF, 0xFF, 0xFF, 0, 0, 0, 0]);
    assert_eq!(&edge[8..16], &[0xFF; 8]);
    assert_eq!(&edge[16..], &[0, 0, 0, 0, 1, 0, 0, 0]);
}

#[test]
fn records_are_written_field_by_field() {
    let mut out = Vec::new();
    put_fid(&mut out, LuFid { seq: 0x0807060504030201, oid: 0x0C0B0A09, ver: 0x100F0E0D });
    assert_eq!(out, (1u8..=16).collect::<Vec<u8>>());
    let mut extent = Vec::new();
    put_extent(&mut extent, HsmExtent { offset: 0x0807060504030201, length: 0x100F0E0D0C0B0A09 });
    assert_eq!(extent, (1u8..=16).collect::<Vec<u8>>());
}

#[test]
fn cursor_reads_in_order() {
    let bytes: Vec<u8> = (1u8..=48).collect();
    let mut cursor = ByteCursor::new(&bytes);
    assert_eq!(cursor.position(), 0);
    assert_eq!(cursor.remaining(), 48);
    assert_eq!(cursor.read_u32(), Some(0x04030201));
    assert_eq!(cursor.position(), 4);
    assert_eq!(cursor.read_u64(), Some(0x0C0B0A0908070605));
    assert_eq!(cursor.position(), 12);
    assert_eq!(
        cursor.read_fid(),
        Some(LuFid { seq: 0x14131211100F0E0D, oid: 0x18171615, ver: 0x1C1B1A19 })
    );
    assert_eq!(
        cursor.read_extent(),
        Some(HsmExtent { offset: 0x24232221201F1E1D, length: 0x2C2B2A2928272625 })
    );
    assert_eq!(cursor.position(), 44);
    assert_eq!(cursor.remaining(), 4);
    assert_eq!(cursor.take(3), Some(&bytes[44..47]));
    assert!(cursor.skip(1));
    assert_eq!(cursor.remaining(), 0);
}

#[test]
fn cursor_refuses_reads_past_the_end() {
    let bytes = [1u8, 2, 3];
    let mut cursor = ByteCursor::new(&bytes);
    assert_eq!(cursor.read_u32(), None);
    assert_eq!(cursor.read_u64(), None);
    assert_eq!(cursor.read_fid(), None);
    assert_eq!(cursor.read_extent(), None);
    assert_eq!(cursor.take(4), None);
    assert!(!cursor.skip(4));
    assert!(!cursor.skip(usize::MAX));
    assert_eq!(cursor.position(), 0);
    assert_eq!(cursor.take(3), Some(&bytes[..]));
    assert_eq!(cursor.position(), 3);
    assert_eq!(cursor.take(0), Some(&bytes[3..]));
    assert!(cursor.skip(0));
    assert_eq!(cursor.take(1), None);
    assert_eq!(cursor.position(), 3);
}

#[test]
fn cursor_reads_exactly_to_the_end() {
    let bytes = [0u8, 1, 0, 0, 0xFF, 0xFF, 0xFF, 0xFF];
    let mut cursor = ByteCursor::new(&bytes);
    assert_eq!(cursor.read_u32(), Some(256));
    assert_eq!(cursor.read_u32(), Some(u32::MAX));
    assert_eq!(cursor.read_u32(), None);
    assert_eq!(cursor.remaining(), 0);
}

#[test]
fn cursor_reads_names() {
    let bytes = b"ab\0\0cd";
    let mut cursor = ByteCursor::new(bytes);
    assert_eq!(cursor.read_c_str(), Some(&b"ab"[..]));
    assert_eq!(cursor.position(), 3);
    assert_eq!(cursor.read_c_str(), Some(&b""[..]));
    assert_eq!(cursor.position(), 4);
    assert_eq!(cursor.read_c_str(), None);
    assert_eq!(cursor.position(), 4);
    assert_eq!(cursor.take(2), Some(&b"cd"[..]));
    assert_eq!(cursor.read_c_str(), None);
}

#[test]
fn terminator_search() {
    assert_eq!(find_nul(b"abc\0de\0", 0), Some(3));
    assert_eq!(find_nul(b"abc\0de\0", 3), Some(3));
    assert_eq!(find_nul(b"abc\0de\0", 4), Some(6));
    assert_eq!(find_nul(b"abc\0de", 4), None);
    assert_eq!(find_nul(b"abc", 3), None);
    assert_eq!(find_nul(b"abc", 4), None);
    assert_eq!(find_nul(b"", 0), None);
    assert!(contains_nul(b"a\0"));
    assert!(!contains_nul(b"ab"));
    assert!(!contains_nul(b""));
}

#[test]
fn byte_string_equality() {
    assert!(bytes_eq(b"", b""));
    assert!(bytes_eq(b"testfs0", b"testfs0"));
    assert!(!bytes_eq(b"testfs0", b"testfs1"));
    assert!(!bytes_eq(b"testfs0", b"testfs"));
    assert!(!bytes_eq(b"", b"a"));
    assert!(!bytes_eq(b"Xestfs0", b"testfs0"));
}
