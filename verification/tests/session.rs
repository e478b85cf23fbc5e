use lustre_hsm::action::HsmCopytoolAction;
use lustre_hsm::encode::encode;
use lustre_hsm::error::{DecodeError, OsError, ResolutionError};
use lustre_hsm::filter::{admits, contains_id, normalize};
use lustre_hsm::item::{HsmExtent, LuFid, OwnedHsmActionItem};
use lustre_hsm::session::HsmCopytool;
use lustre_hsm::status::{check_status, resolve_fsname};

fn archive_item(archive_id: u32) -> OwnedHsmActionItem {
    OwnedHsmActionItem {
        action: HsmCopytoolAction::Archive,
        fid: LuFid { seq: 1, oid: 2, ver: 3 },
        dfid: LuFid { seq: 1, oid: 2, ver: 3 },
        extent: HsmExtent { offset: 0, length: 4096 },
        cookie: 77,
        gid: 0,
        data: b"hint".to_vec(),
        flags: 0,
        archive_id,
    }
}

fn batch_for(archive_id: u32) -> Vec<u8> {
    encode(0, archive_id, "testfs0", &[archive_item(archive_id)]).unwrap()
}

#[test]
fn filter_with_wildcard_becomes_wildcard() {
    assert_eq!(normalize(vec![0, 5, 7]), vec![0]);
    assert_eq!(normalize(vec![5, 0, 7]), vec![0]);
    assert_eq!(normalize(vec![5, 7, 0]), vec![0]);
    assert_eq!(normalize(vec![0]), vec![0]);
    assert_eq!(normalize(vec![0, 0]), vec![0]);
}

#[test]
fn empty_filter_becomes_wildcard() {
    assert_eq!(normalize(vec![]), vec![0]);
}

#[test]
fn filter_without_wildcard_is_kept() {
    assert_eq!(normalize(vec![3]), vec![3]);
    assert_eq!(normalize(vec![7, 5, 7]), vec![7, 5, 7]);
}

#[test]
fn filter_membership() {
    assert!(contains_id(&[1, 2, 3], 3));
    assert!(!contains_id(&[1, 2, 3], 4));
    assert!(!contains_id(&[], 0));
    assert!(admits(&[1, 2, 3], 2));
    assert!(!admits(&[1, 2, 3], 4));
    assert!(!admits(&[1, 2, 3], 0));
    assert!(admits(&[], 4));
    assert!(admits(&[0], 4));
    assert!(admits(&[9, 0], 4));
}

#[test]
fn session_keeps_name_and_normal_filter() {
    let session = HsmCopytool::new("testfs0".to_string(), vec![0, 5, 7]);
    assert_eq!(session.fsname(), "testfs0");
    assert_eq!(session.archives(), &[0]);
    assert!(session.is_open());
    let empty = HsmCopytool::new("testfs0".to_string(), vec![]);
    assert_eq!(empty.archives(), &[0]);
    let strict = HsmCopytool::new("testfs0".to_string(), vec![5, 7]);
    assert_eq!(strict.archives(), &[5, 7]);
}

#[test]
fn sessions_with_wildcard_filters_behave_alike() {
    let mixed = HsmCopytool::new("testfs0".to_string(), vec![0, 5, 7]);
    let wildcard = HsmCopytool::new("testfs0".to_string(), vec![0]);
    let empty = HsmCopytool::new("testfs0".to_string(), vec![]);
    for id in [0u32, 1, 3, 5, 6, 7, u32::MAX] {
        let batch = batch_for(id);
        let expected = Ok(vec![archive_item(id)]);
        assert_eq!(wildcard.recv(&batch), expected);
        assert_eq!(mixed.recv(&batch), expected);
        assert_eq!(empty.recv(&batch), expected);
    }
    let broken = &batch_for(3)[..50];
    assert_eq!(mixed.recv(broken), wildcard.recv(broken));
    assert_eq!(empty.recv(broken), wildcard.recv(broken));
}

#[test]
fn session_refuses_other_archives() {
    let session = HsmCopytool::new("testfs0".to_string(), vec![5, 7]);
    assert_eq!(session.recv(&batch_for(5)), Ok(vec![archive_item(5)]));
    assert_eq!(session.recv(&batch_for(7)), Ok(vec![archive_item(7)]));
    assert_eq!(session.recv(&batch_for(6)), Err(DecodeError::UnsolicitedArchive(6)));
    assert_eq!(session.recv(&batch_for(0)), Err(DecodeError::UnsolicitedArchive(0)));
}

#[test]
fn session_refuses_other_filesystems() {
    let session = HsmCopytool::new("testfs1".to_string(), vec![]);
    assert_eq!(session.recv(&batch_for(5)), Err(DecodeError::FsNameMismatch));
}

#[test]
fn session_is_released_once() {
    let mut session = HsmCopytool::new("testfs0".to_string(), vec![3]);
    assert!(session.is_open());
    assert!(session.close());
    assert!(!session.is_open());
    assert!(!session.close());
    assert!(!session.close());
    assert!(!session.is_open());
    assert_eq!(session.fsname(), "testfs0");
    assert_eq!(session.archives(), &[3]);
}

#[test]
fn negative_status_is_an_os_error() {
    assert_eq!(check_status(-22), Err(OsError { code: 22 }));
    assert_eq!(check_status(-1), Err(OsError { code: 1 }));
    assert_eq!(check_status(-i32::MAX), Err(OsError { code: i32::MAX }));
    assert_eq!(check_status(i32::MIN), Err(OsError { code: i32::MAX }));
}

#[test]
fn other_status_is_handed_on() {
    assert_eq!(check_status(0), Ok(0));
    assert_eq!(check_status(7), Ok(7));
    assert_eq!(check_status(i32::MAX), Ok(i32::MAX));
}

#[test]
fn name_is_what_stands_before_the_terminator() {
    assert_eq!(resolve_fsname(0, b"testfs0\0\0"), Ok("testfs0".to_string()));
    assert_eq!(resolve_fsname(0, b"testfs0\0"), Ok("testfs0".to_string()));
    assert_eq!(resolve_fsname(0, b"fs\0junk\0"), Ok("fs".to_string()));
    assert_eq!(resolve_fsname(0, b"\0\0\0\0\0\0\0\0\0"), Ok(String::new()));
    assert_eq!(resolve_fsname(0, "données\0".as_bytes()), Ok("données".to_string()));
    assert_eq!(resolve_fsname(3, b"testfs0\0\0"), Ok("testfs0".to_string()));
}

#[test]
fn failed_lookup_is_an_os_error() {
    assert_eq!(
        resolve_fsname(-2, b"\0\0\0\0\0\0\0\0\0"),
        Err(ResolutionError::Os(OsError { code: 2 }))
    );
    assert_eq!(
        resolve_fsname(-19, b"testfs0\0\0"),
        Err(ResolutionError::Os(OsError { code: 19 }))
    );
    assert_eq!(resolve_fsname(-22, b""), Err(ResolutionError::Os(OsError { code: 22 })));
    assert_eq!(
        resolve_fsname(i32::MIN, &[0xFF]),
        Err(ResolutionError::Os(OsError { code: i32::MAX }))
    );
}

#[test]
fn name_without_terminator_is_refused() {
    assert_eq!(resolve_fsname(0, b"testfs012"), Err(ResolutionError::Unterminated));
    assert_eq!(resolve_fsname(0, b""), Err(ResolutionError::Unterminated));
}

#[test]
fn name_that_is_not_utf8_is_refused() {
    assert_eq!(resolve_fsname(0, &[0x66, 0xFF, 0]), Err(ResolutionError::InvalidEncoding));
    assert_eq!(resolve_fsname(0, &[0xE2, 0x82, 0]), Err(ResolutionError::InvalidEncoding));
    assert_eq!(resolve_fsname(0, &[0x66, 0, 0xFF]), Ok("f".to_string()));
}
