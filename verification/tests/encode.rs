use lustre_hsm::action::HsmCopytoolAction;
use lustre_hsm::decode::decode;
use lustre_hsm::encode::encode;
use lustre_hsm::item::{HsmExtent, LuFid, OwnedHsmActionItem};

fn sample(action: HsmCopytoolAction, seed: u64, data: Vec<u8>) -> OwnedHsmActionItem {
    OwnedHsmActionItem {
        action,
        fid: LuFid { seq: seed, oid: 2, ver: 3 },
        dfid: LuFid { seq: seed + 1, oid: 5, ver: 6 },
        extent: HsmExtent { offset: seed * 4096, length: u64::MAX },
        cookie: seed ^ 0xDEADBEEF,
        gid: seed + 42,
        data,
        flags: 9,
        archive_id: 3,
    }
}

fn samples() -> Vec<OwnedHsmActionItem> {
    vec![
        sample(HsmCopytoolAction::Archive, 1, b"/archive/a".to_vec()),
        sample(HsmCopytoolAction::Restore, 2, vec![]),
        sample(HsmCopytoolAction::Remove, 3, vec![0; 8]),
        sample(HsmCopytoolAction::Cancel, 4, vec![0xFF; 31]),
        sample(HsmCopytoolAction::NoAction, 5, vec![7]),
    ]
}

#[test]
fn encoded_empty_batch_is_header_and_name() {
    let bytes = encode(0x0102030405060708, 0x0A0B0C0D, "testfs0", &[]).unwrap();
    let mut expected = vec![1u8, 0, 0, 0, 0, 0, 0, 0, 0, 0, 0, 0, 0, 0, 0, 0];
    expected.extend_from_slice(&[8, 7, 6, 5, 4, 3, 2, 1]);
    expected.extend_from_slice(&[0x0D, 0x0C, 0x0B, 0x0A, 0, 0, 0, 0]);
    expected.extend_from_slice(b"testfs0\0");
    assert_eq!(bytes, expected);
}

#[test]
fn encoded_name_is_terminated_and_padded() {
    assert_eq!(encode(0, 1, "", &[]).unwrap().len(), 40);
    assert_eq!(encode(0, 1, "a", &[]).unwrap().len(), 40);
    assert_eq!(encode(0, 1, "testfs0", &[]).unwrap().len(), 40);
    assert_eq!(encode(0, 1, "testfs01", &[]).unwrap().len(), 48);
    let bytes = encode(0, 1, "testfs01", &[]).unwrap();
    assert_eq!(&bytes[32..], b"testfs01\0\0\0\0\0\0\0\0");
}

#[test]
fn encoded_item_is_header_payload_and_padding() {
    let item = OwnedHsmActionItem {
        action: HsmCopytoolAction::Remove,
        fid: LuFid { seq: 0x8877665544332211, oid: 0x04030201, ver: 0xF4F3F2F1 },
        dfid: LuFid { seq: 9, oid: 8, ver: 7 },
        extent: HsmExtent { offset: 6, length: 5 },
        cookie: u64::MAX,
        gid: 4,
        data: vec![0xAA, 0xBB, 0xCC],
        flags: 0,
        archive_id: 2,
    };
    let bytes = encode(0, 2, "fs", &[item]).unwrap();
    assert_eq!(&bytes[4..8], &[1, 0, 0, 0]);
    let mut expected = vec![75u8, 0, 0, 0, 22, 0, 0, 0];
    expected.extend_from_slice(&[0x11, 0x22, 0x33, 0x44, 0x55, 0x66, 0x77, 0x88]);
    expected.extend_from_slice(&[0x01, 0x02, 0x03, 0x04, 0xF1, 0xF2, 0xF3, 0xF4]);
    expected.extend_from_slice(&[9, 0, 0, 0, 0, 0, 0, 0, 8, 0, 0, 0, 7, 0, 0, 0]);
    expected.extend_from_slice(&[6, 0, 0, 0, 0, 0, 0, 0, 5, 0, 0, 0, 0, 0, 0, 0]);
    expected.extend_from_slice(&[0xFF; 8]);
    expected.extend_from_slice(&[4, 0, 0, 0, 0, 0, 0, 0]);
    expected.extend_from_slice(&[0xAA, 0xBB, 0xCC, 0, 0, 0, 0, 0]);
    assert_eq!(&bytes[40..], &expected[..]);
}

#[test]
fn decoding_undoes_encoding() {
    let items = samples();
    let bytes = encode(9, 3, "testfs0", &items).unwrap();
    assert_eq!(decode(&bytes, "testfs0", &[3]), Ok(items.clone()));
    assert_eq!(decode(&bytes, "testfs0", &[0]), Ok(items.clone()));
    assert_eq!(decode(&bytes, "testfs0", &[1, 2, 3]), Ok(items));
}

#[test]
fn reencoding_decoded_items_gives_the_same_items() {
    let first = encode(9, 3, "testfs0", &samples()).unwrap();
    let mut received = first.clone();
    received.extend_from_slice(&[0x5A; 11]);
    let decoded = decode(&received, "testfs0", &[3]).unwrap();
    assert_eq!(decoded.len(), 5);
    let second = encode(decoded[0].flags, decoded[0].archive_id, "testfs0", &decoded).unwrap();
    assert_eq!(second, first);
    assert_eq!(decode(&second, "testfs0", &[3]), Ok(decoded));
}

#[test]
fn roundtrip_keeps_every_payload_size() {
    for size in 0usize..40 {
        let data: Vec<u8> = (0..size).map(|i| (i * 7) as u8).collect();
        let items = vec![
            sample(HsmCopytoolAction::Archive, size as u64, data),
            sample(HsmCopytoolAction::Restore, 1000, vec![1, 2, 3]),
        ];
        let bytes = encode(9, 3, "fsname", &items).unwrap();
        assert_eq!(bytes.len() % 8, 0);
        assert_eq!(decode(&bytes, "fsname", &[3]), Ok(items));
    }
}

#[test]
fn roundtrip_keeps_a_name_beyond_ascii() {
    let items = samples();
    let bytes = encode(9, 3, "données-日本", &items).unwrap();
    assert_eq!(decode(&bytes, "données-日本", &[3]), Ok(items));
}

#[test]
fn name_with_nul_cannot_be_encoded() {
    assert_eq!(encode(0, 3, "test\0fs", &[]), None);
    assert_eq!(encode(0, 3, "\0", &[]), None);
    assert_eq!(encode(0, 3, "testfs0\0", &samples()), None);
}

#[test]
fn item_of_another_batch_cannot_be_encoded() {
    let mut items = samples();
    assert!(encode(9, 3, "testfs0", &items).is_some());
    assert_eq!(encode(8, 3, "testfs0", &items), None);
    assert_eq!(encode(9, 4, "testfs0", &items), None);
    items[4].flags = 10;
    assert_eq!(encode(9, 3, "testfs0", &items), None);
    items[4].flags = 9;
    items[0].archive_id = 0;
    assert_eq!(encode(9, 3, "testfs0", &items), None);
}
