//! Decoding of an action list.
use crate::action::HsmCopytoolAction;
use crate::cstr::{bytes_eq, c_str_at, lemma_nul_index, str_from_utf8, terminated};
use crate::cursor::ByteCursor;
use crate::error::DecodeError;
use crate::filter::{admits, filter_accepts};
use crate::item::{extent_at, fid_at, ActionItemView, OwnedHsmActionItem};
use crate::layout::{align8, round_up8, u32_at, u64_at, HAI_SIZE, HAL_SIZE, HAL_VERSION};
use vstd::prelude::*;
use vstd::slice::slice_to_vec;
use vstd::utf8::{decode_utf8, valid_utf8};

verus! {

/// The version field of a batch header.
pub open spec fn batch_version(buffer: Seq<u8>) -> u32 {
    u32_at(buffer, 0)
}

/// The number of items that a batch header announces.
pub open spec fn batch_count(buffer: Seq<u8>) -> u32 {
    u32_at(buffer, 4)
}

/// The flags of a batch.
pub open spec fn batch_flags(buffer: Seq<u8>) -> u64 {
    u64_at(buffer, 16)
}

/// The archive a batch is destined for.
pub open spec fn batch_archive_id(buffer: Seq<u8>) -> u32 {
    u32_at(buffer, 24)
}

/// The bytes of the filesystem name of a batch, without the terminator.
pub open spec fn batch_fsname(buffer: Seq<u8>) -> Seq<u8> {
    c_str_at(buffer, HAL_SIZE as int)
}

/// Where the first item of a batch starts: after the fixed header and the
/// name with its terminator, padded to a multiple of eight.
pub open spec fn batch_items_start(buffer: Seq<u8>) -> int {
    HAL_SIZE + align8(batch_fsname(buffer).len() as int + 1)
}

/// The total length that the item at the front of `rest` announces.
pub open spec fn item_len(rest: Seq<u8>) -> int {
    u32_at(rest, 0) as int
}

/// The distance from the item at the front of `rest` to the next one.
pub open spec fn item_span(rest: Seq<u8>) -> int {
    align8(item_len(rest))
}

/// The item at the front of `rest`, read without any check.
pub open spec fn item_fields(
    rest: Seq<u8>,
    action: HsmCopytoolAction,
    archive_id: u32,
    flags: u64,
) -> ActionItemView {
    ActionItemView {
        action,
        fid: fid_at(rest, 8),
        dfid: fid_at(rest, 24),
        extent: extent_at(rest, 40),
        cookie: u64_at(rest, 56),
        gid: u64_at(rest, 64),
        data: rest.subrange(HAI_SIZE as int, item_len(rest)),
        flags,
        archive_id,
    }
}

/// The item at the front of `rest`, or the reason why there is none.
pub open spec fn decode_item(rest: Seq<u8>, archive_id: u32, flags: u64) -> Result<
    ActionItemView,
    DecodeError,
> {
    if rest.len() < HAI_SIZE {
        Err(DecodeError::TooShort)
    } else if item_len(rest) < HAI_SIZE {
        Err(DecodeError::Malformed)
    } else if rest.len() < item_span(rest) {
        Err(DecodeError::TooShort)
    } else {
        match HsmCopytoolAction::of_code(u32_at(rest, 4)) {
            Some(action) => Ok(item_fields(rest, action, archive_id, flags)),
            None => Err(DecodeError::UnknownAction(u32_at(rest, 4))),
        }
    }
}

/// The first `count` items of `rest` in order, or the error of the first
/// item that fails.
pub open spec fn decode_items(rest: Seq<u8>, count: nat, archive_id: u32, flags: u64) -> Result<
    Seq<ActionItemView>,
    DecodeError,
>
    decreases count,
{
    if count == 0 {
        Ok(Seq::empty())
    } else {
        match decode_item(rest, archive_id, flags) {
            Err(e) => Err(e),
            Ok(item) => match decode_items(
                rest.skip(item_span(rest)),
                (count - 1) as nat,
                archive_id,
                flags,
            ) {
                Err(e) => Err(e),
                Ok(items) => Ok(seq![item] + items),
            },
        }
    }
}

/// Why the header of a batch is refused, if it is. The checks come in this
/// order: size of the fixed header, version, archive id, presence and
/// encoding of the name, the name itself, room for the padding behind it.
pub open spec fn header_error(buffer: Seq<u8>, fsname: Seq<char>, filter: Seq<u32>) -> Option<
    DecodeError,
> {
    if buffer.len() < HAL_SIZE {
        Some(DecodeError::TooShort)
    } else if batch_version(buffer) != HAL_VERSION {
        Some(DecodeError::VersionMismatch(batch_version(buffer)))
    } else if !filter_accepts(filter, batch_archive_id(buffer)) {
        Some(DecodeError::UnsolicitedArchive(batch_archive_id(buffer)))
    } else if !terminated(buffer, HAL_SIZE as int) {
        Some(DecodeError::TooShort)
    } else if !valid_utf8(batch_fsname(buffer)) {
        Some(DecodeError::InvalidEncoding)
    } else if decode_utf8(batch_fsname(buffer)) != fsname {
        Some(DecodeError::FsNameMismatch)
    } else if buffer.len() < batch_items_start(buffer) {
        Some(DecodeError::TooShort)
    } else {
        None
    }
}

/// What a buffer decodes to for a session that expects the filesystem
/// `fsname` and serves the archives of `filter`: all its items in buffer
/// order, or the first error met. There is no partial result.
pub open spec fn decode_spec(buffer: Seq<u8>, fsname: Seq<char>, filter: Seq<u32>) -> Result<
    Seq<ActionItemView>,
    DecodeError,
> {
    match header_error(buffer, fsname, filter) {
        Some(e) => Err(e),
        None => decode_items(
            buffer.skip(batch_items_start(buffer)),
            batch_count(buffer) as nat,
            batch_archive_id(buffer),
            batch_flags(buffer),
        ),
    }
}

/// The number of bytes that the first `count` items of `rest` take up, each
/// with its padding.
pub open spec fn items_span(rest: Seq<u8>, count: nat) -> int
    decreases count,
{
    if count == 0 {
        0
    } else {
        item_span(rest) + items_span(rest.skip(item_span(rest)), (count - 1) as nat)
    }
}

/// The number of bytes that a batch takes up: where its last announced item
/// ends. What a buffer holds behind that is not part of the batch.
pub open spec fn batch_len(buffer: Seq<u8>) -> int {
    batch_items_start(buffer) + items_span(
        buffer.skip(batch_items_start(buffer)),
        batch_count(buffer) as nat,
    )
}

/// `done` followed by what `next` gives, or the error of `next`.
pub open spec fn followed_by(
    done: Seq<ActionItemView>,
    next: Result<Seq<ActionItemView>, DecodeError>,
) -> Result<Seq<ActionItemView>, DecodeError> {
    match next {
        Ok(items) => Ok(done + items),
        Err(e) => Err(e),
    }
}

/// What a decoding returned, with the items by their views.
pub open spec fn decoded_view(result: Result<Vec<OwnedHsmActionItem>, DecodeError>) -> Result<
    Seq<ActionItemView>,
    DecodeError,
> {
    match result {
        Ok(items) => Ok(items.deep_view()),
        Err(e) => Err(e),
    }
}

/// A field that starts `at` bytes into what follows `from` is the field at
/// `from + at` of the whole.
pub proof fn lemma_fields_skip(bytes: Seq<u8>, from: int, at: int)
    requires
        0 <= from,
        0 <= at,
    ensures
        from + at + 4 <= bytes.len() ==> u32_at(bytes.skip(from), at) == u32_at(bytes, from + at),
        from + at + 8 <= bytes.len() ==> u64_at(bytes.skip(from), at) == u64_at(bytes, from + at),
        from + at + 16 <= bytes.len() ==> fid_at(bytes.skip(from), at) == fid_at(bytes, from + at),
        from + at + 16 <= bytes.len() ==> extent_at(bytes.skip(from), at) == extent_at(
            bytes,
            from + at,
        ),
{
    reveal(u32_at);
    reveal(u64_at);
    let rest = bytes.skip(from);
    assert forall|i: int| 0 <= i && from + i < bytes.len() implies rest[i] == bytes[from + i] by {}
}

/// The fields of a batch header that the items need.
struct BatchHeader {
    count: u32,
    flags: u64,
    archive_id: u32,
}

/// Reads and checks the header of a batch, and leaves the cursor at the
/// first item.
fn read_header(cursor: &mut ByteCursor, expected_fsname: &str, archive_filter: &[u32]) -> (result:
    Result<BatchHeader, DecodeError>)
    requires
        old(cursor).offset() == 0,
    ensures
        final(cursor).input() == old(cursor).input(),
        final(cursor).offset() <= final(cursor).input().len(),
        match result {
            Ok(header) => {
                &&& header_error(old(cursor).input(), expected_fsname@, archive_filter@) is None
                &&& header.count == batch_count(old(cursor).input())
                &&& header.flags == batch_flags(old(cursor).input())
                &&& header.archive_id == batch_archive_id(old(cursor).input())
                &&& final(cursor).offset() == batch_items_start(old(cursor).input())
            },
            Err(e) => header_error(old(cursor).input(), expected_fsname@, archive_filter@) == Some(
                e,
            ),
        },
{
    if cursor.remaining() < HAL_SIZE {
        return Err(DecodeError::TooShort);
    }
    let version = match cursor.read_u32() {
        Some(v) => v,
        None => return Err(DecodeError::TooShort),
    };
    let count = match cursor.read_u32() {
        Some(v) => v,
        None => return Err(DecodeError::TooShort),
    };
    if !cursor.skip(8) {
        return Err(DecodeError::TooShort);
    }
    let flags = match cursor.read_u64() {
        Some(v) => v,
        None => return Err(DecodeError::TooShort),
    };
    let archive_id = match cursor.read_u32() {
        Some(v) => v,
        None => return Err(DecodeError::TooShort),
    };
    if !cursor.skip(4) {
        return Err(DecodeError::TooShort);
    }
    if version != HAL_VERSION {
        return Err(DecodeError::VersionMismatch(version));
    }
    if !admits(archive_filter, archive_id) {
        return Err(DecodeError::UnsolicitedArchive(archive_id));
    }
    proof {
        lemma_nul_index(cursor.input(), HAL_SIZE as int);
    }
    let name = match cursor.read_c_str() {
        Some(bytes) => bytes,
        None => return Err(DecodeError::TooShort),
    };
    if str_from_utf8(name).is_none() {
        return Err(DecodeError::InvalidEncoding);
    }
    if !bytes_eq(name, expected_fsname.as_bytes()) {
        proof {
            if decode_utf8(name@) == expected_fsname@ {
                vstd::utf8::decode_utf8_encode_utf8(name@);
            }
        }
        return Err(DecodeError::FsNameMismatch);
    }
    proof {
        vstd::utf8::encode_utf8_decode_utf8(expected_fsname@);
    }
    let named: u64 = name.len() as u64 + 1;
    let padding: u64 = round_up8(named) - named;
    if !cursor.skip(padding as usize) {
        return Err(DecodeError::TooShort);
    }
    Ok(BatchHeader { count, flags, archive_id })
}

/// Reads and checks the item at the cursor, and leaves the cursor at the
/// next item.
fn read_item(cursor: &mut ByteCursor, archive_id: u32, flags: u64) -> (result: Result<
    OwnedHsmActionItem,
    DecodeError,
>)
    ensures
        final(cursor).input() == old(cursor).input(),
        final(cursor).offset() <= final(cursor).input().len(),
        match result {
            Ok(item) => {
                &&& decode_item(old(cursor).rest(), archive_id, flags) == Ok::<
                    ActionItemView,
                    DecodeError,
                >(item@)
                &&& final(cursor).offset() == old(cursor).offset() + item_span(old(cursor).rest())
            },
            Err(e) => decode_item(old(cursor).rest(), archive_id, flags) == Err::<
                ActionItemView,
                DecodeError,
            >(e),
        },
{
    let ghost bytes = cursor.input();
    let ghost rest = cursor.rest();
    let start = cursor.position();
    let available = cursor.remaining();
    if available < HAI_SIZE {
        return Err(DecodeError::TooShort);
    }
    proof {
        lemma_fields_skip(bytes, start as int, 0);
        lemma_fields_skip(bytes, start as int, 4);
        lemma_fields_skip(bytes, start as int, 8);
        lemma_fields_skip(bytes, start as int, 24);
        lemma_fields_skip(bytes, start as int, 40);
        lemma_fields_skip(bytes, start as int, 56);
        lemma_fields_skip(bytes, start as int, 64);
    }
    let len = match cursor.read_u32() {
        Some(v) => v,
        None => return Err(DecodeError::TooShort),
    };
    if (len as usize) < HAI_SIZE {
        return Err(DecodeError::Malformed);
    }
    let span: u64 = round_up8(len as u64);
    if (available as u64) < span {
        return Err(DecodeError::TooShort);
    }
    let code = match cursor.read_u32() {
        Some(v) => v,
        None => return Err(DecodeError::TooShort),
    };
    let fid = match cursor.read_fid() {
        Some(v) => v,
        None => return Err(DecodeError::TooShort),
    };
    let dfid = match cursor.read_fid() {
        Some(v) => v,
        None => return Err(DecodeError::TooShort),
    };
    let extent = match cursor.read_extent() {
        Some(v) => v,
        None => return Err(DecodeError::TooShort),
    };
    let cookie = match cursor.read_u64() {
        Some(v) => v,
        None => return Err(DecodeError::TooShort),
    };
    let gid = match cursor.read_u64() {
        Some(v) => v,
        None => return Err(DecodeError::TooShort),
    };
    let payload = match cursor.take(len as usize - HAI_SIZE) {
        Some(bytes) => bytes,
        None => return Err(DecodeError::TooShort),
    };
    if !cursor.skip((span - len as u64) as usize) {
        return Err(DecodeError::TooShort);
    }
    let action = match HsmCopytoolAction::try_from(code) {
        Ok(action) => action,
        Err(e) => return Err(e),
    };
    assert(payload@ =~= rest.subrange(HAI_SIZE as int, item_len(rest)));
    Ok(
        OwnedHsmActionItem {
            action,
            fid,
            dfid,
            extent,
            cookie,
            gid,
            data: slice_to_vec(payload),
            flags,
            archive_id,
        },
    )
}

/// Decodes an action list.
///
/// `buffer` is untrusted: its item count, item lengths and padding are
/// checked against its size before anything is read. On success the items
/// come back in buffer order, each with its own copy of its payload and with
/// the archive id and flags of the batch. On failure only the error comes
/// back. Bytes behind the last announced item are ignored.
pub fn decode(buffer: &[u8], expected_fsname: &str, archive_filter: &[u32]) -> (result: Result<
    Vec<OwnedHsmActionItem>,
    DecodeError,
>)
    ensures
        decoded_view(result) == decode_spec(buffer@, expected_fsname@, archive_filter@),
{
    let mut cursor = ByteCursor::new(buffer);
    let header = match read_header(&mut cursor, expected_fsname, archive_filter) {
        Ok(header) => header,
        Err(e) => return Err(e),
    };
    let ghost whole = decode_spec(buffer@, expected_fsname@, archive_filter@);
    let mut items: Vec<OwnedHsmActionItem> = Vec::new();
    let mut left: u32 = header.count;
    while left > 0
        invariant
            cursor.input() == buffer@,
            cursor.offset() <= buffer@.len(),
            whole == decode_spec(buffer@, expected_fsname@, archive_filter@),
            whole == followed_by(
                items.deep_view(),
                decode_items(cursor.rest(), left as nat, header.archive_id, header.flags),
            ),
        decreases left,
    {
        let ghost rest = cursor.rest();
        let ghost done = items.deep_view();
        let item = match read_item(&mut cursor, header.archive_id, header.flags) {
            Ok(item) => item,
            Err(e) => return Err(e),
        };
        proof {
            let span = item_span(rest);
            assert(cursor.rest() =~= rest.skip(span));
            let tail = decode_items(
                cursor.rest(),
                (left - 1) as nat,
                header.archive_id,
                header.flags,
            );
            if let Ok(more) = tail {
                assert(done.push(item@) + more =~= done + (seq![item@] + more));
            }
        }
        items.push(item);
        assert(items.deep_view() =~= done.push(item@));
        left = left - 1;
    }
    Ok(items)
}

} // verus!
