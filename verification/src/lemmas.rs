//! The steps behind the theorems: how written fields read back, and what a
//! prefix of a buffer still shows.
use crate::action::lemma_action_code_roundtrip;
use crate::cstr::{lemma_nul_index, lemma_nul_index_is, nul_index, terminated};
use crate::decode::{
    batch_archive_id, batch_count, batch_flags, batch_fsname, batch_items_start, batch_version,
    decode_item, decode_items, item_len, item_span, items_span,
};
use crate::encode::{
    announced_len, header_bytes, item_bytes, item_encodable, item_header_bytes, items_bytes,
};
use crate::error::DecodeError;
use crate::item::{
    extent_at, extent_bytes, fid_at, fid_bytes, lemma_extent_appended, lemma_fid_appended,
    lemma_record_sizes, lemma_records_of_prefix, ActionItemView,
};
use crate::layout::{
    lemma_concat_assoc, lemma_field_sizes, lemma_fields_of_prefix, lemma_u32_appended,
    lemma_u64_appended, pad8, u32_at, u32_bytes, u64_at, u64_bytes, zeros, HAI_SIZE, HAL_SIZE,
    HAL_VERSION,
};
use vstd::prelude::*;

verus! {

/// The fields of a written batch header read back as they were written.
pub proof fn lemma_header_reads_back(count: u32, flags: u64, archive_id: u32)
    ensures
        header_bytes(count, flags, archive_id).len() == HAL_SIZE,
        batch_version(header_bytes(count, flags, archive_id)) == HAL_VERSION,
        batch_count(header_bytes(count, flags, archive_id)) == count,
        batch_flags(header_bytes(count, flags, archive_id)) == flags,
        batch_archive_id(header_bytes(count, flags, archive_id)) == archive_id,
{
    reveal(header_bytes);
    lemma_field_sizes();
    let w0 = Seq::<u8>::empty();
    let w1 = u32_bytes(HAL_VERSION);
    let w2 = w1 + u32_bytes(count);
    let w3 = w2 + u64_bytes(0);
    let w4 = w3 + u64_bytes(flags);
    let w5 = w4 + u32_bytes(archive_id);
    let w6 = w5 + u32_bytes(0);
    lemma_u32_appended(w0, HAL_VERSION);
    lemma_u32_appended(w1, count);
    lemma_fields_of_prefix(w1, u32_bytes(count));
    lemma_fields_of_prefix(w2, u64_bytes(0));
    lemma_u64_appended(w3, flags);
    lemma_fields_of_prefix(w3, u64_bytes(flags));
    lemma_u32_appended(w4, archive_id);
    lemma_fields_of_prefix(w4, u32_bytes(archive_id));
    lemma_fields_of_prefix(w5, u32_bytes(0));
}

/// The fields of a written item header read back as they were written.
pub proof fn lemma_item_header_reads_back(item: ActionItemView)
    requires
        announced_len(item) <= u32::MAX,
    ensures
        item_header_bytes(item).len() == HAI_SIZE,
        u32_at(item_header_bytes(item), 0) == announced_len(item),
        u32_at(item_header_bytes(item), 4) == item.action.wire_code(),
        fid_at(item_header_bytes(item), 8) == item.fid,
        fid_at(item_header_bytes(item), 24) == item.dfid,
        extent_at(item_header_bytes(item), 40) == item.extent,
        u64_at(item_header_bytes(item), 56) == item.cookie,
        u64_at(item_header_bytes(item), 64) == item.gid,
{
    reveal(item_header_bytes);
    lemma_field_sizes();
    lemma_record_sizes();
    let len = announced_len(item) as u32;
    let code = item.action.wire_code();
    let w0 = Seq::<u8>::empty();
    let w1 = u32_bytes(len);
    let w2 = w1 + u32_bytes(code);
    let w3 = w2 + fid_bytes(item.fid);
    let w4 = w3 + fid_bytes(item.dfid);
    let w5 = w4 + extent_bytes(item.extent);
    let w6 = w5 + u64_bytes(item.cookie);
    let w7 = w6 + u64_bytes(item.gid);
    assert(u32_at(w2, 0) == len && u32_at(w2, 4) == code) by {
        lemma_u32_appended(w0, len);
        lemma_u32_appended(w1, code);
        lemma_fields_of_prefix(w1, u32_bytes(code));
    }
    assert(u32_at(w3, 0) == len && u32_at(w3, 4) == code && fid_at(w3, 8) == item.fid) by {
        lemma_fid_appended(w2, item.fid);
        lemma_fields_of_prefix(w2, fid_bytes(item.fid));
    }
    assert(u32_at(w4, 0) == len && u32_at(w4, 4) == code && fid_at(w4, 8) == item.fid && fid_at(
        w4,
        24,
    ) == item.dfid) by {
        lemma_fid_appended(w3, item.dfid);
        lemma_fields_of_prefix(w3, fid_bytes(item.dfid));
        lemma_records_of_prefix(w3, fid_bytes(item.dfid));
    }
    assert(u32_at(w5, 0) == len && u32_at(w5, 4) == code && fid_at(w5, 8) == item.fid && fid_at(
        w5,
        24,
    ) == item.dfid && extent_at(w5, 40) == item.extent) by {
        lemma_extent_appended(w4, item.extent);
        lemma_fields_of_prefix(w4, extent_bytes(item.extent));
        lemma_records_of_prefix(w4, extent_bytes(item.extent));
    }
    assert(u32_at(w6, 0) == len && u32_at(w6, 4) == code && fid_at(w6, 8) == item.fid && fid_at(
        w6,
        24,
    ) == item.dfid && extent_at(w6, 40) == item.extent && u64_at(w6, 56) == item.cookie) by {
        lemma_u64_appended(w5, item.cookie);
        lemma_fields_of_prefix(w5, u64_bytes(item.cookie));
        lemma_records_of_prefix(w5, u64_bytes(item.cookie));
    }
    assert(u32_at(w7, 0) == len && u32_at(w7, 4) == code && fid_at(w7, 8) == item.fid && fid_at(
        w7,
        24,
    ) == item.dfid && extent_at(w7, 40) == item.extent && u64_at(w7, 56) == item.cookie
        && u64_at(w7, 64) == item.gid) by {
        lemma_u64_appended(w6, item.gid);
        lemma_fields_of_prefix(w6, u64_bytes(item.gid));
        lemma_records_of_prefix(w6, u64_bytes(item.gid));
    }
}

/// A written item reads back as it was written, whatever follows it, and
/// what follows it is where the next item is looked for.
pub proof fn lemma_item_reads_back(item: ActionItemView, flags: u64, archive_id: u32, tail: Seq<u8>)
    requires
        item_encodable(item, flags, archive_id),
    ensures
        decode_item(item_bytes(item) + tail, archive_id, flags) == Ok::<
            ActionItemView,
            DecodeError,
        >(item),
        item_span(item_bytes(item) + tail) == item_bytes(item).len(),
        (item_bytes(item) + tail).skip(item_bytes(item).len() as int) == tail,
{
    reveal(item_bytes);
    let head = item_header_bytes(item);
    let padding = zeros(pad8(announced_len(item)));
    let all = item_bytes(item) + tail;
    lemma_item_header_reads_back(item);
    lemma_fields_of_prefix(head, item.data);
    lemma_records_of_prefix(head, item.data);
    lemma_fields_of_prefix(head + item.data, padding);
    lemma_records_of_prefix(head + item.data, padding);
    lemma_fields_of_prefix(head + item.data + padding, tail);
    lemma_records_of_prefix(head + item.data + padding, tail);
    assert(all.subrange(HAI_SIZE as int, item_len(all)) =~= item.data);
    lemma_action_code_roundtrip(item.action, 0);
}

/// A written list of items reads back as it was written, whatever follows.
pub proof fn lemma_items_read_back(
    items: Seq<ActionItemView>,
    flags: u64,
    archive_id: u32,
    tail: Seq<u8>,
)
    requires
        forall|i: int|
            0 <= i < items.len() ==> item_encodable(#[trigger] items[i], flags, archive_id),
    ensures
        decode_items(items_bytes(items) + tail, items.len(), archive_id, flags) == Ok::<
            Seq<ActionItemView>,
            DecodeError,
        >(items),
    decreases items.len(),
{
    reveal(items_bytes);
    if items.len() == 0 {
        assert(items =~= Seq::<ActionItemView>::empty());
    } else {
        let first = items[0];
        let others = items.drop_first();
        let behind = items_bytes(others) + tail;
        lemma_concat_assoc(item_bytes(first), items_bytes(others), tail);
        lemma_item_reads_back(first, flags, archive_id, behind);
        lemma_items_read_back(others, flags, archive_id, tail);
        assert(seq![first] + others =~= items);
    }
}

/// The items of a successful decoding are as many as the header announced,
/// lie within the bytes they were decoded from, and can be written again
/// with the flags and the archive id of the batch.
pub proof fn lemma_decoded_items(rest: Seq<u8>, count: nat, archive_id: u32, flags: u64)
    requires
        decode_items(rest, count, archive_id, flags) is Ok,
    ensures
        decode_items(rest, count, archive_id, flags)->Ok_0.len() == count,
        forall|i: int|
            0 <= i < count ==> item_encodable(
                #[trigger] decode_items(rest, count, archive_id, flags)->Ok_0[i],
                flags,
                archive_id,
            ),
        0 <= items_span(rest, count) <= rest.len(),
    decreases count,
{
    if count > 0 {
        let item = decode_item(rest, archive_id, flags)->Ok_0;
        let behind = rest.skip(item_span(rest));
        let others = decode_items(behind, (count - 1) as nat, archive_id, flags)->Ok_0;
        let items = decode_items(rest, count, archive_id, flags)->Ok_0;
        lemma_decoded_items(behind, (count - 1) as nat, archive_id, flags);
        assert forall|i: int| 0 < i < count implies items[i] == others[i - 1] by {}
    }
}

/// A field that lies within the first `keep` bytes is the same in those
/// bytes alone.
pub proof fn lemma_fields_of_take(bytes: Seq<u8>, keep: int)
    requires
        0 <= keep <= bytes.len(),
    ensures
        forall|at: int|
            0 <= at && at + 4 <= keep ==> #[trigger] u32_at(bytes.take(keep), at) == u32_at(
                bytes,
                at,
            ),
        forall|at: int|
            0 <= at && at + 8 <= keep ==> #[trigger] u64_at(bytes.take(keep), at) == u64_at(
                bytes,
                at,
            ),
        forall|at: int|
            0 <= at && at + 16 <= keep ==> #[trigger] fid_at(bytes.take(keep), at) == fid_at(
                bytes,
                at,
            ),
        forall|at: int|
            0 <= at && at + 16 <= keep ==> #[trigger] extent_at(bytes.take(keep), at)
                == extent_at(bytes, at),
{
    assert(bytes.take(keep) + bytes.skip(keep) =~= bytes);
    lemma_fields_of_prefix(bytes.take(keep), bytes.skip(keep));
    lemma_records_of_prefix(bytes.take(keep), bytes.skip(keep));
}

/// Items that decode from `rest` do not decode from a prefix of `rest` that
/// ends before the last of them does: the prefix is too short.
pub proof fn lemma_cut_items(rest: Seq<u8>, count: nat, archive_id: u32, flags: u64, keep: int)
    requires
        decode_items(rest, count, archive_id, flags) is Ok,
        0 <= keep < items_span(rest, count),
    ensures
        decode_items(rest.take(keep), count, archive_id, flags) == Err::<
            Seq<ActionItemView>,
            DecodeError,
        >(DecodeError::TooShort),
    decreases count,
{
    lemma_decoded_items(rest, count, archive_id, flags);
    let cut = rest.take(keep);
    let span = item_span(rest);
    if keep >= HAI_SIZE {
        lemma_fields_of_take(rest, keep);
        if keep >= span {
            let behind = rest.skip(span);
            lemma_decoded_items(behind, (count - 1) as nat, archive_id, flags);
            lemma_cut_items(behind, (count - 1) as nat, archive_id, flags, keep - span);
            assert(cut.skip(span) =~= behind.take(keep - span));
        }
    }
}

/// Items that decode from `rest` decode alike from every prefix of `rest`
/// that holds them all.
pub proof fn lemma_keep_items(rest: Seq<u8>, count: nat, archive_id: u32, flags: u64, keep: int)
    requires
        decode_items(rest, count, archive_id, flags) is Ok,
        items_span(rest, count) <= keep <= rest.len(),
    ensures
        decode_items(rest.take(keep), count, archive_id, flags) == decode_items(
            rest,
            count,
            archive_id,
            flags,
        ),
    decreases count,
{
    if count > 0 {
        lemma_decoded_items(rest, count, archive_id, flags);
        let cut = rest.take(keep);
        let span = item_span(rest);
        let behind = rest.skip(span);
        lemma_decoded_items(behind, (count - 1) as nat, archive_id, flags);
        lemma_fields_of_take(rest, keep);
        assert(cut.subrange(HAI_SIZE as int, item_len(rest)) =~= rest.subrange(
            HAI_SIZE as int,
            item_len(rest),
        ));
        lemma_keep_items(behind, (count - 1) as nat, archive_id, flags, keep - span);
        assert(cut.skip(span) =~= behind.take(keep - span));
    }
}

/// What the header checks see of a buffer is the same in every prefix that
/// reaches behind the terminator of the name.
pub proof fn lemma_header_of_take(buffer: Seq<u8>, keep: int)
    requires
        buffer.len() >= HAL_SIZE,
        terminated(buffer, HAL_SIZE as int),
        nul_index(buffer, HAL_SIZE as int) < keep <= buffer.len(),
    ensures
        batch_version(buffer.take(keep)) == batch_version(buffer),
        batch_count(buffer.take(keep)) == batch_count(buffer),
        batch_flags(buffer.take(keep)) == batch_flags(buffer),
        batch_archive_id(buffer.take(keep)) == batch_archive_id(buffer),
        terminated(buffer.take(keep), HAL_SIZE as int),
        batch_fsname(buffer.take(keep)) == batch_fsname(buffer),
        batch_items_start(buffer.take(keep)) == batch_items_start(buffer),
{
    let end = nul_index(buffer, HAL_SIZE as int);
    lemma_nul_index(buffer, HAL_SIZE as int);
    lemma_fields_of_take(buffer, keep);
    lemma_nul_index_is(buffer.take(keep), HAL_SIZE as int, end);
}

} // verus!
