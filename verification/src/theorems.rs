//! What holds of decoding and encoding, for every buffer and every batch.
use crate::cstr::{
    lemma_nul_char_is_nul_byte, lemma_nul_index, lemma_nul_index_is, nul_index, terminated,
};
use crate::decode::{
    batch_archive_id, batch_count, batch_flags, batch_fsname, batch_items_start, batch_len,
    batch_version, decode_spec, header_error,
};
use crate::encode::{encodable, encode_spec, header_bytes, items_bytes, name_bytes};
use crate::error::DecodeError;
use crate::filter::{accepts_any, filter_accepts, is_normal, normalized, ANY_ARCHIVE};
use crate::item::ActionItemView;
use crate::layout::{lemma_fields_of_prefix, HAL_SIZE, HAL_VERSION};
use crate::lemmas::{
    lemma_cut_items, lemma_decoded_items, lemma_fields_of_take, lemma_header_of_take,
    lemma_header_reads_back, lemma_items_read_back, lemma_keep_items,
};
use vstd::prelude::*;
use vstd::utf8::{decode_utf8, encode_utf8, valid_utf8};

verus! {

/// Decoding undoes encoding: a batch that can be written decodes to the
/// very items that were written, in the same number and order and with the
/// same fields, for every session that expects its filesystem and admits
/// its archive.
pub proof fn encode_then_decode(
    flags: u64,
    archive_id: u32,
    fsname: Seq<char>,
    items: Seq<ActionItemView>,
    filter: Seq<u32>,
)
    requires
        encodable(flags, archive_id, fsname, items),
        filter_accepts(filter, archive_id),
    ensures
        decode_spec(encode_spec(flags, archive_id, fsname, items), fsname, filter) == Ok::<
            Seq<ActionItemView>,
            DecodeError,
        >(items),
{
    let head = header_bytes(items.len() as u32, flags, archive_id);
    let name = encode_utf8(fsname);
    let named = name_bytes(name);
    let body = items_bytes(items);
    let buffer = encode_spec(flags, archive_id, fsname, items);
    let end = HAL_SIZE + name.len();

    lemma_header_reads_back(items.len() as u32, flags, archive_id);
    lemma_fields_of_prefix(head, named);
    lemma_fields_of_prefix(head + named, body);

    lemma_nul_char_is_nul_byte(fsname);
    assert forall|i: int| HAL_SIZE <= i < end implies buffer[i] != 0 by {
        assert(buffer[i] == name[i - HAL_SIZE]);
    }
    assert(buffer[end] == named[name.len() as int]);
    lemma_nul_index_is(buffer, HAL_SIZE as int, end);
    assert(batch_fsname(buffer) =~= name);
    vstd::utf8::encode_utf8_valid_utf8(fsname);
    vstd::utf8::encode_utf8_decode_utf8(fsname);

    assert(buffer.skip(batch_items_start(buffer)) =~= body);
    lemma_items_read_back(items, flags, archive_id, Seq::empty());
}

/// Decoding loses nothing: the items of a successful decoding, written
/// again with the flags and the archive id of the batch, decode to the same
/// items, in the same number and order and with the same fields.
pub proof fn decode_is_lossless(buffer: Seq<u8>, fsname: Seq<char>, filter: Seq<u32>)
    requires
        decode_spec(buffer, fsname, filter) is Ok,
    ensures
        encodable(
            batch_flags(buffer),
            batch_archive_id(buffer),
            fsname,
            decode_spec(buffer, fsname, filter)->Ok_0,
        ),
        decode_spec(
            encode_spec(
                batch_flags(buffer),
                batch_archive_id(buffer),
                fsname,
                decode_spec(buffer, fsname, filter)->Ok_0,
            ),
            fsname,
            filter,
        ) == decode_spec(buffer, fsname, filter),
{
    let items = decode_spec(buffer, fsname, filter)->Ok_0;
    let name = batch_fsname(buffer);
    lemma_decoded_items(
        buffer.skip(batch_items_start(buffer)),
        batch_count(buffer) as nat,
        batch_archive_id(buffer),
        batch_flags(buffer),
    );
    lemma_nul_index(buffer, HAL_SIZE as int);
    vstd::utf8::decode_utf8_encode_utf8(name);
    lemma_nul_char_is_nul_byte(fsname);
    encode_then_decode(batch_flags(buffer), batch_archive_id(buffer), fsname, items, filter);
}

/// A batch that announces no item decodes to the empty list, whatever
/// follows its header.
pub proof fn empty_batch_decodes(buffer: Seq<u8>, fsname: Seq<char>, filter: Seq<u32>)
    requires
        header_error(buffer, fsname, filter) is None,
        batch_count(buffer) == 0,
    ensures
        decode_spec(buffer, fsname, filter) == Ok::<Seq<ActionItemView>, DecodeError>(
            Seq::empty(),
        ),
{
}

/// A batch that names another filesystem than the expected one is refused
/// for that reason, whatever its items are.
pub proof fn wrong_fsname_is_refused(buffer: Seq<u8>, fsname: Seq<char>, filter: Seq<u32>)
    requires
        buffer.len() >= HAL_SIZE,
        batch_version(buffer) == HAL_VERSION,
        filter_accepts(filter, batch_archive_id(buffer)),
        terminated(buffer, HAL_SIZE as int),
        valid_utf8(batch_fsname(buffer)),
        decode_utf8(batch_fsname(buffer)) != fsname,
    ensures
        decode_spec(buffer, fsname, filter) == Err::<Seq<ActionItemView>, DecodeError>(
            DecodeError::FsNameMismatch,
        ),
{
}

/// A batch for an archive that is not in the filter, where the filter does
/// not admit every archive, is refused for that reason. Nothing behind the
/// fixed header is looked at: neither the name nor any item can change the
/// outcome.
pub proof fn unsolicited_archive_is_refused(buffer: Seq<u8>, fsname: Seq<char>, filter: Seq<u32>)
    requires
        buffer.len() >= HAL_SIZE,
        batch_version(buffer) == HAL_VERSION,
        !accepts_any(filter),
        !filter.contains(batch_archive_id(buffer)),
    ensures
        decode_spec(buffer, fsname, filter) == Err::<Seq<ActionItemView>, DecodeError>(
            DecodeError::UnsolicitedArchive(batch_archive_id(buffer)),
        ),
{
}

/// A filter and its normal form admit the same archives, so a session
/// decodes every buffer alike with either. A filter that is empty or holds
/// the wildcard has the single wildcard as its normal form, and decodes
/// every buffer as the single wildcard does. Bringing a filter into normal
/// form gives a filter in normal form, which stays as it is when normalized
/// again.
pub proof fn normal_filter_decodes_alike(buffer: Seq<u8>, fsname: Seq<char>, filter: Seq<u32>)
    ensures
        decode_spec(buffer, fsname, normalized(filter)) == decode_spec(buffer, fsname, filter),
        accepts_any(filter) ==> normalized(filter) == seq![ANY_ARCHIVE],
        accepts_any(filter) ==> decode_spec(buffer, fsname, filter) == decode_spec(
            buffer,
            fsname,
            seq![ANY_ARCHIVE],
        ),
        is_normal(normalized(filter)),
        normalized(normalized(filter)) == normalized(filter),
{
    assert(seq![ANY_ARCHIVE][0] == ANY_ARCHIVE);
    assert forall|id: u32| filter_accepts(normalized(filter), id) == filter_accepts(
        filter,
        id,
    ) by {}
}

/// A buffer that decodes holds its whole batch: cut anywhere before the end
/// of the batch, it is refused as too short. No prefix of a batch decodes to
/// anything, let alone to wrong items.
pub proof fn truncated_batch_is_too_short(
    buffer: Seq<u8>,
    fsname: Seq<char>,
    filter: Seq<u32>,
    keep: int,
)
    requires
        decode_spec(buffer, fsname, filter) is Ok,
        0 <= keep < batch_len(buffer),
    ensures
        batch_len(buffer) <= buffer.len(),
        decode_spec(buffer.take(keep), fsname, filter) == Err::<
            Seq<ActionItemView>,
            DecodeError,
        >(DecodeError::TooShort),
{
    let cut = buffer.take(keep);
    let end = nul_index(buffer, HAL_SIZE as int);
    let start = batch_items_start(buffer);
    let rest = buffer.skip(start);
    let count = batch_count(buffer) as nat;
    lemma_decoded_items(rest, count, batch_archive_id(buffer), batch_flags(buffer));
    lemma_nul_index(buffer, HAL_SIZE as int);
    if keep >= HAL_SIZE {
        lemma_fields_of_take(buffer, keep);
        if keep <= end {
            lemma_nul_index_is(cut, HAL_SIZE as int, keep);
        } else {
            lemma_header_of_take(buffer, keep);
            if keep >= start {
                lemma_cut_items(
                    rest,
                    count,
                    batch_archive_id(buffer),
                    batch_flags(buffer),
                    keep - start,
                );
                assert(cut.skip(start) =~= rest.take(keep - start));
            }
        }
    }
}

/// What a buffer holds behind the end of its batch does not matter: every
/// prefix that holds the whole batch decodes to the same items.
pub proof fn bytes_behind_batch_are_ignored(
    buffer: Seq<u8>,
    fsname: Seq<char>,
    filter: Seq<u32>,
    keep: int,
)
    requires
        decode_spec(buffer, fsname, filter) is Ok,
        batch_len(buffer) <= keep <= buffer.len(),
    ensures
        decode_spec(buffer.take(keep), fsname, filter) == decode_spec(buffer, fsname, filter),
{
    let cut = buffer.take(keep);
    let start = batch_items_start(buffer);
    let rest = buffer.skip(start);
    let count = batch_count(buffer) as nat;
    lemma_decoded_items(rest, count, batch_archive_id(buffer), batch_flags(buffer));
    lemma_nul_index(buffer, HAL_SIZE as int);
    lemma_header_of_take(buffer, keep);
    lemma_keep_items(rest, count, batch_archive_id(buffer), batch_flags(buffer), keep - start);
    assert(cut.skip(start) =~= rest.take(keep - start));
}

} // verus!
