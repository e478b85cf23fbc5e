//! The decoded unit of work and the fixed-size values it carries.
use crate::action::HsmCopytoolAction;
use crate::layout::{
    get_u32, get_u64, lemma_concat_assoc, lemma_field_sizes, lemma_fields_of_prefix,
    lemma_u32_appended, lemma_u64_appended, put_u32, put_u64, u32_at, u32_bytes, u64_at,
    u64_bytes,
};
use vstd::prelude::*;

verus! {

/// Identifier of a file, independent of its path. Sixteen bytes on the wire:
/// sequence, object id, version.
#[derive(Clone, Copy, Debug, PartialEq, Eq, Hash, Structural)]
pub struct LuFid {
    pub seq: u64,
    pub oid: u32,
    pub ver: u32,
}

/// The byte range of a file that an action applies to.
#[derive(Clone, Copy, Debug, PartialEq, Eq, Hash, Structural)]
pub struct HsmExtent {
    pub offset: u64,
    pub length: u64,
}

/// One decoded action. It owns its payload, so it stays valid after the
/// buffer it was decoded from is gone.
#[derive(Clone, Debug, PartialEq, Eq)]
pub struct OwnedHsmActionItem {
    pub action: HsmCopytoolAction,
    /// The file under management.
    pub fid: LuFid,
    /// The file that holds the data.
    pub dfid: LuFid,
    pub extent: HsmExtent,
    /// Token to hand back when reporting completion.
    pub cookie: u64,
    pub gid: u64,
    /// Opaque bytes whose meaning depends on the action; may be empty.
    pub data: Vec<u8>,
    /// Flags of the batch, shared by all its items.
    pub flags: u64,
    /// The archive the batch is destined for, shared by all its items.
    pub archive_id: u32,
}

/// What an [`OwnedHsmActionItem`] holds, with the payload as a sequence.
pub struct ActionItemView {
    pub action: HsmCopytoolAction,
    pub fid: LuFid,
    pub dfid: LuFid,
    pub extent: HsmExtent,
    pub cookie: u64,
    pub gid: u64,
    pub data: Seq<u8>,
    pub flags: u64,
    pub archive_id: u32,
}

impl View for OwnedHsmActionItem {
    type V = ActionItemView;

    open spec fn view(&self) -> ActionItemView {
        ActionItemView {
            action: self.action,
            fid: self.fid,
            dfid: self.dfid,
            extent: self.extent,
            cookie: self.cookie,
            gid: self.gid,
            data: self.data@,
            flags: self.flags,
            archive_id: self.archive_id,
        }
    }
}

impl DeepView for OwnedHsmActionItem {
    type V = ActionItemView;

    open spec fn deep_view(&self) -> ActionItemView {
        self.view()
    }
}

/// The file identifier held by the sixteen bytes of `bytes` that start at `at`.
pub open spec fn fid_at(bytes: Seq<u8>, at: int) -> LuFid {
    LuFid { seq: u64_at(bytes, at), oid: u32_at(bytes, at + 8), ver: u32_at(bytes, at + 12) }
}

/// The sixteen bytes that hold `fid`.
pub open spec fn fid_bytes(fid: LuFid) -> Seq<u8> {
    u64_bytes(fid.seq) + u32_bytes(fid.oid) + u32_bytes(fid.ver)
}

/// The extent held by the sixteen bytes of `bytes` that start at `at`.
pub open spec fn extent_at(bytes: Seq<u8>, at: int) -> HsmExtent {
    HsmExtent { offset: u64_at(bytes, at), length: u64_at(bytes, at + 8) }
}

/// The sixteen bytes that hold `extent`.
pub open spec fn extent_bytes(extent: HsmExtent) -> Seq<u8> {
    u64_bytes(extent.offset) + u64_bytes(extent.length)
}

/// How many bytes an identifier and an extent take.
pub proof fn lemma_record_sizes()
    ensures
        forall|fid: LuFid| #[trigger] fid_bytes(fid).len() == 16,
        forall|extent: HsmExtent| #[trigger] extent_bytes(extent).len() == 16,
{
    lemma_field_sizes();
}

/// Bytes appended behind an identifier or an extent do not change it.
pub proof fn lemma_records_of_prefix(front: Seq<u8>, back: Seq<u8>)
    ensures
        forall|at: int|
            0 <= at && at + 16 <= front.len() ==> #[trigger] fid_at(front + back, at) == fid_at(
                front,
                at,
            ),
        forall|at: int|
            0 <= at && at + 16 <= front.len() ==> #[trigger] extent_at(front + back, at)
                == extent_at(front, at),
{
    lemma_fields_of_prefix(front, back);
}

/// Reading back what [`fid_bytes`] wrote gives the identifier.
pub proof fn lemma_fid_appended(before: Seq<u8>, fid: LuFid)
    ensures
        fid_at(before + fid_bytes(fid), before.len() as int) == fid,
{
    let seq = u64_bytes(fid.seq);
    let oid = u32_bytes(fid.oid);
    let ver = u32_bytes(fid.ver);
    lemma_field_sizes();
    lemma_concat_assoc(seq, oid, ver);
    lemma_concat_assoc(before, seq, oid + ver);
    lemma_concat_assoc(before + seq, oid, ver);
    lemma_u64_appended(before, fid.seq);
    lemma_fields_of_prefix(before + seq, oid);
    lemma_u32_appended(before + seq, fid.oid);
    lemma_fields_of_prefix(before + seq + oid, ver);
    lemma_u32_appended(before + seq + oid, fid.ver);
}

/// Reading back what [`extent_bytes`] wrote gives the extent.
pub proof fn lemma_extent_appended(before: Seq<u8>, extent: HsmExtent)
    ensures
        extent_at(before + extent_bytes(extent), before.len() as int) == extent,
{
    let offset = u64_bytes(extent.offset);
    let length = u64_bytes(extent.length);
    lemma_field_sizes();
    lemma_concat_assoc(before, offset, length);
    lemma_u64_appended(before, extent.offset);
    lemma_fields_of_prefix(before + offset, length);
    lemma_u64_appended(before + offset, extent.length);
}

/// Reads the file identifier at `at`.
pub(crate) fn get_fid(bytes: &[u8], at: usize) -> (fid: LuFid)
    requires
        at + 16 <= bytes.len(),
    ensures
        fid == fid_at(bytes@, at as int),
{
    LuFid { seq: get_u64(bytes, at), oid: get_u32(bytes, at + 8), ver: get_u32(bytes, at + 12) }
}

/// Reads the extent at `at`.
pub(crate) fn get_extent(bytes: &[u8], at: usize) -> (extent: HsmExtent)
    requires
        at + 16 <= bytes.len(),
    ensures
        extent == extent_at(bytes@, at as int),
{
    HsmExtent { offset: get_u64(bytes, at), length: get_u64(bytes, at + 8) }
}

/// Appends the sixteen bytes of `fid`.
pub fn put_fid(out: &mut Vec<u8>, fid: LuFid)
    ensures
        final(out)@ == old(out)@ + fid_bytes(fid),
{
    put_u64(out, fid.seq);
    put_u32(out, fid.oid);
    put_u32(out, fid.ver);
}

/// Appends the sixteen bytes of `extent`.
pub fn put_extent(out: &mut Vec<u8>, extent: HsmExtent)
    ensures
        final(out)@ == old(out)@ + extent_bytes(extent),
{
    put_u64(out, extent.offset);
    put_u64(out, extent.length);
}

} // verus!
