//! Encoding of an action list: the inverse of decoding.
use crate::cstr::{contains_nul, lemma_nul_char_is_nul_byte};
use crate::item::{
    extent_bytes, fid_bytes, put_extent, put_fid, ActionItemView, OwnedHsmActionItem,
};
use crate::layout::{
    lemma_concat_assoc, pad8, padding8, put_u32, put_u64, u32_bytes, u64_bytes, zeros, HAI_SIZE,
    HAL_VERSION,
};
use vstd::prelude::*;
use vstd::utf8::encode_utf8;

verus! {

/// The fixed header of a batch of `count` items.
#[verifier::opaque]
pub open spec fn header_bytes(count: u32, flags: u64, archive_id: u32) -> Seq<u8> {
    u32_bytes(HAL_VERSION) + u32_bytes(count) + u64_bytes(0) + u64_bytes(flags) + u32_bytes(
        archive_id,
    ) + u32_bytes(0)
}

/// `name` followed by its terminator and by padding up to a multiple of
/// eight.
pub open spec fn name_bytes(name: Seq<u8>) -> Seq<u8> {
    name + zeros(1 + pad8(name.len() as int + 1))
}

/// The length that an item with this payload announces.
pub open spec fn announced_len(item: ActionItemView) -> int {
    HAI_SIZE + item.data.len()
}

/// The fixed header of an item.
#[verifier::opaque]
pub open spec fn item_header_bytes(item: ActionItemView) -> Seq<u8> {
    u32_bytes(announced_len(item) as u32) + u32_bytes(item.action.wire_code()) + fid_bytes(
        item.fid,
    ) + fid_bytes(item.dfid) + extent_bytes(item.extent) + u64_bytes(item.cookie) + u64_bytes(
        item.gid,
    )
}

/// One item: fixed header, payload, padding up to a multiple of eight.
#[verifier::opaque]
pub open spec fn item_bytes(item: ActionItemView) -> Seq<u8> {
    item_header_bytes(item) + item.data + zeros(pad8(announced_len(item)))
}

/// The items one after the other.
#[verifier::opaque]
pub open spec fn items_bytes(items: Seq<ActionItemView>) -> Seq<u8>
    decreases items.len(),
{
    if items.len() == 0 {
        Seq::empty()
    } else {
        item_bytes(items[0]) + items_bytes(items.drop_first())
    }
}

/// Whether an item can stand in a batch with these flags and this archive
/// id: it has to carry both, and its length has to fit the length field.
pub open spec fn item_encodable(item: ActionItemView, flags: u64, archive_id: u32) -> bool {
    &&& announced_len(item) <= u32::MAX
    &&& item.flags == flags
    &&& item.archive_id == archive_id
}

/// Whether a batch can be written: the name holds no NUL, the number
/// of items fits the count field, and every item can stand in the batch.
pub open spec fn encodable(
    flags: u64,
    archive_id: u32,
    fsname: Seq<char>,
    items: Seq<ActionItemView>,
) -> bool {
    &&& !fsname.contains('\0')
    &&& items.len() <= u32::MAX
    &&& forall|i: int|
        0 <= i < items.len() ==> item_encodable(#[trigger] items[i], flags, archive_id)
}

/// The buffer that holds a batch.
pub open spec fn encode_spec(
    flags: u64,
    archive_id: u32,
    fsname: Seq<char>,
    items: Seq<ActionItemView>,
) -> Seq<u8> {
    header_bytes(items.len() as u32, flags, archive_id) + name_bytes(encode_utf8(fsname))
        + items_bytes(items)
}

/// The bytes of a list of items with one more item are those of the list
/// followed by those of the item.
pub proof fn lemma_items_bytes_push(items: Seq<ActionItemView>, item: ActionItemView)
    ensures
        items_bytes(items.push(item)) == items_bytes(items) + item_bytes(item),
    decreases items.len(),
{
    reveal(items_bytes);
    let longer = items.push(item);
    if items.len() == 0 {
        assert(items_bytes(longer.drop_first()) =~= Seq::<u8>::empty());
    } else {
        assert(longer.drop_first() =~= items.drop_first().push(item));
        lemma_items_bytes_push(items.drop_first(), item);
    }
}

/// Appends `count` zero bytes.
fn put_zeros(out: &mut Vec<u8>, count: usize)
    ensures
        final(out)@ == old(out)@ + zeros(count as int),
{
    let mut done: usize = 0;
    while done < count
        invariant
            done <= count,
            out@ == old(out)@ + zeros(done as int),
        decreases count - done,
    {
        out.push(0u8);
        done = done + 1;
    }
}

/// Appends a copy of `bytes`.
fn put_bytes(out: &mut Vec<u8>, bytes: &[u8])
    ensures
        final(out)@ == old(out)@ + bytes@,
{
    let mut done: usize = 0;
    while done < bytes.len()
        invariant
            done <= bytes.len(),
            out@ == old(out)@ + bytes@.take(done as int),
        decreases bytes.len() - done,
    {
        out.push(bytes[done]);
        done = done + 1;
    }
}

/// Appends the fixed header of a batch of `count` items.
fn put_header(out: &mut Vec<u8>, count: u32, flags: u64, archive_id: u32)
    ensures
        final(out)@ == old(out)@ + header_bytes(count, flags, archive_id),
{
    proof {
        reveal(header_bytes);
    }
    let ghost base = out@;
    put_u32(out, HAL_VERSION);
    let ghost w1 = u32_bytes(HAL_VERSION);
    put_u32(out, count);
    let ghost w2 = w1 + u32_bytes(count);
    proof {
        lemma_concat_assoc(base, w1, u32_bytes(count));
    }
    put_u64(out, 0);
    let ghost w3 = w2 + u64_bytes(0);
    proof {
        lemma_concat_assoc(base, w2, u64_bytes(0));
    }
    put_u64(out, flags);
    let ghost w4 = w3 + u64_bytes(flags);
    proof {
        lemma_concat_assoc(base, w3, u64_bytes(flags));
    }
    put_u32(out, archive_id);
    let ghost w5 = w4 + u32_bytes(archive_id);
    proof {
        lemma_concat_assoc(base, w4, u32_bytes(archive_id));
    }
    put_u32(out, 0);
    proof {
        lemma_concat_assoc(base, w5, u32_bytes(0));
    }
}

/// Appends a name, its terminator and the padding behind it.
fn put_name(out: &mut Vec<u8>, name: &[u8])
    ensures
        final(out)@ == old(out)@ + name_bytes(name@),
{
    let ghost base = out@;
    put_bytes(out, name);
    put_zeros(out, 8 - name.len() % 8);
    proof {
        lemma_concat_assoc(base, name@, zeros(1 + pad8(name@.len() as int + 1)));
    }
}

/// Appends one item, if it can stand in a batch with these flags and this
/// archive id; else leaves `out` as it is.
fn put_item(out: &mut Vec<u8>, item: &OwnedHsmActionItem, flags: u64, archive_id: u32) -> (written:
    bool)
    ensures
        written == item_encodable(item@, flags, archive_id),
        final(out)@ == if written {
            old(out)@ + item_bytes(item@)
        } else {
            old(out)@
        },
{
    if item.data.len() > u32::MAX as usize - HAI_SIZE || item.flags != flags || item.archive_id
        != archive_id {
        return false;
    }
    proof {
        reveal(item_header_bytes);
        reveal(item_bytes);
    }
    let ghost base = out@;
    let len: u32 = (HAI_SIZE + item.data.len()) as u32;
    put_u32(out, len);
    let ghost w1 = u32_bytes(len);
    put_u32(out, item.action.code());
    let ghost w2 = w1 + u32_bytes(item.action.wire_code());
    proof {
        lemma_concat_assoc(base, w1, u32_bytes(item.action.wire_code()));
    }
    put_fid(out, item.fid);
    let ghost w3 = w2 + fid_bytes(item.fid);
    proof {
        lemma_concat_assoc(base, w2, fid_bytes(item.fid));
    }
    put_fid(out, item.dfid);
    let ghost w4 = w3 + fid_bytes(item.dfid);
    proof {
        lemma_concat_assoc(base, w3, fid_bytes(item.dfid));
    }
    put_extent(out, item.extent);
    let ghost w5 = w4 + extent_bytes(item.extent);
    proof {
        lemma_concat_assoc(base, w4, extent_bytes(item.extent));
    }
    put_u64(out, item.cookie);
    let ghost w6 = w5 + u64_bytes(item.cookie);
    proof {
        lemma_concat_assoc(base, w5, u64_bytes(item.cookie));
    }
    put_u64(out, item.gid);
    let ghost w7 = w6 + u64_bytes(item.gid);
    proof {
        lemma_concat_assoc(base, w6, u64_bytes(item.gid));
    }
    put_bytes(out, item.data.as_slice());
    let ghost w8 = w7 + item.data@;
    proof {
        lemma_concat_assoc(base, w7, item.data@);
    }
    put_zeros(out, padding8(len as usize));
    proof {
        lemma_concat_assoc(base, w8, zeros(pad8(len as int)));
    }
    true
}

/// Writes a batch: the header, the name of the filesystem and the items in
/// order, in the layout that [`decode`](crate::decode::decode) reads.
///
/// Returns `None`, and writes nothing, if the batch cannot be written: the
/// name holds a NUL, there are more items than the count field can
/// hold, or an item does not carry `flags` and `archive_id` or is too long
/// for its length field.
pub fn encode(flags: u64, archive_id: u32, fsname: &str, items: &[OwnedHsmActionItem]) -> (out:
    Option<Vec<u8>>)
    ensures
        match out {
            Some(bytes) => {
                &&& encodable(flags, archive_id, fsname@, items.deep_view())
                &&& bytes@ == encode_spec(flags, archive_id, fsname@, items.deep_view())
            },
            None => !encodable(flags, archive_id, fsname@, items.deep_view()),
        },
{
    let name = fsname.as_bytes();
    proof {
        lemma_nul_char_is_nul_byte(fsname@);
    }
    if contains_nul(name) || items.len() > u32::MAX as usize {
        return None;
    }
    let ghost views = items.deep_view();
    let mut out: Vec<u8> = Vec::new();
    put_header(&mut out, items.len() as u32, flags, archive_id);
    put_name(&mut out, name);
    let ghost front = out@;
    assert(items_bytes(views.take(0)) =~= Seq::<u8>::empty()) by {
        reveal(items_bytes);
    }
    let mut at: usize = 0;
    while at < items.len()
        invariant
            at <= items.len(),
            views == items.deep_view(),
            out@ == front + items_bytes(views.take(at as int)),
            forall|i: int| 0 <= i < at ==> item_encodable(#[trigger] views[i], flags, archive_id),
        decreases items.len() - at,
    {
        if !put_item(&mut out, &items[at], flags, archive_id) {
            return None;
        }
        proof {
            lemma_items_bytes_push(views.take(at as int), views[at as int]);
            assert(views.take(at as int).push(views[at as int]) =~= views.take(at + 1));
            lemma_concat_assoc(
                front,
                items_bytes(views.take(at as int)),
                item_bytes(views[at as int]),
            );
        }
        at = at + 1;
    }
    assert(views.take(at as int) =~= views);
    Some(out)
}

} // verus!
