//! Removal of the digital-signature claim from an executable container.

use vstd::prelude::*;
use crate::container::{
    find_layout, layout_of, le_u32, read_u32_le, Layout, ParseFailure, DIRECTORY_ENTRY_SIZE,
};

verus! {

/// The address field of the signature directory entry.
pub open spec fn signature_address(bytes: Seq<u8>, layout: Layout) -> int {
    le_u32(bytes, layout.signature_entry_offset())
}

/// The size field of the signature directory entry.
pub open spec fn signature_size(bytes: Seq<u8>, layout: Layout) -> int {
    le_u32(bytes, layout.signature_entry_offset() + 4)
}

/// Whether the entry claims a signature: neither field is zero.
pub open spec fn entry_claims_signature(bytes: Seq<u8>, layout: Layout) -> bool {
    signature_address(bytes, layout) != 0 && signature_size(bytes, layout) != 0
}

/// Whether a buffer is a container whose signature entry claims a signature.
pub open spec fn has_signature(bytes: Seq<u8>) -> bool {
    match layout_of(bytes) {
        Ok(layout) => entry_claims_signature(bytes, layout),
        Err(_) => false,
    }
}

/// Whether the claimed signature range ends exactly at the end of the buffer.
pub open spec fn signature_at_tail(bytes: Seq<u8>, layout: Layout) -> bool {
    signature_address(bytes, layout) + signature_size(bytes, layout) == bytes.len()
}

/// The buffer with the eight bytes of the signature entry set to zero.
pub open spec fn with_entry_zeroed(bytes: Seq<u8>, layout: Layout) -> Seq<u8> {
    Seq::new(
        bytes.len(),
        |i: int|
            if layout.signature_entry_offset() <= i < layout.header_end() {
                0u8
            } else {
                bytes[i]
            },
    )
}

/// The buffer after stripping. Without a claimed signature nothing changes.
/// Otherwise the entry is zeroed, and the buffer is cut at the signature's
/// address if the signature ends exactly at the end of the buffer.
pub open spec fn stripped(bytes: Seq<u8>) -> Seq<u8> {
    match layout_of(bytes) {
        Ok(layout) => {
            if !entry_claims_signature(bytes, layout) {
                bytes
            } else if signature_at_tail(bytes, layout) {
                with_entry_zeroed(bytes, layout).subrange(0, signature_address(bytes, layout))
            } else {
                with_entry_zeroed(bytes, layout)
            }
        },
        Err(_) => bytes,
    }
}

/// Zeroing the signature entry leaves the layout as it was: the header
/// fields that the layout is derived from all lie before the entry.
pub proof fn lemma_zeroing_keeps_layout(bytes: Seq<u8>, layout: Layout)
    requires
        layout_of(bytes) == Ok::<Layout, ParseFailure>(layout),
    ensures
        layout_of(with_entry_zeroed(bytes, layout)) == Ok::<Layout, ParseFailure>(layout),
        !entry_claims_signature(with_entry_zeroed(bytes, layout), layout),
{
}

/// Cutting a container at or after the end of its header leaves the layout
/// as it was; cutting it inside the header leaves no layout at all.
pub proof fn lemma_layout_of_prefix(bytes: Seq<u8>, layout: Layout, keep: int)
    requires
        layout_of(bytes) == Ok::<Layout, ParseFailure>(layout),
        0 <= keep <= bytes.len(),
    ensures
        keep >= layout.header_end() ==> layout_of(bytes.subrange(0, keep)) == Ok::<
            Layout,
            ParseFailure,
        >(layout),
        keep < layout.header_end() ==> layout_of(bytes.subrange(0, keep)) is Err,
{
}

/// A buffer that claims no signature is left exactly as it is.
pub proof fn lemma_unsigned_is_untouched(bytes: Seq<u8>)
    requires
        !has_signature(bytes),
    ensures
        stripped(bytes) == bytes,
{
}

/// Stripping twice is stripping once: after a strip no signature is
/// claimed, so a second strip finds none and changes nothing.
pub proof fn lemma_strip_idempotent(bytes: Seq<u8>)
    ensures
        !has_signature(stripped(bytes)),
        stripped(stripped(bytes)) == stripped(bytes),
{
    match layout_of(bytes) {
        Ok(layout) => {
            if entry_claims_signature(bytes, layout) {
                let zeroed = with_entry_zeroed(bytes, layout);
                lemma_zeroing_keeps_layout(bytes, layout);
                if signature_at_tail(bytes, layout) {
                    let keep = signature_address(bytes, layout);
                    lemma_layout_of_prefix(zeroed, layout, keep);
                    let cut = zeroed.subrange(0, keep);
                    if keep >= layout.header_end() {
                        assert(!entry_claims_signature(cut, layout));
                    }
                }
            }
        },
        Err(_) => {},
    }
}

/// A signature that spans exactly the last `size` bytes of the buffer, and
/// starts after the header, is removed whole: the buffer gets shorter by
/// `size`, the eight bytes of the entry are zero, and every other byte
/// that is kept is unchanged.
pub proof fn lemma_strip_truncates(bytes: Seq<u8>, layout: Layout)
    requires
        layout_of(bytes) == Ok::<Layout, ParseFailure>(layout),
        entry_claims_signature(bytes, layout),
        signature_at_tail(bytes, layout),
        signature_address(bytes, layout) >= layout.header_end(),
    ensures
        stripped(bytes).len() == bytes.len() - signature_size(bytes, layout),
        forall|i: int|
            layout.signature_entry_offset() <= i < layout.header_end() ==> stripped(bytes)[i]
                == 0,
        forall|i: int|
            0 <= i < stripped(bytes).len() && !(layout.signature_entry_offset() <= i
                < layout.header_end()) ==> stripped(bytes)[i] == bytes[i],
{
}

/// Zeroes the entry and cuts a signature at the tail, given the layout.
fn strip_at(data: &mut Vec<u8>, layout: Layout) -> (found: bool)
    requires
        layout_of(old(data)@) == Ok::<Layout, ParseFailure>(layout),
    ensures
        found == has_signature(old(data)@),
        final(data)@ == stripped(old(data)@),
{
    assert(layout.header_end() <= data.len());
    let entry: usize = layout.signature_entry();
    let address: u32 = read_u32_le(data, entry);
    let size: u32 = read_u32_le(data, entry + 4);
    if address == 0 || size == 0 {
        return false;
    }
    let mut k: usize = 0;
    while k < DIRECTORY_ENTRY_SIZE
        invariant
            k <= DIRECTORY_ENTRY_SIZE,
            entry == layout.signature_entry_offset(),
            entry + 8 <= data.len(),
            data.len() == old(data).len(),
            forall|i: int|
                0 <= i < data.len() ==> data@[i] == if entry <= i < entry + k {
                    0u8
                } else {
                    old(data)@[i]
                },
        decreases DIRECTORY_ENTRY_SIZE - k,
    {
        data.set(entry + k, 0);
        k += 1;
    }
    assert(data@ =~= with_entry_zeroed(old(data)@, layout));
    if address as u64 + size as u64 == data.len() as u64 {
        data.truncate(address as usize);
    }
    true
}

/// Strips the signature of an executable held as plain bytes. Returns
/// whether a signature was found and removed; a buffer that is no
/// container, or claims no signature, is left exactly as it was.
pub fn strip_pe_signature(data: &mut Vec<u8>) -> (found: bool)
    ensures
        found == has_signature(old(data)@),
        final(data)@ == stripped(old(data)@),
        !found ==> final(data)@ == old(data)@,
{
    match find_layout(data) {
        Ok(layout) => strip_at(data, layout),
        Err(_) => false,
    }
}

} // verus!
