//! Proved laws about the assembled container: which reference edges exist,
//! which associations carry the essential flag, where the extents point, and
//! that the serialized payload section stores each bitstream exactly at the
//! offset the location table records for it.

use vstd::prelude::*;

use crate::model::{
    spec_alpha_assocs, spec_assoc_entries, spec_color_assocs, spec_extents, spec_items,
    spec_payload, spec_props, spec_refs, RefEdge, RefType, ALPHA_ITEM_ID, COLOR_ITEM_ID,
};
use crate::{
    spec_mdat_base, spec_meta_children, spec_opt_len, spec_serialize, MAX_PAYLOAD,
};

verus! {

/// The "premultiplied by" edge from the color item to the alpha item.
pub open spec fn prem_edge() -> RefEdge {
    RefEdge { from_id: COLOR_ITEM_ID, to_id: ALPHA_ITEM_ID, typ: RefType::Prem }
}

/// Premultiplied flag round-trip: the premultiplied reference edge is
/// emitted exactly when an alpha plane is present and the option is enabled.
pub proof fn lemma_premultiplied_edge(alpha: bool, premultiplied: bool)
    ensures
        spec_refs(alpha, premultiplied).contains(prem_edge()) <==> (alpha && premultiplied),
{
    if alpha && premultiplied {
        assert(spec_refs(alpha, premultiplied)[1] == prem_edge());
    }
}

/// Essential-bit invariant: in every association entry, an association is
/// flagged essential exactly when it points at that item's
/// codec-configuration property; and every association's 1-based index lies
/// within the property table.
pub proof fn lemma_essential_bit(alpha: bool, width: u32, height: u32, depth_bits: u8)
    ensures
        forall|i: int, j: int|
            0 <= i < spec_assoc_entries(alpha).len() && 0 <= j < spec_assoc_entries(
                alpha,
            )[i].assocs.len() ==> {
                let a = (#[trigger] spec_assoc_entries(alpha)[i].assocs[j]);
                &&& 1 <= a.prop_index <= spec_props(alpha, width, height, depth_bits).len()
                &&& (a.essential <==> spec_props(alpha, width, height, depth_bits)[a.prop_index
                    - 1] is Av1C)
            },
{
    assert(spec_color_assocs().len() == 3);
    assert(spec_alpha_assocs().len() == 4);
}

/// Offset correctness for the two-item case: the alpha extent starts at
/// relative offset 0 and covers the alpha buffer; the color extent starts at
/// the alpha buffer's length and covers the color buffer.
pub proof fn lemma_extent_offsets(color_len: int, alpha_len: int)
    requires
        0 <= color_len,
        0 <= alpha_len,
        color_len + alpha_len <= MAX_PAYLOAD,
    ensures
        ({
            let es = spec_extents(color_len, Some(alpha_len));
            &&& es.len() == 2
            &&& es[0].item_id == COLOR_ITEM_ID
            &&& es[0].rel_offset == alpha_len
            &&& es[0].len == color_len
            &&& es[1].item_id == ALPHA_ITEM_ID
            &&& es[1].rel_offset == 0
            &&& es[1].len == alpha_len
        }),
{
}

/// Single-item case: with no alpha buffer there is exactly one item, one
/// association entry, one extent at offset 0 covering the color buffer, and
/// no reference edges.
pub proof fn lemma_single_item(color_len: int, premultiplied: bool)
    requires
        0 <= color_len <= MAX_PAYLOAD,
    ensures
        spec_items(false).len() == 1,
        spec_items(false)[0] == COLOR_ITEM_ID,
        spec_assoc_entries(false).len() == 1,
        spec_refs(false, premultiplied).len() == 0,
        ({
            let es = spec_extents(color_len, None);
            &&& es.len() == 1
            &&& es[0].item_id == COLOR_ITEM_ID
            &&& es[0].rel_offset == 0
            &&& es[0].len == color_len
        }),
{
}

/// The buffer an extent of the given item should yield.
pub open spec fn item_data(c: Seq<u8>, a: Option<Seq<u8>>, id: u16) -> Seq<u8> {
    if id == ALPHA_ITEM_ID && a is Some {
        a.unwrap()
    } else {
        c
    }
}

/// Round-trip: in the serialized container each buffer sits exactly at the
/// file offset the location table records for its item (the payload-section
/// start plus the extent's relative offset), with exactly the recorded
/// length, so a reader that follows the recorded extents recovers the color
/// and alpha bitstreams byte for byte.
#[verifier::rlimit(100)]
pub proof fn lemma_payload_recovered(
    c: Seq<u8>,
    a: Option<Seq<u8>>,
    width: u32,
    height: u32,
    depth_bits: u8,
    premultiplied: bool,
)
    requires
        c.len() + spec_opt_len(a) <= MAX_PAYLOAD,
    ensures
        ({
            let f = spec_serialize(c, a, width, height, depth_bits, premultiplied);
            let base = spec_mdat_base(c, a, width, height, depth_bits, premultiplied) as int;
            let es = spec_extents(c.len() as int, match a {
                Some(s) => Some(s.len() as int),
                None => None,
            });
            &&& f.len() == base + spec_payload(c, a).len()
            &&& forall|i: int|
                0 <= i < es.len() ==> f.subrange(
                    base + (#[trigger] es[i]).rel_offset,
                    base + es[i].rel_offset + es[i].len,
                ) == item_data(c, a, es[i].item_id)
        }),
{
    let alpha = a is Some;
    let children0 = spec_meta_children(c, a, width, height, depth_bits, premultiplied, 0);
    lemma_children_len_small(c, a, width, height, depth_bits, premultiplied, 0);
    let base_u = spec_mdat_base(c, a, width, height, depth_bits, premultiplied);
    let base = base_u as int;
    let children = spec_meta_children(c, a, width, height, depth_bits, premultiplied, base_u);
    lemma_children_len_small(c, a, width, height, depth_bits, premultiplied, base_u);
    let f = spec_serialize(c, a, width, height, depth_bits, premultiplied);
    let payload = spec_payload(c, a);
    assert(crate::boxes::ftyp_bytes().len() == 24);
    assert(children.len() == children0.len());
    assert(f.len() == base + payload.len());
    let es = spec_extents(c.len() as int, match a {
        Some(s) => Some(s.len() as int),
        None => None,
    });
    assert forall|i: int| 0 <= i < es.len() implies f.subrange(
        base + (#[trigger] es[i]).rel_offset,
        base + es[i].rel_offset + es[i].len,
    ) == item_data(c, a, es[i].item_id) by {
        let e = es[i];
        assert(forall|k: int| 0 <= k < payload.len() ==> f[base + k] == payload[k]);
        match a {
            Some(s) => {
                if i == 0 {
                    assert(f.subrange(base + e.rel_offset, base + e.rel_offset + e.len) =~= c);
                } else {
                    assert(f.subrange(base + e.rel_offset, base + e.rel_offset + e.len) =~= s);
                }
            },
            None => {
                assert(f.subrange(base + e.rel_offset, base + e.rel_offset + e.len) =~= c);
            },
        }
    }
}

/// The metadata children always fit in a few thousand bytes, whatever the
/// offset base, so the payload-section offset fits its 32-bit field.
pub proof fn lemma_children_len_small(
    c: Seq<u8>,
    a: Option<Seq<u8>>,
    width: u32,
    height: u32,
    depth_bits: u8,
    premultiplied: bool,
    base: u32,
)
    ensures
        spec_meta_children(c, a, width, height, depth_bits, premultiplied, base).len() <= 4000,
        spec_meta_children(c, a, width, height, depth_bits, premultiplied, base).len()
            == spec_meta_children(c, a, width, height, depth_bits, premultiplied, 0).len(),
{
    let alpha = a is Some;
    let alpha_len = match a {
        Some(s) => Some(s.len() as int),
        None => None,
    };
    crate::boxes::lemma_infe_list_len(spec_items(alpha));
    crate::boxes::lemma_iloc_items_len(spec_extents(c.len() as int, alpha_len), base);
    crate::boxes::lemma_iloc_items_len(spec_extents(c.len() as int, alpha_len), 0);
    crate::boxes::lemma_prop_list_len(spec_props(alpha, width, height, depth_bits));
    assert(spec_props(alpha, width, height, depth_bits).len() <= 6);
    let es = spec_assoc_entries(alpha);
    assert(forall|j: int| 0 <= j < es.len() ==> crate::model::entry_wf(#[trigger] es[j]));
    crate::boxes::lemma_ipma_entries_len(es);
    crate::boxes::lemma_irefs_len(spec_refs(alpha, premultiplied));
    assert(spec_refs(alpha, premultiplied).len() <= 2);
}

/// Byte-level corollary of the premultiplied flag: with an alpha plane,
/// enabling the option grows the serialized container by exactly one
/// reference box (26 bytes); everything else about the inputs is unchanged.
#[verifier::rlimit(100)]
pub proof fn lemma_premultiplied_adds_one_reference_box(
    c: Seq<u8>,
    a: Option<Seq<u8>>,
    width: u32,
    height: u32,
    depth_bits: u8,
)
    requires
        a is Some,
        c.len() + spec_opt_len(a) <= MAX_PAYLOAD,
    ensures
        spec_serialize(c, a, width, height, depth_bits, true).len() == spec_serialize(
            c,
            a,
            width,
            height,
            depth_bits,
            false,
        ).len() + 26,
{
    lemma_payload_recovered(c, a, width, height, depth_bits, true);
    lemma_payload_recovered(c, a, width, height, depth_bits, false);
    lemma_children_len_small(c, a, width, height, depth_bits, true, 0);
    lemma_children_len_small(c, a, width, height, depth_bits, false, 0);
    lemma_children_pm_diff(c, a, width, height, depth_bits, 0);
}

/// At one offset base, the premultiplied children are 26 bytes longer.
proof fn lemma_children_pm_diff(
    c: Seq<u8>,
    a: Option<Seq<u8>>,
    width: u32,
    height: u32,
    depth_bits: u8,
    base: u32,
)
    requires
        a is Some,
    ensures
        spec_meta_children(c, a, width, height, depth_bits, true, base).len()
            == spec_meta_children(c, a, width, height, depth_bits, false, base).len() + 26,
{
    crate::boxes::lemma_irefs_len(spec_refs(true, true));
    crate::boxes::lemma_irefs_len(spec_refs(true, false));
    assert(spec_refs(true, true).len() == 2);
    assert(spec_refs(true, false).len() == 1);
}

} // verus!
