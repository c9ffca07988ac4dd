//! Byte encodings of every box in the container, as spec functions, together
//! with verified builders that produce exactly those bytes.

use vstd::prelude::*;

use crate::bytes::{be16, be32, enc_box, enc_full_box, push4, push_bytes, push_u16, push_u32, push_u8};
use crate::model::{entries_view, entry_wf, Assoc, AssocEntry, AssocEntryS, IlocEntry, Prop, RefEdge, RefType};

verus! {

pub open spec fn tag4(b0: u8, b1: u8, b2: u8, b3: u8) -> Seq<u8> {
    seq![b0, b1, b2, b3]
}

/// "ftyp"
pub open spec fn tag_ftyp() -> Seq<u8> { tag4(0x66, 0x74, 0x79, 0x70) }

/// "avif"
pub open spec fn tag_avif() -> Seq<u8> { tag4(0x61, 0x76, 0x69, 0x66) }

/// "mif1"
pub open spec fn tag_mif1() -> Seq<u8> { tag4(0x6d, 0x69, 0x66, 0x31) }

/// "miaf"
pub open spec fn tag_miaf() -> Seq<u8> { tag4(0x6d, 0x69, 0x61, 0x66) }

/// "meta"
pub open spec fn tag_meta() -> Seq<u8> { tag4(0x6d, 0x65, 0x74, 0x61) }

/// "hdlr"
pub open spec fn tag_hdlr() -> Seq<u8> { tag4(0x68, 0x64, 0x6c, 0x72) }

/// "pict"
pub open spec fn tag_pict() -> Seq<u8> { tag4(0x70, 0x69, 0x63, 0x74) }

/// "iinf"
pub open spec fn tag_iinf() -> Seq<u8> { tag4(0x69, 0x69, 0x6e, 0x66) }

/// "infe"
pub open spec fn tag_infe() -> Seq<u8> { tag4(0x69, 0x6e, 0x66, 0x65) }

/// "av01"
pub open spec fn tag_av01() -> Seq<u8> { tag4(0x61, 0x76, 0x30, 0x31) }

/// "pitm"
pub open spec fn tag_pitm() -> Seq<u8> { tag4(0x70, 0x69, 0x74, 0x6d) }

/// "iloc"
pub open spec fn tag_iloc() -> Seq<u8> { tag4(0x69, 0x6c, 0x6f, 0x63) }

/// "iprp"
pub open spec fn tag_iprp() -> Seq<u8> { tag4(0x69, 0x70, 0x72, 0x70) }

/// "ipco"
pub open spec fn tag_ipco() -> Seq<u8> { tag4(0x69, 0x70, 0x63, 0x6f) }

/// "ispe"
pub open spec fn tag_ispe() -> Seq<u8> { tag4(0x69, 0x73, 0x70, 0x65) }

/// "av1C"
pub open spec fn tag_av1c() -> Seq<u8> { tag4(0x61, 0x76, 0x31, 0x43) }

/// "pixi"
pub open spec fn tag_pixi() -> Seq<u8> { tag4(0x70, 0x69, 0x78, 0x69) }

/// "auxC"
pub open spec fn tag_auxc() -> Seq<u8> { tag4(0x61, 0x75, 0x78, 0x43) }

/// "ipma"
pub open spec fn tag_ipma() -> Seq<u8> { tag4(0x69, 0x70, 0x6d, 0x61) }

/// "iref"
pub open spec fn tag_iref() -> Seq<u8> { tag4(0x69, 0x72, 0x65, 0x66) }

/// "auxl"
pub open spec fn tag_auxl() -> Seq<u8> { tag4(0x61, 0x75, 0x78, 0x6c) }

/// "prem"
pub open spec fn tag_prem() -> Seq<u8> { tag4(0x70, 0x72, 0x65, 0x6d) }

/// "mdat"
pub open spec fn tag_mdat() -> Seq<u8> { tag4(0x6d, 0x64, 0x61, 0x74) }

/// "urn:mpeg:mpegB:cicp:systems:auxiliary:alpha"
pub open spec fn urn_alpha() -> Seq<u8> {
    seq![
        0x75u8, 0x72, 0x6e, 0x3a, 0x6d, 0x70, 0x65, 0x67, 0x3a, 0x6d, 0x70, 0x65,
        0x67, 0x42, 0x3a, 0x63, 0x69, 0x63, 0x70, 0x3a, 0x73, 0x79, 0x73, 0x74,
        0x65, 0x6d, 0x73, 0x3a, 0x61, 0x75, 0x78, 0x69, 0x6c, 0x69, 0x61, 0x72,
        0x79, 0x3a, 0x61, 0x6c, 0x70, 0x68, 0x61,
    ]
}

/// Wraps a finished payload in a box header: size, tag, payload.
pub fn wrap_box(b0: u8, b1: u8, b2: u8, b3: u8, payload: Vec<u8>) -> (out: Vec<u8>)
    requires
        payload@.len() + 8 <= 0xFFFF_FFFF,
    ensures
        out@ == enc_box(tag4(b0, b1, b2, b3), payload@),
{
    let mut out: Vec<u8> = Vec::new();
    push_u32(&mut out, (payload.len() + 8) as u32);
    push4(&mut out, b0, b1, b2, b3);
    push_bytes(&mut out, payload.as_slice());
    proof {
        assert(out@ =~= enc_box(tag4(b0, b1, b2, b3), payload@));
    }
    out
}

/// Wraps a finished payload in a full-box header: size, tag, zero version
/// and flags, payload.
pub fn wrap_full_box(b0: u8, b1: u8, b2: u8, b3: u8, payload: Vec<u8>) -> (out: Vec<u8>)
    requires
        payload@.len() + 12 <= 0xFFFF_FFFF,
    ensures
        out@ == enc_full_box(tag4(b0, b1, b2, b3), payload@),
{
    let mut inner: Vec<u8> = Vec::new();
    push_u32(&mut inner, 0);
    push_bytes(&mut inner, payload.as_slice());
    let out = wrap_box(b0, b1, b2, b3, inner);
    proof {
        assert(out@ =~= enc_full_box(tag4(b0, b1, b2, b3), payload@));
    }
    out
}

/// Appends a finished child box to a growing payload.
pub fn push_vec(out: &mut Vec<u8>, v: &Vec<u8>)
    ensures
        final(out)@ == old(out)@ + v@,
{
    push_bytes(out, v.as_slice());
}

/// The file-type box: major brand, minor version 0, and the two
/// compatibility brands.
pub open spec fn ftyp_bytes() -> Seq<u8> {
    enc_box(tag_ftyp(), tag_avif() + be32(0) + tag_mif1() + tag_miaf())
}

pub fn build_ftyp() -> (out: Vec<u8>)
    ensures
        out@ == ftyp_bytes(),
{
    let mut payload: Vec<u8> = Vec::new();
    push4(&mut payload, 0x61, 0x76, 0x69, 0x66);
    push_u32(&mut payload, 0);
    push4(&mut payload, 0x6d, 0x69, 0x66, 0x31);
    push4(&mut payload, 0x6d, 0x69, 0x61, 0x66);
    proof {
        assert(payload@ =~= tag_avif() + be32(0) + tag_mif1() + tag_miaf());
    }
    wrap_box(0x66, 0x74, 0x79, 0x70, payload)
}

/// The handler box: handler type "pict", zero reserved fields, empty
/// nul-terminated name.
pub open spec fn hdlr_bytes() -> Seq<u8> {
    enc_full_box(tag_hdlr(), be32(0) + tag_pict() + be32(0) + be32(0) + be32(0) + seq![0u8])
}

pub fn build_hdlr() -> (out: Vec<u8>)
    ensures
        out@ == hdlr_bytes(),
{
    let mut payload: Vec<u8> = Vec::new();
    push_u32(&mut payload, 0);
    push4(&mut payload, 0x70, 0x69, 0x63, 0x74);
    push_u32(&mut payload, 0);
    push_u32(&mut payload, 0);
    push_u32(&mut payload, 0);
    push_u8(&mut payload, 0);
    proof {
        assert(payload@ =~= be32(0) + tag_pict() + be32(0) + be32(0) + be32(0) + seq![0u8]);
    }
    wrap_full_box(0x68, 0x64, 0x6c, 0x72, payload)
}

/// One item-information entry: version 2, the item id, protection index 0,
/// item type "av01", empty nul-terminated name.
pub open spec fn infe_bytes(id: u16) -> Seq<u8> {
    enc_box(tag_infe(), seq![2u8, 0, 0, 0] + be16(id) + be16(0) + tag_av01() + seq![0u8])
}

pub open spec fn infe_list_bytes(ids: Seq<u16>) -> Seq<u8>
    decreases ids.len(),
{
    if ids.len() == 0 {
        Seq::empty()
    } else {
        infe_list_bytes(ids.drop_last()) + infe_bytes(ids.last())
    }
}

pub proof fn lemma_infe_list_len(ids: Seq<u16>)
    ensures
        infe_list_bytes(ids).len() == 21 * ids.len(),
    decreases ids.len(),
{
    if ids.len() > 0 {
        lemma_infe_list_len(ids.drop_last());
    }
}

pub fn push_infe(out: &mut Vec<u8>, id: u16)
    ensures
        final(out)@ == old(out)@ + infe_bytes(id),
{
    push_u32(out, 21);
    push4(out, 0x69, 0x6e, 0x66, 0x65);
    push4(out, 2, 0, 0, 0);
    push_u16(out, id);
    push_u16(out, 0);
    push4(out, 0x61, 0x76, 0x30, 0x31);
    push_u8(out, 0);
    proof {
        assert(out@ =~= old(out)@ + infe_bytes(id));
    }
}

/// The item-information box: an entry count and one entry per item.
pub open spec fn iinf_bytes(ids: Seq<u16>) -> Seq<u8> {
    enc_full_box(tag_iinf(), be16(ids.len() as u16) + infe_list_bytes(ids))
}

pub fn build_iinf(ids: &Vec<u16>) -> (out: Vec<u8>)
    requires
        ids@.len() <= 1000,
    ensures
        out@ == iinf_bytes(ids@),
{
    let mut payload: Vec<u8> = Vec::new();
    push_u16(&mut payload, ids.len() as u16);
    let mut i: usize = 0;
    while i < ids.len()
        invariant
            i <= ids@.len(),
            ids@.len() <= 1000,
            payload@ == be16(ids@.len() as u16) + infe_list_bytes(ids@.take(i as int)),
        decreases ids@.len() - i,
    {
        push_infe(&mut payload, ids[i]);
        proof {
            assert(ids@.take(i + 1).drop_last() =~= ids@.take(i as int));
            assert(infe_list_bytes(ids@.take(i + 1)) == infe_list_bytes(ids@.take(i as int)) + infe_bytes(ids@[i as int]));
        }
        i = i + 1;
    }
    proof {
        assert(ids@.take(ids@.len() as int) =~= ids@);
        lemma_infe_list_len(ids@);
    }
    wrap_full_box(0x69, 0x69, 0x6e, 0x66, payload)
}

/// The primary-item box: the primary item's id.
pub open spec fn pitm_bytes(id: u16) -> Seq<u8> {
    enc_full_box(tag_pitm(), be16(id))
}

pub fn build_pitm(id: u16) -> (out: Vec<u8>)
    ensures
        out@ == pitm_bytes(id),
{
    let mut payload: Vec<u8> = Vec::new();
    push_u16(&mut payload, id);
    let out = wrap_full_box(0x70, 0x69, 0x74, 0x6d, payload);
    proof {
        assert(out@ =~= pitm_bytes(id));
    }
    out
}

/// One location item: item id, data-reference index 0, one extent whose
/// offset is the payload-section start plus the extent's relative offset.
pub open spec fn iloc_item_bytes(e: IlocEntry, base: u32) -> Seq<u8> {
    be16(e.item_id) + be16(0) + be16(1) + be32((base + e.rel_offset) as u32) + be32(e.len)
}

pub open spec fn iloc_items_bytes(locs: Seq<IlocEntry>, base: u32) -> Seq<u8>
    decreases locs.len(),
{
    if locs.len() == 0 {
        Seq::empty()
    } else {
        iloc_items_bytes(locs.drop_last(), base) + iloc_item_bytes(locs.last(), base)
    }
}

pub proof fn lemma_iloc_items_len(locs: Seq<IlocEntry>, base: u32)
    ensures
        iloc_items_bytes(locs, base).len() == 14 * locs.len(),
    decreases locs.len(),
{
    if locs.len() > 0 {
        lemma_iloc_items_len(locs.drop_last(), base);
    }
}

/// The item-location box: 4-byte offset and length fields, no base offset,
/// one entry with one extent per item.
pub open spec fn iloc_bytes(locs: Seq<IlocEntry>, base: u32) -> Seq<u8> {
    enc_full_box(tag_iloc(), seq![0x44u8, 0x00] + be16(locs.len() as u16) + iloc_items_bytes(locs, base))
}

pub fn build_iloc(locs: &Vec<IlocEntry>, base: u32) -> (out: Vec<u8>)
    requires
        locs@.len() <= 1000,
        forall|j: int| 0 <= j < locs@.len() ==> base + (#[trigger] locs@[j]).rel_offset <= 0xFFFF_FFFF,
    ensures
        out@ == iloc_bytes(locs@, base),
{
    let mut payload: Vec<u8> = Vec::new();
    push_u8(&mut payload, 0x44);
    push_u8(&mut payload, 0x00);
    push_u16(&mut payload, locs.len() as u16);
    proof {
        assert(payload@ =~= seq![0x44u8, 0x00] + be16(locs@.len() as u16) + iloc_items_bytes(locs@.take(0), base));
    }
    let mut i: usize = 0;
    while i < locs.len()
        invariant
            i <= locs@.len(),
            locs@.len() <= 1000,
            forall|j: int| 0 <= j < locs@.len() ==> base + (#[trigger] locs@[j]).rel_offset <= 0xFFFF_FFFF,
            payload@ == seq![0x44u8, 0x00] + be16(locs@.len() as u16) + iloc_items_bytes(locs@.take(i as int), base),
        decreases locs@.len() - i,
    {
        let e = locs[i];
        push_u16(&mut payload, e.item_id);
        push_u16(&mut payload, 0);
        push_u16(&mut payload, 1);
        push_u32(&mut payload, base + e.rel_offset);
        push_u32(&mut payload, e.len);
        proof {
            assert(locs@.take(i + 1).drop_last() =~= locs@.take(i as int));
            assert(iloc_items_bytes(locs@.take(i + 1), base) == iloc_items_bytes(locs@.take(i as int), base) + iloc_item_bytes(locs@[i as int], base));
            assert(payload@ =~= seq![0x44u8, 0x00] + be16(locs@.len() as u16) + iloc_items_bytes(locs@.take(i + 1), base));
        }
        i = i + 1;
    }
    proof {
        assert(locs@.take(locs@.len() as int) =~= locs@);
        lemma_iloc_items_len(locs@, base);
    }
    wrap_full_box(0x69, 0x6c, 0x6f, 0x63, payload)
}

/// The encoding constraints on a property: the packed codec-configuration
/// fields must fit their bit widths.
pub open spec fn prop_wf(p: Prop) -> bool {
    match p {
        Prop::Av1C { seq_profile, seq_level_idx_0, chroma_sample_position, .. } =>
            seq_profile < 8 && seq_level_idx_0 < 32 && chroma_sample_position < 4,
        _ => true,
    }
}

/// One property box: spatial extents, codec configuration, pixel
/// information, or the auxiliary-type declaration.
pub open spec fn prop_bytes(p: Prop) -> Seq<u8> {
    match p {
        Prop::Ispe { width, height } => enc_full_box(tag_ispe(), be32(width) + be32(height)),
        Prop::Av1C {
            seq_profile,
            seq_level_idx_0,
            seq_tier_0,
            high_bitdepth,
            twelve_bit,
            monochrome,
            chroma_subsampling_x,
            chroma_subsampling_y,
            chroma_sample_position,
        } => enc_box(tag_av1c(), seq![
            0x81u8,
            (seq_profile * 32 + seq_level_idx_0) as u8,
            ((if seq_tier_0 { 0x80int } else { 0int })
                + (if high_bitdepth { 0x40int } else { 0int })
                + (if twelve_bit { 0x20int } else { 0int })
                + (if monochrome { 0x10int } else { 0int })
                + (if chroma_subsampling_x { 0x08int } else { 0int })
                + (if chroma_subsampling_y { 0x04int } else { 0int })
                + chroma_sample_position) as u8,
            0x00u8,
        ]),
        Prop::Pixi { channels, depth } => enc_full_box(
            tag_pixi(),
            seq![channels] + Seq::new(channels as nat, |i: int| depth),
        ),
        Prop::AuxC => enc_full_box(tag_auxc(), urn_alpha() + seq![0u8]),
    }
}

pub proof fn lemma_prop_len(p: Prop)
    ensures
        prop_bytes(p).len() <= 268,
{
}

pub fn build_prop(p: &Prop) -> (out: Vec<u8>)
    requires
        prop_wf(*p),
    ensures
        out@ == prop_bytes(*p),
{
    match *p {
        Prop::Ispe { width, height } => {
            let mut payload: Vec<u8> = Vec::new();
            push_u32(&mut payload, width);
            push_u32(&mut payload, height);
            wrap_full_box(0x69, 0x73, 0x70, 0x65, payload)
        },
        Prop::Av1C {
            seq_profile,
            seq_level_idx_0,
            seq_tier_0,
            high_bitdepth,
            twelve_bit,
            monochrome,
            chroma_subsampling_x,
            chroma_subsampling_y,
            chroma_sample_position,
        } => {
            let mut payload: Vec<u8> = Vec::new();
            push_u8(&mut payload, 0x81);
            push_u8(&mut payload, seq_profile * 32 + seq_level_idx_0);
            let mut flags: u8 = chroma_sample_position;
            if chroma_subsampling_y {
                flags = flags + 0x04;
            }
            if chroma_subsampling_x {
                flags = flags + 0x08;
            }
            if monochrome {
                flags = flags + 0x10;
            }
            if twelve_bit {
                flags = flags + 0x20;
            }
            if high_bitdepth {
                flags = flags + 0x40;
            }
            if seq_tier_0 {
                flags = flags + 0x80;
            }
            push_u8(&mut payload, flags);
            push_u8(&mut payload, 0x00);
            let out = wrap_box(0x61, 0x76, 0x31, 0x43, payload);
            proof {
                assert(out@ =~= prop_bytes(*p));
            }
            out
        },
        Prop::Pixi { channels, depth } => {
            let mut payload: Vec<u8> = Vec::new();
            push_u8(&mut payload, channels);
            let mut j: u8 = 0;
            while j < channels
                invariant
                    j <= channels,
                    payload@ == seq![channels] + Seq::new(j as nat, |i: int| depth),
                decreases channels - j,
            {
                push_u8(&mut payload, depth);
                proof {
                    assert(payload@ =~= seq![channels] + Seq::new((j + 1) as nat, |i: int| depth));
                }
                j = j + 1;
            }
            wrap_full_box(0x70, 0x69, 0x78, 0x69, payload)
        },
        Prop::AuxC => {
            let mut payload: Vec<u8> = Vec::new();
            push4(&mut payload, 0x75, 0x72, 0x6e, 0x3a);
            push4(&mut payload, 0x6d, 0x70, 0x65, 0x67);
            push4(&mut payload, 0x3a, 0x6d, 0x70, 0x65);
            push4(&mut payload, 0x67, 0x42, 0x3a, 0x63);
            push4(&mut payload, 0x69, 0x63, 0x70, 0x3a);
            push4(&mut payload, 0x73, 0x79, 0x73, 0x74);
            push4(&mut payload, 0x65, 0x6d, 0x73, 0x3a);
            push4(&mut payload, 0x61, 0x75, 0x78, 0x69);
            push4(&mut payload, 0x6c, 0x69, 0x61, 0x72);
            push4(&mut payload, 0x79, 0x3a, 0x61, 0x6c);
            push_u8(&mut payload, 0x70);
            push_u8(&mut payload, 0x68);
            push_u8(&mut payload, 0x61);
            push_u8(&mut payload, 0x00);
            proof {
                assert(payload@ =~= urn_alpha() + seq![0u8]);
            }
            wrap_full_box(0x61, 0x75, 0x78, 0x43, payload)
        },
    }
}

pub open spec fn prop_list_bytes(ps: Seq<Prop>) -> Seq<u8>
    decreases ps.len(),
{
    if ps.len() == 0 {
        Seq::empty()
    } else {
        prop_list_bytes(ps.drop_last()) + prop_bytes(ps.last())
    }
}

pub proof fn lemma_prop_list_len(ps: Seq<Prop>)
    ensures
        prop_list_bytes(ps).len() <= 268 * ps.len(),
    decreases ps.len(),
{
    if ps.len() > 0 {
        lemma_prop_list_len(ps.drop_last());
        lemma_prop_len(ps.last());
    }
}

/// The item-property container box: the property boxes in table order.
pub open spec fn ipco_bytes(ps: Seq<Prop>) -> Seq<u8> {
    enc_box(tag_ipco(), prop_list_bytes(ps))
}

pub fn build_ipco(props: &Vec<Prop>) -> (out: Vec<u8>)
    requires
        props@.len() <= 100,
        forall|j: int| 0 <= j < props@.len() ==> prop_wf(#[trigger] props@[j]),
    ensures
        out@ == ipco_bytes(props@),
{
    let mut payload: Vec<u8> = Vec::new();
    let mut i: usize = 0;
    while i < props.len()
        invariant
            i <= props@.len(),
            props@.len() <= 100,
            forall|j: int| 0 <= j < props@.len() ==> prop_wf(#[trigger] props@[j]),
            payload@ == prop_list_bytes(props@.take(i as int)),
        decreases props@.len() - i,
    {
        let p = props[i];
        let b = build_prop(&p);
        push_vec(&mut payload, &b);
        proof {
            assert(props@.take(i + 1).drop_last() =~= props@.take(i as int));
            assert(payload@ == prop_list_bytes(props@.take(i + 1)));
        }
        i = i + 1;
    }
    proof {
        assert(props@.take(props@.len() as int) =~= props@);
        lemma_prop_list_len(props@);
    }
    wrap_box(0x69, 0x70, 0x63, 0x6f, payload)
}

/// A serialized association: the essential flag in the high bit, the 1-based
/// property index in the low seven bits.
pub open spec fn assoc_byte(a: Assoc) -> u8 {
    if a.essential {
        (a.prop_index + 0x80) as u8
    } else {
        a.prop_index
    }
}

pub open spec fn assoc_list_bytes(assocs: Seq<Assoc>) -> Seq<u8>
    decreases assocs.len(),
{
    if assocs.len() == 0 {
        Seq::empty()
    } else {
        assoc_list_bytes(assocs.drop_last()) + seq![assoc_byte(assocs.last())]
    }
}

pub proof fn lemma_assoc_list_len(assocs: Seq<Assoc>)
    ensures
        assoc_list_bytes(assocs).len() == assocs.len(),
    decreases assocs.len(),
{
    if assocs.len() > 0 {
        lemma_assoc_list_len(assocs.drop_last());
    }
}

/// One association-table entry: the item id, the association count, then one
/// packed byte per association.
pub open spec fn ipma_entry_bytes(e: AssocEntryS) -> Seq<u8> {
    be16(e.item_id) + seq![e.assocs.len() as u8] + assoc_list_bytes(e.assocs)
}

pub fn push_ipma_entry(out: &mut Vec<u8>, e: &AssocEntry)
    requires
        entry_wf(e@),
    ensures
        final(out)@ == old(out)@ + ipma_entry_bytes(e@),
{
    let ghost start = out@;
    push_u16(out, e.item_id);
    push_u8(out, e.assocs.len() as u8);
    let mut j: usize = 0;
    while j < e.assocs.len()
        invariant
            j <= e.assocs@.len(),
            entry_wf(e@),
            out@ == start + be16(e.item_id) + seq![e.assocs@.len() as u8] + assoc_list_bytes(e.assocs@.take(j as int)),
        decreases e.assocs@.len() - j,
    {
        let a = e.assocs[j];
        let packed: u8 = if a.essential {
            a.prop_index + 0x80
        } else {
            a.prop_index
        };
        push_u8(out, packed);
        proof {
            assert(e.assocs@.take(j + 1).drop_last() =~= e.assocs@.take(j as int));
            assert(out@ =~= start + be16(e.item_id) + seq![e.assocs@.len() as u8] + assoc_list_bytes(e.assocs@.take(j + 1)));
        }
        j = j + 1;
    }
    proof {
        assert(e.assocs@.take(e.assocs@.len() as int) =~= e.assocs@);
        assert(out@ =~= start + ipma_entry_bytes(e@));
    }
}

pub open spec fn ipma_entries_bytes(es: Seq<AssocEntryS>) -> Seq<u8>
    decreases es.len(),
{
    if es.len() == 0 {
        Seq::empty()
    } else {
        ipma_entries_bytes(es.drop_last()) + ipma_entry_bytes(es.last())
    }
}

pub proof fn lemma_ipma_entries_len(es: Seq<AssocEntryS>)
    requires
        forall|j: int| 0 <= j < es.len() ==> entry_wf(#[trigger] es[j]),
    ensures
        ipma_entries_bytes(es).len() <= 258 * es.len(),
    decreases es.len(),
{
    if es.len() > 0 {
        lemma_ipma_entries_len(es.drop_last());
        lemma_assoc_list_len(es.last().assocs);
    }
}

/// The item-property association box: an entry count, then one entry per
/// item in item order.
pub open spec fn ipma_bytes(es: Seq<AssocEntryS>) -> Seq<u8> {
    enc_full_box(tag_ipma(), be32(es.len() as u32) + ipma_entries_bytes(es))
}

pub fn build_ipma(entries: &Vec<AssocEntry>) -> (out: Vec<u8>)
    requires
        entries@.len() <= 100,
        forall|j: int| 0 <= j < entries@.len() ==> entry_wf((#[trigger] entries@[j])@),
    ensures
        out@ == ipma_bytes(entries_view(entries@)),
{
    let ghost vs = entries_view(entries@);
    let mut payload: Vec<u8> = Vec::new();
    push_u32(&mut payload, entries.len() as u32);
    let mut i: usize = 0;
    while i < entries.len()
        invariant
            i <= entries@.len(),
            entries@.len() <= 100,
            forall|j: int| 0 <= j < entries@.len() ==> entry_wf((#[trigger] entries@[j])@),
            vs == entries_view(entries@),
            payload@ == be32(entries@.len() as u32) + ipma_entries_bytes(vs.take(i as int)),
        decreases entries@.len() - i,
    {
        push_ipma_entry(&mut payload, &entries[i]);
        proof {
            assert(vs.take(i + 1).drop_last() =~= vs.take(i as int));
            assert(vs[i as int] == entries@[i as int]@);
            assert(payload@ == be32(entries@.len() as u32) + ipma_entries_bytes(vs.take(i + 1)));
        }
        i = i + 1;
    }
    proof {
        assert(vs.take(vs.len() as int) =~= vs);
        lemma_ipma_entries_len(vs);
    }
    wrap_full_box(0x69, 0x70, 0x6d, 0x61, payload)
}

/// The item-properties box: the property container, then the association
/// table.
pub open spec fn iprp_bytes(ps: Seq<Prop>, es: Seq<AssocEntryS>) -> Seq<u8> {
    enc_box(tag_iprp(), ipco_bytes(ps) + ipma_bytes(es))
}

pub fn build_iprp(props: &Vec<Prop>, entries: &Vec<AssocEntry>) -> (out: Vec<u8>)
    requires
        props@.len() <= 100,
        forall|j: int| 0 <= j < props@.len() ==> prop_wf(#[trigger] props@[j]),
        entries@.len() <= 100,
        forall|j: int| 0 <= j < entries@.len() ==> entry_wf((#[trigger] entries@[j])@),
    ensures
        out@ == iprp_bytes(props@, entries_view(entries@)),
{
    let ipco = build_ipco(props);
    let ipma = build_ipma(entries);
    let mut payload: Vec<u8> = Vec::new();
    push_vec(&mut payload, &ipco);
    push_vec(&mut payload, &ipma);
    proof {
        lemma_prop_list_len(props@);
        let vs = entries_view(entries@);
        assert forall|j: int| 0 <= j < vs.len() implies entry_wf(#[trigger] vs[j]) by {
            assert(vs[j] == entries@[j]@);
        }
        lemma_ipma_entries_len(vs);
    }
    let out = wrap_box(0x69, 0x70, 0x72, 0x70, payload);
    proof {
        assert(out@ =~= iprp_bytes(props@, entries_view(entries@)));
    }
    out
}

pub open spec fn ref_tag(t: RefType) -> Seq<u8> {
    match t {
        RefType::Auxl => tag_auxl(),
        RefType::Prem => tag_prem(),
    }
}

/// One item-reference box holding a single typed edge: the source item id, a
/// reference count of one, and the target item id.
pub open spec fn iref_bytes(r: RefEdge) -> Seq<u8> {
    enc_full_box(tag_iref(), enc_box(ref_tag(r.typ), be16(r.from_id) + be16(1) + be16(r.to_id)))
}

pub fn build_iref(r: &RefEdge) -> (out: Vec<u8>)
    ensures
        out@ == iref_bytes(*r),
{
    let mut edge: Vec<u8> = Vec::new();
    push_u16(&mut edge, r.from_id);
    push_u16(&mut edge, 1);
    push_u16(&mut edge, r.to_id);
    let inner = match r.typ {
        RefType::Auxl => wrap_box(0x61, 0x75, 0x78, 0x6c, edge),
        RefType::Prem => wrap_box(0x70, 0x72, 0x65, 0x6d, edge),
    };
    let out = wrap_full_box(0x69, 0x72, 0x65, 0x66, inner);
    proof {
        assert(out@ =~= iref_bytes(*r));
    }
    out
}

pub open spec fn irefs_bytes(rs: Seq<RefEdge>) -> Seq<u8>
    decreases rs.len(),
{
    if rs.len() == 0 {
        Seq::empty()
    } else {
        irefs_bytes(rs.drop_last()) + iref_bytes(rs.last())
    }
}

pub proof fn lemma_irefs_len(rs: Seq<RefEdge>)
    ensures
        irefs_bytes(rs).len() == 26 * rs.len(),
    decreases rs.len(),
{
    if rs.len() > 0 {
        lemma_irefs_len(rs.drop_last());
    }
}

/// The children of the metadata box, in order: handler, item information,
/// primary item, item locations (offsets resolved against `base`), item
/// properties, and the reference boxes.
pub open spec fn meta_children_bytes(
    ids: Seq<u16>,
    primary: u16,
    ps: Seq<Prop>,
    es: Seq<AssocEntryS>,
    locs: Seq<IlocEntry>,
    base: u32,
    refs: Seq<RefEdge>,
) -> Seq<u8> {
    hdlr_bytes() + iinf_bytes(ids) + pitm_bytes(primary) + iloc_bytes(locs, base) + iprp_bytes(
        ps,
        es,
    ) + irefs_bytes(refs)
}

pub fn build_irefs(refs: &Vec<RefEdge>) -> (out: Vec<u8>)
    ensures
        out@ == irefs_bytes(refs@),
{
    let mut out: Vec<u8> = Vec::new();
    let mut i: usize = 0;
    while i < refs.len()
        invariant
            i <= refs@.len(),
            out@ == irefs_bytes(refs@.take(i as int)),
        decreases refs@.len() - i,
    {
        let b = build_iref(&refs[i]);
        push_vec(&mut out, &b);
        proof {
            assert(refs@.take(i + 1).drop_last() =~= refs@.take(i as int));
            assert(out@ == irefs_bytes(refs@.take(i + 1)));
        }
        i = i + 1;
    }
    proof {
        assert(refs@.take(refs@.len() as int) =~= refs@);
    }
    out
}

} // verus!
