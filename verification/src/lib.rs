//! AVIF container serializer: assembles already-encoded AV1 bitstreams into
//! a byte-exact ISOBMFF (`.avif`) file.
//!
//! The caller supplies the compressed color bitstream, an optional compressed
//! alpha bitstream, the image geometry and the bit depth; the serializer
//! returns (or streams) the complete container. Every public operation's
//! output is pinned byte for byte by [`spec_serialize`].

pub mod bytes;
pub mod boxes;
pub mod model;
pub mod laws;

use vstd::prelude::*;

use crate::boxes::{
    build_ftyp, build_hdlr, build_iinf, build_iloc, build_iprp, build_irefs, build_pitm,
    ftyp_bytes, lemma_iloc_items_len, lemma_ipma_entries_len, lemma_prop_list_len,
    meta_children_bytes, prop_wf, push_vec, tag_mdat, tag_meta,
};
use crate::bytes::{enc_box, enc_full_box, push4, push_bytes, push_u32};
use crate::model::{
    entries_view, entry_wf, spec_assoc_entries, spec_extents, spec_items, spec_payload,
    spec_props, spec_refs, Assoc, AssocEntry, IlocEntry, Prop, RefEdge, RefType,
    ALPHA_ITEM_ID, COLOR_ITEM_ID,
};

verus! {

/// Upper bound on the combined length of the color and alpha buffers, chosen
/// so that every 32-bit size and offset field of the container fits.
pub const MAX_PAYLOAD: usize = 0xFFFF_0000;

/// The mathematical view of an optional byte buffer.
pub open spec fn opt_data(a: Option<&[u8]>) -> Option<Seq<u8>> {
    match a {
        Some(s) => Some(s@),
        None => None,
    }
}

/// Length of an optional buffer; zero when absent.
pub open spec fn spec_opt_len(a: Option<Seq<u8>>) -> int {
    match a {
        Some(s) => s.len() as int,
        None => 0,
    }
}

/// The children of the metadata box, in order: handler, item information,
/// primary item, item locations (offsets resolved against `base`), item
/// properties, and the reference boxes.
pub open spec fn spec_meta_children(
    c: Seq<u8>,
    a: Option<Seq<u8>>,
    width: u32,
    height: u32,
    depth_bits: u8,
    premultiplied: bool,
    base: u32,
) -> Seq<u8> {
    let alpha = a is Some;
    let alpha_len = match a {
        Some(s) => Some(s.len() as int),
        None => None,
    };
    meta_children_bytes(
        spec_items(alpha),
        COLOR_ITEM_ID,
        spec_props(alpha, width, height, depth_bits),
        spec_assoc_entries(alpha),
        spec_extents(c.len() as int, alpha_len),
        base,
        spec_refs(alpha, premultiplied),
    )
}

/// File offset of the first payload byte: the file-type box (24 bytes), the
/// metadata box (12-byte full-box header plus its children), and the payload
/// box's own 8-byte header. The children's length does not depend on the
/// offsets written inside them, so resolving it with offset base 0 is sound.
pub open spec fn spec_mdat_base(
    c: Seq<u8>,
    a: Option<Seq<u8>>,
    width: u32,
    height: u32,
    depth_bits: u8,
    premultiplied: bool,
) -> u32 {
    (44 + spec_meta_children(c, a, width, height, depth_bits, premultiplied, 0).len()) as u32
}

/// The complete container: file-type box, metadata box, payload box.
pub open spec fn spec_serialize(
    c: Seq<u8>,
    a: Option<Seq<u8>>,
    width: u32,
    height: u32,
    depth_bits: u8,
    premultiplied: bool,
) -> Seq<u8> {
    let base = spec_mdat_base(c, a, width, height, depth_bits, premultiplied);
    ftyp_bytes() + enc_full_box(
        tag_meta(),
        spec_meta_children(c, a, width, height, depth_bits, premultiplied, base),
    ) + enc_box(tag_mdat(), spec_payload(c, a))
}

/// Config for the serialization: the premultiplied-alpha toggle, off by
/// default.
pub struct Aviffy {
    premultiplied_alpha: bool,
}

impl Aviffy {
    /// Whether the premultiplied-alpha reference edge will be emitted.
    pub closed spec fn premul(&self) -> bool {
        self.premultiplied_alpha
    }

    pub fn new() -> (out: Self)
        ensures
            !out.premul(),
    {
        Aviffy { premultiplied_alpha: false }
    }

    /// Sets whether the image's color channels were premultiplied by alpha.
    /// This only selects which reference edges are emitted; pixel data is
    /// never touched.
    pub fn premultiplied_alpha(&mut self, is_premultiplied: bool) -> (ret: &mut Self)
        ensures
            ret.premul() == is_premultiplied,
            *final(self) == *final(ret),
    {
        self.premultiplied_alpha = is_premultiplied;
        self
    }

    /// Builds the complete container in memory.
    ///
    /// The combined length of the two buffers must stay under
    /// [`MAX_PAYLOAD`], so that every 32-bit size and offset field of the
    /// container can hold its value.
    pub fn to_vec(
        &self,
        color_av1_data: &[u8],
        alpha_av1_data: Option<&[u8]>,
        width: u32,
        height: u32,
        depth_bits: u8,
    ) -> (out: Vec<u8>)
        requires
            color_av1_data@.len() + spec_opt_len(opt_data(alpha_av1_data)) <= MAX_PAYLOAD,
        ensures
            out@ == spec_serialize(
                color_av1_data@,
                opt_data(alpha_av1_data),
                width,
                height,
                depth_bits,
                self.premul(),
            ),
    {
        build(self.premultiplied_alpha, color_av1_data, alpha_av1_data, width, height, depth_bits)
    }

    /// Builds the container and streams it to the sink, propagating the
    /// sink's first error.
    pub fn write<W: std::io::Write>(
        &self,
        into_output: W,
        color_av1_data: &[u8],
        alpha_av1_data: Option<&[u8]>,
        width: u32,
        height: u32,
        depth_bits: u8,
    ) -> Result<(), std::io::Error>
        requires
            color_av1_data@.len() + spec_opt_len(opt_data(alpha_av1_data)) <= MAX_PAYLOAD,
    {
        let out = self.to_vec(color_av1_data, alpha_av1_data, width, height, depth_bits);
        write_all_to(into_output, &out)
    }
}

/// Serializes the container directly to a sink. See [`Aviffy::write`].
pub fn serialize<W: std::io::Write>(
    into_output: W,
    color_av1_data: &[u8],
    alpha_av1_data: Option<&[u8]>,
    width: u32,
    height: u32,
    depth_bits: u8,
) -> Result<(), std::io::Error>
    requires
        color_av1_data@.len() + spec_opt_len(opt_data(alpha_av1_data)) <= MAX_PAYLOAD,
{
    Aviffy::new().write(into_output, color_av1_data, alpha_av1_data, width, height, depth_bits)
}

/// Serializes the container into an owned buffer. See [`Aviffy::to_vec`].
pub fn serialize_to_vec(
    color_av1_data: &[u8],
    alpha_av1_data: Option<&[u8]>,
    width: u32,
    height: u32,
    depth_bits: u8,
) -> (out: Vec<u8>)
    requires
        color_av1_data@.len() + spec_opt_len(opt_data(alpha_av1_data)) <= MAX_PAYLOAD,
    ensures
        out@ == spec_serialize(
            color_av1_data@,
            opt_data(alpha_av1_data),
            width,
            height,
            depth_bits,
            false,
        ),
{
    Aviffy::new().to_vec(color_av1_data, alpha_av1_data, width, height, depth_bits)
}

#[verifier::external_type_specification]
#[verifier::external_body]
pub struct ExIoError(std::io::Error);

/// Relies on `std::io::Write::write_all`: writes the whole buffer to the sink,
/// or reports the sink's first error.
#[verifier::external_body]
fn write_all_to<W: std::io::Write>(mut out: W, bytes: &Vec<u8>) -> Result<(), std::io::Error> {
    out.write_all(bytes)
}

/// Assembles the whole file: allocates item ids, builds the property table,
/// associations, location extents and reference edges, computes every box
/// size bottom-up, and emits the tree top-down followed by the payload.
#[verifier::rlimit(100)]
fn build(
    premultiplied: bool,
    color_av1_data: &[u8],
    alpha_av1_data: Option<&[u8]>,
    width: u32,
    height: u32,
    depth_bits: u8,
) -> (out: Vec<u8>)
    requires
        color_av1_data@.len() + spec_opt_len(opt_data(alpha_av1_data)) <= MAX_PAYLOAD,
    ensures
        out@ == spec_serialize(
            color_av1_data@,
            opt_data(alpha_av1_data),
            width,
            height,
            depth_bits,
            premultiplied,
        ),
{
    let ghost c = color_av1_data@;
    let ghost av = opt_data(alpha_av1_data);
    let alpha_present = alpha_av1_data.is_some();
    let high_bitdepth = depth_bits >= 10;
    let twelve_bit = depth_bits >= 12;

    let mut image_ids: Vec<u16> = Vec::new();
    image_ids.push(COLOR_ITEM_ID);

    let mut props: Vec<Prop> = Vec::new();
    props.push(Prop::Ispe { width, height });
    props.push(Prop::Av1C {
        seq_profile: if twelve_bit { 2 } else { 1 },
        seq_level_idx_0: 31,
        seq_tier_0: false,
        high_bitdepth,
        twelve_bit,
        monochrome: false,
        chroma_subsampling_x: false,
        chroma_subsampling_y: false,
        chroma_sample_position: 0,
    });
    props.push(Prop::Pixi { channels: 3, depth: 8 });

    let mut color_assocs: Vec<Assoc> = Vec::new();
    color_assocs.push(Assoc { prop_index: 1, essential: false });
    color_assocs.push(Assoc { prop_index: 2, essential: true });
    color_assocs.push(Assoc { prop_index: 3, essential: false });
    proof {
        assert(color_assocs@ =~= crate::model::spec_color_assocs());
    }
    let mut entries: Vec<AssocEntry> = Vec::new();
    entries.push(AssocEntry { item_id: COLOR_ITEM_ID, assocs: color_assocs });

    let mut locs: Vec<IlocEntry> = Vec::new();
    let mut refs: Vec<RefEdge> = Vec::new();
    let mut payload_len: usize = color_av1_data.len();

    if let Some(alpha_data) = alpha_av1_data {
        image_ids.push(ALPHA_ITEM_ID);
        props.push(Prop::Av1C {
            seq_profile: if twelve_bit { 2 } else { 0 },
            seq_level_idx_0: 31,
            seq_tier_0: false,
            high_bitdepth,
            twelve_bit,
            monochrome: true,
            chroma_subsampling_x: true,
            chroma_subsampling_y: true,
            chroma_sample_position: 0,
        });
        props.push(Prop::Pixi { channels: 1, depth: 8 });
        props.push(Prop::AuxC);

        let mut alpha_assocs: Vec<Assoc> = Vec::new();
        alpha_assocs.push(Assoc { prop_index: 1, essential: false });
        alpha_assocs.push(Assoc { prop_index: 4, essential: true });
        alpha_assocs.push(Assoc { prop_index: 6, essential: false });
        alpha_assocs.push(Assoc { prop_index: 5, essential: false });
        proof {
            assert(alpha_assocs@ =~= crate::model::spec_alpha_assocs());
        }
        entries.push(AssocEntry { item_id: ALPHA_ITEM_ID, assocs: alpha_assocs });

        refs.push(RefEdge { from_id: ALPHA_ITEM_ID, to_id: COLOR_ITEM_ID, typ: RefType::Auxl });
        if premultiplied {
            refs.push(RefEdge { from_id: COLOR_ITEM_ID, to_id: ALPHA_ITEM_ID, typ: RefType::Prem });
        }

        // Alpha first in the payload, so a partial file still yields a
        // usable alpha plane.
        locs.push(IlocEntry {
            item_id: COLOR_ITEM_ID,
            rel_offset: alpha_data.len() as u32,
            len: color_av1_data.len() as u32,
        });
        locs.push(IlocEntry {
            item_id: ALPHA_ITEM_ID,
            rel_offset: 0,
            len: alpha_data.len() as u32,
        });
        payload_len = alpha_data.len() + color_av1_data.len();
    } else {
        locs.push(IlocEntry {
            item_id: COLOR_ITEM_ID,
            rel_offset: 0,
            len: color_av1_data.len() as u32,
        });
    }

    proof {
        assert(image_ids@ =~= spec_items(alpha_present));
        assert(props@ =~= spec_props(alpha_present, width, height, depth_bits));
        assert(entries_view(entries@) =~= spec_assoc_entries(alpha_present));
        assert(locs@ =~= spec_extents(c.len() as int, match av {
            Some(s) => Some(s.len() as int),
            None => None,
        }));
        assert(refs@ =~= spec_refs(alpha_present, premultiplied));
        assert(forall|j: int| 0 <= j < props@.len() ==> prop_wf(#[trigger] props@[j]));
        assert(forall|j: int|
            0 <= j < entries@.len() ==> entry_wf((#[trigger] entries@[j])@));
        assert(payload_len == spec_payload(c, av).len());
    }

    assemble(color_av1_data, alpha_av1_data, &image_ids, &props, &entries, &locs, &refs)
}

/// Computes every box size bottom-up, resolves the location offsets against
/// the payload-section start, and emits the tree top-down followed by the
/// payload.
#[verifier::rlimit(100)]
fn assemble(
    color_av1_data: &[u8],
    alpha_av1_data: Option<&[u8]>,
    image_ids: &Vec<u16>,
    props: &Vec<Prop>,
    entries: &Vec<AssocEntry>,
    locs: &Vec<IlocEntry>,
    refs: &Vec<RefEdge>,
) -> (out: Vec<u8>)
    requires
        color_av1_data@.len() + spec_opt_len(opt_data(alpha_av1_data)) <= MAX_PAYLOAD,
        image_ids@.len() <= 2,
        props@.len() <= 6,
        entries@.len() <= 2,
        locs@.len() <= 2,
        refs@.len() <= 2,
        forall|j: int| 0 <= j < props@.len() ==> prop_wf(#[trigger] props@[j]),
        forall|j: int| 0 <= j < entries@.len() ==> entry_wf((#[trigger] entries@[j])@),
        forall|j: int| 0 <= j < locs@.len() ==> (#[trigger] locs@[j]).rel_offset <= MAX_PAYLOAD,
    ensures
        ({
            let children0 = meta_children_bytes(
                image_ids@,
                COLOR_ITEM_ID,
                props@,
                entries_view(entries@),
                locs@,
                0,
                refs@,
            );
            let base = (44 + children0.len()) as u32;
            out@ == ftyp_bytes() + enc_full_box(
                tag_meta(),
                meta_children_bytes(
                    image_ids@,
                    COLOR_ITEM_ID,
                    props@,
                    entries_view(entries@),
                    locs@,
                    base,
                    refs@,
                ),
            ) + enc_box(tag_mdat(), spec_payload(color_av1_data@, opt_data(alpha_av1_data)))
        }),
{
    let ghost c = color_av1_data@;
    let ghost av = opt_data(alpha_av1_data);

    // Children of the metadata box, sizes first.
    let hdlr = build_hdlr();
    let iinf = build_iinf(image_ids);
    let pitm = build_pitm(COLOR_ITEM_ID);
    let iprp = build_iprp(props, entries);
    let irefs_v = build_irefs(refs);
    let iloc_len: usize = 16 + 14 * locs.len();
    proof {
        lemma_iloc_items_len(locs@, 0);
        crate::boxes::lemma_infe_list_len(image_ids@);
        lemma_prop_list_len(props@);
        let vs = entries_view(entries@);
        assert forall|j: int| 0 <= j < vs.len() implies entry_wf(#[trigger] vs[j]) by {
            assert(vs[j] == entries@[j]@);
        }
        lemma_ipma_entries_len(vs);
        crate::boxes::lemma_irefs_len(refs@);
    }
    let children_len: usize = hdlr.len() + iinf.len() + pitm.len() + iloc_len + iprp.len()
        + irefs_v.len();
    let base: u32 = (44 + children_len) as u32;
    proof {
        lemma_iloc_items_len(locs@, base);
    }
    let iloc = build_iloc(locs, base);
    proof {
        let children = meta_children_bytes(
            image_ids@,
            COLOR_ITEM_ID,
            props@,
            entries_view(entries@),
            locs@,
            base,
            refs@,
        );
        assert(children == hdlr@ + iinf@ + pitm@ + iloc@ + iprp@ + irefs_v@);
        assert(children.len() == children_len);
    }

    // Emit top-down: every size is known before its box header is written.
    let mut out: Vec<u8> = Vec::new();
    let ftyp = build_ftyp();
    push_vec(&mut out, &ftyp);
    proof {
        assert(out@ =~= ftyp_bytes());
    }
    emit_meta(&mut out, children_len, &hdlr, &iinf, &pitm, &iloc, &iprp, &irefs_v);
    emit_mdat(&mut out, color_av1_data, alpha_av1_data);
    out
}

/// Emits the metadata box: its size (known before any byte of it is
/// written), tag, zero version and flags, then the finished children.
fn emit_meta(
    out: &mut Vec<u8>,
    children_len: usize,
    hdlr: &Vec<u8>,
    iinf: &Vec<u8>,
    pitm: &Vec<u8>,
    iloc: &Vec<u8>,
    iprp: &Vec<u8>,
    irefs_v: &Vec<u8>,
)
    requires
        children_len == hdlr@.len() + iinf@.len() + pitm@.len() + iloc@.len() + iprp@.len()
            + irefs_v@.len(),
        children_len <= 100000,
    ensures
        final(out)@ == old(out)@ + enc_full_box(
            tag_meta(),
            hdlr@ + iinf@ + pitm@ + iloc@ + iprp@ + irefs_v@,
        ),
{
    push_u32(out, (children_len + 12) as u32);
    push4(out, 0x6d, 0x65, 0x74, 0x61);
    push_u32(out, 0);
    push_vec(out, hdlr);
    push_vec(out, iinf);
    push_vec(out, pitm);
    push_vec(out, iloc);
    push_vec(out, iprp);
    push_vec(out, irefs_v);
    proof {
        assert(out@ =~= old(out)@ + enc_full_box(
            tag_meta(),
            hdlr@ + iinf@ + pitm@ + iloc@ + iprp@ + irefs_v@,
        ));
    }
}

/// Emits the payload box: its size, tag, then the raw bitstream buffers in
/// location-table order (alpha first when present).
fn emit_mdat(out: &mut Vec<u8>, color_av1_data: &[u8], alpha_av1_data: Option<&[u8]>)
    requires
        color_av1_data@.len() + spec_opt_len(opt_data(alpha_av1_data)) <= MAX_PAYLOAD,
    ensures
        final(out)@ == old(out)@ + enc_box(
            tag_mdat(),
            spec_payload(color_av1_data@, opt_data(alpha_av1_data)),
        ),
{
    let mut payload_len: usize = color_av1_data.len();
    if let Some(alpha_data) = alpha_av1_data {
        payload_len = alpha_data.len() + color_av1_data.len();
    }
    push_u32(out, (payload_len + 8) as u32);
    push4(out, 0x6d, 0x64, 0x61, 0x74);
    if let Some(alpha_data) = alpha_av1_data {
        push_bytes(out, alpha_data);
    }
    push_bytes(out, color_av1_data);
    proof {
        assert(out@ =~= old(out)@ + enc_box(
            tag_mdat(),
            spec_payload(color_av1_data@, opt_data(alpha_av1_data)),
        ));
    }
}

} // verus!
