//! Descriptor model of the container: items, properties, property
//! associations, location extents and reference edges, together with the
//! fixed construction rules that assemble them for a color image with an
//! optional alpha plane.

use vstd::prelude::*;

verus! {

/// Item identifier of the color image. Fixed by construction.
pub const COLOR_ITEM_ID: u16 = 1;

/// Item identifier of the alpha plane, when present. Fixed by construction.
pub const ALPHA_ITEM_ID: u16 = 2;

/// An immutable descriptor attachable to items by 1-based index.
#[derive(Clone, Copy)]
pub enum Prop {
    /// Spatial extents: image width and height in pixels.
    Ispe { width: u32, height: u32 },
    /// Codec configuration record.
    Av1C {
        seq_profile: u8,
        seq_level_idx_0: u8,
        seq_tier_0: bool,
        high_bitdepth: bool,
        twelve_bit: bool,
        monochrome: bool,
        chroma_subsampling_x: bool,
        chroma_subsampling_y: bool,
        chroma_sample_position: u8,
    },
    /// Pixel information: channel count, with a fixed 8-bit depth field.
    Pixi { channels: u8, depth: u8 },
    /// Auxiliary-type declaration marking an item as an alpha plane.
    AuxC,
}

/// One property association: a 1-based index into the property table and the
/// essential flag, packed into the index's high bit when serialized.
#[derive(Clone, Copy)]
pub struct Assoc {
    pub prop_index: u8,
    pub essential: bool,
}

/// The serialized association packs the index into 7 bits.
pub open spec fn assoc_wf(a: Assoc) -> bool {
    1 <= a.prop_index < 0x80
}

/// The ordered property associations of one item.
pub struct AssocEntry {
    pub item_id: u16,
    pub assocs: Vec<Assoc>,
}

/// Mathematical view of an [`AssocEntry`].
pub struct AssocEntryS {
    pub item_id: u16,
    pub assocs: Seq<Assoc>,
}

impl View for AssocEntry {
    type V = AssocEntryS;

    open spec fn view(&self) -> AssocEntryS {
        AssocEntryS { item_id: self.item_id, assocs: self.assocs@ }
    }
}

pub open spec fn entry_wf(e: AssocEntryS) -> bool {
    e.assocs.len() <= 255 && forall|j: int| 0 <= j < e.assocs.len() ==> assoc_wf(#[trigger] e.assocs[j])
}

pub open spec fn entries_view(es: Seq<AssocEntry>) -> Seq<AssocEntryS> {
    es.map_values(|e: AssocEntry| e@)
}

/// One location entry: an item's single extent in the payload section,
/// as a byte offset relative to the payload start and a byte length.
#[derive(Clone, Copy)]
pub struct IlocEntry {
    pub item_id: u16,
    pub rel_offset: u32,
    pub len: u32,
}

/// The type of a directed reference edge between two items.
#[derive(Clone, Copy, PartialEq, Eq, Structural)]
pub enum RefType {
    /// "is auxiliary plane of"
    Auxl,
    /// "is premultiplied by"
    Prem,
}

/// A typed directed edge between two item identifiers.
#[derive(Clone, Copy, PartialEq, Eq, Structural)]
pub struct RefEdge {
    pub from_id: u16,
    pub to_id: u16,
    pub typ: RefType,
}

/// The items of the container: the color item, then the alpha item if present.
pub open spec fn spec_items(alpha: bool) -> Seq<u16> {
    if alpha {
        seq![COLOR_ITEM_ID, ALPHA_ITEM_ID]
    } else {
        seq![COLOR_ITEM_ID]
    }
}

/// Codec configuration of the color item: full-resolution chroma, profile and
/// depth flags derived from the bit depth.
pub open spec fn spec_color_av1c(depth_bits: u8) -> Prop {
    Prop::Av1C {
        seq_profile: if depth_bits >= 12 { 2 } else { 1 },
        seq_level_idx_0: 31,
        seq_tier_0: false,
        high_bitdepth: depth_bits >= 10,
        twelve_bit: depth_bits >= 12,
        monochrome: false,
        chroma_subsampling_x: false,
        chroma_subsampling_y: false,
        chroma_sample_position: 0,
    }
}

/// Codec configuration of the alpha item: monochrome sampling with both
/// chroma subsampling flags set, as the format grammar requires.
pub open spec fn spec_alpha_av1c(depth_bits: u8) -> Prop {
    Prop::Av1C {
        seq_profile: if depth_bits >= 12 { 2 } else { 0 },
        seq_level_idx_0: 31,
        seq_tier_0: false,
        high_bitdepth: depth_bits >= 10,
        twelve_bit: depth_bits >= 12,
        monochrome: true,
        chroma_subsampling_x: true,
        chroma_subsampling_y: true,
        chroma_sample_position: 0,
    }
}

/// The shared property table, in push order. Indices are 1-based:
/// 1 = spatial extents, 2 = color codec config, 3 = color pixel info, and with alpha
/// 4 = alpha codec config, 5 = alpha pixel info, 6 = auxiliary type.
pub open spec fn spec_props(alpha: bool, width: u32, height: u32, depth_bits: u8) -> Seq<Prop> {
    let color = seq![
        Prop::Ispe { width, height },
        spec_color_av1c(depth_bits),
        Prop::Pixi { channels: 3, depth: 8 },
    ];
    if alpha {
        color + seq![
            spec_alpha_av1c(depth_bits),
            Prop::Pixi { channels: 1, depth: 8 },
            Prop::AuxC,
        ]
    } else {
        color
    }
}

/// The color item's associations: spatial extents, codec config (essential),
/// pixel info.
pub open spec fn spec_color_assocs() -> Seq<Assoc> {
    seq![
        Assoc { prop_index: 1, essential: false },
        Assoc { prop_index: 2, essential: true },
        Assoc { prop_index: 3, essential: false },
    ]
}

/// The alpha item's associations: spatial extents, codec config (essential),
/// auxiliary type, pixel info.
pub open spec fn spec_alpha_assocs() -> Seq<Assoc> {
    seq![
        Assoc { prop_index: 1, essential: false },
        Assoc { prop_index: 4, essential: true },
        Assoc { prop_index: 6, essential: false },
        Assoc { prop_index: 5, essential: false },
    ]
}

/// The association table: one entry per item, in item order.
pub open spec fn spec_assoc_entries(alpha: bool) -> Seq<AssocEntryS> {
    let color = AssocEntryS { item_id: COLOR_ITEM_ID, assocs: spec_color_assocs() };
    if alpha {
        seq![color, AssocEntryS { item_id: ALPHA_ITEM_ID, assocs: spec_alpha_assocs() }]
    } else {
        seq![color]
    }
}

/// The location table. With an alpha plane the payload places the alpha
/// buffer first, so the alpha extent starts at offset 0 and the color extent
/// at the alpha buffer's length; alone, the color extent starts at offset 0.
pub open spec fn spec_extents(color_len: int, alpha_len: Option<int>) -> Seq<IlocEntry> {
    match alpha_len {
        Some(al) => seq![
            IlocEntry { item_id: COLOR_ITEM_ID, rel_offset: al as u32, len: color_len as u32 },
            IlocEntry { item_id: ALPHA_ITEM_ID, rel_offset: 0, len: al as u32 },
        ],
        None => seq![IlocEntry { item_id: COLOR_ITEM_ID, rel_offset: 0, len: color_len as u32 }],
    }
}

/// The reference edges: with alpha, an auxiliary edge from the alpha item to
/// the color item, and additionally a premultiplied edge from the color item
/// to the alpha item when the premultiplied-alpha option is set.
pub open spec fn spec_refs(alpha: bool, premultiplied: bool) -> Seq<RefEdge> {
    if alpha {
        let aux = seq![
            RefEdge { from_id: ALPHA_ITEM_ID, to_id: COLOR_ITEM_ID, typ: RefType::Auxl },
        ];
        if premultiplied {
            aux + seq![RefEdge { from_id: COLOR_ITEM_ID, to_id: ALPHA_ITEM_ID, typ: RefType::Prem }]
        } else {
            aux
        }
    } else {
        Seq::empty()
    }
}

/// The payload section: the alpha buffer first when present, then the color
/// buffer.
pub open spec fn spec_payload(c: Seq<u8>, a: Option<Seq<u8>>) -> Seq<u8> {
    match a {
        Some(ab) => ab + c,
        None => c,
    }
}

} // verus!
