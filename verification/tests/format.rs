//! Byte-exact checks of the container layout: box order and sizes, the
//! packed codec-configuration bytes, the essential bits in the association
//! table, and the absolute offsets recorded in the location table.

use avif_serialize::serialize_to_vec;
use avif_serialize::Aviffy;

fn find(haystack: &[u8], needle: &[u8]) -> usize {
    haystack
        .windows(needle.len())
        .position(|w| w == needle)
        .expect("pattern not found")
}

fn be32(bytes: &[u8]) -> u32 {
    u32::from_be_bytes([bytes[0], bytes[1], bytes[2], bytes[3]])
}

#[test]
fn file_starts_with_exact_ftyp_box() {
    let avif = serialize_to_vec(&[1, 2, 3], None, 1, 1, 8);
    let expected = [
        0, 0, 0, 24, b'f', b't', b'y', b'p', b'a', b'v', b'i', b'f', 0, 0, 0, 0, b'm', b'i',
        b'f', b'1', b'm', b'i', b'a', b'f',
    ];
    assert_eq!(&avif[..24], &expected[..]);
}

#[test]
fn single_item_layout_lengths() {
    let color = [9u8; 7];
    let avif = serialize_to_vec(&color, None, 1, 1, 8);
    // ftyp (24) + meta + mdat header (8) + payload
    let meta_size = be32(&avif[24..]) as usize;
    assert_eq!(&avif[28..32], b"meta");
    assert_eq!(avif.len(), 24 + meta_size + 8 + color.len());
    // the payload is the tail of the file
    assert_eq!(&avif[24 + meta_size + 8..], &color[..]);
    // mdat declares exactly its header plus the payload
    let mdat_size = be32(&avif[24 + meta_size..]) as usize;
    assert_eq!(mdat_size, 8 + color.len());
}

#[test]
fn two_item_payload_places_alpha_first() {
    let color = [1u8, 2, 3, 4, 5, 6];
    let alpha = [77u8, 88, 99];
    let avif = serialize_to_vec(&color, Some(&alpha), 10, 20, 8);
    let meta_size = be32(&avif[24..]) as usize;
    let payload_start = 24 + meta_size + 8;
    assert_eq!(&avif[payload_start..payload_start + 3], &alpha[..]);
    assert_eq!(&avif[payload_start + 3..], &color[..]);
}

#[test]
fn iloc_records_absolute_offsets() {
    let color = [1u8, 2, 3, 4, 5, 6];
    let alpha = [77u8, 88, 99];
    let avif = serialize_to_vec(&color, Some(&alpha), 10, 20, 8);
    let meta_size = be32(&avif[24..]) as usize;
    let payload_start = (24 + meta_size + 8) as u32;

    let iloc = find(&avif, b"iloc") + 4;
    // version+flags, then offset/length sizes 4 and 4, no base offset
    assert_eq!(&avif[iloc..iloc + 6], &[0, 0, 0, 0, 0x44, 0x00]);
    // two items
    assert_eq!(&avif[iloc + 6..iloc + 8], &[0, 2]);
    // color item: id 1, data-reference 0, one extent at payload_start + 3
    assert_eq!(&avif[iloc + 8..iloc + 14], &[0, 1, 0, 0, 0, 1]);
    assert_eq!(be32(&avif[iloc + 14..]), payload_start + 3);
    assert_eq!(be32(&avif[iloc + 18..]), 6);
    // alpha item: id 2, data-reference 0, one extent at payload_start
    assert_eq!(&avif[iloc + 22..iloc + 28], &[0, 2, 0, 0, 0, 1]);
    assert_eq!(be32(&avif[iloc + 28..]), payload_start);
    assert_eq!(be32(&avif[iloc + 32..]), 3);
}

#[test]
fn av1c_packs_profile_and_depth_flags() {
    // 8-bit: profile 1, level 31, no depth flags, full-resolution chroma
    let avif = serialize_to_vec(&[1], None, 1, 1, 8);
    let av1c = find(&avif, b"av1C") + 4;
    assert_eq!(&avif[av1c..av1c + 4], &[0x81, 0x3F, 0x00, 0x00]);

    // 10-bit: high-bitdepth flag
    let avif = serialize_to_vec(&[1], None, 1, 1, 10);
    let av1c = find(&avif, b"av1C") + 4;
    assert_eq!(&avif[av1c..av1c + 4], &[0x81, 0x3F, 0x40, 0x00]);

    // 12-bit: profile 2, high-bitdepth and twelve-bit flags
    let avif = serialize_to_vec(&[1], None, 1, 1, 12);
    let av1c = find(&avif, b"av1C") + 4;
    assert_eq!(&avif[av1c..av1c + 4], &[0x81, 0x5F, 0x60, 0x00]);
}

#[test]
fn alpha_av1c_declares_monochrome() {
    let avif = serialize_to_vec(&[1], Some(&[2]), 1, 1, 8);
    // the alpha codec configuration is the second av1C box
    let first = find(&avif, b"av1C") + 4;
    let second = first + 4 + find(&avif[first + 4..], b"av1C") + 4;
    // profile 0, level 31; monochrome with both chroma subsampling flags
    assert_eq!(&avif[second..second + 4], &[0x81, 0x1F, 0x1C, 0x00]);
}

#[test]
fn ipma_marks_only_codec_config_essential() {
    let avif = serialize_to_vec(&[1, 2], Some(&[3]), 4, 4, 8);
    let ipma = find(&avif, b"ipma") + 4;
    // version+flags, entry count 2
    assert_eq!(&avif[ipma..ipma + 8], &[0, 0, 0, 0, 0, 0, 0, 2]);
    // color item 1: three associations; only index 2 (codec config) has the
    // essential bit
    assert_eq!(&avif[ipma + 8..ipma + 14], &[0, 1, 3, 0x01, 0x82, 0x03]);
    // alpha item 2: four associations; only index 4 (its codec config) has
    // the essential bit
    assert_eq!(&avif[ipma + 14..ipma + 21], &[0, 2, 4, 0x01, 0x84, 0x06, 0x05]);
}

#[test]
fn ispe_stores_width_and_height() {
    let avif = serialize_to_vec(&[1], None, 640, 480, 8);
    let ispe = find(&avif, b"ispe") + 4;
    assert_eq!(be32(&avif[ispe + 4..]), 640);
    assert_eq!(be32(&avif[ispe + 8..]), 480);
}

#[test]
fn premultiplied_option_adds_prem_reference() {
    let color = [1u8, 2];
    let alpha = [3u8];
    let plain = serialize_to_vec(&color, Some(&alpha), 2, 1, 8);
    let prem = Aviffy::new()
        .premultiplied_alpha(true)
        .to_vec(&color, Some(&alpha), 2, 1, 8);

    // without the option no "prem" box exists
    assert!(!plain.windows(4).any(|w| w == b"prem"));
    // with it, a reference box types the edge color -> alpha
    let at = find(&prem, b"prem") + 4;
    assert_eq!(&prem[at..at + 6], &[0, 1, 0, 1, 0, 2]);
    // and the premultiplied file is exactly one reference box (26 bytes)
    // longer
    assert_eq!(prem.len(), plain.len() + 26);
}

#[test]
fn auxc_declares_alpha_urn() {
    let avif = serialize_to_vec(&[1], Some(&[2]), 1, 1, 8);
    let auxc = find(&avif, b"auxC") + 4;
    let urn = b"urn:mpeg:mpegB:cicp:systems:auxiliary:alpha";
    assert_eq!(&avif[auxc + 4..auxc + 4 + urn.len()], &urn[..]);
    assert_eq!(avif[auxc + 4 + urn.len()], 0);
}
