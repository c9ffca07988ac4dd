//! Round-trip tests: the serialized container is parsed back with two
//! independent readers and must yield the input bitstreams and flags.

use avif_serialize::{serialize_to_vec, Aviffy};

#[test]
fn test_roundtrip_parse_mp4() {
    let test_img = b"av12356abc";
    let avif = serialize_to_vec(test_img, None, 10, 20, 8);

    let ctx = mp4parse::read_avif(&mut avif.as_slice(), mp4parse::ParseStrictness::Normal).unwrap();

    assert_eq!(&test_img[..], ctx.primary_item_coded_data().unwrap());
}

#[test]
fn test_roundtrip_parse_mp4_alpha() {
    let test_img = b"av12356abc";
    let test_a = b"alpha";
    let avif = serialize_to_vec(test_img, Some(test_a), 10, 20, 8);

    let ctx = mp4parse::read_avif(&mut avif.as_slice(), mp4parse::ParseStrictness::Normal).unwrap();

    assert_eq!(&test_img[..], ctx.primary_item_coded_data().unwrap());
    assert_eq!(&test_a[..], ctx.alpha_item_coded_data().unwrap());
}

#[test]
fn test_roundtrip_parse_avif() {
    let test_img = [1, 2, 3, 4, 5, 6];
    let test_alpha = [77, 88, 99];
    let avif = serialize_to_vec(&test_img, Some(&test_alpha), 10, 20, 8);

    let ctx = avif_parse::read_avif(&mut avif.as_slice()).unwrap();

    assert_eq!(&test_img[..], ctx.primary_item.as_slice());
    assert_eq!(&test_alpha[..], ctx.alpha_item.as_deref().unwrap());
}

#[test]
fn premultiplied_flag() {
    let test_img = [1, 2, 3, 4];
    let test_alpha = [55, 66, 77, 88, 99];
    let avif = Aviffy::new()
        .premultiplied_alpha(true)
        .to_vec(&test_img, Some(&test_alpha), 5, 5, 8);

    let ctx = avif_parse::read_avif(&mut avif.as_slice()).unwrap();

    assert!(ctx.premultiplied_alpha);
    assert_eq!(&test_img[..], ctx.primary_item.as_slice());
    assert_eq!(&test_alpha[..], ctx.alpha_item.as_deref().unwrap());
}

#[test]
fn premultiplied_flag_absent_by_default() {
    let test_img = [1, 2, 3, 4];
    let test_alpha = [55, 66, 77, 88, 99];
    let avif = serialize_to_vec(&test_img, Some(&test_alpha), 5, 5, 8);

    let ctx = avif_parse::read_avif(&mut avif.as_slice()).unwrap();

    assert!(!ctx.premultiplied_alpha);
    assert_eq!(&test_img[..], ctx.primary_item.as_slice());
    assert_eq!(&test_alpha[..], ctx.alpha_item.as_deref().unwrap());
}

#[test]
fn premultiplied_flag_can_be_reset() {
    let test_img = [7, 8, 9];
    let test_alpha = [1];
    let mut config = Aviffy::new();
    config.premultiplied_alpha(true);
    config.premultiplied_alpha(false);
    let avif = config.to_vec(&test_img, Some(&test_alpha), 3, 1, 8);

    let ctx = avif_parse::read_avif(&mut avif.as_slice()).unwrap();

    assert!(!ctx.premultiplied_alpha);
}

#[test]
fn single_item_has_no_alpha_and_no_references() {
    let test_img = [10, 20, 30];
    let avif = serialize_to_vec(&test_img, None, 3, 1, 8);

    let ctx = avif_parse::read_avif(&mut avif.as_slice()).unwrap();

    assert_eq!(&test_img[..], ctx.primary_item.as_slice());
    assert!(ctx.alpha_item.is_none());
    assert!(!ctx.premultiplied_alpha);
}

#[test]
fn high_bit_depth_files_parse() {
    for depth in [8u8, 10, 12] {
        let test_img = [1, 2, 3];
        let test_alpha = [4, 5];
        let avif = serialize_to_vec(&test_img, Some(&test_alpha), 2, 2, depth);
        let ctx = avif_parse::read_avif(&mut avif.as_slice()).unwrap();
        assert_eq!(&test_img[..], ctx.primary_item.as_slice());
        assert_eq!(&test_alpha[..], ctx.alpha_item.as_deref().unwrap());
    }
}
