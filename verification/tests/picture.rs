use rustux::sprite::picture::{load_picture, picture_from, Picture};
use rustux::util::Error;

/// A bitmap file of two by two pixels, 24 bits each: red and green above,
/// blue and white below. Its rows are stored from the bottom, blue first in
/// each pixel, and filled up to four bytes.
fn two_by_two() -> Vec<u8> {
    let mut file: Vec<u8> = Vec::new();
    file.extend_from_slice(b"BM");
    file.extend_from_slice(&70u32.to_le_bytes());
    file.extend_from_slice(&[0, 0, 0, 0]);
    file.extend_from_slice(&54u32.to_le_bytes());
    file.extend_from_slice(&40u32.to_le_bytes());
    file.extend_from_slice(&2i32.to_le_bytes());
    file.extend_from_slice(&2i32.to_le_bytes());
    file.extend_from_slice(&1u16.to_le_bytes());
    file.extend_from_slice(&24u16.to_le_bytes());
    file.extend_from_slice(&0u32.to_le_bytes());
    file.extend_from_slice(&16u32.to_le_bytes());
    file.extend_from_slice(&2835i32.to_le_bytes());
    file.extend_from_slice(&2835i32.to_le_bytes());
    file.extend_from_slice(&0u32.to_le_bytes());
    file.extend_from_slice(&0u32.to_le_bytes());
    file.extend_from_slice(&[255, 0, 0, 255, 255, 255, 0, 0]);
    file.extend_from_slice(&[0, 0, 255, 0, 255, 0, 0, 0]);
    file
}

#[test]
fn bitmap_is_decoded() {
    let file = two_by_two();
    assert_eq!(file.len(), 70);
    let picture = load_picture(&file).expect("a bitmap");
    assert_eq!((picture.width, picture.height), (2, 2));
    assert_eq!(
        picture.pixels,
        vec![255, 0, 0, 255, 0, 255, 0, 255, 0, 0, 255, 255, 255, 255, 255, 255]
    );
    assert_ne!(picture.pixels, file);
    assert_eq!(picture.pitch(), 8);
    assert_eq!(picture.pixel(0, 0), Some((255, 0, 0, 255)));
    assert_eq!(picture.pixel(1, 0), Some((0, 255, 0, 255)));
    assert_eq!(picture.pixel(0, 1), Some((0, 0, 255, 255)));
    assert_eq!(picture.pixel(1, 1), Some((255, 255, 255, 255)));
    assert_eq!(picture.pixel(2, 0), None);
    assert_eq!(picture.pixel(0, 2), None);
}

#[test]
fn bytes_that_are_no_image_are_refused() {
    assert!(matches!(load_picture(&[]), Err(Error::SpriteLoading(_))));
    assert!(matches!(load_picture(b"not a picture at all"), Err(Error::SpriteLoading(_))));
    let mut cut = two_by_two();
    cut.truncate(60);
    assert!(matches!(load_picture(&cut), Err(Error::SpriteLoading(_))));
}

#[test]
fn samples_must_fit_the_picture() {
    let whole = Picture::new(1, 2, vec![1, 2, 3, 4, 5, 6, 7, 8]).expect("eight samples");
    assert_eq!((whole.width, whole.height, whole.pitch()), (1, 2, 4));
    assert!(whole.is_whole());
    let torn = Picture { width: 1, height: 2, pixels: vec![0; 7] };
    assert!(!torn.is_whole());
    assert_eq!(whole.pixel(0, 1), Some((5, 6, 7, 8)));
    let empty = Picture::new(0, 7, Vec::new()).expect("no samples");
    assert_eq!(empty.pixel(0, 0), None);
    match Picture::new(2, 2, vec![0; 15]) {
        Err(Error::SpriteLoading(text)) => {
            assert_eq!(text, "Picture does not hold four bytes for each pixel")
        }
        other => panic!("{:?}", other),
    }
    assert!(Picture::new(u32::MAX, 1, Vec::new()).is_err());
    assert!(Picture::new(u32::MAX, u32::MAX, Vec::new()).is_err());
    assert!(Picture::new(0x4000_0000, 0, Vec::new()).is_err());
}

#[test]
fn outcomes_of_decoding() {
    let made = picture_from(Ok((1, 1, vec![9, 8, 7, 6]))).expect("one pixel");
    assert_eq!(made.pixels, vec![9, 8, 7, 6]);
    match picture_from(Err(String::from("broken"))) {
        Err(Error::SpriteLoading(text)) => assert_eq!(text, "broken"),
        other => panic!("{:?}", other),
    }
    assert!(picture_from(Ok((1, 1, vec![9, 8, 7]))).is_err());
}
