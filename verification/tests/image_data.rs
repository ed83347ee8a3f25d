use pdf_render::{ImageData, Rgba};

fn px(v: u8) -> Rgba {
    Rgba { r: v, g: v, b: v, a: 255 }
}

fn sample() -> ImageData {
    // 3 wide, 2 high:
    // 1 2 3
    // 4 5 6
    ImageData::new(vec![px(1), px(2), px(3), px(4), px(5), px(6)], 3, 2).unwrap()
}

fn levels(img: &ImageData) -> Vec<u8> {
    img.data().iter().map(|p| p.r).collect()
}

#[test]
fn new_accepts_matching_size() {
    let img = sample();
    assert_eq!(img.width(), 3);
    assert_eq!(img.height(), 2);
    assert_eq!(img.data().len(), 6);
}

#[test]
fn new_rejects_wrong_size() {
    assert!(ImageData::new(vec![px(1), px(2), px(3)], 2, 2).is_none());
    assert!(ImageData::new(vec![], 1, 1).is_none());
    assert!(ImageData::new(vec![], 0, 7).is_some());
}

#[test]
fn rotate_by_zero_keeps_the_image() {
    let r = sample().rotate(0);
    assert_eq!((r.width(), r.height()), (3, 2));
    assert_eq!(levels(&r), vec![1, 2, 3, 4, 5, 6]);
}

#[test]
fn rotate_quarter_turn() {
    // clockwise:
    // 4 1
    // 5 2
    // 6 3
    let r = sample().rotate(1);
    assert_eq!((r.width(), r.height()), (2, 3));
    assert_eq!(levels(&r), vec![4, 1, 5, 2, 6, 3]);
}

#[test]
fn rotate_half_turn() {
    let r = sample().rotate(2);
    assert_eq!((r.width(), r.height()), (3, 2));
    assert_eq!(levels(&r), vec![6, 5, 4, 3, 2, 1]);
}

#[test]
fn rotate_three_quarter_turn() {
    // counter-clockwise:
    // 3 6
    // 2 5
    // 1 4
    let r = sample().rotate(3);
    assert_eq!((r.width(), r.height()), (2, 3));
    assert_eq!(levels(&r), vec![3, 6, 2, 5, 1, 4]);
}

#[test]
fn four_quarter_turns_are_the_identity() {
    let img = sample();
    let back = img.rotate(1).rotate(1).rotate(1).rotate(1);
    assert_eq!(back, img);
    assert_eq!(img.rotate(1).rotate(3), img);
    assert_eq!(img.rotate(1).rotate(1), img.rotate(2));
}

#[test]
fn rgba_data_lists_four_bytes_per_pixel() {
    let img = ImageData::new(
        vec![Rgba { r: 1, g: 2, b: 3, a: 4 }, Rgba { r: 5, g: 6, b: 7, a: 8 }],
        2,
        1,
    )
    .unwrap();
    assert_eq!(img.rgba_data(), vec![1, 2, 3, 4, 5, 6, 7, 8]);
    assert_eq!(img.clone().into_data().len(), 2);
}
