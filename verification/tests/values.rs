use red::image::Image;
use red::small_array::SmallArray;
use red::utf8::EncodedChar;
use red::vector::{Vector2, Vector4};

#[test]
fn encoded_char_has_the_bytes_of_the_character() {
    assert_eq!(EncodedChar::new('a').as_bytes(), [0x61]);
    assert_eq!(EncodedChar::new('\0').as_bytes(), [0x00]);
    assert_eq!(EncodedChar::new('\u{7f}').as_bytes(), [0x7f]);
    assert_eq!(EncodedChar::new('\u{80}').as_bytes(), [0xc2, 0x80]);
    assert_eq!(EncodedChar::new('é').as_bytes(), [0xc3, 0xa9]);
    assert_eq!(EncodedChar::new('\u{7ff}').as_bytes(), [0xdf, 0xbf]);
    assert_eq!(EncodedChar::new('\u{800}').as_bytes(), [0xe0, 0xa0, 0x80]);
    assert_eq!(EncodedChar::new('€').as_bytes(), [0xe2, 0x82, 0xac]);
    assert_eq!(EncodedChar::new('\u{ffff}').as_bytes(), [0xef, 0xbf, 0xbf]);
    assert_eq!(EncodedChar::new('\u{10000}').as_bytes(), [0xf0, 0x90, 0x80, 0x80]);
    assert_eq!(EncodedChar::new('😀').as_bytes(), [0xf0, 0x9f, 0x98, 0x80]);
    assert_eq!(EncodedChar::new('\u{10ffff}').as_bytes(), [0xf4, 0x8f, 0xbf, 0xbf]);
}

#[test]
fn encoded_char_agrees_with_the_standard_encoding() {
    let samples = ['\u{1}', 'Z', 'ß', 'Ω', 'म', '한', '\u{d7ff}', '\u{e000}', '𝄞', '\u{fffd}'];
    for ch in samples {
        let mut tmp = [0u8; 4];
        let expected = ch.encode_utf8(&mut tmp).as_bytes();
        assert_eq!(EncodedChar::new(ch).as_bytes(), expected);
    }
}

#[test]
fn small_array_push_and_clear() {
    let mut a: SmallArray<4, u32> = SmallArray::new();
    assert!(a.is_empty());
    assert_eq!(a.len(), 0);
    a.push(7);
    a.push(9);
    assert!(!a.is_empty());
    assert_eq!(a.len(), 2);
    assert_eq!(a.count, 2);
    assert_eq!(a[0], 7);
    assert_eq!(a[1], 9);
    assert_eq!(a.data, [7, 9, 0, 0]);
    a.push(1);
    a.push(2);
    assert_eq!(a.len(), 4);
    assert_eq!(*a, [7, 9, 1, 2]);
    a.clear();
    assert!(a.is_empty());
    assert_eq!(a.len(), 0);
    assert_eq!(a.data, [7, 9, 1, 2]);
    a.push(5);
    assert_eq!(a.data, [5, 9, 1, 2]);
    assert_eq!(a.len(), 1);
}

#[test]
fn small_array_slots_can_be_written() {
    let mut a: SmallArray<3, u8> = SmallArray::default();
    a.push(1);
    a[0] = 4;
    a[2] = 6;
    assert_eq!(a.data, [4, 0, 6]);
    assert_eq!(a.len(), 1);
    a.fill(9);
    assert_eq!(a.data, [9, 9, 9]);
    assert_eq!(a.count, 1);
}

#[test]
fn small_array_of_no_slots_is_empty() {
    let a: SmallArray<0, u64> = SmallArray::new();
    assert!(a.is_empty());
    assert_eq!(a.len(), 0);
}

#[test]
fn vector2_is_built_from_coordinates() {
    let v = Vector2::new(3, 4);
    assert_eq!((v.x, v.y), (3, 4));
    let s = Vector2::from_scalar(7u8);
    assert_eq!((s.x, s.y), (7, 7));
    let d: Vector2<i32> = Vector2::default();
    assert_eq!((d.x, d.y), (0, 0));
}

#[test]
fn vector2_arithmetic_is_by_coordinate() {
    let a = Vector2::new(12, 20);
    let b = Vector2::new(3, 5);
    let sum = a + b;
    assert_eq!((sum.x, sum.y), (15, 25));
    let diff = a - b;
    assert_eq!((diff.x, diff.y), (9, 15));
    let prod = a * b;
    assert_eq!((prod.x, prod.y), (36, 100));
    let quot = a / b;
    assert_eq!((quot.x, quot.y), (4, 4));
    let mut c = a;
    c += b;
    assert_eq!((c.x, c.y), (15, 25));
    c -= a;
    assert_eq!((c.x, c.y), (3, 5));
    c *= Vector2::from_scalar(4);
    assert_eq!((c.x, c.y), (12, 20));
    c /= Vector2::new(2, 10);
    assert_eq!((c.x, c.y), (6, 2));
}

#[test]
fn vector2_arithmetic_on_floats() {
    let cursor = Vector2::new(10.0f32, -4.0);
    let camera = Vector2::new(2.0f32, 0.0);
    let vel = (cursor - camera) * Vector2::from_scalar(2.0);
    assert_eq!((vel.x, vel.y), (16.0, -8.0));
    let mut pos = camera;
    pos += vel * Vector2::from_scalar(0.5);
    assert_eq!((pos.x, pos.y), (10.0, -4.0));
}

#[test]
fn vector4_is_built_from_coordinates() {
    let v = Vector4::new(1, 2, 3, 4);
    assert_eq!((v.x, v.y, v.z, v.w), (1, 2, 3, 4));
    let s = Vector4::from_scalar(1.0f32);
    assert_eq!((s.x, s.y, s.z, s.w), (1.0, 1.0, 1.0, 1.0));
    let d: Vector4<u16> = Vector4::default();
    assert_eq!((d.x, d.y, d.z, d.w), (0, 0, 0, 0));
}

#[test]
fn vector4_arithmetic_is_by_coordinate() {
    let a = Vector4::new(12, 20, 30, 42);
    let b = Vector4::new(3, 5, 6, 7);
    let sum = a + b;
    assert_eq!((sum.x, sum.y, sum.z, sum.w), (15, 25, 36, 49));
    let diff = a - b;
    assert_eq!((diff.x, diff.y, diff.z, diff.w), (9, 15, 24, 35));
    let prod = a * b;
    assert_eq!((prod.x, prod.y, prod.z, prod.w), (36, 100, 180, 294));
    let quot = a / b;
    assert_eq!((quot.x, quot.y, quot.z, quot.w), (4, 4, 5, 6));
    let mut c = a;
    c += b;
    assert_eq!((c.x, c.y, c.z, c.w), (15, 25, 36, 49));
    c -= a;
    assert_eq!((c.x, c.y, c.z, c.w), (3, 5, 6, 7));
    c *= Vector4::from_scalar(2);
    assert_eq!((c.x, c.y, c.z, c.w), (6, 10, 12, 14));
    c /= Vector4::new(3, 5, 4, 2);
    assert_eq!((c.x, c.y, c.z, c.w), (2, 2, 3, 7));
}

#[test]
fn image_byte_len_is_four_bytes_a_pixel() {
    assert_eq!(Image::byte_len(0, 0), Some(0));
    assert_eq!(Image::byte_len(128, 64), Some(32768));
    assert_eq!(Image::byte_len(1, 7), Some(28));
    assert_eq!(Image::byte_len(0, 5), Some(0));
    assert_eq!(Image::byte_len(-1, 5), None);
    assert_eq!(Image::byte_len(5, -1), None);
    assert_eq!(Image::byte_len(i32::MIN, i32::MIN), None);
    assert_eq!(Image::byte_len(46341, 46341), Some(8_589_953_124));
}

#[test]
fn image_takes_pixels_that_fit_its_dimensions() {
    let image = Image::from_rgba(vec![1, 2, 3, 4, 5, 6, 7, 8], 2, 1).unwrap();
    assert_eq!((image.width, image.height), (2, 1));
    assert_eq!(image.pixels, [1, 2, 3, 4, 5, 6, 7, 8]);
    assert_eq!(image.len(), 8);
    let mut image = image;
    image[3] = 255;
    assert_eq!(image.pixels, [1, 2, 3, 255, 5, 6, 7, 8]);
    assert!(Image::from_rgba(vec![], 0, 9).is_some());
    assert!(Image::from_rgba(vec![0; 7], 2, 1).is_none());
    assert!(Image::from_rgba(vec![0; 8], 1, 1).is_none());
    assert!(Image::from_rgba(vec![0; 8], -2, -1).is_none());
    assert!(Image::from_rgba(vec![], -1, 0).is_none());
}
