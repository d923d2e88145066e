use image::DynamicImage;
use image::ImageBuffer;
use image::Rgba;
use pixelgame::bitmap::Bitmap;
use pixelgame::img::Image;
use pixelgame::text::get_sentence_images;
use pixelgame::text::split_alphabet_image;

#[test]
fn from_rgba_packs_colours_and_drops_alpha() {
    let bytes = vec![1u8, 2, 3, 4, 255, 0, 128, 9];
    let b = Bitmap::from_rgba(2, 1, &bytes).unwrap();
    assert_eq!(b.width, 2);
    assert_eq!(b.height, 1);
    assert_eq!(b.pixels, vec![0x010203, 0xFF0080]);
}

#[test]
fn from_rgba_ignores_extra_bytes() {
    let bytes = vec![0u8, 0, 1, 0, 7, 7, 7];
    let b = Bitmap::from_rgba(1, 1, &bytes).unwrap();
    assert_eq!(b.pixels, vec![1]);
}

#[test]
fn from_rgba_rejects_short_input() {
    assert!(Bitmap::from_rgba(2, 2, &vec![0u8; 15]).is_none());
    assert!(Bitmap::from_rgba(0, 0, &vec![]).is_some());
}

#[test]
fn from_pixels_needs_one_colour_per_pixel() {
    assert!(Bitmap::from_pixels(2, 2, vec![1, 2, 3]).is_none());
    assert!(Bitmap::from_pixels(2, 2, vec![1, 2, 3, 4, 5]).is_none());
    assert_eq!(Bitmap::from_pixels(2, 2, vec![1, 2, 3, 4]).unwrap().pixels, vec![1, 2, 3, 4]);
}

#[test]
fn from_rgba_reads_decoded_pixels() {
    let buf: ImageBuffer<Rgba<u8>, Vec<u8>> =
        ImageBuffer::from_raw(2, 2, vec![10, 20, 30, 255, 0, 0, 0, 0, 255, 255, 255, 1, 1, 2, 3, 4]).unwrap();
    let img = DynamicImage::ImageRgba8(buf);
    let rgba = img.to_rgba8();
    let b = Bitmap::from_rgba(rgba.width(), rgba.height(), &rgba.into_raw()).unwrap();
    assert_eq!(b.width, 2);
    assert_eq!(b.height, 2);
    assert_eq!(b.pixels, vec![0x0A141E, 0, 0xFFFFFF, 0x010203]);
}

#[test]
fn copy_keeps_size_and_colours() {
    let b = Bitmap::from_pixels(1, 2, vec![5, 6]).unwrap();
    let c = b.copy();
    assert_eq!((c.width, c.height, c.pixels), (1, 2, vec![5, 6]));
}

#[test]
fn crop_cuts_and_clamps() {
    let b = Bitmap::from_pixels(4, 3, (0..12).collect()).unwrap();
    let c = b.crop(1, 1, 2, 2);
    assert_eq!((c.width, c.height), (2, 2));
    assert_eq!(c.pixels, vec![5, 6, 9, 10]);
    let d = b.crop(3, 2, 5, 5);
    assert_eq!((d.width, d.height), (1, 1));
    assert_eq!(d.pixels, vec![11]);
    let e = b.crop(9, 9, 2, 2);
    assert_eq!((e.width, e.height), (0, 0));
    assert!(e.pixels.is_empty());
}

#[test]
fn split_alphabet_cuts_letters_a_to_z() {
    let pixels: Vec<u32> = (0..52).collect();
    let strip = Bitmap::from_pixels(52, 1, pixels).unwrap();
    let letters = split_alphabet_image(&strip);
    assert_eq!(letters.len(), 26);
    assert_eq!(letters[0].0, 'A');
    assert_eq!(letters[0].1.pixels, vec![0, 1]);
    assert_eq!(letters[24].0, 'Y');
    assert_eq!(letters[24].1.pixels, vec![48, 49]);
    assert_eq!(letters[25].0, 'Z');
    assert_eq!(letters[25].1.pixels, vec![50, 51]);
    let keys: String = letters.iter().map(|(c, _)| *c).collect();
    assert_eq!(keys, "ABCDEFGHIJKLMNOPQRSTUVWXYZ");
    assert!(letters.iter().all(|(_, b)| b.width == 2 && b.height == 1));
}

#[test]
fn split_alphabet_drops_leftover_columns() {
    let pixels: Vec<u32> = (0..58).collect();
    let strip = Bitmap::from_pixels(29, 2, pixels).unwrap();
    let letters = split_alphabet_image(&strip);
    assert_eq!(letters.len(), 26);
    assert_eq!(letters[25].0, 'Z');
    assert_eq!(letters[25].1.pixels, vec![25, 54]);
}

#[test]
fn sentence_images_skip_unknown_letters() {
    let map = vec![
        ('A', Bitmap::from_pixels(1, 1, vec![1]).unwrap()),
        ('B', Bitmap::from_pixels(1, 1, vec![2]).unwrap()),
        ('A', Bitmap::from_pixels(1, 1, vec![3]).unwrap()),
    ];
    let sentence: Vec<char> = "BAZA".chars().collect();
    let images = get_sentence_images(&sentence, &map);
    let firsts: Vec<u32> = images.iter().map(|b| b.pixels[0]).collect();
    assert_eq!(firsts, vec![2, 1, 1]);
    assert!(get_sentence_images(&vec![], &map).is_empty());
}

#[test]
fn image_path_is_under_assets() {
    let img = Image { filename: String::from("player.png") };
    assert_eq!(img.path(), "./assets/player.png");
}
