use image::{DynamicImage, GenericImageView, ImageOutputFormat, Rgba, RgbaImage};
use std::io::Cursor;
use wallpaper_tool::picture::{
    centred, encode_wallpaper, fill_screen, is_plain_jpeg, is_plain_png, Canvas, Picture,
    PictureError,
};

fn sample(width: u32, height: u32) -> RgbaImage {
    RgbaImage::from_fn(width, height, |x, y| {
        Rgba([(x * 40) as u8, (y * 40) as u8, (x * y) as u8, 255])
    })
}

fn file_of(picture: DynamicImage, format: ImageOutputFormat) -> Vec<u8> {
    let mut file = Cursor::new(Vec::new());
    picture.write_to(&mut file, format).unwrap();
    file.into_inner()
}

fn png(picture: &RgbaImage) -> Vec<u8> {
    file_of(DynamicImage::ImageRgba8(picture.clone()), ImageOutputFormat::Png)
}

fn bmp(picture: &RgbaImage) -> Vec<u8> {
    file_of(DynamicImage::ImageRgba8(picture.clone()), ImageOutputFormat::Bmp)
}

fn jpeg(width: u32, height: u32) -> Vec<u8> {
    encode_wallpaper(canvas(&RgbaImage::from_pixel(width, height, Rgba([200, 100, 50, 255]))))
        .unwrap()
}

fn canvas(picture: &RgbaImage) -> Canvas {
    Canvas::from_rgba(picture.width(), picture.height(), picture.clone().into_raw()).unwrap()
}

fn image_of(canvas: Canvas) -> RgbaImage {
    let (width, height) = (canvas.width(), canvas.height());
    RgbaImage::from_raw(width, height, canvas.into_rgba()).unwrap()
}

#[test]
fn canvas_of_samples() {
    let made = Canvas::from_rgba(2, 1, vec![1, 2, 3, 4, 5, 6, 7, 8]).unwrap();
    assert_eq!((made.width(), made.height()), (2, 1));
    assert_eq!(made.clone().into_rgba(), vec![1, 2, 3, 4, 5, 6, 7, 8]);
    assert_eq!(made.into_rgba(), vec![1, 2, 3, 4, 5, 6, 7, 8]);
    assert!(Canvas::from_rgba(2, 1, vec![0; 7]).is_none());
    assert!(Canvas::from_rgba(2, 1, vec![0; 9]).is_none());
    assert!(Canvas::from_rgba(u32::MAX, u32::MAX, vec![]).is_none());
    assert!(Canvas::from_rgba(0, 7, vec![]).is_some());
}

#[test]
fn empty_canvas_is_transparent() {
    let made = Canvas::empty(3, 2);
    assert_eq!((made.width(), made.height()), (3, 2));
    assert_eq!(made.into_rgba(), vec![0; 24]);
}

#[test]
fn plain_jpeg_files_are_decoded() {
    let picture = Picture::open(&jpeg(20, 10)).unwrap().ok().unwrap();
    assert_eq!((picture.width(), picture.height()), (20, 10));
    assert!(picture.can_scale_to(40, 20));
    let Rgba([red, green, blue, alpha]) = picture.image().get_pixel(3, 4);
    assert!((red as i32 - 200).abs() < 8);
    assert!((green as i32 - 100).abs() < 8);
    assert!((blue as i32 - 50).abs() < 8);
    assert_eq!(alpha, 255);
}

#[test]
fn broken_jpeg_files_are_no_pictures() {
    let mut cut = jpeg(20, 10);
    cut.truncate(40);
    match Picture::open(&cut).unwrap() {
        Err(PictureError::Undecodable(text)) => {
            assert_eq!(text, image::load_from_memory(&cut).unwrap_err().to_string());
            assert!(!text.is_empty());
        }
        _ => panic!("it was decoded"),
    }
    assert!(matches!(Picture::open(&[0xff, 0xd8, 0xff]), Some(Err(PictureError::Undecodable(_)))));
}

#[test]
fn other_files_are_turned_away() {
    assert!(Picture::open(&bmp(&sample(5, 3))).is_none());
    assert!(Picture::open(b"no picture at all").is_none());
    assert!(Picture::open(&[]).is_none());
    assert!(Picture::open(&[0xff, 0xd8]).is_none());
}

#[test]
fn plain_png_files_are_decoded() {
    let picture = Picture::open(&png(&sample(5, 3))).unwrap().ok().unwrap();
    assert_eq!((picture.width(), picture.height()), (5, 3));
    assert_eq!(picture.image(), &DynamicImage::ImageRgba8(sample(5, 3)));
    let opaque = DynamicImage::ImageRgba8(sample(300, 2)).to_rgb8();
    let file = file_of(DynamicImage::ImageRgb8(opaque.clone()), ImageOutputFormat::Png);
    let picture = Picture::open(&file).unwrap().ok().unwrap();
    assert_eq!((picture.width(), picture.height()), (300, 2));
    assert_eq!(picture.image(), &DynamicImage::ImageRgb8(opaque));
}

#[test]
fn broken_png_files_are_no_pictures() {
    let mut cut = png(&sample(5, 3));
    cut.truncate(50);
    match Picture::open(&cut).unwrap() {
        Err(PictureError::Undecodable(text)) => {
            assert_eq!(text, image::load_from_memory(&cut).unwrap_err().to_string());
            assert!(!text.is_empty());
        }
        _ => panic!("it was decoded"),
    }
    let mut empty = png(&sample(5, 3));
    empty[19] = 0;
    assert!(matches!(Picture::open(&empty), Some(Err(PictureError::Undecodable(_)))));
}

#[test]
fn other_kinds_of_png_files_are_not_plain() {
    let plain = png(&sample(5, 3));
    assert!(is_plain_png(&plain));
    assert!(!is_plain_jpeg(&plain));
    assert!(is_plain_png(&plain[..29]));
    assert!(!is_plain_png(&plain[..28]));
    let grey = DynamicImage::ImageRgba8(sample(5, 3)).to_luma8();
    assert!(!is_plain_png(&file_of(DynamicImage::ImageLuma8(grey), ImageOutputFormat::Png)));
    let deep = DynamicImage::ImageRgba8(sample(5, 3)).to_rgb16();
    assert!(!is_plain_png(&file_of(DynamicImage::ImageRgb16(deep), ImageOutputFormat::Png)));
    for place in (0..18).chain([20, 21, 24, 28]) {
        let mut other = plain.clone();
        other[place] ^= 1;
        assert!(!is_plain_png(&other));
    }
    for place in [18, 19, 22, 23, 26, 27] {
        let mut other = plain.clone();
        other[place] ^= 1;
        assert!(is_plain_png(&other));
    }
    let mut large = plain.clone();
    large[16..24].copy_from_slice(&[0, 0, 0x80, 0, 0, 0, 0x7f, 0xff]);
    assert!(is_plain_png(&large));
    large[20..24].copy_from_slice(&[0, 0, 0x80, 0]);
    assert!(!is_plain_png(&large));
    for name in [b"tRNS", b"iCCP", b"acTL", b"fcTL"] {
        let mut other = plain.clone();
        other.extend_from_slice(name);
        assert!(!is_plain_png(&other));
        other.pop();
        assert!(is_plain_png(&other));
    }
}

#[test]
fn damaged_files_have_an_outcome() {
    for file in [jpeg(20, 10), png(&sample(5, 3))] {
        for place in 0..file.len() {
            for change in [1, 2, 4, 0x10, 0x40, 0x80, 0xff] {
                let mut damaged = file.clone();
                damaged[place] ^= change;
                if let Some(Ok(picture)) = Picture::open(&damaged) {
                    assert!(picture.width() > 0 && picture.height() > 0);
                }
            }
        }
    }
}

#[test]
fn lossless_and_huge_frames_are_not_plain() {
    assert!(is_plain_jpeg(&jpeg(20, 10)));
    let start = [0xff, 0xd8, 0xff];
    let with = |rest: &[u8]| -> Vec<u8> { start.iter().chain(rest).copied().collect() };
    assert!(is_plain_jpeg(&with(&[])));
    assert!(!is_plain_jpeg(&with(&[0xc3])));
    assert!(!is_plain_jpeg(&with(&[0xe0, 0, 2, 0xff, 0xff, 0xc3])));
    assert!(is_plain_jpeg(&with(&[0xe0, 0xc3, 0xff])));
    let frame = |marker: u8, height: u8, width: u8| {
        with(&[marker, 0, 11, 8, height, 9, width, 9, 1, 1, 0x11, 0])
    };
    for marker in [0xc0, 0xc1, 0xc2] {
        assert!(is_plain_jpeg(&frame(marker, 0xfe, 0xfe)));
        assert!(!is_plain_jpeg(&frame(marker, 0xff, 1)));
        assert!(!is_plain_jpeg(&frame(marker, 1, 0xff)));
    }
    assert!(is_plain_jpeg(&frame(0xc4, 0xff, 0xfe)));
    let mut wide = frame(0xc0, 1, 0xff);
    wide.truncate(10);
    assert!(is_plain_jpeg(&wide));
    wide.push(0);
    assert!(!is_plain_jpeg(&wide));
}

#[test]
fn files_decoded_elsewhere_are_accepted() {
    let file = bmp(&sample(5, 3));
    let decoded = image::load_from_memory(&file).map_err(|error| error.to_string());
    let picture = Picture::accept(decoded).ok().unwrap();
    assert_eq!((picture.width(), picture.height()), (5, 3));
    assert_eq!(picture.image().to_rgba8(), sample(5, 3));
    match Picture::accept(Err("no picture".to_string())) {
        Err(PictureError::Undecodable(text)) => assert_eq!(text, "no picture"),
        _ => panic!("it was accepted"),
    }
}

#[test]
fn empty_pictures_are_not_accepted() {
    for (width, height) in [(0, 5), (5, 0), (0, 0)] {
        let decoded = Ok(DynamicImage::new_rgba8(width, height));
        assert!(matches!(Picture::accept(decoded), Err(PictureError::Empty)));
    }
    assert!(Picture::accept(Ok(DynamicImage::new_rgba8(1, 1))).is_ok());
}

#[test]
fn picture_is_scaled_as_it_should_be() {
    let picture = Picture::accept(Ok(DynamicImage::ImageRgba8(sample(5, 3)))).ok().unwrap();
    assert!(picture.can_scale_to(10, 9));
    let scaled = image_of(picture.scale_to(10, 9));
    let expected = DynamicImage::ImageRgba8(sample(5, 3))
        .resize_exact(10, 9, image::imageops::FilterType::Triangle)
        .to_rgba8();
    assert_eq!(scaled.dimensions(), (10, 9));
    assert_eq!(scaled, expected);
}

#[test]
fn picture_is_scaled_to_nothing() {
    let picture = Picture::accept(Ok(DynamicImage::ImageRgba8(sample(5, 3)))).ok().unwrap();
    for (width, height) in [(0, 4), (4, 0), (0, 0)] {
        assert!(picture.can_scale_to(width, height));
        let scaled = picture.scale_to(width, height);
        assert_eq!((scaled.width(), scaled.height()), (width, height));
        let screen = fill_screen(scaled, 2, 2);
        assert_eq!(screen.into_rgba(), vec![0; 16]);
    }
}

#[test]
fn picture_without_alpha_becomes_opaque() {
    let grey = DynamicImage::ImageLuma8(image::GrayImage::from_pixel(2, 2, image::Luma([7])));
    let picture = Picture::accept(Ok(grey)).ok().unwrap();
    let scaled = image_of(picture.scale_to(2, 2));
    assert_eq!(scaled, RgbaImage::from_pixel(2, 2, Rgba([7, 7, 7, 255])));
}

#[test]
fn some_pictures_cannot_be_scaled_here() {
    let float = DynamicImage::ImageRgb32F(image::Rgb32FImage::new(2, 2));
    assert!(!Picture::accept(Ok(float)).ok().unwrap().can_scale_to(4, 4));
    let float = DynamicImage::ImageRgba32F(image::Rgba32FImage::new(2, 2));
    assert!(!Picture::accept(Ok(float)).ok().unwrap().can_scale_to(4, 4));
    let long = Picture::accept(Ok(DynamicImage::new_luma8(0x20_0001, 1))).ok().unwrap();
    assert!(!long.can_scale_to(4, 4));
    let small = Picture::accept(Ok(DynamicImage::new_luma8(1, 1))).ok().unwrap();
    assert!(small.can_scale_to(0x20_0000, 0x20_0000));
    assert!(!small.can_scale_to(0x20_0001, 1));
    assert!(!small.can_scale_to(1, 0x20_0001));
}

#[test]
fn pictures_are_centred() {
    assert_eq!(centred(10, 4), 3);
    assert_eq!(centred(10, 5), 2);
    assert_eq!(centred(4, 10), -3);
    assert_eq!(centred(5, 10), -2);
    assert_eq!(centred(7, 7), 0);
    assert_eq!(centred(0, u32::MAX), -2147483647);
    assert_eq!(centred(u32::MAX, 0), 2147483647);
}

#[test]
fn large_picture_fills_the_screen() {
    let picture = sample(6, 5);
    let screen = image_of(fill_screen(canvas(&picture), 3, 2));
    assert_eq!(screen.dimensions(), (3, 2));
    for column in 0..3 {
        for row in 0..2 {
            assert_eq!(screen.get_pixel(column, row), picture.get_pixel(column + 1, row + 1));
        }
    }
}

#[test]
fn small_picture_leaves_a_margin() {
    let screen = image_of(fill_screen(canvas(&sample(2, 1)), 4, 3));
    assert_eq!(screen.get_pixel(0, 1), &Rgba([0, 0, 0, 0]));
    assert_eq!(screen.get_pixel(1, 1), sample(2, 1).get_pixel(0, 0));
    assert_eq!(screen.get_pixel(2, 1), sample(2, 1).get_pixel(1, 0));
    assert_eq!(screen.get_pixel(1, 0), &Rgba([0, 0, 0, 0]));
}

#[test]
fn transparent_pixels_let_the_screen_through() {
    let picture = RgbaImage::from_pixel(1, 1, Rgba([9, 9, 9, 0]));
    let screen = image_of(fill_screen(canvas(&picture), 1, 1));
    assert_eq!(screen.get_pixel(0, 0), &Rgba([0, 0, 0, 0]));
    let picture = RgbaImage::from_pixel(1, 1, Rgba([200, 100, 50, 128]));
    let screen = image_of(fill_screen(canvas(&picture), 1, 1));
    assert_eq!(screen.get_pixel(0, 0), &Rgba([200, 100, 50, 128]));
}

#[test]
fn wallpaper_is_a_jpeg_file() {
    let picture = RgbaImage::from_pixel(20, 10, Rgba([200, 100, 50, 255]));
    let file = encode_wallpaper(canvas(&picture)).unwrap();
    assert_eq!(&file[..2], &[0xff, 0xd8]);
    let decoded = image::load_from_memory(&file).unwrap();
    assert_eq!(decoded.dimensions(), (20, 10));
    let Rgba([red, green, blue, _]) = decoded.get_pixel(3, 4);
    assert!((red as i32 - 200).abs() < 8);
    assert!((green as i32 - 100).abs() < 8);
    assert!((blue as i32 - 50).abs() < 8);
    let mut expected = Vec::new();
    image::codecs::jpeg::JpegEncoder::new_with_quality(&mut expected, 95)
        .encode_image(&picture)
        .unwrap();
    assert_eq!(file, expected);
}

#[test]
fn sides_have_a_limit_in_a_jpeg_file() {
    assert!(encode_wallpaper(Canvas::empty(65535, 1)).is_ok());
    assert!(encode_wallpaper(Canvas::empty(1, 65535)).is_ok());
    let text = encode_wallpaper(Canvas::empty(65536, 1)).unwrap_err();
    assert!(!text.is_empty());
    assert!(encode_wallpaper(Canvas::empty(1, 65536)).is_err());
    assert!(encode_wallpaper(Canvas::empty(0, 5)).is_ok());
    assert!(encode_wallpaper(Canvas::empty(5, 0)).is_ok());
}
