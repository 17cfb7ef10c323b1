//! Pictures: the wallpaper as it is decoded, and the canvas on which the new one is drawn.

use vstd::prelude::*;

verus! {

/// A decoded picture of the `image` crate.
#[verifier::external_type_specification]
#[verifier::external_body]
pub struct ExDynamicImage(image::DynamicImage);

/// What a decoded picture holds.
pub struct Raster {
    pub width: u32,
    pub height: u32,
    /// A number for the colour type.
    pub color: nat,
    /// Whether the samples are floating-point numbers.
    pub float_samples: bool,
    pub samples: Seq<int>,
}

/// What a picture of the `image` crate holds.
pub uninterp spec fn raster(picture: image::DynamicImage) -> Raster;

/// `image::load_from_memory` may make this of a file's bytes, on some processor: a picture, or an
/// error that says why it cannot.
pub uninterp spec fn may_decode_to(data: Seq<u8>, decoding: Result<Raster, Seq<char>>) -> bool;

/// A picture scaled to another size by `image::DynamicImage::resize_exact`, with the triangle
/// filter.
pub uninterp spec fn resized(picture: Raster, width: u32, height: u32) -> Raster;

/// A picture's pixels by rows from the top, as `image::DynamicImage::to_rgba8` converts them: a
/// byte each of red, green, blue and alpha.
pub uninterp spec fn rgba_bytes(picture: Raster) -> Seq<u8>;

/// The pixel that `image::Pixel::blend` makes of an RGBA pixel with 8-bit samples and a
/// translucent one over it.
pub uninterp spec fn blended(under: Seq<u8>, over: Seq<u8>) -> Seq<u8>;

/// The file that `image::codecs::jpeg::JpegEncoder` writes of a canvas, or an error that says why
/// it cannot.
pub uninterp spec fn jpeg(canvas: CanvasView, quality: u8) -> Result<Seq<u8>, Seq<char>>;

/// A picture with 8-bit RGBA samples.
pub struct Canvas {
    width: u32,
    height: u32,
    rgba: Vec<u8>,
}

/// What a `Canvas` holds: its pixels by rows from the top, each a byte of red, green, blue and
/// alpha.
#[verifier::ext_equal]
pub struct CanvasView {
    pub width: u32,
    pub height: u32,
    pub rgba: Seq<u8>,
}

impl View for Canvas {
    type V = CanvasView;

    closed spec fn view(&self) -> CanvasView {
        CanvasView { width: self.width, height: self.height, rgba: self.rgba@ }
    }
}

impl CanvasView {
    /// There is room for each pixel and nothing more, and a row can be addressed.
    pub open spec fn well_formed(self) -> bool {
        &&& self.rgba.len() == 4 * (self.width * self.height)
        &&& 4 * self.width <= usize::MAX
    }

    /// The four samples of the pixel in this column and row.
    pub open spec fn pixel(self, column: int, row: int) -> Seq<u8> {
        self.rgba.subrange(
            4 * (row * self.width + column),
            4 * (row * self.width + column) + 4,
        )
    }
}

/// The pixel of an overlay in this column and row: where the top canvas, with its corner at
/// (`x`, `y`), covers it, an opaque pixel of the top replaces the one below, a transparent one
/// lets it through, and a translucent one is blended with it.
pub open spec fn overlaid_pixel(
    bottom: CanvasView,
    top: CanvasView,
    x: int,
    y: int,
    column: int,
    row: int,
) -> Seq<u8> {
    let under = bottom.pixel(column, row);
    let over = top.pixel(column - x, row - y);
    if 0 <= column - x < top.width && 0 <= row - y < top.height {
        if over[3] == 255 {
            over
        } else if over[3] == 0 {
            under
        } else {
            blended(under, over)
        }
    } else {
        under
    }
}

/// `top` laid over `bottom`, with its corner at (`x`, `y`); what sticks out is cut off.
pub open spec fn overlaid(bottom: CanvasView, top: CanvasView, x: int, y: int) -> CanvasView {
    CanvasView {
        rgba: Seq::new(
            bottom.rgba.len(),
            |k: int|
                overlaid_pixel(
                    bottom,
                    top,
                    x,
                    y,
                    k / 4 % bottom.width as int,
                    k / 4 / bottom.width as int,
                )[k % 4],
        ),
        ..bottom
    }
}

/// No marker at this place announces a lossless frame, nor a frame with a side of 65280 pixels or
/// more.
pub open spec fn plain_marker(data: Seq<u8>, at: int) -> bool {
    data[at] == 0xff ==> {
        &&& data[at + 1] != 0xc3
        &&& 0xc0 <= data[at + 1] <= 0xc2 && at + 8 < data.len() ==> data[at + 5] != 0xff && data[at
            + 7] != 0xff
    }
}

/// The file begins as a JPEG file does, and none of its frames is lossless or huge.
pub open spec fn plain_jpeg(data: Seq<u8>) -> bool {
    &&& data.len() >= 3
    &&& data[0] == 0xff
    &&& data[1] == 0xd8
    &&& data[2] == 0xff
    &&& forall|at: int| 0 <= at < data.len() - 1 ==> #[trigger] plain_marker(data, at)
}

/// Tells whether the file begins as a JPEG file does and none of its frames is lossless or huge.
pub fn is_plain_jpeg(data: &[u8]) -> (yes: bool)
    ensures
        yes == plain_jpeg(data@),
{
    let length: usize = data.len();
    if length < 3 || data[0] != 0xff || data[1] != 0xd8 || data[2] != 0xff {
        return false;
    }
    for at in 0..length - 1
        invariant
            length == data@.len(),
            length >= 3,
            forall|i: int| 0 <= i < at ==> #[trigger] plain_marker(data@, i),
    {
        if data[at] == 0xff {
            let marker: u8 = data[at + 1];
            if marker == 0xc3 || (0xc0 <= marker && marker <= 0xc2 && length - at > 8 && (data[at
                + 5] == 0xff || data[at + 7] == 0xff)) {
                assert(!plain_marker(data@, at as int));
                return false;
            }
        }
        assert(plain_marker(data@, at as int));
    }
    true
}

/// What a PNG file begins with, up to the width of its picture.
pub open spec fn png_start() -> Seq<u8> {
    seq![
        0x89u8, 0x50, 0x4e, 0x47, 0x0d, 0x0a, 0x1a, 0x0a, 0, 0, 0, 13, 0x49, 0x48, 0x44, 0x52,
    ]
}

/// These four bytes are the name of a chunk of a PNG file that adds transparency, a colour profile
/// or animation: `tRNS`, `iCCP`, `acTL` or `fcTL`.
pub open spec fn special_chunk(a: u8, b: u8, c: u8, d: u8) -> bool {
    ||| a == 0x74 && b == 0x52 && c == 0x4e && d == 0x53
    ||| a == 0x69 && b == 0x43 && c == 0x43 && d == 0x50
    ||| (a == 0x61 || a == 0x66) && b == 0x63 && c == 0x54 && d == 0x4c
}

/// No chunk with such a name begins at this place.
pub open spec fn plain_chunk(data: Seq<u8>, at: int) -> bool {
    !special_chunk(data[at], data[at + 1], data[at + 2], data[at + 3])
}

/// The width and the height that a PNG file begins with, if no side is longer than 65535 pixels.
pub open spec fn png_size(data: Seq<u8>) -> (int, int) {
    (256 * data[18] + data[19], 256 * data[22] + data[23])
}

/// The file begins as a PNG file does whose picture has sides of up to 65535 pixels and 8-bit RGB
/// or RGBA samples that are not interlaced, and whose samples can be counted in 32 bits; it is no
/// longer than 64 MiB; and it has none of the chunks that `special_chunk` names.
pub open spec fn plain_png(data: Seq<u8>) -> bool {
    &&& 29 <= data.len() <= MAX_PNG_LENGTH
    &&& data.take(16) == png_start()
    &&& data[16] == 0 && data[17] == 0
    &&& data[20] == 0 && data[21] == 0
    &&& data[24] == 8
    &&& data[25] == 2 || data[25] == 6
    &&& data[28] == 0
    &&& 4 * (png_size(data).0 * png_size(data).1) <= u32::MAX
    &&& forall|at: int| 0 <= at < data.len() - 3 ==> #[trigger] plain_chunk(data, at)
}

/// The length of the longest PNG file that is decoded here.
pub const MAX_PNG_LENGTH: usize = 0x400_0000;

/// Tells whether the file begins as a PNG file does.
fn starts_as_png(data: &[u8]) -> (yes: bool)
    requires
        data@.len() >= 16,
    ensures
        yes == (data@.take(16) == png_start()),
{
    let start: [u8; 16] = [
        0x89, 0x50, 0x4e, 0x47, 0x0d, 0x0a, 0x1a, 0x0a, 0, 0, 0, 13, 0x49, 0x48, 0x44, 0x52,
    ];
    assert(start@ == png_start());
    for i in 0..16
        invariant
            data@.len() >= 16,
            start@ == png_start(),
            forall|j: int| 0 <= j < i ==> data@[j] == #[trigger] start@[j],
    {
        if data[i] != start[i] {
            assert(data@.take(16)[i as int] != png_start()[i as int]);
            return false;
        }
    }
    assert(data@.take(16) == png_start());
    true
}

/// Tells whether the file is such a PNG file.
pub fn is_plain_png(data: &[u8]) -> (yes: bool)
    ensures
        yes == plain_png(data@),
{
    let length: usize = data.len();
    if length < 29 || length > MAX_PNG_LENGTH || !starts_as_png(data) || data[16] != 0 || data[17]
        != 0 || data[20] != 0 || data[21] != 0 || data[24] != 8 || (data[25] != 2 && data[25] != 6)
        || data[28] != 0 {
        return false;
    }
    let width: u64 = 256 * (data[18] as u64) + data[19] as u64;
    let height: u64 = 256 * (data[22] as u64) + data[23] as u64;
    assert(0 <= width * height <= 65535 * 65535) by (nonlinear_arith)
        requires
            0 <= width <= 65535,
            0 <= height <= 65535,
    ;
    if 4 * (width * height) > u32::MAX as u64 {
        return false;
    }
    for at in 0..length - 3
        invariant
            length == data@.len(),
            length >= 29,
            forall|i: int| 0 <= i < at ==> #[trigger] plain_chunk(data@, i),
    {
        let a: u8 = data[at];
        let b: u8 = data[at + 1];
        let c: u8 = data[at + 2];
        let d: u8 = data[at + 3];
        if (a == 0x74 && b == 0x52 && c == 0x4e && d == 0x53) || (a == 0x69 && b == 0x43 && c
            == 0x43 && d == 0x50) || ((a == 0x61 || a == 0x66) && b == 0x63 && c == 0x54 && d
            == 0x4c) {
            assert(!plain_chunk(data@, at as int));
            return false;
        }
        assert(plain_chunk(data@, at as int));
    }
    true
}

/// The file is decoded here.
pub open spec fn plain_file(data: Seq<u8>) -> bool {
    plain_jpeg(data) || plain_png(data)
}

/// Two decodings of a file agree in all that does not depend on the processor: whether there is a
/// picture, its size and kind, and the text of an error. Those of a PNG file agree in everything;
/// those of a JPEG file may differ in how samples are rounded.
pub open spec fn alike(
    data: Seq<u8>,
    left: Result<Raster, Seq<char>>,
    right: Result<Raster, Seq<char>>,
) -> bool {
    match (left, right) {
        (Ok(left), Ok(right)) => {
            &&& left.width == right.width
            &&& left.height == right.height
            &&& left.color == right.color
            &&& left.float_samples == right.float_samples
            &&& plain_png(data) ==> left == right
        },
        (Err(left), Err(right)) => left == right,
        _ => false,
    }
}

/// The file decodes to this, and on any processor to something alike.
pub open spec fn decodes_to(data: Seq<u8>, decoding: Result<Raster, Seq<char>>) -> bool {
    &&& may_decode_to(data, decoding)
    &&& forall|other: Result<Raster, Seq<char>>| #[trigger]
        may_decode_to(data, other) ==> alike(data, other, decoding)
}

/// A picture of a file that is decoded here: it is not empty, has no side longer than 65535 pixels
/// and has integer samples. The size of a PNG picture is that which its file begins with.
pub open spec fn plain_picture(data: Seq<u8>, picture: Raster) -> bool {
    &&& 0 < picture.width <= 65535
    &&& 0 < picture.height <= 65535
    &&& !picture.float_samples
    &&& plain_png(data) ==> (picture.width as int, picture.height as int) == png_size(data)
}

/// What decoding gave.
pub open spec fn decoding_of(outcome: Result<image::DynamicImage, String>) -> Result<
    Raster,
    Seq<char>,
> {
    match outcome {
        Ok(picture) => Ok(raster(picture)),
        Err(text) => Err(text@),
    }
}

/// Calls `image::load_from_memory` on a plain JPEG or PNG file, and writes out its error. Taken on
/// trust: the outcome is one that the file may have; every other that it may have is alike, since
/// only the rounding of JPEG samples depends on the processor; and a picture is as `plain_picture`
/// says. What the samples are is left unsaid.
///
/// Lossless JPEG frames are left out, because the decoder can panic on them; so are huge ones,
/// whose blocks it counts in 16 bits; so are PNG files of more samples than 32 bits can count, of
/// which the decoder may find another fault first where addresses are longer; and so are the other
/// kinds of PNG files and the other formats, of whose decoding nothing is claimed.
#[verifier::external_body]
fn decode(data: &[u8]) -> (outcome: Result<image::DynamicImage, String>)
    requires
        plain_file(data@),
    ensures
        may_decode_to(data@, decoding_of(outcome)),
        forall|other: Result<Raster, Seq<char>>| #[trigger]
            may_decode_to(data@, other) ==> alike(data@, other, decoding_of(outcome)),
        match outcome {
            Ok(picture) => plain_picture(data@, raster(picture)),
            Err(_) => true,
        },
{
    match image::load_from_memory(data) {
        Ok(picture) => Ok(picture),
        Err(error) => Err(error.to_string()),
    }
}

/// Calls `dimensions` of `image::GenericImageView`. Taken on trust: it gives the width and the
/// height of the picture.
#[verifier::external_body]
fn dimensions(picture: &image::DynamicImage) -> (size: (u32, u32))
    ensures
        size == (raster(*picture).width, raster(*picture).height),
{
    image::GenericImageView::dimensions(picture)
}

/// Calls `image::DynamicImage::color`. Taken on trust: the two colour types that it names with
/// `32F` are those with floating-point samples.
#[verifier::external_body]
fn has_float_samples(picture: &image::DynamicImage) -> (yes: bool)
    ensures
        yes == raster(*picture).float_samples,
{
    matches!(picture.color(), image::ColorType::Rgb32F | image::ColorType::Rgba32F)
}

/// Both sides are short enough for `image` to resample them without loss of precision, and
/// what it needs for that can be allocated.
pub open spec fn can_resize(picture: Raster, width: u32, height: u32) -> bool {
    &&& !picture.float_samples
    &&& 0 < picture.width <= MAX_SIDE
    &&& 0 < picture.height <= MAX_SIDE
    &&& width <= MAX_SIDE
    &&& height <= MAX_SIDE
    &&& 16 * (picture.width * height) <= isize::MAX
    &&& 16 * (width * height) <= isize::MAX
}

/// The longest side of a picture that is resampled here: up to it, single precision tells
/// neighbouring pixels apart.
pub const MAX_SIDE: u32 = 0x20_0000;

/// Calls `image::DynamicImage::resize_exact` with the triangle filter. Taken on trust: the result
/// depends on the picture and the size alone, has this size, and has integer samples as the
/// picture has.
#[verifier::external_body]
fn resize(picture: &image::DynamicImage, width: u32, height: u32) -> (scaled: image::DynamicImage)
    requires
        can_resize(raster(*picture), width, height),
    ensures
        raster(scaled) == resized(raster(*picture), width, height),
        raster(scaled).width == width,
        raster(scaled).height == height,
        !raster(scaled).float_samples,
{
    picture.resize_exact(width, height, image::imageops::FilterType::Triangle)
}

/// Calls `image::DynamicImage::to_rgba8`. Taken on trust: the result depends on the picture
/// alone, and has its size.
#[verifier::external_body]
fn to_canvas(picture: &image::DynamicImage) -> (canvas: Canvas)
    requires
        !raster(*picture).float_samples,
        4 * (raster(*picture).width * raster(*picture).height) <= isize::MAX,
        4 * raster(*picture).width <= usize::MAX,
    ensures
        canvas@ == (CanvasView {
            width: raster(*picture).width,
            height: raster(*picture).height,
            rgba: rgba_bytes(raster(*picture)),
        }),
        canvas@.well_formed(),
{
    let rgba = picture.to_rgba8();
    Canvas { width: rgba.width(), height: rgba.height(), rgba: rgba.into_raw() }
}

/// Calls `image::imageops::overlay` on RGBA images with 8-bit samples. Taken on trust: it covers
/// the bottom pixel by pixel, as `overlaid_pixel` says.
#[verifier::external_body]
fn overlay(bottom: Canvas, top: Canvas, x: i64, y: i64) -> (canvas: Canvas)
    requires
        bottom@.well_formed(),
        top@.well_formed(),
    ensures
        canvas@ == overlaid(bottom@, top@, x as int, y as int),
        forall|column: int, row: int|
            0 <= column < bottom@.width && 0 <= row < bottom@.height && 0 <= column - x
                < top@.width && 0 <= row - y < top@.height && 0 < top@.pixel(column - x, row - y)[3]
                < 255 ==> #[trigger] canvas@.pixel(column, row) == blended(
                bottom@.pixel(column, row),
                top@.pixel(column - x, row - y),
            ),
{
    let mut under = image::RgbaImage::from_raw(bottom.width, bottom.height, bottom.rgba).unwrap();
    let over = image::RgbaImage::from_raw(top.width, top.height, top.rgba).unwrap();
    image::imageops::overlay(&mut under, &over, x, y);
    Canvas { width: under.width(), height: under.height(), rgba: under.into_raw() }
}

/// Calls `encode_image` of `image::codecs::jpeg::JpegEncoder`, and writes out its error. Taken on
/// trust: the outcome depends on the canvas and the quality alone, and there is an error exactly
/// where a side is longer than the format's limit.
#[verifier::external_body]
fn encode(canvas: Canvas, quality: u8) -> (outcome: Result<Vec<u8>, String>)
    requires
        canvas@.well_formed(),
    ensures
        jpeg(canvas@, quality) == match outcome {
            Ok(file) => Ok(file@),
            Err(text) => Err(text@),
        },
        outcome.is_ok() == (canvas@.width <= u16::MAX && canvas@.height <= u16::MAX),
{
    let rgba = image::RgbaImage::from_raw(canvas.width, canvas.height, canvas.rgba).unwrap();
    let mut file = Vec::new();
    let mut encoder = image::codecs::jpeg::JpegEncoder::new_with_quality(&mut file, quality);
    match encoder.encode_image(&rgba) {
        Ok(()) => Ok(file),
        Err(error) => Err(error.to_string()),
    }
}

/// A canvas of this size whose pixels are all black and transparent.
pub open spec fn empty_canvas(width: u32, height: u32) -> CanvasView {
    CanvasView {
        width,
        height,
        rgba: Seq::new((4 * (width * height)) as nat, |k: int| 0u8),
    }
}

impl Canvas {
    #[verifier::type_invariant]
    spec fn fits(self) -> bool {
        self@.well_formed()
    }

    /// Makes a canvas of this size whose pixels are all black and transparent.
    pub fn empty(width: u32, height: u32) -> (canvas: Canvas)
        requires
            4 * (width * height) <= isize::MAX,
            4 * width <= usize::MAX,
        ensures
            canvas@ == empty_canvas(width, height),
    {
        assert(0 <= width * height <= 4 * (width * height)) by (nonlinear_arith)
            requires
                0 <= width,
                0 <= height,
        ;
        let size: usize = width as usize * height as usize * 4;
        let rgba: Vec<u8> = vec![0u8; size];
        assert(rgba@ == empty_canvas(width, height).rgba);
        Canvas { width, height, rgba }
    }

    /// Makes a canvas of its size and its samples, if the samples are as many as it needs and a row
    /// can be addressed.
    pub fn from_rgba(width: u32, height: u32, rgba: Vec<u8>) -> (canvas: Option<Canvas>)
        ensures
            match canvas {
                Some(canvas) => canvas@ == (CanvasView { width, height, rgba: rgba@ })
                    && canvas@.well_formed(),
                None => rgba@.len() != 4 * (width * height) || 4 * width > usize::MAX,
            },
    {
        assert(0 <= width * height <= u32::MAX * u32::MAX) by (nonlinear_arith)
            requires
                0 <= width <= u32::MAX,
                0 <= height <= u32::MAX,
        ;
        if rgba.len() as u128 == 4 * (width as u128 * height as u128) && 4 * (width as u128)
            <= usize::MAX as u128 {
            Some(Canvas { width, height, rgba })
        } else {
            None
        }
    }

    /// The width.
    pub fn width(&self) -> (width: u32)
        ensures
            width == self@.width,
    {
        self.width
    }

    /// The height.
    pub fn height(&self) -> (height: u32)
        ensures
            height == self@.height,
    {
        self.height
    }

    /// Gives up the samples.
    pub fn into_rgba(self) -> (rgba: Vec<u8>)
        ensures
            rgba@ == self@.rgba,
            self@.well_formed(),
    {
        proof {
            use_type_invariant(&self);
        }
        self.rgba
    }
}

impl Clone for Canvas {
    fn clone(&self) -> (copy: Self)
        ensures
            copy@ == self@,
    {
        proof {
            use_type_invariant(self);
        }
        let rgba = self.rgba.clone();
        assert(rgba@ == self.rgba@);
        Canvas { width: self.width, height: self.height, rgba }
    }
}

/// A decoded picture that is not empty.
pub struct Picture {
    image: image::DynamicImage,
    width: u32,
    height: u32,
    float_samples: bool,
}

impl View for Picture {
    type V = Raster;

    closed spec fn view(&self) -> Raster {
        raster(self.image)
    }
}

/// Why a file is no picture to draw on.
pub enum PictureError {
    /// A side has no length.
    Empty,
    /// It cannot be decoded; the text says why.
    Undecodable(String),
}

/// What a `PictureError` says.
pub enum PictureErrorView {
    Empty,
    Undecodable(Seq<char>),
}

impl View for PictureError {
    type V = PictureErrorView;

    open spec fn view(&self) -> PictureErrorView {
        match self {
            PictureError::Empty => PictureErrorView::Empty,
            PictureError::Undecodable(text) => PictureErrorView::Undecodable(text@),
        }
    }
}

/// What becomes of what decoding gave: a picture that is not empty is accepted.
pub open spec fn accepted(outcome: Result<Raster, Seq<char>>) -> Result<Raster, PictureErrorView> {
    match outcome {
        Ok(picture) => if picture.width == 0 || picture.height == 0 {
            Err(PictureErrorView::Empty)
        } else {
            Ok(picture)
        },
        Err(text) => Err(PictureErrorView::Undecodable(text)),
    }
}

/// What becomes of a file that is decoded here: its picture, or the decoder's error.
pub open spec fn of_plain_file(data: Seq<u8>, outcome: Result<Raster, PictureErrorView>) -> bool {
    match outcome {
        Ok(picture) => decodes_to(data, Ok(picture)) && plain_picture(data, picture),
        Err(PictureErrorView::Undecodable(text)) => decodes_to(data, Err(text)),
        Err(PictureErrorView::Empty) => false,
    }
}

/// What the result says.
pub open spec fn picture_result(outcome: Result<Picture, PictureError>) -> Result<
    Raster,
    PictureErrorView,
> {
    match outcome {
        Ok(picture) => Ok(picture@),
        Err(error) => Err(error@),
    }
}

impl Picture {
    #[verifier::type_invariant]
    spec fn measured(self) -> bool {
        &&& self.width == raster(self.image).width > 0
        &&& self.height == raster(self.image).height > 0
        &&& self.float_samples == raster(self.image).float_samples
    }

    /// Decodes a plain JPEG or PNG file, and turns other files away. What the samples are is left
    /// unsaid, as it is of the decoder.
    pub fn open(data: &[u8]) -> (outcome: Option<Result<Picture, PictureError>>)
        ensures
            match outcome {
                Some(outcome) => plain_file(data@) && of_plain_file(data@, picture_result(outcome)),
                None => !plain_file(data@),
            },
    {
        if is_plain_jpeg(data) || is_plain_png(data) {
            Some(Picture::accept(decode(data)))
        } else {
            None
        }
    }

    /// Accepts what decoding gave, unless it is an empty picture.
    pub fn accept(decoding: Result<image::DynamicImage, String>) -> (outcome: Result<
        Picture,
        PictureError,
    >)
        ensures
            picture_result(outcome) == accepted(decoding_of(decoding)),
    {
        match decoding {
            Ok(image) => {
                let (width, height) = dimensions(&image);
                if width == 0 || height == 0 {
                    return Err(PictureError::Empty);
                }
                let float_samples = has_float_samples(&image);
                Ok(Picture { image, width, height, float_samples })
            },
            Err(text) => Err(PictureError::Undecodable(text)),
        }
    }

    /// The width.
    pub fn width(&self) -> (width: u32)
        ensures
            width == self@.width,
            width > 0,
    {
        proof {
            use_type_invariant(self);
        }
        self.width
    }

    /// The height.
    pub fn height(&self) -> (height: u32)
        ensures
            height == self@.height,
            height > 0,
    {
        proof {
            use_type_invariant(self);
        }
        self.height
    }

    /// The picture as the `image` crate has it.
    pub fn image(&self) -> (image: &image::DynamicImage)
        ensures
            raster(*image) == self@,
    {
        &self.image
    }

    /// Tells whether `scale_to` can scale the picture to this size.
    pub fn can_scale_to(&self, width: u32, height: u32) -> (yes: bool)
        ensures
            yes == can_resize(self@, width, height),
    {
        proof {
            use_type_invariant(self);
            assert(self.width * height <= u32::MAX * u32::MAX) by (nonlinear_arith)
                requires
                    0 <= self.width <= u32::MAX,
                    0 <= height <= u32::MAX,
            ;
            assert(width * height <= u32::MAX * u32::MAX) by (nonlinear_arith)
                requires
                    0 <= width <= u32::MAX,
                    0 <= height <= u32::MAX,
            ;
            assert(0 <= self.width * height);
            assert(0 <= width * height);
        }
        !self.float_samples && self.width <= MAX_SIDE && self.height <= MAX_SIDE && width
            <= MAX_SIDE && height <= MAX_SIDE && 16 * (self.width as u128 * height as u128)
            <= isize::MAX as u128 && 16 * (width as u128 * height as u128) <= isize::MAX as u128
    }

    /// Scales the picture to this size, and converts it.
    pub fn scale_to(&self, width: u32, height: u32) -> (canvas: Canvas)
        requires
            can_resize(self@, width, height),
        ensures
            canvas@ == scaled(self@, width, height),
    {
        assert(0 <= width * height) by (nonlinear_arith)
            requires
                0 <= width,
                0 <= height,
        ;
        to_canvas(&resize(&self.image, width, height))
    }
}

/// A picture scaled to this size, as a canvas.
pub open spec fn scaled(picture: Raster, width: u32, height: u32) -> CanvasView {
    CanvasView { width, height, rgba: rgba_bytes(resized(picture, width, height)) }
}

/// Half of the length, rounded towards zero.
pub open spec fn half(length: int) -> int {
    if length >= 0 {
        length / 2
    } else {
        -(-length / 2)
    }
}

/// Where a picture of this length begins that is centred on a screen: negative where the
/// picture is longer than the screen.
pub fn centred(screen: u32, length: u32) -> (start: i64)
    ensures
        start == half(screen - length),
{
    if screen >= length {
        ((screen - length) / 2) as i64
    } else {
        -(((length - screen) / 2) as i64)
    }
}

/// A picture laid over the middle of an empty screen.
pub open spec fn filled(picture: CanvasView, width: u32, height: u32) -> CanvasView {
    overlaid(
        empty_canvas(width, height),
        picture,
        half(width - picture.width),
        half(height - picture.height),
    )
}

/// Lays a picture over the middle of an empty screen.
pub fn fill_screen(picture: Canvas, width: u32, height: u32) -> (canvas: Canvas)
    requires
        4 * (width * height) <= isize::MAX,
        4 * width <= usize::MAX,
    ensures
        canvas@ == filled(picture@, width, height),
{
    let screen = Canvas::empty(width, height);
    let x: i64 = centred(width, picture.width);
    let y: i64 = centred(height, picture.height);
    proof {
        use_type_invariant(&screen);
        use_type_invariant(&picture);
    }
    overlay(screen, picture, x, y)
}

/// The quality with which the wallpaper is encoded, of 100.
pub const JPEG_QUALITY: u8 = 95;

/// What the result of encoding says.
pub open spec fn file_result(outcome: Result<Vec<u8>, String>) -> Result<Seq<u8>, Seq<char>> {
    match outcome {
        Ok(file) => Ok(file@),
        Err(text) => Err(text@),
    }
}

/// Encodes a canvas as a JPEG file, or says why it cannot: a side is longer than the format
/// allows.
pub fn encode_wallpaper(canvas: Canvas) -> (outcome: Result<Vec<u8>, String>)
    ensures
        file_result(outcome) == jpeg(canvas@, JPEG_QUALITY),
        file_result(outcome) == jpeg(canvas@, 95),
        outcome is Ok <==> (canvas@.width <= 65535 && canvas@.height <= 65535),
{
    proof {
        use_type_invariant(&canvas);
    }
    encode(canvas, JPEG_QUALITY)
}

/// A picture is centred: what it leaves free, or what is cut off, differs by a pixel at most
/// between the two sides.
pub proof fn law_picture_is_centred(screen: u32, length: u32)
    ensures
        ({
            let before = half(screen - length);
            let after = screen - length - before;
            &&& -1 <= before - after <= 1
            &&& screen >= length ==> 0 <= before && 0 <= after
            &&& screen <= length ==> before <= 0 && after <= 0
        }),
{
}

/// A pixel's samples lie within the canvas, and their places give back its column and row.
proof fn lemma_places(width: u32, height: u32, column: int, row: int)
    requires
        0 <= column < width,
        0 <= row < height,
    ensures
        0 <= row * width + column < width * height,
        (row * width + column) % (width as int) == column,
        (row * width + column) / (width as int) == row,
{
    assert(0 <= row * width + column < width * height) by (nonlinear_arith)
        requires
            0 <= column < width,
            0 <= row < height,
    ;
    vstd::arithmetic::div_mod::lemma_fundamental_div_mod_converse(
        row * width + column,
        width as int,
        row,
        column,
    );
}

/// An opaque pixel of the top replaces the one below it.
pub proof fn law_opaque_pixel_covers(
    bottom: CanvasView,
    top: CanvasView,
    x: int,
    y: int,
    column: int,
    row: int,
)
    requires
        bottom.well_formed(),
        top.well_formed(),
        0 <= column < bottom.width,
        0 <= row < bottom.height,
        0 <= column - x < top.width,
        0 <= row - y < top.height,
        top.pixel(column - x, row - y)[3] == 255,
    ensures
        overlaid(bottom, top, x, y).pixel(column, row) == top.pixel(column - x, row - y),
{
    lemma_places(bottom.width, bottom.height, column, row);
    lemma_places(top.width, top.height, column - x, row - y);
    let first = 4 * (row * bottom.width + column);
    let canvas = overlaid(bottom, top, x, y);
    assert forall|k: int| 0 <= k < 4 implies canvas.pixel(column, row)[k] == top.pixel(
        column - x,
        row - y,
    )[k] by {
        assert((first + k) / 4 == row * bottom.width + column);
        assert((first + k) % 4 == k);
        assert(canvas.rgba[first + k] == overlaid_pixel(bottom, top, x, y, column, row)[k]);
    }
}

/// A pixel that the top does not reach stays as it is.
pub proof fn law_uncovered_pixel_stays(
    bottom: CanvasView,
    top: CanvasView,
    x: int,
    y: int,
    column: int,
    row: int,
)
    requires
        bottom.well_formed(),
        0 <= column < bottom.width,
        0 <= row < bottom.height,
        !(0 <= column - x < top.width && 0 <= row - y < top.height),
    ensures
        overlaid(bottom, top, x, y).pixel(column, row) == bottom.pixel(column, row),
{
    lemma_places(bottom.width, bottom.height, column, row);
    let first = 4 * (row * bottom.width + column);
    let canvas = overlaid(bottom, top, x, y);
    assert forall|k: int| 0 <= k < 4 implies canvas.pixel(column, row)[k] == bottom.pixel(
        column,
        row,
    )[k] by {
        assert((first + k) / 4 == row * bottom.width + column);
        assert((first + k) % 4 == k);
        assert(canvas.rgba[first + k] == overlaid_pixel(bottom, top, x, y, column, row)[k]);
    }
}

/// A picture without transparency that is at least as wide and as high as the screen fills it:
/// every pixel of the screen is one of the picture's, and the middle of the picture is what is
/// seen.
pub proof fn law_large_picture_fills_the_screen(
    picture: CanvasView,
    width: u32,
    height: u32,
    column: int,
    row: int,
)
    requires
        picture.well_formed(),
        picture.width >= width,
        picture.height >= height,
        0 <= column < width,
        0 <= row < height,
        forall|c: int, r: int|
            0 <= c < picture.width && 0 <= r < picture.height ==> (#[trigger] picture.pixel(
                c,
                r,
            ))[3] == 255,
    ensures
        filled(picture, width, height).pixel(column, row) == picture.pixel(
            column + (picture.width - width) / 2,
            row + (picture.height - height) / 2,
        ),
{
    let x = half(width - picture.width);
    let y = half(height - picture.height);
    assert(0 <= width * height) by (nonlinear_arith)
        requires
            0 <= width,
            0 <= height,
    ;
    assert(empty_canvas(width, height).well_formed());
    law_opaque_pixel_covers(empty_canvas(width, height), picture, x, y, column, row);
}

/// A pixel is the four samples that stand behind those of the rows above it and of the pixels to
/// its left.
pub proof fn law_pixels_stand_row_by_row(canvas: CanvasView, column: int, row: int, k: int)
    requires
        canvas.rgba.len() == 4 * (canvas.width * canvas.height),
        0 <= column < canvas.width,
        0 <= row < canvas.height,
        0 <= k < 4,
    ensures
        canvas.pixel(column, row).len() == 4,
        canvas.pixel(column, row)[k] == canvas.rgba[4 * (row * canvas.width + column) + k],
{
    lemma_places(canvas.width, canvas.height, column, row);
}

/// An empty canvas has its size, and every pixel of it is black and transparent.
pub proof fn law_empty_canvas_is_transparent(width: u32, height: u32, k: int)
    ensures
        empty_canvas(width, height).width == width,
        empty_canvas(width, height).height == height,
        empty_canvas(width, height).rgba.len() == 4 * (width * height),
        0 <= k < 4 * (width * height) ==> empty_canvas(width, height).rgba[k] == 0,
{
    assert(0 <= width * height) by (nonlinear_arith)
        requires
            0 <= width,
            0 <= height,
    ;
}

/// Half of a length is rounded towards zero: twice the half is the length, or nearer to zero by one.
pub proof fn law_half_is_rounded_towards_zero(length: int)
    ensures
        length >= 0 ==> length - 1 <= 2 * half(length) <= length,
        length <= 0 ==> length <= 2 * half(length) <= length + 1,
{
}

/// The samples of a pixel of an overlay.
proof fn lemma_overlaid_pixel(
    bottom: CanvasView,
    top: CanvasView,
    x: int,
    y: int,
    column: int,
    row: int,
    k: int,
)
    requires
        bottom.well_formed(),
        0 <= column < bottom.width,
        0 <= row < bottom.height,
        0 <= k < 4,
    ensures
        overlaid(bottom, top, x, y).pixel(column, row).len() == 4,
        overlaid(bottom, top, x, y).pixel(column, row)[k] == overlaid_pixel(
            bottom,
            top,
            x,
            y,
            column,
            row,
        )[k],
{
    lemma_places(bottom.width, bottom.height, column, row);
    let first = 4 * (row * bottom.width + column);
    let canvas = overlaid(bottom, top, x, y);
    assert((first + k) / 4 == row * bottom.width + column);
    assert((first + k) % 4 == k);
    assert(canvas.rgba[first + k] == overlaid_pixel(bottom, top, x, y, column, row)[k]);
}

/// The screen shows the middle of the picture, whatever the size of either: each pixel of the
/// screen is that of the picture which stands as much further from the left and the top as half of
/// what the picture sticks out, or as much nearer as half of what it leaves free. Where that is
/// opaque it is seen; where it is transparent, or there is none, the screen is black and
/// transparent; and a translucent one is blended with that.
pub proof fn law_screen_shows_the_middle_of_the_picture(
    picture: CanvasView,
    width: u32,
    height: u32,
    column: int,
    row: int,
    k: int,
)
    requires
        picture.well_formed(),
        4 * width <= usize::MAX,
        0 <= column < width,
        0 <= row < height,
        0 <= k < 4,
    ensures
        ({
            let screen = filled(picture, width, height);
            let left = if picture.width >= width {
                (picture.width - width) / 2
            } else {
                -((width - picture.width) / 2)
            };
            let above = if picture.height >= height {
                (picture.height - height) / 2
            } else {
                -((height - picture.height) / 2)
            };
            let c = column + left;
            let r = row + above;
            let seen = picture.pixel(c, r);
            let clear = seq![0u8, 0u8, 0u8, 0u8];
            &&& screen.width == width
            &&& screen.height == height
            &&& screen.rgba.len() == 4 * (width * height)
            &&& screen.pixel(column, row)[k] == if !(0 <= c < picture.width && 0 <= r
                < picture.height) || seen[3] == 0 {
                0
            } else if seen[3] == 255 {
                seen[k]
            } else {
                blended(clear, seen)[k]
            }
        }),
{
    let bottom = empty_canvas(width, height);
    let x = half(width - picture.width);
    let y = half(height - picture.height);
    law_empty_canvas_is_transparent(width, height, 0);
    lemma_overlaid_pixel(bottom, picture, x, y, column, row, k);
    lemma_places(width, height, column, row);
    assert(bottom.pixel(column, row) == seq![0u8, 0u8, 0u8, 0u8]);
}

/// A scaled picture has the size that was asked for, and the samples that the picture has once it
/// is resized to it.
pub proof fn law_scaled_picture_has_its_size(picture: Raster, width: u32, height: u32)
    ensures
        scaled(picture, width, height).width == width,
        scaled(picture, width, height).height == height,
        scaled(picture, width, height).rgba == rgba_bytes(resized(picture, width, height)),
{
}

/// What decoding gave is accepted as it is, except that a picture with a side of no length is
/// refused.
pub proof fn law_only_empty_pictures_are_refused(picture: Raster, text: Seq<char>)
    ensures
        picture.width > 0 && picture.height > 0 ==> accepted(Ok(picture)) == Ok::<
            Raster,
            PictureErrorView,
        >(picture),
        picture.width == 0 || picture.height == 0 ==> accepted(Ok(picture)) == Err::<
            Raster,
            PictureErrorView,
        >(PictureErrorView::Empty),
        accepted(Err(text)) == Err::<Raster, PictureErrorView>(PictureErrorView::Undecodable(text)),
{
}

/// What becomes of a file that is decoded here is what the decoder made of it: a picture that is
/// not empty, or its error. Whatever else the file may decode to is a picture of the same size, or
/// the same error.
pub proof fn law_opened_file_is_as_decoded(
    data: Seq<u8>,
    outcome: Result<Raster, PictureErrorView>,
    other: Result<Raster, Seq<char>>,
)
    requires
        of_plain_file(data, outcome),
    ensures
        match outcome {
            Ok(picture) => {
                &&& may_decode_to(data, Ok(picture))
                &&& picture.width > 0 && picture.height > 0
                &&& may_decode_to(data, other) ==> other is Ok && other->Ok_0.width == picture.width
                    && other->Ok_0.height == picture.height
            },
            Err(PictureErrorView::Undecodable(text)) => {
                &&& may_decode_to(data, Err(text))
                &&& may_decode_to(data, other) ==> other == Err::<Raster, Seq<char>>(text)
            },
            Err(PictureErrorView::Empty) => false,
        },
{
}

/// The results of decoding and of encoding say what they hold.
pub proof fn law_results_say_what_they_hold(
    image: image::DynamicImage,
    picture: Picture,
    error: PictureError,
    file: Vec<u8>,
    text: String,
)
    ensures
        decoding_of(Ok(image)) == Ok::<Raster, Seq<char>>(raster(image)),
        decoding_of(Err(text)) == Err::<Raster, Seq<char>>(text@),
        picture_result(Ok(picture)) == Ok::<Raster, PictureErrorView>(picture@),
        picture_result(Err(error)) == Err::<Raster, PictureErrorView>(error@),
        PictureError::Empty@ == PictureErrorView::Empty,
        PictureError::Undecodable(text)@ == PictureErrorView::Undecodable(text@),
        file_result(Ok(file)) == Ok::<Seq<u8>, Seq<char>>(file@),
        file_result(Err(text)) == Err::<Seq<u8>, Seq<char>>(text@),
{
}

/// A JPEG file is decoded here unless one of its markers announces a lossless frame, or a frame of
/// which the first byte of a side is 255.
pub proof fn law_which_jpeg_files_are_plain(data: Seq<u8>)
    ensures
        plain_jpeg(data) <==> data.len() >= 3 && data[0] == 0xff && data[1] == 0xd8 && data[2] == 0xff && forall|
            at: int,
        |
            #![trigger data[at]]
            0 <= at < data.len() - 1 && data[at] == 0xff ==> {
                &&& data[at + 1] != 0xc3
                &&& data[at + 1] == 0xc0 || data[at + 1] == 0xc1 || data[at + 1] == 0xc2 ==> at + 8
                    >= data.len() || (data[at + 5] < 0xff && data[at + 7] < 0xff)
            },
        plain_jpeg(data) ==> plain_file(data),
{
    if data.len() >= 3 && data[0] == 0xff && data[1] == 0xd8 && data[2] == 0xff && forall|at: int|
        #![trigger data[at]]
        0 <= at < data.len() - 1 && data[at] == 0xff ==> {
            &&& data[at + 1] != 0xc3
            &&& data[at + 1] == 0xc0 || data[at + 1] == 0xc1 || data[at + 1] == 0xc2 ==> at + 8
                >= data.len() || (data[at + 5] < 0xff && data[at + 7] < 0xff)
        } {
        assert forall|at: int| 0 <= at < data.len() - 1 implies #[trigger] plain_marker(
            data,
            at,
        ) by {
            assert(data[at] == data[at]);
        }
    }
    if plain_jpeg(data) {
        assert forall|at: int|
            #![trigger data[at]]
            0 <= at < data.len() - 1 && data[at] == 0xff implies {
            &&& data[at + 1] != 0xc3
            &&& data[at + 1] == 0xc0 || data[at + 1] == 0xc1 || data[at + 1] == 0xc2 ==> at + 8
                >= data.len() || (data[at + 5] < 0xff && data[at + 7] < 0xff)
        } by {
            assert(plain_marker(data, at));
        }
    }
}

/// A PNG file is decoded here if it is no longer than 64 MiB, its first chunk begins right behind
/// the signature and gives two sides of 16 bits, eight bits to a sample, colour without a palette
/// and no interlacing, four samples to each pixel can be counted in 32 bits, and none of the names
/// `tRNS`, `iCCP`, `acTL` and `fcTL` occurs in it.
pub proof fn law_which_png_files_are_plain(data: Seq<u8>)
    ensures
        plain_png(data) <==> {
            let start = seq![
                137u8, 80, 78, 71, 13, 10, 26, 10, 0, 0, 0, 13, 73, 72, 68, 82, 0, 0,
            ];
            &&& 29 <= data.len() <= 64 * 1024 * 1024
            &&& data.take(18) == start
            &&& data[20] == 0 && data[21] == 0 && data[24] == 8 && data[28] == 0
            &&& data[25] == 2 || data[25] == 6
            &&& 4 * ((256 * data[18] + data[19]) * (256 * data[22] + data[23])) <= 0xffff_ffff
            &&& forall|at: int|
                #![trigger data[at]]
                0 <= at < data.len() - 3 ==> {
                    let name = data.subrange(at, at + 4);
                    &&& name != seq![116u8, 82, 78, 83]
                    &&& name != seq![105u8, 67, 67, 80]
                    &&& name != seq![97u8, 99, 84, 76]
                    &&& name != seq![102u8, 99, 84, 76]
                }
        },
        plain_png(data) ==> plain_file(data),
        plain_file(data) ==> plain_png(data) || plain_jpeg(data),
{
    let start = seq![137u8, 80, 78, 71, 13, 10, 26, 10, 0, 0, 0, 13, 73, 72, 68, 82, 0, 0];
    if data.len() >= 29 {
        assert(start.take(16) == png_start());
        assert(data.take(18).take(16) == data.take(16));
        if data.take(18) == start {
            assert(data.take(18)[16] == data[16] && data.take(18)[17] == data[17]);
        }
        if data.take(16) == png_start() && data[16] == 0 && data[17] == 0 {
            assert(data.take(18) == data.take(16).push(data[16]).push(data[17]));
            assert(start == png_start().push(0).push(0));
        }
    }
    assert forall|at: int| 0 <= at < data.len() - 3 implies (#[trigger] plain_chunk(data, at) <==> {
        let name = data.subrange(at, at + 4);
        &&& name != seq![116u8, 82, 78, 83]
        &&& name != seq![105u8, 67, 67, 80]
        &&& name != seq![97u8, 99, 84, 76]
        &&& name != seq![102u8, 99, 84, 76]
    }) by {
        let name = data.subrange(at, at + 4);
        assert(name == seq![data[at], data[at + 1], data[at + 2], data[at + 3]]);
        lemma_four_bytes(name, seq![116u8, 82, 78, 83]);
        lemma_four_bytes(name, seq![105u8, 67, 67, 80]);
        lemma_four_bytes(name, seq![97u8, 99, 84, 76]);
        lemma_four_bytes(name, seq![102u8, 99, 84, 76]);
    }
    if forall|at: int| 0 <= at < data.len() - 3 ==> #[trigger] plain_chunk(data, at) {
        assert forall|at: int| #![trigger data[at]] 0 <= at < data.len() - 3 implies {
            let name = data.subrange(at, at + 4);
            &&& name != seq![116u8, 82, 78, 83]
            &&& name != seq![105u8, 67, 67, 80]
            &&& name != seq![97u8, 99, 84, 76]
            &&& name != seq![102u8, 99, 84, 76]
        } by {
            assert(plain_chunk(data, at));
        }
    } else {
        let at = choose|at: int| 0 <= at < data.len() - 3 && !#[trigger] plain_chunk(data, at);
        assert(data[at] == data[at]);
    }
}

/// Four bytes are the same as four others where each is.
proof fn lemma_four_bytes(left: Seq<u8>, right: Seq<u8>)
    requires
        left.len() == 4,
        right.len() == 4,
    ensures
        left == right <==> left[0] == right[0] && left[1] == right[1] && left[2] == right[2]
            && left[3] == right[3],
{
    if left[0] == right[0] && left[1] == right[1] && left[2] == right[2] && left[3] == right[3] {
        assert(left == right);
    }
}

/// A picture with integer samples is scaled here to any size, if no side, before or after, is
/// longer than 2097152 pixels, and sixteen bytes for each pixel on the way can be allocated.
pub proof fn law_which_pictures_are_scaled(picture: Raster, width: u32, height: u32)
    requires
        picture.width > 0,
        picture.height > 0,
    ensures
        can_resize(picture, width, height) <==> {
            &&& !picture.float_samples
            &&& picture.width <= 2097152 && picture.height <= 2097152
            &&& width <= 2097152 && height <= 2097152
            &&& 16 * (picture.width * height) <= isize::MAX
            &&& 16 * (width * height) <= isize::MAX
        },
{
}

} // verus!
