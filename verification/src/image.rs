//! Notification images: raw pixels and PNG files as RGBA pictures.

use crate::text::{characters, opt_text, text_between};
use damascene_core::image::Image;
use vstd::arithmetic::div_mod::lemma_fundamental_div_mod_converse;
use vstd::prelude::*;

verus! {

/// The image of `damascene_core`, which the daemon hands on to the toolkit.
#[verifier::external_type_specification]
#[verifier::external_body]
pub struct ExImage(Image);

/// The bytes that an image holds: four for each pixel, row by row from the top left.
pub uninterp spec fn image_pixels(image: Image) -> Seq<u8>;

/// The width and the height that an image was made with.
pub uninterp spec fn image_size(image: Image) -> (u32, u32);

/// What an image shows.
pub struct Picture {
    pub width: u32,
    pub height: u32,
    pub pixels: Seq<u8>,
}

/// What `image` shows.
pub open spec fn picture(image: Image) -> Picture {
    Picture { width: image_size(image).0, height: image_size(image).1, pixels: image_pixels(image) }
}

/// What an optional image shows.
pub open spec fn opt_picture(image: Option<Image>) -> Option<Picture> {
    match image {
        Some(image) => Some(picture(image)),
        None => None,
    }
}

/// `Image::from_rgba8` of `damascene_core`: it makes an image of the given size that holds the
/// given bytes. It panics unless there are four bytes for each pixel.
#[verifier::external_body]
fn image_from_rgba8(width: u32, height: u32, pixels: Vec<u8>) -> (image: Image)
    requires
        pixels@.len() == width * height * 4,
    ensures
        image_size(image) == (width, height),
        image_pixels(image) == pixels@,
{
    Image::from_rgba8(width, height, pixels)
}

/// The bytes of a pixel in the raw data, for the layouts that are understood: RGB and RGBA.
pub open spec fn bytes_per_pixel(channels: int, has_alpha: bool) -> Option<int> {
    if channels == 3 && !has_alpha {
        Some(3)
    } else if channels == 4 && has_alpha {
        Some(4)
    } else {
        None
    }
}

/// Byte `i` of the RGBA picture of raw data: `width` pixels a row, rows `stride` bytes apart,
/// `bytes` bytes a pixel. A pixel without an alpha byte is opaque.
pub open spec fn rgba_byte(width: int, stride: int, bytes: int, data: Seq<u8>, i: int) -> u8 {
    let x = (i / 4) % width;
    let y = (i / 4) / width;
    if bytes == 3 && i % 4 == 3 {
        0xff
    } else {
        data[y * stride + x * bytes + i % 4]
    }
}

/// The picture of raw data, as the hint gives it; `None` where the layout is not understood or
/// the data is too short for it.
pub open spec fn raw_picture(
    width: i32,
    height: i32,
    rowstride: i32,
    has_alpha: bool,
    bits_per_sample: i32,
    channels: i32,
    data: Seq<u8>,
) -> Option<Picture> {
    match bytes_per_pixel(channels as int, has_alpha) {
        Some(bytes) => if width > 0 && height > 0 && rowstride > 0 && bits_per_sample == 8
            && rowstride >= width * bytes && data.len() >= rowstride * (height - 1) + width
            * bytes {
            Some(
                Picture {
                    width: width as u32,
                    height: height as u32,
                    pixels: Seq::new(
                        (width * height * 4) as nat,
                        |i: int| rgba_byte(width as int, rowstride as int, bytes, data, i),
                    ),
                },
            )
        } else {
            None
        },
        None => None,
    }
}

/// Where the pixel in column `x` of row `y` lies in the raw data.
proof fn lemma_pixel_in_data(w: int, h: int, stride: int, bytes: int, len: int, x: int, y: int)
    requires
        0 <= x < w,
        0 <= y < h,
        3 <= bytes <= 4,
        stride >= w * bytes,
        len >= stride * (h - 1) + w * bytes,
    ensures
        0 <= y * stride,
        0 <= x * bytes,
        0 <= y * stride + x * bytes,
        y * stride + x * bytes + bytes <= len,
{
    assert(y * stride <= stride * (h - 1)) by (nonlinear_arith)
        requires
            0 <= y <= h - 1,
            stride >= 0,
    ;
    assert(x * bytes + bytes <= w * bytes) by (nonlinear_arith)
        requires
            0 <= x <= w - 1,
            bytes >= 0,
    ;
    assert(0 <= y * stride) by (nonlinear_arith)
        requires
            0 <= y,
            stride >= 0,
    ;
    assert(0 <= x * bytes) by (nonlinear_arith)
        requires
            0 <= x,
            bytes >= 0,
    ;
}

/// Which pixel the four bytes behind the first `x` pixels of row `y` belong to.
proof fn lemma_rgba_byte(w: int, stride: int, bytes: int, data: Seq<u8>, x: int, y: int, c: int)
    requires
        0 <= x < w,
        0 <= y,
        0 <= c < 4,
    ensures
        rgba_byte(w, stride, bytes, data, 4 * (y * w + x) + c) == (if bytes == 3 && c == 3 {
            0xffu8
        } else {
            data[y * stride + x * bytes + c]
        }),
{
    let p = y * w + x;
    let i = 4 * p + c;
    assert(i / 4 == p && i % 4 == c);
    lemma_fundamental_div_mod_converse(p, w, y, x);
}

/// Converts the `image-data` hint structure (raw pixels) to an RGBA image. `None` for layouts
/// that are not understood (16 bits a sample, palettes and the like).
pub fn image_from_data(
    width: i32,
    height: i32,
    rowstride: i32,
    has_alpha: bool,
    bits_per_sample: i32,
    channels: i32,
    data: &[u8],
) -> (image: Option<Image>)
    ensures
        opt_picture(image) == raw_picture(
            width,
            height,
            rowstride,
            has_alpha,
            bits_per_sample,
            channels,
            data@,
        ),
{
    if width <= 0 || height <= 0 || rowstride <= 0 || bits_per_sample != 8 {
        return None;
    }
    let bytes: usize = if channels == 3 && !has_alpha {
        3
    } else if channels == 4 && has_alpha {
        4
    } else {
        return None;
    };
    let len: usize = data.len();
    let row: u64 = width as u64 * bytes as u64;
    assert(rowstride * (height - 1) <= 0x7fff_ffff * 0x7fff_ffff) by (nonlinear_arith)
        requires
            0 < rowstride <= 0x7fff_ffff,
            0 < height <= 0x7fff_ffff,
    ;
    assert(0 <= rowstride * (height - 1)) by (nonlinear_arith)
        requires
            0 < rowstride,
            0 < height,
    ;
    if (rowstride as u64) < row || (len as u64) < rowstride as u64 * (height as u64 - 1)
        + row {
        return None;
    }
    let w: usize = width as usize;
    let h: usize = height as usize;
    let stride: usize = rowstride as usize;
    let mut rgba: Vec<u8> = Vec::new();
    let mut y: usize = 0;
    while y < h
        invariant
            0 < w == width,
            h == height,
            stride == rowstride,
            bytes == 3 || bytes == 4,
            stride >= w * bytes,
            len == data@.len(),
            len >= stride * (h - 1) + w * bytes,
            y <= h,
            rgba@.len() == 4 * (y * w),
            forall|i: int|
                0 <= i < rgba@.len() ==> rgba@[i] == rgba_byte(
                    w as int,
                    stride as int,
                    bytes as int,
                    data@,
                    i,
                ),
        decreases h - y,
    {
        let mut x: usize = 0;
        while x < w
            invariant
                0 < w,
                bytes == 3 || bytes == 4,
                stride >= w * bytes,
                len == data@.len(),
                len >= stride * (h - 1) + w * bytes,
                y < h,
                x <= w,
                rgba@.len() == 4 * (y * w + x),
                forall|i: int|
                    0 <= i < rgba@.len() ==> rgba@[i] == rgba_byte(
                        w as int,
                        stride as int,
                        bytes as int,
                        data@,
                        i,
                    ),
            decreases w - x,
        {
            proof {
                lemma_pixel_in_data(
                    w as int,
                    h as int,
                    stride as int,
                    bytes as int,
                    len as int,
                    x as int,
                    y as int,
                );
                let (wi, si, bi) = (w as int, stride as int, bytes as int);
                lemma_rgba_byte(wi, si, bi, data@, x as int, y as int, 0);
                lemma_rgba_byte(wi, si, bi, data@, x as int, y as int, 1);
                lemma_rgba_byte(wi, si, bi, data@, x as int, y as int, 2);
                lemma_rgba_byte(wi, si, bi, data@, x as int, y as int, 3);
            }
            let at: usize = y * stride + x * bytes;
            rgba.push(data[at]);
            rgba.push(data[at + 1]);
            rgba.push(data[at + 2]);
            rgba.push(
                if bytes == 4 {
                    data[at + 3]
                } else {
                    0xff
                },
            );
            x = x + 1;
        }
        assert((y + 1) * w == y * w + w) by (nonlinear_arith);
        y = y + 1;
    }
    assert(h * w == width * height) by (nonlinear_arith)
        requires
            h == height,
            w == width,
    ;
    let image = image_from_rgba8(width as u32, height as u32, rgba);
    proof {
        let expected = raw_picture(
            width,
            height,
            rowstride,
            has_alpha,
            bits_per_sample,
            channels,
            data@,
        );
        assert(image_pixels(image) =~= expected->0.pixels);
    }
    Some(image)
}

/// The picture of raw data keeps the pixel in each column of each row: its red, green and blue
/// bytes, and its alpha byte where it has one; otherwise it is opaque.
pub proof fn law_raw_pixels_are_kept(
    width: i32,
    height: i32,
    rowstride: i32,
    has_alpha: bool,
    bits_per_sample: i32,
    channels: i32,
    data: Seq<u8>,
    x: int,
    y: int,
    c: int,
)
    requires
        raw_picture(width, height, rowstride, has_alpha, bits_per_sample, channels, data) is Some,
        0 <= x < width,
        0 <= y < height,
        0 <= c < 4,
    ensures
        ({
            let shown = raw_picture(
                width,
                height,
                rowstride,
                has_alpha,
                bits_per_sample,
                channels,
                data,
            )->0;
            &&& shown.width == width && shown.height == height
            &&& shown.pixels.len() == width * height * 4
            &&& shown.pixels[4 * (y * width + x) + c] == (if c == 3 && !has_alpha {
                0xffu8
            } else {
                data[y * rowstride + x * channels + c]
            })
        }),
{
    lemma_rgba_byte(width as int, rowstride as int, channels as int, data, x, y, c);
    assert(0 <= y * width + x < width * height) by (nonlinear_arith)
        requires
            0 <= x < width,
            0 <= y < height,
    ;
    assert(0 <= 4 * (y * width + x) + c < width * height * 4);
}

/// The first frame of a PNG file, as the decoder hands it out.
pub struct PngFrame {
    pub width: u32,
    pub height: u32,
    /// The colour type of the PNG header: 2 for RGB, 6 for RGBA.
    pub color_type: u8,
    /// Bits per sample.
    pub bit_depth: u8,
    /// The bytes of the buffer that belong to the frame.
    pub buffer_size: usize,
    pub buffer: Vec<u8>,
}

/// What a frame holds.
pub struct PngFrameView {
    pub width: u32,
    pub height: u32,
    pub color_type: u8,
    pub bit_depth: u8,
    pub buffer_size: usize,
    pub buffer: Seq<u8>,
}

impl View for PngFrame {
    type V = PngFrameView;

    open spec fn view(&self) -> PngFrameView {
        PngFrameView {
            width: self.width,
            height: self.height,
            color_type: self.color_type,
            bit_depth: self.bit_depth,
            buffer_size: self.buffer_size,
            buffer: self.buffer@,
        }
    }
}

/// What an optional frame holds.
pub open spec fn opt_frame(frame: Option<PngFrame>) -> Option<PngFrameView> {
    match frame {
        Some(frame) => Some(frame@),
        None => None,
    }
}

impl PngFrameView {
    /// Whether the frame has three bytes for each pixel: red, green and blue.
    pub open spec fn is_rgb8(self) -> bool {
        self.color_type == 2 && self.bit_depth == 8
    }

    /// Whether the frame has four bytes for each pixel: red, green, blue and alpha.
    pub open spec fn is_rgba8(self) -> bool {
        self.color_type == 6 && self.bit_depth == 8
    }

    /// Whether the buffer has the bytes that the size and the colour type of the frame ask for.
    pub open spec fn is_complete(self) -> bool {
        &&& self.buffer_size <= self.buffer.len()
        &&& self.is_rgb8() ==> self.buffer_size == self.width * self.height * 3
        &&& self.is_rgba8() ==> self.buffer_size == self.width * self.height * 4
    }

    /// The picture of the frame; `None` for colour types other than RGB and RGBA with eight bits
    /// a sample. A pixel without an alpha byte is opaque.
    pub open spec fn picture(self) -> Option<Picture> {
        let bytes = self.buffer.take(self.buffer_size as int);
        if self.is_rgba8() {
            Some(Picture { width: self.width, height: self.height, pixels: bytes })
        } else if self.is_rgb8() {
            Some(
                Picture { width: self.width, height: self.height, pixels: with_opaque_alpha(bytes) },
            )
        } else {
            None
        }
    }
}

/// RGB pixels with an opaque alpha byte behind each.
pub open spec fn with_opaque_alpha(rgb: Seq<u8>) -> Seq<u8> {
    Seq::new(
        rgb.len() / 3 * 4,
        |i: int|
            if i % 4 == 3 {
                0xff
            } else {
                rgb[i / 4 * 3 + i % 4]
            },
    )
}

/// The size of the buffer that the first frame of a PNG file takes, on a machine with pointers of
/// the given width; `None` where the bytes do not start a PNG file that can be decoded.
pub uninterp spec fn png_buffer_size(bytes: Seq<u8>, pointer_bits: u32) -> Option<usize>;

/// The first frame of a PNG file, decoded into a zeroed buffer of that size, on a machine with
/// pointers of the given width; `None` where decoding fails.
pub uninterp spec fn png_first_frame(bytes: Seq<u8>, pointer_bits: u32) -> Option<PngFrameView>;

/// `Decoder::read_info` and `Reader::output_buffer_size` of `png`: they read the file up to its
/// image data, with the decoder's own limits, and tell how many bytes the frame takes. Those
/// limits depend on the width of a pointer; apart from it the bytes decide alone. With pointers of
/// fewer than 64 bits the decoder may panic when it counts the frames of an animation.
#[verifier::external_body]
fn read_png_buffer_size(bytes: &[u8]) -> (size: Option<usize>)
    requires
        usize::BITS == 64,
    ensures
        size == png_buffer_size(bytes@, usize::BITS),
{
    let reader = png::Decoder::new(bytes).read_info().ok()?;
    Some(reader.output_buffer_size())
}

/// `Reader::next_frame` of `png`: it decodes the first frame into a buffer of the size that
/// `output_buffer_size` gives. The frame takes no more than the buffer holds; with eight bits a
/// sample it takes a byte for each sample of each pixel. A buffer that no allocation can be as
/// large as panics; so may, with pointers of fewer than 64 bits, the decoder's count of frames and
/// its arithmetic on the bits of interlaced ones.
#[verifier::external_body]
fn decode_png(bytes: &[u8]) -> (frame: Option<PngFrame>)
    requires
        usize::BITS == 64,
        png_buffer_size(bytes@, usize::BITS) matches Some(size) ==> size <= isize::MAX,
    ensures
        opt_frame(frame) == png_first_frame(bytes@, usize::BITS),
        frame matches Some(frame) ==> frame@.is_complete(),
{
    let mut reader = png::Decoder::new(bytes).read_info().ok()?;
    let mut buffer = vec![0; reader.output_buffer_size()];
    let info = reader.next_frame(&mut buffer).ok()?;
    Some(PngFrame {
        width: info.width,
        height: info.height,
        color_type: info.color_type as u8,
        bit_depth: info.bit_depth as u8,
        buffer_size: info.buffer_size(),
        buffer,
    })
}

/// The image of a decoded frame. `None` for colour types other than RGB and RGBA with eight bits
/// a sample.
pub fn image_from_frame(frame: PngFrame) -> (image: Option<Image>)
    requires
        frame@.is_complete(),
    ensures
        opt_picture(image) == frame@.picture(),
{
    let ghost shown = frame@;
    let mut buffer = frame.buffer;
    buffer.truncate(frame.buffer_size);
    assert(buffer@ =~= shown.buffer.take(shown.buffer_size as int));
    if frame.bit_depth == 8 && frame.color_type == 6 {
        Some(image_from_rgba8(frame.width, frame.height, buffer))
    } else if frame.bit_depth == 8 && frame.color_type == 2 {
        let rgba = add_opaque_alpha(&buffer);
        assert(frame.width * frame.height * 3 / 3 == frame.width * frame.height);
        Some(image_from_rgba8(frame.width, frame.height, rgba))
    } else {
        None
    }
}

/// Puts an opaque alpha byte behind each RGB pixel.
fn add_opaque_alpha(rgb: &Vec<u8>) -> (rgba: Vec<u8>)
    ensures
        rgba@ == with_opaque_alpha(rgb@),
{
    let mut rgba: Vec<u8> = Vec::new();
    let mut at: usize = 0;
    while rgb.len() - at >= 3
        invariant
            at <= rgb@.len(),
            at % 3 == 0,
            rgba@.len() == at / 3 * 4,
            forall|i: int| 0 <= i < rgba@.len() ==> rgba@[i] == with_opaque_alpha(rgb@)[i],
        decreases rgb@.len() - at,
    {
        rgba.push(rgb[at]);
        rgba.push(rgb[at + 1]);
        rgba.push(rgb[at + 2]);
        rgba.push(0xff);
        at = at + 3;
    }
    assert(rgba@ =~= with_opaque_alpha(rgb@));
    rgba
}

/// The picture of a PNG file.
pub open spec fn png_picture(bytes: Seq<u8>) -> Option<Picture> {
    match png_first_frame(bytes, usize::BITS) {
        Some(frame) => frame.picture(),
        None => None,
    }
}

/// Whether the buffer that a PNG file asks for can be allocated at all.
pub open spec fn png_fits_memory(bytes: Seq<u8>) -> bool {
    png_buffer_size(bytes, usize::BITS) matches Some(size) ==> size <= isize::MAX
}

/// Decodes a PNG file to an RGBA image. `None` for a file that cannot be decoded and for colour
/// types other than RGB and RGBA with eight bits a sample. The decoder is safe to use only where a
/// pointer has 64 bits.
pub fn image_from_png(bytes: &[u8]) -> (image: Option<Image>)
    requires
        usize::BITS == 64,
        png_fits_memory(bytes@),
    ensures
        opt_picture(image) == png_picture(bytes@),
{
    match decode_png(bytes) {
        Some(frame) => image_from_frame(frame),
        None => None,
    }
}

/// Decodes a PNG file to an RGBA image, unless the frame asks for more bytes than any allocation
/// can have: then the error is their number. The decoder is safe to use only where a pointer has
/// 64 bits.
pub fn image_from_png_within_memory(bytes: &[u8]) -> (image: Result<Option<Image>, usize>)
    requires
        usize::BITS == 64,
    ensures
        image is Ok <==> png_fits_memory(bytes@),
        image matches Ok(image) ==> opt_picture(image) == png_picture(bytes@),
        image matches Err(size) ==> png_buffer_size(bytes@, usize::BITS) == Some(size),
{
    match read_png_buffer_size(bytes) {
        Some(size) => if size <= isize::MAX as usize {
            Ok(image_from_png(bytes))
        } else {
            Err(size)
        },
        None => Ok(image_from_png(bytes)),
    }
}

/// An icon reference without the `file://` that it may start with.
pub open spec fn icon_name(reference: Seq<char>) -> Seq<char> {
    if "file://"@.is_prefix_of(reference) {
        reference.skip("file://"@.len() as int)
    } else {
        reference
    }
}

/// The file that an icon reference names: an absolute path, or the path of a `file://` URI.
pub open spec fn icon_path(reference: Seq<char>) -> Option<Seq<char>> {
    let name = icon_name(reference);
    if name.len() > 0 && name[0] == '/' {
        Some(name)
    } else {
        None
    }
}

/// The themed icon that an icon reference names: any text but that of a file, unless it is empty.
pub open spec fn themed_name(reference: Seq<char>) -> Option<Seq<char>> {
    let name = icon_name(reference);
    if name.len() > 0 && name[0] != '/' {
        Some(name)
    } else {
        None
    }
}

/// Where the name of an icon reference starts: behind `file://`, if the reference starts with it.
fn name_start(chars: &Vec<char>) -> (from: usize)
    ensures
        from <= chars@.len(),
        chars@.skip(from as int) == icon_name(chars@),
{
    let scheme = characters("file://");
    let mut from: usize = 0;
    if scheme.len() <= chars.len() {
        while from < scheme.len() && chars[from] == scheme[from]
            invariant
                from <= scheme@.len() <= chars@.len(),
                forall|i: int| 0 <= i < from ==> chars@[i] == scheme@[i],
            decreases scheme@.len() - from,
        {
            from = from + 1;
        }
        if from < scheme.len() {
            from = 0;
        }
    }
    assert(from == (if "file://"@.is_prefix_of(chars@) {
        "file://"@.len()
    } else {
        0
    }));
    assert(chars@.skip(0) =~= chars@);
    from
}

/// The file that an icon reference (`app_icon` or the `image-path` hint) names. Absolute paths and
/// `file://` URIs name one; the names of themed icons do not.
pub fn icon_file(reference: &str) -> (path: Option<String>)
    ensures
        opt_text(path) == icon_path(reference@),
{
    let chars = characters(reference);
    let from: usize = name_start(&chars);
    let ghost name = icon_name(reference@);
    assert(name.len() == chars@.len() - from);
    if from < chars.len() && chars[from] == '/' {
        assert(name[0] == chars@[from as int]);
        assert(name =~= chars@.subrange(from as int, chars@.len() as int));
        Some(text_between(&chars, from, chars.len()))
    } else {
        None
    }
}

/// The themed icon that an icon reference names, if it names one. Themed icons are not looked up.
pub fn themed_icon(reference: &str) -> (name: Option<String>)
    ensures
        opt_text(name) == themed_name(reference@),
{
    let chars = characters(reference);
    let from: usize = name_start(&chars);
    let ghost name = icon_name(reference@);
    assert(name.len() == chars@.len() - from);
    if from < chars.len() && chars[from] != '/' {
        assert(name[0] == chars@[from as int]);
        assert(name =~= chars@.subrange(from as int, chars@.len() as int));
        Some(text_between(&chars, from, chars.len()))
    } else {
        None
    }
}

/// Every raw image that is well formed is decoded, whatever its size, and no other is: eight bits a
/// sample, RGB or RGBA, rows that hold their pixels, and data for all rows. It has the size that was
/// asked for.
pub proof fn law_well_formed_raw_images_are_decoded(
    width: i32,
    height: i32,
    rowstride: i32,
    has_alpha: bool,
    bits_per_sample: i32,
    channels: i32,
    data: Seq<u8>,
)
    ensures
        raw_picture(width, height, rowstride, has_alpha, bits_per_sample, channels, data) is Some
            <==> {
            &&& width > 0 && height > 0
            &&& bits_per_sample == 8
            &&& (channels == 3 && !has_alpha) || (channels == 4 && has_alpha)
            &&& rowstride >= width * channels
            &&& data.len() >= rowstride * (height - 1) + width * channels
        },
        raw_picture(
            width,
            height,
            rowstride,
            has_alpha,
            bits_per_sample,
            channels,
            data,
        ) matches Some(shown) ==> shown.width == width && shown.height == height,
{
}

/// What an image shows has the size and the bytes of the image.
pub proof fn law_pictures_are_those_of_images(image: Option<Image>)
    ensures
        opt_picture(image) is Some <==> image is Some,
        image matches Some(own) ==> opt_picture(image) == Some(
            Picture {
                width: image_size(own).0,
                height: image_size(own).1,
                pixels: image_pixels(own),
            },
        ),
{
}

/// A frame with eight bits a sample is shown: an RGBA frame with its bytes as they are, an RGB
/// frame with an opaque alpha byte behind the three of each pixel. No other frame is.
pub proof fn law_frames_are_shown(frame: PngFrameView, pixel: int, c: int)
    requires
        frame.buffer_size <= frame.buffer.len(),
        0 <= c < 4,
    ensures
        frame.picture() is Some <==> frame.bit_depth == 8 && (frame.color_type == 2
            || frame.color_type == 6),
        frame.picture() matches Some(shown) ==> shown.width == frame.width && shown.height
            == frame.height,
        frame.bit_depth == 8 && frame.color_type == 6 ==> frame.picture()->0.pixels
            == frame.buffer.take(frame.buffer_size as int),
        frame.bit_depth == 8 && frame.color_type == 2 ==> {
            let pixels = frame.picture()->0.pixels;
            &&& pixels.len() == frame.buffer_size / 3 * 4
            &&& 0 <= pixel < frame.buffer_size / 3 ==> pixels[4 * pixel + c] == (if c == 3 {
                0xffu8
            } else {
                frame.buffer[3 * pixel + c]
            })
        },
{
    let i = 4 * pixel + c;
    assert(i / 4 == pixel && i % 4 == c);
}

/// What a decoded frame holds is what its fields say, and it is complete if its buffer has all the
/// bytes of its pixels.
pub proof fn law_frames_hold_their_fields(frame: PngFrame)
    ensures
        frame@.width == frame.width && frame@.height == frame.height,
        frame@.color_type == frame.color_type && frame@.bit_depth == frame.bit_depth,
        frame@.buffer_size == frame.buffer_size && frame@.buffer == frame.buffer@,
        opt_frame(Some(frame)) == Some(frame@),
        opt_frame(None) is None,
        frame@.is_complete() <==> {
            &&& frame.buffer_size <= frame.buffer@.len()
            &&& frame.bit_depth == 8 && frame.color_type == 2 ==> frame.buffer_size == frame.width
                * frame.height * 3
            &&& frame.bit_depth == 8 && frame.color_type == 6 ==> frame.buffer_size == frame.width
                * frame.height * 4
        },
{
}

/// The picture of a PNG file is that of its first frame; a file without one has none. The buffer it
/// asks for is too large only beyond what an allocation can have.
pub proof fn law_png_shows_its_first_frame(bytes: Seq<u8>)
    ensures
        png_first_frame(bytes, usize::BITS) is None ==> png_picture(bytes) is None,
        png_first_frame(bytes, usize::BITS) matches Some(frame) ==> png_picture(bytes)
            == frame.picture(),
        png_buffer_size(bytes, usize::BITS) is None ==> png_fits_memory(bytes),
        png_buffer_size(bytes, usize::BITS) matches Some(size) ==> (png_fits_memory(bytes) <==> size
            <= isize::MAX),
{
}

/// An absolute path names its file, alone and behind `file://`; any other text names a themed icon,
/// alone (unless it starts with `file://`) and behind it; an empty one names neither.
pub proof fn law_icon_references(name: Seq<char>)
    ensures
        ({
            let scheme = seq!['f', 'i', 'l', 'e', ':', '/', '/'];
            &&& name.len() > 0 && name[0] == '/' ==> {
                &&& icon_path(name) == Some(name) && themed_name(name) is None
                &&& icon_path(scheme + name) == Some(name) && themed_name(scheme + name) is None
            }
            &&& name.len() > 0 && name[0] != '/' ==> {
                &&& !scheme.is_prefix_of(name) ==> icon_path(name) is None && themed_name(name)
                    == Some(name)
                &&& icon_path(scheme + name) is None && themed_name(scheme + name) == Some(name)
            }
            &&& name.len() == 0 ==> {
                &&& icon_path(name) is None && themed_name(name) is None
                &&& icon_path(scheme + name) is None && themed_name(scheme + name) is None
            }
        }),
{
    let scheme = seq!['f', 'i', 'l', 'e', ':', '/', '/'];
    reveal_strlit("file://");
    assert("file://"@ =~= scheme);
    assert(scheme[0] == 'f');
    let uri = scheme + name;
    assert(scheme.is_prefix_of(uri)) by {
        assert(uri.subrange(0, 7) =~= scheme);
    }
    assert(uri.skip(7) =~= name);
    assert(icon_name(uri) == name);
    if scheme.is_prefix_of(name) {
        assert(name[0] == scheme[0]);
    }
}

} // verus!
