//! The image embedding strategy: choose a filter from the source format,
//! split color from alpha, compress, and store one image object, or two when
//! a soft mask carries the alpha; and the placement of an image on a page.
use vstd::prelude::*;
use crate::bytes::{lit, nat_digits, push_bytes, push_lit, push_nat};
use crate::document::{DocState, Document, ObjectId, PdfError};
use crate::page::opt_ref_part;

verus! {

/// What the compressed stream of `data` at `level` is, as miniz_oxide's
/// zlib compressor produces it.
pub uninterp spec fn zlib_of(data: Seq<u8>, level: u8) -> Seq<u8>;

/// Relies on `miniz_oxide::deflate::compress_to_vec_zlib`: the zlib stream
/// of the input, which depends on the input and the level alone (levels
/// above ten act as ten).
#[verifier::external_body]
fn zlib_compress(data: &[u8], level: u8) -> (r: Vec<u8>)
    ensures
        r@ == zlib_of(data@, level),
{
    miniz_oxide::deflate::compress_to_vec_zlib(data, level)
}

/// The compression level the general-purpose filter uses by default.
pub const DEFAULT_LEVEL: u8 = 6;

/// How the samples of a decoded image are laid out, eight bits each.
#[derive(Clone, Copy, Debug, PartialEq, Eq, Structural)]
pub enum PixelLayout {
    Gray8,
    Rgb8,
    Rgba8,
}

/// The format the image was encoded in before it was decoded.
#[derive(Clone, Copy, Debug, PartialEq, Eq, Structural)]
pub enum SourceFormat {
    /// Already transform-coded: the source bytes pass through.
    Jpeg,
    /// A lossless raster: the samples are re-compressed.
    Png,
    /// Anything else: refused.
    Other,
}

#[derive(Clone, Copy, Debug, PartialEq, Eq, Structural)]
pub enum Filter {
    DctDecode,
    FlateDecode,
}

#[derive(Clone, Copy, Debug, PartialEq, Eq, Structural)]
pub enum ColorSpace {
    DeviceRgb,
    DeviceGray,
}

/// A decoded image: its size in pixels, its layout and its samples, row by
/// row.
pub struct DecodedImage {
    pub width: u32,
    pub height: u32,
    pub layout: PixelLayout,
    pub pixels: Vec<u8>,
}

pub open spec fn channels(l: PixelLayout) -> nat {
    match l {
        PixelLayout::Gray8 => 1,
        PixelLayout::Rgb8 => 3,
        PixelLayout::Rgba8 => 4,
    }
}

/// The color samples of an RGBA buffer: every byte but each fourth.
pub open spec fn color_plane(p: Seq<u8>) -> Seq<u8> {
    Seq::new((p.len() / 4) * 3, |i: int| p[(i / 3) * 4 + i % 3])
}

/// The alpha samples of an RGBA buffer: each fourth byte.
pub open spec fn alpha_plane(p: Seq<u8>) -> Seq<u8> {
    Seq::new(p.len() / 4, |i: int| p[i * 4 + 3])
}

/// Splits an RGBA buffer into its color samples and its alpha samples.
pub fn split_alpha(p: &Vec<u8>) -> (r: (Vec<u8>, Vec<u8>))
    ensures
        r.0@ == color_plane(p@),
        r.1@ == alpha_plane(p@),
{
    let len = p.len();
    let n = len / 4;
    let mut color: Vec<u8> = Vec::new();
    let mut alpha: Vec<u8> = Vec::new();
    let mut i: usize = 0;
    let mut j: usize = 0;
    while i < n
        invariant
            n == p@.len() / 4,
            i <= n,
            j == 4 * i,
            len == p@.len(),
            color@ =~= color_plane(p@).subrange(0, 3 * i as int),
            alpha@ =~= alpha_plane(p@).subrange(0, i as int),
        decreases n - i,
    {
        assert(j + 4 <= p@.len()) by (nonlinear_arith)
            requires j == 4 * i, i < n, n == p@.len() / 4;
        color.push(p[j]);
        color.push(p[j + 1]);
        color.push(p[j + 2]);
        alpha.push(p[j + 3]);
        proof {
            let c = color_plane(p@);
            assert(c[3 * i as int] == p@[4 * i as int]) by (nonlinear_arith)
                requires c == color_plane(p@), i < n, n == p@.len() / 4;
            assert(c[3 * i + 1 as int] == p@[4 * i + 1 as int]) by (nonlinear_arith)
                requires c == color_plane(p@), i < n, n == p@.len() / 4;
            assert(c[3 * i + 2 as int] == p@[4 * i + 2 as int]) by (nonlinear_arith)
                requires c == color_plane(p@), i < n, n == p@.len() / 4;
        }
        i = i + 1;
        j = j + 4;
    }
    assert(color_plane(p@).subrange(0, 3 * n as int) =~= color_plane(p@));
    assert(alpha_plane(p@).subrange(0, n as int) =~= alpha_plane(p@));
    (color, alpha)
}

pub open spec fn filter_bytes(f: Filter) -> Seq<u8> {
    match f {
        Filter::DctDecode => lit("DCTDecode"),
        Filter::FlateDecode => lit("FlateDecode"),
    }
}

pub open spec fn color_space_bytes(c: ColorSpace) -> Seq<u8> {
    match c {
        ColorSpace::DeviceRgb => lit("DeviceRGB"),
        ColorSpace::DeviceGray => lit("DeviceGray"),
    }
}

/// The body of an image object with eight bits per component.
pub open spec fn image_bytes(
    width: u32,
    height: u32,
    cs: ColorSpace,
    filter: Filter,
    data: Seq<u8>,
    s_mask: Option<ObjectId>,
) -> Seq<u8> {
    lit("<< /Type /XObject /Subtype /Image /Width ") + nat_digits(width as nat) + lit(" /Height ")
        + nat_digits(height as nat) + lit(" /ColorSpace /") + color_space_bytes(cs) + lit(
        " /BitsPerComponent 8 /Filter /",
    ) + filter_bytes(filter) + opt_ref_part(lit(" /SMask "), s_mask) + lit(" /Length ")
        + nat_digits(data.len()) + lit(" >>\nstream\n") + data + lit("\nendstream")
}

/// The body of an image object.
pub fn image_object(
    width: u32,
    height: u32,
    cs: ColorSpace,
    filter: Filter,
    data: &Vec<u8>,
    s_mask: Option<ObjectId>,
) -> (r: Vec<u8>)
    ensures
        r@ == image_bytes(width, height, cs, filter, data@, s_mask),
{
    let mut out: Vec<u8> = Vec::new();
    push_lit(&mut out, "<< /Type /XObject /Subtype /Image /Width ");
    push_nat(&mut out, width as u64);
    push_lit(&mut out, " /Height ");
    push_nat(&mut out, height as u64);
    push_lit(&mut out, " /ColorSpace /");
    match cs {
        ColorSpace::DeviceRgb => push_lit(&mut out, "DeviceRGB"),
        ColorSpace::DeviceGray => push_lit(&mut out, "DeviceGray"),
    }
    push_lit(&mut out, " /BitsPerComponent 8 /Filter /");
    match filter {
        Filter::DctDecode => push_lit(&mut out, "DCTDecode"),
        Filter::FlateDecode => push_lit(&mut out, "FlateDecode"),
    }
    let ghost before = out@;
    match s_mask {
        Some(id) => {
            push_lit(&mut out, " /SMask ");
            crate::objects::push_ref(&mut out, id);
        },
        None => {},
    }
    assert(out@ =~= before + opt_ref_part(lit(" /SMask "), s_mask));
    push_lit(&mut out, " /Length ");
    push_nat(&mut out, data.len() as u64);
    push_lit(&mut out, " >>\nstream\n");
    push_bytes(&mut out, data.as_slice());
    push_lit(&mut out, "\nendstream");
    assert(out@ =~= image_bytes(width, height, cs, filter, data@, s_mask));
    out
}

/// The encoded streams of an image: the filter both use, the color space of
/// the color stream, and the mask stream when the source had alpha.
pub struct EncodedImage {
    pub filter: Filter,
    pub color_space: ColorSpace,
    pub color: Vec<u8>,
    pub mask: Option<Vec<u8>>,
}

/// Why an image cannot be embedded, if it cannot: an unsupported format
/// first, then an empty image, then a buffer of the wrong length, then alpha
/// in a source that is passed through.
pub open spec fn encode_error(
    width: u32,
    height: u32,
    layout: PixelLayout,
    len: nat,
    format: SourceFormat,
) -> Option<PdfError> {
    if format == SourceFormat::Other {
        Some(PdfError::UnsupportedFormat)
    } else if width == 0 || height == 0 {
        Some(PdfError::EmptyImage)
    } else if len != width * height * channels(layout) {
        Some(PdfError::PixelDataMismatch)
    } else if format == SourceFormat::Jpeg && layout == PixelLayout::Rgba8 {
        Some(PdfError::UnsupportedFormat)
    } else {
        None
    }
}

pub open spec fn filter_for(format: SourceFormat) -> Filter {
    if format == SourceFormat::Jpeg {
        Filter::DctDecode
    } else {
        Filter::FlateDecode
    }
}

pub open spec fn color_space_for(layout: PixelLayout) -> ColorSpace {
    if layout == PixelLayout::Gray8 {
        ColorSpace::DeviceGray
    } else {
        ColorSpace::DeviceRgb
    }
}

/// The color stream: the source passed through for a transform-coded
/// source, else the compressed color samples.
pub open spec fn color_stream(
    layout: PixelLayout,
    pixels: Seq<u8>,
    format: SourceFormat,
    source: Seq<u8>,
    level: u8,
) -> Seq<u8> {
    if format == SourceFormat::Jpeg {
        source
    } else if layout == PixelLayout::Rgba8 {
        zlib_of(color_plane(pixels), level)
    } else {
        zlib_of(pixels, level)
    }
}

/// The mask stream: the compressed alpha samples, when there are any.
pub open spec fn mask_stream(layout: PixelLayout, pixels: Seq<u8>, level: u8) -> Option<Seq<u8>> {
    if layout == PixelLayout::Rgba8 {
        Some(zlib_of(alpha_plane(pixels), level))
    } else {
        None
    }
}

pub open spec fn opt_bytes(v: Option<Vec<u8>>) -> Option<Seq<u8>> {
    match v {
        Some(b) => Some(b@),
        None => None,
    }
}

/// Chooses the filter for the source format and encodes the color and, when
/// present, the alpha samples with it.
pub fn encode_image(img: &DecodedImage, format: SourceFormat, source: &Vec<u8>, level: u8) -> (r:
    Result<EncodedImage, PdfError>)
    ensures
        encode_error(img.width, img.height, img.layout, img.pixels@.len(), format) is Some ==> r
            == Err::<EncodedImage, PdfError>(
            encode_error(img.width, img.height, img.layout, img.pixels@.len(), format)->0,
        ),
        encode_error(img.width, img.height, img.layout, img.pixels@.len(), format) is None ==> r
            is Ok && r->Ok_0.filter == filter_for(format) && r->Ok_0.color_space
            == color_space_for(img.layout) && r->Ok_0.color@ == color_stream(
            img.layout,
            img.pixels@,
            format,
            source@,
            level,
        ) && opt_bytes(r->Ok_0.mask) == mask_stream(img.layout, img.pixels@, level),
{
    if format == SourceFormat::Other {
        return Err(PdfError::UnsupportedFormat);
    }
    if img.width == 0 || img.height == 0 {
        return Err(PdfError::EmptyImage);
    }
    let ch: u128 = match img.layout {
        PixelLayout::Gray8 => 1,
        PixelLayout::Rgb8 => 3,
        PixelLayout::Rgba8 => 4,
    };
    let w: u128 = img.width as u128;
    let h: u128 = img.height as u128;
    assert(w * h <= 0xffff_ffff_ffff_ffff) by (nonlinear_arith)
        requires
            w <= 0xffff_ffff,
            h <= 0xffff_ffff,
    ;
    let wh: u128 = w * h;
    let expected: u128 = wh * ch;
    if img.pixels.len() as u128 != expected {
        return Err(PdfError::PixelDataMismatch);
    }
    let cs = match img.layout {
        PixelLayout::Gray8 => ColorSpace::DeviceGray,
        _ => ColorSpace::DeviceRgb,
    };
    match format {
        SourceFormat::Jpeg => {
            if img.layout == PixelLayout::Rgba8 {
                return Err(PdfError::UnsupportedFormat);
            }
            Ok(EncodedImage { filter: Filter::DctDecode, color_space: cs, color: source.clone(), mask: None })
        },
        _ => {
            if img.layout == PixelLayout::Rgba8 {
                let (color, alpha) = split_alpha(&img.pixels);
                let c = zlib_compress(color.as_slice(), level);
                let m = zlib_compress(alpha.as_slice(), level);
                Ok(EncodedImage { filter: Filter::FlateDecode, color_space: cs, color: c, mask: Some(m) })
            } else {
                let c = zlib_compress(img.pixels.as_slice(), level);
                Ok(EncodedImage { filter: Filter::FlateDecode, color_space: cs, color: c, mask: None })
            }
        },
    }
}

/// Stores encoded image streams: one image object, and right after it a
/// soft-mask object with the same size and filter and the gray color space
/// when there is a mask stream. Returns the identifier of the color image.
pub fn embed_encoded(doc: &mut Document, width: u32, height: u32, enc: &EncodedImage) -> (r:
    Result<ObjectId, PdfError>)
    requires
        old(doc).wf(),
    ensures
        final(doc).wf(),
        r is Err ==> final(doc).state() == old(doc).state() && final(doc).root() == old(doc).root(),
        old(doc).state() == DocState::Finished ==> r == Err::<ObjectId, PdfError>(
            PdfError::Finished,
        ) && *final(doc) == *old(doc),
        ({
            let n = old(doc).bodies().len();
            old(doc).state() == DocState::Building && n + 3 < u32::MAX ==> r == Ok::<
                ObjectId,
                PdfError,
            >(ObjectId { num: (n + 1) as u32 }) && final(doc).root() == old(doc).root() && final(doc).state()
                == DocState::Building && match enc.mask {
                Some(m) => final(doc).references() == old(doc).references().push(
                    seq![ObjectId { num: (n + 2) as u32 }],
                ).push(Seq::<ObjectId>::empty()) && final(doc).bodies() == old(doc).bodies().push(
                    Some(
                        image_bytes(
                            width,
                            height,
                            enc.color_space,
                            enc.filter,
                            enc.color@,
                            Some(ObjectId { num: (n + 2) as u32 }),
                        ),
                    ),
                ).push(
                    Some(image_bytes(width, height, ColorSpace::DeviceGray, enc.filter, m@, None)),
                ),
                None => final(doc).references() == old(doc).references().push(
                    Seq::<ObjectId>::empty(),
                ) && final(doc).bodies() == old(doc).bodies().push(
                    Some(image_bytes(width, height, enc.color_space, enc.filter, enc.color@, None)),
                ),
            }
        }),
{
    proof {
        old(doc).lemma_lengths();
    }
    let id = match doc.allocate() {
        Ok(id) => id,
        Err(e) => {
            return Err(e);
        },
    };
    match &enc.mask {
        Some(m) => {
            let mask_id = match doc.allocate() {
                Ok(id) => id,
                Err(e) => {
                    return Err(e);
                },
            };
            let body = image_object(width, height, enc.color_space, enc.filter, &enc.color, Some(mask_id));
            match doc.insert(id, body, crate::document::refs1(mask_id)) {
                Ok(()) => {},
                Err(e) => {
                    return Err(e);
                },
            }
            let mask_body = image_object(width, height, ColorSpace::DeviceGray, enc.filter, m, None);
            match doc.insert(mask_id, mask_body, Vec::new()) {
                Ok(()) => {},
                Err(e) => {
                    return Err(e);
                },
            }
            assert(doc.bodies() =~= old(doc).bodies().push(
                Some(image_bytes(width, height, enc.color_space, enc.filter, enc.color@, Some(mask_id))),
            ).push(Some(image_bytes(width, height, ColorSpace::DeviceGray, enc.filter, m@, None))));
            assert(doc.references() =~= old(doc).references().push(seq![mask_id]).push(
                Seq::<ObjectId>::empty(),
            ));
        },
        None => {
            let body = image_object(width, height, enc.color_space, enc.filter, &enc.color, None);
            match doc.insert(id, body, Vec::new()) {
                Ok(()) => {},
                Err(e) => {
                    return Err(e);
                },
            }
            assert(doc.bodies() =~= old(doc).bodies().push(
                Some(image_bytes(width, height, enc.color_space, enc.filter, enc.color@, None)),
            ));
            assert(doc.references() =~= old(doc).references().push(Seq::<ObjectId>::empty()));
        },
    }
    Ok(id)
}

/// Embeds an image: one image object, and after it a soft-mask object with
/// the same size and filter and the gray color space when the source had
/// alpha. Returns the identifier of the color image.
pub fn embed_image(
    doc: &mut Document,
    img: &DecodedImage,
    format: SourceFormat,
    source: &Vec<u8>,
    level: u8,
) -> (r: Result<ObjectId, PdfError>)
    requires
        old(doc).wf(),
    ensures
        final(doc).wf(),
        r is Err ==> final(doc).state() == old(doc).state() && final(doc).root() == old(doc).root(),
        encode_error(img.width, img.height, img.layout, img.pixels@.len(), format) is Some ==> r
            == Err::<ObjectId, PdfError>(
            encode_error(img.width, img.height, img.layout, img.pixels@.len(), format)->0,
        ) && *final(doc) == *old(doc),
        encode_error(img.width, img.height, img.layout, img.pixels@.len(), format) is None
            && old(doc).state() == DocState::Finished ==> r == Err::<ObjectId, PdfError>(
            PdfError::Finished,
        ) && *final(doc) == *old(doc),
        ({
            let n = old(doc).bodies().len();
            let color = color_stream(img.layout, img.pixels@, format, source@, level);
            let f = filter_for(format);
            let cs = color_space_for(img.layout);
            encode_error(img.width, img.height, img.layout, img.pixels@.len(), format) is None
                && old(doc).state() == DocState::Building && n + 3 < u32::MAX ==> r
                == Ok::<ObjectId, PdfError>(ObjectId { num: (n + 1) as u32 }) && final(doc).root()
                == old(doc).root() && final(doc).state() == DocState::Building && match mask_stream(
                img.layout,
                img.pixels@,
                level,
            ) {
                Some(m) => final(doc).bodies() == old(doc).bodies().push(
                    Some(
                        image_bytes(
                            img.width,
                            img.height,
                            cs,
                            f,
                            color,
                            Some(ObjectId { num: (n + 2) as u32 }),
                        ),
                    ),
                ).push(
                    Some(
                        image_bytes(img.width, img.height, ColorSpace::DeviceGray, f, m, None),
                    ),
                ),
                None => final(doc).bodies() == old(doc).bodies().push(
                    Some(image_bytes(img.width, img.height, cs, f, color, None)),
                ),
            }
        }),
{
    let enc = match encode_image(img, format, source, level) {
        Ok(e) => e,
        Err(e) => {
            return Err(e);
        },
    };
    embed_encoded(doc, img.width, img.height, &enc)
}

/// Where and how large an image is drawn, in thousandths of a unit.
#[derive(Clone, Copy, Debug, PartialEq, Eq, Structural)]
pub struct Placement {
    pub width: i64,
    pub height: i64,
    pub x: i64,
    pub y: i64,
}

/// Why an image cannot be placed, if it cannot.
pub open spec fn placement_error(width: i64, px_w: u32, px_h: u32) -> Option<PdfError> {
    if width <= 0 {
        Some(PdfError::DegenerateRect)
    } else if px_w == 0 || px_h == 0 {
        Some(PdfError::EmptyImage)
    } else if width * px_h / (px_w as int) > i64::MAX {
        Some(PdfError::OutOfRange)
    } else {
        None
    }
}

/// Sizes an image to `width`, its height following the aspect ratio of its
/// pixels, and centers it on a page of `page_w` by `page_h` (rounding down).
pub fn place_image(page_w: i64, page_h: i64, width: i64, px_w: u32, px_h: u32) -> (r: Result<
    Placement,
    PdfError,
>)
    ensures
        placement_error(width, px_w, px_h) is Some ==> r == Err::<Placement, PdfError>(
            placement_error(width, px_w, px_h)->0,
        ),
        placement_error(width, px_w, px_h) is None ==> r is Ok && r->Ok_0.width == width
            && r->Ok_0.height == width * px_h / (px_w as int) && r->Ok_0.x == (page_w - width) / 2
            && r->Ok_0.y == (page_h - r->Ok_0.height) / 2,
{
    if width <= 0 {
        return Err(PdfError::DegenerateRect);
    }
    if px_w == 0 || px_h == 0 {
        return Err(PdfError::EmptyImage);
    }
    let wi: i128 = width as i128;
    let hi: i128 = px_h as i128;
    assert(0 <= wi * hi <= 0x7fff_ffff_ffff_ffff * 0xffff_ffff) by (nonlinear_arith)
        requires
            0 < wi <= 0x7fff_ffff_ffff_ffff,
            0 < hi <= 0xffff_ffff,
    ;
    let prod: i128 = wi * hi;
    let h: i128 = prod / (px_w as i128);
    if h > i64::MAX as i128 {
        return Err(PdfError::OutOfRange);
    }
    let x = half_floor(page_w as i128 - wi);
    let y = half_floor(page_h as i128 - h);
    Ok(Placement { width, height: h as i64, x: x as i64, y: y as i64 })
}

/// Half of `d`, rounded down.
fn half_floor(d: i128) -> (r: i128)
    requires
        -0x1_0000_0000_0000_0000 <= d <= 0x1_0000_0000_0000_0000,
    ensures
        r == d / 2,
        -0x8000_0000_0000_0000 <= r <= 0x8000_0000_0000_0000,
{
    if d >= 0 {
        d / 2
    } else {
        let r = 0 - (1 - d) / 2;
        r
    }
}

} // verus!
