use vstd::prelude::*;
use crate::error::DmiError;

verus! {

/// The color type a PNG header declares.
#[derive(Clone, Copy, Debug, PartialEq, Eq, Structural)]
pub enum ColorMode {
    Grayscale,
    Rgb,
    Indexed,
    GrayscaleAlpha,
    Rgba,
}

/// The bit depth a PNG header declares.
#[derive(Clone, Copy, Debug, PartialEq, Eq, Structural)]
pub enum Depth {
    One,
    Two,
    Four,
    Eight,
    Sixteen,
}

#[verifier::external_type_specification]
#[verifier::external_body]
pub struct ExPngColorType(png::ColorType);

#[verifier::external_type_specification]
#[verifier::external_body]
pub struct ExPngBitDepth(png::BitDepth);

#[verifier::external_type_specification]
#[verifier::external_body]
pub struct ExZTXtChunk(png::text_metadata::ZTXtChunk);

#[verifier::external_type_specification]
#[verifier::external_body]
pub struct ExPngDecodingError(png::DecodingError);

#[verifier::external_type_specification]
#[verifier::external_body]
pub struct ExPngEncodingError(png::EncodingError);

/// Relies on png::DecodingError's Display impl: keeps its message.
#[verifier::external_body]
fn dec_err(e: png::DecodingError) -> DmiError {
    DmiError::Decode(format!("{e}"))
}

/// Relies on png::EncodingError's Display impl: keeps its message.
#[verifier::external_body]
fn enc_err(e: png::EncodingError) -> DmiError {
    DmiError::Encode(format!("{e}"))
}

/// One decode of a DMI file: the header fields, the ancillary chunks the
/// round trip must keep — palette, transparency and the compressed text
/// chunks, held verbatim — and the raw pixel buffer.
pub struct DecodedImage {
    pub width: u32,
    pub height: u32,
    pub color_type: ColorMode,
    pub bit_depth: Depth,
    pub palette: Option<Vec<u8>>,
    pub transparency: Option<Vec<u8>>,
    pub text_chunks: Vec<png::text_metadata::ZTXtChunk>,
    pub pixels: Vec<u8>,
}

/// The decoded image, field by field at the spec level: the mathematical
/// value the contracts speak of.
#[verifier::ext_equal]
pub struct ImageModel {
    pub width: u32,
    pub height: u32,
    pub color_type: ColorMode,
    pub bit_depth: Depth,
    pub palette: Option<Seq<u8>>,
    pub transparency: Option<Seq<u8>>,
    pub text_chunks: Seq<png::text_metadata::ZTXtChunk>,
    pub pixels: Seq<u8>,
}

/// The view of an optional byte buffer.
pub open spec fn opt_view(o: Option<Vec<u8>>) -> Option<Seq<u8>> {
    match o {
        Some(v) => Some(v@),
        None => None,
    }
}

/// The model of a decoded image.
pub open spec fn view_of(img: DecodedImage) -> ImageModel {
    ImageModel {
        width: img.width,
        height: img.height,
        color_type: img.color_type,
        bit_depth: img.bit_depth,
        palette: opt_view(img.palette),
        transparency: opt_view(img.transparency),
        text_chunks: img.text_chunks@,
        pixels: img.pixels@,
    }
}

/// The model after a strip: the text chunks gone, all else as it was.
pub open spec fn stripped_model(m: ImageModel) -> ImageModel {
    ImageModel { text_chunks: Seq::empty(), ..m }
}

/// The model of a fresh 8-bit RGBA image: no palette, no transparency,
/// no text.
pub open spec fn rgba8_model(width: u32, height: u32, pixels: Seq<u8>) -> ImageModel {
    ImageModel {
        width,
        height,
        color_type: ColorMode::Rgba,
        bit_depth: Depth::Eight,
        palette: None,
        transparency: None,
        text_chunks: Seq::empty(),
        pixels,
    }
}

/// Samples per pixel of a color type, as the PNG standard fixes them.
pub open spec fn channels_of(c: ColorMode) -> int {
    match c {
        ColorMode::Grayscale => 1,
        ColorMode::Indexed => 1,
        ColorMode::GrayscaleAlpha => 2,
        ColorMode::Rgb => 3,
        ColorMode::Rgba => 4,
    }
}

/// Bits per sample of a depth.
pub open spec fn bits_of(d: Depth) -> int {
    match d {
        Depth::One => 1,
        Depth::Two => 2,
        Depth::Four => 4,
        Depth::Eight => 8,
        Depth::Sixteen => 16,
    }
}

/// The bytes of one packed pixel row for this geometry: the PNG row length.
pub open spec fn row_bytes(w: u32, c: ColorMode, d: Depth) -> int {
    ((w as int) * channels_of(c) * bits_of(d) + 7) / 8
}

/// The size arithmetic of a row-packed image stays within the machine: the
/// codec computes a row length of at most 8·width+1 bytes and multiplies it
/// by the height, so this bound keeps that product inside `usize`.
pub open spec fn enc_size_ok(w: u32, h: u32) -> bool {
    8 * ((w as int) + 1) * ((h as int) + 1) <= usize::MAX
}

/// Decoding these bytes succeeds: a well-formed PNG whose first frame fits
/// the decoder's default limits.
pub uninterp spec fn png_decode_ok(data: Seq<u8>) -> bool;

/// What these bytes decode to; decoding is a function of the bytes alone.
pub uninterp spec fn png_decode_model(data: Seq<u8>) -> ImageModel;

/// The encoder accepts this image: consistent geometry, a pixel buffer of
/// exactly the rows' size, a palette where indexed color requires one.
pub uninterp spec fn png_encode_ok(m: ImageModel) -> bool;

/// The PNG byte stream the encoder writes for this image; encoding is a
/// function of the image alone.
pub uninterp spec fn png_bytes_of(m: ImageModel) -> Seq<u8>;

/// Reading the chunks before the image data of these bytes succeeds.
pub uninterp spec fn png_header_ok(data: Seq<u8>) -> bool;

/// The zTXt chunks that stand before the image data of these bytes.
pub uninterp spec fn png_chunks_of(data: Seq<u8>) -> Seq<png::text_metadata::ZTXtChunk>;

/// Tests the machine-size bound that the codec's row arithmetic needs.
pub fn size_within_limits(width: u32, height: u32) -> (r: bool)
    ensures
        r == enc_size_ok(width, height),
{
    let w: u128 = width as u128;
    let h: u128 = height as u128;
    proof {
        assert(8 * ((w as int) + 1) * ((h as int) + 1) <= 0x80000000000000000int)
            by (nonlinear_arith)
            requires
                w <= 0xFFFFFFFFu128,
                h <= 0xFFFFFFFFu128,
        ;
    }
    8u128 * (w + 1) * (h + 1) <= usize::MAX as u128
}

/// Relies on png::ColorType: picks this crate's variant of the same meaning.
#[verifier::external_body]
fn color_from_png(c: png::ColorType) -> ColorMode {
    match c {
        png::ColorType::Grayscale => ColorMode::Grayscale,
        png::ColorType::Rgb => ColorMode::Rgb,
        png::ColorType::Indexed => ColorMode::Indexed,
        png::ColorType::GrayscaleAlpha => ColorMode::GrayscaleAlpha,
        png::ColorType::Rgba => ColorMode::Rgba,
    }
}

/// Relies on png::ColorType: picks the png crate's variant of the same meaning.
#[verifier::external_body]
fn color_to_png(c: ColorMode) -> png::ColorType {
    match c {
        ColorMode::Grayscale => png::ColorType::Grayscale,
        ColorMode::Rgb => png::ColorType::Rgb,
        ColorMode::Indexed => png::ColorType::Indexed,
        ColorMode::GrayscaleAlpha => png::ColorType::GrayscaleAlpha,
        ColorMode::Rgba => png::ColorType::Rgba,
    }
}

/// Relies on png::BitDepth: picks this crate's variant of the same meaning.
#[verifier::external_body]
fn depth_from_png(d: png::BitDepth) -> Depth {
    match d {
        png::BitDepth::One => Depth::One,
        png::BitDepth::Two => Depth::Two,
        png::BitDepth::Four => Depth::Four,
        png::BitDepth::Eight => Depth::Eight,
        png::BitDepth::Sixteen => Depth::Sixteen,
    }
}

/// Relies on png::BitDepth: picks the png crate's variant of the same meaning.
#[verifier::external_body]
fn depth_to_png(d: Depth) -> png::BitDepth {
    match d {
        Depth::One => png::BitDepth::One,
        Depth::Two => png::BitDepth::Two,
        Depth::Four => png::BitDepth::Four,
        Depth::Eight => png::BitDepth::Eight,
        Depth::Sixteen => png::BitDepth::Sixteen,
    }
}

/// Relies on png::Decoder and png::Reader: parses the PNG byte stream and
/// surfaces the header fields, the palette, transparency and zTXt chunks,
/// and the raw pixel buffer of the first frame. With the default identity
/// transformations the returned color type and depth are the header's, and
/// the buffer is sized to exactly height times the packed row length; the
/// whole decode is a function of the bytes alone.
#[verifier::external_body]
pub fn read_png(data: &[u8]) -> (r: Result<DecodedImage, DmiError>)
    ensures
        r is Ok <==> png_decode_ok(data@),
        r matches Ok(img) ==> view_of(img) == png_decode_model(data@),
        r matches Ok(img) ==> img.pixels@.len() == (img.height as int) * row_bytes(
            img.width,
            img.color_type,
            img.bit_depth,
        ),
        r matches Err(e) ==> e is Decode,
{
    let src = std::io::Cursor::new(data);
    let mut reader = png::Decoder::new(src).read_info().map_err(dec_err)?;
    let size = reader.output_buffer_size().ok_or_else(|| DmiError::Decode("too large".into()))?;
    let mut buf = vec![0u8; size];
    let frame = reader.next_frame(&mut buf).map_err(dec_err)?;
    let info = reader.info();
    Ok(DecodedImage {
        width: frame.width, height: frame.height,
        color_type: color_from_png(frame.color_type), bit_depth: depth_from_png(frame.bit_depth),
        palette: info.palette.clone().map(|p| p.into_owned()),
        transparency: info.trns.clone().map(|t| t.into_owned()),
        text_chunks: info.compressed_latin1_text.clone(), pixels: buf,
    })
}

/// Relies on png::Encoder and png::Writer: writes a PNG with the image's
/// header fields, its palette and transparency when present, its text
/// chunks verbatim in order, and its pixel buffer. It succeeds exactly when
/// the encoder accepts the image — in particular the buffer must be exactly
/// height times the packed row length — and the bytes written are a function
/// of the image alone. The size bound keeps the encoder's row arithmetic,
/// an unchecked multiply, inside `usize`.
#[verifier::external_body]
fn encode_image(img: &DecodedImage) -> (r: Result<Vec<u8>, DmiError>)
    requires
        enc_size_ok(img.width, img.height),
    ensures
        r is Ok <==> png_encode_ok(view_of(*img)),
        r matches Ok(v) ==> v@ == png_bytes_of(view_of(*img)),
        r is Ok ==> img.pixels@.len() == (img.height as int) * row_bytes(
            img.width,
            img.color_type,
            img.bit_depth,
        ),
        r matches Err(e) ==> e is Encode,
{
    let mut out: Vec<u8> = Vec::new();
    let mut enc = png::Encoder::new(&mut out, img.width, img.height);
    enc.set_color(color_to_png(img.color_type));
    enc.set_depth(depth_to_png(img.bit_depth));
    if let Some(p) = &img.palette { enc.set_palette(p.clone()); }
    if let Some(t) = &img.transparency { enc.set_trns(t.clone()); }
    let mut writer = enc.write_header().map_err(enc_err)?;
    for c in &img.text_chunks { writer.write_text_chunk(c).map_err(enc_err)?; }
    writer.write_image_data(&img.pixels).map_err(enc_err)?;
    drop(writer);
    Ok(out)
}

/// Relies on png::Encoder and png::Writer: writes an 8-bit RGBA PNG of the
/// given dimensions from the raw byte buffer. This is the general encode on
/// an image without palette, transparency or text, so it shares that
/// encode's names; it succeeds exactly when the encoder accepts the
/// geometry, which asks a buffer of exactly width·height·4 bytes. The size
/// bound keeps the encoder's row arithmetic inside `usize`.
#[verifier::external_body]
pub fn encode_rgba8(width: u32, height: u32, pixels: &Vec<u8>) -> (r: Result<Vec<u8>, DmiError>)
    requires
        enc_size_ok(width, height),
    ensures
        r is Ok <==> png_encode_ok(rgba8_model(width, height, pixels@)),
        r matches Ok(v) ==> v@ == png_bytes_of(rgba8_model(width, height, pixels@)),
        r is Ok ==> pixels@.len() == (width as int) * (height as int) * 4,
        r matches Err(e) ==> e is Encode,
{
    let mut out: Vec<u8> = Vec::new();
    let mut enc = png::Encoder::new(&mut out, width, height);
    enc.set_color(png::ColorType::Rgba);
    enc.set_depth(png::BitDepth::Eight);
    let mut writer = enc.write_header().map_err(enc_err)?;
    writer.write_image_data(pixels).map_err(enc_err)?;
    drop(writer);
    Ok(out)
}

/// Relies on png::Decoder::read_info alone: parses the header and the
/// chunks that stand before the image data, and hands back the zTXt chunks
/// seen there, in storage order — reading states never touches the pixel
/// buffer. Both the success and the chunk list are functions of the bytes.
#[verifier::external_body]
pub fn read_text_chunks(data: &[u8]) -> (r: Result<
    Vec<png::text_metadata::ZTXtChunk>,
    DmiError,
>)
    ensures
        r is Ok <==> png_header_ok(data@),
        r matches Ok(cs) ==> cs@ == png_chunks_of(data@),
        r matches Err(e) ==> e is Decode,
{
    let decoder = png::Decoder::new(std::io::Cursor::new(data));
    let reader = decoder.read_info().map_err(dec_err)?;
    Ok(reader.info().compressed_latin1_text.clone())
}

/// The chunk's payload inflates and decodes to text.
pub uninterp spec fn chunk_text_ok(c: png::text_metadata::ZTXtChunk) -> bool;

/// The text a chunk's payload inflates to.
pub uninterp spec fn chunk_text_of(c: png::text_metadata::ZTXtChunk) -> Seq<char>;

/// Relies on png ZTXtChunk::get_text: inflates the stored payload and
/// decodes it as Latin-1, a pure function of the chunk value; it fails
/// exactly when the payload does not inflate.
#[verifier::external_body]
pub fn chunk_text(c: &png::text_metadata::ZTXtChunk) -> (r: Result<String, DmiError>)
    ensures
        r is Ok <==> chunk_text_ok(*c),
        r matches Ok(t) ==> t@ == chunk_text_of(*c),
        r matches Err(e) ==> e is TextDecode,
{
    c.get_text().map_err(|e| DmiError::TextDecode(format!("{e}")))
}

/// Empties the text chunks and keeps every other field of the decode: the
/// whole of what stripping changes.
pub fn strip_decoded(img: DecodedImage) -> (r: DecodedImage)
    ensures
        r.width == img.width,
        r.height == img.height,
        r.color_type == img.color_type,
        r.bit_depth == img.bit_depth,
        r.palette == img.palette,
        r.transparency == img.transparency,
        r.pixels == img.pixels,
        r.text_chunks@.len() == 0,
{
    DecodedImage {
        width: img.width,
        height: img.height,
        color_type: img.color_type,
        bit_depth: img.bit_depth,
        palette: img.palette,
        transparency: img.transparency,
        text_chunks: Vec::new(),
        pixels: img.pixels,
    }
}

/// True when `b` is what stripping leaves of `a`: the text chunks gone,
/// everything else as it was.
pub open spec fn is_stripped_of(b: DecodedImage, a: DecodedImage) -> bool {
    &&& b.width == a.width
    &&& b.height == a.height
    &&& b.color_type == a.color_type
    &&& b.bit_depth == a.bit_depth
    &&& b.palette == a.palette
    &&& b.transparency == a.transparency
    &&& b.pixels == a.pixels
    &&& b.text_chunks@.len() == 0
}

/// Law: stripping is idempotent on the decoded image — what a second strip
/// leaves is exactly what the first one left, field for field. The second
/// encode therefore writes the same data, and the bytes only repeat.
pub proof fn lemma_strip_idempotent(a: DecodedImage, b: DecodedImage, c: DecodedImage)
    requires
        is_stripped_of(b, a),
        is_stripped_of(c, b),
    ensures
        c.width == b.width,
        c.height == b.height,
        c.color_type == b.color_type,
        c.bit_depth == b.bit_depth,
        c.palette == b.palette,
        c.transparency == b.transparency,
        c.pixels == b.pixels,
        c.text_chunks@ =~= b.text_chunks@,
{
}

/// Encodes the image back to PNG bytes; with `preserve_text` false the text
/// chunks are left out, which is the whole of how metadata is stripped. An
/// image whose size arithmetic would not fit the machine is refused before
/// the encoder sees it.
pub fn write_png(img: DecodedImage, preserve_text: bool) -> (r: Result<Vec<u8>, DmiError>)
    ensures
        !enc_size_ok(img.width, img.height) ==> r is Err,
        preserve_text && enc_size_ok(img.width, img.height) ==> (r is Ok <==> png_encode_ok(
            view_of(img),
        )),
        preserve_text ==> (r matches Ok(v) ==> v@ == png_bytes_of(view_of(img))),
        !preserve_text && enc_size_ok(img.width, img.height) ==> (r is Ok <==> png_encode_ok(
            stripped_model(view_of(img)),
        )),
        !preserve_text ==> (r matches Ok(v) ==> v@ == png_bytes_of(stripped_model(view_of(img)))),
        r matches Err(e) ==> e is Encode,
{
    if !size_within_limits(img.width, img.height) {
        return Err(DmiError::Encode("image too large".to_owned()));
    }
    if preserve_text {
        encode_image(&img)
    } else {
        let stripped = strip_decoded(img);
        proof {
            assert(stripped.text_chunks@ =~= Seq::<png::text_metadata::ZTXtChunk>::empty());
            assert(view_of(stripped) == stripped_model(view_of(img)));
        }
        encode_image(&stripped)
    }
}

/// Strips the metadata of a DMI file: decodes it and re-encodes it without
/// its text chunks, keeping dimensions, color type, bit depth, palette,
/// transparency and pixels. It succeeds exactly when the bytes decode and
/// the stripped image encodes, and the output is that encode's bytes.
pub fn strip_metadata(data: &[u8]) -> (r: Result<Vec<u8>, DmiError>)
    ensures
        r is Ok <==> png_decode_ok(data@) && enc_size_ok(
            png_decode_model(data@).width,
            png_decode_model(data@).height,
        ) && png_encode_ok(stripped_model(png_decode_model(data@))),
        r matches Ok(v) ==> v@ == png_bytes_of(stripped_model(png_decode_model(data@))),
        !png_decode_ok(data@) ==> (r matches Err(e) && e is Decode),
        r matches Err(e) ==> (e is Decode || e is Encode),
{
    match read_png(data) {
        Err(e) => Err(e),
        Ok(img) => write_png(img, false),
    }
}

} // verus!
