use vstd::prelude::*;
use vstd::string::*;
use crate::error::DmiError;
use crate::numbers::parse_u32;
use crate::numbers::u32_parses;
use crate::numbers::u32_value;
use crate::png_io::enc_size_ok;

verus! {

/// The resampling filters the resize accepts, as the caller names them.
#[derive(Clone, Copy, Debug, PartialEq, Eq, Structural)]
pub enum Filter {
    Nearest,
    Triangle,
    CatmullRom,
    Gaussian,
    Lanczos3,
}

/// The bytes of "catmull".
pub open spec fn catmull_name() -> Seq<u8> {
    seq![99u8, 97u8, 116u8, 109u8, 117u8, 108u8, 108u8]
}

/// The bytes of "gaussian".
pub open spec fn gaussian_name() -> Seq<u8> {
    seq![103u8, 97u8, 117u8, 115u8, 115u8, 105u8, 97u8, 110u8]
}

/// The bytes of "lanczos3".
pub open spec fn lanczos3_name() -> Seq<u8> {
    seq![108u8, 97u8, 110u8, 99u8, 122u8, 111u8, 115u8, 51u8]
}

/// The bytes of "triangle".
pub open spec fn triangle_name() -> Seq<u8> {
    seq![116u8, 114u8, 105u8, 97u8, 110u8, 103u8, 108u8, 101u8]
}

/// The filter a name selects; every unrecognized name, "nearest" included,
/// falls back to nearest-neighbor.
pub open spec fn filter_of_name(s: Seq<u8>) -> Filter {
    if s == catmull_name() {
        Filter::CatmullRom
    } else if s == gaussian_name() {
        Filter::Gaussian
    } else if s == lanczos3_name() {
        Filter::Lanczos3
    } else if s == triangle_name() {
        Filter::Triangle
    } else {
        Filter::Nearest
    }
}

fn eq_bytes(a: &[u8], b: &[u8]) -> (r: bool)
    ensures
        r == (a@ == b@),
{
    let n = a.len();
    if n != b.len() {
        proof {
            assert(a@.len() != b@.len());
        }
        return false;
    }
    let mut i: usize = 0;
    while i < n
        invariant
            0 <= i <= n,
            n == a@.len(),
            n == b@.len(),
            forall|j: int| 0 <= j < i ==> a@[j] == #[trigger] b@[j],
        decreases n - i,
    {
        if a[i] != b[i] {
            return false;
        }
        i += 1;
    }
    proof {
        assert(a@ =~= b@);
    }
    true
}

/// Picks the filter a name stands for, over the name's UTF-8 bytes.
pub fn filter_from_name(name: &str) -> (r: Filter)
    ensures
        r == filter_of_name(name.spec_bytes()),
{
    let b = name.as_bytes();
    let catmull: Vec<u8> = vec![99u8, 97u8, 116u8, 109u8, 117u8, 108u8, 108u8];
    let gaussian: Vec<u8> = vec![103u8, 97u8, 117u8, 115u8, 115u8, 105u8, 97u8, 110u8];
    let lanczos3: Vec<u8> = vec![108u8, 97u8, 110u8, 99u8, 122u8, 111u8, 115u8, 51u8];
    let triangle: Vec<u8> = vec![116u8, 114u8, 105u8, 97u8, 110u8, 103u8, 108u8, 101u8];
    proof {
        assert(catmull@ =~= catmull_name());
        assert(gaussian@ =~= gaussian_name());
        assert(lanczos3@ =~= lanczos3_name());
        assert(triangle@ =~= triangle_name());
    }
    if eq_bytes(b, catmull.as_slice()) {
        Filter::CatmullRom
    } else if eq_bytes(b, gaussian.as_slice()) {
        Filter::Gaussian
    } else if eq_bytes(b, lanczos3.as_slice()) {
        Filter::Lanczos3
    } else if eq_bytes(b, triangle.as_slice()) {
        Filter::Triangle
    } else {
        Filter::Nearest
    }
}

#[verifier::external_type_specification]
#[verifier::external_body]
pub struct ExDynamicImage(image::DynamicImage);

/// The pixel width of a loaded image.
pub uninterp spec fn image_width(img: image::DynamicImage) -> u32;

/// The pixel height of a loaded image.
pub uninterp spec fn image_height(img: image::DynamicImage) -> u32;

/// Loading these bytes as a pixel image succeeds.
pub uninterp spec fn image_load_ok(data: Seq<u8>) -> bool;

/// The image these bytes load to; loading is a function of the bytes alone.
pub uninterp spec fn image_of(data: Seq<u8>) -> image::DynamicImage;

/// The resampled image a resize produces for this source, box and filter;
/// resampling is a function of these alone.
pub uninterp spec fn resized_of(
    img: image::DynamicImage,
    nw: u32,
    nh: u32,
    f: Filter,
) -> image::DynamicImage;

/// PNG-encoding this image succeeds: its sample format is one the PNG
/// writer takes.
pub uninterp spec fn image_png_ok(img: image::DynamicImage) -> bool;

/// The PNG byte stream written for this image; a function of the image.
pub uninterp spec fn image_png_bytes(img: image::DynamicImage) -> Seq<u8>;

/// A requested dimension as the resampler clamps it: never below one.
pub open spec fn at_least_one(n: u32) -> int {
    if n >= 1 {
        n as int
    } else {
        1
    }
}

/// The buffers the resampler allocates stay within the machine's address
/// space: the clamped requested box and the intermediate source-width
/// buffer, at up to 16 bytes per pixel.
pub open spec fn resize_fits(w0: u32, nw: u32, nh: u32) -> bool {
    &&& 16 * at_least_one(nw) * at_least_one(nh) <= usize::MAX
    &&& 16 * (w0 as int) * at_least_one(nh) <= usize::MAX
}

/// The whole resize pipeline's machine bound: the resampler's buffers, with
/// headroom for the PNG encoder's row arithmetic on the result.
pub open spec fn resize_pipeline_fits(w0: u32, nw: u32, nh: u32) -> bool {
    &&& 32 * at_least_one(nw) * at_least_one(nh) <= usize::MAX
    &&& 16 * (w0 as int) * at_least_one(nh) <= usize::MAX
}

/// Relies on image::load_from_memory: decodes a PNG (or other supported)
/// byte stream into a pixel image, a function of the bytes alone.
#[verifier::external_body]
fn load_image(data: &[u8]) -> (r: Result<image::DynamicImage, DmiError>)
    ensures
        r is Ok <==> image_load_ok(data@),
        r matches Ok(img) ==> img == image_of(data@),
        r matches Err(e) ==> e is Decode,
{
    image::load_from_memory(data).map_err(|e| DmiError::Decode(format!("{e}")))
}

/// Relies on image::DynamicImage::width.
#[verifier::external_body]
fn image_width_of(img: &image::DynamicImage) -> (r: u32)
    ensures
        r == image_width(*img),
{
    img.width()
}

/// Relies on image::DynamicImage::height.
#[verifier::external_body]
fn image_height_of(img: &image::DynamicImage) -> (r: u32)
    ensures
        r == image_height(*img),
{
    img.height()
}

/// Relies on image::DynamicImage::resize and the crate's own dimension
/// arithmetic: the result keeps the aspect ratio and fits within the
/// requested bounds, each side at least 1; when the requested box has
/// exactly the image's aspect ratio it is filled exactly. Resampling is a
/// pure function of image, box and filter. The size bound keeps the
/// resampler's buffer allocations within the machine, where they would
/// otherwise abort.
#[verifier::external_body]
fn resize_image(img: &image::DynamicImage, nw: u32, nh: u32, filter: Filter) -> (r:
    image::DynamicImage)
    requires
        image_width(*img) >= 1,
        image_height(*img) >= 1,
        resize_fits(image_width(*img), nw, nh),
    ensures
        r == resized_of(*img, nw, nh, filter),
        1 <= image_width(r),
        1 <= image_height(r),
        nw >= 1 ==> image_width(r) <= nw,
        nh >= 1 ==> image_height(r) <= nh,
        nw == 0 || nh == 0 ==> image_width(r) == 1 && image_height(r) == 1,
        nw >= 1 && nh >= 1 && (image_width(*img) as int) * (nh as int) == (image_height(*img)
            as int) * (nw as int) ==> image_width(r) == nw && image_height(r) == nh,
{
    let f = match filter {
        Filter::Nearest => image::imageops::FilterType::Nearest,
        Filter::Triangle => image::imageops::FilterType::Triangle,
        Filter::CatmullRom => image::imageops::FilterType::CatmullRom,
        Filter::Gaussian => image::imageops::FilterType::Gaussian,
        Filter::Lanczos3 => image::imageops::FilterType::Lanczos3,
    };
    img.resize(nw, nh, f)
}

/// Relies on image::DynamicImage::write_to with ImageFormat::Png: encodes
/// the image as a PNG byte stream, a function of the image alone; it fails
/// exactly on a sample format the PNG writer refuses. The size bound keeps
/// the writer's row arithmetic inside `usize`.
#[verifier::external_body]
fn encode_image_png(img: &image::DynamicImage) -> (r: Result<Vec<u8>, DmiError>)
    requires
        enc_size_ok(image_width(*img), image_height(*img)),
    ensures
        r is Ok <==> image_png_ok(*img),
        r matches Ok(v) ==> v@ == image_png_bytes(*img),
        r matches Err(e) ==> e is Encode,
{
    let mut out: Vec<u8> = Vec::new();
    img.write_to(std::io::Cursor::new(&mut out), image::ImageFormat::Png).map_err(
        |e| DmiError::Encode(format!("{e}")),
    )?;
    Ok(out)
}

/// Resizes a PNG: parses the dimensions, decodes the whole image, resamples
/// it with the given filter and re-encodes it as PNG bytes. The requested
/// width and height name a box: the output keeps the source's aspect ratio
/// and fills the box exactly only when the ratios agree, which is how the
/// host's resample has always behaved. This generic path does not carry
/// palette, transparency or text chunks through. A request whose buffers
/// would not fit the machine is refused before the resampler runs.
pub fn resize_png(data: &[u8], width: &str, height: &str, filter: Filter) -> (r: Result<
    Vec<u8>,
    DmiError,
>)
    ensures
        !u32_parses(width.spec_bytes()) ==> (r matches Err(e) && e == DmiError::ParseError),
        u32_parses(width.spec_bytes()) && !u32_parses(height.spec_bytes()) ==> (r matches Err(e)
            && e == DmiError::ParseError),
        u32_parses(width.spec_bytes()) && u32_parses(height.spec_bytes()) && !image_load_ok(
            data@,
        ) ==> (r matches Err(e) && e is Decode),
        u32_parses(width.spec_bytes()) && u32_parses(height.spec_bytes()) && image_load_ok(data@)
            && image_width(image_of(data@)) >= 1 && image_height(image_of(data@)) >= 1
            && resize_pipeline_fits(
            image_width(image_of(data@)),
            u32_value(width.spec_bytes()) as u32,
            u32_value(height.spec_bytes()) as u32,
        ) ==> (r is Ok <==> image_png_ok(
            resized_of(
                image_of(data@),
                u32_value(width.spec_bytes()) as u32,
                u32_value(height.spec_bytes()) as u32,
                filter,
            ),
        )),
        r matches Ok(v) ==> v@ == image_png_bytes(
            resized_of(
                image_of(data@),
                u32_value(width.spec_bytes()) as u32,
                u32_value(height.spec_bytes()) as u32,
                filter,
            ),
        ),
        r is Ok ==> u32_parses(width.spec_bytes()) && u32_parses(height.spec_bytes()),
        r matches Err(e) ==> (e == DmiError::ParseError || e is Decode || e is Encode),
{
    let w = match parse_u32(width) {
        Ok(v) => v,
        Err(e) => {
            return Err(e);
        },
    };
    let h = match parse_u32(height) {
        Ok(v) => v,
        Err(e) => {
            return Err(e);
        },
    };
    let img = match load_image(data) {
        Ok(v) => v,
        Err(e) => {
            return Err(e);
        },
    };
    let w0 = image_width_of(&img);
    let h0 = image_height_of(&img);
    if w0 == 0 || h0 == 0 {
        return Err(DmiError::Decode("empty image".to_owned()));
    }
    let mw: u128 = if w >= 1 {
        w as u128
    } else {
        1
    };
    let mh: u128 = if h >= 1 {
        h as u128
    } else {
        1
    };
    proof {
        assert(32 * (mw as int) * (mh as int) <= 0x200000000000000000int) by (nonlinear_arith)
            requires
                mw <= 0x100000000u128,
                mh <= 0x100000000u128,
        ;
        assert(16 * (w0 as int) * (mh as int) <= 0x100000000000000000int) by (nonlinear_arith)
            requires
                w0 <= 0xFFFFFFFFu32,
                mh <= 0x100000000u128,
        ;
    }
    if 32u128 * mw * mh > usize::MAX as u128 || 16u128 * (w0 as u128) * mh > usize::MAX as u128 {
        return Err(DmiError::Encode("dimensions too large".to_owned()));
    }
    proof {
        assert(mw as int == at_least_one(w));
        assert(mh as int == at_least_one(h));
        assert(16 * at_least_one(w) * at_least_one(h) <= usize::MAX && 16 * (w0 as int)
            * at_least_one(h) <= usize::MAX) by (nonlinear_arith)
            requires
                32 * (mw as int) * (mh as int) <= usize::MAX as int,
                16 * (w0 as int) * (mh as int) <= usize::MAX as int,
                mw as int == at_least_one(w),
                mh as int == at_least_one(h),
                mw >= 1u128,
                mh >= 1u128,
        ;
        assert(resize_fits(w0, w, h));
    }
    let resized = resize_image(&img, w, h, filter);
    proof {
        let rwi = image_width(resized) as int;
        let rhi = image_height(resized) as int;
        let mwi = mw as int;
        let mhi = mh as int;
        assert(rwi + 1 <= 2 * mwi);
        assert(rhi + 1 <= 2 * mhi);
        assert(8 * (rwi + 1) * (rhi + 1) <= 32 * mwi * mhi) by (nonlinear_arith)
            requires
                rwi + 1 <= 2 * mwi,
                rhi + 1 <= 2 * mhi,
                rwi >= 0,
                rhi >= 0,
                mwi >= 1,
                mhi >= 1,
        ;
        assert(enc_size_ok(image_width(resized), image_height(resized)));
    }
    encode_image_png(&resized)
}

} // verus!
