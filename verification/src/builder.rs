use vstd::prelude::*;
use vstd::string::*;
use crate::error::DmiError;
use crate::hexstream::parse_pixel_stream;
use crate::hexstream::parse_stream_spec;
use crate::numbers::parse_u32;
use crate::numbers::u32_parses;
use crate::numbers::u32_value;
use crate::png_io::encode_rgba8;
use crate::png_io::enc_size_ok;
use crate::png_io::png_bytes_of;
use crate::png_io::png_encode_ok;
use crate::png_io::rgba8_model;
use crate::png_io::size_within_limits;
use crate::png_io::ImageModel;

verus! {

/// The image a build call stands for: the parsed dimensions and the parsed
/// pixel stream as a fresh RGBA image.
pub open spec fn built_model(width: Seq<u8>, height: Seq<u8>, data: Seq<u8>) -> ImageModel {
    rgba8_model(
        u32_value(width) as u32,
        u32_value(height) as u32,
        crate::hexstream::parse_stream_spec(data)->Ok_0,
    )
}

/// Builds a fresh 8-bit RGBA PNG from string dimensions and a hex pixel
/// stream. Width and height must parse as numbers and the stream must
/// parse; no buffer-size check is made here — a buffer that does not match
/// the dimensions is the encoder's error, as the caller expects it — but
/// dimensions whose row arithmetic would overflow the machine are refused.
pub fn create_png(width: &str, height: &str, data: &str) -> (r: Result<Vec<u8>, DmiError>)
    ensures
        !u32_parses(width.spec_bytes()) ==> (r matches Err(e) && e == DmiError::ParseError),
        u32_parses(width.spec_bytes()) && !u32_parses(height.spec_bytes()) ==> (r matches Err(e)
            && e == DmiError::ParseError),
        u32_parses(width.spec_bytes()) && u32_parses(height.spec_bytes()) && parse_stream_spec(
            data.spec_bytes(),
        ) is Err ==> (r matches Err(e) && e == parse_stream_spec(data.spec_bytes())->Err_0),
        u32_parses(width.spec_bytes()) && u32_parses(height.spec_bytes()) && parse_stream_spec(
            data.spec_bytes(),
        ) is Ok && enc_size_ok(
            u32_value(width.spec_bytes()) as u32,
            u32_value(height.spec_bytes()) as u32,
        ) ==> (r is Ok <==> png_encode_ok(
            built_model(width.spec_bytes(), height.spec_bytes(), data.spec_bytes()),
        )),
        r matches Ok(v) ==> v@ == png_bytes_of(
            built_model(width.spec_bytes(), height.spec_bytes(), data.spec_bytes()),
        ),
        r is Ok ==> parse_stream_spec(data.spec_bytes())->Ok_0.len() == u32_value(
            width.spec_bytes(),
        ) * u32_value(height.spec_bytes()) * 4,
        r is Ok ==> u32_parses(width.spec_bytes()) && u32_parses(height.spec_bytes())
            && parse_stream_spec(data.spec_bytes()) is Ok,
        r matches Err(e) ==> (e == DmiError::ParseError || e == DmiError::InvalidPngData
            || e is Encode),
{
    let w = match parse_u32(width) {
        Ok(v) => v,
        Err(e) => {
            return Err(e);
        },
    };
    let h = match parse_u32(height) {
        Ok(v) => v,
        Err(e) => {
            return Err(e);
        },
    };
    let pixels = match parse_pixel_stream(data) {
        Ok(v) => v,
        Err(e) => {
            proof {
                crate::hexstream::lemma_stream_err_kind(data.spec_bytes());
            }
            return Err(e);
        },
    };
    if !size_within_limits(w, h) {
        return Err(DmiError::Encode("dimensions too large".to_owned()));
    }
    encode_rgba8(w, h, &pixels)
}

} // verus!
