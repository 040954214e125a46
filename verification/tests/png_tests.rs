use dmi::builder::create_png;
use dmi::error::DmiError;
use dmi::png_io::read_png;
use dmi::png_io::strip_metadata;
use dmi::png_io::write_png;
use dmi::png_io::ColorMode;
use dmi::png_io::Depth;
use dmi::resize::resize_png;
use dmi::resize::Filter;
use dmi::states::read_states;

fn png_with_ztxt(text: &str) -> Vec<u8> {
    let mut out: Vec<u8> = Vec::new();
    {
        let mut enc = png::Encoder::new(&mut out, 2, 1);
        enc.set_color(png::ColorType::Rgba);
        enc.set_depth(png::BitDepth::Eight);
        enc.add_ztxt_chunk("Description".to_string(), text.to_string()).unwrap();
        let mut writer = enc.write_header().unwrap();
        writer.write_image_data(&[255, 0, 0, 255, 0, 0, 255, 255]).unwrap();
    }
    out
}

fn decode(data: &[u8]) -> (png::OutputInfo, Vec<u8>, usize) {
    let decoder = png::Decoder::new(std::io::Cursor::new(data));
    let mut reader = decoder.read_info().unwrap();
    let mut buf = vec![0u8; reader.output_buffer_size().unwrap()];
    let info = reader.next_frame(&mut buf).unwrap();
    let n_text = reader.info().compressed_latin1_text.len();
    (info, buf, n_text)
}

#[test]
fn create_png_builds_the_expected_pixels() {
    let bytes = create_png("2", "2", "#ff0000#00ff00#0000ff#ffffff").unwrap();
    let (info, pixels, _) = decode(&bytes);
    assert_eq!(info.width, 2);
    assert_eq!(info.height, 2);
    assert_eq!(info.color_type, png::ColorType::Rgba);
    assert_eq!(info.bit_depth, png::BitDepth::Eight);
    assert_eq!(
        pixels,
        vec![255, 0, 0, 255, 0, 255, 0, 255, 0, 0, 255, 255, 255, 255, 255, 255]
    );
}

#[test]
fn create_png_rejects_bad_dimensions() {
    assert!(matches!(create_png("x", "2", "#ff0000"), Err(DmiError::ParseError)));
    assert!(matches!(create_png("2", "", "#ff0000"), Err(DmiError::ParseError)));
}

#[test]
fn create_png_surfaces_encoder_error_on_size_mismatch() {
    let r = create_png("1", "1", "#ff0000#00ff00");
    assert!(matches!(r, Err(DmiError::Encode(_))));
}

#[test]
fn create_png_rejects_bad_stream_before_encoding() {
    let r = create_png("1", "1", "#ff00");
    assert!(matches!(r, Err(DmiError::InvalidPngData)));
}

#[test]
fn create_png_refuses_overflowing_dimensions() {
    let r = create_png("2147483648", "2147483648", "");
    assert!(matches!(r, Err(DmiError::Encode(_))));
}

#[test]
fn resize_refuses_overflowing_dimensions() {
    let data = create_png("2", "2", &"#ff0000".repeat(4)).unwrap();
    let r = resize_png(&data, "4294967295", "4294967295", Filter::Nearest);
    assert!(matches!(r, Err(DmiError::Encode(_))));
}

#[test]
fn strip_removes_text_and_preserves_image() {
    let original = png_with_ztxt("state = \"idle\"\n# END DMI\n");
    let (info0, pixels0, n_text0) = decode(&original);
    assert_eq!(n_text0, 1);
    let stripped = strip_metadata(&original).unwrap();
    let (info1, pixels1, n_text1) = decode(&stripped);
    assert_eq!(n_text1, 0);
    assert_eq!(info1.width, info0.width);
    assert_eq!(info1.height, info0.height);
    assert_eq!(info1.color_type, info0.color_type);
    assert_eq!(info1.bit_depth, info0.bit_depth);
    assert_eq!(pixels1, pixels0);
}

#[test]
fn strip_twice_is_byte_identical() {
    let original = png_with_ztxt("state = \"idle\"\n");
    let once = strip_metadata(&original).unwrap();
    let twice = strip_metadata(&once).unwrap();
    assert_eq!(once, twice);
}

#[test]
fn write_png_with_preserve_keeps_the_chunk() {
    let original = png_with_ztxt("state = \"idle\"\n");
    let img = read_png(&original).unwrap();
    assert_eq!(img.width, 2);
    assert_eq!(img.height, 1);
    assert!(matches!(img.color_type, ColorMode::Rgba));
    assert!(matches!(img.bit_depth, Depth::Eight));
    let encoded = write_png(img, true).unwrap();
    let (_, pixels, n_text) = decode(&encoded);
    assert_eq!(n_text, 1);
    assert_eq!(pixels, vec![255, 0, 0, 255, 0, 0, 255, 255]);
}

#[test]
fn strip_preserves_palette_and_transparency() {
    let mut original: Vec<u8> = Vec::new();
    {
        let mut enc = png::Encoder::new(&mut original, 2, 1);
        enc.set_color(png::ColorType::Indexed);
        enc.set_depth(png::BitDepth::Eight);
        enc.set_palette(vec![255u8, 0, 0, 0, 255, 0]);
        enc.set_trns(vec![255u8, 128]);
        enc.add_ztxt_chunk("Description".to_string(), "state = \"a\"\n".to_string()).unwrap();
        let mut writer = enc.write_header().unwrap();
        writer.write_image_data(&[0, 1]).unwrap();
    }
    let img = read_png(&original).unwrap();
    assert!(matches!(img.color_type, ColorMode::Indexed));
    assert_eq!(img.palette.as_deref(), Some(&[255u8, 0, 0, 0, 255, 0][..]));
    assert_eq!(img.transparency.as_deref(), Some(&[255u8, 128][..]));
    let stripped = strip_metadata(&original).unwrap();
    let decoder = png::Decoder::new(std::io::Cursor::new(stripped.as_slice()));
    let mut reader = decoder.read_info().unwrap();
    let mut buf = vec![0u8; reader.output_buffer_size().unwrap()];
    reader.next_frame(&mut buf).unwrap();
    let info = reader.info();
    assert_eq!(info.palette.as_deref(), Some(&[255u8, 0, 0, 0, 255, 0][..]));
    assert_eq!(info.trns.as_deref(), Some(&[255u8, 128][..]));
    assert_eq!(info.compressed_latin1_text.len(), 0);
    assert_eq!(buf, vec![0, 1]);
}

#[test]
fn strip_preserves_grayscale_sixteen_bit() {
    let mut original: Vec<u8> = Vec::new();
    {
        let mut enc = png::Encoder::new(&mut original, 1, 1);
        enc.set_color(png::ColorType::Grayscale);
        enc.set_depth(png::BitDepth::Sixteen);
        enc.add_ztxt_chunk("Description".to_string(), "x".to_string()).unwrap();
        let mut writer = enc.write_header().unwrap();
        writer.write_image_data(&[0xAB, 0xCD]).unwrap();
    }
    let img = read_png(&original).unwrap();
    assert!(matches!(img.color_type, ColorMode::Grayscale));
    assert!(matches!(img.bit_depth, Depth::Sixteen));
    let stripped = strip_metadata(&original).unwrap();
    let (info, pixels, n_text) = decode(&stripped);
    assert_eq!(info.color_type, png::ColorType::Grayscale);
    assert_eq!(info.bit_depth, png::BitDepth::Sixteen);
    assert_eq!(pixels, vec![0xAB, 0xCD]);
    assert_eq!(n_text, 0);
}

#[test]
fn text_chunk_after_image_data_is_not_scanned() {
    let mut data: Vec<u8> = Vec::new();
    {
        let mut enc = png::Encoder::new(&mut data, 1, 1);
        enc.set_color(png::ColorType::Rgba);
        enc.set_depth(png::BitDepth::Eight);
        let mut writer = enc.write_header().unwrap();
        writer.write_image_data(&[1, 2, 3, 4]).unwrap();
        let tail = png::text_metadata::ZTXtChunk::new(
            "Description".to_string(),
            "state = \"late\"\n".to_string(),
        );
        writer.write_text_chunk(&tail).unwrap();
    }
    let json = read_states(&data).unwrap();
    assert_eq!(json, "[]");
}

#[test]
fn read_states_returns_names_in_order() {
    let data = png_with_ztxt("state = \"idle\"\nstate = \"walk\"\n# END DMI\nstate = \"ignored\"\n");
    let json = read_states(&data).unwrap();
    assert_eq!(json, "[\"idle\",\"walk\"]");
}

#[test]
fn read_states_without_text_chunks_is_empty_array() {
    let data = create_png("1", "1", "#ff0000").unwrap();
    let json = read_states(&data).unwrap();
    assert_eq!(json, "[]");
}

#[test]
fn read_states_rejects_garbage() {
    let r = read_states(&[1, 2, 3, 4]);
    assert!(matches!(r, Err(DmiError::Decode(_))));
}

#[test]
fn resize_to_half_yields_exact_dimensions() {
    let stream = "#ff0000".repeat(100);
    let data = create_png("10", "10", &stream).unwrap();
    let resized = resize_png(&data, "5", "5", Filter::Nearest).unwrap();
    let (info, pixels, _) = decode(&resized);
    assert_eq!(info.width, 5);
    assert_eq!(info.height, 5);
    assert_eq!(pixels.len(), 5 * 5 * 4);
    assert_eq!(&pixels[0..4], &[255, 0, 0, 255]);
}

#[test]
fn resize_rejects_bad_dimensions() {
    let data = create_png("2", "2", &"#ff0000".repeat(4)).unwrap();
    assert!(matches!(
        resize_png(&data, "abc", "5", Filter::Nearest),
        Err(DmiError::ParseError)
    ));
    assert!(matches!(
        resize_png(&data, "5", "", Filter::Triangle),
        Err(DmiError::ParseError)
    ));
}

#[test]
fn resize_rejects_garbage_bytes() {
    let r = resize_png(&[0, 1, 2], "5", "5", Filter::Nearest);
    assert!(matches!(r, Err(DmiError::Decode(_))));
}
