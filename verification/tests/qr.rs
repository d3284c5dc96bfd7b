use qrc::canvas::PixelCanvas;
use qrc::color::Color;
use qrc::error::QrcError;
use qrc::grid::Module;
use qrc::grid::ModuleGrid;
use qrc::qr::qr_code_to;
use qrc::raster::rasterize;
use qrc::QRCode;
use std::io::Read;

const URL: &str = "https://minifunctions.com/";

#[test]
fn test_new() {
    let data = vec![0x61, 0x62, 0x63];
    let qrcode = QRCode::new(data.clone());
    assert_eq!(qrcode.data, data);
}

#[test]
fn test_from_string() {
    let data = "abc".to_string();
    let qrcode = QRCode::from_string(data.clone());
    assert_eq!(qrcode.data, data.into_bytes());
}

#[test]
fn test_from_bytes() {
    let data = vec![0x61, 0x62, 0x63];
    let qrcode = QRCode::from_bytes(data.clone());
    assert_eq!(qrcode.data, data);
}

#[test]
fn test_to_qrcode() {
    let data = vec![0x61, 0x62, 0x63];
    let qrcode = QRCode::from_bytes(data.clone());
    assert_eq!(qrcode.data, data);
}

#[test]
fn test_to_png() {
    let data = vec![0x61, 0x62, 0x63];
    let qrcode = QRCode::from_bytes(data.clone());
    assert_eq!(qrcode.data, data);

    let qrcode = QRCode::from_string("Hello, world!".to_string());
    let png = qrcode.to_png(21).unwrap();
    assert_eq!(png.dimensions(), (21, 21));

    let png_data = png.into_raw();
    assert_eq!(png_data.len(), 1764);
}

#[test]
fn test_to_svg() {
    let data = vec![0x61, 0x62, 0x63];
    let qrcode = QRCode::from_bytes(data.clone());
    assert_eq!(qrcode.data, data);

    let qrcode = QRCode::from_string(URL.to_string());
    let qrcode_svg = qrcode.to_svg(512).unwrap();
    assert_eq!(qrcode_svg.len(), 6918);
}

#[test]
fn test_to_gif() {
    let data = vec![0x61, 0x62, 0x63];
    let qrcode = QRCode::from_bytes(data.clone());
    assert_eq!(qrcode.data, data);

    let qrcode = QRCode::from_string(URL.to_string());
    let qrcode_gif = qrcode.to_gif(512).unwrap();
    assert_eq!(qrcode_gif.len(), 1048576);
}

#[test]
fn test_to_jpg() {
    let data = vec![0x61, 0x62, 0x63];
    let qrcode = QRCode::from_bytes(data.clone());
    assert_eq!(qrcode.data, data);

    let qrcode = QRCode::from_string(URL.to_string());
    let qrcode_jpg = qrcode.to_jpg(512).unwrap();
    assert_eq!(qrcode_jpg.len(), 1048576);
}

#[test]
fn test_add_image_watermark() {
    let data = vec![0x61, 0x62, 0x63];
    let qrcode = QRCode::from_bytes(data.clone());
    assert_eq!(qrcode.data, data);

    let qrcode = QRCode::from_string(URL.to_string());
    let mut qrcode_img = qrcode.to_png(512).unwrap();
    let watermark_img = PixelCanvas::new_filled(16, 16, Color::new(10, 20, 30, 128));
    QRCode::add_image_watermark(&mut qrcode_img, &watermark_img).unwrap();
    assert_eq!(qrcode_img.dimensions(), (512, 512));
}

#[test]
fn test_colorize() {
    // Create a new QR code with some data.
    let qrcode = QRCode::new(vec![0, 1, 2, 3]);

    // Colorize the QR code with a red color.
    let red_qrcode = qrcode.colorize(Color::new(255, 0, 0, 255)).unwrap();

    // Assert that all of the dark cells are red and the light ones white.
    let grid = qrcode.to_qrcode().unwrap();
    let (w, h) = red_qrcode.dimensions();
    for y in 0..h {
        for x in 0..w {
            let expected_color = if grid.get(x as usize, y as usize) == Module::Dark {
                Color::new(255, 0, 0, 255)
            } else {
                Color::new(255, 255, 255, 255)
            };
            assert_eq!(red_qrcode.get_pixel(x, y), expected_color);
        }
    }
}

#[test]
fn test_resize() {
    // Create a new QR code with some data.
    let qrcode = QRCode::new(vec![0, 1, 2, 3]);

    // Resize the QR code to 42x42 pixels.
    let resized_qrcode = qrcode.resize(42, 42).unwrap();

    // Assert that the dimensions are correct.
    assert_eq!(resized_qrcode.dimensions(), (42, 42));
}

#[test]
fn test_qr_code() {
    let data = vec![0x61, 0x62, 0x63];
    let qrcode = QRCode::new(data.clone());
    assert_eq!(qrcode.data, data);
}

#[test]
fn test_qr_code_from_png() {
    let data = vec![0x61, 0x62, 0x63];
    let result = qr_code_to(data.clone(), "png", 512).unwrap();
    let expected = QRCode::from_bytes(data).to_png(512).unwrap();
    assert_eq!(result, expected);
}

#[test]
fn test_qr_code_from_invalid_format() {
    let data = vec![0u8, 1, 2, 3];
    let result = qr_code_to(data, "jpeg", 512);
    assert_eq!(result, Err(QrcError::UnsupportedFormat));
}

#[test]
fn test_empty_string() {
    let data = "".to_string();
    let qrcode = QRCode::from_string(data.clone());
    assert_eq!(qrcode.data, data.into_bytes());
}

#[test]
fn test_set_encoding_format() {
    let qrcode = QRCode::new("some data".as_bytes().to_vec());
    let qr_with_format = qrcode.set_encoding_format("utf-8").unwrap();
    assert_eq!(qr_with_format.get_encoding_format(), "utf-8");
}

#[test]
fn test_set_encoding_format_rejected() {
    let qrcode = QRCode::new("some data".as_bytes().to_vec());
    let result = qrcode.set_encoding_format("latin-1");
    assert_eq!(result, Err(QrcError::UnsupportedEncodingLabel));
}

#[test]
fn test_rasterize_unit_round_trip() {
    // A 2x2 grid rendered at one pixel per module reproduces the grid
    // exactly under the default color mapping.
    let cells = vec![Module::Dark, Module::Light, Module::Light, Module::Dark];
    let grid = ModuleGrid::new(2, cells).unwrap();
    let canvas = rasterize(&grid, 2, 2);
    let dark = Color::new(0, 0, 0, 0);
    let light = Color::new(255, 255, 255, 255);
    assert_eq!(canvas.get_pixel(0, 0), dark);
    assert_eq!(canvas.get_pixel(1, 0), light);
    assert_eq!(canvas.get_pixel(0, 1), light);
    assert_eq!(canvas.get_pixel(1, 1), dark);
}

#[test]
fn test_rasterize_dimensions() {
    // The output canvas always has exactly the requested dimensions,
    // upscale or (lossy) downscale alike.
    let grid = ModuleGrid::new(3, vec![Module::Dark; 9]).unwrap();
    assert_eq!(rasterize(&grid, 7, 7).dimensions(), (7, 7));
    assert_eq!(rasterize(&grid, 2, 5).dimensions(), (2, 5));
    assert_eq!(rasterize(&grid, 1, 1).dimensions(), (1, 1));
}

#[test]
fn test_module_grid_new_rejects_mismatch() {
    assert!(ModuleGrid::new(0, vec![]).is_none());
    assert!(ModuleGrid::new(2, vec![Module::Dark; 3]).is_none());
    let grid = ModuleGrid::new(1, vec![Module::Light]).unwrap();
    assert_eq!(grid.width(), 1);
    assert_eq!(grid.get(0, 0), Module::Light);
}

#[test]
fn test_encoder_grid_shape() {
    // Three payload bytes fit QR version 1: a 21-module symbol whose
    // top-left finder corner is always dark.
    let grid = QRCode::new(vec![0x61, 0x62, 0x63]).to_qrcode().unwrap();
    assert_eq!(grid.width(), 21);
    assert_eq!(grid.get(0, 0), Module::Dark);
    assert_eq!(grid.get(20, 0), Module::Dark);
    assert_eq!(grid.get(0, 20), Module::Dark);
}

#[test]
fn test_encoding_construction_error() {
    // No symbol version holds 5000 bytes; the encoder's rejection is
    // surfaced as a typed error.
    let qrcode = QRCode::new(vec![0u8; 5000]);
    assert_eq!(qrcode.to_png(21), Err(QrcError::EncodingConstruction));
    assert_eq!(qrcode.to_svg(512), Err(QrcError::EncodingConstruction));
}

#[test]
fn test_combine_two_symbols() {
    // Two 21-module symbols combine to a 42x42 canvas; each column band
    // equals the standalone unit rasterization, and the rows below each
    // symbol are fully transparent.
    let first = QRCode::from_string("abc".to_string());
    let second = QRCode::from_string("xyz".to_string());
    let combined = QRCode::combine_qr_codes(&vec![first.clone(), second.clone()]).unwrap();
    assert_eq!(combined.dimensions(), (42, 42));

    let first_alone = first.to_png(21).unwrap();
    let second_alone = second.to_png(21).unwrap();
    for y in 0..21 {
        for x in 0..21 {
            assert_eq!(combined.get_pixel(x, y), first_alone.get_pixel(x, y));
            assert_eq!(combined.get_pixel(21 + x, y), second_alone.get_pixel(x, y));
        }
    }
    let transparent = Color::new(0, 0, 0, 0);
    for y in 21..42 {
        for x in 0..42 {
            assert_eq!(combined.get_pixel(x, y), transparent);
        }
    }
}

#[test]
fn test_combine_empty() {
    let result = QRCode::combine_qr_codes(&vec![]);
    assert_eq!(result, Err(QrcError::EmptyInput));
}

#[test]
fn test_combine_encoding_failure() {
    let codes = vec![QRCode::new(vec![0u8; 5000])];
    assert_eq!(
        QRCode::combine_qr_codes(&codes),
        Err(QrcError::EncodingConstruction)
    );
}

#[test]
fn test_watermark_transparent_identity() {
    // A fully transparent watermark leaves the base unchanged, however
    // often it is re-applied.
    let qrcode = QRCode::from_string("watermark base".to_string());
    let mut img = qrcode.to_png(64).unwrap();
    let untouched = img.clone();
    let clear = PixelCanvas::new_filled(8, 8, Color::new(5, 6, 7, 0));
    QRCode::add_image_watermark(&mut img, &clear).unwrap();
    assert_eq!(img, untouched);
    QRCode::add_image_watermark(&mut img, &clear).unwrap();
    assert_eq!(img, untouched);
}

#[test]
fn test_watermark_opaque_replaces() {
    // A fully opaque watermark exactly replaces the covered bottom-right
    // region and leaves everything else as it was.
    let qrcode = QRCode::from_string("watermark base".to_string());
    let mut img = qrcode.to_png(64).unwrap();
    let untouched = img.clone();
    let stamp_color = Color::new(9, 8, 7, 255);
    let stamp = PixelCanvas::new_filled(8, 8, stamp_color);
    QRCode::add_image_watermark(&mut img, &stamp).unwrap();
    for y in 0..64 {
        for x in 0..64 {
            if x >= 56 && y >= 56 {
                assert_eq!(img.get_pixel(x, y), stamp_color);
            } else {
                assert_eq!(img.get_pixel(x, y), untouched.get_pixel(x, y));
            }
        }
    }
}

#[test]
fn test_watermark_alpha_blend_exact() {
    // Exact integer "over" blending: alpha 128 over a known base.
    let mut base = PixelCanvas::new_filled(2, 2, Color::new(100, 200, 0, 40));
    let wm = PixelCanvas::new_filled(1, 1, Color::new(50, 10, 255, 128));
    QRCode::add_image_watermark(&mut base, &wm).unwrap();
    // new_r = (127*100 + 128*50) / 255 = 19100 / 255 = 74
    // new_g = (127*200 + 128*10) / 255 = 26680 / 255 = 104
    // new_b = (127*0 + 128*255) / 255 = 32640 / 255 = 128
    // new_a = 40 + 128*(255-40)/255 = 40 + 107 = 147
    assert_eq!(base.get_pixel(1, 1), Color::new(74, 104, 128, 147));
    assert_eq!(base.get_pixel(0, 0), Color::new(100, 200, 0, 40));
}

#[test]
fn test_watermark_out_of_bounds() {
    let mut img = PixelCanvas::new_filled(4, 4, Color::new(1, 2, 3, 4));
    let untouched = img.clone();
    let too_wide = PixelCanvas::new_filled(5, 2, Color::new(0, 0, 0, 255));
    assert_eq!(
        QRCode::add_image_watermark(&mut img, &too_wide),
        Err(QrcError::OutOfBoundsComposition)
    );
    assert_eq!(img, untouched);
}

#[test]
fn test_overlay_image() {
    let qrcode = QRCode::new("some data".as_bytes().to_vec());
    let grid = qrcode.to_qrcode().unwrap();
    let n = grid.width() as u32;
    let logo_color = Color::new(255, 0, 0, 255);
    let logo = PixelCanvas::new_filled(10, 10, logo_color);
    let with_logo = qrcode.overlay_image(&logo).unwrap();
    assert_eq!(with_logo.dimensions(), (n, n));
    // Overwritten region holds the logo pixels verbatim.
    assert_eq!(with_logo.get_pixel(0, 0), logo_color);
    assert_eq!(with_logo.get_pixel(9, 9), logo_color);
    // Outside it, the unit rasterization of the symbol shows through.
    let expected = if grid.get(15, 15) == Module::Dark {
        Color::new(0, 0, 0, 0)
    } else {
        Color::new(255, 255, 255, 255)
    };
    assert_eq!(with_logo.get_pixel(15, 15), expected);
}

#[test]
fn test_overlay_image_out_of_bounds() {
    let qrcode = QRCode::new("some data".as_bytes().to_vec());
    let huge = PixelCanvas::new_filled(500, 500, Color::new(0, 0, 0, 255));
    assert_eq!(
        qrcode.overlay_image(&huge),
        Err(QrcError::OutOfBoundsComposition)
    );
}

#[test]
fn test_compress_data_round_trip() {
    let text = "Some large string of data that compresses and inflates back";
    let compressed = QRCode::compress_data(text);
    assert_ne!(compressed, text.as_bytes().to_vec());
    let mut decoder = flate2::read::ZlibDecoder::new(&compressed[..]);
    let mut inflated = Vec::new();
    decoder.read_to_end(&mut inflated).unwrap();
    assert_eq!(inflated, text.as_bytes().to_vec());
}

#[test]
fn test_svg_deterministic() {
    // Identical inputs give byte-identical vector documents.
    let qrcode = QRCode::from_string(URL.to_string());
    let once = qrcode.to_svg(512).unwrap();
    let twice = qrcode.to_svg(512).unwrap();
    assert_eq!(once, twice);
    assert!(!once.is_empty());
    assert!(once.starts_with("<?xml"));
    assert!(once.contains("<svg"));
}

#[test]
fn test_qr_code_to_other_formats() {
    let data = vec![0x61, 0x62, 0x63];
    let jpg = qr_code_to(data.clone(), "jpg", 64).unwrap();
    let gif = qr_code_to(data.clone(), "gif", 64).unwrap();
    let png = qr_code_to(data, "png", 64).unwrap();
    assert_eq!(jpg, png);
    assert_eq!(gif, png);
}

#[test]
fn test_create_dynamic() {
    let qr = QRCode::create_dynamic("Initial Data");
    assert_eq!(
        qr.data,
        "https://your-api-endpoint.com/update?qrcode=Initial Data"
            .as_bytes()
            .to_vec()
    );
    assert_eq!(qr.get_encoding_format(), "utf-8");
}

#[test]
fn test_create_multilanguage() {
    let entries = vec![
        ("en".to_string(), "Hello".to_string()),
        ("es".to_string(), "Hola".to_string()),
        ("fr".to_string(), "Bonjour".to_string()),
    ];
    let qr = QRCode::create_multilanguage(entries);
    assert_eq!(qr.data, "Hello".as_bytes().to_vec());

    let no_match = vec![("es".to_string(), "Hola".to_string())];
    let qr = QRCode::create_multilanguage(no_match);
    assert_eq!(qr.data, Vec::<u8>::new());
}

#[test]
fn test_create_multilanguage_duplicate_labels() {
    // With two entries under the same label, the first one wins.
    let entries = vec![
        ("en".to_string(), "first".to_string()),
        ("en".to_string(), "second".to_string()),
    ];
    let qr = QRCode::create_multilanguage(entries);
    assert_eq!(qr.data, "first".as_bytes().to_vec());
}

#[test]
fn test_batch_generate_qr_codes() {
    let inputs = vec![
        "https://example.com".to_string(),
        "https://example2.com".to_string(),
    ];
    let qr_codes = QRCode::batch_generate_qr_codes(inputs);
    assert_eq!(qr_codes.len(), 2);
    assert_eq!(qr_codes[0].data, "https://example.com".as_bytes().to_vec());
    assert_eq!(qr_codes[1].data, "https://example2.com".as_bytes().to_vec());
}

#[test]
fn test_canvas_fill_and_put() {
    let fill = Color::new(7, 7, 7, 7);
    let mut canvas = PixelCanvas::new_filled(3, 2, fill);
    assert_eq!(canvas.dimensions(), (3, 2));
    assert_eq!(canvas.len(), 24);
    assert_eq!(canvas.get_pixel(2, 1), fill);
    let other = Color::new(1, 2, 3, 4);
    canvas.put_pixel(1, 0, other);
    assert_eq!(canvas.get_pixel(1, 0), other);
    assert_eq!(canvas.get_pixel(0, 0), fill);
}

#[test]
fn test_map_module() {
    let dark = Color::new(0, 0, 0, 0);
    let light = Color::new(255, 255, 255, 255);
    assert_eq!(qrc::color::map_module(Module::Dark, dark, light), dark);
    assert_eq!(qrc::color::map_module(Module::Light, dark, light), light);
}
