use clipimg::input::{
    hdrop_payload, png_to_dib, send_text_with_ime, set_multi_format_clipboard, unicode_scan_codes,
    unicode_text_units,
};
use clipimg::dib::rgba_to_dib;

#[test]
fn test_send_text_non_windows() {
    let result = send_text_with_ime("test");
    assert!(result.is_err());
}

#[test]
fn test_send_text_empty() {
    assert!(send_text_with_ime("").is_ok());
}

#[test]
fn test_multi_format_clipboard_non_windows() {
    let result = set_multi_format_clipboard("/test/path.png", "C:\\test.png");
    assert!(result.is_err());
}

#[test]
fn error_messages_of_unavailable_platform() {
    assert_eq!(send_text_with_ime("x"), Err("SendInput 仅在 Windows 上可用".to_string()));
    assert_eq!(
        set_multi_format_clipboard("a", "b"),
        Err("剪贴板操作仅在 Windows 上可用".to_string())
    );
}

#[test]
fn dib_of_two_by_two_image() {
    // Top row: red, green. Bottom row: blue, white (half transparent).
    let rgba = vec![
        255, 0, 0, 255, 0, 255, 0, 255, //
        0, 0, 255, 255, 255, 255, 255, 128,
    ];
    let dib = rgba_to_dib(2, 2, &rgba);
    assert_eq!(dib.len(), 40 + 16);
    let mut header = Vec::new();
    header.extend_from_slice(&40u32.to_le_bytes());
    header.extend_from_slice(&2i32.to_le_bytes());
    header.extend_from_slice(&2i32.to_le_bytes());
    header.extend_from_slice(&[1, 0]);
    header.extend_from_slice(&32u16.to_le_bytes());
    header.extend_from_slice(&0u32.to_le_bytes());
    header.extend_from_slice(&16u32.to_le_bytes());
    header.extend_from_slice(&[0u8; 16]);
    assert_eq!(&dib[..40], &header[..]);
    // Bottom row first, BGRA.
    assert_eq!(&dib[40..], &[255, 0, 0, 255, 255, 255, 255, 128, 0, 0, 255, 255, 0, 255, 0, 255]);
}

#[test]
fn dib_ignores_bytes_past_the_image() {
    let rgba = vec![1, 2, 3, 4, 9, 9, 9, 9];
    let dib = rgba_to_dib(1, 1, &rgba);
    assert_eq!(&dib[40..], &[3, 2, 1, 4]);
    let empty = rgba_to_dib(0, 5, &[]);
    assert_eq!(empty.len(), 40);
}

#[test]
fn png_to_dib_decodes_png() {
    let img = image::RgbaImage::from_fn(3, 2, |x, y| image::Rgba([x as u8 * 10, y as u8 * 20, 7, 200]));
    let mut png = Vec::new();
    img.write_to(&mut std::io::Cursor::new(&mut png), image::ImageFormat::Png).unwrap();
    let dib = png_to_dib(&png).unwrap();
    assert_eq!(dib, rgba_to_dib(3, 2, img.as_raw()));
    assert_eq!(&dib[40..44], &[7, 20, 0, 200]);
}

#[test]
fn png_to_dib_rejects_garbage() {
    let err = png_to_dib(b"not a png").unwrap_err();
    assert!(err.starts_with("解析 PNG 失败: "));
}

#[test]
fn unicode_text_matches_std_utf16() {
    for s in ["", "/workspace/.clip/a.png\n", "路径", "emoji 😀 ok"] {
        let mut expected: Vec<u16> = s.encode_utf16().collect();
        expected.push(0);
        assert_eq!(unicode_text_units(s), expected);
    }
}

#[test]
fn hdrop_payload_layout() {
    let paths = vec!["C:\\a.png".to_string(), "D:\\路.txt".to_string()];
    let payload = hdrop_payload(&paths);
    let mut expected = Vec::new();
    expected.extend_from_slice(&20u32.to_le_bytes());
    expected.extend_from_slice(&0i32.to_le_bytes());
    expected.extend_from_slice(&0i32.to_le_bytes());
    expected.extend_from_slice(&0i32.to_le_bytes());
    expected.extend_from_slice(&1i32.to_le_bytes());
    for p in &paths {
        for u in p.encode_utf16() {
            expected.extend_from_slice(&u.to_le_bytes());
        }
        expected.extend_from_slice(&[0, 0]);
    }
    expected.extend_from_slice(&[0, 0]);
    assert_eq!(payload, expected);
    assert_eq!(hdrop_payload(&vec![]).len(), 22);
}

#[test]
fn scan_codes_truncate_to_sixteen_bits() {
    assert_eq!(unicode_scan_codes("a路😀"), vec![0x61, 0x8DEF, 0xF600]);
}
