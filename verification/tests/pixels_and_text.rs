use winhider::frame::{bgra_to_rgba, downscale_rgba};
use winhider::icon::load_icon_pixels;
use winhider::patterns::{parse_pattern_list, render_pattern_list};
use winhider::text::{ascii_eq_ignore_case, c_buffer_prefix, truncate_middle};

#[test]
fn downscale_keeps_every_second_pixel() {
    // a four-by-two frame whose byte at flat position i is i
    let src: Vec<u8> = (0..32).collect();
    let out = downscale_rgba(&src, 4, 2, 2);
    assert_eq!(out, vec![0, 1, 2, 3, 8, 9, 10, 11]);
}

#[test]
fn downscale_by_one_is_the_identity() {
    let src: Vec<u8> = (0..16).collect();
    let out = downscale_rgba(&src, 2, 2, 1);
    assert_eq!(out, src);
}

#[test]
fn downscale_below_one_row_is_empty() {
    let src: Vec<u8> = (0..32).collect();
    let out = downscale_rgba(&src, 4, 2, 3);
    assert!(out.is_empty());
}

#[test]
fn swizzle_swaps_channels_and_repairs_alpha() {
    let src: Vec<u8> = vec![1, 2, 3, 0, 0, 0, 0, 0, 1, 2, 3, 7];
    let out = bgra_to_rgba(&src);
    // a coloured transparent pixel becomes opaque; a black transparent
    // pixel stays transparent; a set alpha is kept
    assert_eq!(out, vec![3, 2, 1, 255, 0, 0, 0, 0, 3, 2, 1, 7]);
}

#[test]
fn icon_decoding_returns_the_picture() {
    let raw: Vec<u8> = vec![10, 20, 30, 40, 50, 60, 70, 80];
    let img = image::RgbaImage::from_raw(2, 1, raw.clone()).unwrap();
    let mut buf: Vec<u8> = Vec::new();
    image::DynamicImage::ImageRgba8(img)
        .write_to(&mut std::io::Cursor::new(&mut buf), image::ImageFormat::Png)
        .unwrap();
    let (w, h, px) = load_icon_pixels(&buf);
    assert_eq!((w, h), (2, 1));
    assert_eq!(px, raw);
}

#[test]
fn undecodable_icon_bytes_fall_back_to_a_blue_square() {
    let (w, h, px) = load_icon_pixels(&vec![1, 2, 3]);
    assert_eq!((w, h), (32, 32));
    assert_eq!(px.len(), 32 * 32 * 4);
    for pixel in px.chunks(4) {
        assert_eq!(pixel, [0, 0, 255, 255]);
    }
}

#[test]
fn short_titles_are_left_alone() {
    assert_eq!(truncate_middle("hello", 10), "hello");
    assert_eq!(truncate_middle("", 0), "");
}

#[test]
fn long_titles_keep_both_ends_around_an_ellipsis() {
    assert_eq!(truncate_middle("abcdefghijklmno", 9), "abc...mno");
    assert_eq!(truncate_middle("abcdefghijklmno", 10), "abcd...mno");
    assert_eq!(truncate_middle("abcdef", 2), "...");
}

#[test]
fn process_names_compare_without_case_up_to_the_terminator() {
    let buffer: Vec<u8> = b"NOTEPAD.EXE\0leftover".to_vec();
    let name = c_buffer_prefix(&buffer);
    assert_eq!(name, b"NOTEPAD.EXE".to_vec());
    assert!(ascii_eq_ignore_case(&name, &b"notepad.exe".to_vec()));
    assert!(!ascii_eq_ignore_case(&name, &b"notepad".to_vec()));
    assert!(!ascii_eq_ignore_case(&name, &b"notepad.exf".to_vec()));
}

#[test]
fn pattern_files_are_trimmed_and_blank_lines_dropped() {
    let parsed = parse_pattern_list("  notepad \n\n\tchrome\r\n");
    assert_eq!(parsed, vec!["notepad".to_string(), "chrome".to_string()]);
    assert!(parse_pattern_list("").is_empty());
    assert!(parse_pattern_list(" \r\n\t\n").is_empty());
}

#[test]
fn pattern_files_round_trip() {
    let list = vec!["notepad".to_string(), "obs studio".to_string()];
    let rendered = render_pattern_list(&list);
    assert_eq!(rendered, "notepad\nobs studio");
    assert_eq!(parse_pattern_list(&rendered), list);
}
