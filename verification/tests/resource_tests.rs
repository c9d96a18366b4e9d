use lotus::archive::{arc_seek_res, make_res_key, res_unpack_simple, res_unpack_with_pal, sub_c96d, sub_c97e};
use lotus::bitmap::{bmp_draw, bmp_load_and_prepare, draw_char_small, print_string, sub_c557};
use lotus::sprite::{Point, VGA_SIZE};
use lotus::unpack::{arc_unpack_res, create_table};

#[test]
fn resource_names() {
    assert_eq!(sub_c97e(0), b'0');
    assert_eq!(sub_c97e(9), b'9');
    assert_eq!(sub_c97e(10), b'A');
    assert_eq!(sub_c97e(0x3F), b'F');
    assert_eq!(sub_c96d(b'I', 0x21), [b'I', b'2', b'1', 0]);
    assert_eq!(sub_c96d(b'C', 0xAB), [b'C', b'A', b'B', 0]);
    assert_eq!(make_res_key(b"abc\0"), *b"ABC     ");
    assert_eq!(make_res_key(b"I21\0"), *b"I21     ");
    assert_eq!(make_res_key(b"wxyz"), *b"WXYZ    ");
}

fn header() -> Vec<u8> {
    let mut h = vec![0u8, 0];
    for (name, sector) in [(b"XYZ     ", 1u16), (b"ABC     ", 5), (b"END     ", 9)] {
        h.extend_from_slice(name);
        h.extend_from_slice(&sector.to_le_bytes());
    }
    h
}

#[test]
fn archive_directory_search() {
    let h = header();
    assert_eq!(arc_seek_res(&h, b"abc\0"), Some((5 * 512, 4 * 512)));
    assert_eq!(arc_seek_res(&h, b"XYZ\0"), Some((512, 4 * 512)));
    // The last record only marks the end of the one before.
    assert_eq!(arc_seek_res(&h, b"END\0"), None);
    assert_eq!(arc_seek_res(&h, b"QQQ\0"), None);
    assert_eq!(arc_seek_res(&h[..10], b"XYZ\0"), None);
}

#[test]
fn unpack_table_starts_as_identity() {
    let t = create_table();
    for (i, e) in t.iter().enumerate() {
        assert_eq!(*e, (i as u16, 0));
    }
}

fn packed() -> Vec<u8> {
    // One table entry: 0x80 stands for "AB". Then: a run of three bytes ("AB" and
    // "C"), an escaped command byte repeating 'Z' twice, and the end.
    vec![1, 0xFF, 0x80, 0x41, 0x42, 0x03, 0x80, 0x43, 0xFF, 0x82, 0x5A, 0x00]
}

#[test]
fn unpacking() {
    assert_eq!(arc_unpack_res(&packed()), Some(b"ABCZZ".to_vec()));
    assert_eq!(res_unpack_simple(&packed()), b"ABCZZ".to_vec());
    assert_eq!(arc_unpack_res(&[]), None);
    assert_eq!(arc_unpack_res(&[0, 0xFF, 1, 2, 3]), None);
    assert_eq!(arc_unpack_res(&[1, 0xFF, 0x80]), None);
    // Data ending without the end command gives what was unpacked so far.
    assert_eq!(arc_unpack_res(&[1, 0xFF, 0, 0, 0, 0x02, 0x41]), Some(b"A".to_vec()));
}

#[test]
fn unpacking_long_runs() {
    // An extension of 0x12C bytes: 0xC0 | 0x01, 0x2C, then the value.
    let data = vec![1, 0xFF, 0, 0, 0, 0xC1, 0x2C, 0x07, 0x00];
    let out = arc_unpack_res(&data).unwrap();
    assert_eq!(out.len(), 300);
    assert!(out.iter().all(|&b| b == 7));
}

#[test]
fn unpacking_with_palette() {
    // 1000 bytes of 1: the picture is the first 232, the palette the last 768.
    let data = vec![1, 0xFF, 0, 0, 0, 0xC3, 0xE8, 0x01, 0x00];
    let (pic, pal) = res_unpack_with_pal(&data);
    assert_eq!(pic.len(), 232);
    assert_eq!(pal, [1u8; 768]);
}

#[test]
fn glyph_unpacking() {
    let g = sub_c557(&[0x12, 0x30], 2, 2, 0, 0x10);
    assert_eq!(g.repeat, 2);
    assert_eq!(g.height, 2);
    let mut want = vec![0xC0, 0x11, 0x12, 0x80, 0x13];
    want.resize(16, 0);
    assert_eq!(g.data, want);
    // A row wider than eight pixels is cut into runs.
    let g = sub_c557(&[0x11, 0x11, 0x11, 0x11, 0x12], 10, 1, 2, 0);
    assert_eq!(&g.data[..12], &[0xFF, 1, 1, 1, 1, 1, 1, 1, 1, 0x80, 1, 0]);
}

fn font() -> Vec<u8> {
    // One entry: data at 16, 2 by 2 pixels, colour 0 transparent, last.
    let mut d = vec![1, 0, 2, 0, 2, 0, 0, 0xFF];
    d.resize(16, 0);
    d.extend_from_slice(&[0x12, 0x30]);
    d
}

#[test]
fn font_loading_and_drawing() {
    let f = bmp_load_and_prepare(&font(), 0x10);
    assert_eq!(f.len(), 1);
    let g = &f[0];
    assert_eq!((g.repeat, g.height), (2, 2));
    let mut buf = vec![0xEEu8; VGA_SIZE];
    bmp_draw(&mut buf, 0, Point::xy(5, 1), &f);
    assert_eq!(&buf[325..327], &[0x11, 0x12]);
    assert_eq!(&buf[645..647], &[0x13, 0xEE]);
    assert_eq!(buf[327], 0xEE);
    // '0' is glyph 0 of the small font; other characters are not drawn.
    let mut buf2 = vec![0xEEu8; VGA_SIZE];
    draw_char_small(&mut buf2, b'0', Point::xy(5, 1), &f);
    assert_eq!(buf2, buf);
    let mut buf3 = vec![0xEEu8; VGA_SIZE];
    draw_char_small(&mut buf3, b'!', Point::xy(5, 1), &f);
    assert!(buf3.iter().all(|&b| b == 0xEE));
    // Centred text: one character at (156, 10).
    let mut buf4 = vec![0xEEu8; VGA_SIZE];
    print_string(&mut buf4, b"0", 10, &f);
    assert_eq!(buf4[10 * 320 + 156], 0x11);
}
