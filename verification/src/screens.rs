//! The menu screens as they are drawn into the screen buffer: the pictures of the menu
//! items, the texts, and the frame around the selected item.

use vstd::prelude::*;

use crate::bitmap::{bmp_items, char_drawn, char_fits, draw_char_small, lemma_char_drawn_len, BmpVec};
use crate::config::Config;
use crate::frame::{apply_or, darken_count, darkened, draw_menu_frame, frame_writes, lemma_apply_or_len, sub_389e, MenuFrame};
use crate::menu::settings_items;
use crate::recs_bar::{bar_drawn, bar_len, bar_rest, border_row, difficulty_drawn, inner_row, inner_rows, percent_drawn, percent_fits, sub_445d, RECS_VALUE_POS};
use crate::video::recs_percent;
use crate::sprite::{draw_sprite, lemma_sprite_drawn_len, sprite_drawn, sprite_rows, Point, Size, VGA_SIZE};

verus! {

/// The screen after sprite `ix` of a strip of `w` x `h` pictures is drawn at `pos`, the
/// strip read from that picture to its end (as many rows as fit).
pub open spec fn strip_drawn(buf: Seq<u8>, data: Seq<u8>, w: int, h: int, pos: Point, ix: int) -> Seq<u8> {
    let d = data.subrange(ix * w * h, data.len() as int);
    sprite_drawn(buf, d, pos.spec_index(), w, sprite_rows(buf.len() as int, pos.spec_index(), d.len() as int, w, h) as nat)
}

/// The screen after picture `ix` of a strip of `w` x `h` pictures is drawn at `pos`,
/// where the strip holds the whole picture; otherwise the screen as it was.
pub open spec fn picture_drawn(buf: Seq<u8>, data: Seq<u8>, w: int, h: int, pos: Point, ix: int) -> Seq<u8> {
    if (ix + 1) * w * h <= data.len() {
        let d = data.subrange(ix * w * h, (ix + 1) * w * h);
        sprite_drawn(buf, d, pos.spec_index(), w, sprite_rows(buf.len() as int, pos.spec_index(), w * h, w, h) as nat)
    } else {
        buf
    }
}

/// Drawing a picture leaves the screen's length as it is.
proof fn lemma_picture_len(buf: Seq<u8>, data: Seq<u8>, w: int, h: int, pos: Point, ix: int)
    ensures
        picture_drawn(buf, data, w, h, pos, ix).len() == buf.len(),
{
    if (ix + 1) * w * h <= data.len() {
        let d = data.subrange(ix * w * h, (ix + 1) * w * h);
        lemma_sprite_drawn_len(buf, d, pos.spec_index(), w, sprite_rows(buf.len() as int, pos.spec_index(), w * h, w, h) as nat);
    }
}

/// 3864: draws main menu picture `ix` (104 x 26) at `pos`, the strip from that picture on.
pub fn draw_menu_item(buf: &mut Vec<u8>, data: &[u8], pos: Point, ix: u8)
    requires
        ix * 2704 <= data@.len(),
        pos.y * 320 + pos.x <= old(buf)@.len(),
    ensures
        final(buf)@ == strip_drawn(old(buf)@, data@, 104, 26, pos, ix as int),
{
    let start = (ix as usize) * 2704;
    let d = slice_from(data, start);
    assert(d@ == data@.subrange(ix * 104 * 26, data@.len() as int));
    draw_sprite(buf, d, Size::wh(104, 26), pos);
}

/// The bytes of `data` from `start` on.
fn slice_from(data: &[u8], start: usize) -> (r: &[u8])
    requires
        start <= data@.len(),
    ensures
        r@ == data@.subrange(start as int, data@.len() as int),
{
    vstd::slice::slice_subrange(data, start, data.len())
}

/// A picture of a strip drawn only where the strip holds all of it (see
/// [`picture_drawn`]).
fn draw_picture(buf: &mut Vec<u8>, data: &[u8], size: Size, pos: Point, ix: u8)
    requires
        1 <= size.width <= 320,
        size.height <= 200,
        (ix + 1) * size.width * size.height <= data@.len() ==> pos.y * 320 + pos.x <= old(buf)@.len(),
    ensures
        final(buf)@ == picture_drawn(old(buf)@, data@, size.width as int, size.height as int, pos, ix as int),
{
    assert(size.width * size.height <= 64000) by (nonlinear_arith)
        requires
            size.width <= 320,
            size.height <= 200,
    ;
    let sz = size.size();
    assert(ix * sz + sz <= 256 * 64000) by (nonlinear_arith)
        requires
            ix < 256,
            sz <= 64000,
    ;
    let start = (ix as usize) * sz;
    let end = start + sz;
    assert(start == ix * size.width * size.height && end == (ix + 1) * size.width * size.height) by (nonlinear_arith)
        requires
            sz == size.width * size.height,
            start == ix * sz,
            end == start + sz,
    ;
    if end <= data.len() {
        let d = vstd::slice::slice_subrange(data, start, end);
        draw_sprite(buf, d, size, pos);
    }
}

/// 3D5F: draws settings menu picture `ix` (96 x 34) at `pos` (see [`picture_drawn`]).
pub fn draw_middle_menu_item(buf: &mut Vec<u8>, data: &[u8], pos: Point, ix: u8)
    requires
        (ix + 1) * 96 * 34 <= data@.len() ==> pos.y * 320 + pos.x <= old(buf)@.len(),
    ensures
        final(buf)@ == picture_drawn(old(buf)@, data@, 96, 34, pos, ix as int),
{
    draw_picture(buf, data, Size::wh(96, 34), pos, ix);
}

/// 443C: draws course menu picture `ix` (24 x 26) at `pos` (see [`picture_drawn`]).
pub fn draw_small_menu_item(buf: &mut Vec<u8>, data: &[u8], pos: Point, ix: u8)
    requires
        (ix + 1) * 24 * 26 <= data@.len() ==> pos.y * 320 + pos.x <= old(buf)@.len(),
    ensures
        final(buf)@ == picture_drawn(old(buf)@, data@, 24, 26, pos, ix as int),
{
    draw_picture(buf, data, Size::wh(24, 26), pos, ix);
}

/// The screen after `text` is drawn from `pos` in the small font, seven pixels per
/// character; `None` where a character cannot be drawn.
pub open spec fn narrow_drawn(buf: Seq<u8>, text: Seq<u8>, pos: Point, g: Seq<(u16, u16, Seq<u8>)>) -> Option<Seq<u8>>
    decreases text.len(),
{
    if text.len() == 0 {
        Some(buf)
    } else {
        match char_drawn(buf, text[0], pos, g) {
            None => None,
            Some(b) => narrow_drawn(b, text.subrange(1, text.len() as int), Point { x: (pos.x + 7) as usize, ..pos }, g),
        }
    }
}

/// Whether each character of `text` from `pos` on fits (see [`char_fits`]).
pub open spec fn narrow_fits(text: Seq<u8>, pos: Point, g: Seq<(u16, u16, Seq<u8>)>) -> bool {
    &&& pos.x + 7 * text.len() <= usize::MAX
    &&& forall|i: int| 0 <= i < text.len() ==> #[trigger] char_fits(text[i], Point { x: (pos.x + 7 * i) as usize, ..pos }, g)
}

/// 3891: draws `text` from `pos` in the small font, seven pixels per character.
pub fn print_string_narrow(buf: &mut Vec<u8>, text: &[u8], pos: Point, font: &BmpVec)
    requires
        narrow_drawn(old(buf)@, text@, pos, bmp_items(*font)) is Some,
        narrow_fits(text@, pos, bmp_items(*font)),
    ensures
        final(buf)@ == narrow_drawn(old(buf)@, text@, pos, bmp_items(*font))->0,
{
    let ghost b0 = buf@;
    let mut p = pos;
    let mut i: usize = 0;
    assert(text@.subrange(0, text@.len() as int) =~= text@);
    while i < text.len()
        invariant
            i <= text@.len(),
            p == (Point { x: (pos.x + 7 * i) as usize, ..pos }),
            narrow_drawn(buf@, text@.subrange(i as int, text@.len() as int), p, bmp_items(*font)) == narrow_drawn(
                b0,
                text@,
                pos,
                bmp_items(*font),
            ),
            narrow_drawn(b0, text@, pos, bmp_items(*font)) is Some,
            narrow_fits(text@, pos, bmp_items(*font)),
        decreases text@.len() - i,
    {
        assert(text@.subrange(i as int, text@.len() as int).subrange(1, text@.len() - i) =~= text@.subrange(
            i + 1,
            text@.len() as int,
        ));
        assert(char_fits(text@[i as int], Point { x: (pos.x + 7 * i) as usize, ..pos }, bmp_items(*font)));
        draw_char_small(buf, text[i], p, font);
        p.x = p.x + 7;
        i = i + 1;
    }
}

/// `n` blank characters (the font's character zero).
pub open spec fn blanks(n: int) -> Seq<u8> {
    Seq::new(n as nat, |i: int| 0u8)
}

/// 3881: clears `len` characters from `pos` with the font's blank character.
pub fn print_empty_string(buf: &mut Vec<u8>, len: u16, pos: Point, font: &BmpVec)
    requires
        narrow_drawn(old(buf)@, blanks(len as int), pos, bmp_items(*font)) is Some,
        narrow_fits(blanks(len as int), pos, bmp_items(*font)),
    ensures
        final(buf)@ == narrow_drawn(old(buf)@, blanks(len as int), pos, bmp_items(*font))->0,
{
    let ghost b0 = buf@;
    let ghost text = blanks(len as int);
    let mut p = pos;
    let mut i: u16 = 0;
    assert(text.subrange(0, len as int) =~= text);
    while i < len
        invariant
            i <= len,
            text == blanks(len as int),
            p == (Point { x: (pos.x + 7 * i) as usize, ..pos }),
            narrow_drawn(buf@, text.subrange(i as int, len as int), p, bmp_items(*font)) == narrow_drawn(
                b0,
                text,
                pos,
                bmp_items(*font),
            ),
            narrow_drawn(b0, text, pos, bmp_items(*font)) is Some,
            narrow_fits(text, pos, bmp_items(*font)),
        decreases len - i,
    {
        assert(text.subrange(i as int, len as int).subrange(1, len - i) =~= text.subrange(i + 1, len as int));
        assert(char_fits(text[i as int], Point { x: (pos.x + 7 * i) as usize, ..pos }, bmp_items(*font)));
        assert(text.subrange(i as int, len as int)[0] == 0u8);
        draw_char_small(buf, 0, p, font);
        p.x = p.x + 7;
        i = i + 1;
    }
}

/// Where the settings menu's eight pictures stand: the three devices and the
/// configuration of player 1, then of player 2.
pub const SETTINGS_ITEM_POS: [(usize, usize); 8] = [
    (8, 25),
    (8, 64),
    (8, 103),
    (8, 142),
    (216, 25),
    (216, 64),
    (216, 103),
    (216, 142),
];

/// The screen after the first `k` settings pictures `pics` are drawn.
pub open spec fn settings_pictures(buf: Seq<u8>, data: Seq<u8>, pics: Seq<u8>, k: nat) -> Seq<u8>
    decreases k,
{
    if k == 0 {
        buf
    } else {
        let j = k - 1;
        let p = Point { x: SETTINGS_ITEM_POS@[j].0, y: SETTINGS_ITEM_POS@[j].1 };
        picture_drawn(settings_pictures(buf, data, pics, (k - 1) as nat), data, 96, 34, p, pics[j] as int)
    }
}

/// The screen after the area of the last frame is darkened (see [`sub_389e`]).
pub open spec fn frame_cleared(buf: Seq<u8>, frame: MenuFrame) -> Seq<u8> {
    if (frame.rows * 168) % 65536 == 0 {
        buf
    } else {
        darkened(buf, frame.start as int, darken_count(buf.len() as int, frame.start as int, frame.rows))
    }
}

/// The screen after the frame around an item of `w` x `h` at `(col, row)` is drawn.
pub open spec fn framed(buf: Seq<u8>, col: int, row: int, w: int, h: int) -> Seq<u8> {
    apply_or(buf, frame_writes(320 * (row - 6) + col - 6, w, h))
}

/// Whether the last frame lies on the screen, so that it can be darkened.
pub open spec fn frame_on_screen(frame: MenuFrame) -> bool {
    (frame.rows * 168) % 65536 != 0 ==> frame.start <= VGA_SIZE
}

/// 3C87 (drawing): the settings menu's pictures for the players' input devices, the
/// last frame darkened and the frame around the item at `(col, row)`. Returns where the
/// frame was drawn.
pub fn sub_3c87(buf: &mut Vec<u8>, items: &[u8], cfg: &Config, frame: MenuFrame, col: u16, row: u16) -> (r: MenuFrame)
    requires
        old(buf)@.len() == VGA_SIZE,
        cfg.word_16ff <= 2,
        cfg.word_1716 <= 2,
        col <= 2,
        row <= 3,
        frame_on_screen(frame),
    ensures
        r == (MenuFrame { start: (320 * (row * 39 + 21) + col * 104 + 2) as usize, rows: 42 }),
        final(buf)@ == framed(
            frame_cleared(settings_pictures(old(buf)@, items@, settings_items(cfg.word_16ff, cfg.word_1716), 8), frame),
            col * 104 + 8,
            row * 39 + 27,
            95,
            30,
        ),
{
    let pics = crate::menu::settings_item_pictures(cfg);
    let ghost b0 = buf@;
    let mut k: usize = 0;
    while k < 8
        invariant
            k <= 8,
            buf@.len() == VGA_SIZE,
            pics@ == settings_items(cfg.word_16ff, cfg.word_1716),
            buf@ == settings_pictures(b0, items@, pics@, k as nat),
        decreases 8 - k,
    {
        let (x, y) = SETTINGS_ITEM_POS[k];
        assert(x <= 216 && y <= 142) by {
            assert(SETTINGS_ITEM_POS@ =~= seq![(8usize, 25usize), (8, 64), (8, 103), (8, 142), (216, 25), (216, 64), (216, 103), (216, 142)]);
        }
        draw_middle_menu_item(buf, items, Point::xy(x, y), pics[k]);
        proof {
            lemma_picture_len(settings_pictures(b0, items@, pics@, k as nat), items@, 96, 34, Point { x, y }, pics@[k as int] as int);
        }
        k = k + 1;
    }
    sub_389e(buf, frame);
    draw_menu_frame(buf, col * 104 + 8, row * 39 + 27, Size::wh(95, 30))
}

/// Characters along a line short enough that their screen offsets stay small fit.
pub proof fn lemma_narrow_fits(text: Seq<u8>, pos: Point, g: Seq<(u16, u16, Seq<u8>)>)
    requires
        pos.x + 7 * text.len() <= 100000,
        pos.y <= 100000,
    ensures
        narrow_fits(text, pos, g),
{
    assert forall|i: int| 0 <= i < text.len() implies #[trigger] char_fits(text[i], Point { x: (pos.x + 7 * i) as usize, ..pos }, g) by {
    }
}

/// The screen after a text field is cleared (twelve blanks) and `text` drawn at `pos`.
pub open spec fn labelled(buf: Seq<u8>, text: Seq<u8>, pos: Point, g: Seq<(u16, u16, Seq<u8>)>) -> Option<Seq<u8>> {
    match narrow_drawn(buf, blanks(12), pos, g) {
        None => None,
        Some(b) => narrow_drawn(b, text, pos, g),
    }
}

/// 36D2 (a text field): clears twelve characters at `pos` and draws `text` there.
fn print_text(buf: &mut Vec<u8>, text: &[u8; 12], pos: Point, font: &BmpVec)
    requires
        labelled(old(buf)@, text@, pos, bmp_items(*font)) is Some,
        pos.x <= 1000,
        pos.y <= 1000,
    ensures
        final(buf)@ == labelled(old(buf)@, text@, pos, bmp_items(*font))->0,
{
    proof {
        lemma_narrow_fits(blanks(12), pos, bmp_items(*font));
        lemma_narrow_fits(text@, pos, bmp_items(*font));
    }
    print_empty_string(buf, 12, pos, font);
    print_string_narrow(buf, text, pos, font);
}

/// The main menu's pictures for the configuration: gears, acceleration, race, course
/// and the number of players.
pub open spec fn main_menu_pictures(buf: Seq<u8>, data: Seq<u8>, cfg: Config) -> Seq<u8> {
    let b1 = strip_drawn(buf, data, 104, 26, Point { x: 6, y: 52 }, cfg.p1_gears.spec_code() as int);
    let b2 = strip_drawn(b1, data, 104, 26, Point { x: 6, y: 91 }, cfg.p1_accel.spec_code() + 2);
    let b3 = strip_drawn(b2, data, 104, 26, Point { x: 214, y: 52 }, cfg.p2_gears.spec_code() as int);
    let b4 = strip_drawn(b3, data, 104, 26, Point { x: 214, y: 91 }, cfg.p2_accel.spec_code() + 2);
    let b5 = strip_drawn(b4, data, 104, 26, Point { x: 110, y: 52 }, cfg.race_type.spec_code() + 6);
    let b6 = strip_drawn(b5, data, 104, 26, Point { x: 110, y: 91 }, cfg.course_type.spec_code() + 10);
    strip_drawn(b6, data, 104, 26, Point { x: 110, y: 130 }, (if cfg.is_2pl_mode { 9int } else { 8 }))
}

/// The main menu's texts: the players' names and the course code; `None` where a
/// character cannot be drawn.
pub open spec fn main_menu_texts(buf: Seq<u8>, cfg: Config, g3: Seq<(u16, u16, Seq<u8>)>, g4: Seq<(u16, u16, Seq<u8>)>) -> Option<Seq<u8>> {
    match labelled(buf, cfg.p1_name@, Point { x: 13, y: 21 }, g4) {
        None => None,
        Some(b1) => match labelled(b1, cfg.p2_name@, Point { x: 221, y: 21 }, g4) {
            None => None,
            Some(b2) => labelled(b2, cfg.game_code@, Point { x: 117, y: 177 }, g3),
        },
    }
}

/// Drawing text leaves the screen's length as it is.
proof fn lemma_narrow_len(buf: Seq<u8>, text: Seq<u8>, pos: Point, g: Seq<(u16, u16, Seq<u8>)>)
    requires
        narrow_drawn(buf, text, pos, g) is Some,
    ensures
        narrow_drawn(buf, text, pos, g)->0.len() == buf.len(),
    decreases text.len(),
{
    if text.len() > 0 {
        let b = char_drawn(buf, text[0], pos, g)->0;
        lemma_char_drawn_len(buf, text[0], pos, g);
        lemma_narrow_len(b, text.subrange(1, text.len() as int), Point { x: (pos.x + 7) as usize, ..pos }, g);
    }
}

/// 36D2: the main menu's texts and pictures for the configuration, the last frame
/// darkened and the frame around the item at `(col, row)`. Returns where the frame was
/// drawn.
pub fn draw_main_menu_items(
    buf: &mut Vec<u8>,
    i15: &[u8],
    cfg: &Config,
    font3: &BmpVec,
    font4: &BmpVec,
    frame: MenuFrame,
    col: u16,
    row: u16,
) -> (r: MenuFrame)
    requires
        old(buf)@.len() == VGA_SIZE,
        (cfg.course_type.spec_code() + 10) * 2704 <= i15@.len(),
        main_menu_texts(old(buf)@, *cfg, bmp_items(*font3), bmp_items(*font4)) is Some,
        col <= 2,
        row <= 4,
        frame_on_screen(frame),
    ensures
        r == (MenuFrame { start: (320 * (row * 39 + 1) + col * 104 + 2) as usize, rows: 42 }),
        final(buf)@ == framed(
            frame_cleared(
                main_menu_pictures(main_menu_texts(old(buf)@, *cfg, bmp_items(*font3), bmp_items(*font4))->0, i15@, *cfg),
                frame,
            ),
            col * 104 + 8,
            row * 39 + 7,
            95,
            30,
        ),
{
    let ghost g3 = bmp_items(*font3);
    let ghost g4 = bmp_items(*font4);
    let ghost b0 = buf@;
    print_text(buf, &cfg.p1_name, Point::xy(13, 21), font4);
    print_text(buf, &cfg.p2_name, Point::xy(221, 21), font4);
    print_text(buf, &cfg.game_code, Point::xy(117, 177), font3);
    proof {
        let b1 = narrow_drawn(b0, blanks(12), Point { x: 13, y: 21 }, g4)->0;
        lemma_narrow_len(b0, blanks(12), Point { x: 13, y: 21 }, g4);
        let c1 = labelled(b0, cfg.p1_name@, Point { x: 13, y: 21 }, g4)->0;
        lemma_narrow_len(b1, cfg.p1_name@, Point { x: 13, y: 21 }, g4);
        let b2 = narrow_drawn(c1, blanks(12), Point { x: 221, y: 21 }, g4)->0;
        lemma_narrow_len(c1, blanks(12), Point { x: 221, y: 21 }, g4);
        let c2 = labelled(c1, cfg.p2_name@, Point { x: 221, y: 21 }, g4)->0;
        lemma_narrow_len(b2, cfg.p2_name@, Point { x: 221, y: 21 }, g4);
        let b3 = narrow_drawn(c2, blanks(12), Point { x: 117, y: 177 }, g3)->0;
        lemma_narrow_len(c2, blanks(12), Point { x: 117, y: 177 }, g3);
        lemma_narrow_len(b3, cfg.game_code@, Point { x: 117, y: 177 }, g3);
    }
    let ghost t = buf@;
    draw_menu_item(buf, i15, Point::xy(6, 52), cfg.p1_gears.code() as u8);
    proof { lemma_strip_len(t, i15@, 104, 26, Point { x: 6, y: 52 }, cfg.p1_gears.spec_code() as int); }
    let ghost t = buf@;
    draw_menu_item(buf, i15, Point::xy(6, 91), cfg.p1_accel.code() as u8 + 2);
    proof { lemma_strip_len(t, i15@, 104, 26, Point { x: 6, y: 91 }, cfg.p1_accel.spec_code() + 2); }
    let ghost t = buf@;
    draw_menu_item(buf, i15, Point::xy(214, 52), cfg.p2_gears.code() as u8);
    proof { lemma_strip_len(t, i15@, 104, 26, Point { x: 214, y: 52 }, cfg.p2_gears.spec_code() as int); }
    let ghost t = buf@;
    draw_menu_item(buf, i15, Point::xy(214, 91), cfg.p2_accel.code() as u8 + 2);
    proof { lemma_strip_len(t, i15@, 104, 26, Point { x: 214, y: 91 }, cfg.p2_accel.spec_code() + 2); }
    let ghost t = buf@;
    draw_menu_item(buf, i15, Point::xy(110, 52), cfg.race_type.code() as u8 + 6);
    proof { lemma_strip_len(t, i15@, 104, 26, Point { x: 110, y: 52 }, cfg.race_type.spec_code() + 6); }
    let ghost t = buf@;
    draw_menu_item(buf, i15, Point::xy(110, 91), cfg.course_type.code() as u8 + 10);
    proof { lemma_strip_len(t, i15@, 104, 26, Point { x: 110, y: 91 }, cfg.course_type.spec_code() + 10); }
    let players: u8 = if cfg.is_2pl_mode {
        9
    } else {
        8
    };
    let ghost t = buf@;
    draw_menu_item(buf, i15, Point::xy(110, 130), players);
    proof { lemma_strip_len(t, i15@, 104, 26, Point { x: 110, y: 130 }, players as int); }
    sub_389e(buf, frame);
    draw_menu_frame(buf, col * 104 + 8, row * 39 + 7, Size::wh(95, 30))
}

/// Drawing a strip picture leaves the screen's length as it is.
proof fn lemma_strip_len(buf: Seq<u8>, data: Seq<u8>, w: int, h: int, pos: Point, ix: int)
    ensures
        strip_drawn(buf, data, w, h, pos, ix).len() == buf.len(),
{
    let d = data.subrange(ix * w * h, data.len() as int);
    lemma_sprite_drawn_len(buf, d, pos.spec_index(), w, sprite_rows(buf.len() as int, pos.spec_index(), d.len() as int, w, h) as nat);
}

/// The keys screen's course codes: code `k` of the first `n` drawn at row `56 + 15 k`.
pub open spec fn keys_drawn(buf: Seq<u8>, keys: Seq<[u8; 12]>, g: Seq<(u16, u16, Seq<u8>)>, n: nat) -> Option<Seq<u8>>
    decreases n,
{
    if n == 0 {
        Some(buf)
    } else {
        match keys_drawn(buf, keys, g, (n - 1) as nat) {
            None => None,
            Some(b) => narrow_drawn(b, keys[n - 1]@, Point { x: 117, y: (56 + 15 * (n - 1)) as usize }, g),
        }
    }
}

/// 4281: the keys screen: the first nine course codes of the game, the last frame
/// darkened, and the frame around the exit (`sel` zero) or around the codes. Returns
/// where the frame was drawn.
pub fn draw_keys_and_frame(buf: &mut Vec<u8>, cfg: &Config, font4: &BmpVec, frame: MenuFrame, sel: u16) -> (r: MenuFrame)
    requires
        old(buf)@.len() == VGA_SIZE,
        keys_drawn(old(buf)@, cfg.game_keys@, bmp_items(*font4), 9) is Some,
        frame_on_screen(frame),
    ensures
        ({
            let b = frame_cleared(keys_drawn(old(buf)@, cfg.game_keys@, bmp_items(*font4), 9)->0, frame);
            if sel == 0 {
                &&& r == (MenuFrame { start: 426usize, rows: 42 })
                &&& final(buf)@ == framed(b, 112, 7, 95, 30)
            } else {
                &&& r == (MenuFrame { start: 12906usize, rows: 159 })
                &&& final(buf)@ == framed(b, 112, 46, 95, 147)
            }
        }),
{
    let ghost g = bmp_items(*font4);
    let ghost b0 = buf@;
    let mut y: usize = 56;
    let mut k: usize = 0;
    while k < 9
        invariant
            k <= 9,
            y == 56 + 15 * k,
            g == bmp_items(*font4),
            keys_drawn(b0, cfg.game_keys@, g, 9) is Some,
            keys_drawn(b0, cfg.game_keys@, g, k as nat) == Some(buf@),
            buf@.len() == VGA_SIZE,
        decreases 9 - k,
    {
        proof {
            lemma_keys_some(b0, cfg.game_keys@, g, 9, (k + 1) as nat);
            lemma_narrow_fits(cfg.game_keys@[k as int]@, Point { x: 117, y }, g);
            lemma_narrow_len(buf@, cfg.game_keys@[k as int]@, Point { x: 117, y }, g);
        }
        print_string_narrow(buf, &cfg.game_keys[k], Point::xy(117, y), font4);
        y = y + 15;
        k = k + 1;
    }
    sub_389e(buf, frame);
    if sel == 0 {
        draw_menu_frame(buf, 112, 7, Size::wh(95, 30))
    } else {
        draw_menu_frame(buf, 112, 46, Size::wh(95, 147))
    }
}

/// Where the codes can all be drawn, so can the first ones.
proof fn lemma_keys_some(buf: Seq<u8>, keys: Seq<[u8; 12]>, g: Seq<(u16, u16, Seq<u8>)>, n: nat, m: nat)
    requires
        keys_drawn(buf, keys, g, n) is Some,
        m <= n,
    ensures
        keys_drawn(buf, keys, g, m) is Some,
    decreases n,
{
    if m < n {
        lemma_keys_some(buf, keys, g, (n - 1) as nat, m);
    }
}

/// 3E43: the mouse options' frame: the last frame darkened and the frame drawn around
/// the selected button layout (left for 0, right otherwise). Returns where it was drawn.
pub fn sub_3e43(buf: &mut Vec<u8>, cfg: &Config, frame: MenuFrame) -> (r: MenuFrame)
    requires
        old(buf)@.len() == VGA_SIZE,
        frame_on_screen(frame),
    ensures
        ({
            let x: int = if cfg.word_16f2 == 0 { 56 } else { 160 };
            &&& r == (MenuFrame { start: (320 * 59 + x - 6) as usize, rows: 82 })
            &&& final(buf)@ == framed(frame_cleared(old(buf)@, frame), x, 65, 95, 70)
        }),
{
    sub_389e(buf, frame);
    let x: u16 = if cfg.word_16f2 == 0 {
        56
    } else {
        160
    };
    draw_menu_frame(buf, x, 65, Size::wh(95, 70))
}

/// 4764: the car selection's animation frame for timer count `ticks`: one of sixteen
/// pictures of 88 x 24, a new one every 24 ticks, at (91, 97) where the strip holds it.
pub fn sub_4764(buf: &mut Vec<u8>, car: &[u8], ticks: u16)
    requires
        old(buf)@.len() == VGA_SIZE,
    ensures
        final(buf)@ == picture_drawn(old(buf)@, car@, 88, 24, Point { x: 91, y: 97 }, ((ticks / 24) % 16) as int),
{
    let frame = ((ticks / 24) & 0x0F) as u8;
    assert((ticks / 24) & 0x0F == (ticks / 24) % 16) by (bit_vector);
    draw_picture(buf, car, Size::wh(88, 24), Point::xy(91, 97), frame);
}

/// The text field at `pos` after it is drawn for editing: `len` blanks on its row and
/// three pixels lower, the text, and the cursor mark (a dot) under the character at
/// `cursor` (at most the last one).
pub open spec fn input_drawn(buf: Seq<u8>, input: Seq<u8>, pos: Point, len: u16, cursor: u16, g: Seq<(u16, u16, Seq<u8>)>) -> Option<Seq<u8>> {
    let c = if cursor < len - 1 { cursor as int } else { len - 1 };
    match narrow_drawn(buf, blanks(len as int), pos, g) {
        None => None,
        Some(b1) => match narrow_drawn(b1, blanks(len as int), Point { y: (pos.y + 3) as usize, ..pos }, g) {
            None => None,
            Some(b2) => match narrow_drawn(b2, input, pos, g) {
                None => None,
                Some(b3) => char_drawn(b3, 46, Point { x: (pos.x + 7 * c) as usize, y: (pos.y + 9) as usize }, g),
            },
        },
    }
}

/// 4637 (drawing): draws a text field being edited (see [`input_drawn`]).
pub fn draw_user_input(buf: &mut Vec<u8>, input: &[u8], pos: Point, len: u16, cursor: u16, font: &BmpVec)
    requires
        len >= 1,
        pos.x + 7 * len + 7 * input@.len() <= 10000,
        pos.y <= 10000,
        input_drawn(old(buf)@, input@, pos, len, cursor, bmp_items(*font)) is Some,
    ensures
        final(buf)@ == input_drawn(old(buf)@, input@, pos, len, cursor, bmp_items(*font))->0,
{
    let ghost g = bmp_items(*font);
    proof {
        lemma_narrow_fits(blanks(len as int), pos, g);
        lemma_narrow_fits(blanks(len as int), Point { y: (pos.y + 3) as usize, ..pos }, g);
        lemma_narrow_fits(input@, pos, g);
    }
    print_empty_string(buf, len, pos, font);
    print_empty_string(buf, len, Point::xy(pos.x, pos.y + 3), font);
    print_string_narrow(buf, input, pos, font);
    let c = if cursor < len - 1 {
        cursor
    } else {
        len - 1
    };
    let p = Point::xy(pos.x + (c as usize) * 7, pos.y + 9);
    proof {
        lemma_char_fits_small(46, p, g);
    }
    draw_char_small(buf, 46, p, font);
}

/// A character at a small position fits.
pub proof fn lemma_char_fits_small(chr: u8, pos: Point, g: Seq<(u16, u16, Seq<u8>)>)
    requires
        pos.x <= 100000,
        pos.y <= 100000,
    ensures
        char_fits(chr, pos, g),
{
}

/// What setting `ix` of the course menu shows: its bar and per cent value, or for the
/// difficulty (8) its two digits (see [`sub_445d`]).
pub open spec fn recs_item_drawn(buf: Seq<u8>, ix: int, recs: Seq<u16>, difficulty: u16, g4: Seq<(u16, u16, Seq<u8>)>, g5: Seq<(u16, u16, Seq<u8>)>) -> Option<Seq<u8>> {
    if ix == 8 {
        difficulty_drawn(buf, difficulty, g5)
    } else {
        let p = Point { x: RECS_VALUE_POS@[ix].0, y: RECS_VALUE_POS@[ix].1 };
        let v = recs[ix + 1];
        percent_drawn(bar_drawn(buf, p, v), recs_percent(v), Point { x: (p.x + 26) as usize, y: (p.y + 5) as usize }, g4)
    }
}

/// The course menu's first `n` settings drawn one after the other.
pub open spec fn recs_items_drawn(buf: Seq<u8>, n: nat, recs: Seq<u16>, difficulty: u16, g4: Seq<(u16, u16, Seq<u8>)>, g5: Seq<(u16, u16, Seq<u8>)>) -> Option<Seq<u8>>
    decreases n,
{
    if n == 0 {
        Some(buf)
    } else {
        match recs_items_drawn(buf, (n - 1) as nat, recs, difficulty, g4, g5) {
            None => None,
            Some(b) => recs_item_drawn(b, n - 1, recs, difficulty, g4, g5),
        }
    }
}

/// The course route of the first course value (13 skipped).
pub open spec fn menu_route(v: u16) -> int {
    if v % 256 >= 13 {
        v - 1
    } else {
        v as int
    }
}

/// The course menu before its settings: the background, the route pictures (A to B or
/// circular), the course code, the scenery's picture and the frame around the item at
/// `(col, row)` (the whole scenery row for row 4); `None` where the code cannot be drawn.
pub open spec fn recs_menu_top(
    buf: Seq<u8>,
    bg: Seq<u8>,
    items: Seq<u8>,
    route_value: u16,
    code: Seq<u8>,
    col: int,
    row: int,
    g3: Seq<(u16, u16, Seq<u8>)>,
) -> Option<Seq<u8>> {
    let b1 = sprite_drawn(buf, bg, 0, 320, sprite_rows(buf.len() as int, 0, bg.len() as int, 320, 200) as nat);
    let route = menu_route(route_value);
    let sc = route / 2;
    let b2 = if route % 2 == 0 {
        picture_drawn(picture_drawn(b1, items, 24, 26, Point { x: 16, y: 13 }, 13), items, 24, 26, Point { x: 40, y: 13 }, 14)
    } else {
        picture_drawn(b1, items, 24, 26, Point { x: 72, y: 13 }, 15)
    };
    match labelled(b2, code, Point { x: 221, y: 21 }, g3) {
        None => None,
        Some(b3) => {
            let b4 = picture_drawn(b3, items, 24, 26, Point { x: (sc * 24 + 4) as usize, y: 169 }, sc % 256);
            Some(if row == 4 { framed(b4, 8, 163, 303, 30) } else { framed(b4, col * 104 + 8, row * 39 + 7, 95, 30) })
        },
    }
}

/// 41C6: the course menu: its background, route, code, scenery and frame (see
/// [`recs_menu_top`]), then its nine settings (see [`recs_items_drawn`]).
pub fn draw_recs_menu(
    buf: &mut Vec<u8>,
    bg: &[u8],
    items: &[u8],
    recs: &[u16; 9],
    difficulty: u16,
    code: &[u8; 12],
    col: u16,
    row: u16,
    font3: &BmpVec,
    font4: &BmpVec,
    font5: &BmpVec,
)
    requires
        old(buf)@.len() == VGA_SIZE,
        col <= 2,
        row <= 4,
        ({
            let sc = menu_route(recs@[0]) / 2;
            (sc % 256 + 1) * 24 * 26 <= items@.len() ==> 169 * 320 + sc * 24 + 4 <= VGA_SIZE
        }),
        ({
            let top = recs_menu_top(old(buf)@, bg@, items@, recs@[0], code@, col as int, row as int, bmp_items(*font3));
            &&& top is Some
            &&& recs_items_drawn(top->0, 9, recs@, difficulty, bmp_items(*font4), bmp_items(*font5)) is Some
        }),
    ensures
        final(buf)@ == recs_items_drawn(
            recs_menu_top(old(buf)@, bg@, items@, recs@[0], code@, col as int, row as int, bmp_items(*font3))->0,
            9,
            recs@,
            difficulty,
            bmp_items(*font4),
            bmp_items(*font5),
        )->0,
{
    let ghost g3 = bmp_items(*font3);
    let ghost g4 = bmp_items(*font4);
    let ghost g5 = bmp_items(*font5);
    let ghost b0 = buf@;
    draw_sprite(buf, bg, Size::full(), Point::start());
    proof {
        lemma_sprite_drawn_len(b0, bg@, 0, 320, sprite_rows(b0.len() as int, 0, bg@.len() as int, 320, 200) as nat);
    }
    let mut route = recs[0];
    if route % 256 >= 13 {
        route = route - 1;
    }
    let sc = route / 2;
    let ghost b1 = buf@;
    if route % 2 == 0 {
        draw_small_menu_item(buf, items, Point::xy(16, 13), 13);
        proof { lemma_picture_len(b1, items@, 24, 26, Point { x: 16, y: 13 }, 13); }
        let ghost b = buf@;
        draw_small_menu_item(buf, items, Point::xy(40, 13), 14);
        proof { lemma_picture_len(b, items@, 24, 26, Point { x: 40, y: 13 }, 14); }
    } else {
        draw_small_menu_item(buf, items, Point::xy(72, 13), 15);
        proof { lemma_picture_len(b1, items@, 24, 26, Point { x: 72, y: 13 }, 15); }
    }
    let ghost b2 = buf@;
    print_text(buf, code, Point::xy(221, 21), font3);
    proof {
        let c1 = narrow_drawn(b2, blanks(12), Point { x: 221, y: 21 }, g3)->0;
        lemma_narrow_len(b2, blanks(12), Point { x: 221, y: 21 }, g3);
        lemma_narrow_len(c1, code@, Point { x: 221, y: 21 }, g3);
    }
    let ghost b3 = buf@;
    draw_small_menu_item(buf, items, Point::xy((sc as usize) * 24 + 4, 169), (sc % 256) as u8);
    proof { lemma_picture_len(b3, items@, 24, 26, Point { x: (sc * 24 + 4) as usize, y: 169 }, (sc % 256) as int); }
    let ghost b4 = buf@;
    let _frame = if row == 4 {
        draw_menu_frame(buf, 8, 163, Size::wh(303, 30))
    } else {
        draw_menu_frame(buf, col * 104 + 8, row * 39 + 7, Size::wh(95, 30))
    };
    proof {
        if row == 4 {
            lemma_apply_or_len(b4, frame_writes(50242int, 303, 30));
        } else {
            lemma_apply_or_len(b4, frame_writes(320 * (row * 39 + 1) + col * 104 + 2, 95, 30));
        }
    }
    let ghost top = buf@;
    let mut ix: usize = 0;
    while ix <= 8
        invariant
            ix <= 9,
            buf@.len() == VGA_SIZE,
            recs_items_drawn(top, 9, recs@, difficulty, g4, g5) is Some,
            recs_items_drawn(top, ix as nat, recs@, difficulty, g4, g5) == Some(buf@),
            g4 == bmp_items(*font4),
            g5 == bmp_items(*font5),
        decreases 9 - ix,
    {
        proof {
            lemma_recs_items_some(top, 9, (ix + 1) as nat, recs@, difficulty, g4, g5);
            lemma_recs_item_fits(buf@, ix as int, recs@, difficulty, g4, g5);
        }
        sub_445d(buf, ix, recs, difficulty, font4, font5);
        ix = ix + 1;
    }
}

/// Where all the settings can be drawn, so can the first ones.
proof fn lemma_recs_items_some(buf: Seq<u8>, n: nat, m: nat, recs: Seq<u16>, difficulty: u16, g4: Seq<(u16, u16, Seq<u8>)>, g5: Seq<(u16, u16, Seq<u8>)>)
    requires
        recs_items_drawn(buf, n, recs, difficulty, g4, g5) is Some,
        m <= n,
    ensures
        recs_items_drawn(buf, m, recs, difficulty, g4, g5) is Some,
    decreases n,
{
    if m < n {
        lemma_recs_items_some(buf, (n - 1) as nat, m, recs, difficulty, g4, g5);
    }
}

/// What drawing a setting needs besides its result: the characters fit, and the
/// screen keeps its length.
proof fn lemma_recs_item_fits(buf: Seq<u8>, ix: int, recs: Seq<u16>, difficulty: u16, g4: Seq<(u16, u16, Seq<u8>)>, g5: Seq<(u16, u16, Seq<u8>)>)
    requires
        0 <= ix <= 8,
        recs.len() == 9,
        recs_item_drawn(buf, ix, recs, difficulty, g4, g5) is Some,
    ensures
        recs_item_drawn(buf, ix, recs, difficulty, g4, g5)->0.len() == buf.len(),
        ix == 8 ==> {
            &&& char_fits((48 + (if difficulty / 10 < 9 { difficulty / 10 } else { 9 })) as u8, Point { x: 144, y: 132 }, g5)
            &&& char_fits((48 + difficulty % 10) as u8, Point { x: 160, y: 132 }, g5)
        },
        ix < 8 ==> ({
            let p = Point { x: RECS_VALUE_POS@[ix].0, y: RECS_VALUE_POS@[ix].1 };
            percent_fits(recs_percent(recs[ix + 1]), Point { x: (p.x + 26) as usize, y: (p.y + 5) as usize }, g4)
        }),
{
    assert(RECS_VALUE_POS@ =~= seq![(18usize, 54usize), (18, 93), (18, 132), (122, 54), (122, 93), (226, 54), (226, 93), (226, 132)]);
    if ix == 8 {
        let tens = if difficulty / 10 < 9 { difficulty / 10 } else { 9 };
        lemma_char_fits_small((48 + tens) as u8, Point { x: 144, y: 132 }, g5);
        lemma_char_fits_small((48 + difficulty % 10) as u8, Point { x: 160, y: 132 }, g5);
        let b = char_drawn(buf, (48 + tens) as u8, Point { x: 144, y: 132 }, g5)->0;
        lemma_char_drawn_len(buf, (48 + tens) as u8, Point { x: 144, y: 132 }, g5);
        lemma_char_drawn_len(b, (48 + difficulty % 10) as u8, Point { x: 160, y: 132 }, g5);
    } else {
        let p = Point { x: RECS_VALUE_POS@[ix].0, y: RECS_VALUE_POS@[ix].1 };
        let v = recs[ix + 1];
        let value = recs_percent(v);
        let pos = Point { x: (p.x + 26) as usize, y: (p.y + 5) as usize };
        let tens = ((value / 10) % 256) as u8;
        let ones = (value % 10) as u8;
        lemma_char_fits_small(49, Point { x: (pos.x - 7) as usize, ..pos }, g4);
        lemma_char_fits_small(48, pos, g4);
        lemma_char_fits_small(((48 + tens) % 256) as u8, pos, g4);
        lemma_char_fits_small((48 + ones) as u8, Point { x: (pos.x + 7) as usize, ..pos }, g4);
        lemma_char_fits_small(37, Point { x: (pos.x + 14) as usize, ..pos }, g4);
        lemma_percent_len(bar_drawn(buf, p, v), value, pos, g4);
        lemma_bar_len(buf, p, v);
    }
}

/// Drawing a bar leaves the screen's length as it is.
proof fn lemma_bar_len(buf: Seq<u8>, pos: Point, value: u16)
    ensures
        bar_drawn(buf, pos, value).len() == buf.len(),
{
    let bp = bar_len(value);
    let dx = bar_rest(bp);
    let b1 = border_row(buf, pos, bp, dx);
    lemma_inner_rows_len(b1, Point { y: (pos.y + 1) as usize, ..pos }, bp, dx, 20);
}

proof fn lemma_inner_rows_len(buf: Seq<u8>, pos: Point, bp: int, dx: int, n: nat)
    ensures
        inner_rows(buf, pos, bp, dx, n).len() == buf.len(),
    decreases n,
{
    if n > 0 {
        lemma_inner_rows_len(inner_row(buf, pos, bp, dx), Point { y: (pos.y + 1) as usize, ..pos }, bp, dx, (n - 1) as nat);
    }
}

/// Drawing a per cent value leaves the screen's length as it is.
proof fn lemma_percent_len(buf: Seq<u8>, value: u16, pos: Point, g: Seq<(u16, u16, Seq<u8>)>)
    requires
        percent_drawn(buf, value, pos, g) is Some,
    ensures
        percent_drawn(buf, value, pos, g)->0.len() == buf.len(),
{
    let tens = ((value / 10) % 256) as u8;
    let ones = (value % 10) as u8;
    let b1 = if tens >= 10 {
        match char_drawn(buf, 49, Point { x: (pos.x - 7) as usize, ..pos }, g) {
            Some(b) => {
                lemma_char_drawn_len(buf, 49, Point { x: (pos.x - 7) as usize, ..pos }, g);
                if char_drawn(b, 48, pos, g) is Some {
                    lemma_char_drawn_len(b, 48, pos, g);
                }
                char_drawn(b, 48, pos, g)
            },
            None => None,
        }
    } else if tens != 0 {
        if char_drawn(buf, ((48 + tens) % 256) as u8, pos, g) is Some {
            lemma_char_drawn_len(buf, ((48 + tens) % 256) as u8, pos, g);
        }
        char_drawn(buf, ((48 + tens) % 256) as u8, pos, g)
    } else {
        Some(buf)
    };
    let b = b1->0;
    lemma_char_drawn_len(b, (48 + ones) as u8, Point { x: (pos.x + 7) as usize, ..pos }, g);
    let b2 = char_drawn(b, (48 + ones) as u8, Point { x: (pos.x + 7) as usize, ..pos }, g)->0;
    lemma_char_drawn_len(b2, 37, Point { x: (pos.x + 14) as usize, ..pos }, g);
}

} // verus!
