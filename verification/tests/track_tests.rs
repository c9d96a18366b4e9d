use lotus::crc::smart_crc;
use lotus::data::Scenario;
use lotus::edges::{loc_bcfe, sub_bdbc, sub_be01};
use lotus::scenery::{sub_b67c, sub_b69d, sub_b7cd};
use lotus::stations::{sub_b9dd, sub_ba67};
use lotus::structures::prep_track_signs;
use lotus::track::{scale, TrackGen, TRACK_BUF_LEN};

fn zero_gen() -> TrackGen {
    TrackGen { buf: vec![0u8; TRACK_BUF_LEN], rng: [0; 4], game_rng: [0; 4], hi: 0 }
}

#[test]
fn drawing_numbers() {
    let mut tg = zero_gen();
    assert_eq!(tg.draw(), 0x0FE2);
    assert_eq!(tg.hi, 0x520A);
    assert_eq!(tg.draw(), 0x9016);
    let mut g = tg.game_rng;
    let (lo, hi) = lotus::crc::crc_common(&mut g);
    assert_eq!(tg.draw_game(), lo);
    assert_eq!(tg.hi, hi);
    assert_eq!(tg.game_rng, g);
}

#[test]
fn bounded_growth() {
    let mut tg = zero_gen();
    // Low bytes drawn: 226, 22, 84, 114, ...
    assert_eq!(tg.grow(0, 4, 12, 227), 3);
    let mut r = [0u32; 4];
    smart_crc(&mut r);
    smart_crc(&mut r);
    smart_crc(&mut r);
    assert_eq!(tg.rng, r);
    let mut tg = zero_gen();
    assert_eq!(tg.grow(0, 4, 24, 200), 0);
    let mut one = [0u32; 4];
    smart_crc(&mut one);
    assert_eq!(tg.rng, one);
    let mut tg = zero_gen();
    assert_eq!(tg.grow(30, 4, 24, 256), 0);
    assert_eq!(tg.rng, [0; 4]);
}

#[test]
fn settings_scaled_to_thresholds() {
    assert_eq!(scale(160, 50, 32), 112);
    assert_eq!(scale(-96, 50, 0), -48);
    assert_eq!(scale(-96, 51, 0), -48);
    assert_eq!(scale(160, 100, 64), 224);
}

#[test]
fn buffer_access() {
    let mut tg = zero_gen();
    tg.put(17, 9);
    assert_eq!(tg.get(17), 9);
    assert_eq!(tg.get(16), 0);
}

#[test]
fn road_edges_of_an_empty_course() {
    let mut tg = zero_gen();
    loc_bcfe(&mut tg, 40, false);
    // The first pass gives -40 + 8 and 40 - 8; the second pass eases the edges in from
    // -10 and 10 at the end of the buffer, one step per record.
    assert_eq!(tg.buf[1023 * 16 + 14], 245);
    assert_eq!(tg.buf[1023 * 16 + 15], 11);
    assert_eq!(tg.buf[1022 * 16 + 14], 244);
    assert_eq!(tg.buf[1002 * 16 + 14], 224);
    assert_eq!(tg.buf[1002 * 16 + 15], 32);
    assert_eq!(tg.buf[14], 224);
    assert_eq!(tg.buf[15], 32);
    assert_eq!(tg.buf[13], 0);
    let mut tg = zero_gen();
    loc_bcfe(&mut tg, 40, true);
    assert_eq!(tg.buf[14], 10);
    assert_eq!(tg.buf[1023 * 16 + 14], 10);
}

#[test]
fn road_edges_follow_objects() {
    let mut tg = zero_gen();
    // Record 0: a bounding object at position 20 and one at position 0.
    tg.buf[2] = 0x80;
    tg.buf[3] = 20;
    tg.buf[4] = 0x81;
    tg.buf[5] = 0;
    // An object that does not bound the road.
    tg.buf[6] = 0x88;
    tg.buf[7] = 5;
    loc_bcfe(&mut tg, 40, false);
    assert_eq!(tg.buf[15], 12);
    assert_eq!(tg.buf[14], 8);
}

#[test]
fn two_player_objects() {
    assert_eq!(sub_be01(0x90, 10, 1, 0, 6000), (0, 0, 1));
    assert_eq!(sub_be01(0x90, 10, 0, 0, 6000), (0x90, 10, 1));
    assert_eq!(sub_be01(0x80, 10, 1, 0, 6000), (0x80, 10, 1));
    assert_eq!(sub_be01(0, 5, 7, 0, 6000), (0, 5, 7));
    assert_eq!(sub_be01(0x90, 10, 1, 6000, 7000), (0x90, 10, 1));
    // 0xF0 stands for -7696.
    assert_eq!(sub_be01(0x90, 0xF0, 1, -8000, 0), (0, 0, 1));
    let mut tg = zero_gen();
    tg.buf[2] = 0x90;
    tg.buf[3] = 10;
    let before = tg.buf.clone();
    sub_bdbc(&mut tg, false, 40);
    assert_eq!(tg.buf, before);
}

#[test]
fn object_widths() {
    assert_eq!(sub_b67c(128, 100), 25);
    assert_eq!(sub_b69d(128, 100), 25);
    assert_eq!(sub_b67c(128, 0xFFFF), 0);
}

#[test]
fn straight_road_objects() {
    let mut buf = vec![0u8; 64];
    assert!(sub_b7cd(&buf, 0xB0, 20));
    buf[21] = 3;
    assert!(!sub_b7cd(&buf, 0xB0, 20));
    assert!(sub_b7cd(&buf, 0x80, 20));
    buf[21] = 0;
    buf[37] = 1;
    assert!(!sub_b7cd(&buf, 0x97, 20));
}

#[test]
fn race_pace_values() {
    assert_eq!(sub_ba67(0, Scenario::Forest, 50, 257, 3, false), (44, 6));
    assert_eq!(sub_ba67(0, Scenario::Forest, 50, 171, 3, true), (40, 6));
    assert_eq!(sub_ba67(1, Scenario::Desert, 99, 300, 1, false), (151, 16));
    assert_eq!(sub_ba67(2, Scenario::Rally, 0, 1000, 4, true), (3, 12));
}

#[test]
fn circular_checkpoints() {
    let mut cps = [7u16; 17];
    sub_b9dd(&mut cps, 3, 100);
    assert_eq!(&cps[..6], &[100, 200, 300, 400, 0xFFFF, 7]);
}

#[test]
fn no_signs_in_open_country() {
    let mut tg = zero_gen();
    tg.buf[5] = 1;
    let before = tg.buf.clone();
    prep_track_signs(&mut tg, Scenario::Desert);
    assert_eq!(tg.buf, before);
}

#[test]
fn two_player_mode_removes_objects() {
    let mut tg = zero_gen();
    tg.buf[2..10].copy_from_slice(&[0x90, 0, 0x91, 0, 0x80, 0, 0x92, 0]);
    tg.buf[16 + 2..16 + 10].copy_from_slice(&[0x90, 10, 0x91, 0, 0, 0, 0, 0]);
    // With half width -40 the objects at positions -39 to 39 go, except the first of a
    // record and those that stay in two-player races.
    sub_bdbc(&mut tg, true, -40);
    assert_eq!(&tg.buf[2..10], &[0x90, 0, 0, 0, 0x80, 0, 0, 0]);
    assert_eq!(&tg.buf[16 + 2..16 + 10], &[0x90, 10, 0, 0, 0, 0, 0, 0]);
    // With a positive half width the range is empty.
    let mut tg = zero_gen();
    tg.buf[2..10].copy_from_slice(&[0x90, 0, 0x91, 0, 0x80, 0, 0x92, 0]);
    sub_bdbc(&mut tg, true, 40);
    assert_eq!(&tg.buf[2..10], &[0x90, 0, 0x91, 0, 0x80, 0, 0x92, 0]);
}
