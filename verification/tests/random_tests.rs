use lotus::crc::{crc_common, smart_crc, sub_a9d3, timer_seed, CourseLayout};
use lotus::data::Scenario;
use lotus::protection::{make_secret, protection_text, scale_random};

fn blank_layout() -> CourseLayout {
    CourseLayout {
        is_circular: false,
        scenario: Scenario::Forest,
        curves: 0,
        sharpness: 0,
        length: 0,
        hills: 0,
        steepness: 0,
        scenery: 0,
        scatter: 0,
        obstacles: 0,
        hash_lo: 0,
        hash_hi: 0,
        buf_offset: 0,
        start_segment: 0,
        total: 0,
        min_sections: 0,
        sections: 0,
        section_len: 0,
        checkpoints: [0x1234; 17],
        rng: [0; 4],
    }
}

#[test]
fn course_generator_from_zero() {
    let mut rnd = [0u32; 4];
    assert_eq!(smart_crc(&mut rnd), (0x0FE2, 0x520A));
    assert_eq!(rnd, [0x736F_A41F, 0x8693_DD78, 0x0D19_EEBA, 0x520A_0FE2]);
    assert_eq!(smart_crc(&mut rnd), (0x9016, 0xAB31));
    assert_eq!(smart_crc(&mut rnd), (0xA654, 0x78E9));
}

#[test]
fn game_generator_from_zero() {
    let mut rnd = [0u32; 4];
    let (lo, hi) = crc_common(&mut rnd);
    assert_eq!(rnd, [0x7362_541F, 0xF320_B894, 0x7647_1218, 0x6670_4960]);
    assert_eq!((lo, hi), (0x4960, 0x6670));
}

#[test]
fn timer_seeded_generator() {
    let mut rnd = timer_seed(0x1234);
    assert_eq!(rnd, [0x1234_1234; 4]);
    smart_crc(&mut rnd);
    assert_eq!(rnd, [0x85A3_B653, 0xAAFC_01E0, 0x43B6_2556, 0x9ADA_58B2]);
}

#[test]
fn course_layout_a_to_b() {
    let mut layout = blank_layout();
    sub_a9d3(&[0, 13, 13, 13, 13, 13, 13, 13, 13], &mut layout);
    assert!(!layout.is_circular);
    assert_eq!(layout.scenario, Scenario::Rally);
    assert_eq!(layout.curves, 50);
    assert_eq!(layout.obstacles, 13);
    assert_eq!(((layout.hash_hi as u32) << 16) | layout.hash_lo as u32, 0x2568_BE11);
    assert_eq!(layout.buf_offset, 128);
    assert_eq!(layout.start_segment, 8);
    assert_eq!(layout.length, 13160);
    assert_eq!(layout.total, 257);
    assert_eq!(layout.min_sections, 3);
    assert_eq!(layout.sections, 3);
    assert_eq!(layout.section_len, 257);
    assert_eq!(&layout.checkpoints[..4], &[8, 93, 265, 0xFFFF]);
    assert_eq!(layout.checkpoints[4], 0x1234);
    assert_eq!(layout.rng, [2142743150, 2209185035, 4276052417, 1696104362]);
}

#[test]
fn course_layout_circular() {
    let mut layout = blank_layout();
    sub_a9d3(&[1, 13, 13, 13, 13, 13, 13, 13, 5], &mut layout);
    assert!(layout.is_circular);
    assert_eq!(layout.scenario, Scenario::Rally);
    assert_eq!(layout.total, 513);
    assert_eq!(layout.sections, 3);
    assert_eq!(layout.section_len, 171);
    assert_eq!(layout.buf_offset, 0);
    assert_eq!(layout.start_segment, 0);
    assert_eq!(layout.checkpoints, [0x1234; 17]);
    assert_eq!(layout.rng, [0x2C68_BE11; 4]);

    sub_a9d3(&[20, 0, 26, 26, 0, 26, 0, 26, 99], &mut layout);
    assert!(layout.is_circular);
    assert_eq!(layout.scenario, Scenario::Fog);
    assert_eq!(layout.curves, 0);
    assert_eq!(layout.sharpness, 100);
    assert_eq!(layout.length, 25703);
    assert_eq!(layout.sections, 4);
    assert_eq!(layout.section_len, 128);
    assert_eq!(layout.rng, [0xB067_4E64; 4]);
}

#[test]
fn protection_question_text() {
    assert_eq!(&protection_text(0), b"ENTER CODE FOR WINDOW 01");
    assert_eq!(&protection_text(47), b"ENTER CODE FOR WINDOW 48");
    assert_eq!(scale_random(0x8000, 48), 24);
    assert_eq!(scale_random(0xFFFF, 12), 11);
    assert_eq!(scale_random(0, 12), 0);
}

#[test]
fn protection_answers() {
    assert_eq!(make_secret(0, 5, 2).as_slice(), b"10 ");
    assert_eq!(make_secret(32, 0, 0).as_slice(), b"Q  ");
    assert_eq!(make_secret(43, 0, 0).as_slice(), b"60 ");
    assert_eq!(make_secret(12, 3, 3).as_slice(), b"100");
    assert_eq!(make_secret(22, 0, 1).as_slice(), b"50 ");
}
