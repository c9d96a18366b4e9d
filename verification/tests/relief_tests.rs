use lotus::config::Race;
use lotus::crc::{sub_a9d3, CourseLayout};
use lotus::data::Scenario;
use lotus::relief::{prep_track_hills, prep_track_turns};
use lotus::track::{TrackGen, TRACK_BUF_LEN};

fn layout_of(recs: &[u16; 9]) -> CourseLayout {
    let mut layout = CourseLayout {
        is_circular: false,
        scenario: Scenario::Forest,
        curves: 0,
        sharpness: 0,
        length: 0,
        hills: 0,
        steepness: 0,
        scenery: 0,
        scatter: 0,
        obstacles: 0,
        hash_lo: 0,
        hash_hi: 0,
        buf_offset: 0,
        start_segment: 0,
        total: 0,
        min_sections: 0,
        sections: 0,
        section_len: 0,
        checkpoints: [0; 17],
        rng: [0; 4],
    };
    sub_a9d3(recs, &mut layout);
    layout
}

fn buffer_hash(buf: &[u8]) -> u32 {
    buf.iter().fold(0u32, |s, &b| s.wrapping_mul(31).wrapping_add(b as u32))
}

#[test]
fn mountain_hills_and_curves() {
    let mut layout = layout_of(&[8, 13, 13, 13, 20, 20, 13, 13, 13]);
    assert_eq!(layout.scenario, Scenario::Mountains);
    let mut tg = TrackGen { buf: vec![0; TRACK_BUF_LEN], rng: layout.rng, game_rng: [0; 4], hi: 0 };
    prep_track_hills(&mut tg, &mut layout);
    assert_eq!(layout.hills, 76);
    assert_eq!(buffer_hash(&tg.buf), 3134058248);
    assert_eq!(tg.rng, [1648159847, 3470223045, 270914325, 738633268]);
    assert_eq!(tg.buf[200 * 16 + 13], 246);
    let v = prep_track_turns(&mut tg, &layout);
    assert_eq!(v, 128);
    assert_eq!(buffer_hash(&tg.buf), 1510078544);
    assert_eq!(tg.rng, [3365561865, 3802649748, 2339366599, 2944732299]);
    assert_eq!(tg.buf[300 * 16], 251);
    assert_eq!(tg.buf[300 * 16 + 12], 103);
}

#[test]
fn flat_course_without_mountains() {
    let mut layout = layout_of(&[0, 0, 0, 13, 13, 13, 13, 13, 13]);
    assert_eq!(layout.scenario, Scenario::Rally);
    let mut tg = TrackGen { buf: vec![0; TRACK_BUF_LEN], rng: layout.rng, game_rng: [0; 4], hi: 0 };
    prep_track_hills(&mut tg, &mut layout);
    // Away from the mountains the hills are set to nothing: the course stays level.
    assert_eq!((layout.hills, layout.steepness), (0, 0));
    assert!(tg.buf.iter().all(|&b| b == 0));
    assert_eq!(tg.rng, [2912081533, 2382947902, 29738476, 2562734100]);
    let v = prep_track_turns(&mut tg, &layout);
    assert_eq!(v, 128);
    assert_eq!(buffer_hash(&tg.buf), 3810888968);
    assert_eq!(tg.rng, [2994120803, 1440419879, 685458170, 677072985]);
    assert_eq!(tg.buf[300 * 16 + 12], 248);
}

#[test]
fn circular_mountain_hills() {
    let mut layout = layout_of(&[9, 13, 13, 13, 26, 26, 13, 13, 13]);
    assert!(layout.is_circular);
    let mut tg = TrackGen { buf: vec![0; TRACK_BUF_LEN], rng: layout.rng, game_rng: [0; 4], hi: 0 };
    prep_track_hills(&mut tg, &mut layout);
    assert_eq!(buffer_hash(&tg.buf), 1012940799);
    assert_eq!(tg.rng, [2555179536, 2788913799, 3695020482, 3575868599]);
}

/// The flat rally course after its hills and curves, as the obstacles start from it.
fn flat_course() -> TrackGen {
    let mut layout = layout_of(&[0, 0, 0, 13, 13, 13, 13, 13, 13]);
    let mut tg = TrackGen { buf: vec![0; TRACK_BUF_LEN], rng: layout.rng, game_rng: [0; 4], hi: 0 };
    prep_track_hills(&mut tg, &mut layout);
    prep_track_turns(&mut tg, &layout);
    tg
}

fn obstacles_case(scenario: Scenario, obstacles: i16, scatter: u16) -> (u32, [u32; 4], u16, usize) {
    let mut tg = flat_course();
    let before = tg.buf.clone();
    lotus::obstacles::sub_b2b0(&mut tg, scenario, obstacles, scatter);
    let changed = before.iter().zip(tg.buf.iter()).filter(|(a, b)| a != b).count();
    (buffer_hash(&tg.buf), tg.rng, tg.hi, changed)
}

#[test]
fn obstacles_of_the_sceneries() {
    assert_eq!(
        obstacles_case(Scenario::Rally, 50, 50),
        (1473313208, [197261192, 1501928166, 1831554194, 2677795894], 40859, 75)
    );
    assert_eq!(
        obstacles_case(Scenario::MotorWay, 50, 50),
        (3784634619, [38818480, 1035339274, 1947159153, 3019158348], 46068, 140)
    );
    assert_eq!(
        obstacles_case(Scenario::Futuristic, 50, 50),
        (1382281056, [403821618, 4070951425, 3536621643, 2189886265], 33415, 2590)
    );
    assert_eq!(
        obstacles_case(Scenario::Marsh, 0, 50),
        (1430349960, [1201671006, 4244228761, 2560026662, 2185577248], 33349, 796)
    );
    assert_eq!(
        obstacles_case(Scenario::Marsh, 20, 20),
        (3800745701, [292034369, 953304624, 2901872977, 337856877], 5155, 1081)
    );
    assert_eq!(
        obstacles_case(Scenario::Forest, 20, 0),
        (3591013920, [2739442663, 1704108999, 1904424451, 2177249782], 33222, 27)
    );
    assert_eq!(
        obstacles_case(Scenario::Forest, 100, 0),
        (2780264752, [1211586999, 3805482591, 3447295945, 2884588189], 44015, 144)
    );
}

#[test]
fn no_obstacles_elsewhere() {
    let mut tg = flat_course();
    let before = tg.buf.clone();
    let rng = tg.rng;
    lotus::obstacles::sub_b2b0(&mut tg, Scenario::Snow, 50, 50);
    assert_eq!(tg.buf, before);
    assert_eq!(tg.rng, rng);
}

fn tunnels_case(scenario: Scenario, si: usize, scenery: u16, mark: usize) -> (u32, [u32; 4], usize) {
    let mut tg = TrackGen {
        buf: vec![0; TRACK_BUF_LEN],
        rng: [0x12345678, 0x9abcdef0, 0x0fedcba9, 0x87654321],
        game_rng: [0; 4],
        hi: 0,
    };
    // A road sign ends the tunnels.
    tg.buf[mark * 16 + 2] = 0x8A;
    let before = tg.buf.clone();
    lotus::structures::add_tunnels(&mut tg, si, scenario, scenery);
    let changed = before.iter().zip(tg.buf.iter()).filter(|(a, b)| a != b).count();
    (buffer_hash(&tg.buf), tg.rng, changed)
}

#[test]
fn tunnels() {
    assert_eq!(
        tunnels_case(Scenario::Futuristic, 0, 100, 100),
        (3017874746, [4276403689, 4097896596, 3946620876, 2042237692], 4073)
    );
    assert_eq!(
        tunnels_case(Scenario::Night, 256, 60, 100),
        (3527756689, [2229382340, 2410382451, 2234943922, 2449723613], 262)
    );
    assert_eq!(
        tunnels_case(Scenario::MotorWay, 0, 100, 100),
        (908850490, [4276403689, 4097896596, 3946620876, 2042237692], 4073)
    );
    let mut tg = TrackGen { buf: vec![0; TRACK_BUF_LEN], rng: [1, 2, 3, 4], game_rng: [0; 4], hi: 0 };
    lotus::structures::add_tunnels(&mut tg, 0, Scenario::Snow, 100);
    assert!(tg.buf.iter().all(|&b| b == 0));
    assert_eq!(tg.rng, [1, 2, 3, 4]);
}

#[test]
fn bridges() {
    let mut tg = TrackGen {
        buf: vec![0; TRACK_BUF_LEN],
        rng: [0x12345678, 0x9abcdef0, 0x0fedcba9, 0x87654321],
        game_rng: [0; 4],
        hi: 0,
    };
    for r in 0..TRACK_BUF_LEN / 16 {
        tg.buf[r * 16 + 10] = 0x10;
    }
    let mut tg2 = TrackGen { buf: tg.buf.clone(), rng: tg.rng, game_rng: [0; 4], hi: 0 };
    lotus::structures::add_bridges(&mut tg, Scenario::MotorWay, 50);
    assert_eq!(buffer_hash(&tg.buf), 3196560094);
    assert_eq!(tg.rng, [3765691746, 3615191180, 4088280568, 2436682863]);
    lotus::structures::add_bridges(&mut tg2, Scenario::Roadworks, 100);
    assert_eq!(buffer_hash(&tg2.buf), 892557672);
    assert_eq!(tg2.rng, [1499376064, 1918613299, 476994953, 4042984885]);
}

#[test]
fn mountain_pillars() {
    let mut tg = TrackGen {
        buf: vec![0; TRACK_BUF_LEN],
        rng: [0x12345678, 0x9abcdef0, 0x0fedcba9, 0x87654321],
        game_rng: [5, 6, 7, 8],
        hi: 0,
    };
    lotus::scenery::sub_b0fc(&mut tg, Scenario::Mountains, 50);
    assert_eq!(buffer_hash(&tg.buf), 2734478223);
    assert_eq!(&tg.buf[2..10], &[150, 19, 0, 0, 150, 17, 0, 0]);
    assert_eq!(&tg.buf[16 * 500 + 2..16 * 500 + 10], &[226, 18, 0, 0, 226, 17, 0, 0]);
    assert_eq!(tg.rng, [1306905208, 2282451039, 2162433016, 74784420]);
    assert_eq!(tg.game_rng, [2303753221, 1597123002, 4263072603, 3120494263]);
}

#[test]
fn passes_that_place_nothing() {
    let start = [0x12345678, 0x9abcdef0, 0x0fedcba9, 0x87654321];
    // The widest scatter leaves no billboards: one draw per record.
    let mut tg = TrackGen { buf: vec![0; TRACK_BUF_LEN], rng: start, game_rng: [0; 4], hi: 0 };
    lotus::scenery::sub_b0fc(&mut tg, Scenario::Forest, 134);
    assert!(tg.buf.iter().all(|&b| b == 0));
    assert_eq!(tg.rng, [3502559864, 4248593593, 2704318077, 3452659758]);
    // No obstacles, no laser beams: four draws per record from the first obstacle on.
    let mut tg = TrackGen { buf: vec![0; TRACK_BUF_LEN], rng: start, game_rng: [0; 4], hi: 0 };
    lotus::scenery::add_laser_beams(&mut tg, 0);
    assert!(tg.buf.iter().all(|&b| b == 0));
    assert_eq!(tg.rng, [814563000, 3639047638, 1042987384, 4279146945]);
}

fn station_case(recs: &[u16; 9], race: Race, car: u16, road_width: u16, stripes: bool) -> (u32, u16, [u16; 17], [u16; 16]) {
    let mut layout = layout_of(recs);
    let mut tg = TrackGen { buf: vec![0; TRACK_BUF_LEN], rng: [0; 4], game_rng: [0; 4], hi: 0 };
    for r in 0..TRACK_BUF_LEN / 16 {
        if r % 3 == 0 {
            tg.buf[r * 16 + 1] = 3;
        }
    }
    let mut times = lotus::stations::RaceTimes { limits: [0; 16], par: 0 };
    if stripes {
        lotus::stations::sub_b7fd(&mut tg, &mut layout, race, car, road_width, &mut times);
    } else {
        lotus::stations::sub_b803(&mut tg, &mut layout, race, car, road_width, &mut times);
    }
    (buffer_hash(&tg.buf), times.par, layout.checkpoints, times.limits)
}

#[test]
fn stations_of_circular_courses() {
    let (hash, par, cps, limits) = station_case(&[1, 13, 13, 13, 13, 13, 13, 13, 5], Race::TimeLimit, 2, 64, false);
    assert_eq!(hash, 2577265038);
    assert_eq!(par, 40);
    assert_eq!(&cps[..5], &[171, 342, 513, 684, 0xFFFF]);
    assert_eq!(&limits[..4], &[14, 5, 99, 0]);
    let (hash, par, cps, limits) = station_case(&[1, 13, 13, 13, 13, 13, 13, 13, 5], Race::Competition, 0, 64, false);
    assert_eq!(hash, 4014994718);
    assert_eq!(par, 93);
    assert_eq!(&cps[..5], &[171, 342, 513, 684, 0xFFFF]);
    assert_eq!(limits, [0; 16]);
    // The futuristic course also gets its chequered stripes.
    let (hash, par, cps, _) = station_case(&[3, 13, 13, 13, 13, 13, 13, 13, 5], Race::Competition, 0, 40, true);
    assert_eq!(hash, 1064417518);
    assert_eq!(par, 62);
    assert_eq!(&cps[..6], &[128, 256, 384, 512, 640, 0xFFFF]);
}
