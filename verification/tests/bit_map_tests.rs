use rust_gcode::bit_map::{BitMap, Move, Path};
use rust_gcode::config::help;
use rust_gcode::height_map::HeightMap;

#[test]
fn test_new_is_false_filled() {
    let bmap = BitMap::new(3, 2);
    assert_eq!(bmap.get_width(), 3);
    assert_eq!(bmap.get_height(), 2);
    for i in 0..3 {
        for j in 0..2 {
            assert!(!bmap.get(i, j));
        }
    }
}

#[test]
fn test_bit_set_get_and_default() {
    let mut bmap = BitMap::new(2, 2);
    bmap.set(1, 0, true);
    assert!(bmap.get(1, 0));
    assert!(bmap.unsafe_get(1, 0));
    assert!(!bmap.get(0, 0));
    assert!(bmap.get_default(1, 0));
    assert!(!bmap.get_default(5, 0));
    assert!(!bmap.get_default(0, 9));
    bmap.unsafe_set(1, 0, false);
    assert!(!bmap.get(1, 0));
}

#[test]
fn test_threshold_round_trip() {
    let hmap = HeightMap::new_with_buffer(3, 2, vec![-10, -5, 0, 5, -7, 3]);
    let cutoff = -5;
    let bmap = BitMap::from_height_map(&hmap, cutoff);
    assert_eq!(bmap.get_width(), 3);
    assert_eq!(bmap.get_height(), 2);
    for i in 0..3 {
        for j in 0..2 {
            assert_eq!(bmap.get(i, j), hmap.get(i, j) <= cutoff);
        }
    }
    // out-of-range coordinates read false
    assert!(!bmap.get_default(3, 0));
    assert!(!bmap.get_default(0, 2));
    assert!(!bmap.get_default(100, 100));
}

#[test]
fn test_to_gray8() {
    let mut bmap = BitMap::new(2, 2);
    bmap.set(0, 0, true);
    bmap.set(1, 1, true);
    let bytes = bmap.to_gray8();
    assert_eq!(bytes, vec![0, 255, 255, 0]);
}

#[test]
fn test_path_data() {
    let path = Path {
        x_init: 0,
        y_init: 1,
        z_init: 2,
        path: vec![Move::XYmove(5, 6), Move::Zmove(-3), Move::FXYmove(0, 0)],
    };
    assert_eq!(path.path.len(), 3);
    match path.path[1] {
        Move::Zmove(z) => assert_eq!(z, -3),
        _ => panic!("second move must be a depth change"),
    }
}

#[test]
fn test_help_text() {
    let text = help();
    assert!(text.contains("-config"));
    assert!(text.contains("tool shape"));
    assert!(text.contains("normalizing"));
}
