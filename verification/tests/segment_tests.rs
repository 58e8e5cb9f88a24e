use rand::Rng;
use rust_gcode::bit_map::BitMap;
use rust_gcode::height_map::HeightMap;
use rust_gcode::segment::{
    get_segments_from_pixel, Case2, HalfLine, IntersectionIterator, PlanIntersection, Segment,
    Vec2,
};

#[test]
fn test_is_intersection() {
    // the original scene scaled by two so every midpoint stays integral:
    // line1 through (-1, -1) with direction (1, 0.5), line2 through (1, 0)
    // with direction (-1, 1); they meet at (1, 0), i.e. X = 2 on line1.
    let line1 = HalfLine::new(Vec2::new(-2, -2), Vec2::new(2, 1));
    let line2 = HalfLine::new(Vec2::new(2, 0), Vec2::new(-2, 2));

    let result = line1.plan_intersection(line2, 0);

    assert!(result.is_some());
    let params = match result.unwrap() {
        PlanIntersection::Params(p) => p,
        PlanIntersection::Coincident(_) => panic!("sources do not coincide"),
    };
    // the recovered point src1 + dir1 * X equals (2, 0), cross-multiplied by
    // the denominator
    assert_eq!(
        params.den * line1.source().get_x() + line1.direction().get_x() * params.x_num,
        params.den * 2
    );
    assert_eq!(
        params.den * line1.source().get_y() + line1.direction().get_y() * params.x_num,
        params.den * 0
    );
    // X = x_num / den = 2
    assert_eq!(params.x_num, 2 * params.den);

    let mut rng = rand::thread_rng();

    for _ in 0..10000 {
        let mut coords = [0i64; 8];
        for c in coords.iter_mut() {
            *c = rng.gen_range(-1000..1000);
        }
        if (coords[2] == 0 && coords[3] == 0) || (coords[6] == 0 && coords[7] == 0) {
            continue;
        }
        let line1 = HalfLine::new(
            Vec2::new(coords[0], coords[1]),
            Vec2::new(coords[2], coords[3]),
        );
        let line2 = HalfLine::new(
            Vec2::new(coords[4], coords[5]),
            Vec2::new(coords[6], coords[7]),
        );
        let _ = line1.plan_intersection(line2, 0);
    }
}

#[test]
fn test_parallel_lines_do_not_intersect() {
    let line1 = HalfLine::new(Vec2::new(0, 0), Vec2::new(1, 1));
    let line2 = HalfLine::new(Vec2::new(5, 0), Vec2::new(2, 2));
    assert!(line1.plan_intersection(line2, 0).is_none());
}

#[test]
fn test_coincident_sources() {
    let line1 = HalfLine::new(Vec2::new(3, 4), Vec2::new(1, 0));
    let line2 = HalfLine::new(Vec2::new(3, 4), Vec2::new(0, 1));
    match line1.plan_intersection(line2, 0) {
        Some(PlanIntersection::Coincident(v)) => {
            assert_eq!(v.get_x(), 3);
            assert_eq!(v.get_y(), 4);
        }
        _ => panic!("coincident sources must return the shared origin"),
    }
}

#[test]
fn test_random_intersections_lie_on_both_lines() {
    let mut rng = rand::thread_rng();
    for _ in 0..1000 {
        let mut coords = [0i64; 8];
        for c in coords.iter_mut() {
            *c = rng.gen_range(-100..100);
        }
        if (coords[2] == 0 && coords[3] == 0) || (coords[6] == 0 && coords[7] == 0) {
            continue;
        }
        let line1 = HalfLine::new(
            Vec2::new(coords[0], coords[1]),
            Vec2::new(coords[2], coords[3]),
        );
        let line2 = HalfLine::new(
            Vec2::new(coords[4], coords[5]),
            Vec2::new(coords[6], coords[7]),
        );
        if let Some(PlanIntersection::Params(p)) = line1.plan_intersection(line2, 0) {
            assert_ne!(p.den, 0);
            assert_eq!(
                p.den * line1.source().get_x() + line1.direction().get_x() * p.x_num,
                p.den * line2.source().get_x() + line2.direction().get_x() * p.y_num
            );
            assert_eq!(
                p.den * line1.source().get_y() + line1.direction().get_y() * p.x_num,
                p.den * line2.source().get_y() + line2.direction().get_y() * p.y_num
            );
        }
    }
}

#[test]
fn test_vec2_algebra() {
    let a = Vec2::new(3, -2);
    let b = Vec2::new(-1, 4);
    assert_eq!(a.add(b), Vec2::new(2, 2));
    assert_eq!(a.sub(b), Vec2::new(4, -6));
    assert_eq!(a.neg(), Vec2::new(-3, 2));
    assert_eq!(a.mul(3), Vec2::new(9, -6));
    assert_eq!(a.dot(b), -11);
    assert_eq!(a.get_x(), 3);
    assert_eq!(a.get_y(), -2);
}

#[test]
fn test_segment_and_half_line() {
    let s = Segment::new(Vec2::new(0, 0), Vec2::new(2, 4));
    assert_eq!(s.source(), Vec2::new(0, 0));
    assert_eq!(s.target(), Vec2::new(2, 4));
    let hl = s.to_half_line();
    assert_eq!(hl.source(), Vec2::new(0, 0));
    assert_eq!(hl.direction(), Vec2::new(2, 4));
}

fn arity(case: &Case2<Segment>) -> usize {
    match case {
        Case2::C0 => 0,
        Case2::C1(_) => 1,
        Case2::C2(_, _) => 2,
    }
}

#[test]
fn test_classifier_all_sixteen_cases() {
    let mut zeros = 0;
    let mut ones = 0;
    let mut twos = 0;
    for bits in 0..16u32 {
        let p00 = bits & 1 != 0;
        let p10 = bits & 2 != 0;
        let p01 = bits & 4 != 0;
        let p11 = bits & 8 != 0;
        let case = get_segments_from_pixel(p00, p10, p01, p11, 0, 0);
        let n = arity(&case);
        let uniform = p00 == p10 && p10 == p01 && p01 == p11;
        let saddle = p00 == p11 && p10 == p01 && p00 != p10;
        if uniform {
            assert_eq!(n, 0);
            zeros += 1;
        } else if saddle {
            assert_eq!(n, 2);
            twos += 1;
        } else {
            assert_eq!(n, 1);
            ones += 1;
        }
    }
    assert_eq!(zeros, 2);
    assert_eq!(ones, 12);
    assert_eq!(twos, 2);
}

#[test]
fn test_classifier_lone_corner() {
    // only the (x, y) corner is set: the segment joins the midpoints of the
    // bottom and left edges (half-pixel units)
    match get_segments_from_pixel(true, false, false, false, 0, 0) {
        Case2::C1(s) => {
            assert_eq!(s.source(), Vec2::new(1, 0));
            assert_eq!(s.target(), Vec2::new(0, 1));
        }
        _ => panic!("a lone corner must yield exactly one segment"),
    }
    // same lone corner at cell (3, 5)
    match get_segments_from_pixel(true, false, false, false, 3, 5) {
        Case2::C1(s) => {
            assert_eq!(s.source(), Vec2::new(7, 10));
            assert_eq!(s.target(), Vec2::new(6, 11));
        }
        _ => panic!("a lone corner must yield exactly one segment"),
    }
}

#[test]
fn test_classifier_saddle() {
    match get_segments_from_pixel(true, false, false, true, 0, 0) {
        Case2::C2(a, b) => {
            assert_eq!(a.source(), Vec2::new(1, 0));
            assert_eq!(a.target(), Vec2::new(0, 1));
            assert_eq!(b.source(), Vec2::new(2, 1));
            assert_eq!(b.target(), Vec2::new(1, 2));
        }
        _ => panic!("a saddle must yield two segments"),
    }
}

#[test]
fn test_bit_map_cell_segments() {
    let mut bmap = BitMap::new(2, 2);
    bmap.set(0, 0, true);
    match bmap.from_pixel_to_segments(0, 0) {
        Case2::C1(s) => {
            assert_eq!(s.source(), Vec2::new(1, 0));
            assert_eq!(s.target(), Vec2::new(0, 1));
        }
        _ => panic!("one set corner must yield one segment"),
    }
    // out of range corners read false: the cell below the origin sees the set
    // pixel as its (x+1, y+1) corner
    match bmap.from_pixel_to_segments(-1, -1) {
        Case2::C1(s) => {
            assert_eq!(s.source(), Vec2::new(0, -1));
            assert_eq!(s.target(), Vec2::new(-1, 0));
        }
        _ => panic!("one set corner must yield one segment"),
    }
}

#[test]
fn test_height_map_cell_segments() {
    let hmap = HeightMap::new_with_buffer(2, 2, vec![-10, 0, 0, 0]);
    // iso-value -5: only (0, 0) lies at or below it
    match hmap.from_pixel_to_segments(0, 0, -5) {
        Case2::C1(s) => {
            assert_eq!(s.source(), Vec2::new(1, 0));
            assert_eq!(s.target(), Vec2::new(0, 1));
        }
        _ => panic!("one corner below the iso-value must yield one segment"),
    }
    // iso-value 0: every in-range corner is below, out-of-range corners are
    // outside, so the cell is uniform
    match hmap.from_pixel_to_segments(0, 0, 0) {
        Case2::C0 => {}
        _ => panic!("a uniform cell must yield no segment"),
    }
}

#[test]
fn test_intersection_iterator_accessors() {
    let hmap = HeightMap::new(2, 3);
    let line = HalfLine::new(Vec2::new(0, 0), Vec2::new(1, 0));
    let it = IntersectionIterator::new(hmap, line);
    assert_eq!(it.get_hmap().get_width(), 2);
    assert_eq!(it.get_hmap().get_height(), 3);
    assert_eq!(it.get_half_line(), line);
}
