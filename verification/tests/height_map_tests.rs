use rust_gcode::height_map::{rgb_to_luma8, HeightMap, SAMPLE_ONE};

#[test]
fn test_size() {
    let hmap1 = HeightMap::new(1920, 1080);
    let hmap2 = HeightMap::new(5, 5);

    let out = hmap1.get_max_plus_convolve(&hmap2);

    assert_eq!(out.get_height(), hmap1.get_height() + 1 - hmap2.get_height());
    assert_eq!(out.get_width(), hmap1.get_width() + 1 - hmap2.get_width());
}

#[test]
fn test_output_value() {
    // warning the coordinate `(i, j)` is equivalent to the
    // index `i * height + j`, not `i + j * width`
    let hmap1 = HeightMap::new_with_buffer(
        5,
        3,
        vec![1, 2, 3, 4, 5, 2, 3, 4, 5, 6, 3, 4, 5, 6, 7],
    );

    let hmap2 = HeightMap::new_with_buffer(2, 2, vec![0, 1, 1, 0]);

    let out1 = hmap1.get_max_plus_convolve(&hmap2);
    let out2 = hmap1.par_get_max_plus_convolve(&hmap2);

    let v_out = HeightMap::new_with_buffer(4, 2, vec![5, 6, 6, 5, 7, 6, 6, 7]);

    for i in 0..out1.get_width() {
        for j in 0..out1.get_height() {
            let x1 = out1.get(i, j);
            let x2 = v_out.get(i, j);
            assert!(x1 < x2 + 1 && x2 < x1 + 1);
        }
    }

    for i in 0..out2.get_width() {
        for j in 0..out2.get_height() {
            let x1 = out2.get(i, j);
            let x2 = v_out.get(i, j);
            assert!(x1 < x2 + 1 && x2 < x1 + 1);
        }
    }
}

#[test]
fn test_sequential_parallel_equal_cells() {
    let f = HeightMap::new_with_buffer(4, 4, (0..16i64).map(|k| (k * 7) % 11 - 5).collect());
    let g = HeightMap::new_with_buffer(3, 2, vec![0, -3, 2, 1, -1, 4]);

    let seq = f.get_max_plus_convolve(&g);
    let par = f.par_get_max_plus_convolve(&g);

    assert_eq!(seq.get_width(), par.get_width());
    assert_eq!(seq.get_height(), par.get_height());
    for i in 0..seq.get_width() {
        for j in 0..seq.get_height() {
            assert_eq!(seq.get(i, j), par.get(i, j));
        }
    }
}

#[test]
fn test_new_is_zero_filled() {
    let hmap = HeightMap::new(3, 2);
    assert_eq!(hmap.get_width(), 3);
    assert_eq!(hmap.get_height(), 2);
    for i in 0..3 {
        for j in 0..2 {
            assert_eq!(hmap.get(i, j), 0);
        }
    }
}

#[test]
fn test_set_get_and_default() {
    let mut hmap = HeightMap::new(2, 2);
    hmap.set(1, 0, -42);
    assert_eq!(hmap.get(1, 0), -42);
    assert_eq!(hmap.unsafe_get(1, 0), -42);
    assert_eq!(hmap.get_default(1, 0, 7), -42);
    assert_eq!(hmap.get_default(5, 0, 7), 7);
    assert_eq!(hmap.get_default(0, 9, -1), -1);
    hmap.unsafe_set(0, 1, 13);
    assert_eq!(hmap.get(0, 1), 13);
    assert_eq!(hmap.get(0, 0), 0);
}

#[test]
fn test_luma_weights() {
    assert_eq!(rgb_to_luma8(255, 255, 255), 255);
    assert_eq!(rgb_to_luma8(0, 0, 0), 0);
    // 2126 * 255 / 10000
    assert_eq!(rgb_to_luma8(255, 0, 0), 54);
    // 7152 * 255 / 10000
    assert_eq!(rgb_to_luma8(0, 255, 0), 182);
    // 722 * 255 / 10000
    assert_eq!(rgb_to_luma8(0, 0, 255), 18);
}

#[test]
fn test_ingest_values() {
    let mut hmap = HeightMap::new(1, 1);
    // opaque white over a black background reads 0
    hmap.set_from_rgba8(0, 0, [255, 255, 255, 255], [0, 0, 0]);
    assert_eq!(hmap.get(0, 0), 0);
    // opaque black over a white background reads -SAMPLE_ONE
    hmap.set_from_rgba8(0, 0, [0, 0, 0, 255], [255, 255, 255]);
    assert_eq!(hmap.get(0, 0), -SAMPLE_ONE);
    // fully transparent sample reads the background alone
    hmap.set_from_rgba8(0, 0, [12, 34, 56, 0], [255, 255, 255]);
    assert_eq!(hmap.get(0, 0), 255 * 255 - SAMPLE_ONE);
    assert_eq!(hmap.get(0, 0), 0);
}

#[test]
fn test_opaque_ingest_ignores_background() {
    let mut over_white = HeightMap::new(1, 1);
    let mut over_red = HeightMap::new(1, 1);
    let pixel = [90, 120, 30, 255];
    over_white.set_from_rgba8(0, 0, pixel, [255, 255, 255]);
    over_red.set_from_rgba8(0, 0, pixel, [255, 0, 0]);
    assert_eq!(over_white.get(0, 0), over_red.get(0, 0));
}

#[test]
fn test_translucent_ingest_sees_background() {
    let mut over_white = HeightMap::new(1, 1);
    let mut over_black = HeightMap::new(1, 1);
    let pixel = [90, 120, 30, 128];
    over_white.set_from_rgba8(0, 0, pixel, [255, 255, 255]);
    over_black.set_from_rgba8(0, 0, pixel, [0, 0, 0]);
    assert!(over_white.get(0, 0) > over_black.get(0, 0));
}

#[test]
fn test_from_rgba8_samples() {
    // 2 x 2 raster, slot (x, y) at x * height + y
    let samples = vec![
        [255u8, 255, 255, 255],
        [0, 0, 0, 255],
        [10, 20, 30, 255],
        [10, 20, 30, 0],
    ];
    let hmap = HeightMap::from_rgba8_samples(2, 2, &samples, [255, 255, 255]);
    assert_eq!(hmap.get_width(), 2);
    assert_eq!(hmap.get_height(), 2);
    assert_eq!(hmap.get(0, 0), 0);
    assert_eq!(hmap.get(0, 1), -SAMPLE_ONE);
    let luma = rgb_to_luma8(10, 20, 30) as i64;
    assert_eq!(hmap.get(1, 0), luma * 255 - SAMPLE_ONE);
    // transparent over white reads white
    assert_eq!(hmap.get(1, 1), 0);
}

#[test]
fn test_to_gray8_mapping() {
    let hmap = HeightMap::new_with_buffer(2, 2, vec![-200, -100, -50, 0]);
    let bytes = hmap.to_gray8(-200, 0);
    assert_eq!(bytes.len(), 4);
    assert_eq!(bytes[0], 0); // at min
    assert_eq!(bytes[1], 127); // 100 * 255 / 200
    assert_eq!(bytes[2], 191); // 150 * 255 / 200
    assert_eq!(bytes[3], 255); // at max
}

#[test]
fn test_to_gray8_clamps() {
    let hmap = HeightMap::new_with_buffer(1, 3, vec![-1000, 500, -20]);
    let bytes = hmap.to_gray8(-100, 0);
    assert_eq!(bytes[0], 0); // below min
    assert_eq!(bytes[1], 255); // above max
    assert_eq!(bytes[2], 204); // 80 * 255 / 100
}

#[test]
fn test_convolve_single_cell_tool() {
    // a 1 x 1 tool of height 0 leaves the surface unchanged
    let f = HeightMap::new_with_buffer(3, 2, vec![-5, 3, 0, 7, -2, 1]);
    let g = HeightMap::new_with_buffer(1, 1, vec![0]);
    let out = f.get_max_plus_convolve(&g);
    assert_eq!(out.get_width(), 3);
    assert_eq!(out.get_height(), 2);
    for i in 0..3 {
        for j in 0..2 {
            assert_eq!(out.get(i, j), f.get(i, j));
        }
    }
}
