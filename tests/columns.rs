use audio_spectrum::columns::{
    build_columns, falloff_step, floor_div, peak_bin, DisplayPoint, PixelColumn, SpectrumError,
    SUBPIXELS,
};

#[test]
fn floor_division_rounds_down() {
    assert_eq!(floor_div(7, 2), 3);
    assert_eq!(floor_div(-7, 2), -4);
    assert_eq!(floor_div(-6, 2), -3);
    assert_eq!(floor_div(-1, 1000), -1);
    assert_eq!(floor_div(0, 5), 0);
    assert_eq!(floor_div(i64::MIN, 1), i64::MIN);
}

#[test]
fn columns_follow_resolution_steps() {
    // bin 0 is DC and ignored
    let xs = [0, -3, 5, 12, 13, 19, 20];
    let ys = [0, 9, 4, 7, 2, 2, 5];
    let (cols, pts) = build_columns(&xs, &ys, 10).unwrap();
    assert_eq!(
        cols,
        vec![
            PixelColumn { lo: 1, hi: 2 },
            PixelColumn { lo: 2, hi: 3 },
            PixelColumn { lo: 3, hi: 6 },
            PixelColumn { lo: 6, hi: 7 },
        ]
    );
    assert_eq!(
        pts,
        vec![
            DisplayPoint { bin: 1, x: -3, y: 9 },
            DisplayPoint { bin: 2, x: 5, y: 4 },
            DisplayPoint { bin: 4, x: 13, y: 2 },
            DisplayPoint { bin: 6, x: 20, y: 5 },
        ]
    );
}

#[test]
fn too_few_columns_is_an_error() {
    assert_eq!(build_columns(&[0, 1, 2, 3], &[0, 0, 0, 0], 10), Err(SpectrumError::TooFewColumns));
    assert_eq!(build_columns(&[0, 5], &[0, 0], 10), Err(SpectrumError::TooFewColumns));
    assert_eq!(build_columns(&[], &[], 10), Err(SpectrumError::TooFewColumns));
    assert!(build_columns(&[0, 1, 11], &[0, 0, 0], 10).is_ok());
}

#[test]
fn peak_pick_takes_first_tallest() {
    let ys = [5, 3, 8, 3, 1, 1];
    assert_eq!(peak_bin(&ys, 0, 4), 1);
    assert_eq!(peak_bin(&ys, 2, 6), 4);
    assert_eq!(peak_bin(&ys, 2, 3), 2);
}

#[test]
fn falloff_attack_and_release() {
    let px = SUBPIXELS;
    // falloff 0.1 of a 500 px window: 50 px per frame
    assert_eq!(falloff_step(100 * px, 60 * px, 100, 500 * px), 60 * px);
    assert_eq!(falloff_step(100 * px, 200 * px, 100, 500 * px), 150 * px);
    // a reading within the decayed peak is taken as it is
    assert_eq!(falloff_step(100 * px, 140 * px, 100, 500 * px), 140 * px);
    assert_eq!(falloff_step(100 * px, 150 * px, 100, 500 * px), 150 * px);
    // release stops at the window height plus 100 px
    assert_eq!(falloff_step(580 * px, 900 * px, 100, 500 * px), 600 * px);
    assert_eq!(falloff_step(600 * px, 900 * px, 100, 500 * px), 600 * px);
}
