use audio_spectrum::columns::{DisplayPoint, SpectrumError, COORD_LIMIT, SUBPIXELS};
use audio_spectrum::fft::FftCalculator;
use audio_spectrum::frequency::FrequencyMapper;
use audio_spectrum::spectrum::Spectrum;
use audio_spectrum::window::{BlackmanHarris, WindowFunction, COEFFICIENT_SCALE};
use rustfft::algorithm::Radix4;
use rustfft::num_complex::Complex;
use rustfft::{Fft, FftDirection};

const SAMPLE_RATE: u32 = 48_000;

fn to_units(v: f64) -> i64 {
    let u = (v * SUBPIXELS as f64).round();
    u.clamp(-(COORD_LIMIT as f64), COORD_LIMIT as f64) as i64
}

fn pixel_x(bin: usize, fft_size: usize, width_px: f64) -> f64 {
    let hz = bin as f64 * SAMPLE_RATE as f64 / fft_size as f64;
    (hz.log10() - 20f64.log10()) * width_px / (20_000f64.log10() - 20f64.log10())
}

fn pixel_y(log_magnitude: f64, height_px: f64) -> f64 {
    height_px - (log_magnitude + 0.5) * height_px / 4.0
}

fn positions(log_mags: &[f64], fft_size: usize, width_px: f64, height_px: f64) -> (Vec<i64>, Vec<i64>) {
    let xs = (0..log_mags.len()).map(|b| to_units(pixel_x(b, fft_size, width_px))).collect();
    let ys = log_mags.iter().map(|m| to_units(pixel_y(*m, height_px))).collect();
    (xs, ys)
}

#[test]
fn first_frame_builds_then_frames_fall_off() {
    let px = SUBPIXELS;
    let mut s = Spectrum::new(100, (0, 0), 10);
    let xs = [0, 0, 5, 12, 13, 25];
    let ys = [0, 300 * px, 100 * px, 200 * px, 50 * px, 80 * px];
    let pts = s.render(40, 500 * px, &xs, &ys).unwrap();
    assert_eq!(
        pts,
        vec![
            DisplayPoint { bin: 2, x: 5, y: 100 * px },
            DisplayPoint { bin: 4, x: 13, y: 50 * px },
            DisplayPoint { bin: 5, x: 25, y: 80 * px },
        ]
    );
    assert!(!s.needs_rebuild(40, 500 * px, 6));
    // quieter everywhere: each held peak falls by 50 px
    let quiet = [0, 450 * px, 450 * px, 450 * px, 450 * px, 450 * px];
    let pts = s.render(40, 500 * px, &xs, &quiet).unwrap();
    let held: Vec<i64> = pts.iter().map(|p| p.y).collect();
    assert_eq!(held, vec![150 * px, 100 * px, 130 * px]);
    // louder in the second column: taken at once, at the loudest bin's x
    let loud = [0, 450 * px, 450 * px, 10 * px, 450 * px, 450 * px];
    let pts = s.render(40, 500 * px, &xs, &loud).unwrap();
    assert_eq!(pts[1], DisplayPoint { bin: 3, x: 12, y: 10 * px });
    assert_eq!(pts[0].y, 200 * px);
}

#[test]
fn resize_rebuilds_columns() {
    let mut s = Spectrum::new(100, (40, 500), 10);
    let xs = [0, 0, 5, 12, 13, 25];
    let ys = [0, 6, 5, 4, 3, 2];
    assert!(s.needs_rebuild(40, 500, 6));
    s.render(40, 500, &xs, &ys).unwrap();
    assert!(s.needs_rebuild(80, 500, 6));
    assert!(s.needs_rebuild(40, 400, 6));
    assert!(s.needs_rebuild(40, 500, 7));
    let pts = s.render(80, 500, &xs, &ys).unwrap();
    assert_eq!(pts.len(), 3);
    assert_eq!(pts[0].y, 5);
    s.set_resolution(100);
    assert!(s.needs_rebuild(80, 500, 6));
    assert_eq!(s.render(80, 500, &xs, &ys), Err(SpectrumError::TooFewColumns));
}

#[test]
fn silent_input_gives_flat_line() {
    let width = 800.0;
    let height = 500.0;
    let n = 4096;
    let m = FrequencyMapper::new(SAMPLE_RATE, n as u32);
    let bins = m.get_upper_cutoff_point() as usize + 1;
    let log_mags = vec![-6.0; bins];
    let (xs, ys) = positions(&log_mags, n, width, height);
    let mut s = Spectrum::new(100, (0, 0), 2 * SUBPIXELS);
    let floor = to_units(pixel_y(-6.0, height));
    for _ in 0..3 {
        let pts = s.render(to_units(width), to_units(height), &xs, &ys).unwrap();
        assert!(pts.len() >= 2);
        assert!(pts.iter().all(|p| p.y == floor));
    }
}

#[test]
fn pure_tone_peaks_at_its_column() {
    let width = 800.0;
    let height = 500.0;
    let calc = FftCalculator::new(4096, 4096).unwrap();
    let n = calc.transform_len();
    let tone_hz = 1000u32;
    let terms = BlackmanHarris::cosine_terms();
    let samples: Vec<Complex<f32>> = (0..4096)
        .map(|i| {
            let t = i as f64 / SAMPLE_RATE as f64;
            let s = 0.5 * (2.0 * std::f64::consts::PI * tone_hz as f64 * t).sin();
            let w: f64 = terms
                .iter()
                .enumerate()
                .map(|(k, a)| {
                    let sign = if k % 2 == 0 { 1.0 } else { -1.0 };
                    let angle = 2.0 * std::f64::consts::PI * (k * i) as f64 / 4096.0;
                    sign * (*a as f64 / COEFFICIENT_SCALE as f64) * angle.cos()
                })
                .sum();
            Complex::new((s * w) as f32, 0.0)
        })
        .collect();
    let mut out = calc.padded_block(&samples, Complex::new(0.0, 0.0));
    Radix4::new(n, FftDirection::Forward).process(&mut out);
    let m = FrequencyMapper::new(SAMPLE_RATE, n as u32);
    let bins = m.get_upper_cutoff_point() as usize + 1;
    let log_mags: Vec<f64> = out[..bins].iter().map(|z| (z.norm() as f64).max(1e-12).log10()).collect();
    let (xs, ys) = positions(&log_mags, n, width, height);
    let resolution = 2 * SUBPIXELS;
    let mut s = Spectrum::new(100, (0, 0), resolution);
    let pts = s.render(to_units(width), to_units(height), &xs, &ys).unwrap();
    let tallest = pts.iter().min_by_key(|p| p.y).unwrap();
    let expected = to_units(pixel_x(m.bin_of_hertz(tone_hz) as usize, n, width));
    assert!((tallest.x - expected).abs() <= resolution);
}
