use audio_spectrum::fft::{complex_to_vec4_arr, FftCalculator, FftError};
use rustfft::algorithm::Radix4;
use rustfft::num_complex::Complex;
use rustfft::{Fft, FftDirection};

fn transform(calc: &FftCalculator, samples: &[f32]) -> Vec<Complex<f32>> {
    let block: Vec<Complex<f32>> = samples.iter().map(|s| Complex::new(*s, 0.0)).collect();
    let mut out = calc.padded_block(&block, Complex::new(0.0, 0.0));
    let fft = Radix4::new(calc.transform_len(), FftDirection::Forward);
    fft.process(&mut out);
    out
}

#[test]
fn size_must_sum_to_power_of_two() {
    let ok = FftCalculator::new(8, 8).unwrap();
    assert_eq!(ok.transform_len(), 16);
    assert_eq!(FftCalculator::new(8, 3), Err(FftError::InvalidFftSize));
    assert_eq!(FftCalculator::new(0, 0), Err(FftError::InvalidFftSize));
    assert!(FftCalculator::new(8, 0).is_ok());
    assert!(FftCalculator::new(3, 5).is_ok());
    assert_eq!(FftCalculator::new(usize::MAX, 1), Err(FftError::InvalidFftSize));
}

#[test]
fn scale_factor_is_padded_over_unpadded() {
    let c = FftCalculator::new(8, 8).unwrap();
    assert_eq!(c.zero_pad_scale_factor(), (16, 8));
    let c = FftCalculator::new(4096, 0).unwrap();
    assert_eq!(c.zero_pad_scale_factor(), (4096, 4096));
}

#[test]
fn padded_block_appends_zeros() {
    let c = FftCalculator::new(3, 5).unwrap();
    assert_eq!(c.padded_block(&[1, 2, 3], 0), vec![1, 2, 3, 0, 0, 0, 0, 0]);
    let c = FftCalculator::new(4, 0).unwrap();
    assert_eq!(c.padded_block(&[4, 3, 2, 1], 9), vec![4, 3, 2, 1]);
}

#[test]
fn zero_block_transforms_to_zero_spectrum() {
    let c = FftCalculator::new(8, 8).unwrap();
    let out = transform(&c, &[0.0; 8]);
    assert_eq!(out.len(), 16);
    assert!(out.iter().all(|z| z.norm() == 0.0));
}

#[test]
fn test_amplitude() {
    let c = FftCalculator::new(8, 0).unwrap();
    let samples = [-1.0, 1.0, -1.0, 1.0, -1.0, 1.0, -1_f32, 1.0];
    let out = transform(&c, &samples);
    let max_amp = out.iter().map(|x| x.norm()).fold(0.0, |a: f32, b: f32| a.max(b));
    let max_index = out.iter().position(|x| x.norm() == max_amp).unwrap();
    assert_eq!(max_index, 4);
    assert!((max_amp - 8.0).abs() < 1e-4);
}

#[test]
fn packing_pairs_into_quadruples() {
    let even = complex_to_vec4_arr(&[(1, 2), (3, 4), (5, 6), (7, 8)], 0);
    assert_eq!(even, vec![[1, 2, 3, 4], [5, 6, 7, 8]]);
    let odd = complex_to_vec4_arr(&[(1, 2), (3, 4), (5, 6)], 0);
    assert_eq!(odd, vec![[1, 2, 3, 4], [5, 6, 0, 0]]);
    let empty: Vec<[i32; 4]> = complex_to_vec4_arr(&[], 0);
    assert!(empty.is_empty());
}
