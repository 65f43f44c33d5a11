use imgproc::{Image, ImageError};

fn ramp(w: u32, h: u32, c: u32) -> Image<f32> {
    let data: Vec<f32> = (0..w * h * c).map(|i| i as f32).collect();
    Image::new(w, h, c, data).unwrap()
}

#[test]
fn new_keeps_dimensions_and_samples() {
    let img = ramp(3, 2, 2);
    assert_eq!(img.width(), 3);
    assert_eq!(img.height(), 2);
    assert_eq!(img.channels(), 2);
    assert_eq!(img.array().len(), 12);
    assert_eq!(img.array()[11], 11.0);
    assert_eq!(img.zero(), 0.0);
}

#[test]
fn new_rejects_wrong_sample_count() {
    let r = Image::new(2, 2, 3, vec![0.0f32; 11]);
    assert!(matches!(r, Err(ImageError::SampleCountMismatch)));
    let r = Image::new(2, 2, 3, vec![0.0f32; 13]);
    assert!(matches!(r, Err(ImageError::SampleCountMismatch)));
}

#[test]
fn new_rejects_zero_dimension() {
    assert!(matches!(Image::<f32>::new(0, 2, 1, vec![]), Err(ImageError::ZeroDimension)));
    assert!(matches!(Image::<f32>::new(2, 0, 1, vec![]), Err(ImageError::ZeroDimension)));
    assert!(matches!(Image::<f32>::new(2, 2, 0, vec![]), Err(ImageError::ZeroDimension)));
}

#[test]
fn get_pixel_reads_interleaved_layout() {
    let img = ramp(3, 2, 2);
    // pixel (2, 1) starts at ((1 * 3) + 2) * 2 = 10
    assert_eq!(img.get_pixel(2, 1), &[10.0, 11.0]);
    assert_eq!(img.get_pixel(0, 0), &[0.0, 1.0]);
    assert_eq!(img.get_pixel(1, 0), &[2.0, 3.0]);
}

#[test]
fn get_pixel_off_grid_is_zero() {
    let img = ramp(3, 2, 2);
    assert_eq!(img.get_pixel(-1, 0), &[0.0, 0.0]);
    assert_eq!(img.get_pixel(0, -1), &[0.0, 0.0]);
    assert_eq!(img.get_pixel(3, 0), &[0.0, 0.0]);
    assert_eq!(img.get_pixel(0, 2), &[0.0, 0.0]);
    assert_eq!(img.get_pixel(i32::MIN, i32::MAX), &[0.0, 0.0]);
}

#[test]
fn get_pixel_unchecked_matches_checked() {
    let img = ramp(4, 3, 3);
    for y in 0..3 {
        for x in 0..4 {
            assert_eq!(img.get_pixel_unchecked(x, y), img.get_pixel(x as i32, y as i32));
        }
    }
}

#[test]
fn put_pixel_writes_whole_pixel() {
    let mut img = ramp(2, 2, 3);
    assert!(img.put_pixel(1, 1, vec![-1.0, -2.0, -3.0]));
    assert_eq!(img.get_pixel(1, 1), &[-1.0, -2.0, -3.0]);
    assert_eq!(img.get_pixel(0, 1), &[6.0, 7.0, 8.0]);
}

#[test]
fn put_pixel_refuses_without_writing() {
    let mut img = ramp(2, 2, 3);
    let before = img.array().to_vec();
    assert!(!img.put_pixel(2, 0, vec![1.0, 1.0, 1.0]));
    assert!(!img.put_pixel(0, 2, vec![1.0, 1.0, 1.0]));
    assert!(!img.put_pixel(0, 0, vec![1.0, 1.0]));
    assert!(!img.put_pixel(0, 0, vec![1.0, 1.0, 1.0, 1.0]));
    assert_eq!(img.array(), &before[..]);
}

#[test]
fn set_sample_and_into_array() {
    let mut img = ramp(2, 1, 1);
    img.set_sample(1, 7.5);
    assert_eq!(img.into_array(), vec![0.0, 7.5]);
}

#[test]
fn off_grid_reads_default_zero_for_every_sample_type() {
    let img = Image::new(1, 1, 2, vec![7i64, -3]).unwrap();
    assert_eq!(img.zero(), 0);
    assert_eq!(img.get_pixel(-1, 0), &[0, 0]);
    assert_eq!(img.get_pixel(1, 0), &[0, 0]);
    let k = imgproc::make_sobel_x_filter::<f32>();
    assert_eq!(k.get_pixel(3, 3), &[0.0]);
}
