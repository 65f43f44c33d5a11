use imgproc::{add_image, l1_norm, scale_image, shift_image, sub_image, Image, ImageError};

fn img(w: u32, h: u32, c: u32, data: Vec<f32>) -> Image<f32> {
    Image::new(w, h, c, data).unwrap()
}

fn ramp(w: u32, h: u32, c: u32) -> Image<f32> {
    img(w, h, c, (0..w * h * c).map(|i| i as f32).collect())
}

#[test]
fn shift_out_of_range_channel_is_identity() {
    for channel in [3u32, 4, u32::MAX] {
        let src = ramp(2, 2, 3);
        let before: Vec<u32> = src.array().iter().map(|v| v.to_bits()).collect();
        let out = shift_image(src, channel, 10.0);
        let after: Vec<u32> = out.array().iter().map(|v| v.to_bits()).collect();
        assert_eq!(before, after);
        assert_eq!((out.width(), out.height(), out.channels()), (2, 2, 3));
    }
}

#[test]
fn shift_adds_to_one_channel() {
    let out = shift_image(ramp(2, 1, 3), 1, 0.5);
    assert_eq!(out.array(), &[0.0, 1.5, 2.0, 3.0, 4.5, 5.0]);
}

#[test]
fn scale_multiplies_one_channel() {
    let out = scale_image(ramp(2, 1, 3), 0, 2.0);
    assert_eq!(out.array(), &[0.0, 1.0, 2.0, 6.0, 4.0, 5.0]);
    let out = scale_image(ramp(2, 1, 3), 2, -1.0);
    assert_eq!(out.array(), &[0.0, 1.0, -2.0, 3.0, 4.0, -5.0]);
}

#[test]
fn scale_out_of_range_channel_is_identity() {
    let out = scale_image(ramp(2, 1, 3), 3, 2.0);
    assert_eq!(out.array(), &[0.0, 1.0, 2.0, 3.0, 4.0, 5.0]);
}

#[test]
fn add_and_sub_work_sample_by_sample() {
    let a = img(2, 1, 1, vec![1.0, 2.0]);
    let b = img(2, 1, 1, vec![3.0, 4.0]);
    assert_eq!(add_image(a.clone(), b.clone()).unwrap().array(), &[4.0, 6.0]);
    assert_eq!(sub_image(a, b).unwrap().array(), &[-2.0, -2.0]);
}

#[test]
fn add_and_sub_refuse_other_shapes() {
    let a = ramp(2, 2, 1);
    for b in [ramp(2, 2, 2), ramp(1, 2, 1), ramp(2, 1, 1), ramp(4, 1, 1)] {
        assert!(matches!(add_image(a.clone(), b.clone()), Err(ImageError::ShapeMismatch)));
        assert!(matches!(sub_image(a.clone(), b), Err(ImageError::ShapeMismatch)));
    }
}

#[test]
fn l1_norm_divides_by_total() {
    let out = l1_norm(img(2, 2, 1, vec![1.0, 2.0, 3.0, 2.0]));
    assert_eq!(out.array(), &[0.125, 0.25, 0.375, 0.25]);
    let sum: f32 = out.array().iter().sum();
    assert_eq!(sum, 1.0);
}

#[test]
fn box_like_kernel_normalises_to_uniform() {
    let out = l1_norm(img(3, 3, 1, vec![1.0; 9]));
    for v in out.array() {
        assert_eq!(*v, 1.0 / 9.0);
    }
}
