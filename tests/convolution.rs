use imgproc::{
    convolve_image, convolve_image_separable, make_emboss_filter, make_high_pass_filter,
    make_sharpen_filter, make_sobel_x_filter, make_sobel_y_filter, Image, ImageError,
};

fn img(w: u32, h: u32, c: u32, data: Vec<f32>) -> Image<f32> {
    Image::new(w, h, c, data).unwrap()
}

fn ramp(w: u32, h: u32, c: u32) -> Image<f32> {
    let data: Vec<f32> = (0..w * h * c).map(|i| (i % 7) as f32 + 0.25 * i as f32).collect();
    img(w, h, c, data)
}

fn identity_kernel(size: u32, channels: u32) -> Image<f32> {
    let mut data = vec![0.0f32; (size * size * channels) as usize];
    let centre = ((size / 2) * size + size / 2) * channels;
    for c in 0..channels {
        data[(centre + c) as usize] = 1.0;
    }
    img(size, size, channels, data)
}

#[test]
fn sobel_x_on_uniform_image_is_zero_inside() {
    let ones = img(3, 3, 1, vec![1.0; 9]);
    let out = convolve_image(ones, make_sobel_x_filter::<f32>(), false).unwrap();
    assert_eq!(out.channels(), 1);
    assert_eq!(out.get_pixel(1, 1), &[0.0]);
    // at the border the zero padding leaves the gradient of the edge
    assert_eq!(out.array(), &[3.0, 0.0, -3.0, 4.0, 0.0, -4.0, 3.0, 0.0, -3.0]);
}

#[test]
fn sobel_x_on_uniform_rgb_image_sums_channels() {
    let ones = img(3, 3, 3, vec![1.0; 27]);
    let out = convolve_image(ones, make_sobel_x_filter::<f32>(), false).unwrap();
    assert_eq!(out.channels(), 1);
    assert_eq!(out.get_pixel(1, 1), &[0.0]);
    assert_eq!(out.get_pixel(0, 1), &[12.0]);
}

#[test]
fn identity_kernel_gives_back_image() {
    for &(w, h, c) in &[(1u32, 1u32, 1u32), (4, 3, 2), (5, 5, 3)] {
        let src = ramp(w, h, c);
        let expected = src.array().to_vec();
        let out = convolve_image(src.clone(), identity_kernel(3, 1), true).unwrap();
        assert_eq!(out.array(), &expected[..]);
        let out = convolve_image(src.clone(), identity_kernel(5, 1), true).unwrap();
        assert_eq!(out.array(), &expected[..]);
        let out = convolve_image(src, identity_kernel(3, c), true).unwrap();
        assert_eq!(out.array(), &expected[..]);
    }
}

#[test]
fn collapse_sums_channels() {
    let px = img(1, 1, 3, vec![1.0, 2.0, 3.0]);
    let k = img(1, 1, 1, vec![2.0]);
    let kept = convolve_image(px.clone(), k.clone(), true).unwrap();
    assert_eq!(kept.array(), &[2.0, 4.0, 6.0]);
    let summed = convolve_image(px, k, false).unwrap();
    assert_eq!(summed.channels(), 1);
    assert_eq!(summed.array(), &[12.0]);
}

#[test]
fn per_channel_kernel_weighs_each_channel() {
    let px = img(1, 1, 3, vec![1.0, 1.0, 1.0]);
    let k = img(1, 1, 3, vec![1.0, 2.0, 3.0]);
    let out = convolve_image(px, k, true).unwrap();
    assert_eq!(out.array(), &[1.0, 2.0, 3.0]);
}

#[test]
fn even_kernel_pads_one_before_and_two_after() {
    let row = img(4, 1, 1, vec![1.0, 2.0, 3.0, 4.0]);
    let first = img(4, 1, 1, vec![1.0, 0.0, 0.0, 0.0]);
    let out = convolve_image(row.clone(), first, true).unwrap();
    assert_eq!(out.array(), &[0.0, 1.0, 2.0, 3.0]);
    let last = img(4, 1, 1, vec![0.0, 0.0, 0.0, 1.0]);
    let out = convolve_image(row, last, true).unwrap();
    assert_eq!(out.array(), &[3.0, 4.0, 0.0, 0.0]);
}

#[test]
fn kernel_channel_mismatch_is_refused() {
    let src = ramp(2, 2, 3);
    let k = img(1, 1, 2, vec![1.0, 1.0]);
    assert!(matches!(convolve_image(src, k, true), Err(ImageError::KernelChannelMismatch)));
}

#[test]
fn row_kernel_pass() {
    let row = img(3, 1, 1, vec![1.0, 2.0, 3.0]);
    let h = img(3, 1, 1, vec![1.0, 2.0, 1.0]);
    let out = convolve_image_separable(row, h, true).unwrap();
    assert_eq!(out.array(), &[4.0, 8.0, 8.0]);
}

#[test]
fn column_kernel_pass() {
    let col = img(1, 3, 1, vec![1.0, 2.0, 3.0]);
    let v = img(1, 3, 1, vec![1.0, 2.0, 1.0]);
    let out = convolve_image_separable(col, v, true).unwrap();
    assert_eq!(out.array(), &[4.0, 8.0, 8.0]);
}

#[test]
fn one_dimensional_pass_equals_two_dimensional() {
    let src = ramp(5, 4, 3);
    for preserve in [true, false] {
        let h = img(4, 1, 1, vec![0.5, -1.0, 2.0, 0.25]);
        let v = img(1, 3, 1, vec![1.0, 3.0, -2.0]);
        let a = convolve_image_separable(src.clone(), h.clone(), preserve).unwrap();
        let b = convolve_image(src.clone(), h, preserve).unwrap();
        assert_eq!(a.array(), b.array());
        let a = convolve_image_separable(src.clone(), v.clone(), preserve).unwrap();
        let b = convolve_image(src.clone(), v, preserve).unwrap();
        assert_eq!(a.array(), b.array());
    }
}

#[test]
fn row_then_column_equals_outer_product() {
    let src = ramp(6, 5, 3);
    let hw = [0.25f32, 0.5, 0.25];
    let vw = [0.1f32, 0.2, 0.4, 0.2, 0.1];
    let h = img(3, 1, 1, hw.to_vec());
    let v = img(1, 5, 1, vw.to_vec());
    let mut outer = Vec::new();
    for fy in 0..5 {
        for fx in 0..3 {
            outer.push(vw[fy] * hw[fx]);
        }
    }
    let k = img(3, 5, 1, outer);
    for preserve in [true, false] {
        let tmp = convolve_image_separable(src.clone(), h.clone(), true).unwrap();
        let chained = convolve_image_separable(tmp, v.clone(), preserve).unwrap();
        let direct = convolve_image(src.clone(), k.clone(), preserve).unwrap();
        assert_eq!(chained.channels(), direct.channels());
        for (a, b) in chained.array().iter().zip(direct.array()) {
            assert!((a - b).abs() <= 1e-4 * b.abs().max(1.0), "{} vs {}", a, b);
        }
    }
}

#[test]
fn separable_refuses_square_and_single_cell_kernels() {
    let src = ramp(3, 3, 1);
    let k = img(3, 3, 1, vec![1.0; 9]);
    assert!(matches!(
        convolve_image_separable(src.clone(), k, true),
        Err(ImageError::NotSeparable)
    ));
    let one = img(1, 1, 1, vec![1.0]);
    assert!(matches!(convolve_image_separable(src, one, true), Err(ImageError::NotSeparable)));
}

#[test]
fn separable_refuses_multi_channel_kernel() {
    let src = ramp(3, 3, 2);
    let k = img(3, 1, 2, vec![1.0; 6]);
    assert!(matches!(
        convolve_image_separable(src, k, true),
        Err(ImageError::KernelChannelMismatch)
    ));
}

#[test]
fn fixed_kernels_have_literal_weights() {
    let hp = make_high_pass_filter::<f32>();
    assert_eq!((hp.width(), hp.height(), hp.channels()), (3, 3, 1));
    assert_eq!(hp.array(), &[0.0, -1.0, 0.0, -1.0, 4.0, -1.0, 0.0, -1.0, 0.0]);
    assert_eq!(
        make_sharpen_filter::<f32>().array(),
        &[0.0, -1.0, 0.0, -1.0, 5.0, -1.0, 0.0, -1.0, 0.0]
    );
    assert_eq!(
        make_emboss_filter::<f32>().array(),
        &[-2.0, -1.0, 0.0, -1.0, 1.0, 1.0, 0.0, 1.0, 2.0]
    );
    assert_eq!(
        make_sobel_x_filter::<f32>().array(),
        &[-1.0, 0.0, 1.0, -2.0, 0.0, 2.0, -1.0, 0.0, 1.0]
    );
    assert_eq!(
        make_sobel_y_filter::<f32>().array(),
        &[-1.0, -2.0, -1.0, 0.0, 0.0, 0.0, 1.0, 2.0, 1.0]
    );
}

#[test]
fn sobel_y_on_vertical_ramp() {
    let src = img(3, 3, 1, vec![0.0, 0.0, 0.0, 1.0, 1.0, 1.0, 2.0, 2.0, 2.0]);
    let out = convolve_image(src, make_sobel_y_filter::<f32>(), true).unwrap();
    // centre: rows below minus rows above, weights 1 + 2 + 1
    assert_eq!(out.get_pixel(1, 1), &[8.0]);
}

#[test]
fn integer_samples_convolve_exactly() {
    let src = Image::new(3, 1, 1, vec![1i64, 2, 3]).unwrap();
    let h = Image::new(3, 1, 1, vec![1i64, 2, 1]).unwrap();
    let out = convolve_image(src, h, true).unwrap();
    assert_eq!(out.array(), &[4, 8, 8]);
}
