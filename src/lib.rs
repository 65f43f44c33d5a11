//! Pixel buffers and the filters that run over them.
//!
//! The sample type is a parameter: the algorithms need only `+`, `*` (and
//! for some `-`, `/`) on it, and their contracts state each output sample
//! exactly in terms of those operations.
pub mod convolution;
pub mod image;
pub mod kernels;
pub mod laws;
pub mod layout;
pub mod pointwise;
pub mod sample;

pub use convolution::{convolve_image, convolve_image_separable};
pub use image::{is_zero_sample, Image, ImageError, ImageModel};
pub use kernels::{
    make_emboss_filter, make_high_pass_filter, make_sharpen_filter, make_sobel_x_filter,
    make_sobel_y_filter,
};
pub use layout::{decoded_channels, encode_layout, ColorLayout, EncodeLayout};
pub use pointwise::{add_image, l1_norm, scale_image, shift_image, sub_image};
