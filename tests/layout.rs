use imgproc::{decoded_channels, encode_layout, ColorLayout, EncodeLayout, ImageError};

#[test]
fn decoded_channel_counts() {
    assert_eq!(decoded_channels(ColorLayout::L8), Ok(1));
    assert_eq!(decoded_channels(ColorLayout::L16), Ok(1));
    assert_eq!(decoded_channels(ColorLayout::Rgb8), Ok(3));
    assert_eq!(decoded_channels(ColorLayout::Rgb16), Ok(3));
    assert_eq!(decoded_channels(ColorLayout::Rgb32F), Ok(3));
    assert_eq!(decoded_channels(ColorLayout::Rgba8), Ok(4));
    assert_eq!(decoded_channels(ColorLayout::Rgba16), Ok(4));
    assert_eq!(decoded_channels(ColorLayout::Rgba32F), Ok(4));
}

#[test]
fn gray_alpha_and_other_layouts_are_refused() {
    for layout in [ColorLayout::La8, ColorLayout::La16, ColorLayout::Other] {
        assert_eq!(decoded_channels(layout), Err(ImageError::UnsupportedFormat));
    }
}

#[test]
fn encode_layout_by_channel_count() {
    assert_eq!(encode_layout(1), Ok(EncodeLayout::Gray));
    assert_eq!(encode_layout(3), Ok(EncodeLayout::Rgb));
    for c in [0u32, 2, 4, 5] {
        assert_eq!(encode_layout(c), Err(ImageError::UnsupportedChannelCount));
    }
}
