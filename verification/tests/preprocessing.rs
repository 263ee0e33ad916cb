use howrs::preprocess::{letterbox_geometry, prepare_detect_input, recog_input_tensor, ImageBuf};
use howrs::pixels::{clamp, frame_to_rgb, grey_to_rgb, yuyv_to_rgb, PixelFormat};
use howrs::VisionError;

#[test]
fn letterbox_portrait_scales_by_height() {
    // A portrait input: height is the larger side, so it fills the canvas
    // and the padding sits on the x axis, centered.
    let p = letterbox_geometry(480, 640, 640).unwrap();
    assert_eq!(p.new_h, 640);
    assert_eq!(p.offset_y, 0);
    assert_eq!(p.new_w, 480);
    assert_eq!(p.offset_x, 80);
    let right_pad = 640 - p.new_w - p.offset_x;
    assert!(p.offset_x <= right_pad && right_pad <= p.offset_x + 1);
}

#[test]
fn letterbox_padding_centered_with_rounding() {
    // An odd amount of padding: left gets the smaller half.
    let p = letterbox_geometry(333, 640, 640).unwrap();
    assert_eq!(p.new_h, 640);
    let right_pad = 640 - p.new_w - p.offset_x;
    assert!(p.offset_x <= right_pad && right_pad <= p.offset_x + 1);
}

#[test]
fn letterbox_zero_dimension_is_input_error() {
    assert_eq!(letterbox_geometry(0, 480, 640).unwrap_err(), VisionError::InputError);
    assert_eq!(letterbox_geometry(640, 0, 640).unwrap_err(), VisionError::InputError);
}

#[test]
fn detect_input_pads_with_zeros_and_centers() {
    // A 2x1 image, white then black, letterboxed onto a 32x32 canvas:
    // scaled to 32x16 and pasted at vertical offset 8.
    let img = ImageBuf { width: 2, height: 1, data: vec![255, 255, 255, 0, 0, 0] };
    let (tensor, p) = prepare_detect_input(&img, 32).unwrap();
    assert_eq!(p.new_w, 32);
    assert_eq!(p.new_h, 16);
    assert_eq!(p.offset_y, 8);
    assert_eq!(tensor.len(), 3 * 32 * 32);
    // Rows above and below the pasted window are zero padding, all planes.
    for plane in 0..3 {
        for x in 0..32 {
            assert_eq!(tensor[plane * 1024 + 0 * 32 + x], 0);
            assert_eq!(tensor[plane * 1024 + 31 * 32 + x], 0);
        }
    }
    // Inside the window the left half comes from the white pixel.
    let mut inside = 0u32;
    for y in 8..24 {
        inside += tensor[2 * 1024 + y * 32 + 2] as u32;
    }
    assert!(inside > 0);
}

#[test]
fn recog_input_reverses_channels() {
    // A single red pixel resized to 4x4: the blue plane is zero and the
    // red plane, stored last, carries the value.
    let img = ImageBuf { width: 1, height: 1, data: vec![255, 0, 0] };
    let tensor = recog_input_tensor(&img, 4).unwrap();
    assert_eq!(tensor.len(), 48);
    for i in 0..16 {
        assert_eq!(tensor[i], 0); // blue plane first
        assert_eq!(tensor[32 + i], 255); // red plane last
    }
}

#[test]
fn recog_input_zero_image_is_input_error() {
    let img = ImageBuf { width: 0, height: 0, data: vec![] };
    assert_eq!(recog_input_tensor(&img, 112).unwrap_err(), VisionError::InputError);
}

#[test]
fn clamp_saturates_bytes() {
    assert_eq!(clamp(-5), 0);
    assert_eq!(clamp(0), 0);
    assert_eq!(clamp(137), 137);
    assert_eq!(clamp(255), 255);
    assert_eq!(clamp(300), 255);
}

#[test]
fn yuyv_neutral_chroma_is_grey() {
    // y0 u y1 v with both chromas at the neutral 128: pure grey.
    let data = vec![128u8, 128, 64, 128];
    let out = yuyv_to_rgb(2, 1, &data).unwrap();
    assert_eq!(out, vec![128, 128, 128, 64, 64, 64]);
}

#[test]
fn yuyv_red_chroma_raises_red() {
    let data = vec![128u8, 128, 128, 255];
    let out = yuyv_to_rgb(2, 1, &data).unwrap();
    // 128 + 1.402 * 127 saturates red; green drops; blue unchanged.
    assert_eq!(out[0], 255);
    assert!(out[1] < 128);
    assert_eq!(out[2], 128);
}

#[test]
fn yuyv_short_buffer_is_input_error() {
    let data = vec![0u8; 3];
    assert_eq!(yuyv_to_rgb(2, 1, &data).unwrap_err(), VisionError::InputError);
}

#[test]
fn grey_expands_each_byte() {
    let data = vec![7u8, 9];
    let out = grey_to_rgb(2, 1, &data).unwrap();
    assert_eq!(out, vec![7, 7, 7, 9, 9, 9]);
}

#[test]
fn grey_short_buffer_is_input_error() {
    let data = vec![7u8];
    assert_eq!(grey_to_rgb(2, 1, &data).unwrap_err(), VisionError::InputError);
}

#[test]
fn frame_rgb_passthrough_truncates_extra() {
    let data = vec![1u8, 2, 3, 4, 5, 6, 7];
    let out = frame_to_rgb(PixelFormat::Rgb, 2, 1, &data).unwrap();
    assert_eq!(out, vec![1, 2, 3, 4, 5, 6]);
}

#[test]
fn frame_too_small_is_input_error() {
    let data = vec![1u8, 2, 3];
    assert_eq!(frame_to_rgb(PixelFormat::Rgb, 2, 1, &data).unwrap_err(),
        VisionError::InputError);
}

#[test]
fn frame_grey_converts() {
    let data = vec![10u8, 20];
    let out = frame_to_rgb(PixelFormat::Grey, 2, 1, &data).unwrap();
    assert_eq!(out, vec![10, 10, 10, 20, 20, 20]);
}
