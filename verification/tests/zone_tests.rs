use zync::color::ZoneColor;
use zync::frame::Frame;
use zync::zone::{SampleError, ZoneConfig, ZoneSampler};

fn sampler(x: u32, y: u32, width: u32, height: u32) -> ZoneSampler {
    ZoneSampler::new(ZoneConfig { x, y, width, height, light_name: "lamp".to_string() })
        .expect("a sampler is always made")
}

/// A frame whose pixel at (x, y) is (10 * x, 10 * y, x + y), alpha 255.
fn grid(width: u32, height: u32) -> Frame {
    let mut data = Vec::new();
    for y in 0..height {
        for x in 0..width {
            data.push((10 * x) as u8);
            data.push((10 * y) as u8);
            data.push((x + y) as u8);
            data.push(255);
        }
    }
    Frame::from_raw(width, height, data).expect("the buffer fits")
}

fn uniform(width: u32, height: u32, rgb: (u8, u8, u8)) -> Frame {
    let mut data = Vec::new();
    for _ in 0..width * height {
        data.push(rgb.0);
        data.push(rgb.1);
        data.push(rgb.2);
        data.push(7);
    }
    Frame::from_raw(width, height, data).expect("the buffer fits")
}

#[test]
fn the_sampler_keeps_its_zone() {
    let s = sampler(1, 2, 3, 4);
    assert_eq!((s.config.x, s.config.y, s.config.width, s.config.height), (1, 2, 3, 4));
    assert_eq!(s.get_light_name(), "lamp");
}

#[test]
fn a_uniform_frame_gives_its_colour() {
    let frame = uniform(8, 6, (12, 34, 56));
    for stride in [1u8, 2, 3, 7, 255] {
        assert_eq!(sampler(0, 0, 8, 6).sample(&frame, stride), Ok(ZoneColor::new(12, 34, 56)));
        assert_eq!(sampler(3, 2, 4, 4).sample(&frame, stride), Ok(ZoneColor::new(12, 34, 56)));
    }
}

#[test]
fn the_alpha_channel_is_left_out() {
    let frame = uniform(2, 2, (0, 0, 0));
    assert_eq!(sampler(0, 0, 2, 2).sample(&frame, 1), Ok(ZoneColor::new(0, 0, 0)));
}

#[test]
fn the_mean_is_taken_over_the_zone_only() {
    let frame = grid(6, 5);
    // x in 2..5, y in 1..3: r mean 10 * 3 = 30, g mean 10 * 1.5 = 15, b mean 3 + 1.5 = 4.5
    assert_eq!(sampler(2, 1, 3, 2).sample(&frame, 1), Ok(ZoneColor::new(30, 15, 4)));
    assert_eq!(sampler(5, 4, 1, 1).sample(&frame, 1), Ok(ZoneColor::new(50, 40, 9)));
}

#[test]
fn the_mean_is_rounded_down() {
    let data = vec![0, 0, 0, 0, 1, 2, 3, 0, 2, 5, 255, 0];
    let frame = Frame::from_raw(3, 1, data).expect("fits");
    // r: 3 / 3 = 1, g: 7 / 3 = 2.33, b: 258 / 3 = 86
    assert_eq!(sampler(0, 0, 3, 1).sample(&frame, 1), Ok(ZoneColor::new(1, 2, 86)));
    // r: 1 / 2, g: 2 / 2, b: 3 / 2
    assert_eq!(sampler(0, 0, 2, 1).sample(&frame, 1), Ok(ZoneColor::new(0, 1, 1)));
}

#[test]
fn a_stride_skips_pixels_in_both_directions() {
    let frame = grid(6, 5);
    // x in {0, 2, 4}, y in {0, 2, 4}: r mean 20, g mean 20, b mean 4
    assert_eq!(sampler(0, 0, 6, 5).sample(&frame, 2), Ok(ZoneColor::new(20, 20, 4)));
    // x in {1, 4}, y in {1, 4}: r mean 25, g mean 25, b mean 5
    assert_eq!(sampler(1, 1, 5, 4).sample(&frame, 3), Ok(ZoneColor::new(25, 25, 5)));
}

#[test]
fn a_stride_beyond_the_zone_visits_its_origin() {
    let frame = grid(6, 5);
    assert_eq!(sampler(3, 2, 3, 3).sample(&frame, 200), Ok(ZoneColor::new(30, 20, 5)));
}

#[test]
fn a_zone_may_cover_the_whole_frame() {
    let frame = grid(4, 4);
    // r mean 15, g mean 15, b mean 3
    assert_eq!(sampler(0, 0, 4, 4).sample(&frame, 1), Ok(ZoneColor::new(15, 15, 3)));
}

#[test]
fn a_stride_of_zero_is_an_error() {
    let frame = grid(4, 4);
    assert_eq!(sampler(0, 0, 4, 4).sample(&frame, 0), Err(SampleError::ZeroStride));
    assert_eq!(sampler(0, 0, 0, 0).sample(&frame, 0), Err(SampleError::ZeroStride));
}

#[test]
fn an_empty_zone_is_an_error() {
    let frame = grid(4, 4);
    assert_eq!(sampler(0, 0, 0, 4).sample(&frame, 1), Err(SampleError::EmptyZone));
    assert_eq!(sampler(0, 0, 4, 0).sample(&frame, 1), Err(SampleError::EmptyZone));
    assert_eq!(sampler(9, 9, 0, 0).sample(&frame, 1), Err(SampleError::EmptyZone));
}

#[test]
fn a_zone_beyond_the_frame_is_an_error() {
    let frame = grid(4, 4);
    assert_eq!(sampler(0, 0, 5, 4).sample(&frame, 1), Err(SampleError::OutOfBounds));
    assert_eq!(sampler(0, 0, 4, 5).sample(&frame, 1), Err(SampleError::OutOfBounds));
    assert_eq!(sampler(3, 3, 2, 1).sample(&frame, 1), Err(SampleError::OutOfBounds));
    assert_eq!(sampler(4, 0, 1, 1).sample(&frame, 1), Err(SampleError::OutOfBounds));
    assert_eq!(
        sampler(u32::MAX, u32::MAX, u32::MAX, u32::MAX).sample(&frame, 1),
        Err(SampleError::OutOfBounds)
    );
}

#[test]
fn a_zone_that_ends_at_the_edge_is_sampled() {
    let frame = grid(4, 4);
    assert_eq!(sampler(3, 3, 1, 1).sample(&frame, 1), Ok(ZoneColor::new(30, 30, 6)));
}
