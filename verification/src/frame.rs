use vstd::prelude::*;

verus! {

/// A captured screen image: `width x height` pixels of four bytes each
/// (red, green, blue, alpha), row after row.
///
/// The pixels live in an `image::RgbaImage`, which the verifier cannot look
/// into. What it holds is named by [`frame_width`], [`frame_height`] and
/// [`frame_bytes`].
#[verifier::external_body]
pub struct Frame {
    image: image::RgbaImage,
}

/// The width in pixels that `image::ImageBuffer::width` reports.
pub uninterp spec fn frame_width(frame: Frame) -> nat;

/// The height in pixels that `image::ImageBuffer::height` reports.
pub uninterp spec fn frame_height(frame: Frame) -> nat;

/// The raw sample buffer of the image, as `image::ImageBuffer::as_raw` hands it out.
pub uninterp spec fn frame_bytes(frame: Frame) -> Seq<u8>;

/// The position in the sample buffer of channel `channel` of the pixel at `(x, y)`.
pub open spec fn sample_index(frame: Frame, x: int, y: int, channel: int) -> int {
    4 * (y * frame_width(frame) + x) + channel
}

/// The value of channel `channel` (0 red, 1 green, 2 blue) of the pixel at `(x, y)`.
pub open spec fn channel_at(frame: Frame, x: int, y: int, channel: int) -> int {
    frame_bytes(frame)[sample_index(frame, x, y, channel)] as int
}

/// Calls `image::ImageBuffer::from_raw`, which keeps the buffer as it is. It
/// works out the bytes needed as `4 * width`, then times `height`, each step
/// within the range of `usize`, and accepts the buffer exactly when both
/// steps stay in range and the buffer holds that many bytes at least.
#[verifier::external_body]
fn image_from_raw(width: u32, height: u32, data: Vec<u8>) -> (made: Option<Frame>)
    ensures
        made.is_some() <==> (4 * width <= usize::MAX && 4 * width * height <= data@.len()),
        made matches Some(frame) ==> frame_width(frame) == width && frame_height(frame) == height
            && frame_bytes(frame) == data@,
{
    match image::RgbaImage::from_raw(width, height, data) {
        Some(image) => Some(Frame { image }),
        None => None,
    }
}

/// Calls `image::ImageBuffer::width`.
#[verifier::external_body]
fn image_width(frame: &Frame) -> (width: u32)
    ensures
        width == frame_width(*frame),
{
    frame.image.width()
}

/// Calls `image::ImageBuffer::height`.
#[verifier::external_body]
fn image_height(frame: &Frame) -> (height: u32)
    ensures
        height == frame_height(*frame),
{
    frame.image.height()
}

/// Calls `image::ImageBuffer::get_pixel`, which panics outside the image and
/// inside it reads the four samples that start at `4 * (y * width + x)`.
/// The colour channels are handed out, the alpha channel is left behind.
#[verifier::external_body]
fn image_pixel(frame: &Frame, x: u32, y: u32) -> (rgb: (u8, u8, u8))
    requires
        x < frame_width(*frame),
        y < frame_height(*frame),
    ensures
        rgb.0 == channel_at(*frame, x as int, y as int, 0),
        rgb.1 == channel_at(*frame, x as int, y as int, 1),
        rgb.2 == channel_at(*frame, x as int, y as int, 2),
{
    let pixel = frame.image.get_pixel(x, y);
    (pixel[0], pixel[1], pixel[2])
}

/// Calls `Clone::clone` of `image::ImageBuffer`, which copies the buffer and the dimensions.
#[verifier::external_body]
fn image_clone(frame: &Frame) -> (copy: Frame)
    ensures
        frame_width(copy) == frame_width(*frame),
        frame_height(copy) == frame_height(*frame),
        frame_bytes(copy) == frame_bytes(*frame),
{
    Frame { image: frame.image.clone() }
}

impl Frame {
    /// Builds a frame over `data`. The buffer is accepted exactly when the
    /// bytes of one row can be counted in a `usize` and the buffer is large
    /// enough for `width x height` pixels; a longer one is kept whole.
    pub fn from_raw(width: u32, height: u32, data: Vec<u8>) -> (made: Option<Frame>)
        ensures
            made.is_some() <==> (4 * width <= usize::MAX && 4 * width * height <= data@.len()),
            made matches Some(frame) ==> frame_width(frame) == width && frame_height(frame)
                == height && frame_bytes(frame) == data@,
    {
        image_from_raw(width, height, data)
    }

    pub fn width(&self) -> (width: u32)
        ensures
            width == frame_width(*self),
    {
        image_width(self)
    }

    pub fn height(&self) -> (height: u32)
        ensures
            height == frame_height(*self),
    {
        image_height(self)
    }

    /// The red, green and blue channel of the pixel at `(x, y)`, or `None`
    /// outside the frame.
    pub fn rgb_at(&self, x: u32, y: u32) -> (rgb: Option<(u8, u8, u8)>)
        ensures
            rgb.is_some() <==> x < frame_width(*self) && y < frame_height(*self),
            rgb matches Some(c) ==> c.0 == channel_at(*self, x as int, y as int, 0) && c.1
                == channel_at(*self, x as int, y as int, 1) && c.2 == channel_at(
                *self,
                x as int,
                y as int,
                2,
            ),
    {
        if x < image_width(self) && y < image_height(self) {
            Some(image_pixel(self, x, y))
        } else {
            None
        }
    }

    /// An independent copy with the same dimensions and bytes.
    pub fn snapshot(&self) -> (copy: Frame)
        ensures
            frame_width(copy) == frame_width(*self),
            frame_height(copy) == frame_height(*self),
            frame_bytes(copy) == frame_bytes(*self),
    {
        image_clone(self)
    }
}

} // verus!
