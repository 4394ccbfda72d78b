//! Zones of the screen and the averaging of their pixels.

use crate::color::ZoneColor;
use crate::frame::{channel_at, frame_height, frame_width, Frame};
use vstd::prelude::*;

verus! {

/// A rectangle of the screen and the light that follows it.
#[derive(Clone, Debug)]
pub struct ZoneConfig {
    pub x: u32,
    pub y: u32,
    pub width: u32,
    pub height: u32,
    pub light_name: String,
}

/// Why a zone could not be sampled from a frame.
#[derive(Clone, Copy, Debug, PartialEq, Eq, Structural)]
pub enum SampleError {
    /// The stride between visited pixels is 0.
    ZeroStride,
    /// The zone has no width or no height.
    EmptyZone,
    /// The zone reaches beyond the frame.
    OutOfBounds,
}

/// How many positions `0, stride, 2 * stride, ..` lie below `len`.
pub open spec fn steps(len: int, stride: int) -> int {
    if len <= 0 {
        0
    } else {
        (len - 1) / stride + 1
    }
}

/// The sum of one channel over the first `count` visited pixels of row `y`.
pub open spec fn row_sum(frame: Frame, x0: int, y: int, stride: int, count: nat, channel: int) -> int
    decreases count,
{
    if count == 0 {
        0
    } else {
        row_sum(frame, x0, y, stride, (count - 1) as nat, channel) + channel_at(
            frame,
            x0 + (count - 1) * stride,
            y,
            channel,
        )
    }
}

/// The sum of one channel over the first `rows` visited rows, `cols` pixels of each.
pub open spec fn grid_sum(
    frame: Frame,
    x0: int,
    y0: int,
    stride: int,
    cols: nat,
    rows: nat,
    channel: int,
) -> int
    decreases rows,
{
    if rows == 0 {
        0
    } else {
        grid_sum(frame, x0, y0, stride, cols, (rows - 1) as nat, channel) + row_sum(
            frame,
            x0,
            y0 + (rows - 1) * stride,
            stride,
            cols,
            channel,
        )
    }
}

impl ZoneConfig {
    /// The zone lies within the frame.
    pub open spec fn fits(self, frame: Frame) -> bool {
        self.x + self.width <= frame_width(frame) && self.y + self.height <= frame_height(frame)
    }

    /// Pixels visited in each row.
    pub open spec fn cols(self, stride: int) -> nat {
        steps(self.width as int, stride) as nat
    }

    /// Rows visited.
    pub open spec fn rows(self, stride: int) -> nat {
        steps(self.height as int, stride) as nat
    }

    /// The sum of one channel over every visited pixel of the zone.
    pub open spec fn channel_sum(self, frame: Frame, stride: int, channel: int) -> int {
        grid_sum(
            frame,
            self.x as int,
            self.y as int,
            stride,
            self.cols(stride),
            self.rows(stride),
            channel,
        )
    }

    /// The mean of one channel over the visited pixels, rounded down.
    pub open spec fn channel_mean(self, frame: Frame, stride: int, channel: int) -> int {
        self.channel_sum(frame, stride, channel) / ((self.cols(stride) * self.rows(stride)) as int)
    }

    /// What sampling the zone from `frame` gives: the mean colour, or the
    /// first of the three errors that applies.
    pub open spec fn sampled(self, frame: Frame, stride: u8) -> Result<ZoneColor, SampleError> {
        if stride == 0 {
            Err(SampleError::ZeroStride)
        } else if self.width == 0 || self.height == 0 {
            Err(SampleError::EmptyZone)
        } else if !self.fits(frame) {
            Err(SampleError::OutOfBounds)
        } else {
            Ok(
                ZoneColor {
                    r: self.channel_mean(frame, stride as int, 0) as u8,
                    g: self.channel_mean(frame, stride as int, 1) as u8,
                    b: self.channel_mean(frame, stride as int, 2) as u8,
                },
            )
        }
    }
}

/// Samples the average colour of one zone.
#[derive(Clone, Debug)]
pub struct ZoneSampler {
    pub config: ZoneConfig,
}

/// The count of positions visited is the number of strides needed to pass `len`.
proof fn lemma_steps_reached(len: int, stride: int, k: int)
    requires
        len > 0,
        stride > 0,
        k >= 1,
        (k - 1) * stride < len <= k * stride,
    ensures
        k == steps(len, stride),
{
    let q = (len - 1) / stride;
    assert(q == k - 1) by (nonlinear_arith)
        requires
            q == (len - 1) / stride,
            stride > 0,
            (k - 1) * stride <= len - 1 < k * stride,
    ;
}

/// While the position `k * stride` is below `len`, fewer than `steps` positions were visited.
proof fn lemma_steps_pending(len: int, stride: int, k: int)
    requires
        stride > 0,
        k >= 0,
        k * stride < len,
    ensures
        k < steps(len, stride),
{
    let q = (len - 1) / stride;
    assert(k <= q) by (nonlinear_arith)
        requires
            q == (len - 1) / stride,
            stride > 0,
            k * stride <= len - 1,
    ;
}

/// Every channel value is a byte, so sums stay below 256 per visited pixel.
pub proof fn lemma_row_sum_bounds(
    frame: Frame,
    x0: int,
    y: int,
    stride: int,
    count: nat,
    channel: int,
)
    ensures
        0 <= row_sum(frame, x0, y, stride, count, channel) <= 255 * count,
    decreases count,
{
    if count > 0 {
        lemma_row_sum_bounds(frame, x0, y, stride, (count - 1) as nat, channel);
    }
}

/// The sum over a grid is at most 255 for every visited pixel.
pub proof fn lemma_grid_sum_bounds(
    frame: Frame,
    x0: int,
    y0: int,
    stride: int,
    cols: nat,
    rows: nat,
    channel: int,
)
    ensures
        0 <= grid_sum(frame, x0, y0, stride, cols, rows, channel) <= 255 * (cols * rows),
    decreases rows,
{
    if rows > 0 {
        lemma_grid_sum_bounds(frame, x0, y0, stride, cols, (rows - 1) as nat, channel);
        lemma_row_sum_bounds(frame, x0, y0 + (rows - 1) * stride, stride, cols, channel);
        assert(cols * rows == cols * (rows - 1) + cols) by (nonlinear_arith);
    } else {
        assert(cols * rows == 0) by (nonlinear_arith)
            requires
                rows == 0,
        ;
    }
}

/// Every visited position lies within the extent.
proof fn lemma_steps_stay_inside(len: int, stride: int, k: int)
    requires
        len > 0,
        stride > 0,
        0 <= k < steps(len, stride),
    ensures
        0 <= k * stride < len,
{
    let q = (len - 1) / stride;
    assert(0 <= k * stride <= len - 1) by (nonlinear_arith)
        requires
            q == (len - 1) / stride,
            stride > 0,
            len > 0,
            0 <= k <= q,
    ;
}

/// The sum over a row of pixels that all hold `value` in a channel.
proof fn lemma_uniform_row(
    frame: Frame,
    x0: int,
    y: int,
    stride: int,
    width: int,
    count: nat,
    channel: int,
    value: int,
)
    requires
        stride > 0,
        width > 0,
        count <= steps(width, stride),
        forall|x: int|
            x0 <= x < x0 + width ==> #[trigger] channel_at(frame, x, y, channel) == value,
    ensures
        row_sum(frame, x0, y, stride, count, channel) == value * count,
    decreases count,
{
    if count > 0 {
        lemma_uniform_row(frame, x0, y, stride, width, (count - 1) as nat, channel, value);
        lemma_steps_stay_inside(width, stride, count - 1);
        assert(value * count == value * (count - 1) + value) by (nonlinear_arith);
    } else {
        assert(value * count == 0) by (nonlinear_arith)
            requires
                count == 0,
        ;
    }
}

/// The sum over a grid of pixels that all hold `value` in a channel.
proof fn lemma_uniform_grid(
    frame: Frame,
    x0: int,
    y0: int,
    stride: int,
    width: int,
    height: int,
    rows: nat,
    channel: int,
    value: int,
)
    requires
        stride > 0,
        width > 0,
        height > 0,
        rows <= steps(height, stride),
        forall|x: int, y: int|
            x0 <= x < x0 + width && y0 <= y < y0 + height ==> #[trigger] channel_at(
                frame,
                x,
                y,
                channel,
            ) == value,
    ensures
        grid_sum(frame, x0, y0, stride, steps(width, stride) as nat, rows, channel) == value * (
        steps(width, stride) * rows),
    decreases rows,
{
    let cols = steps(width, stride) as nat;
    if rows > 0 {
        lemma_uniform_grid(frame, x0, y0, stride, width, height, (rows - 1) as nat, channel, value);
        lemma_steps_stay_inside(height, stride, rows - 1);
        lemma_uniform_row(
            frame,
            x0,
            y0 + (rows - 1) * stride,
            stride,
            width,
            cols,
            channel,
            value,
        );
        assert(value * (cols * rows) == value * (cols * (rows - 1)) + value * cols)
            by (nonlinear_arith);
    } else {
        assert(value * (cols * rows) == 0) by (nonlinear_arith)
            requires
                rows == 0,
        ;
    }
}

/// A zone over pixels of one colour is sampled as that colour, whatever the stride.
pub proof fn lemma_uniform_zone(zone: ZoneConfig, frame: Frame, stride: u8, color: ZoneColor)
    requires
        stride > 0,
        zone.width > 0,
        zone.height > 0,
        zone.fits(frame),
        forall|x: int, y: int|
            zone.x <= x < zone.x + zone.width && zone.y <= y < zone.y + zone.height ==> (
            #[trigger] channel_at(frame, x, y, 0)) == color.r,
        forall|x: int, y: int|
            zone.x <= x < zone.x + zone.width && zone.y <= y < zone.y + zone.height ==> (
            #[trigger] channel_at(frame, x, y, 1)) == color.g,
        forall|x: int, y: int|
            zone.x <= x < zone.x + zone.width && zone.y <= y < zone.y + zone.height ==> (
            #[trigger] channel_at(frame, x, y, 2)) == color.b,
    ensures
        zone.sampled(frame, stride) == Ok::<ZoneColor, SampleError>(color),
{
    let step = stride as int;
    let width = zone.width as int;
    let height = zone.height as int;
    let cols = zone.cols(step);
    let rows = zone.rows(step);
    let count = (cols * rows) as int;
    lemma_uniform_grid(frame, zone.x as int, zone.y as int, step, width, height, rows, 0, color.r as int);
    lemma_uniform_grid(frame, zone.x as int, zone.y as int, step, width, height, rows, 1, color.g as int);
    lemma_uniform_grid(frame, zone.x as int, zone.y as int, step, width, height, rows, 2, color.b as int);
    assert(count >= 1) by (nonlinear_arith)
        requires
            count == cols * rows,
            cols >= 1,
            rows >= 1,
    ;
    lemma_mean_of_equals(color.r as int, count);
    lemma_mean_of_equals(color.g as int, count);
    lemma_mean_of_equals(color.b as int, count);
}

/// The mean of `count` equal values is that value.
proof fn lemma_mean_of_equals(value: int, count: int)
    requires
        count >= 1,
    ensures
        (value * count) / count == value,
{
    assert((value * count) / count == value) by (nonlinear_arith)
        requires
            count >= 1,
    ;
}

impl ZoneSampler {
    pub fn new(config: ZoneConfig) -> (made: Result<Self, SampleError>)
        ensures
            made == Ok::<ZoneSampler, SampleError>(ZoneSampler { config }),
    {
        Ok(ZoneSampler { config })
    }

    pub fn get_light_name(&self) -> (name: String)
        ensures
            name@ == self.config.light_name@,
    {
        self.config.light_name.clone()
    }

    /// The sums of the three channels over the first `cols` visited pixels of row `y`.
    fn sum_row(&self, frame: &Frame, y: u32, stride: u8) -> (sums: (u64, u64, u64))
        requires
            stride > 0,
            self.config.width > 0,
            self.config.fits(*frame),
            frame_width(*frame) <= u32::MAX,
            y < frame_height(*frame),
        ensures
            sums.0 == row_sum(
                *frame,
                self.config.x as int,
                y as int,
                stride as int,
                self.config.cols(stride as int),
                0,
            ),
            sums.1 == row_sum(
                *frame,
                self.config.x as int,
                y as int,
                stride as int,
                self.config.cols(stride as int),
                1,
            ),
            sums.2 == row_sum(
                *frame,
                self.config.x as int,
                y as int,
                stride as int,
                self.config.cols(stride as int),
                2,
            ),
    {
        let x0: u64 = self.config.x as u64;
        let x_end: u64 = x0 + self.config.width as u64;
        let step: u64 = stride as u64;
        let mut x: u64 = x0;
        let mut r_sum: u64 = 0;
        let mut g_sum: u64 = 0;
        let mut b_sum: u64 = 0;
        let ghost mut seen: nat = 0;
        assert(0 * step == 0);
        while x < x_end
            invariant
                step == stride,
                step > 0,
                x0 == self.config.x,
                x_end == x0 + self.config.width,
                x_end <= frame_width(*frame) <= u32::MAX,
                self.config.width > 0,
                y < frame_height(*frame),
                x == x0 + seen * step,
                seen > 0 ==> (seen - 1) * step < self.config.width,
                seen <= u32::MAX,
                r_sum == row_sum(*frame, x0 as int, y as int, step as int, seen, 0),
                g_sum == row_sum(*frame, x0 as int, y as int, step as int, seen, 1),
                b_sum == row_sum(*frame, x0 as int, y as int, step as int, seen, 2),
            decreases self.config.cols(step as int) - seen,
        {
            let pixel = frame.rgb_at(x as u32, y).unwrap();
            proof {
                lemma_row_sum_bounds(*frame, x0 as int, y as int, step as int, seen, 0);
                lemma_row_sum_bounds(*frame, x0 as int, y as int, step as int, seen, 1);
                lemma_row_sum_bounds(*frame, x0 as int, y as int, step as int, seen, 2);
                lemma_steps_pending(self.config.width as int, step as int, seen as int);
                assert(seen * step + step == (seen + 1) * step) by (nonlinear_arith);
            }
            r_sum = r_sum + pixel.0 as u64;
            g_sum = g_sum + pixel.1 as u64;
            b_sum = b_sum + pixel.2 as u64;
            x = x + step;
            proof {
                seen = seen + 1;
            }
        }
        proof {
            lemma_steps_reached(self.config.width as int, step as int, seen as int);
        }
        (r_sum, g_sum, b_sum)
    }

    /// The mean colour of the zone in `frame`, visiting every `downsample`-th
    /// pixel in both directions, starting at the zone's origin.
    pub fn sample(&self, frame: &Frame, downsample: u8) -> (color: Result<ZoneColor, SampleError>)
        ensures
            color == self.config.sampled(*frame, downsample),
    {
        if downsample == 0 {
            return Err(SampleError::ZeroStride);
        }
        if self.config.width == 0 || self.config.height == 0 {
            return Err(SampleError::EmptyZone);
        }
        let x_end: u64 = self.config.x as u64 + self.config.width as u64;
        let y0: u64 = self.config.y as u64;
        let y_end: u64 = y0 + self.config.height as u64;
        if x_end > frame.width() as u64 || y_end > frame.height() as u64 {
            return Err(SampleError::OutOfBounds);
        }
        let step: u64 = downsample as u64;
        let ghost cols = self.config.cols(step as int);
        let ghost x0 = self.config.x as int;
        let mut y: u64 = y0;
        let mut r_sum: u128 = 0;
        let mut g_sum: u128 = 0;
        let mut b_sum: u128 = 0;
        let mut rows_done: u64 = 0;
        assert(0 * step == 0);
        proof {
            lemma_steps_pending(self.config.width as int, step as int, 0);
            assert(cols <= self.config.width) by (nonlinear_arith)
                requires
                    cols == (self.config.width - 1) / (step as int) + 1,
                    self.config.width > 0,
                    step > 0,
            ;
        }
        while y < y_end
            invariant
                step == downsample,
                step > 0,
                x0 == self.config.x,
                y0 == self.config.y,
                y_end == y0 + self.config.height,
                self.config.width > 0,
                self.config.height > 0,
                self.config.fits(*frame),
                frame_width(*frame) <= u32::MAX,
                frame_height(*frame) <= u32::MAX,
                cols == self.config.cols(step as int),
                1 <= cols <= u32::MAX,
                y == y0 + rows_done * step,
                rows_done > 0 ==> (rows_done - 1) * step < self.config.height,
                rows_done <= u32::MAX,
                r_sum == grid_sum(*frame, x0, y0 as int, step as int, cols, rows_done as nat, 0),
                g_sum == grid_sum(*frame, x0, y0 as int, step as int, cols, rows_done as nat, 1),
                b_sum == grid_sum(*frame, x0, y0 as int, step as int, cols, rows_done as nat, 2),
            decreases self.config.rows(step as int) - rows_done,
        {
            let row = self.sum_row(frame, y as u32, downsample);
            proof {
                lemma_grid_sum_bounds(*frame, x0, y0 as int, step as int, cols, rows_done as nat, 0);
                lemma_grid_sum_bounds(*frame, x0, y0 as int, step as int, cols, rows_done as nat, 1);
                lemma_grid_sum_bounds(*frame, x0, y0 as int, step as int, cols, rows_done as nat, 2);
                assert(cols * rows_done <= 0x1_0000_0000_0000_0000) by (nonlinear_arith)
                    requires
                        cols <= 0xffff_ffff,
                        rows_done <= 0xffff_ffff,
                ;
                lemma_steps_pending(self.config.height as int, step as int, rows_done as int);
                assert(rows_done * step + step == (rows_done + 1) * step) by (nonlinear_arith);
            }
            r_sum = r_sum + row.0 as u128;
            g_sum = g_sum + row.1 as u128;
            b_sum = b_sum + row.2 as u128;
            y = y + step;
            rows_done = rows_done + 1;
        }
        proof {
            lemma_steps_reached(self.config.height as int, step as int, rows_done as int);
            lemma_grid_sum_bounds(*frame, x0, y0 as int, step as int, cols, rows_done as nat, 0);
            lemma_grid_sum_bounds(*frame, x0, y0 as int, step as int, cols, rows_done as nat, 1);
            lemma_grid_sum_bounds(*frame, x0, y0 as int, step as int, cols, rows_done as nat, 2);
        }
        let ghost rows = rows_done as nat;
        let across: u32 = cols_of(self.config.width, downsample);
        assert(across * rows_done <= 0x1_0000_0000_0000_0000) by (nonlinear_arith)
            requires
                across <= 0xffff_ffff,
                rows_done <= 0xffff_ffff,
        ;
        let count: u128 = across as u128 * rows_done as u128;
        proof {
            assert(count == cols * rows);
            assert(count >= 1) by (nonlinear_arith)
                requires
                    count == cols * rows,
                    cols >= 1,
                    rows >= 1,
            ;
            lemma_mean_is_byte(r_sum as int, count as int);
            lemma_mean_is_byte(g_sum as int, count as int);
            lemma_mean_is_byte(b_sum as int, count as int);
        }
        Ok(
            ZoneColor {
                r: (r_sum / count) as u8,
                g: (g_sum / count) as u8,
                b: (b_sum / count) as u8,
            },
        )
    }
}

/// The number of positions visited along an extent of `len` pixels.
fn cols_of(len: u32, stride: u8) -> (count: u32)
    requires
        len > 0,
        stride > 0,
    ensures
        count == steps(len as int, stride as int),
{
    (len - 1) / (stride as u32) + 1
}

/// A mean of bytes is a byte.
proof fn lemma_mean_is_byte(sum: int, count: int)
    requires
        count >= 1,
        0 <= sum <= 255 * count,
    ensures
        0 <= sum / count <= 255,
{
    assert(0 <= sum / count <= 255) by (nonlinear_arith)
        requires
            count >= 1,
            0 <= sum <= 255 * count,
    ;
}

} // verus!
