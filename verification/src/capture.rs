//! Where frames come from: the choice between the two ways of capturing, the
//! slot that a stream leaves its latest frame in, and the decisions of each
//! capture.

use crate::frame::{frame_bytes, frame_height, frame_width, Frame};
use vstd::prelude::*;

verus! {

/// Milliseconds that a capture waits for the first frame of a stream before
/// it looks once more.
pub const FRAME_GRACE_MS: u64 = 1000;

/// Frames per second that the stream is asked for.
pub const STREAM_FRAME_RATE: u32 = 30;

/// Frames that the stream may hold back: with one, and the oldest dropped, it
/// never waits for its reader.
pub const STREAM_MAX_BUFFERS: u32 = 1;

/// Why no frame could be had.
#[derive(Clone, Copy, Debug, PartialEq, Eq, Structural)]
pub enum CaptureError {
    /// None of the monitors is the primary one.
    NoPrimaryMonitor,
    /// The session was granted no stream.
    NoStream,
    /// The stream has not delivered a frame, even after the grace period.
    NoFrameAvailable,
    /// Capture is not available on this platform.
    UnsupportedPlatform,
}

/// The operating system the loop runs on.
#[derive(Clone, Copy, Debug, PartialEq, Eq, Structural)]
pub enum Platform {
    Linux,
    Windows,
    MacOs,
}

/// The way frames are captured.
#[derive(Clone, Copy, Debug, PartialEq, Eq, Structural)]
pub enum CaptureBackend {
    /// Every capture grabs the screen anew.
    Synchronous,
    /// A stream in the background leaves its latest frame in a slot.
    Streaming,
}

/// The backend for a platform, given whether the marker of a display server
/// that streams is set.
pub open spec fn backend_for(platform: Platform, streaming_marker: bool) -> Result<
    CaptureBackend,
    CaptureError,
> {
    match platform {
        Platform::Linux => if streaming_marker {
            Ok(CaptureBackend::Streaming)
        } else {
            Ok(CaptureBackend::Synchronous)
        },
        Platform::Windows => Err(CaptureError::UnsupportedPlatform),
        Platform::MacOs => Err(CaptureError::UnsupportedPlatform),
    }
}

/// Chooses the way to capture: on Linux by the marker, with the synchronous
/// way where it is not set; elsewhere there is none.
pub fn new_screen(platform: Platform, streaming_marker: bool) -> (backend: Result<
    CaptureBackend,
    CaptureError,
>)
    ensures
        backend == backend_for(platform, streaming_marker),
{
    match platform {
        Platform::Linux => if streaming_marker {
            Ok(CaptureBackend::Streaming)
        } else {
            Ok(CaptureBackend::Synchronous)
        },
        Platform::Windows => Err(CaptureError::UnsupportedPlatform),
        Platform::MacOs => Err(CaptureError::UnsupportedPlatform),
    }
}

/// The first monitor at or after `from` that says it is the primary one, or
/// the number of monitors where there is none. A monitor that cannot tell
/// counts as not primary.
pub open spec fn first_primary(monitors: Seq<Option<bool>>, from: nat) -> nat
    decreases monitors.len() - from,
{
    if from >= monitors.len() {
        monitors.len()
    } else if monitors[from as int] == Some(true) {
        from
    } else {
        first_primary(monitors, from + 1)
    }
}

/// The index of the monitor to capture: the first that is primary.
pub fn primary_monitor(monitors: &Vec<Option<bool>>) -> (found: Result<usize, CaptureError>)
    ensures
        found == (if first_primary(monitors@, 0) < monitors@.len() {
            Ok::<usize, CaptureError>(first_primary(monitors@, 0) as usize)
        } else {
            Err::<usize, CaptureError>(CaptureError::NoPrimaryMonitor)
        }),
{
    let mut index: usize = 0;
    while index < monitors.len()
        invariant
            index <= monitors@.len(),
            first_primary(monitors@, 0) == first_primary(monitors@, index as nat),
        decreases monitors@.len() - index,
    {
        match monitors[index] {
            Some(true) => {
                return Ok(index);
            },
            _ => {},
        }
        index = index + 1;
    }
    Err(CaptureError::NoPrimaryMonitor)
}

/// The node to stream from: that of the first stream that the session was granted.
pub fn first_stream(nodes: &Vec<u32>) -> (node: Result<u32, CaptureError>)
    ensures
        node == (if nodes@.len() > 0 {
            Ok::<u32, CaptureError>(nodes@[0])
        } else {
            Err::<u32, CaptureError>(CaptureError::NoStream)
        }),
{
    if nodes.len() > 0 {
        Ok(nodes[0])
    } else {
        Err(CaptureError::NoStream)
    }
}

/// The cell that a stream leaves its latest frame in. It holds one frame at
/// most: a new frame takes the place of the one before, read or not.
pub struct FrameSlot {
    pub latest: Option<Frame>,
}

/// What a reader of the slot does next.
pub enum CaptureStep {
    /// A copy of the latest frame is handed over.
    Deliver(Frame),
    /// No frame yet: wait for as many milliseconds, then look once more.
    Wait(u64),
    /// No frame after the wait either.
    Fail(CaptureError),
}

/// A dimension as the stream reports it, read as an unsigned number of 32 bits.
pub open spec fn dimension(reported: i32) -> u32 {
    if reported >= 0 {
        reported as u32
    } else {
        (reported + 0x1_0000_0000) as u32
    }
}

fn dimension_of(reported: i32) -> (d: u32)
    ensures
        d == dimension(reported),
{
    if reported >= 0 {
        reported as u32
    } else {
        (reported as i64 + 0x1_0000_0000) as u32
    }
}

impl FrameSlot {
    /// Whether a buffer of `len` bytes holds a frame of the reported
    /// dimensions: the bytes of one row can be counted in a `usize`, and the
    /// buffer has room for every row.
    pub open spec fn accepts(width: i32, height: i32, len: nat) -> bool {
        4 * dimension(width) <= usize::MAX && 4 * dimension(width) * dimension(height) <= len
    }

    /// An empty slot.
    pub fn new() -> (slot: Self)
        ensures
            slot.latest is None,
    {
        FrameSlot { latest: None }
    }

    /// Puts `frame` in the slot, in place of whatever was there.
    pub fn store(&mut self, frame: Frame)
        ensures
            final(self).latest == Some(frame),
    {
        self.latest = Some(frame);
    }

    /// Takes in a buffer that the stream produced, with the dimensions that
    /// the stream reports for it. A buffer that holds a frame of these
    /// dimensions replaces the latest frame; one that is too short is dropped,
    /// and the slot stays as it was.
    pub fn land(&mut self, width: i32, height: i32, data: Vec<u8>) -> (landed: bool)
        ensures
            landed == Self::accepts(width, height, data@.len()),
            !landed ==> final(self).latest == old(self).latest,
            landed ==> final(self).latest is Some && frame_width(final(self).latest->0)
                == dimension(width) && frame_height(final(self).latest->0) == dimension(height)
                && frame_bytes(final(self).latest->0) == data@,
    {
        match Frame::from_raw(dimension_of(width), dimension_of(height), data) {
            Some(frame) => {
                self.store(frame);
                true
            },
            None => false,
        }
    }

    /// One look at the slot. A frame that is there is copied out, and stays
    /// in the slot. With none there, the first look asks to wait for the
    /// grace period, and the look after the wait fails.
    pub fn capture_frame(&self, waited: bool) -> (step: CaptureStep)
        ensures
            match self.latest {
                Some(frame) => step matches CaptureStep::Deliver(copy) && frame_width(copy)
                    == frame_width(frame) && frame_height(copy) == frame_height(frame)
                    && frame_bytes(copy) == frame_bytes(frame),
                None => if waited {
                    step matches CaptureStep::Fail(e) && e == CaptureError::NoFrameAvailable
                } else {
                    step matches CaptureStep::Wait(ms) && ms == FRAME_GRACE_MS
                },
            },
    {
        match &self.latest {
            Some(frame) => CaptureStep::Deliver(frame.snapshot()),
            None => if waited {
                CaptureStep::Fail(CaptureError::NoFrameAvailable)
            } else {
                CaptureStep::Wait(FRAME_GRACE_MS)
            },
        }
    }
}

} // verus!
