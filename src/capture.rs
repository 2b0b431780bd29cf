use vstd::prelude::*;

verus! {

/// Frames captured per second of recording.
pub const FRAMES_PER_SECOND: u32 = 30;

/// Length of a recording, in seconds.
pub const RECORD_SECONDS: u32 = 65;

/// Why a frame was not captured or not rebuilt.
#[derive(Clone, Copy, Debug, PartialEq, Eq)]
pub enum CaptureError {
    /// The read-back buffer does not hold `width * height * 4` bytes.
    SizeMismatch { expected: u128, actual: u128 },
    /// The worker could not rebuild an image from the buffer.
    Malformed,
}

/// Number of bytes of an RGBA8 frame of the given dimensions.
pub open spec fn frame_len(width: u32, height: u32) -> int {
    width * height * 4
}

/// A frame handed to the background writer: its pixels, dimensions, target
/// path and integrity checksum.
pub struct FrameMessage {
    pub data: Vec<u8>,
    pub width: u32,
    pub height: u32,
    pub path: String,
    pub checksum: Vec<u8>,
}

/// SHA-256 digest of a byte sequence.
pub uninterp spec fn sha256_of(data: Seq<u8>) -> Seq<u8>;

/// Relies on sha2::Sha256::digest (through digest::Digest): the 32-byte
/// SHA-256 digest of the bytes, which depends on the bytes alone.
#[verifier::external_body]
fn sha256(data: &Vec<u8>) -> (r: Vec<u8>)
    ensures
        r@ == sha256_of(data@),
        r@.len() == 32,
{
    <sha2::Sha256 as sha2::Digest>::digest(data.as_slice()).to_vec()
}

/// The SHA-256 checksum of a buffer, logged beside each captured frame.
pub fn checksum(data: &Vec<u8>) -> (r: Vec<u8>)
    ensures
        r@ == sha256_of(data@),
        r@.len() == 32,
{
    sha256(data)
}

/// Number of bytes of an RGBA8 frame of the given dimensions.
pub fn expected_frame_len(width: u32, height: u32) -> (r: u128)
    ensures
        r == frame_len(width, height),
{
    assert(width * height <= 0xffff_ffff * 0xffff_ffff) by (nonlinear_arith);
    (width as u128) * (height as u128) * 4
}

/// Checks a read-back frame buffer and prepares the message for the writer.
/// A buffer whose length is not `width * height * 4` is refused with
/// `SizeMismatch`, and then no message exists to be sent.
pub fn capture_frame(data: Vec<u8>, width: u32, height: u32, path: String) -> (r: Result<FrameMessage, CaptureError>)
    ensures
        data@.len() != frame_len(width, height) <==> r is Err,
        r is Err ==> r == Err::<FrameMessage, CaptureError>(CaptureError::SizeMismatch {
            expected: frame_len(width, height) as u128,
            actual: data@.len() as u128,
        }),
        r matches Ok(m) ==> {
            &&& m.data@ == data@
            &&& m.width == width
            &&& m.height == height
            &&& m.path@ == path@
            &&& m.checksum@ == sha256_of(data@)
        },
{
    let expected = expected_frame_len(width, height);
    let actual = data.len() as u128;
    if actual != expected {
        return Err(CaptureError::SizeMismatch { expected, actual });
    }
    let checksum = sha256(&data);
    Ok(FrameMessage { data, width, height, path, checksum })
}

/// Checks, on the writer's side, that a frame buffer matches the dimensions
/// it is to be rebuilt with; one that does not is refused with `Malformed`.
pub fn check_for_writer(data: &Vec<u8>, width: u32, height: u32) -> (r: Result<(), CaptureError>)
    ensures
        r is Ok <==> data@.len() == frame_len(width, height),
        r is Err ==> r == Err::<(), CaptureError>(CaptureError::Malformed),
{
    if data.len() as u128 != expected_frame_len(width, height) {
        return Err(CaptureError::Malformed);
    }
    Ok(())
}

/// Where the capture stands.
#[derive(Clone, Copy, Debug, PartialEq, Eq)]
pub enum Phase {
    Recording,
    Encoding,
    Done,
}

/// The capture's progress: phase, frames captured so far and the number of
/// frames after which encoding starts.
#[derive(Clone, Copy, Debug, PartialEq, Eq)]
pub struct Recorder {
    pub phase: Phase,
    pub frame_count: u32,
    pub frame_target: u32,
}

impl Recorder {
    /// While recording, the count is below the target, or nothing has been
    /// captured yet.
    pub open spec fn wf(&self) -> bool {
        self.phase is Recording ==> (self.frame_count < self.frame_target || self.frame_count == 0)
    }

    /// A recorder that starts recording, with no frame captured.
    pub fn new(frame_target: u32) -> (r: Recorder)
        ensures
            r.wf(),
            r == (Recorder { phase: Phase::Recording, frame_count: 0, frame_target }),
    {
        Recorder { phase: Phase::Recording, frame_count: 0, frame_target }
    }

    /// A recorder for `FRAMES_PER_SECOND * RECORD_SECONDS` frames.
    pub fn standard() -> (r: Recorder)
        ensures
            r.wf(),
            r == (Recorder { phase: Phase::Recording, frame_count: 0, frame_target: 1950 }),
    {
        Recorder::new(FRAMES_PER_SECOND * RECORD_SECONDS)
    }

    pub fn is_recording(&self) -> (b: bool)
        ensures
            b == self.phase is Recording,
    {
        matches!(self.phase, Phase::Recording)
    }

    /// Index of the next frame to capture.
    pub fn next_frame(&self) -> (n: u32)
        ensures
            n == self.frame_count,
    {
        self.frame_count
    }

    /// Records one captured frame. Returns whether the target is reached, in
    /// which case the recorder moves on to encoding.
    pub fn frame_captured(&mut self) -> (start_encoding: bool)
        requires
            old(self).wf(),
            old(self).phase is Recording,
        ensures
            final(self).wf(),
            final(self).frame_count == old(self).frame_count + 1,
            final(self).frame_target == old(self).frame_target,
            start_encoding == (final(self).frame_count >= old(self).frame_target),
            final(self).phase == (if start_encoding { Phase::Encoding } else { Phase::Recording }),
    {
        self.frame_count = self.frame_count + 1;
        if self.frame_count >= self.frame_target {
            self.phase = Phase::Encoding;
            true
        } else {
            false
        }
    }

    /// The encoder has run, whatever its outcome; the capture is over.
    pub fn encoding_finished(&mut self)
        requires
            old(self).phase is Encoding,
        ensures
            *final(self) == (Recorder { phase: Phase::Done, ..*old(self) }),
    {
        self.phase = Phase::Done;
    }
}

} // verus!
