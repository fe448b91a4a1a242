//! Screen capture through the Media Foundation backend.
use vstd::prelude::*;
use crate::error::AppError;

verus! {

/// The canonical descriptor of the Media Foundation pipeline in use.
pub fn media_foundation_descriptor() -> (d: &'static str)
    ensures
        d@ == "Windows Media Foundation (placeholder)"@,
{
    "Windows Media Foundation (placeholder)"
}

/// One captured frame: its pixel bytes and the pipeline it came from.
#[derive(Debug, Clone)]
pub struct CapturedFrame {
    pub bytes: Vec<u8>,
    pub descriptor: &'static str,
}

/// The Media Foundation capture backend.
#[derive(Debug)]
pub struct MediaFoundationBackend {
    descriptor: &'static str,
}

impl MediaFoundationBackend {
    pub closed spec fn descriptor_spec(&self) -> Seq<char> {
        self.descriptor@
    }

    /// Brings the backend up under the canonical descriptor.
    pub fn bootstrap() -> (r: Result<MediaFoundationBackend, AppError>)
        ensures
            r matches Ok(b) && b.descriptor_spec() == "Windows Media Foundation (placeholder)"@,
    {
        Ok(MediaFoundationBackend { descriptor: media_foundation_descriptor() })
    }

    /// The next frame: the backend hands out empty frames tagged with its descriptor.
    pub fn poll_frame(&self) -> (r: Result<CapturedFrame, AppError>)
        ensures
            r matches Ok(f) && f.bytes@.len() == 0 && f.descriptor@ == self.descriptor_spec(),
    {
        Ok(CapturedFrame { bytes: Vec::new(), descriptor: self.descriptor })
    }
}

/// The capture backends there are.
#[derive(Debug)]
pub enum CaptureBackend {
    MediaFoundation(MediaFoundationBackend),
}

impl CaptureBackend {
    pub fn initialise() -> (r: Result<CaptureBackend, AppError>)
        ensures
            r matches Ok(CaptureBackend::MediaFoundation(b))
                && b.descriptor_spec() == "Windows Media Foundation (placeholder)"@,
    {
        match MediaFoundationBackend::bootstrap() {
            Ok(backend) => Ok(CaptureBackend::MediaFoundation(backend)),
            Err(e) => Err(e),
        }
    }

    pub fn poll_frame(&self) -> (r: Result<CapturedFrame, AppError>)
        ensures
            match self {
                CaptureBackend::MediaFoundation(b) => r matches Ok(f) && f.bytes@.len() == 0
                    && f.descriptor@ == b.descriptor_spec(),
            },
    {
        match self {
            CaptureBackend::MediaFoundation(backend) => backend.poll_frame(),
        }
    }
}

/// A handle for polling captured frames.
#[derive(Debug)]
pub struct FrameCapture {
    backend: CaptureBackend,
}

impl FrameCapture {
    pub closed spec fn descriptor_spec(&self) -> Seq<char> {
        match self.backend {
            CaptureBackend::MediaFoundation(b) => b.descriptor_spec(),
        }
    }

    pub fn new() -> (r: Result<FrameCapture, AppError>)
        ensures
            r matches Ok(c) && c.descriptor_spec() == "Windows Media Foundation (placeholder)"@,
    {
        match CaptureBackend::initialise() {
            Ok(backend) => Ok(FrameCapture { backend }),
            Err(e) => Err(e),
        }
    }

    /// The next captured frame.
    pub fn poll_frame(&self) -> (r: Result<CapturedFrame, AppError>)
        ensures
            r matches Ok(f) && f.bytes@.len() == 0 && f.descriptor@ == self.descriptor_spec(),
    {
        self.backend.poll_frame()
    }
}

} // verus!
