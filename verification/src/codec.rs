//! The pass-through codec that frames travel through, and the H.264 helpers.
use vstd::prelude::*;
use crate::error::AppError;

pub mod h264;

verus! {

/// Which codec a stream uses.
#[derive(Debug, Clone, Copy, PartialEq, Eq, Structural)]
pub enum CodecKind {
    H264,
    Hevc,
}

/// The four bytes that tag a frame of `kind`.
pub open spec fn marker_spec(kind: CodecKind) -> Seq<u8> {
    match kind {
        CodecKind::H264 => seq![0x48u8, 0x32u8, 0x36u8, 0x34u8],
        CodecKind::Hevc => seq![0x48u8, 0x45u8, 0x56u8, 0x43u8],
    }
}

impl CodecKind {
    /// The tag appended to every encoded frame: `H264` or `HEVC` in ASCII.
    pub fn marker(&self) -> (m: Vec<u8>)
        ensures
            m@ == marker_spec(*self),
    {
        match self {
            CodecKind::H264 => vec![0x48u8, 0x32u8, 0x36u8, 0x34u8],
            CodecKind::Hevc => vec![0x48u8, 0x45u8, 0x56u8, 0x43u8],
        }
    }
}

/// Encoder settings.
#[derive(Debug, Clone, Copy)]
pub struct CodecConfig {
    pub bitrate: u32,
    pub framerate: u32,
    pub codec: CodecKind,
}

impl CodecConfig {
    /// 8 Mbit/s at 60 frames per second, H.264.
    pub fn default_config() -> (c: Self)
        ensures
            c.bitrate == 8_000_000,
            c.framerate == 60,
            c.codec == CodecKind::H264,
    {
        CodecConfig { bitrate: 8_000_000, framerate: 60, codec: CodecKind::H264 }
    }
}

impl Default for CodecConfig {
    fn default() -> (c: Self)
        ensures
            c.bitrate == 8_000_000,
            c.framerate == 60,
            c.codec == CodecKind::H264,
    {
        CodecConfig::default_config()
    }
}

/// The pass-through encoder: it tags each frame with its codec's marker.
#[derive(Debug)]
pub struct Encoder {
    config: CodecConfig,
}

impl Encoder {
    pub closed spec fn config_spec(&self) -> CodecConfig {
        self.config
    }

    /// An encoder for `config`; the frame rate must be positive.
    pub fn new(config: CodecConfig) -> (r: Result<Encoder, AppError>)
        ensures
            match r {
                Ok(e) => config.framerate != 0 && e.config_spec() == config,
                Err(AppError::Message(m)) => config.framerate == 0 && m@ == "framerate must be positive"@,
                Err(_) => false,
            },
    {
        if config.framerate == 0 {
            return Err(AppError::Message(String::from_str("framerate must be positive")));
        }
        Ok(Encoder { config })
    }

    /// The frame followed by the codec's marker.
    pub fn encode(&self, raw_frame: &[u8]) -> (r: Result<Vec<u8>, AppError>)
        ensures
            r matches Ok(v) && v@ == raw_frame@ + marker_spec(self.config_spec().codec),
    {
        let mut payload: Vec<u8> = Vec::new();
        let mut i: usize = 0;
        while i < raw_frame.len()
            invariant
                i <= raw_frame@.len(),
                payload@ == raw_frame@.subrange(0, i as int),
            decreases raw_frame@.len() - i,
        {
            payload.push(raw_frame[i]);
            i = i + 1;
            assert(payload@ =~= raw_frame@.subrange(0, i as int));
        }
        let mut marker = self.config.codec.marker();
        payload.append(&mut marker);
        assert(raw_frame@.subrange(0, raw_frame@.len() as int) =~= raw_frame@);
        Ok(payload)
    }

    pub fn config(&self) -> (c: &CodecConfig)
        ensures
            *c == self.config_spec(),
    {
        &self.config
    }
}

/// The pass-through decoder: it hands packets back unchanged.
#[derive(Debug)]
pub struct Decoder;

impl Decoder {
    pub fn new() -> (r: Result<Decoder, AppError>)
        ensures
            r is Ok,
    {
        Ok(Decoder)
    }

    /// A copy of the packet.
    pub fn decode(&self, packet: &[u8]) -> (r: Result<Vec<u8>, AppError>)
        ensures
            r matches Ok(v) && v@ == packet@,
    {
        let mut out: Vec<u8> = Vec::new();
        let mut i: usize = 0;
        while i < packet.len()
            invariant
                i <= packet@.len(),
                out@ == packet@.subrange(0, i as int),
            decreases packet@.len() - i,
        {
            out.push(packet[i]);
            i = i + 1;
            assert(out@ =~= packet@.subrange(0, i as int));
        }
        assert(packet@.subrange(0, packet@.len() as int) =~= packet@);
        Ok(out)
    }
}

/// Decoding an encoded frame gives back the frame followed by the codec's
/// marker, whatever the frame.
pub proof fn lemma_decode_after_encode(raw: Seq<u8>, kind: CodecKind)
    ensures
        (raw + marker_spec(kind)).subrange(0, raw.len() as int) == raw,
        (raw + marker_spec(kind)).len() == raw.len() + 4,
{
    assert((raw + marker_spec(kind)).subrange(0, raw.len() as int) =~= raw);
}

} // verus!
