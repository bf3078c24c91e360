//! Channels and envelopes of the device-to-device connection.

use crate::ident::Uuid;
use vstd::prelude::*;

verus! {

/// Logical channels multiplexed over one secure device-to-device connection.
#[derive(Clone, Copy, Debug, PartialEq, Eq, Hash, Structural)]
pub enum ChannelId {
    /// Session lifecycle, heartbeat, kill-switch. Highest priority.
    Control,
    /// Streaming inference tokens, request and response.
    Inference,
    /// Handoff state, task queue, checkpoints.
    Sync,
    /// Approval prompts and responses.
    Approval,
    /// Takeover screen frames.
    StreamVideo,
    /// Takeover input events.
    Input,
    /// Chunked file transfer.
    FileXfr,
    /// Reserved for audio forwarding.
    Audio,
}

impl ChannelId {
    /// The channel's number on the wire.
    pub open spec fn code_spec(self) -> u8 {
        match self {
            ChannelId::Control => 1,
            ChannelId::Inference => 2,
            ChannelId::Sync => 3,
            ChannelId::Approval => 4,
            ChannelId::StreamVideo => 5,
            ChannelId::Input => 6,
            ChannelId::FileXfr => 7,
            ChannelId::Audio => 8,
        }
    }

    /// The channel's number on the wire.
    pub fn code(&self) -> (r: u8)
        ensures
            r == self.code_spec(),
            1 <= r <= 8,
    {
        match self {
            ChannelId::Control => 1,
            ChannelId::Inference => 2,
            ChannelId::Sync => 3,
            ChannelId::Approval => 4,
            ChannelId::StreamVideo => 5,
            ChannelId::Input => 6,
            ChannelId::FileXfr => 7,
            ChannelId::Audio => 8,
        }
    }

    /// The channel's name.
    pub open spec fn name_spec(self) -> Seq<char> {
        match self {
            ChannelId::Control => "Control"@,
            ChannelId::Inference => "Inference"@,
            ChannelId::Sync => "Sync"@,
            ChannelId::Approval => "Approval"@,
            ChannelId::StreamVideo => "StreamVideo"@,
            ChannelId::Input => "Input"@,
            ChannelId::FileXfr => "FileXfr"@,
            ChannelId::Audio => "Audio"@,
        }
    }

    /// The channel's name.
    pub fn name(&self) -> (r: &'static str)
        ensures
            r@ == self.name_spec(),
    {
        match self {
            ChannelId::Control => "Control",
            ChannelId::Inference => "Inference",
            ChannelId::Sync => "Sync",
            ChannelId::Approval => "Approval",
            ChannelId::StreamVideo => "StreamVideo",
            ChannelId::Input => "Input",
            ChannelId::FileXfr => "FileXfr",
            ChannelId::Audio => "Audio",
        }
    }
}

/// Two channels with one number are the same channel.
pub proof fn law_channel_codes_are_distinct(a: ChannelId, b: ChannelId)
    ensures
        a.code_spec() == b.code_spec() ==> a == b,
{
}

/// A framed message on the multiplexed bus. The payload is owned by its domain.
#[derive(Debug)]
pub struct MultiplexedEnvelope {
    pub channel: ChannelId,
    pub seq_no: u64,
    pub session_id: Uuid,
    /// Logical type name of the payload.
    pub payload_type: String,
    /// Serialized payload bytes.
    pub payload_bytes: Vec<u8>,
}

/// [`MultiplexedEnvelope`] as a mathematical value.
pub struct EnvelopeView {
    pub channel: ChannelId,
    pub seq_no: u64,
    pub session_id: Uuid,
    pub payload_type: Seq<char>,
    pub payload_bytes: Seq<u8>,
}

impl View for MultiplexedEnvelope {
    type V = EnvelopeView;

    open spec fn view(&self) -> EnvelopeView {
        EnvelopeView {
            channel: self.channel,
            seq_no: self.seq_no,
            session_id: self.session_id,
            payload_type: self.payload_type@,
            payload_bytes: self.payload_bytes@,
        }
    }
}

/// A copy of a run of bytes.
pub fn clone_bytes(v: &Vec<u8>) -> (r: Vec<u8>)
    ensures
        r@ == v@,
{
    let mut out: Vec<u8> = Vec::new();
    let mut i: usize = 0;
    while i < v.len()
        invariant
            i <= v.len(),
            out@ == v@.take(i as int),
        decreases v.len() - i,
    {
        out.push(v[i]);
        assert(v@.take(i as int).push(v@[i as int]) =~= v@.take(i + 1));
        i += 1;
    }
    assert(v@.take(v@.len() as int) =~= v@);
    out
}

impl Clone for MultiplexedEnvelope {
    fn clone(&self) -> (r: Self)
        ensures
            r@ == self@,
    {
        MultiplexedEnvelope {
            channel: self.channel,
            seq_no: self.seq_no,
            session_id: self.session_id,
            payload_type: self.payload_type.clone(),
            payload_bytes: clone_bytes(&self.payload_bytes),
        }
    }
}

} // verus!
