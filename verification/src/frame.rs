use vstd::prelude::*;

verus! {

/// One application message as the relay broadcasts it: a UTF-8 text payload
/// or a binary payload. Control frames never become a `Frame`; the framing
/// layer answers them itself.
pub enum Frame {
    Text(String),
    Binary(Vec<u8>),
}

/// The mathematical value of a frame: its kind together with its payload.
pub enum FrameModel {
    Text(Seq<char>),
    Binary(Seq<u8>),
}

impl View for Frame {
    type V = FrameModel;

    open spec fn view(&self) -> FrameModel {
        match self {
            Frame::Text(s) => FrameModel::Text(s@),
            Frame::Binary(b) => FrameModel::Binary(b@),
        }
    }
}

impl Clone for Frame {
    /// A cloned frame has the same kind and the same payload.
    fn clone(&self) -> (r: Self)
        ensures
            r@ == self@,
    {
        match self {
            Frame::Text(s) => Frame::Text(s.clone()),
            Frame::Binary(b) => Frame::Binary(b.clone()),
        }
    }
}

/// What one read from a peer's socket yields once the framing layer has
/// decoded it: a text frame, a binary frame, or a control frame (ping, pong
/// or close) that the framing layer already handled.
pub enum WireMsg {
    Text(String),
    Binary(Vec<u8>),
    Control,
}

/// The broadcast policy on one inbound message: text and binary frames are
/// relayed with their payload untouched, byte for byte and with the kind
/// kept; control frames are not broadcast at all.
pub fn broadcast_frame_of(m: WireMsg) -> (r: Option<Frame>)
    ensures
        match m {
            WireMsg::Text(s) => r == Some(Frame::Text(s)),
            WireMsg::Binary(b) => r == Some(Frame::Binary(b)),
            WireMsg::Control => r is None,
        },
{
    match m {
        WireMsg::Text(s) => Some(Frame::Text(s)),
        WireMsg::Binary(b) => Some(Frame::Binary(b)),
        WireMsg::Control => None,
    }
}

} // verus!
