//! Framing for the remote datagram transport's channel multiplexer: one frame
//! is the channel's byte id followed by the payload. The pump uses this shape
//! to dispatch inbound frames to per-channel lanes; the backend glue frames
//! outbound payloads the same way.

use vstd::prelude::*;

use crate::shared::MessageChannelID;

verus! {

/// The bytes of a frame carrying `payload` on channel `id`.
pub open spec fn frame_spec(id: u8, payload: Seq<u8>) -> Seq<u8> {
    seq![id] + payload
}

/// Frames one payload for one channel.
pub fn encode_frame(channel: &MessageChannelID, payload: &Vec<u8>) -> (r: Vec<u8>)
    requires
        payload@.len() < usize::MAX,
    ensures
        r@ == frame_spec(channel.id, payload@),
{
    let mut frame: Vec<u8> = Vec::new();
    frame.push(channel.id);
    let mut i: usize = 0;
    while i < payload.len()
        invariant
            i <= payload@.len(),
            payload@.len() < usize::MAX,
            frame@ == frame_spec(channel.id, payload@.take(i as int)),
        decreases payload@.len() - i,
    {
        frame.push(payload[i]);
        i += 1;
        assert(payload@.take(i as int) == payload@.take(i - 1).push(payload@[i - 1]));
        assert(frame@ == frame_spec(channel.id, payload@.take(i as int)));
    }
    assert(payload@.take(payload@.len() as int) == payload@);
    frame
}

/// Splits one frame into its channel id and payload. An empty frame carries
/// nothing and yields `None`.
pub fn decode_frame(frame: &Vec<u8>) -> (r: Option<(u8, Vec<u8>)>)
    ensures
        match r {
            Some((id, payload)) => frame@.len() > 0 && id == frame@[0] && payload@ == frame@.skip(
                1,
            ),
            None => frame@.len() == 0,
        },
{
    if frame.len() == 0 {
        return None;
    }
    let id = frame[0];
    let mut payload: Vec<u8> = Vec::new();
    let mut i: usize = 1;
    while i < frame.len()
        invariant
            1 <= i <= frame@.len(),
            payload@ == frame@.subrange(1, i as int),
        decreases frame@.len() - i,
    {
        payload.push(frame[i]);
        i += 1;
        assert(frame@.subrange(1, i as int) == frame@.subrange(1, i - 1).push(frame@[i - 1]));
    }
    assert(frame@.subrange(1, frame@.len() as int) == frame@.skip(1));
    Some((id, payload))
}

/// A framed payload survives the round trip: the frame is non-empty, names
/// the channel it was framed for, and its tail is exactly the payload.
pub proof fn lemma_frame_round_trip(id: u8, payload: Seq<u8>)
    ensures
        frame_spec(id, payload).len() == payload.len() + 1,
        frame_spec(id, payload)[0] == id,
        frame_spec(id, payload).skip(1) == payload,
{
    assert(frame_spec(id, payload).skip(1) =~= payload);
}

} // verus!
