//! Receive path: each read fills a fixed-size buffer; the bytes before the
//! first NUL (or the whole buffer) are one frame's text. An empty frame is
//! a graceful remote close and ends the session exactly like a transport
//! error; text that is not UTF-8 is discarded and receiving continues; the
//! decoded text is handed on to be parsed as one JSON object.

use vstd::prelude::*;

use crate::frames::nul_free;

verus! {

use vstd::utf8::valid_utf8;

/// Fixed size of one read buffer; a frame must fit entirely in one read.
pub const READ_BUFFER_SIZE: usize = 1024;

/// Position of the first NUL byte at or after `i`, or the buffer's end.
pub open spec fn spec_nul_pos_from(buf: Seq<u8>, i: int) -> int
    decreases buf.len() - i,
{
    if i < 0 || i >= buf.len() {
        buf.len() as int
    } else if buf[i] == 0 {
        i
    } else {
        spec_nul_pos_from(buf, i + 1)
    }
}

/// The frame text carried by one read: the bytes before the first NUL, or
/// the whole buffer when no NUL occurs.
pub open spec fn spec_frame_prefix(buf: Seq<u8>) -> Seq<u8> {
    buf.take(spec_nul_pos_from(buf, 0))
}

/// In a buffer whose first `k` bytes are non-NUL and whose next byte (if
/// any) is NUL, the frame boundary falls exactly at `k`.
proof fn lemma_nul_pos_of_terminated(buf: Seq<u8>, k: int, j: int)
    requires
        0 <= j <= k <= buf.len(),
        forall|i: int| 0 <= i < k ==> buf[i] != 0,
        k == buf.len() || buf[k] == 0,
    ensures
        spec_nul_pos_from(buf, j) == k,
    decreases k - j,
{
    if j < k {
        lemma_nul_pos_of_terminated(buf, k, j + 1);
    }
}

/// One write, one read: a NUL-free frame placed at the start of a read
/// buffer and terminated by a NUL (or by the buffer's end) comes back from
/// the receive path byte for byte.
pub proof fn lemma_codec_round_trip(frame: Seq<u8>, rest: Seq<u8>)
    requires
        nul_free(frame),
        rest.len() > 0 ==> rest[0] == 0,
    ensures
        spec_frame_prefix(frame + rest) == frame,
{
    let buf = frame + rest;
    assert forall|i: int| 0 <= i < frame.len() implies buf[i] != 0 by {
        assert(buf[i] == frame[i]);
    }
    if rest.len() > 0 {
        assert(buf[frame.len() as int] == rest[0]);
    }
    lemma_nul_pos_of_terminated(buf, frame.len() as int, 0);
    assert(buf.take(frame.len() as int) =~= frame);
}

/// What one completed read means for the session.
pub enum ReadEvent {
    /// The remote closed the connection gracefully (an empty frame); the
    /// session treats this exactly like a transport error.
    ConnectionLost,
    /// The text was not UTF-8; it is dropped and receiving continues.
    Discarded,
    /// One frame's text, ready to be parsed as a JSON object.
    Frame(Vec<u8>),
}

/// Relies on std::str::from_utf8: it accepts exactly the byte strings that
/// are valid UTF-8.
#[verifier::external_body]
fn utf8_ok(bytes: &[u8]) -> (r: bool)
    ensures
        r == valid_utf8(bytes@),
{
    std::str::from_utf8(bytes).is_ok()
}

/// Classifies the bytes of one completed read.
pub fn classify_read(buf: &[u8]) -> (r: ReadEvent)
    ensures
        spec_frame_prefix(buf@).len() == 0 ==> r is ConnectionLost,
        spec_frame_prefix(buf@).len() > 0 && valid_utf8(spec_frame_prefix(buf@)) ==> (r matches
            ReadEvent::Frame(t) && t@ == spec_frame_prefix(buf@)),
        spec_frame_prefix(buf@).len() > 0 && !valid_utf8(spec_frame_prefix(buf@))
            ==> r is Discarded,
{
    let mut n: usize = 0;
    while n < buf.len() && buf[n] != 0
        invariant
            0 <= n <= buf@.len(),
            spec_nul_pos_from(buf@, 0) == spec_nul_pos_from(buf@, n as int),
            forall|j: int| 0 <= j < n ==> buf@[j] != 0,
        decreases buf@.len() - n,
    {
        n = n + 1;
    }
    proof {
        assert(spec_nul_pos_from(buf@, 0) == n as int);
    }
    if n == 0 {
        return ReadEvent::ConnectionLost;
    }
    let mut text: Vec<u8> = Vec::new();
    let mut i: usize = 0;
    while i < n
        invariant
            0 <= i <= n <= buf@.len(),
            text@ == buf@.take(n as int).take(i as int),
        decreases n - i,
    {
        text.push(buf[i]);
        proof {
            assert(text@ =~= buf@.take(n as int).take(i + 1));
        }
        i = i + 1;
    }
    proof {
        assert(text@ =~= buf@.take(n as int));
    }
    if utf8_ok(text.as_slice()) {
        ReadEvent::Frame(text)
    } else {
        ReadEvent::Discarded
    }
}

} // verus!
