//! Adapting a binary-only WebSocket into a byte stream.
//!
//! At this layer the WebSocket is opaque transport under end-to-end TLS
//! and framing: only Binary frames carry payload. A read yields the bytes
//! of the next Binary frame; a closed socket maps to a connection reset;
//! Text, Ping and Pong frames are protocol violations and invalid data.
//! A write sends the whole buffer as one Binary frame.

use vstd::prelude::*;

verus! {

/// Wraps a WebSocket so that it can carry the byte stream.
pub struct WebSocketByteStream<W> {
    pub socket: W,
}

impl<W> WebSocketByteStream<W> {
    pub fn new(socket: W) -> (r: WebSocketByteStream<W>)
        ensures
            r.socket == socket,
    {
        WebSocketByteStream { socket }
    }

    pub fn into_inner(self) -> (r: W)
        ensures
            r == self.socket,
    {
        self.socket
    }
}

/// One inbound WebSocket frame, reduced to what this layer reads of it.
pub enum WsFrame {
    Binary(Vec<u8>),
    Text(String),
    Ping(Vec<u8>),
    Pong(Vec<u8>),
    Close,
}

/// What one poll of the socket's read side yields for the byte stream.
pub enum ReadOutcome {
    /// The bytes of the next Binary frame.
    Data(Vec<u8>),
    /// The socket ended or sent Close: the connection was reset.
    ConnectionReset,
    /// A Text, Ping or Pong frame: a protocol violation at this layer.
    InvalidData,
    /// The socket itself failed; carries the reported reason.
    SocketError(String),
}

/// Classifies one inbound item: `None` is the end of the socket.
pub fn classify_read(item: Option<Result<WsFrame, String>>) -> (r: ReadOutcome)
    ensures
        match item {
            Option::None => r is ConnectionReset,
            Option::Some(Result::Err(e)) => r matches ReadOutcome::SocketError(s) && s@ == e@,
            Option::Some(Result::Ok(f)) => match f {
                WsFrame::Binary(b) => r matches ReadOutcome::Data(d) && d@ == b@,
                WsFrame::Close => r is ConnectionReset,
                WsFrame::Text(_) => r is InvalidData,
                WsFrame::Ping(_) => r is InvalidData,
                WsFrame::Pong(_) => r is InvalidData,
            },
        },
{
    match item {
        None => ReadOutcome::ConnectionReset,
        Some(Err(e)) => ReadOutcome::SocketError(e),
        Some(Ok(WsFrame::Binary(b))) => ReadOutcome::Data(b),
        Some(Ok(WsFrame::Close)) => ReadOutcome::ConnectionReset,
        Some(Ok(WsFrame::Text(_))) => ReadOutcome::InvalidData,
        Some(Ok(WsFrame::Ping(_))) => ReadOutcome::InvalidData,
        Some(Ok(WsFrame::Pong(_))) => ReadOutcome::InvalidData,
    }
}

/// What one write of the buffer does: one Binary frame holding the whole
/// buffer, reporting the full length as written.
pub fn frame_for_write(buf: &Vec<u8>) -> (r: (WsFrame, usize))
    ensures
        r.0 matches WsFrame::Binary(b) && b@ == buf@,
        r.1 == buf@.len(),
{
    let mut copy: Vec<u8> = Vec::new();
    let mut i: usize = 0;
    while i < buf.len()
        invariant
            i <= buf@.len(),
            copy@ == buf@.take(i as int),
        decreases buf@.len() - i,
    {
        copy.push(buf[i]);
        proof {
            assert(copy@ =~= buf@.take(i + 1 as int));
        }
        i = i + 1;
    }
    proof {
        assert(buf@.take(buf@.len() as int) =~= buf@);
    }
    let n = buf.len();
    (WsFrame::Binary(copy), n)
}

} // verus!
