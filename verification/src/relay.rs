//! Client-relay computations and the process-level mode selection.
//!
//! The client relay bridges two concurrent flows over one connection: bytes
//! read from local standard input go out as binary messages, and every
//! inbound message is rendered to standard output behind a fixed visual
//! prefix. The relay ends as soon as either flow ends; end of input is a
//! normal termination, not an error.

use vstd::prelude::*;
use crate::channel::sink_send;
use crate::frame::{Frame, FrameModel};
use futures_channel::mpsc::UnboundedSender;

verus! {

/// The two operating modes of the process.
#[derive(Clone, Copy, PartialEq, Eq, Structural, Debug)]
pub enum Mode {
    /// Accept connections and broadcast between them.
    Server,
    /// Connect outward and relay standard input and output.
    Client,
}

/// Selects the operating mode from the first positional argument. Any other
/// word — and a missing one — selects nothing, and the process must print a
/// usage message and exit with a non-zero status.
pub fn select_mode(arg: &String) -> (r: Option<Mode>)
    ensures
        r == Some(Mode::Server) <==> arg@ == "server"@,
        r == Some(Mode::Client) <==> arg@ == "client"@,
        r is None <==> (arg@ != "server"@ && arg@ != "client"@),
{
    proof {
        assert("server"@ != "client"@) by {
            reveal_strlit("server");
            reveal_strlit("client");
            assert("server"@[0] == 's');
            assert("client"@[0] == 'c');
        }
    }
    let server_word: String = "server".to_owned();
    let client_word: String = "client".to_owned();
    if *arg == server_word {
        Some(Mode::Server)
    } else if *arg == client_word {
        Some(Mode::Client)
    } else {
        None
    }
}

/// The address the server binds when the optional second positional argument
/// does not override it.
pub fn bind_addr(arg: Option<String>) -> (r: String)
    ensures
        match arg {
            Some(a) => r@ == a@,
            None => r@ == "127.0.0.1:8080"@,
        },
{
    match arg {
        Some(a) => a,
        None => "127.0.0.1:8080".to_owned(),
    }
}

/// The address the client relay connects to when the optional second
/// positional argument does not override it.
pub fn connect_addr(arg: Option<String>) -> (r: String)
    ensures
        match arg {
            Some(a) => r@ == a@,
            None => r@ == "ws://127.0.0.1:8080/"@,
        },
{
    match arg {
        Some(a) => a,
        None => "ws://127.0.0.1:8080/".to_owned(),
    }
}

/// The bytes a read left in the front of its buffer: one input chunk.
pub fn chunk_payload(buf: Vec<u8>, n: usize) -> (r: Vec<u8>)
    requires
        n <= buf.len(),
    ensures
        r@ == buf@.subrange(0, n as int),
{
    let mut r = buf;
    r.truncate(n);
    r
}

/// The binary message that carries one chunk of local input.
pub fn stdin_frame(buf: Vec<u8>, n: usize) -> (f: Frame)
    requires
        n <= buf.len(),
    ensures
        f@ == FrameModel::Binary(buf@.subrange(0, n as int)),
{
    Frame::Binary(chunk_payload(buf, n))
}

/// Forwards one chunk of local input as a binary message into the outbound
/// queue. The flag reports whether the queue still accepted it; once the
/// wire side is gone the relay's input flow stops.
pub fn forward_chunk(tx: &UnboundedSender<Frame>, buf: Vec<u8>, n: usize) -> bool
    requires
        n <= buf.len(),
{
    sink_send(tx, stdin_frame(buf, n))
}

/// The fixed visual prefix put before every received payload on standard
/// output: a greater-than sign and a space.
pub open spec fn received_prefix() -> Seq<u8> {
    seq![62u8, 32u8]
}

/// One received payload as it is rendered to standard output: the fixed
/// prefix followed by the payload bytes, unmodified.
pub fn prefix_received(data: &Vec<u8>) -> (r: Vec<u8>)
    ensures
        r@ == received_prefix() + data@,
{
    let mut r: Vec<u8> = Vec::new();
    r.push(62);
    r.push(32);
    let mut i: usize = 0;
    while i < data.len()
        invariant
            i <= data.len(),
            r@ == received_prefix() + data@.subrange(0, i as int),
        decreases data.len() - i,
    {
        r.push(data[i]);
        i = i + 1;
        proof {
            assert(r@ =~= received_prefix() + data@.subrange(0, i as int));
        }
    }
    proof {
        assert(r@ =~= received_prefix() + data@);
    }
    r
}

} // verus!
