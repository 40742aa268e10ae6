//! Decisions of the two forwarding directions of a relayed connection.
use vstd::prelude::*;
use crate::bypass::BypassOptions;

verus! {

/// `s` starts a TLS handshake record of major version 3 holding a ClientHello.
pub open spec fn is_client_hello(s: Seq<u8>) -> bool {
    s.len() > 5 && s[0] == 0x16u8 && s[1] == 0x03u8 && s[5] == 1u8
}

/// Whether `input` starts with a TLS ClientHello.
pub fn is_tls_chello(input: &[u8]) -> (r: bool)
    ensures
        r == is_client_hello(input@),
{
    input.len() > 5 && input[0] == 0x16u8 && input[1] == 0x03u8 && input[5] == 1u8
}

/// What a direction does with the outcome of its last read.
#[derive(Clone, Copy, Debug, PartialEq, Eq, Structural)]
pub enum RelayAction {
    /// Write the chunk to the other side verbatim, as one write.
    Forward,
    /// Deliver the chunk through the desync engine.
    Desync,
    /// Shut down both sockets and cancel the other direction.
    Close,
}

/// The client-to-upstream direction's action for `chunk`; `first` tells
/// whether it is the first chunk of the connection.
pub open spec fn client_action(first: bool, chunk: Seq<u8>, has_plan: bool) -> RelayAction {
    if chunk.len() == 0 {
        RelayAction::Close
    } else if first && has_plan && is_client_hello(chunk) {
        RelayAction::Desync
    } else {
        RelayAction::Forward
    }
}

/// With an empty split-plan a chunk is never handed to the desync engine: a
/// non-empty chunk, ClientHello or not, is forwarded as one plain write.
pub proof fn lemma_empty_plan_forwards(first: bool, chunk: Seq<u8>)
    ensures
        client_action(first, chunk, false) != RelayAction::Desync,
        chunk.len() > 0 ==> client_action(first, chunk, false) == RelayAction::Forward,
{
}

/// Only the first chunk of a connection can reach the desync engine: every
/// later chunk is forwarded as it is or ends the direction.
pub proof fn lemma_later_chunks_not_desynced(chunk: Seq<u8>, has_plan: bool)
    ensures
        client_action(false, chunk, has_plan) != RelayAction::Desync,
{
}

/// The client-to-upstream direction.
pub struct ClientToUpstream {
    /// No chunk has been read from the client yet.
    pub first_chunk: bool,
}

impl ClientToUpstream {
    pub fn new() -> (r: Self)
        ensures
            r.first_chunk,
    {
        ClientToUpstream { first_chunk: true }
    }

    /// Decides what to do with the chunk just read from the client. Only the
    /// first chunk of the connection is checked for a ClientHello.
    pub fn on_chunk(&mut self, chunk: &[u8], bypass: &BypassOptions) -> (r: RelayAction)
        ensures
            r == client_action(old(self).first_chunk, chunk@, bypass.plan().len() > 0),
            final(self).first_chunk == (old(self).first_chunk && chunk@.len() == 0),
    {
        if chunk.len() == 0 {
            return RelayAction::Close;
        }
        let first = self.first_chunk;
        self.first_chunk = false;
        if first && bypass.at_least_one_option() && is_tls_chello(chunk) {
            RelayAction::Desync
        } else {
            RelayAction::Forward
        }
    }
}

/// How a read of the upstream-to-client direction ended.
#[derive(Clone, Copy, Debug, PartialEq, Eq, Structural)]
pub enum ReadOutcome {
    /// `len` bytes were read; zero means end of stream.
    Data { len: usize },
    /// The read's time bound passed first.
    TimedOut,
}

/// The upstream-to-client direction's action for a read outcome.
pub open spec fn upstream_action(outcome: ReadOutcome) -> RelayAction {
    match outcome {
        ReadOutcome::Data { len } => if len > 0 {
            RelayAction::Forward
        } else {
            RelayAction::Close
        },
        ReadOutcome::TimedOut => RelayAction::Close,
    }
}

/// The upstream-to-client direction.
pub struct UpstreamToClient {
    /// No read of this direction has completed yet.
    pub first_read: bool,
}

impl UpstreamToClient {
    pub fn new() -> (r: Self)
        ensures
            r.first_read,
    {
        UpstreamToClient { first_read: true }
    }

    /// The time bound of the next read: the configured one for the first read
    /// of the direction, none afterwards.
    pub fn read_timeout(&self, bypass: &BypassOptions) -> (r: Option<std::time::Duration>)
        ensures
            self.first_read ==> r == bypass.timeout,
            !self.first_read ==> r is None,
    {
        if self.first_read {
            bypass.timeout
        } else {
            None
        }
    }

    /// Decides what to do after a read; a timeout ends the direction as end
    /// of stream does.
    pub fn on_read(&mut self, outcome: ReadOutcome) -> (r: RelayAction)
        ensures
            r == upstream_action(outcome),
            !final(self).first_read,
    {
        self.first_read = false;
        match outcome {
            ReadOutcome::Data { len } => if len > 0 {
                RelayAction::Forward
            } else {
                RelayAction::Close
            },
            ReadOutcome::TimedOut => RelayAction::Close,
        }
    }
}

} // verus!
