//! The per-invocation context handle.
//!
//! A handler receives one context per incoming interaction. Exactly one
//! reply operation may succeed on it: the first call produces the reply
//! payload for the hosting process to transmit and marks the handle as
//! responded; every later call is the double-reply fault, local to the
//! invocation.

use vstd::prelude::*;

verus! {

/// The reply payload a successful reply operation hands to the hosting
/// process for transmission.
#[derive(Debug, Clone, PartialEq)]
pub struct Reply {
    pub interaction_id: u64,
    pub content: String,
    pub ephemeral: bool,
}

/// Failure of a reply operation.
#[derive(Debug, Clone, Copy, PartialEq, Eq, Structural)]
pub enum ReplyError {
    /// A second reply was attempted within one handler invocation.
    DoubleReply,
}

/// A per-invocation, single-use capability for replying to the
/// originating interaction: the interaction's identity plus a one-shot
/// "has responded" flag.
#[derive(Debug, Clone)]
pub struct Context {
    interaction_id: u64,
    responded: bool,
}

impl Context {
    /// The identity of the originating interaction.
    pub closed spec fn spec_interaction_id(self) -> u64 {
        self.interaction_id
    }

    /// Whether a reply has already succeeded on this handle.
    pub closed spec fn spec_responded(self) -> bool {
        self.responded
    }

    /// The handle state after any reply attempt.
    pub closed spec fn spec_after_reply(self) -> Context {
        Context { responded: true, ..self }
    }

    /// What a reply attempt returns: the payload to transmit on the first
    /// attempt, the double-reply fault on every later one.
    pub closed spec fn spec_reply_result(self, msg: String, ephemeral: bool) -> Result<
        Reply,
        ReplyError,
    > {
        if self.responded {
            Err(ReplyError::DoubleReply)
        } else {
            Ok(Reply { interaction_id: self.interaction_id, content: msg, ephemeral })
        }
    }

    /// A fresh handle for one incoming interaction.
    pub fn new(interaction_id: u64) -> (r: Self)
        ensures
            r.spec_interaction_id() == interaction_id,
            !r.spec_responded(),
    {
        Self { interaction_id, responded: false }
    }

    /// Reply to the interaction with a plain message. Succeeds exactly
    /// once per handle.
    pub fn reply(&mut self, msg: String) -> (r: Result<Reply, ReplyError>)
        ensures
            *final(self) == old(self).spec_after_reply(),
            r == old(self).spec_reply_result(msg, false),
    {
        if self.responded {
            Err(ReplyError::DoubleReply)
        } else {
            self.responded = true;
            Ok(Reply { interaction_id: self.interaction_id, content: msg, ephemeral: false })
        }
    }

    /// Reply to the interaction with a message only the invoking user
    /// sees. Succeeds exactly once per handle.
    pub fn reply_ephemeral(&mut self, msg: String) -> (r: Result<Reply, ReplyError>)
        ensures
            *final(self) == old(self).spec_after_reply(),
            r == old(self).spec_reply_result(msg, true),
    {
        if self.responded {
            Err(ReplyError::DoubleReply)
        } else {
            self.responded = true;
            Ok(Reply { interaction_id: self.interaction_id, content: msg, ephemeral: true })
        }
    }
}

/// The double-reply guard: on a fresh handle the first reply attempt
/// succeeds with exactly the requested payload, and any attempt after a
/// reply — whatever its message — fails with the double-reply fault,
/// leaving the first reply's payload unchanged.
pub proof fn lemma_double_reply_guard(c: Context, m1: String, e1: bool, m2: String, e2: bool)
    requires
        !c.spec_responded(),
    ensures
        c.spec_reply_result(m1, e1) == Ok::<Reply, ReplyError>(
            Reply { interaction_id: c.spec_interaction_id(), content: m1, ephemeral: e1 },
        ),
        c.spec_after_reply().spec_reply_result(m2, e2) == Err::<Reply, ReplyError>(
            ReplyError::DoubleReply,
        ),
        c.spec_after_reply().spec_interaction_id() == c.spec_interaction_id(),
{
}

} // verus!
