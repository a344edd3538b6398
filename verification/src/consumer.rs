//! The stream consumer: dispatches each inbound item to the sanitization
//! engine and the duplicate-suppression cache, and runs the bounded-retry
//! reconnection protocol on transport failure. The surrounding task
//! performs the I/O each returned action names.

use vstd::prelude::*;

use crate::compose::{compose_dm_reply, dm_reply_spec, format_reply_spec, format_reply_text,
    joined_pairs, sanitize_and_join_urls};
use crate::dedup::{spec_record, DedupCache, MsgId};

verus! {

/// Ceiling on consecutive transport failures before the consumer aborts:
/// a persistently broken transport ends in a visible crash rather than an
/// endless silent retry.
pub const RECONNECT_CEILING: u64 = 10;

/// Seconds waited after unsubscribing, before disconnecting, so in-flight
/// operations can drain.
pub const PRE_DISCONNECT_DELAY_SECS: u64 = 5;

/// Seconds waited after disconnecting, before reconnecting, so a broken
/// transport is not hammered.
pub const RECONNECT_DELAY_SECS: u64 = 30;

/// One inbound item, as the transport hands it over.
pub enum StreamEvent {
    /// A plain public note.
    Note { id: MsgId, content: String },
    /// An encrypted direct message, decrypted by the caller where
    /// possible; `None` means decryption failed, which is recoverable:
    /// the message is skipped.
    DirectMessage { id: MsgId, plaintext: Option<String> },
    /// A message of a kind the bot does not handle.
    OtherKind { id: MsgId },
    /// The transport reports the consumer fell behind and dropped items.
    Lagged { n: u64 },
    /// Any other receive failure.
    ReceiveFailure,
}

/// What the surrounding task must do next.
pub enum ConsumerAction {
    /// Nothing to send; keep listening.
    Ignore,
    /// Send this text as a public threaded reply.
    PublicReply { text: String },
    /// Encrypt this text to the author and send it as a direct reply.
    EncryptedReply { text: String },
    /// Unsubscribe, wait the short delay, disconnect, wait the longer
    /// delay, reconnect, and resubscribe with a fresh time-windowed
    /// filter.
    Reconnect,
    /// The retry ceiling is exceeded: terminate with a fatal error.
    Abort,
}

/// The consumer's state: the duplicate-suppression cache and the count of
/// transport failures so far, which is never reset.
pub struct StreamConsumer {
    pub cache: DedupCache,
    pub attempts: u64,
}

impl StreamConsumer {
    /// The cache is well formed and the failure count never passes the
    /// ceiling.
    pub open spec fn wf(&self) -> bool {
        &&& self.cache.wf()
        &&& self.attempts <= RECONNECT_CEILING
    }

    /// A fresh consumer: empty cache, no failures yet.
    pub fn new() -> (r: StreamConsumer)
        ensures
            r.wf(),
            r.cache@ == Set::<MsgId>::empty(),
            r.attempts == 0,
    {
        StreamConsumer { cache: DedupCache::new(), attempts: 0 }
    }

    /// Handles one inbound item: an already-seen message is ignored; a new
    /// note gets a public reply exactly when a rule cleaned one of its
    /// links; a new direct message that decrypted always gets an encrypted
    /// reply; a lag signal is recoverable; any other receive failure
    /// increments the failure count and asks for a reconnect, or for an
    /// abort once the ceiling is reached. Every handled message is
    /// recorded exactly once, whether or not a reply is sent.
    pub fn step(&mut self, event: StreamEvent) -> (action: ConsumerAction)
        requires
            old(self).wf(),
        ensures
            final(self).wf(),
            match event {
                StreamEvent::Lagged { n } => action is Ignore && *final(self) == *old(self),
                StreamEvent::OtherKind { id } => action is Ignore && *final(self) == *old(self),
                StreamEvent::ReceiveFailure => {
                    &&& final(self).cache == old(self).cache
                    &&& if old(self).attempts < RECONNECT_CEILING {
                        final(self).attempts == old(self).attempts + 1 && action is Reconnect
                    } else {
                        final(self).attempts == old(self).attempts && action is Abort
                    }
                },
                StreamEvent::Note { id, content } => {
                    &&& final(self).attempts == old(self).attempts
                    &&& if old(self).cache@.contains(id) {
                        final(self).cache@ == old(self).cache@ && action is Ignore
                    } else {
                        &&& final(self).cache@ == spec_record(old(self).cache@, id)
                        &&& match joined_pairs(content@) {
                            Some(p) => action matches ConsumerAction::PublicReply { text }
                                && text@ == format_reply_spec(p.0, p.1),
                            None => action is Ignore,
                        }
                    }
                },
                StreamEvent::DirectMessage { id, plaintext } => {
                    &&& final(self).attempts == old(self).attempts
                    &&& if old(self).cache@.contains(id) {
                        final(self).cache@ == old(self).cache@ && action is Ignore
                    } else {
                        &&& final(self).cache@ == spec_record(old(self).cache@, id)
                        &&& match plaintext {
                            Some(pt) => action matches ConsumerAction::EncryptedReply { text }
                                && text@ == dm_reply_spec(pt@),
                            None => action is Ignore,
                        }
                    }
                },
            },
    {
        match event {
            StreamEvent::Lagged { n: _ } => ConsumerAction::Ignore,
            StreamEvent::OtherKind { id: _ } => ConsumerAction::Ignore,
            StreamEvent::ReceiveFailure => {
                if self.attempts < RECONNECT_CEILING {
                    self.attempts = self.attempts + 1;
                    ConsumerAction::Reconnect
                } else {
                    ConsumerAction::Abort
                }
            },
            StreamEvent::Note { id, content } => {
                if self.cache.seen(&id) {
                    ConsumerAction::Ignore
                } else {
                    self.cache.record(id);
                    match sanitize_and_join_urls(content.as_str()) {
                        Some(p) => ConsumerAction::PublicReply {
                            text: format_reply_text(p.0, p.1),
                        },
                        None => ConsumerAction::Ignore,
                    }
                }
            },
            StreamEvent::DirectMessage { id, plaintext } => {
                if self.cache.seen(&id) {
                    ConsumerAction::Ignore
                } else {
                    self.cache.record(id);
                    match plaintext {
                        Some(pt) => ConsumerAction::EncryptedReply {
                            text: compose_dm_reply(pt.as_str()),
                        },
                        None => ConsumerAction::Ignore,
                    }
                }
            },
        }
    }
}

} // verus!
