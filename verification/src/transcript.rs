//! The Fiat–Shamir transcript: a domain-separated absorb/derive primitive.
//! A transcript's history records every operation performed on it, in
//! order; the bytes a challenge yields are a deterministic function of
//! that whole history and the challenge label, and nothing else.
//!
//! A history entry is `(challenge, label, data)`: `challenge` is `false`
//! for an absorb of `data` under `label` (the first entry is always the
//! domain label with empty data) and `true` for a challenge derivation
//! under `label`, which also advances the state.

use vstd::prelude::*;

verus! {

#[verifier::external_type_specification]
#[verifier::external_body]
pub struct ExTranscript(merlin::Transcript);

/// The 64 bytes a challenge under `label` yields on a transcript with the
/// given history: a fixed function, identical on every machine and in
/// every process.
pub uninterp spec fn fs_challenge(history: Seq<(bool, Seq<char>, Seq<u8>)>, label: Seq<char>) -> Seq<
    u8,
>;

/// A transcript together with the history of operations performed on it.
pub struct FsTranscript {
    inner: merlin::Transcript,
    trace: Ghost<Seq<(bool, Seq<char>, Seq<u8>)>>,
}

impl FsTranscript {
    /// Everything absorbed into or derived from this transcript so far.
    pub closed spec fn history(&self) -> Seq<(bool, Seq<char>, Seq<u8>)> {
        self.trace@
    }

    /// Relies on `merlin::Transcript::new`: a fresh transcript whose state
    /// is a function of the domain label alone. The label is absorbed as a
    /// message, and merlin asserts that a message's length fits in a
    /// `u32`; the bound keeps that input out.
    #[verifier::external_body]
    pub fn new(domain: &'static str) -> (t: FsTranscript)
        requires
            domain@.len() <= u32::MAX,
        ensures
            t.history() == seq![(false, domain@, Seq::<u8>::empty())],
    {
        FsTranscript {
            inner: merlin::Transcript::new(domain.as_bytes()),
            trace: Ghost(Seq::empty()),
        }
    }

    /// Relies on `merlin::Transcript::append_message`: absorbs a labeled
    /// message; the state after is a function of the state before and the
    /// labeled message. merlin asserts that the message's length fits in
    /// a `u32`; the bound keeps that input out.
    #[verifier::external_body]
    pub fn append(&mut self, label: &'static str, message: &Vec<u8>)
        requires
            message@.len() <= u32::MAX,
        ensures
            final(self).history() == old(self).history().push((false, label@, message@)),
    {
        self.inner.append_message(label.as_bytes(), message.as_slice());
    }

    /// Relies on `merlin::Transcript::challenge_bytes`: fills a 64-byte
    /// buffer with output that is a deterministic function of the whole
    /// prior history and the label, and advances the state.
    #[verifier::external_body]
    pub fn challenge64(&mut self, label: &'static str) -> (r: Vec<u8>)
        ensures
            r@ == fs_challenge(old(self).history(), label@),
            r@.len() == 64,
            final(self).history() == old(self).history().push((true, label@, Seq::<u8>::empty())),
    {
        let mut buf = [0u8; 64];
        self.inner.challenge_bytes(label.as_bytes(), &mut buf);
        buf.to_vec()
    }
}

} // verus!
