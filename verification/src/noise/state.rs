use vstd::prelude::*;
use crate::noise::SecurityError;

verus! {

/// The stages of a session's key agreement.
#[derive(Debug, Clone, Copy, PartialEq, Eq, Structural)]
pub enum HandshakeState {
    Init,
    EphemeralExchanged,
    Authenticated,
    Established,
    Rekeying,
    Failed,
}

/// The moves that the session state machine allows.
pub open spec fn valid_transition(from: HandshakeState, to: HandshakeState) -> bool {
    ||| from == HandshakeState::Init && to == HandshakeState::EphemeralExchanged
    ||| from == HandshakeState::EphemeralExchanged && to == HandshakeState::Authenticated
    ||| from == HandshakeState::Authenticated && to == HandshakeState::Established
    ||| from == HandshakeState::Established && to == HandshakeState::Rekeying
    ||| from == HandshakeState::Rekeying && to == HandshakeState::Established
    ||| to == HandshakeState::Failed
}

#[derive(Debug, Clone, PartialEq, Eq)]
pub struct NoiseSession {
    pub state: HandshakeState,
    pub key_epoch: u64,
    pub transcript_hash: [u8; 32],
}

impl Default for NoiseSession {
    fn default() -> (r: Self)
        ensures
            r.state == HandshakeState::Init,
            r.key_epoch == 0,
            r.transcript_hash@ == Seq::new(32, |i: int| 0u8),
    {
        NoiseSession { state: HandshakeState::Init, key_epoch: 0, transcript_hash: [0u8; 32] }
    }
}

impl NoiseSession {
    pub fn transition(&mut self, next_state: HandshakeState) -> (r: Result<(), SecurityError>)
        ensures
            r is Ok <==> valid_transition(old(self).state, next_state),
            r is Ok ==> final(self).state == next_state,
            r is Err ==> final(self).state == old(self).state,
            final(self).key_epoch == old(self).key_epoch,
            final(self).transcript_hash == old(self).transcript_hash,
            r matches Err(e) ==> e == SecurityError::InvalidHandshake,
    {
        let valid = match (self.state, next_state) {
            (HandshakeState::Init, HandshakeState::EphemeralExchanged) => true,
            (HandshakeState::EphemeralExchanged, HandshakeState::Authenticated) => true,
            (HandshakeState::Authenticated, HandshakeState::Established) => true,
            (HandshakeState::Established, HandshakeState::Rekeying) => true,
            (HandshakeState::Rekeying, HandshakeState::Established) => true,
            (_, HandshakeState::Failed) => true,
            _ => false,
        };
        if !valid {
            return Err(SecurityError::InvalidHandshake);
        }
        self.state = next_state;
        Ok(())
    }

    pub fn begin_rekey(&mut self) -> (r: Result<(), SecurityError>)
        ensures
            r is Ok <==> old(self).state == HandshakeState::Established,
            r is Ok ==> final(self).state == HandshakeState::Rekeying,
            r is Err ==> final(self).state == old(self).state,
            final(self).key_epoch == old(self).key_epoch,
            final(self).transcript_hash == old(self).transcript_hash,
            r matches Err(e) ==> e == SecurityError::InvalidHandshake,
    {
        self.transition(HandshakeState::Rekeying)
    }

    pub fn finalize_rekey(&mut self) -> (r: Result<u64, SecurityError>)
        ensures
            r is Ok <==> (old(self).state == HandshakeState::Authenticated || old(self).state
                == HandshakeState::Rekeying),
            r matches Ok(epoch) ==> epoch == final(self).key_epoch && final(self).state
                == HandshakeState::Established && final(self).key_epoch == (if old(self).key_epoch
                == u64::MAX {
                u64::MAX
            } else {
                (old(self).key_epoch + 1) as u64
            }),
            r is Err ==> final(self).state == old(self).state && final(self).key_epoch == old(
                self,
            ).key_epoch,
            final(self).transcript_hash == old(self).transcript_hash,
            r matches Err(e) ==> e == SecurityError::InvalidHandshake,
    {
        self.transition(HandshakeState::Established)?;
        self.key_epoch = self.key_epoch.saturating_add(1);
        Ok(self.key_epoch)
    }
}

/// Once established, a session can be rekeyed and returns to the established stage with
/// its key epoch one higher.
pub proof fn lemma_rekey_cycle(epoch: u64)
    requires
        epoch < u64::MAX,
    ensures
        valid_transition(HandshakeState::Established, HandshakeState::Rekeying),
        valid_transition(HandshakeState::Rekeying, HandshakeState::Established),
{
}

/// No stage other than `Init` leads to `EphemeralExchanged`, and nothing but `Failed` is
/// reachable from `Failed`.
pub proof fn lemma_transition_targets(from: HandshakeState, to: HandshakeState)
    requires
        valid_transition(from, to),
    ensures
        to == HandshakeState::EphemeralExchanged ==> from == HandshakeState::Init,
        to == HandshakeState::Authenticated ==> from == HandshakeState::EphemeralExchanged,
        from == HandshakeState::Failed ==> to == HandshakeState::Failed,
        to == HandshakeState::Init ==> false,
{
}

} // verus!
