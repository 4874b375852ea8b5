use vstd::prelude::*;
use crate::Address;
use crate::spec_address_of;
use crate::address_of;
use crate::step_clock::StepClock;
use crate::validator_set::ValidatorSet;
use crate::validator_set::wf_list;
use crate::seal::Seal;
use crate::seal::SealError;
use crate::seal::spec_seal_message;
use crate::seal::spec_digest;
use crate::seal::spec_tag;
use crate::seal::spec_recover;
use crate::seal::spec_proofs_ok;
use crate::seal::seal_message;
use crate::seal::sign_message;
use crate::seal::recover_signer;
use crate::seal::verify_empty_step_proofs;
use crate::seal::make_empty_step_proofs;
use crate::seal::lemma_recover_tag;

verus! {

/// Errors raised by engine construction and operation.
#[derive(Clone, Copy, Debug, PartialEq, Eq, Structural)]
pub enum EngineError {
    /// Empty or duplicated validator list, or a non-positive step duration:
    /// fatal, raised once at construction or at a transition.
    InvalidConfiguration,
    /// The caller asked to seal a step it is not entitled to.
    NotProposer,
    /// The double-seal guard: this instance has already sealed this step
    /// (or a later one).
    AlreadySealed,
}

/// Lifecycle of an engine instance.  `Stopped` is terminal.
#[derive(Clone, Copy, Debug, PartialEq, Eq, Structural)]
pub enum EngineStatus {
    Idle,
    Running,
    Stopped,
}

/// A watched value announcing step changes: a version counter and the
/// current step.  Latest value wins; a slow consumer misses intermediate
/// steps but never stalls the publisher.
#[derive(Clone, Copy, Debug, PartialEq, Eq, Structural)]
pub struct StepWatch {
    pub version: u64,
    pub latest: u64,
}

/// What the engine signs on behalf of a block: the parent block's step and
/// the hash of the block's contents.
#[derive(Clone, Copy, Debug, PartialEq, Eq, Structural)]
pub struct HeaderPreimage {
    pub parent_step: u64,
    pub content_hash: u64,
}

/// A block header as the verifier sees it: its position relative to the
/// parent, its content hash, and the seal that claims authorship.
#[derive(Clone, Debug)]
pub struct Header {
    pub parent_step: u64,
    pub content_hash: u64,
    pub seal: Seal,
}

/// Immutable construction parameters of the engine.
#[derive(Clone, Debug)]
pub struct AuthorityRoundParams {
    /// Length of one step, in seconds; must be positive.
    pub step_duration: u64,
    /// The genesis validator list.
    pub validators: Vec<Address>,
    /// Height at which the engine becomes active, if delayed.  Carried for
    /// the block-production pipeline, which begins asking for seals at this
    /// height; no engine operation reads it.
    pub start_block: Option<u64>,
    /// Whether seals must carry attestations for skipped steps.
    pub empty_steps_enabled: bool,
    /// Wall-clock second of genesis, the origin of step counting.
    pub genesis_time: u64,
    /// Chain identifier mixed into every canonical encoding.
    pub engine_id: u64,
}

/// The round-robin Proof-of-Authority engine: selects the proposer of each
/// step, produces seals when this node is entitled to, verifies peers'
/// seals, and publishes step changes to the block-production pipeline.
pub struct AuthorityRoundEngine {
    pub engine_id: u64,
    pub clock: StepClock,
    pub validators: ValidatorSet,
    /// The address this node signs with.
    pub our_address: Address,
    /// Key material; read only by the signing operation.
    pub signing_key: u64,
    pub empty_steps_enabled: bool,
    /// Height at which the engine becomes active, if delayed; read by the
    /// block-production pipeline, inert to the engine's own operations.
    pub start_block: Option<u64>,
    pub status: EngineStatus,
    /// The highest step this instance has sealed, if any: the double-seal
    /// guard.
    pub acted: Option<u64>,
    /// The highest step the ticker has reported; never decreases.
    pub observed_step: u64,
    /// The notification sink read by the block-production pipeline.
    pub watch: StepWatch,
}

impl StepWatch {
    /// Publishes a step: bumps the version and replaces the value.
    pub fn publish(&mut self, step: u64)
        ensures
            final(self).version == old(self).version.wrapping_add(1),
            final(self).latest == step,
    {
        self.version = self.version.wrapping_add(1);
        self.latest = step;
    }

    /// A consumer's poll: the version tells it whether anything changed
    /// since it last looked; the step is the latest published.
    pub fn read(&self) -> (r: (u64, u64))
        ensures
            r.0 == self.version,
            r.1 == self.latest,
    {
        (self.version, self.latest)
    }
}

impl AuthorityRoundEngine {
    pub open spec fn wf(self) -> bool {
        &&& self.clock.wf()
        &&& self.validators.wf()
        &&& self.our_address == spec_address_of(self.signing_key)
    }

    /// The double-seal cursor, for contracts.
    pub open spec fn spec_acted(self) -> Option<u64> {
        self.acted
    }

    /// Whether this node is the proposer entitled to `step` at `height`.
    pub open spec fn spec_is_proposer(self, height: u64, step: u64) -> bool {
        self.our_address == self.validators.spec_proposer(height, step)
    }

    /// The full verdict on a header's seal: the declared step must exceed
    /// the parent's; the recovered signer must be a known authority and the
    /// proposer of that step; and, when empty steps are enforced, the seal
    /// must carry a correctly formed attestation run for the skipped steps.
    pub open spec fn spec_verify_seal(self, header: Header, height: u64) -> Result<(), SealError> {
        let s = header.seal.step;
        let vals = self.validators.spec_validators_at(height);
        let signer = spec_recover(
            header.seal.signature,
            spec_digest(spec_seal_message(self.engine_id, s, header.content_hash)),
        );
        if s <= header.parent_step {
            Err(SealError::StepMismatch)
        } else if !vals.contains(signer) {
            Err(SealError::UnknownAuthority)
        } else if signer != self.validators.spec_proposer(height, s) {
            Err(SealError::BadSignature)
        } else if self.empty_steps_enabled && !spec_proofs_ok(
            header.seal.empty_step_proofs@,
            self.engine_id,
            header.parent_step,
            s,
            header.content_hash,
            signer,
        ) {
            Err(SealError::MissingEmptyStepProof)
        } else {
            Ok(())
        }
    }

    /// Builds an engine from its parameters and this node's signing key.
    /// Construction fails, and the engine never starts, when the step
    /// duration is zero or the validator list is empty or duplicated.
    pub fn new(params: AuthorityRoundParams, signing_key: u64) -> (r: Result<
        AuthorityRoundEngine,
        EngineError,
    >)
        ensures
            match r {
                Ok(e) => {
                    &&& params.step_duration > 0
                    &&& wf_list(params.validators@)
                    &&& e.wf()
                    &&& e.engine_id == params.engine_id
                    &&& e.clock == (StepClock {
                        genesis: params.genesis_time,
                        step_duration: params.step_duration,
                    })
                    &&& e.validators.transitions@.len() == 0
                    &&& forall|h: u64| e.validators.spec_validators_at(h) == params.validators@
                    &&& e.our_address == spec_address_of(signing_key)
                    &&& e.empty_steps_enabled == params.empty_steps_enabled
                    &&& e.start_block == params.start_block
                    &&& e.status == EngineStatus::Idle
                    &&& e.spec_acted() is None
                    &&& e.observed_step == 0
                    &&& e.watch == (StepWatch { version: 0, latest: 0 })
                },
                Err(e) => {
                    &&& e == EngineError::InvalidConfiguration
                    &&& (params.step_duration == 0 || !wf_list(params.validators@))
                },
            },
    {
        if params.step_duration == 0 {
            return Err(EngineError::InvalidConfiguration);
        }
        let validators = match ValidatorSet::new(params.validators) {
            Ok(vs) => vs,
            Err(e) => {
                return Err(e);
            }
        };
        let our_address = address_of(signing_key);
        Ok(AuthorityRoundEngine {
            engine_id: params.engine_id,
            clock: StepClock::new(params.genesis_time, params.step_duration),
            validators,
            our_address,
            signing_key,
            empty_steps_enabled: params.empty_steps_enabled,
            start_block: params.start_block,
            status: EngineStatus::Idle,
            acted: None,
            observed_step: 0,
            watch: StepWatch { version: 0, latest: 0 },
        })
    }

    /// Starts the ticker-facing lifecycle: only an idle engine starts.
    pub fn start(&mut self) -> (r: bool)
        ensures
            r == (old(self).status == EngineStatus::Idle),
            final(self).status == if old(self).status == EngineStatus::Idle {
                EngineStatus::Running
            } else {
                old(self).status
            },
            *final(self) == (AuthorityRoundEngine { status: final(self).status, ..*old(self) }),
    {
        if self.status == EngineStatus::Idle {
            self.status = EngineStatus::Running;
            true
        } else {
            false
        }
    }

    /// Shuts the engine down.  Stopping is terminal: a stopped engine never
    /// runs again.
    pub fn stop(&mut self) -> (r: bool)
        ensures
            r == (old(self).status != EngineStatus::Stopped),
            final(self).status == EngineStatus::Stopped,
            *final(self) == (AuthorityRoundEngine { status: EngineStatus::Stopped, ..*old(self) }),
    {
        let was_live = self.status != EngineStatus::Stopped;
        self.status = EngineStatus::Stopped;
        was_live
    }

    /// Whether this node's identity is the proposer for `step` at `height`.
    /// Side-effect free.
    pub fn is_proposer(&self, height: u64, step: u64) -> (r: bool)
        requires
            self.wf(),
        ensures
            r == self.spec_is_proposer(height, step),
    {
        let expected = self.validators.proposer_for(height, step);
        self.our_address == expected
    }

    /// Seals a block for `step` at `height`.  Fails with `NotProposer` when
    /// this node is not entitled to the step, and with `AlreadySealed` when
    /// this instance has sealed this step (or a later one) before; on
    /// success the double-seal cursor advances to `step`.
    pub fn generate_seal(&mut self, preimage: &HeaderPreimage, height: u64, step: u64) -> (r:
        Result<Seal, EngineError>)
        requires
            old(self).wf(),
            preimage.parent_step < step,
        ensures
            final(self).wf(),
            match r {
                Ok(seal) => {
                    &&& old(self).spec_is_proposer(height, step)
                    &&& match old(self).spec_acted() {
                        Some(a) => a < step,
                        None => true,
                    }
                    &&& seal.step == step
                    &&& seal.signature == spec_tag(
                        old(self).our_address,
                        spec_digest(
                            spec_seal_message(old(self).engine_id, step, preimage.content_hash),
                        ),
                    )
                    &&& if old(self).empty_steps_enabled {
                        spec_proofs_ok(
                            seal.empty_step_proofs@,
                            old(self).engine_id,
                            preimage.parent_step,
                            step,
                            preimage.content_hash,
                            old(self).our_address,
                        )
                    } else {
                        seal.empty_step_proofs@.len() == 0
                    }
                    &&& *final(self) == (AuthorityRoundEngine {
                        acted: Some(step),
                        ..*old(self)
                    })
                },
                Err(EngineError::NotProposer) => {
                    &&& !old(self).spec_is_proposer(height, step)
                    &&& *final(self) == *old(self)
                },
                Err(EngineError::AlreadySealed) => {
                    &&& old(self).spec_is_proposer(height, step)
                    &&& match old(self).spec_acted() {
                        Some(a) => step <= a,
                        None => false,
                    }
                    &&& *final(self) == *old(self)
                },
                Err(EngineError::InvalidConfiguration) => false,
            },
    {
        if !self.is_proposer(height, step) {
            return Err(EngineError::NotProposer);
        }
        match self.acted {
            Some(a) if step <= a => {
                return Err(EngineError::AlreadySealed);
            }
            _ => {}
        }
        let message = seal_message(self.engine_id, step, preimage.content_hash);
        let signature = sign_message(self.our_address, &message);
        let empty_step_proofs = if self.empty_steps_enabled {
            make_empty_step_proofs(
                self.our_address,
                self.engine_id,
                preimage.parent_step,
                step,
                preimage.content_hash,
            )
        } else {
            Vec::new()
        };
        self.acted = Some(step);
        Ok(Seal { step, signature, empty_step_proofs })
    }

    /// Verifies the seal of a received header against the validator set
    /// applicable at `height`.  Pure with respect to engine state; safe to
    /// call from concurrent verification requests.
    pub fn verify_seal(&self, header: &Header, height: u64) -> (r: Result<(), SealError>)
        requires
            self.wf(),
        ensures
            r == self.spec_verify_seal(*header, height),
    {
        let s = header.seal.step;
        if s <= header.parent_step {
            return Err(SealError::StepMismatch);
        }
        let message = seal_message(self.engine_id, s, header.content_hash);
        let signer = recover_signer(header.seal.signature, &message);
        if !self.validators.is_valid(height, signer) {
            return Err(SealError::UnknownAuthority);
        }
        if signer != self.validators.proposer_for(height, s) {
            return Err(SealError::BadSignature);
        }
        if self.empty_steps_enabled {
            if !verify_empty_step_proofs(
                &header.seal.empty_step_proofs,
                self.engine_id,
                header.parent_step,
                s,
                header.content_hash,
                signer,
            ) {
                return Err(SealError::MissingEmptyStepProof);
            }
        }
        Ok(())
    }

    /// Applies a governance-reported epoch transition to the validator set.
    /// An empty or duplicated list, or a height already holding a
    /// transition, is an irrecoverable configuration error: the engine
    /// stops and the set is left unchanged.
    pub fn apply_transition(&mut self, effective_height: u64, validators: Vec<Address>) -> (r:
        Result<(), EngineError>)
        requires
            old(self).wf(),
        ensures
            final(self).wf(),
            match r {
                Ok(()) => {
                    &&& wf_list(validators@)
                    &&& forall|h: u64|
                        final(self).validators.spec_validators_at(h) == if h < effective_height
                            || crate::validator_set::has_transition_between(
                            old(self).validators.transitions@,
                            effective_height,
                            h,
                        ) {
                            old(self).validators.spec_validators_at(h)
                        } else {
                            validators@
                        }
                    &&& *final(self) == (AuthorityRoundEngine {
                        validators: final(self).validators,
                        ..*old(self)
                    })
                },
                Err(e) => {
                    &&& e == EngineError::InvalidConfiguration
                    &&& *final(self) == (AuthorityRoundEngine {
                        status: EngineStatus::Stopped,
                        ..*old(self)
                    })
                    &&& (!wf_list(validators@) || (exists|i: int|
                        0 <= i < old(self).validators.transitions@.len()
                            && (#[trigger] old(self).validators.transitions@[i]).effective_height
                            == effective_height))
                },
            },
    {
        match self.validators.add_transition(effective_height, validators) {
            Ok(()) => Ok(()),
            Err(e) => {
                self.status = EngineStatus::Stopped;
                Err(e)
            }
        }
    }

    /// The ticker's entry point: clamps the observed step so it never moves
    /// backward, publishes the clamped step to the watch, and reports
    /// whether the input regressed (a clock anomaly, tolerated rather than
    /// fatal).
    pub fn on_step_change(&mut self, step: u64) -> (anomaly: bool)
        ensures
            anomaly == (step < old(self).observed_step),
            final(self).observed_step == if step < old(self).observed_step {
                old(self).observed_step
            } else {
                step
            },
            final(self).observed_step >= old(self).observed_step,
            final(self).watch.latest == final(self).observed_step,
            final(self).watch.version == old(self).watch.version.wrapping_add(1),
            *final(self) == (AuthorityRoundEngine {
                observed_step: final(self).observed_step,
                watch: final(self).watch,
                ..*old(self)
            }),
    {
        let anomaly = step < self.observed_step;
        if !anomaly {
            self.observed_step = step;
        }
        let latest = self.observed_step;
        self.watch.publish(latest);
        anomaly
    }

    /// A seal this engine generates for a step it proposes always verifies:
    /// round-trip soundness of sealing.
    pub proof fn lemma_generated_seal_verifies(
        self,
        seal: Seal,
        preimage: HeaderPreimage,
        height: u64,
        step: u64,
    )
        requires
            self.wf(),
            self.spec_is_proposer(height, step),
            preimage.parent_step < step,
            seal.step == step,
            seal.signature == spec_tag(
                self.our_address,
                spec_digest(spec_seal_message(self.engine_id, step, preimage.content_hash)),
            ),
            self.empty_steps_enabled ==> spec_proofs_ok(
                seal.empty_step_proofs@,
                self.engine_id,
                preimage.parent_step,
                step,
                preimage.content_hash,
                self.our_address,
            ),
        ensures
            self.spec_verify_seal(
                Header {
                    parent_step: preimage.parent_step,
                    content_hash: preimage.content_hash,
                    seal,
                },
                height,
            ) == Ok::<(), SealError>(()),
    {
        let digest = spec_digest(spec_seal_message(self.engine_id, step, preimage.content_hash));
        lemma_recover_tag(self.our_address, digest);
        let vals = self.validators.spec_validators_at(height);
        self.validators.lemma_validators_at_wf(height);
        let idx = step as int % vals.len() as int;
        assert(vals[idx] == self.our_address);
        assert(vals.contains(self.our_address));
    }

    /// A seal signed by anyone but the step's proposer never verifies: it
    /// is rejected as an unknown authority or as a bad signature.
    pub proof fn lemma_foreign_seal_rejected(self, header: Header, height: u64, signer: Address)
        requires
            self.wf(),
            header.seal.step > header.parent_step,
            header.seal.signature == spec_tag(
                signer,
                spec_digest(
                    spec_seal_message(self.engine_id, header.seal.step, header.content_hash),
                ),
            ),
            signer != self.validators.spec_proposer(height, header.seal.step),
        ensures
            self.spec_verify_seal(header, height) == Err::<(), SealError>(
                SealError::UnknownAuthority,
            ) || self.spec_verify_seal(header, height) == Err::<(), SealError>(
                SealError::BadSignature,
            ),
    {
        let digest = spec_digest(
            spec_seal_message(self.engine_id, header.seal.step, header.content_hash),
        );
        lemma_recover_tag(signer, digest);
    }
}

/// A named chain specification: the engine plus the chain's display name,
/// as built from externally loaded configuration.
pub struct Spec {
    pub name: String,
    pub engine: AuthorityRoundEngine,
}

impl Spec {
    /// Builds the chain specification from already-parsed parameters.
    /// Configuration documents are parsed outside the engine; a document
    /// selecting another engine kind never reaches this constructor.
    pub fn from_params(name: String, params: AuthorityRoundParams, signing_key: u64) -> (r: Result<
        Spec,
        EngineError,
    >)
        ensures
            match r {
                Ok(s) => {
                    &&& s.name@ == name@
                    &&& s.engine.wf()
                    &&& params.step_duration > 0
                    &&& wf_list(params.validators@)
                    &&& s.engine.engine_id == params.engine_id
                    &&& s.engine.clock == (StepClock {
                        genesis: params.genesis_time,
                        step_duration: params.step_duration,
                    })
                    &&& s.engine.validators.transitions@.len() == 0
                    &&& forall|h: u64|
                        s.engine.validators.spec_validators_at(h) == params.validators@
                    &&& s.engine.our_address == spec_address_of(signing_key)
                    &&& s.engine.empty_steps_enabled == params.empty_steps_enabled
                    &&& s.engine.start_block == params.start_block
                    &&& s.engine.status == EngineStatus::Idle
                    &&& s.engine.spec_acted() is None
                    &&& s.engine.observed_step == 0
                    &&& s.engine.watch == (StepWatch { version: 0, latest: 0 })
                },
                Err(e) => {
                    &&& e == EngineError::InvalidConfiguration
                    &&& (params.step_duration == 0 || !wf_list(params.validators@))
                },
            },
    {
        match AuthorityRoundEngine::new(params, signing_key) {
            Ok(engine) => Ok(Spec { name, engine }),
            Err(e) => Err(e),
        }
    }
}

} // verus!
