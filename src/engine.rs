use vstd::prelude::*;
use vstd::string::StringSliceAdditionalSpecFns;
use vstd::utf8::{decode_utf8, valid_utf8};
use crate::bytes::{append_bytes, bytes_eq, copy_bytes};
use crate::codec::{enc_transaction, encode};
use crate::encryption::{decrypt, encrypt, xor_stream};
use crate::error::Error;
use crate::hexadecimal::{hex_text, to_hex};
use crate::keys::{all_zero, ed25519_signature_of, x25519_of, DHKeyExchange, KeyPair};
use crate::phase::Phase;
use crate::proofs::{choice_proof, enter_proof};
use crate::registry::{
    choice_verdict, entered, reveal_verdict, step, target_verdict, EventView, ParticipantView,
    Registry,
    RegistryEvent,
};
use crate::storage::StoreOutcome;
use crate::transaction::{
    ChoiceTransaction, ChoiceView, EnterTransaction, EnterView, RecordType, RevealTransaction,
    RevealView, Transaction, TransactionView, ZKProof, kind_of,
};

verus! {

/// Relies on `String::from_utf8`: it succeeds exactly on valid UTF-8 and
/// then holds the characters that the bytes encode.
#[verifier::external_body]
fn utf8_string(b: Vec<u8>) -> (r: Option<String>)
    ensures
        r is Some <==> valid_utf8(b@),
        r matches Some(s) ==> s@ == decode_utf8(b@),
{
    String::from_utf8(b).ok()
}

/// The ASCII bytes of `reveal:`.
pub open spec fn reveal_tag() -> Seq<u8> {
    seq![114u8, 101u8, 118u8, 101u8, 97u8, 108u8, 58u8]
}

/// The message that a revealing participant signs: `reveal:` followed by the
/// hex text of its public key.
pub open spec fn reveal_message(public_key: Seq<u8>) -> Seq<u8> {
    reveal_tag() + hex_text(public_key)
}

fn make_reveal_message(public_key: &[u8]) -> (r: Vec<u8>)
    ensures
        r@ == reveal_message(public_key@),
{
    let mut m: Vec<u8> = Vec::new();
    m.push(114);
    m.push(101);
    m.push(118);
    m.push(101);
    m.push(97);
    m.push(108);
    m.push(58);
    assert(m@ =~= reveal_tag());
    let h = to_hex(public_key);
    append_bytes(&mut m, h.as_slice());
    m
}

/// `field` names the participant `k`: it is `k` or the hex text of `k`.
pub open spec fn names(field: Seq<u8>, k: Seq<u8>) -> bool {
    field == k || field == hex_text(k)
}

/// A choice by `chooser` of `chosen`, bound to the key-exchange public key
/// `dh_public`, would name the chooser in one of its fields.
pub open spec fn choice_names_chooser(chooser: Seq<u8>, chosen: Seq<u8>, dh_public: Seq<u8>) -> bool {
    names(chosen, chooser) || names(dh_public, chooser) || names(hex_text(chosen), chooser)
}

fn names_key(field: &[u8], k: &[u8], k_hex: &[u8]) -> (r: bool)
    requires
        k_hex@ == hex_text(k@),
    ensures
        r == names(field@, k@),
{
    bytes_eq(field, k) || bytes_eq(field, k_hex)
}

/// The verdict of the registry on an event.
pub open spec fn event_verdict(m: Map<Seq<u8>, ParticipantView>, e: EventView) -> Result<
    (),
    Error,
> {
    match e {
        EventView::Entered(_) => Ok(()),
        EventView::Chose(_, t) => target_verdict(m, t),
        EventView::Revealed(k) => reveal_verdict(m, k),
    }
}

/// `t` is a reveal by `k`.
pub open spec fn is_reveal_by(t: TransactionView, k: Seq<u8>) -> bool {
    match t {
        TransactionView::Reveal(r) => r.public_key == k,
        _ => false,
    }
}

/// Entry `i` of the history is a reveal by `k` that the replay accepted.
pub open spec fn accepted_reveal_by(h: Seq<TransactionView>, k: Seq<u8>, i: int) -> bool {
    0 <= i < h.len() && is_reveal_by(h[i], k) && accepted_at(h, i)
}

/// Entry `i` of the history is the first reveal by `k` that the replay
/// accepted.
pub open spec fn first_reveal_by(h: Seq<TransactionView>, k: Seq<u8>, i: int) -> bool {
    &&& accepted_reveal_by(h, k, i)
    &&& forall|j: int| 0 <= j < i ==> !#[trigger] accepted_reveal_by(h, k, j)
}

/// The key-exchange public key that a reveal carries.
pub open spec fn reveal_dh(t: TransactionView) -> Seq<u8> {
    match t {
        TransactionView::Reveal(r) => r.dh_public_key,
        _ => Seq::empty(),
    }
}

/// What a reveal decrypts to under the key-exchange secret `secret`.
pub open spec fn revealed_plain(t: TransactionView, secret: Seq<u8>) -> Seq<u8> {
    match t {
        TransactionView::Reveal(r) => xor_stream(
            r.encrypted_identity,
            x25519_of(secret, r.dh_public_key),
        ),
        _ => Seq::empty(),
    }
}

fn phase_of_event_exec(e: &RegistryEvent) -> (r: Phase)
    ensures
        r == phase_of_event(e@),
{
    match e {
        RegistryEvent::Entered { .. } => Phase::Enter,
        RegistryEvent::Chose { .. } => Phase::Choice,
        RegistryEvent::Revealed { .. } => Phase::Reveal,
    }
}

/// The phase of the operation that an event records.
pub open spec fn phase_of_event(e: EventView) -> Phase {
    match e {
        EventView::Entered(_) => Phase::Enter,
        EventView::Chose(_, _) => Phase::Choice,
        EventView::Revealed(_) => Phase::Reveal,
    }
}

/// The registry event that a stored transaction stands for. A choice is
/// folded under the key-exchange public key that it binds, which marks the
/// chooser without naming them.
pub open spec fn event_of(t: TransactionView) -> EventView {
    match t {
        TransactionView::Enter(e) => EventView::Entered(e.public_key),
        TransactionView::Choice(c) => EventView::Chose(c.chooser_dh_public_key, c.chosen_public_key),
        TransactionView::Reveal(r) => EventView::Revealed(r.public_key),
    }
}

/// The registry and the phase that a history of stored transactions folds
/// to, from nobody in phase `Setup`. A transaction that the registry refuses
/// changes neither.
pub open spec fn replay(h: Seq<TransactionView>) -> (Map<Seq<u8>, ParticipantView>, Phase)
    decreases h.len(),
{
    if h.len() == 0 {
        (Map::empty(), Phase::Setup)
    } else {
        let (m, ph) = replay(h.drop_last());
        let e = event_of(h.last());
        if event_verdict(m, e) is Ok {
            (step(m, e), ph.advanced_spec(phase_of_event(e)))
        } else {
            (m, ph)
        }
    }
}

/// Whether the replay accepted entry `i` of the history: the registry's
/// verdict on it, in the state that the entries before it fold to.
pub open spec fn accepted_at(h: Seq<TransactionView>, i: int) -> bool {
    event_verdict(replay(h.subrange(0, i)).0, event_of(h[i])) is Ok
}

fn event_from(t: &Transaction) -> (r: RegistryEvent)
    ensures
        r@ == event_of(t@),
{
    match t {
        Transaction::Enter(e) => RegistryEvent::Entered {
            public_key: copy_bytes(e.public_key.as_slice()),
        },
        Transaction::Choice(c) => RegistryEvent::Chose {
            mark: copy_bytes(c.chooser_dh_public_key.as_slice()),
            chosen: copy_bytes(c.chosen_public_key.as_slice()),
        },
        Transaction::Reveal(r) => RegistryEvent::Revealed {
            public_key: copy_bytes(r.public_key.as_slice()),
        },
    }
}

/// A transaction that is ready to be stored, with what folding it will do.
pub struct PendingRecord {
    record_type: RecordType,
    bytes: Vec<u8>,
    transaction: Transaction,
    event: RegistryEvent,
    phase: Phase,
}

impl PendingRecord {
    pub closed spec fn tx(&self) -> TransactionView {
        self.transaction@
    }

    pub closed spec fn event(&self) -> EventView {
        self.event@
    }

    pub closed spec fn op_phase(&self) -> Phase {
        self.phase
    }

    pub closed spec fn encoded(&self) -> Seq<u8> {
        self.bytes@
    }

    pub closed spec fn kind(&self) -> RecordType {
        self.record_type
    }

    /// The record bytes are the encoding of the transaction, kept under its
    /// kind.
    pub open spec fn wf(&self) -> bool {
        &&& self.encoded() == enc_transaction(self.tx())
        &&& self.kind() == kind_of(self.tx())
        &&& event_of(self.tx()) == self.event()
        &&& self.op_phase() == phase_of_event(self.event())
    }

    /// The kind under which the record is to be stored.
    pub fn record_type(&self) -> (r: RecordType)
        ensures
            r == self.kind(),
    {
        self.record_type
    }

    /// The bytes to store.
    pub fn bytes(&self) -> (r: &[u8])
        ensures
            r@ == self.encoded(),
    {
        self.bytes.as_slice()
    }

    /// The transaction to store.
    pub fn transaction(&self) -> (r: &Transaction)
        ensures
            r@ == self.tx(),
    {
        &self.transaction
    }
}

fn pending(transaction: Transaction, event: RegistryEvent, phase: Phase) -> (r: PendingRecord)
    requires
        event_of(transaction@) == event@,
        phase == phase_of_event(event@),
    ensures
        r.wf(),
        r.tx() == transaction@,
        r.event() == event@,
        r.op_phase() == phase,
{
    let bytes = encode(&transaction);
    let record_type = transaction.record_type();
    PendingRecord { record_type, bytes, transaction, event, phase }
}

/// The protocol engine: the global phase, the participant registry, and the
/// history of stored transactions in storage order.
pub struct SecretSantaProtocol {
    current_phase: Phase,
    registry: Registry,
    transactions: Vec<Transaction>,
    accepted: Vec<bool>,
}

impl SecretSantaProtocol {
    pub closed spec fn phase(&self) -> Phase {
        self.current_phase
    }

    pub closed spec fn participants(&self) -> Map<Seq<u8>, ParticipantView> {
        self.registry@
    }

    pub closed spec fn history(&self) -> Seq<TransactionView> {
        self.transactions@.map_values(|t: Transaction| t@)
    }

    pub closed spec fn wf(&self) -> bool {
        &&& self.registry.wf()
        &&& replay(self.history()) == (self.registry@, self.current_phase)
        &&& self.accepted@.len() == self.transactions@.len()
        &&& forall|i: int|
            0 <= i < self.accepted@.len() ==> #[trigger] self.accepted@[i] == accepted_at(
                self.history(),
                i,
            )
    }

    /// Stores `t` in the history and folds it.
    fn fold_in(&mut self, t: Transaction) -> (r: Result<(), Error>)
        requires
            old(self).wf(),
        ensures
            final(self).wf(),
            final(self).history() == old(self).history().push(t@),
            r == event_verdict(old(self).participants(), event_of(t@)),
            final(self).participants() == step(old(self).participants(), event_of(t@)),
            final(self).phase() == if r is Ok {
                old(self).phase().advanced_spec(phase_of_event(event_of(t@)))
            } else {
                old(self).phase()
            },
    {
        let ghost h = self.history();
        let ghost tv = t@;
        let e = event_from(&t);
        let r = self.registry.apply(&e);
        if r.is_ok() {
            self.current_phase = self.current_phase.advanced(phase_of_event_exec(&e));
        }
        self.transactions.push(t);
        self.accepted.push(r.is_ok());
        proof {
            let h2 = self.history();
            assert(h2 =~= h.push(tv));
            assert(h2.drop_last() =~= h);
            assert forall|i: int| 0 <= i < self.accepted@.len() implies #[trigger] self.accepted@[i]
                == accepted_at(h2, i) by {
                if i < h.len() {
                    assert(h2.subrange(0, i) =~= h.subrange(0, i));
                    assert(h2[i] == h[i]);
                } else {
                    assert(h2.subrange(0, i) =~= h);
                }
            }
        }
        r
    }

    /// The registry and the phase are always what the history of stored
    /// transactions folds to: replaying the history rebuilds them.
    pub proof fn lemma_state_is_replay(&self)
        requires
            self.wf(),
        ensures
            replay(self.history()) == (self.participants(), self.phase()),
    {
    }

    /// Rebuilds the engine from a history of stored transactions, in storage
    /// order.
    pub fn from_history(transactions: &Vec<Transaction>) -> (r: SecretSantaProtocol)
        ensures
            r.wf(),
            r.history() == transactions@.map_values(|t: Transaction| t@),
            (r.participants(), r.phase()) == replay(r.history()),
    {
        let mut r = SecretSantaProtocol::new();
        let mut i: usize = 0;
        while i < transactions.len()
            invariant
                i <= transactions@.len(),
                r.wf(),
                r.history() == transactions@.subrange(0, i as int).map_values(
                    |t: Transaction| t@,
                ),
            decreases transactions@.len() - i,
        {
            let t = &transactions[i];
            let ghost h = r.history();
            let _ = r.fold_in(t.copy());
            assert(transactions@.subrange(0, i + 1).map_values(|t: Transaction| t@) =~= h.push(
                t@,
            ));
            i = i + 1;
        }
        assert(transactions@.subrange(0, transactions@.len() as int) =~= transactions@);
        r
    }

    /// A protocol in phase `Setup` with nobody in it.
    pub fn new() -> (r: SecretSantaProtocol)
        ensures
            r.wf(),
            r.phase() == Phase::Setup,
            r.participants() == Map::<Seq<u8>, ParticipantView>::empty(),
            r.history() == Seq::<TransactionView>::empty(),
    {
        let r = SecretSantaProtocol {
            current_phase: Phase::Setup,
            registry: Registry::new(),
            transactions: Vec::new(),
            accepted: Vec::new(),
        };
        assert(r.history() =~= Seq::<TransactionView>::empty());
        assert(replay(r.history()) == (Map::<Seq<u8>, ParticipantView>::empty(), Phase::Setup));
        r
    }

    /// The global phase.
    pub fn current_phase(&self) -> (r: Phase)
        ensures
            r == self.phase(),
    {
        self.current_phase
    }

    /// The participant registry.
    pub fn registry(&self) -> (r: &Registry)
        requires
            self.wf(),
        ensures
            r.wf(),
            r@ == self.participants(),
    {
        &self.registry
    }

    /// The stored transactions, in storage order.
    pub fn transactions(&self) -> (r: &Vec<Transaction>)
        ensures
            r@.map_values(|t: Transaction| t@) == self.history(),
    {
        &self.transactions
    }

    /// The entered public keys that nobody has chosen yet, each once.
    /// Drivers leave out their own key.
    pub fn get_available_choices(&self) -> (r: Vec<Vec<u8>>)
        requires
            self.wf(),
        ensures
            forall|i: int|
                0 <= i < r@.len() ==> #[trigger] entered(self.participants(), r@[i]@)
                    && self.participants()[r@[i]@].chosen_by is None,
            forall|k: Seq<u8>|
                entered(self.participants(), k) && self.participants()[k].chosen_by is None
                    ==> exists|i: int| 0 <= i < r@.len() && #[trigger] r@[i]@ == k,
            forall|i: int, j: int|
                0 <= i < r@.len() && 0 <= j < r@.len() && i != j ==> #[trigger] r@[i]@
                    != #[trigger] r@[j]@,
    {
        self.registry.available_choices()
    }

    /// Whether somebody has chosen `public_key`.
    pub fn has_santa(&self, public_key: &[u8]) -> (r: bool)
        requires
            self.wf(),
        ensures
            r == (self.participants().contains_key(public_key@)
                && self.participants()[public_key@].chosen_by.is_some()),
    {
        self.registry.has_santa(public_key)
    }

    /// Validates an Enter by the holder of `keypair` and builds its record,
    /// around the bytes of an enter-eligibility proof from the proving
    /// backend. Fails with `ProtocolViolation` once the protocol is complete.
    pub fn enter_phase(&self, keypair: &KeyPair, proof_data: Vec<u8>, timestamp: u64) -> (r:
        Result<PendingRecord, Error>)
        requires
            keypair.wf(),
        ensures
            match r {
                Ok(p) => self.phase().admits_spec(Phase::Enter) && p.wf() && p.op_phase()
                    == Phase::Enter && p.event() == EventView::Entered(keypair.public()) && p.tx()
                    == TransactionView::Enter(
                    EnterView {
                        public_key: keypair.public(),
                        zk_proof: enter_proof(keypair.public(), proof_data@),
                        timestamp,
                    },
                ),
                Err(e) => e == Error::ProtocolViolation && !self.phase().admits_spec(Phase::Enter),
            },
    {
        if !self.current_phase.admits(Phase::Enter) {
            return Err(Error::ProtocolViolation);
        }
        let pk = keypair.public_key();
        let zk_proof = ZKProof::enter_phase(pk, proof_data);
        let tx = EnterTransaction { public_key: copy_bytes(pk), zk_proof, timestamp };
        let event = RegistryEvent::Entered { public_key: copy_bytes(pk) };
        Ok(pending(Transaction::Enter(tx), event, Phase::Enter))
    }

    /// Validates `chooser` choosing `chosen_public_key` and builds the
    /// record, binding the public key of `dh_keypair` for the later reveal.
    /// The record does not name the chooser: its proof is bound to the chosen
    /// key alone, and the registry marks the target with the key-exchange
    /// key. First the phase must admit a choice; then the registry decides:
    /// the chooser must have entered (`NotEntered`), the target must have
    /// entered (`TargetNotFound`) and must not be chosen yet
    /// (`AlreadyChosen`). Last, a record in which a field would name the
    /// chooser (choosing oneself, or a key-exchange key equal to the
    /// identity key) is refused with `ProtocolViolation`.
    pub fn choice_phase(
        &self,
        chooser_keypair: &KeyPair,
        chosen_public_key: &[u8],
        dh_keypair: &DHKeyExchange,
        proof_data: Vec<u8>,
        timestamp: u64,
    ) -> (r: Result<PendingRecord, Error>)
        requires
            self.wf(),
            chooser_keypair.wf(),
            dh_keypair.wf(),
        ensures
            !self.phase().admits_spec(Phase::Choice) ==> r == Err::<PendingRecord, Error>(
                Error::ProtocolViolation,
            ),
            self.phase().admits_spec(Phase::Choice) ==> match r {
                Ok(p) => {
                    &&& choice_verdict(
                        self.participants(),
                        chooser_keypair.public(),
                        chosen_public_key@,
                    ) is Ok
                    &&& !choice_names_chooser(
                        chooser_keypair.public(),
                        chosen_public_key@,
                        dh_keypair.public(),
                    )
                    &&& p.wf()
                    &&& p.op_phase() == Phase::Choice
                    &&& p.event() == EventView::Chose(dh_keypair.public(), chosen_public_key@)
                    &&& p.tx() == TransactionView::Choice(
                        ChoiceView {
                            chosen_public_key: chosen_public_key@,
                            chooser_dh_public_key: dh_keypair.public(),
                            zk_proof: choice_proof(chosen_public_key@, proof_data@),
                            timestamp,
                        },
                    )
                    &&& !names(chosen_public_key@, chooser_keypair.public())
                    &&& !names(dh_keypair.public(), chooser_keypair.public())
                    &&& forall|i: int|
                        0 <= i < choice_proof(chosen_public_key@, proof_data@).public_inputs.len()
                            ==> !names(
                            #[trigger] choice_proof(
                                chosen_public_key@,
                                proof_data@,
                            ).public_inputs[i],
                            chooser_keypair.public(),
                        )
                },
                Err(e) => choice_verdict(
                    self.participants(),
                    chooser_keypair.public(),
                    chosen_public_key@,
                ) == Err::<(), Error>(e) || (choice_verdict(
                    self.participants(),
                    chooser_keypair.public(),
                    chosen_public_key@,
                ) is Ok && choice_names_chooser(
                    chooser_keypair.public(),
                    chosen_public_key@,
                    dh_keypair.public(),
                ) && e == Error::ProtocolViolation),
            },
    {
        if !self.current_phase.admits(Phase::Choice) {
            return Err(Error::ProtocolViolation);
        }
        let chooser = chooser_keypair.public_key();
        if let Err(e) = self.registry.check_choice(chooser, chosen_public_key) {
            return Err(e);
        }
        let chooser_hex = to_hex(chooser);
        let chosen_hex = to_hex(chosen_public_key);
        if names_key(chosen_public_key, chooser, chooser_hex.as_slice()) || names_key(
            dh_keypair.public_key(),
            chooser,
            chooser_hex.as_slice(),
        ) || names_key(chosen_hex.as_slice(), chooser, chooser_hex.as_slice()) {
            return Err(Error::ProtocolViolation);
        }
        let zk_proof = ZKProof::choice_phase(chosen_public_key, proof_data);
        let tx = ChoiceTransaction {
            chosen_public_key: copy_bytes(chosen_public_key),
            chooser_dh_public_key: copy_bytes(dh_keypair.public_key()),
            zk_proof,
            timestamp,
        };
        let event = RegistryEvent::Chose {
            mark: copy_bytes(dh_keypair.public_key()),
            chosen: copy_bytes(chosen_public_key),
        };
        Ok(pending(Transaction::Choice(tx), event, Phase::Choice))
    }

    /// Validates a reveal by the holder of `keypair` and builds the record:
    /// `identity_info` encrypted under the secret shared between `dh_keypair`
    /// and the chooser's `santa_dh_public_key`, and a signature over
    /// `reveal:` and the hex text of the revealer's public key. After the
    /// phase check, a participant whom nobody chose is refused with
    /// `NotChosen`; a bad key exchange gives `CryptoError`.
    pub fn reveal_phase(
        &self,
        keypair: &KeyPair,
        identity_info: &str,
        dh_keypair: &DHKeyExchange,
        santa_dh_public_key: &[u8],
        timestamp: u64,
    ) -> (r: Result<PendingRecord, Error>)
        requires
            self.wf(),
            keypair.wf(),
            dh_keypair.wf(),
        ensures
            !self.phase().admits_spec(Phase::Reveal) ==> r == Err::<PendingRecord, Error>(
                Error::ProtocolViolation,
            ),
            self.phase().admits_spec(Phase::Reveal) && reveal_verdict(
                self.participants(),
                keypair.public(),
            ) is Err ==> r == Err::<PendingRecord, Error>(Error::NotChosen),
            self.phase().admits_spec(Phase::Reveal) && reveal_verdict(
                self.participants(),
                keypair.public(),
            ) is Ok ==> match r {
                Ok(p) => santa_dh_public_key@.len() == 32 && !all_zero(
                    x25519_of(dh_keypair.secret(), santa_dh_public_key@),
                ) && p.wf() && p.op_phase() == Phase::Reveal && p.event() == EventView::Revealed(
                    keypair.public(),
                ) && p.tx() == TransactionView::Reveal(
                    RevealView {
                        public_key: keypair.public(),
                        encrypted_identity: xor_stream(
                            identity_info.spec_bytes(),
                            x25519_of(dh_keypair.secret(), santa_dh_public_key@),
                        ),
                        dh_public_key: dh_keypair.public(),
                        signature: ed25519_signature_of(
                            keypair.secret(),
                            reveal_message(keypair.public()),
                        ),
                        timestamp,
                    },
                ),
                Err(e) => e == Error::CryptoError && (santa_dh_public_key@.len() != 32 || all_zero(
                    x25519_of(dh_keypair.secret(), santa_dh_public_key@),
                )),
            },
    {
        if !self.current_phase.admits(Phase::Reveal) {
            return Err(Error::ProtocolViolation);
        }
        let pk = keypair.public_key();
        if let Err(e) = self.registry.check_reveal(pk) {
            return Err(e);
        }
        let shared = dh_keypair.compute_shared_secret(santa_dh_public_key)?;
        let encrypted_identity = encrypt(identity_info.as_bytes(), shared.as_slice());
        let message = make_reveal_message(pk);
        let signature = keypair.sign(message.as_slice());
        let tx = RevealTransaction {
            public_key: copy_bytes(pk),
            encrypted_identity,
            dh_public_key: copy_bytes(dh_keypair.public_key()),
            signature,
            timestamp,
        };
        let event = RegistryEvent::Revealed { public_key: copy_bytes(pk) };
        Ok(pending(Transaction::Reveal(tx), event, Phase::Reveal))
    }

    /// Takes in what the record store reported for a pending record. On a
    /// failure or a timeout nothing changes and the error is returned. On
    /// confirmation the transaction joins the history and is folded into the
    /// registry; the phase advances when the registry accepts it. A record
    /// that the registry refuses (a target that another choice reached first)
    /// stays in the history and changes nothing else.
    pub fn commit(&mut self, pending: PendingRecord, outcome: StoreOutcome) -> (r: Result<(), Error>)
        requires
            old(self).wf(),
            pending.wf(),
        ensures
            final(self).wf(),
            outcome == StoreOutcome::Failed ==> r == Err::<(), Error>(Error::StorageError),
            outcome == StoreOutcome::TimedOut ==> r == Err::<(), Error>(Error::StorageTimeout),
            outcome != StoreOutcome::Confirmed ==> final(self).phase() == old(self).phase()
                && final(self).participants() == old(self).participants()
                && final(self).history() == old(self).history(),
            outcome == StoreOutcome::Confirmed ==> {
                &&& r == event_verdict(old(self).participants(), pending.event())
                &&& final(self).participants() == step(old(self).participants(), pending.event())
                &&& final(self).history() == old(self).history().push(pending.tx())
                &&& final(self).phase() == if r is Ok {
                    old(self).phase().advanced_spec(pending.op_phase())
                } else {
                    old(self).phase()
                }
            },
    {
        match outcome {
            StoreOutcome::Failed => Err(Error::StorageError),
            StoreOutcome::TimedOut => Err(Error::StorageTimeout),
            StoreOutcome::Confirmed => {
                let PendingRecord { record_type: _, bytes: _, transaction, event: _, phase: _ } =
                    pending;
                self.fold_in(transaction)
            },
        }
    }

    fn find_reveal_by(&self, k: &[u8]) -> (r: Option<usize>)
        requires
            self.wf(),
        ensures
            match r {
                Some(i) => first_reveal_by(self.history(), k@, i as int),
                None => forall|i: int| !#[trigger] accepted_reveal_by(self.history(), k@, i),
            },
    {
        let ghost h = self.history();
        let mut i: usize = 0;
        while i < self.transactions.len()
            invariant
                self.wf(),
                h == self.history(),
                i <= self.transactions@.len(),
                forall|j: int| 0 <= j < i ==> !#[trigger] accepted_reveal_by(h, k@, j),
            decreases self.transactions@.len() - i,
        {
            assert(h[i as int] == self.transactions@[i as int]@);
            assert(self.accepted@[i as int] == accepted_at(h, i as int));
            if self.accepted[i] {
                match &self.transactions[i] {
                    Transaction::Reveal(t) => {
                        if bytes_eq(t.public_key.as_slice(), k) {
                            return Some(i);
                        }
                    },
                    _ => {},
                }
            }
            i = i + 1;
        }
        None
    }

    /// The key-exchange public key bound by the choice of `public_key` that
    /// the registry accepted, the first valid one in storage order: the key
    /// to which its reveal is encrypted. `NotFound` when nobody chose it.
    pub fn santa_key_exchange_public_key(&self, public_key: &[u8]) -> (r: Result<Vec<u8>, Error>)
        requires
            self.wf(),
        ensures
            match r {
                Ok(v) => self.participants().contains_key(public_key@)
                    && self.participants()[public_key@].chosen_by == Some(v@),
                Err(e) => e == Error::NotFound && !(self.participants().contains_key(public_key@)
                    && self.participants()[public_key@].chosen_by is Some),
            },
    {
        match self.registry.chosen_by(public_key) {
            Some(v) => Ok(v),
            None => Err(Error::NotFound),
        }
    }

    /// What the participant whom the holder of `dh_keypair` chose has
    /// revealed. The choice is found by its mark, the key-exchange public key
    /// of `dh_keypair`; the reveal is the first one by that participant that
    /// the registry accepted, decrypted with the secret of `dh_keypair` and
    /// the key-exchange public key that the reveal carries. `NotFound` when
    /// no accepted choice carries that mark, `None` while no reveal exists,
    /// `CryptoError` on a bad key exchange and `DecryptionFailed` when the
    /// plaintext is not valid UTF-8.
    pub fn santee_revealed_info(&self, dh_keypair: &DHKeyExchange) -> (r: Result<
        Option<String>,
        Error,
    >)
        requires
            self.wf(),
            dh_keypair.wf(),
        ensures
            match r {
                Err(Error::NotFound) => forall|k: Seq<u8>|
                    #[trigger] self.participants().contains_key(k)
                        ==> self.participants()[k].chosen_by != Some(dh_keypair.public()),
                Ok(None) => exists|k: Seq<u8>|
                    #[trigger] self.participants().contains_key(k)
                        && self.participants()[k].chosen_by == Some(dh_keypair.public()) && forall|
                        i: int,
                    |
                        !#[trigger] accepted_reveal_by(self.history(), k, i),
                Ok(Some(s)) => exists|k: Seq<u8>, i: int|
                    #[trigger] self.participants().contains_key(k)
                        && self.participants()[k].chosen_by == Some(dh_keypair.public())
                        && first_reveal_by(self.history(), k, i) && reveal_dh(
                        #[trigger] self.history()[i],
                    ).len() == 32 && !all_zero(
                        x25519_of(dh_keypair.secret(), reveal_dh(self.history()[i])),
                    ) && valid_utf8(revealed_plain(self.history()[i], dh_keypair.secret())) && s@
                        == decode_utf8(revealed_plain(self.history()[i], dh_keypair.secret())),
                Err(Error::CryptoError) => exists|k: Seq<u8>, i: int|
                    #[trigger] self.participants().contains_key(k)
                        && self.participants()[k].chosen_by == Some(dh_keypair.public())
                        && first_reveal_by(self.history(), k, i) && (reveal_dh(
                        #[trigger] self.history()[i],
                    ).len() != 32 || all_zero(
                        x25519_of(dh_keypair.secret(), reveal_dh(self.history()[i])),
                    )),
                Err(Error::DecryptionFailed) => exists|k: Seq<u8>, i: int|
                    #[trigger] self.participants().contains_key(k)
                        && self.participants()[k].chosen_by == Some(dh_keypair.public())
                        && first_reveal_by(self.history(), k, i) && reveal_dh(
                        #[trigger] self.history()[i],
                    ).len() == 32 && !all_zero(
                        x25519_of(dh_keypair.secret(), reveal_dh(self.history()[i])),
                    ) && !valid_utf8(revealed_plain(self.history()[i], dh_keypair.secret())),
                Err(_) => false,
            },
    {
        let santee = match self.registry.santee_of(dh_keypair.public_key()) {
            None => return Err(Error::NotFound),
            Some(k) => k,
        };
        let i = match self.find_reveal_by(santee.as_slice()) {
            None => return Ok(None),
            Some(i) => i,
        };
        assert(self.history()[i as int] == self.transactions@[i as int]@);
        match &self.transactions[i] {
            Transaction::Reveal(t) => {
                let shared = match dh_keypair.compute_shared_secret(t.dh_public_key.as_slice()) {
                    Ok(s) => s,
                    Err(e) => return Err(e),
                };
                let plain = decrypt(t.encrypted_identity.as_slice(), shared.as_slice());
                match utf8_string(plain) {
                    Some(s) => Ok(Some(s)),
                    None => Err(Error::DecryptionFailed),
                }
            },
            _ => Err(Error::NotFound),
        }
    }
}

} // verus!
