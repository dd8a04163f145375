use vstd::prelude::*;
use crate::bytes::copy_bytes;

verus! {

/// The protocol step that a proof attests.
#[derive(Debug, Clone, Copy, PartialEq, Eq, Structural)]
pub enum ProofType {
    EnterPhase,
    ChoicePhase,
    RevealPhase,
}

/// A zero-knowledge proof: opaque proof bytes, the public inputs it is bound
/// to (each the lowercase hex text of a public key, as ASCII bytes), and the
/// step it attests.
#[derive(Debug, Clone, PartialEq, Eq)]
pub struct ZKProof {
    pub proof_data: Vec<u8>,
    pub public_inputs: Vec<Vec<u8>>,
    pub proof_type: ProofType,
}

pub struct ProofView {
    pub proof_data: Seq<u8>,
    pub public_inputs: Seq<Seq<u8>>,
    pub proof_type: ProofType,
}

impl View for ZKProof {
    type V = ProofView;

    open spec fn view(&self) -> ProofView {
        ProofView {
            proof_data: self.proof_data@,
            public_inputs: self.public_inputs@.map_values(|v: Vec<u8>| v@),
            proof_type: self.proof_type,
        }
    }
}

/// A participant joins, proving that it holds the key.
#[derive(Debug, Clone, PartialEq, Eq)]
pub struct EnterTransaction {
    pub public_key: Vec<u8>,
    pub zk_proof: ZKProof,
    pub timestamp: u64,
}

/// A hidden chooser picks `chosen_public_key` and binds a key-exchange
/// public key for the later reveal.
#[derive(Debug, Clone, PartialEq, Eq)]
pub struct ChoiceTransaction {
    pub chosen_public_key: Vec<u8>,
    pub chooser_dh_public_key: Vec<u8>,
    pub zk_proof: ZKProof,
    pub timestamp: u64,
}

/// A chosen participant discloses its identity, encrypted for its chooser.
#[derive(Debug, Clone, PartialEq, Eq)]
pub struct RevealTransaction {
    pub public_key: Vec<u8>,
    pub encrypted_identity: Vec<u8>,
    pub dh_public_key: Vec<u8>,
    pub signature: Vec<u8>,
    pub timestamp: u64,
}

/// The kind under which a record is kept in the record store.
#[derive(Debug, Clone, Copy, PartialEq, Eq, Structural)]
pub enum RecordType {
    EnterTransaction,
    ChoiceTransaction,
    RevealTransaction,
}

/// Any of the three transactions.
#[derive(Debug, Clone, PartialEq, Eq)]
pub enum Transaction {
    Enter(EnterTransaction),
    Choice(ChoiceTransaction),
    Reveal(RevealTransaction),
}

pub struct EnterView {
    pub public_key: Seq<u8>,
    pub zk_proof: ProofView,
    pub timestamp: u64,
}

pub struct ChoiceView {
    pub chosen_public_key: Seq<u8>,
    pub chooser_dh_public_key: Seq<u8>,
    pub zk_proof: ProofView,
    pub timestamp: u64,
}

pub struct RevealView {
    pub public_key: Seq<u8>,
    pub encrypted_identity: Seq<u8>,
    pub dh_public_key: Seq<u8>,
    pub signature: Seq<u8>,
    pub timestamp: u64,
}

pub enum TransactionView {
    Enter(EnterView),
    Choice(ChoiceView),
    Reveal(RevealView),
}

impl View for EnterTransaction {
    type V = EnterView;

    open spec fn view(&self) -> EnterView {
        EnterView {
            public_key: self.public_key@,
            zk_proof: self.zk_proof@,
            timestamp: self.timestamp,
        }
    }
}

impl View for ChoiceTransaction {
    type V = ChoiceView;

    open spec fn view(&self) -> ChoiceView {
        ChoiceView {
            chosen_public_key: self.chosen_public_key@,
            chooser_dh_public_key: self.chooser_dh_public_key@,
            zk_proof: self.zk_proof@,
            timestamp: self.timestamp,
        }
    }
}

impl View for RevealTransaction {
    type V = RevealView;

    open spec fn view(&self) -> RevealView {
        RevealView {
            public_key: self.public_key@,
            encrypted_identity: self.encrypted_identity@,
            dh_public_key: self.dh_public_key@,
            signature: self.signature@,
            timestamp: self.timestamp,
        }
    }
}

impl View for Transaction {
    type V = TransactionView;

    open spec fn view(&self) -> TransactionView {
        match self {
            Transaction::Enter(t) => TransactionView::Enter(t@),
            Transaction::Choice(t) => TransactionView::Choice(t@),
            Transaction::Reveal(t) => TransactionView::Reveal(t@),
        }
    }
}

/// The record kind of a transaction.
pub open spec fn kind_of(t: TransactionView) -> RecordType {
    match t {
        TransactionView::Enter(_) => RecordType::EnterTransaction,
        TransactionView::Choice(_) => RecordType::ChoiceTransaction,
        TransactionView::Reveal(_) => RecordType::RevealTransaction,
    }
}

impl Transaction {
    /// The record kind under which the transaction is stored.
    pub fn record_type(&self) -> (r: RecordType)
        ensures
            r == kind_of(self@),
    {
        match self {
            Transaction::Enter(_) => RecordType::EnterTransaction,
            Transaction::Choice(_) => RecordType::ChoiceTransaction,
            Transaction::Reveal(_) => RecordType::RevealTransaction,
        }
    }
}

/// Copies a list of byte strings.
pub fn copy_byte_list(s: &Vec<Vec<u8>>) -> (r: Vec<Vec<u8>>)
    ensures
        r@.map_values(|v: Vec<u8>| v@) == s@.map_values(|v: Vec<u8>| v@),
{
    let mut out: Vec<Vec<u8>> = Vec::new();
    let mut i: usize = 0;
    while i < s.len()
        invariant
            i <= s@.len(),
            out@.len() == i,
            forall|j: int| 0 <= j < i ==> #[trigger] out@[j]@ == s@[j]@,
        decreases s@.len() - i,
    {
        out.push(copy_bytes(s[i].as_slice()));
        i = i + 1;
    }
    assert(out@.map_values(|v: Vec<u8>| v@) =~= s@.map_values(|v: Vec<u8>| v@));
    out
}

impl ZKProof {
    /// A copy of the proof.
    pub fn copy(&self) -> (r: ZKProof)
        ensures
            r@ == self@,
    {
        ZKProof {
            proof_data: copy_bytes(self.proof_data.as_slice()),
            public_inputs: copy_byte_list(&self.public_inputs),
            proof_type: self.proof_type,
        }
    }
}

impl Transaction {
    /// A copy of the transaction.
    pub fn copy(&self) -> (r: Transaction)
        ensures
            r@ == self@,
    {
        match self {
            Transaction::Enter(t) => Transaction::Enter(
                EnterTransaction {
                    public_key: copy_bytes(t.public_key.as_slice()),
                    zk_proof: t.zk_proof.copy(),
                    timestamp: t.timestamp,
                },
            ),
            Transaction::Choice(t) => Transaction::Choice(
                ChoiceTransaction {
                    chosen_public_key: copy_bytes(t.chosen_public_key.as_slice()),
                    chooser_dh_public_key: copy_bytes(t.chooser_dh_public_key.as_slice()),
                    zk_proof: t.zk_proof.copy(),
                    timestamp: t.timestamp,
                },
            ),
            Transaction::Reveal(t) => Transaction::Reveal(
                RevealTransaction {
                    public_key: copy_bytes(t.public_key.as_slice()),
                    encrypted_identity: copy_bytes(t.encrypted_identity.as_slice()),
                    dh_public_key: copy_bytes(t.dh_public_key.as_slice()),
                    signature: copy_bytes(t.signature.as_slice()),
                    timestamp: t.timestamp,
                },
            ),
        }
    }
}

} // verus!
