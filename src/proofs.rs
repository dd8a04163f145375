use vstd::prelude::*;
use crate::bytes::bytes_eq;
use crate::hexadecimal::{hex_text, to_hex};
use crate::transaction::{ProofType, ProofView, ZKProof};

verus! {

/// The envelope of an enter-eligibility proof: bound to the entrant's public
/// key.
pub open spec fn enter_proof(public_key: Seq<u8>, proof_data: Seq<u8>) -> ProofView {
    ProofView {
        proof_data,
        public_inputs: seq![hex_text(public_key)],
        proof_type: ProofType::EnterPhase,
    }
}

/// The envelope of a choice-eligibility proof: bound to the chosen public
/// key alone. The chooser is part of the witness, never of the public
/// inputs.
pub open spec fn choice_proof(chosen: Seq<u8>, proof_data: Seq<u8>) -> ProofView {
    ProofView {
        proof_data,
        public_inputs: seq![hex_text(chosen)],
        proof_type: ProofType::ChoicePhase,
    }
}

impl ZKProof {
    /// Wraps the bytes of an enter-eligibility proof for `public_key`, made
    /// by the proving backend, with the public inputs it is bound to.
    pub fn enter_phase(public_key: &[u8], proof_data: Vec<u8>) -> (r: ZKProof)
        ensures
            r@ == enter_proof(public_key@, proof_data@),
    {
        let mut public_inputs: Vec<Vec<u8>> = Vec::new();
        public_inputs.push(to_hex(public_key));
        let r = ZKProof { proof_data, public_inputs, proof_type: ProofType::EnterPhase };
        assert(r@.public_inputs =~= seq![hex_text(public_key@)]);
        r
    }

    /// Wraps the bytes of a choice-eligibility proof with the public input it
    /// is bound to: the chosen public key.
    pub fn choice_phase(chosen: &[u8], proof_data: Vec<u8>) -> (r: ZKProof)
        ensures
            r@ == choice_proof(chosen@, proof_data@),
    {
        let mut public_inputs: Vec<Vec<u8>> = Vec::new();
        public_inputs.push(to_hex(chosen));
        let r = ZKProof { proof_data, public_inputs, proof_type: ProofType::ChoicePhase };
        assert(r@.public_inputs =~= seq![hex_text(chosen@)]);
        r
    }

    /// Whether the proof attests `kind` and is bound to exactly the hex texts
    /// of `keys`, in order. The proof bytes themselves are checked by the
    /// proving backend.
    pub fn is_bound_to(&self, kind: ProofType, keys: &Vec<Vec<u8>>) -> (r: bool)
        ensures
            r == (self.proof_type == kind && self@.public_inputs =~= keys@.map_values(
                |k: Vec<u8>| hex_text(k@),
            )),
    {
        if self.proof_type != kind || self.public_inputs.len() != keys.len() {
            return false;
        }
        let mut i: usize = 0;
        while i < keys.len()
            invariant
                i <= keys@.len(),
                self.public_inputs@.len() == keys@.len(),
                forall|j: int|
                    0 <= j < i ==> #[trigger] self.public_inputs@[j]@ == hex_text(keys@[j]@),
            decreases keys@.len() - i,
        {
            let h = to_hex(keys[i].as_slice());
            if !bytes_eq(self.public_inputs[i].as_slice(), h.as_slice()) {
                assert(self@.public_inputs[i as int] != keys@.map_values(|k: Vec<u8>| hex_text(k@))[i as int]);
                return false;
            }
            i = i + 1;
        }
        assert(self@.public_inputs =~= keys@.map_values(|k: Vec<u8>| hex_text(k@)));
        true
    }
}

} // verus!
