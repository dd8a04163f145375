use vstd::prelude::*;
use crate::bytes::append_bytes;
use crate::error::Error;
use crate::transaction::{
    ChoiceTransaction, ChoiceView, EnterTransaction, EnterView, ProofType, ProofView, RecordType,
    RevealTransaction, RevealView, Transaction, TransactionView, ZKProof, kind_of,
};

verus! {

// ---- The encoding ----
//
// Integers are little-endian, eight bytes for a `u64` and four for a tag. A
// byte string is its length as a `u64` followed by its bytes; a list is its
// length followed by its items. Fields follow in declaration order.

pub open spec fn le64(v: u64) -> Seq<u8> {
    seq![
        v as u8,
        (v >> 8u64) as u8,
        (v >> 16u64) as u8,
        (v >> 24u64) as u8,
        (v >> 32u64) as u8,
        (v >> 40u64) as u8,
        (v >> 48u64) as u8,
        (v >> 56u64) as u8,
    ]
}

pub open spec fn enc_bytes(x: Seq<u8>) -> Seq<u8> {
    le64(x.len() as u64) + x
}

pub open spec fn enc_items(s: Seq<Seq<u8>>) -> Seq<u8>
    decreases s.len(),
{
    if s.len() == 0 {
        Seq::empty()
    } else {
        enc_items(s.drop_last()) + enc_bytes(s.last())
    }
}

pub open spec fn enc_list(s: Seq<Seq<u8>>) -> Seq<u8> {
    le64(s.len() as u64) + enc_items(s)
}

pub open spec fn tag_of(t: ProofType) -> u8 {
    match t {
        ProofType::EnterPhase => 0,
        ProofType::ChoicePhase => 1,
        ProofType::RevealPhase => 2,
    }
}

pub open spec fn enc_tag(t: ProofType) -> Seq<u8> {
    seq![tag_of(t), 0u8, 0u8, 0u8]
}

pub open spec fn enc_proof(p: ProofView) -> Seq<u8> {
    enc_bytes(p.proof_data) + enc_list(p.public_inputs) + enc_tag(p.proof_type)
}

pub open spec fn enc_enter(t: EnterView) -> Seq<u8> {
    enc_bytes(t.public_key) + enc_proof(t.zk_proof) + le64(t.timestamp)
}

pub open spec fn enc_choice(t: ChoiceView) -> Seq<u8> {
    enc_bytes(t.chosen_public_key) + enc_bytes(t.chooser_dh_public_key) + enc_proof(t.zk_proof)
        + le64(t.timestamp)
}

pub open spec fn enc_reveal(t: RevealView) -> Seq<u8> {
    enc_bytes(t.public_key) + enc_bytes(t.encrypted_identity) + enc_bytes(t.dh_public_key)
        + enc_bytes(t.signature) + le64(t.timestamp)
}

/// The canonical encoding of a transaction; its record kind is kept beside
/// it by the record store, not inside it.
pub open spec fn enc_transaction(t: TransactionView) -> Seq<u8> {
    match t {
        TransactionView::Enter(e) => enc_enter(e),
        TransactionView::Choice(c) => enc_choice(c),
        TransactionView::Reveal(r) => enc_reveal(r),
    }
}

// ---- Reading it back ----

#[verifier::opaque]
pub open spec fn u64_at(b: Seq<u8>, p: int) -> u64 {
    (b[p] as u64) | ((b[p + 1] as u64) << 8u64) | ((b[p + 2] as u64) << 16u64) | ((b[p + 3]
        as u64) << 24u64) | ((b[p + 4] as u64) << 32u64) | ((b[p + 5] as u64) << 40u64) | ((b[p
        + 6] as u64) << 48u64) | ((b[p + 7] as u64) << 56u64)
}

pub open spec fn parse_u64(b: Seq<u8>, p: int) -> Option<(u64, int)> {
    if 0 <= p && p + 8 <= b.len() {
        Some((u64_at(b, p), p + 8))
    } else {
        None
    }
}

pub open spec fn parse_bytes(b: Seq<u8>, p: int) -> Option<(Seq<u8>, int)> {
    match parse_u64(b, p) {
        Some((n, q)) => if q + n <= b.len() {
            Some((b.subrange(q, q + n), q + n))
        } else {
            None
        },
        None => None,
    }
}

pub open spec fn parse_items(b: Seq<u8>, p: int, n: nat) -> Option<(Seq<Seq<u8>>, int)>
    decreases n,
{
    if n == 0 {
        Some((Seq::empty(), p))
    } else {
        match parse_items(b, p, (n - 1) as nat) {
            Some((s, q)) => match parse_bytes(b, q) {
                Some((x, r)) => Some((s.push(x), r)),
                None => None,
            },
            None => None,
        }
    }
}

pub open spec fn parse_list(b: Seq<u8>, p: int) -> Option<(Seq<Seq<u8>>, int)> {
    match parse_u64(b, p) {
        Some((n, q)) => parse_items(b, q, n as nat),
        None => None,
    }
}

pub open spec fn proof_type_of(n: u8) -> Option<ProofType> {
    if n == 0 {
        Some(ProofType::EnterPhase)
    } else if n == 1 {
        Some(ProofType::ChoicePhase)
    } else if n == 2 {
        Some(ProofType::RevealPhase)
    } else {
        None
    }
}

pub open spec fn parse_tag(b: Seq<u8>, p: int) -> Option<(ProofType, int)> {
    if 0 <= p && p + 4 <= b.len() && b[p + 1] == 0 && b[p + 2] == 0 && b[p + 3] == 0 {
        match proof_type_of(b[p]) {
            Some(t) => Some((t, p + 4)),
            None => None,
        }
    } else {
        None
    }
}


pub open spec fn parse_proof(b: Seq<u8>, p: int) -> Option<(ProofView, int)> {
    match parse_bytes(b, p) {
        Some((data, q)) => match parse_list(b, q) {
            Some((inputs, r)) => match parse_tag(b, r) {
                Some((t, e)) => Some((ProofView { proof_data: data, public_inputs: inputs, proof_type: t }, e)),
                None => None,
            },
            None => None,
        },
        None => None,
    }
}

pub open spec fn parse_enter(b: Seq<u8>, p: int) -> Option<(EnterView, int)> {
    match parse_bytes(b, p) {
        Some((pk, q)) => match parse_proof(b, q) {
            Some((zk, r)) => match parse_u64(b, r) {
                Some((ts, e)) => Some((EnterView { public_key: pk, zk_proof: zk, timestamp: ts }, e)),
                None => None,
            },
            None => None,
        },
        None => None,
    }
}

pub open spec fn parse_choice(b: Seq<u8>, p: int) -> Option<(ChoiceView, int)> {
    match parse_bytes(b, p) {
        Some((chosen, q)) => match parse_bytes(b, q) {
            Some((dh, r)) => match parse_proof(b, r) {
                Some((zk, s)) => match parse_u64(b, s) {
                    Some((ts, e)) => Some((ChoiceView {
                        chosen_public_key: chosen,
                        chooser_dh_public_key: dh,
                        zk_proof: zk,
                        timestamp: ts,
                    }, e)),
                    None => None,
                },
                None => None,
            },
            None => None,
        },
        None => None,
    }
}

pub open spec fn parse_reveal(b: Seq<u8>, p: int) -> Option<(RevealView, int)> {
    match parse_bytes(b, p) {
        Some((pk, q)) => match parse_bytes(b, q) {
            Some((enc, r)) => match parse_bytes(b, r) {
                Some((dh, s)) => match parse_bytes(b, s) {
                    Some((sig, t)) => match parse_u64(b, t) {
                        Some((ts, e)) => Some((RevealView {
                            public_key: pk,
                            encrypted_identity: enc,
                            dh_public_key: dh,
                            signature: sig,
                            timestamp: ts,
                        }, e)),
                        None => None,
                    },
                    None => None,
                },
                None => None,
            },
            None => None,
        },
        None => None,
    }
}

/// Reads a whole record of the given kind; bytes left over are refused.
pub open spec fn parse_transaction(kind: RecordType, b: Seq<u8>) -> Option<TransactionView> {
    match kind {
        RecordType::EnterTransaction => match parse_enter(b, 0) {
            Some((t, e)) => if e == b.len() {
                Some(TransactionView::Enter(t))
            } else {
                None
            },
            None => None,
        },
        RecordType::ChoiceTransaction => match parse_choice(b, 0) {
            Some((t, e)) => if e == b.len() {
                Some(TransactionView::Choice(t))
            } else {
                None
            },
            None => None,
        },
        RecordType::RevealTransaction => match parse_reveal(b, 0) {
            Some((t, e)) => if e == b.len() {
                Some(TransactionView::Reveal(t))
            } else {
                None
            },
            None => None,
        },
    }
}

// ---- Sizes that the encoding can hold ----

pub open spec fn fits(x: Seq<u8>) -> bool {
    x.len() <= u64::MAX
}

pub open spec fn items_fit(s: Seq<Seq<u8>>) -> bool {
    s.len() <= u64::MAX && forall|i: int| 0 <= i < s.len() ==> fits(#[trigger] s[i])
}

pub open spec fn proof_fits(p: ProofView) -> bool {
    fits(p.proof_data) && items_fit(p.public_inputs)
}

/// Every length in the transaction fits in the `u64` that encodes it.
pub open spec fn transaction_fits(t: TransactionView) -> bool {
    match t {
        TransactionView::Enter(e) => fits(e.public_key) && proof_fits(e.zk_proof),
        TransactionView::Choice(c) => fits(c.chosen_public_key) && fits(c.chooser_dh_public_key)
            && proof_fits(c.zk_proof),
        TransactionView::Reveal(r) => fits(r.public_key) && fits(r.encrypted_identity) && fits(
            r.dh_public_key,
        ) && fits(r.signature),
    }
}

// ---- Low-level lemmas ----

/// `x` stands in `b` at position `p`.
pub open spec fn at(b: Seq<u8>, p: int, x: Seq<u8>) -> bool {
    0 <= p && p + x.len() <= b.len() && b.subrange(p, p + x.len()) == x
}

proof fn lemma_split(b: Seq<u8>, p: int, x: Seq<u8>, y: Seq<u8>)
    requires
        at(b, p, x + y),
    ensures
        at(b, p, x),
        at(b, p + x.len(), y),
{
    let w = b.subrange(p, p + x.len() + y.len());
    assert(w == x + y);
    assert(b.subrange(p, p + x.len()) =~= w.subrange(0, x.len() as int));
    assert(w.subrange(0, x.len() as int) =~= x);
    assert(b.subrange(p + x.len(), p + x.len() + y.len()) =~= w.subrange(
        x.len() as int,
        w.len() as int,
    ));
    assert(w.subrange(x.len() as int, w.len() as int) =~= y);
}

proof fn lemma_le64_roundtrip(v: u64)
    ensures
        u64_at(le64(v), 0) == v,
{
    reveal(u64_at);
    assert(((v as u8) as u64) | ((((v >> 8u64) as u8) as u64) << 8u64) | ((((v >> 16u64) as u8)
        as u64) << 16u64) | ((((v >> 24u64) as u8) as u64) << 24u64) | ((((v >> 32u64) as u8)
        as u64) << 32u64) | ((((v >> 40u64) as u8) as u64) << 40u64) | ((((v >> 48u64) as u8)
        as u64) << 48u64) | ((((v >> 56u64) as u8) as u64) << 56u64) == v) by (bit_vector);
}

proof fn lemma_parse_u64(b: Seq<u8>, p: int, v: u64)
    requires
        at(b, p, le64(v)),
    ensures
        parse_u64(b, p) == Some((v, p + 8)),
{
    lemma_le64_roundtrip(v);
    let x = le64(v);
    assert forall|i: int| 0 <= i < 8 implies b[p + i] == x[i] by {
        assert(b.subrange(p, p + 8)[i] == b[p + i]);
    }
    reveal(u64_at);
    assert(u64_at(b, p) == u64_at(x, 0));
}

proof fn lemma_parse_bytes(b: Seq<u8>, p: int, x: Seq<u8>)
    requires
        at(b, p, enc_bytes(x)),
        x.len() <= u64::MAX,
    ensures
        parse_bytes(b, p) == Some((x, p + enc_bytes(x).len())),
{
    lemma_split(b, p, le64(x.len() as u64), x);
    lemma_parse_u64(b, p, x.len() as u64);
}


proof fn lemma_parse_items(b: Seq<u8>, p: int, s: Seq<Seq<u8>>)
    requires
        at(b, p, enc_items(s)),
        items_fit(s),
    ensures
        parse_items(b, p, s.len()) == Some((s, p + enc_items(s).len())),
    decreases s.len(),
{
    if s.len() > 0 {
        let init = s.drop_last();
        lemma_split(b, p, enc_items(init), enc_bytes(s.last()));
        assert forall|i: int| 0 <= i < init.len() implies fits(#[trigger] init[i]) by {
            assert(init[i] == s[i]);
        }
        lemma_parse_items(b, p, init);
        assert(fits(s[s.len() - 1]));
        lemma_parse_bytes(b, p + enc_items(init).len(), s.last());
        assert(init.push(s.last()) =~= s);
    }
}

proof fn lemma_parse_list(b: Seq<u8>, p: int, s: Seq<Seq<u8>>)
    requires
        at(b, p, enc_list(s)),
        items_fit(s),
    ensures
        parse_list(b, p) == Some((s, p + enc_list(s).len())),
{
    lemma_split(b, p, le64(s.len() as u64), enc_items(s));
    lemma_parse_u64(b, p, s.len() as u64);
    lemma_parse_items(b, p + 8, s);
}

proof fn lemma_parse_tag(b: Seq<u8>, p: int, t: ProofType)
    requires
        at(b, p, enc_tag(t)),
    ensures
        parse_tag(b, p) == Some((t, p + 4)),
{
    assert forall|i: int| 0 <= i < 4 implies b[p + i] == enc_tag(t)[i] by {
        assert(b.subrange(p, p + 4)[i] == b[p + i]);
    }
}

proof fn lemma_parse_proof(b: Seq<u8>, p: int, v: ProofView)
    requires
        at(b, p, enc_proof(v)),
        proof_fits(v),
    ensures
        parse_proof(b, p) == Some((v, p + enc_proof(v).len())),
{
    let x = enc_bytes(v.proof_data);
    let y = enc_list(v.public_inputs);
    lemma_split(b, p, x + y, enc_tag(v.proof_type));
    lemma_split(b, p, x, y);
    lemma_parse_bytes(b, p, v.proof_data);
    lemma_parse_list(b, p + x.len(), v.public_inputs);
    lemma_parse_tag(b, p + x.len() + y.len(), v.proof_type);
}

proof fn lemma_parse_enter(b: Seq<u8>, v: EnterView)
    requires
        b == enc_enter(v),
        fits(v.public_key),
        proof_fits(v.zk_proof),
    ensures
        parse_enter(b, 0) == Some((v, b.len() as int)),
{
    let x = enc_bytes(v.public_key);
    let y = enc_proof(v.zk_proof);
    assert(b.subrange(0, b.len() as int) =~= b);
    lemma_split(b, 0, x + y, le64(v.timestamp));
    lemma_split(b, 0, x, y);
    lemma_parse_bytes(b, 0, v.public_key);
    lemma_parse_proof(b, x.len() as int, v.zk_proof);
    lemma_parse_u64(b, (x.len() + y.len()) as int, v.timestamp);
}

proof fn lemma_parse_choice(b: Seq<u8>, v: ChoiceView)
    requires
        b == enc_choice(v),
        fits(v.chosen_public_key),
        fits(v.chooser_dh_public_key),
        proof_fits(v.zk_proof),
    ensures
        parse_choice(b, 0) == Some((v, b.len() as int)),
{
    let x = enc_bytes(v.chosen_public_key);
    let y = enc_bytes(v.chooser_dh_public_key);
    let z = enc_proof(v.zk_proof);
    assert(b.subrange(0, b.len() as int) =~= b);
    lemma_split(b, 0, x + y + z, le64(v.timestamp));
    lemma_split(b, 0, x + y, z);
    lemma_split(b, 0, x, y);
    lemma_parse_bytes(b, 0, v.chosen_public_key);
    lemma_parse_bytes(b, x.len() as int, v.chooser_dh_public_key);
    lemma_parse_proof(b, (x.len() + y.len()) as int, v.zk_proof);
    lemma_parse_u64(b, (x.len() + y.len() + z.len()) as int, v.timestamp);
}

proof fn lemma_parse_reveal(b: Seq<u8>, v: RevealView)
    requires
        b == enc_reveal(v),
        fits(v.public_key),
        fits(v.encrypted_identity),
        fits(v.dh_public_key),
        fits(v.signature),
    ensures
        parse_reveal(b, 0) == Some((v, b.len() as int)),
{
    let x = enc_bytes(v.public_key);
    let y = enc_bytes(v.encrypted_identity);
    let z = enc_bytes(v.dh_public_key);
    let w = enc_bytes(v.signature);
    assert(b.subrange(0, b.len() as int) =~= b);
    lemma_split(b, 0, x + y + z + w, le64(v.timestamp));
    lemma_split(b, 0, x + y + z, w);
    lemma_split(b, 0, x + y, z);
    lemma_split(b, 0, x, y);
    lemma_parse_bytes(b, 0, v.public_key);
    lemma_parse_bytes(b, x.len() as int, v.encrypted_identity);
    lemma_parse_bytes(b, (x.len() + y.len()) as int, v.dh_public_key);
    lemma_parse_bytes(b, (x.len() + y.len() + z.len()) as int, v.signature);
    lemma_parse_u64(b, (x.len() + y.len() + z.len() + w.len()) as int, v.timestamp);
}

/// What `encode` writes, `decode` reads back under the transaction's own
/// record kind: decoding an encoded transaction gives the transaction again.
pub proof fn lemma_decode_encode(t: TransactionView)
    requires
        transaction_fits(t),
    ensures
        parse_transaction(kind_of(t), enc_transaction(t)) == Some(t),
{
    match t {
        TransactionView::Enter(e) => lemma_parse_enter(enc_enter(e), e),
        TransactionView::Choice(c) => lemma_parse_choice(enc_choice(c), c),
        TransactionView::Reveal(r) => lemma_parse_reveal(enc_reveal(r), r),
    }
}



// ---- What is read back was written so ----

proof fn lemma_join(b: Seq<u8>, p: int, x: Seq<u8>, y: Seq<u8>)
    requires
        at(b, p, x),
        at(b, p + x.len(), y),
    ensures
        at(b, p, x + y),
{
    assert(b.subrange(p, p + x.len() + y.len()) =~= b.subrange(p, p + x.len()) + b.subrange(
        p + x.len(),
        p + x.len() + y.len(),
    ));
}

proof fn lemma_u64_sound(b: Seq<u8>, p: int)
    requires
        parse_u64(b, p) is Some,
    ensures
        at(b, p, le64((parse_u64(b, p)->0).0)),
        (parse_u64(b, p)->0).1 == p + 8,
{
    reveal(u64_at);
    let (b0, b1, b2, b3, b4, b5, b6, b7) = (b[p], b[p + 1], b[p + 2], b[p + 3], b[p + 4], b[p
        + 5], b[p + 6], b[p + 7]);
    let v = u64_at(b, p);
    assert(v == (b0 as u64) | ((b1 as u64) << 8u64) | ((b2 as u64) << 16u64) | ((b3 as u64)
        << 24u64) | ((b4 as u64) << 32u64) | ((b5 as u64) << 40u64) | ((b6 as u64) << 48u64) | ((
    b7 as u64) << 56u64));
    assert(v as u8 == b0 && (v >> 8u64) as u8 == b1 && (v >> 16u64) as u8 == b2 && (v >> 24u64)
        as u8 == b3 && (v >> 32u64) as u8 == b4 && (v >> 40u64) as u8 == b5 && (v >> 48u64) as u8
        == b6 && (v >> 56u64) as u8 == b7) by (bit_vector)
        requires
            v == (b0 as u64) | ((b1 as u64) << 8u64) | ((b2 as u64) << 16u64) | ((b3 as u64)
                << 24u64) | ((b4 as u64) << 32u64) | ((b5 as u64) << 40u64) | ((b6 as u64)
                << 48u64) | ((b7 as u64) << 56u64),
    ;
    assert(b.subrange(p, p + 8) =~= le64(v));
}

proof fn lemma_bytes_sound(b: Seq<u8>, p: int)
    requires
        parse_bytes(b, p) is Some,
    ensures
        at(b, p, enc_bytes((parse_bytes(b, p)->0).0)),
        (parse_bytes(b, p)->0).1 == p + enc_bytes((parse_bytes(b, p)->0).0).len(),
        fits((parse_bytes(b, p)->0).0),
{
    lemma_u64_sound(b, p);
    let x = (parse_bytes(b, p)->0).0;
    assert(x.len() as u64 == (parse_u64(b, p)->0).0);
    assert(at(b, p + 8, x));
    lemma_join(b, p, le64(x.len() as u64), x);
}

proof fn lemma_items_sound(b: Seq<u8>, p: int, n: nat)
    requires
        parse_items(b, p, n) is Some,
        0 <= p <= b.len(),
    ensures
        at(b, p, enc_items((parse_items(b, p, n)->0).0)),
        (parse_items(b, p, n)->0).1 == p + enc_items((parse_items(b, p, n)->0).0).len(),
        (parse_items(b, p, n)->0).0.len() == n,
        forall|i: int|
            0 <= i < n ==> fits(#[trigger] (parse_items(b, p, n)->0).0[i]),
    decreases n,
{
    if n == 0 {
        assert(b.subrange(p, p) =~= Seq::<u8>::empty());
    } else {
        lemma_items_sound(b, p, (n - 1) as nat);
        let (s, q) = parse_items(b, p, (n - 1) as nat)->0;
        lemma_bytes_sound(b, q);
        let x = (parse_bytes(b, q)->0).0;
        let t = s.push(x);
        assert(t.drop_last() =~= s);
        lemma_join(b, p, enc_items(s), enc_bytes(x));
        assert forall|i: int| 0 <= i < n implies fits(#[trigger] t[i]) by {
            if i < n - 1 {
                assert(t[i] == s[i]);
            }
        }
    }
}

proof fn lemma_list_sound(b: Seq<u8>, p: int)
    requires
        parse_list(b, p) is Some,
    ensures
        at(b, p, enc_list((parse_list(b, p)->0).0)),
        (parse_list(b, p)->0).1 == p + enc_list((parse_list(b, p)->0).0).len(),
        items_fit((parse_list(b, p)->0).0),
{
    lemma_u64_sound(b, p);
    let n = (parse_u64(b, p)->0).0;
    lemma_items_sound(b, p + 8, n as nat);
    let s = (parse_list(b, p)->0).0;
    assert(s.len() as u64 == n);
    lemma_join(b, p, le64(n), enc_items(s));
}

proof fn lemma_tag_sound(b: Seq<u8>, p: int)
    requires
        parse_tag(b, p) is Some,
    ensures
        at(b, p, enc_tag((parse_tag(b, p)->0).0)),
        (parse_tag(b, p)->0).1 == p + 4,
{
    assert(b.subrange(p, p + 4) =~= enc_tag((parse_tag(b, p)->0).0));
}

proof fn lemma_proof_sound(b: Seq<u8>, p: int)
    requires
        parse_proof(b, p) is Some,
    ensures
        at(b, p, enc_proof((parse_proof(b, p)->0).0)),
        (parse_proof(b, p)->0).1 == p + enc_proof((parse_proof(b, p)->0).0).len(),
        proof_fits((parse_proof(b, p)->0).0),
{
    lemma_bytes_sound(b, p);
    let (data, q) = parse_bytes(b, p)->0;
    lemma_list_sound(b, q);
    let (inputs, r) = parse_list(b, q)->0;
    lemma_tag_sound(b, r);
    let t = (parse_tag(b, r)->0).0;
    lemma_join(b, p, enc_bytes(data), enc_list(inputs));
    lemma_join(b, p, enc_bytes(data) + enc_list(inputs), enc_tag(t));
}

proof fn lemma_enter_sound(b: Seq<u8>)
    requires
        parse_enter(b, 0) is Some,
    ensures
        at(b, 0, enc_enter((parse_enter(b, 0)->0).0)),
        (parse_enter(b, 0)->0).1 == enc_enter((parse_enter(b, 0)->0).0).len(),
        fits((parse_enter(b, 0)->0).0.public_key),
        proof_fits((parse_enter(b, 0)->0).0.zk_proof),
{
    lemma_bytes_sound(b, 0);
    let (pk, q) = parse_bytes(b, 0)->0;
    lemma_proof_sound(b, q);
    let (zk, r) = parse_proof(b, q)->0;
    lemma_u64_sound(b, r);
    let ts = (parse_u64(b, r)->0).0;
    lemma_join(b, 0, enc_bytes(pk), enc_proof(zk));
    lemma_join(b, 0, enc_bytes(pk) + enc_proof(zk), le64(ts));
}

proof fn lemma_choice_sound(b: Seq<u8>)
    requires
        parse_choice(b, 0) is Some,
    ensures
        at(b, 0, enc_choice((parse_choice(b, 0)->0).0)),
        (parse_choice(b, 0)->0).1 == enc_choice((parse_choice(b, 0)->0).0).len(),
        fits((parse_choice(b, 0)->0).0.chosen_public_key),
        fits((parse_choice(b, 0)->0).0.chooser_dh_public_key),
        proof_fits((parse_choice(b, 0)->0).0.zk_proof),
{
    lemma_bytes_sound(b, 0);
    let (chosen, q) = parse_bytes(b, 0)->0;
    lemma_bytes_sound(b, q);
    let (dh, r) = parse_bytes(b, q)->0;
    lemma_proof_sound(b, r);
    let (zk, s) = parse_proof(b, r)->0;
    lemma_u64_sound(b, s);
    let ts = (parse_u64(b, s)->0).0;
    lemma_join(b, 0, enc_bytes(chosen), enc_bytes(dh));
    lemma_join(b, 0, enc_bytes(chosen) + enc_bytes(dh), enc_proof(zk));
    lemma_join(b, 0, enc_bytes(chosen) + enc_bytes(dh) + enc_proof(zk), le64(ts));
}

proof fn lemma_reveal_sound(b: Seq<u8>)
    requires
        parse_reveal(b, 0) is Some,
    ensures
        at(b, 0, enc_reveal((parse_reveal(b, 0)->0).0)),
        (parse_reveal(b, 0)->0).1 == enc_reveal((parse_reveal(b, 0)->0).0).len(),
{
    lemma_bytes_sound(b, 0);
    let (pk, q) = parse_bytes(b, 0)->0;
    lemma_bytes_sound(b, q);
    let (enc, r) = parse_bytes(b, q)->0;
    lemma_bytes_sound(b, r);
    let (dh, s) = parse_bytes(b, r)->0;
    lemma_bytes_sound(b, s);
    let (sig, t) = parse_bytes(b, s)->0;
    lemma_u64_sound(b, t);
    let ts = (parse_u64(b, t)->0).0;
    lemma_join(b, 0, enc_bytes(pk), enc_bytes(enc));
    lemma_join(b, 0, enc_bytes(pk) + enc_bytes(enc), enc_bytes(dh));
    lemma_join(b, 0, enc_bytes(pk) + enc_bytes(enc) + enc_bytes(dh), enc_bytes(sig));
    lemma_join(b, 0, enc_bytes(pk) + enc_bytes(enc) + enc_bytes(dh) + enc_bytes(sig), le64(ts));
}

/// A record that reads back as a transaction is exactly that transaction's
/// encoding: the encoding is canonical.
pub proof fn lemma_parse_canonical(kind: RecordType, b: Seq<u8>)
    requires
        parse_transaction(kind, b) is Some,
    ensures
        enc_transaction(parse_transaction(kind, b)->0) == b,
        kind_of(parse_transaction(kind, b)->0) == kind,
{
    let t = parse_transaction(kind, b)->0;
    match kind {
        RecordType::EnterTransaction => lemma_enter_sound(b),
        RecordType::ChoiceTransaction => lemma_choice_sound(b),
        RecordType::RevealTransaction => lemma_reveal_sound(b),
    }
    assert(b.subrange(0, b.len() as int) =~= b);
}

// ---- Writing ----

fn put_u64(out: &mut Vec<u8>, v: u64)
    ensures
        final(out)@ == old(out)@ + le64(v),
{
    out.push(v as u8);
    out.push((v >> 8u64) as u8);
    out.push((v >> 16u64) as u8);
    out.push((v >> 24u64) as u8);
    out.push((v >> 32u64) as u8);
    out.push((v >> 40u64) as u8);
    out.push((v >> 48u64) as u8);
    out.push((v >> 56u64) as u8);
    assert(out@ =~= old(out)@ + le64(v));
}

fn put_bytes(out: &mut Vec<u8>, x: &[u8])
    ensures
        final(out)@ == old(out)@ + enc_bytes(x@),
        fits(x@),
{
    let n = x.len();
    put_u64(out, n as u64);
    append_bytes(out, x);
    assert(out@ =~= old(out)@ + enc_bytes(x@));
}

fn put_list(out: &mut Vec<u8>, s: &Vec<Vec<u8>>)
    ensures
        final(out)@ == old(out)@ + enc_list(s@.map_values(|v: Vec<u8>| v@)),
        items_fit(s@.map_values(|v: Vec<u8>| v@)),
{
    let ghost views = s@.map_values(|v: Vec<u8>| v@);
    let n = s.len();
    put_u64(out, n as u64);
    let ghost start = out@;
    let mut i: usize = 0;
    while i < s.len()
        invariant
            i <= s@.len(),
            views == s@.map_values(|v: Vec<u8>| v@),
            out@ == start + enc_items(views.subrange(0, i as int)),
            start == old(out)@ + le64(s@.len() as u64),
            forall|j: int| 0 <= j < i ==> fits(#[trigger] views[j]),
        decreases s@.len() - i,
    {
        put_bytes(out, s[i].as_slice());
        let ghost pre = views.subrange(0, i as int);
        let ghost post = views.subrange(0, i + 1);
        assert(post.drop_last() =~= pre);
        assert(post.last() == s@[i as int]@);
        assert(out@ =~= start + enc_items(post));
        i = i + 1;
    }
    assert(views.subrange(0, s@.len() as int) =~= views);
    assert(out@ =~= old(out)@ + enc_list(views));
}

fn put_tag(out: &mut Vec<u8>, t: ProofType)
    ensures
        final(out)@ == old(out)@ + enc_tag(t),
{
    let n: u8 = match t {
        ProofType::EnterPhase => 0,
        ProofType::ChoicePhase => 1,
        ProofType::RevealPhase => 2,
    };
    out.push(n);
    out.push(0);
    out.push(0);
    out.push(0);
    assert(out@ =~= old(out)@ + enc_tag(t));
}

fn put_proof(out: &mut Vec<u8>, p: &ZKProof)
    ensures
        final(out)@ == old(out)@ + enc_proof(p@),
        proof_fits(p@),
{
    put_bytes(out, p.proof_data.as_slice());
    put_list(out, &p.public_inputs);
    put_tag(out, p.proof_type);
    assert(out@ =~= old(out)@ + enc_proof(p@));
}

/// Encodes a transaction in the canonical form kept by the record store.
pub fn encode(t: &Transaction) -> (r: Vec<u8>)
    ensures
        r@ == enc_transaction(t@),
        transaction_fits(t@),
{
    let mut out: Vec<u8> = Vec::new();
    match t {
        Transaction::Enter(e) => {
            put_bytes(&mut out, e.public_key.as_slice());
            put_proof(&mut out, &e.zk_proof);
            put_u64(&mut out, e.timestamp);
            assert(out@ =~= enc_enter(e@));
        },
        Transaction::Choice(c) => {
            put_bytes(&mut out, c.chosen_public_key.as_slice());
            put_bytes(&mut out, c.chooser_dh_public_key.as_slice());
            put_proof(&mut out, &c.zk_proof);
            put_u64(&mut out, c.timestamp);
            assert(out@ =~= enc_choice(c@));
        },
        Transaction::Reveal(v) => {
            put_bytes(&mut out, v.public_key.as_slice());
            put_bytes(&mut out, v.encrypted_identity.as_slice());
            put_bytes(&mut out, v.dh_public_key.as_slice());
            put_bytes(&mut out, v.signature.as_slice());
            put_u64(&mut out, v.timestamp);
            assert(out@ =~= enc_reveal(v@));
        },
    }
    out
}

// ---- Reading ----

fn get_u64(b: &[u8], p: usize) -> (r: Option<(u64, usize)>)
    ensures
        match r {
            Some((v, q)) => parse_u64(b@, p as int) == Some((v, q as int)),
            None => parse_u64(b@, p as int) is None,
        },
{
    if p > b.len() || b.len() - p < 8 {
        return None;
    }
    let v: u64 = (b[p] as u64) | ((b[p + 1] as u64) << 8u64) | ((b[p + 2] as u64) << 16u64) | ((
    b[p + 3] as u64) << 24u64) | ((b[p + 4] as u64) << 32u64) | ((b[p + 5] as u64) << 40u64) | ((b[p
        + 6] as u64) << 48u64) | ((b[p + 7] as u64) << 56u64);
    proof {
        reveal(u64_at);
    }
    Some((v, p + 8))
}

fn copy_range(b: &[u8], from: usize, to: usize) -> (r: Vec<u8>)
    requires
        from <= to <= b@.len(),
    ensures
        r@ == b@.subrange(from as int, to as int),
{
    let mut out: Vec<u8> = Vec::new();
    let mut i: usize = from;
    while i < to
        invariant
            from <= i <= to,
            to <= b@.len(),
            out@ =~= b@.subrange(from as int, i as int),
        decreases to - i,
    {
        out.push(b[i]);
        i = i + 1;
    }
    out
}

fn get_bytes(b: &[u8], p: usize) -> (r: Option<(Vec<u8>, usize)>)
    ensures
        match r {
            Some((x, q)) => parse_bytes(b@, p as int) == Some((x@, q as int)),
            None => parse_bytes(b@, p as int) is None,
        },
{
    match get_u64(b, p) {
        None => None,
        Some((n, q)) => {
            if n > (b.len() - q) as u64 {
                return None;
            }
            let e = q + n as usize;
            Some((copy_range(b, q, e), e))
        },
    }
}

fn get_list(b: &[u8], p: usize) -> (r: Option<(Vec<Vec<u8>>, usize)>)
    ensures
        match r {
            Some((s, q)) => parse_list(b@, p as int) == Some(
                (s@.map_values(|v: Vec<u8>| v@), q as int),
            ),
            None => parse_list(b@, p as int) is None,
        },
{
    match get_u64(b, p) {
        None => None,
        Some((n, q)) => {
            let mut out: Vec<Vec<u8>> = Vec::new();
            let mut pos: usize = q;
            let mut i: u64 = 0;
            while i < n
                invariant
                    i <= n,
                    parse_u64(b@, p as int) == Some((n, q as int)),
                    parse_items(b@, q as int, i as nat) == Some(
                        (out@.map_values(|v: Vec<u8>| v@), pos as int),
                    ),
                decreases n - i,
            {
                match get_bytes(b, pos) {
                    None => {
                        proof {
                            lemma_items_stop(b@, q as int, (i + 1) as nat, n as nat);
                        }
                        return None;
                    },
                    Some((x, e)) => {
                        let ghost before = out@.map_values(|v: Vec<u8>| v@);
                        out.push(x);
                        assert(out@.map_values(|v: Vec<u8>| v@) =~= before.push(x@));
                        pos = e;
                    },
                }
                i = i + 1;
            }
            Some((out, pos))
        },
    }
}

/// Once an item cannot be read, neither can any longer list.
proof fn lemma_items_stop(b: Seq<u8>, p: int, k: nat, n: nat)
    requires
        1 <= k <= n,
        parse_items(b, p, k) is None,
    ensures
        parse_items(b, p, n) is None,
    decreases n - k,
{
    if k < n {
        lemma_items_stop(b, p, k + 1, n);
    }
}

fn get_tag(b: &[u8], p: usize) -> (r: Option<(ProofType, usize)>)
    ensures
        match r {
            Some((t, q)) => parse_tag(b@, p as int) == Some((t, q as int)),
            None => parse_tag(b@, p as int) is None,
        },
{
    if p > b.len() || b.len() - p < 4 {
        return None;
    }
    if b[p + 1] != 0 || b[p + 2] != 0 || b[p + 3] != 0 {
        return None;
    }
    let t = if b[p] == 0 {
        ProofType::EnterPhase
    } else if b[p] == 1 {
        ProofType::ChoicePhase
    } else if b[p] == 2 {
        ProofType::RevealPhase
    } else {
        return None;
    };
    Some((t, p + 4))
}

fn get_proof(b: &[u8], p: usize) -> (r: Option<(ZKProof, usize)>)
    ensures
        match r {
            Some((v, q)) => parse_proof(b@, p as int) == Some((v@, q as int)),
            None => parse_proof(b@, p as int) is None,
        },
{
    let (data, q) = match get_bytes(b, p) {
        Some(x) => x,
        None => return None,
    };
    let (inputs, r) = match get_list(b, q) {
        Some(x) => x,
        None => return None,
    };
    let (t, e) = match get_tag(b, r) {
        Some(x) => x,
        None => return None,
    };
    Some((ZKProof { proof_data: data, public_inputs: inputs, proof_type: t }, e))
}


fn get_enter(b: &[u8]) -> (r: Option<(EnterTransaction, usize)>)
    ensures
        match r {
            Some((v, q)) => parse_enter(b@, 0) == Some((v@, q as int)),
            None => parse_enter(b@, 0) is None,
        },
{
    let (pk, q) = match get_bytes(b, 0) {
        Some(x) => x,
        None => return None,
    };
    let (zk, r) = match get_proof(b, q) {
        Some(x) => x,
        None => return None,
    };
    let (ts, e) = match get_u64(b, r) {
        Some(x) => x,
        None => return None,
    };
    Some((EnterTransaction { public_key: pk, zk_proof: zk, timestamp: ts }, e))
}

fn get_choice(b: &[u8]) -> (r: Option<(ChoiceTransaction, usize)>)
    ensures
        match r {
            Some((v, q)) => parse_choice(b@, 0) == Some((v@, q as int)),
            None => parse_choice(b@, 0) is None,
        },
{
    let (chosen, q) = match get_bytes(b, 0) {
        Some(x) => x,
        None => return None,
    };
    let (dh, r) = match get_bytes(b, q) {
        Some(x) => x,
        None => return None,
    };
    let (zk, s) = match get_proof(b, r) {
        Some(x) => x,
        None => return None,
    };
    let (ts, e) = match get_u64(b, s) {
        Some(x) => x,
        None => return None,
    };
    Some(
        (
            ChoiceTransaction {
                chosen_public_key: chosen,
                chooser_dh_public_key: dh,
                zk_proof: zk,
                timestamp: ts,
            },
            e,
        ),
    )
}

fn get_reveal(b: &[u8]) -> (r: Option<(RevealTransaction, usize)>)
    ensures
        match r {
            Some((v, q)) => parse_reveal(b@, 0) == Some((v@, q as int)),
            None => parse_reveal(b@, 0) is None,
        },
{
    let (pk, q) = match get_bytes(b, 0) {
        Some(x) => x,
        None => return None,
    };
    let (enc, r) = match get_bytes(b, q) {
        Some(x) => x,
        None => return None,
    };
    let (dh, s) = match get_bytes(b, r) {
        Some(x) => x,
        None => return None,
    };
    let (sig, t) = match get_bytes(b, s) {
        Some(x) => x,
        None => return None,
    };
    let (ts, e) = match get_u64(b, t) {
        Some(x) => x,
        None => return None,
    };
    Some(
        (
            RevealTransaction {
                public_key: pk,
                encrypted_identity: enc,
                dh_public_key: dh,
                signature: sig,
                timestamp: ts,
            },
            e,
        ),
    )
}

/// Decodes a record of the given kind. Bytes that are not the encoding of a
/// transaction of that kind, truncated or with bytes left over, are refused
/// with `SerializationError`.
pub fn decode(kind: RecordType, b: &[u8]) -> (r: Result<Transaction, Error>)
    ensures
        match r {
            Ok(t) => parse_transaction(kind, b@) == Some(t@) && kind_of(t@) == kind
                && enc_transaction(t@) == b@,
            Err(e) => e == Error::SerializationError && parse_transaction(kind, b@) is None
                && forall|t: TransactionView|
                transaction_fits(t) && kind_of(t) == kind ==> enc_transaction(t) != b@,
        },
{
    let r = match kind {
        RecordType::EnterTransaction => match get_enter(b) {
            Some((t, e)) if e == b.len() => Ok(Transaction::Enter(t)),
            _ => Err(Error::SerializationError),
        },
        RecordType::ChoiceTransaction => match get_choice(b) {
            Some((t, e)) if e == b.len() => Ok(Transaction::Choice(t)),
            _ => Err(Error::SerializationError),
        },
        RecordType::RevealTransaction => match get_reveal(b) {
            Some((t, e)) if e == b.len() => Ok(Transaction::Reveal(t)),
            _ => Err(Error::SerializationError),
        },
    };
    proof {
        if r is Ok {
            lemma_parse_canonical(kind, b@);
        }
        if r is Err {
            assert forall|t: TransactionView|
                transaction_fits(t) && kind_of(t) == kind implies enc_transaction(t) != b@ by {
                if enc_transaction(t) == b@ {
                    lemma_decode_encode(t);
                }
            }
        }
    }
    r
}

} // verus!
