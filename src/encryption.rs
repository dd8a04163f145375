use vstd::prelude::*;

verus! {

/// The keystream cipher: byte `i` of the data is combined with byte
/// `i mod |key|` of the key. An empty key gives an empty result.
pub open spec fn xor_stream(data: Seq<u8>, key: Seq<u8>) -> Seq<u8> {
    if key.len() == 0 {
        Seq::empty()
    } else {
        Seq::new(data.len(), |i: int| data[i] ^ key[i % (key.len() as int)])
    }
}

/// Encrypts `data` by combining it with `key` repeated over its length.
pub fn encrypt(data: &[u8], key: &[u8]) -> (r: Vec<u8>)
    ensures
        r@ == xor_stream(data@, key@),
{
    let mut out: Vec<u8> = Vec::new();
    if key.len() == 0 {
        return out;
    }
    let mut i: usize = 0;
    while i < data.len()
        invariant
            i <= data.len(),
            key.len() > 0,
            out@ =~= Seq::new(i as nat, |j: int| data@[j] ^ key@[j % (key@.len() as int)]),
        decreases data.len() - i,
    {
        let b = data[i] ^ key[i % key.len()];
        out.push(b);
        i = i + 1;
    }
    out
}

/// Decrypts what `encrypt` produced under the same key.
pub fn decrypt(data: &[u8], key: &[u8]) -> (r: Vec<u8>)
    ensures
        r@ == xor_stream(data@, key@),
{
    encrypt(data, key)
}

/// Decrypting under the key that encrypted gives the plaintext back,
/// for every plaintext and every non-empty key.
pub proof fn lemma_decrypt_encrypt(m: Seq<u8>, key: Seq<u8>)
    requires
        key.len() > 0,
    ensures
        xor_stream(xor_stream(m, key), key) == m,
{
    let c = xor_stream(m, key);
    assert forall|i: int| 0 <= i < m.len() implies #[trigger] xor_stream(c, key)[i] == m[i] by {
        let a = m[i];
        let b = key[i % (key.len() as int)];
        assert((a ^ b) ^ b == a) by (bit_vector);
    }
    assert(xor_stream(c, key) =~= m);
}

/// A reveal round trip: what is encrypted under the secret that one side
/// of a key exchange derives decrypts, under the secret that the other side
/// derives, to the plaintext. The two secrets agree, as
/// `DHKeyExchange::compute_shared_secret` states.
pub proof fn lemma_exchange_round_trip(m: Seq<u8>, s_ab: Seq<u8>, s_ba: Seq<u8>)
    requires
        s_ab == s_ba,
        s_ab.len() > 0,
    ensures
        xor_stream(xor_stream(m, s_ab), s_ba) == m,
{
    lemma_decrypt_encrypt(m, s_ab);
}

} // verus!
