//! The proof artifact: the prover's seal, the image identifier, the journal
//! digest and the payload hash, ABI-encoded as one tuple and stored as hex.
use crate::field::zeros;
use vstd::prelude::*;

verus! {

/// One member of an ABI tuple: fixed bytes (`bytes32` and the like) or
/// dynamic `bytes`.
#[derive(Debug, Clone, PartialEq, Eq)]
pub enum AbiMember {
    FixedBytes(Vec<u8>),
    Bytes(Vec<u8>),
}

/// A member as plain values: whether it is dynamic, and its bytes.
pub open spec fn member_model(m: AbiMember) -> (bool, Seq<u8>) {
    match m {
        AbiMember::FixedBytes(b) => (false, b@),
        AbiMember::Bytes(b) => (true, b@),
    }
}

/// Bytes padded with zeros on the right to a whole number of 32-byte words.
pub open spec fn padded(b: Seq<u8>) -> Seq<u8> {
    b + zeros(((32 - b.len() % 32) % 32) as nat)
}

/// A 32-byte word holding a number below `2^32`, big-endian.
pub open spec fn abi_word(n: nat) -> Seq<u8> {
    zeros(28) + seq![
        ((n / 0x1000000) % 256) as u8,
        ((n / 0x10000) % 256) as u8,
        ((n / 0x100) % 256) as u8,
        (n % 256) as u8,
    ]
}

/// The bytes that a member takes in the head of its tuple.
pub open spec fn head_len(m: (bool, Seq<u8>)) -> nat {
    if m.0 {
        32
    } else {
        padded(m.1).len()
    }
}

/// The bytes that a member takes in the tail of its tuple.
pub open spec fn tail_len(m: (bool, Seq<u8>)) -> nat {
    if m.0 {
        32 + padded(m.1).len()
    } else {
        0
    }
}

pub open spec fn heads_len(ms: Seq<(bool, Seq<u8>)>) -> nat
    decreases ms.len(),
{
    if ms.len() == 0 {
        0
    } else {
        head_len(ms[0]) + heads_len(ms.drop_first())
    }
}

/// The heads of the members: fixed bytes in place, and for each dynamic
/// member the offset of its tail, counted from the start of the tuple.
pub open spec fn heads(ms: Seq<(bool, Seq<u8>)>, offset: nat) -> Seq<u8>
    decreases ms.len(),
{
    if ms.len() == 0 {
        Seq::empty()
    } else {
        (if ms[0].0 {
            abi_word(offset)
        } else {
            padded(ms[0].1)
        }) + heads(ms.drop_first(), offset + tail_len(ms[0]))
    }
}

/// The tails of the dynamic members: the length, then the padded bytes.
pub open spec fn tails(ms: Seq<(bool, Seq<u8>)>) -> Seq<u8>
    decreases ms.len(),
{
    if ms.len() == 0 {
        Seq::empty()
    } else {
        (if ms[0].0 {
            abi_word(ms[0].1.len()) + padded(ms[0].1)
        } else {
            Seq::empty()
        }) + tails(ms.drop_first())
    }
}

/// The ABI encoding of one tuple with these members: heads then tails; a
/// tuple with a dynamic member is itself dynamic and comes after the word
/// that gives its offset, 32.
pub open spec fn abi_tuple_encoding(members: Seq<(bool, Seq<u8>)>) -> Seq<u8> {
    let body = heads(members, heads_len(members)) + tails(members);
    if exists|i: int| 0 <= i < members.len() && (#[trigger] members[i]).0 {
        abi_word(32) + body
    } else {
        body
    }
}

/// Members small enough that every offset and length fits the 32-bit words
/// the encoder counts in.
pub open spec fn members_small(members: Seq<(bool, Seq<u8>)>) -> bool {
    members.len() <= 8 && forall|i: int|
        0 <= i < members.len() ==> (#[trigger] members[i]).1.len() < 0x1000000
}

/// Relies on `ethabi::encode` of a single `Token::Tuple` whose members are
/// `Token::FixedBytes` or `Token::Bytes` (encoder.rs: `mediate_token`,
/// `encode_head_tail_append`, `pad_bytes_append`, `fixed_bytes_append`).
#[verifier::external_body]
fn ethabi_encode_tuple(members: Vec<AbiMember>) -> (r: Vec<u8>)
    requires
        members_small(members@.map_values(|m: AbiMember| member_model(m))),
    ensures
        r@ == abi_tuple_encoding(members@.map_values(|m: AbiMember| member_model(m))),
{
    let tokens = members.into_iter().map(|m| match m {
        AbiMember::FixedBytes(b) => ethabi::Token::FixedBytes(b),
        AbiMember::Bytes(b) => ethabi::Token::Bytes(b),
    }).collect();
    ethabi::encode(&[ethabi::Token::Tuple(tokens)])
}

/// The public output of the guest program.
pub struct Output {
    pub hash: Vec<u8>,
    pub env_commitment: Vec<u8>,
    pub proof: Vec<u8>,
}

impl Output {
    /// The ABI encoding of `(bytes32 hash, bytes env_commitment, bytes proof)`.
    pub fn abi_encode(self) -> (r: Vec<u8>)
        requires
            self.hash@.len() < 0x1000000,
            self.env_commitment@.len() < 0x1000000,
            self.proof@.len() < 0x1000000,
        ensures
            r@ == abi_tuple_encoding(
                seq![(false, self.hash@), (true, self.env_commitment@), (true, self.proof@)],
            ),
    {
        let ghost h = self.hash@;
        let ghost e = self.env_commitment@;
        let ghost p = self.proof@;
        let members = vec![
            AbiMember::FixedBytes(self.hash),
            AbiMember::Bytes(self.env_commitment),
            AbiMember::Bytes(self.proof),
        ];
        assert(members@.map_values(|m: AbiMember| member_model(m)) =~= seq![
            (false, h),
            (true, e),
            (true, p),
        ]);
        let r = ethabi_encode_tuple(members);
        r
    }
}

/// Why no artifact could be made.
#[derive(Debug, Clone, Copy, PartialEq, Eq, Structural)]
pub enum ArtifactError {
    /// The verifier parameters of the receipt are shorter than a selector.
    VerifierParametersTooShort,
}

/// The proof bytes of a receipt: for a Groth16 receipt, the four-byte
/// selector taken from its verifier parameters followed by its seal; for any
/// other receipt, four zero bytes.
pub fn block_proof_bytes(groth16: Option<(&[u8], &[u8])>) -> (r: Result<Vec<u8>, ArtifactError>)
    ensures
        groth16 is None ==> r is Ok && r->Ok_0@ == seq![0u8, 0u8, 0u8, 0u8],
        groth16 is Some && groth16->Some_0.0@.len() < 4 ==> r is Err && r->Err_0
            == ArtifactError::VerifierParametersTooShort,
        groth16 is Some && groth16->Some_0.0@.len() >= 4 ==> r is Ok && r->Ok_0@
            == groth16->Some_0.0@.subrange(0, 4) + groth16->Some_0.1@,
{
    match groth16 {
        None => {
            let r = vec![0u8; 4];
            assert(r@ =~= seq![0u8, 0u8, 0u8, 0u8]);
            Ok(r)
        },
        Some((parameters, seal)) => {
            if parameters.len() < 4 {
                return Err(ArtifactError::VerifierParametersTooShort);
            }
            let mut out: Vec<u8> = Vec::new();
            let mut i: usize = 0;
            while i < 4
                invariant
                    i <= 4,
                    parameters@.len() >= 4,
                    out@ == parameters@.subrange(0, i as int),
                decreases 4 - i,
            {
                out.push(parameters[i]);
                i = i + 1;
                assert(out@ =~= parameters@.subrange(0, i as int));
            }
            let mut j: usize = 0;
            while j < seal.len()
                invariant
                    j <= seal@.len(),
                    out@ == parameters@.subrange(0, 4) + seal@.subrange(0, j as int),
                decreases seal@.len() - j,
            {
                out.push(seal[j]);
                j = j + 1;
                assert(out@ =~= parameters@.subrange(0, 4) + seal@.subrange(0, j as int));
            }
            assert(seal@.subrange(0, seal@.len() as int) =~= seal@);
            Ok(out)
        },
    }
}

/// The artifact of one request: the tuple `(bytes proof, bytes32 image_id,
/// bytes32 journal_digest, bytes32 payload_hash)`, ABI-encoded.
pub fn encode_proof_artifact(
    block_proof: Vec<u8>,
    image_id: Vec<u8>,
    journal_digest: Vec<u8>,
    payload_hash: Vec<u8>,
) -> (r: Vec<u8>)
    requires
        block_proof@.len() < 0x1000000,
        image_id@.len() < 0x1000000,
        journal_digest@.len() < 0x1000000,
        payload_hash@.len() < 0x1000000,
    ensures
        r@ == artifact_encoding(block_proof@, image_id@, journal_digest@, payload_hash@),
{
    let ghost a = block_proof@;
    let ghost b = image_id@;
    let ghost c = journal_digest@;
    let ghost d = payload_hash@;
    let members = vec![
        AbiMember::Bytes(block_proof),
        AbiMember::FixedBytes(image_id),
        AbiMember::FixedBytes(journal_digest),
        AbiMember::FixedBytes(payload_hash),
    ];
    assert(members@.map_values(|m: AbiMember| member_model(m)) =~= seq![
        (true, a),
        (false, b),
        (false, c),
        (false, d),
    ]);
    let r = ethabi_encode_tuple(members);
    r
}

/// The encoding of an artifact from its four components.
pub open spec fn artifact_encoding(
    block_proof: Seq<u8>,
    image_id: Seq<u8>,
    journal_digest: Seq<u8>,
    payload_hash: Seq<u8>,
) -> Seq<u8> {
    abi_tuple_encoding(
        seq![(true, block_proof), (false, image_id), (false, journal_digest), (false, payload_hash)],
    )
}

/// The lowercase hexadecimal digit of a value below 16.
pub open spec fn hex_digit(d: nat) -> char {
    seq!['0', '1', '2', '3', '4', '5', '6', '7', '8', '9', 'a', 'b', 'c', 'd', 'e', 'f'][d as int]
}

/// Two lowercase hexadecimal digits for each byte, most significant first.
pub open spec fn hex_string(b: Seq<u8>) -> Seq<char>
    decreases b.len(),
{
    if b.len() == 0 {
        Seq::empty()
    } else {
        seq![hex_digit(b[0] as nat / 16), hex_digit(b[0] as nat % 16)] + hex_string(b.drop_first())
    }
}

/// Relies on `hex::encode`: two lowercase hexadecimal digits for each byte.
#[verifier::external_body]
fn hex_encode(b: &[u8]) -> (r: String)
    ensures
        r@ == hex_string(b@),
{
    hex::encode(b)
}

/// The text form in which an artifact is stored and served.
pub fn artifact_hex(artifact: &[u8]) -> (r: String)
    ensures
        r@ == hex_string(artifact@),
        r@.len() == 2 * artifact@.len(),
{
    let r = hex_encode(artifact);
    proof {
        lemma_hex_string_len(artifact@);
    }
    r
}

pub proof fn lemma_hex_string_len(b: Seq<u8>)
    ensures
        hex_string(b).len() == 2 * b.len(),
    decreases b.len(),
{
    if b.len() > 0 {
        lemma_hex_string_len(b.drop_first());
    }
}

/// The layout of an artifact whose image identifier, journal digest and
/// payload hash take 32 bytes each: the offset of the tuple (32), the offset of
/// the proof bytes (128), the three fixed components in order, then the
/// length of the proof bytes and the proof bytes, padded to whole words. Each
/// of the four components can be read back from its place.
pub proof fn lemma_artifact_layout(
    block_proof: Seq<u8>,
    image_id: Seq<u8>,
    journal_digest: Seq<u8>,
    payload_hash: Seq<u8>,
)
    requires
        image_id.len() == 32,
        journal_digest.len() == 32,
        payload_hash.len() == 32,
    ensures
        artifact_encoding(block_proof, image_id, journal_digest, payload_hash) == abi_word(32)
            + abi_word(128) + image_id + journal_digest + payload_hash + abi_word(
            block_proof.len(),
        ) + padded(block_proof),
        artifact_encoding(block_proof, image_id, journal_digest, payload_hash).subrange(64, 96)
            == image_id,
        artifact_encoding(block_proof, image_id, journal_digest, payload_hash).subrange(96, 128)
            == journal_digest,
        artifact_encoding(block_proof, image_id, journal_digest, payload_hash).subrange(128, 160)
            == payload_hash,
        artifact_encoding(block_proof, image_id, journal_digest, payload_hash).subrange(
            192,
            192 + block_proof.len() as int,
        ) == block_proof,
{
    let ms = seq![(true, block_proof), (false, image_id), (false, journal_digest), (false, payload_hash)];
    reveal_with_fuel(heads, 5);
    reveal_with_fuel(tails, 5);
    reveal_with_fuel(heads_len, 5);
    assert(padded(image_id) =~= image_id);
    assert(padded(journal_digest) =~= journal_digest);
    assert(padded(payload_hash) =~= payload_hash);
    assert(ms[0].0);
    assert(ms.drop_first() =~= seq![(false, image_id), (false, journal_digest), (false, payload_hash)]);
    assert(ms.drop_first().drop_first() =~= seq![(false, journal_digest), (false, payload_hash)]);
    assert(ms.drop_first().drop_first().drop_first() =~= seq![(false, payload_hash)]);
    assert(ms.drop_first().drop_first().drop_first().drop_first() =~= Seq::<(bool, Seq<u8>)>::empty());
    assert(heads_len(ms) == 128);
    assert(heads(ms, 128) =~= abi_word(128) + image_id + journal_digest + payload_hash);
    assert(tails(ms) =~= abi_word(block_proof.len()) + padded(block_proof));
    let e = artifact_encoding(block_proof, image_id, journal_digest, payload_hash);
    assert(e =~= abi_word(32) + abi_word(128) + image_id + journal_digest + payload_hash + abi_word(
        block_proof.len(),
    ) + padded(block_proof));
    assert(e.subrange(64, 96) =~= image_id);
    assert(e.subrange(96, 128) =~= journal_digest);
    assert(e.subrange(128, 160) =~= payload_hash);
    assert(e.subrange(192, 192 + block_proof.len() as int) =~= block_proof);
}

} // verus!
