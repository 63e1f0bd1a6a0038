//! Text artifacts made from the result of a check: hexadecimal strings for
//! the committed output and for a succinct proof of it.

use vstd::prelude::*;
use vstd::slice::slice_subrange;
use vstd::string::StringExecFns;

verus! {

/// The sixteen hexadecimal digits, lower case.
pub open spec fn hex_digits() -> Seq<char> {
    seq!['0', '1', '2', '3', '4', '5', '6', '7', '8', '9', 'a', 'b', 'c', 'd', 'e', 'f']
}

/// The lower-case hexadecimal text of `bytes`: two digits per byte, the
/// high four bits first.
pub open spec fn hex_text(bytes: Seq<u8>) -> Seq<char> {
    Seq::new(
        2 * bytes.len(),
        |i: int|
            if i % 2 == 0 {
                hex_digits()[bytes[i / 2] as int / 16]
            } else {
                hex_digits()[bytes[i / 2] as int % 16]
            },
    )
}

/// The hexadecimal text of `bytes` behind the prefix `0x`.
pub open spec fn prefixed_hex(bytes: Seq<u8>) -> Seq<char> {
    seq!['0', 'x'] + hex_text(bytes)
}

/// Calls `hex::encode`, which writes each byte as two lower-case
/// hexadecimal digits, high four bits first. The contract states exactly
/// that.
#[verifier::external_body]
fn hex_encode(data: &[u8]) -> (text: String)
    ensures
        text@ == hex_text(data@),
{
    hex::encode(data)
}

/// Writes `data` in hexadecimal behind `0x`.
pub fn to_prefixed_hex(data: &[u8]) -> (text: String)
    ensures
        text@ == prefixed_hex(data@),
{
    let digits = hex_encode(data);
    let text = String::from_str("0x").concat(digits.as_str());
    proof {
        reveal_strlit("0x");
        assert("0x"@ =~= seq!['0', 'x']);
    }
    text
}

/// The proof system that a succinct proof was made with.
#[derive(Clone, Copy, Debug, PartialEq, Eq, Structural)]
pub enum ProofSystem {
    Plonk,
    Groth16,
}

/// The name of the file that holds the fixture of a proof system.
pub fn fixture_file_name(system: ProofSystem) -> (name: String)
    ensures
        system == ProofSystem::Plonk ==> name@ == "plonk-fixture.json"@,
        system == ProofSystem::Groth16 ==> name@ == "groth16-fixture.json"@,
{
    match system {
        ProofSystem::Plonk => String::from_str("plonk-fixture.json"),
        ProofSystem::Groth16 => String::from_str("groth16-fixture.json"),
    }
}

/// What is handed to an on-chain verifier's tests: the committed output
/// taken apart and as a whole, the verifying key, and the proof, all as
/// text.
#[derive(Clone, Debug, PartialEq, Eq)]
pub struct SP1MerkleProofFixture {
    pub root: String,
    pub leaf: String,
    pub is_valid: bool,
    pub vkey: String,
    pub public_values: String,
    pub proof: String,
}

/// Makes the fixture for a proof with the given public values, which begin
/// with a committed output. The verifying key is passed through as given.
pub fn create_proof_fixture(public_values: &[u8], vkey: String, proof: &[u8]) -> (fixture:
    SP1MerkleProofFixture)
    requires
        public_values@.len() >= 65,
    ensures
        fixture.root@ == prefixed_hex(public_values@.subrange(0, 32)),
        fixture.leaf@ == prefixed_hex(public_values@.subrange(32, 64)),
        fixture.is_valid == (public_values@[64] != 0),
        fixture.vkey == vkey,
        fixture.public_values@ == prefixed_hex(public_values@),
        fixture.proof@ == prefixed_hex(proof@),
{
    let root = to_prefixed_hex(slice_subrange(public_values, 0, 32));
    let leaf = to_prefixed_hex(slice_subrange(public_values, 32, 64));
    let is_valid = public_values[64] != 0;
    SP1MerkleProofFixture {
        root,
        leaf,
        is_valid,
        vkey,
        public_values: to_prefixed_hex(public_values),
        proof: to_prefixed_hex(proof),
    }
}

} // verus!
