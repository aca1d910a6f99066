//! Sharding of statechains over the custodial enclaves.

use vstd::prelude::*;
use vstd::utf8::encode_utf8;
use crate::hashing::{sha256, sha256_digest};

verus! {

/// One custodial signer.
#[derive(Debug)]
pub struct Enclave {
    pub url: String,
    /// Whether new statechains may be assigned to it.
    pub allow_deposit: bool,
}

/// What is said where no enclave accepts deposits.
pub open spec fn no_enclave_message() -> Seq<char> {
    "No valid enclave found with allow_deposit set to true"@
}

/// 256 to the power `n`.
pub open spec fn pow256(n: nat) -> nat
    decreases n,
{
    if n == 0 {
        1
    } else {
        256 * pow256((n - 1) as nat)
    }
}

/// The number that `bytes` spell, most significant byte first.
pub open spec fn be_value(bytes: Seq<u8>) -> nat
    decreases bytes.len(),
{
    if bytes.len() == 0 {
        0
    } else {
        256 * be_value(bytes.drop_last()) + bytes.last() as nat
    }
}

/// A big-endian number of `n` bytes is below 256 to the `n`.
pub proof fn lemma_be_value_bound(bytes: Seq<u8>)
    ensures
        be_value(bytes) < pow256(bytes.len()),
    decreases bytes.len(),
{
    if bytes.len() > 0 {
        lemma_be_value_bound(bytes.drop_last());
    }
}

/// The number by which a statechain is sharded: the first 16 bytes of the
/// SHA-256 digest of its identifier, as a big-endian integer.
pub open spec fn shard_number(statechain_id: Seq<char>) -> nat {
    be_value(sha256(encode_utf8(statechain_id)).subrange(0, 16))
}

/// The enclave that a statechain falls to among `n` enclaves.
pub open spec fn enclave_index(statechain_id: Seq<char>, n: nat) -> nat {
    shard_number(statechain_id) % n
}

/// Some enclave accepts deposits.
pub open spec fn any_accepts(enclaves: Seq<Enclave>) -> bool {
    exists|i: int| 0 <= i < enclaves.len() && (#[trigger] enclaves[i]).allow_deposit
}

/// The enclave at `i` is the first that accepts deposits.
pub open spec fn first_accepting(enclaves: Seq<Enclave>, i: int) -> bool {
    &&& 0 <= i < enclaves.len()
    &&& enclaves[i].allow_deposit
    &&& forall|j: int| 0 <= j < i ==> !(#[trigger] enclaves[j]).allow_deposit
}

/// The enclave that a new statechain is assigned to: the one that its
/// identifier falls to if that one accepts deposits, else the first that does.
pub open spec fn assigned_enclave(statechain_id: Seq<char>, enclaves: Seq<Enclave>, i: int) -> bool {
    &&& 0 <= i < enclaves.len()
    &&& if enclaves[enclave_index(statechain_id, enclaves.len()) as int].allow_deposit {
        i == enclave_index(statechain_id, enclaves.len())
    } else {
        first_accepting(enclaves, i)
    }
}

/// The first 16 bytes of a digest as a big-endian integer.
fn leading_u128(digest: &Vec<u8>) -> (value: u128)
    requires
        digest@.len() >= 16,
    ensures
        value == be_value(digest@.subrange(0, 16)),
{
    let mut value: u128 = 0;
    let mut i: usize = 0;
    while i < 16
        invariant
            i <= 16,
            digest@.len() >= 16,
            value == be_value(digest@.subrange(0, i as int)),
        decreases 16 - i,
    {
        proof {
            let upto = digest@.subrange(0, i + 1);
            assert(upto.drop_last() =~= digest@.subrange(0, i as int));
            assert(upto.last() == digest@[i as int]);
            lemma_be_value_bound(upto);
            lemma_pow256_monotonic(upto.len(), 16);
            reveal_with_fuel(pow256, 17);
            assert(pow256(16) == 0x1_0000_0000_0000_0000_0000_0000_0000_0000);
        }
        value = value * 256 + digest[i] as u128;
        i = i + 1;
    }
    value
}

/// Powers of 256 grow with the exponent.
pub proof fn lemma_pow256_monotonic(a: nat, b: nat)
    requires
        a <= b,
    ensures
        pow256(a) <= pow256(b),
        pow256(a) >= 1,
    decreases b,
{
    if a < b {
        lemma_pow256_monotonic(a, (b - 1) as nat);
    } else if a > 0 {
        lemma_pow256_monotonic((a - 1) as nat, (a - 1) as nat);
    }
}

/// The enclave that a statechain falls to among `n` enclaves.
fn shard_index(statechain_id: &str, n: usize) -> (index: usize)
    requires
        n > 0,
    ensures
        index == enclave_index(statechain_id@, n as nat),
        index < n,
{
    let digest = sha256_digest(statechain_id.as_bytes());
    let number = leading_u128(&digest);
    (number % (n as u128)) as usize
}

/// The enclave that a statechain falls to among `enclave_array_len`
/// enclaves: the first 16 bytes of the SHA-256 digest of the identifier, as a
/// big-endian integer, modulo the number of enclaves. The same identifier
/// and number always give the same enclave.
pub fn get_enclave_index_from_statechain_id(statechain_id: &str, enclave_array_len: u32) -> (index:
    usize)
    requires
        enclave_array_len > 0,
    ensures
        index == enclave_index(statechain_id@, enclave_array_len as nat),
        index < enclave_array_len,
{
    shard_index(statechain_id, enclave_array_len as usize)
}

/// Assigns a new statechain to an enclave: the one that its identifier falls
/// to if that one accepts deposits, else the first in the list that does.
/// Fails, with a text that says so, where none does.
pub fn get_random_enclave_index(statechain_id: &str, enclaves: &Vec<Enclave>) -> (r: Result<
    usize,
    String,
>)
    ensures
        r is Ok <==> any_accepts(enclaves@),
        r matches Ok(i) ==> assigned_enclave(statechain_id@, enclaves@, i as int),
        r matches Err(text) ==> text@ == no_enclave_message(),
{
    if enclaves.len() == 0 {
        return Err(String::from_str("No valid enclave found with allow_deposit set to true"));
    }
    let index = shard_index(statechain_id, enclaves.len());
    if enclaves[index].allow_deposit {
        return Ok(index);
    }
    let mut i: usize = 0;
    while i < enclaves.len()
        invariant
            i <= enclaves@.len(),
            index == enclave_index(statechain_id@, enclaves@.len()),
            index < enclaves@.len(),
            !enclaves@[index as int].allow_deposit,
            forall|j: int| 0 <= j < i ==> !(#[trigger] enclaves@[j]).allow_deposit,
        decreases enclaves@.len() - i,
    {
        if enclaves[i].allow_deposit {
            assert(first_accepting(enclaves@, i as int));
            return Ok(i);
        }
        i = i + 1;
    }
    Err(String::from_str("No valid enclave found with allow_deposit set to true"))
}

/// Two assignments of one statechain over one list of enclaves agree.
pub proof fn lemma_assignment_is_a_function(
    statechain_id: Seq<char>,
    enclaves: Seq<Enclave>,
    i: int,
    j: int,
)
    requires
        assigned_enclave(statechain_id, enclaves, i),
        assigned_enclave(statechain_id, enclaves, j),
    ensures
        i == j,
{
    if i < j {
        assert(!enclaves[i].allow_deposit || i == enclave_index(statechain_id, enclaves.len()));
    } else if j < i {
        assert(!enclaves[j].allow_deposit || j == enclave_index(statechain_id, enclaves.len()));
    }
}

} // verus!
