//! Account addresses and the scheme that names every record by seeds.

use anchor_lang::prelude::Pubkey;
use vstd::prelude::*;

verus! {

/// Number of bytes in an address.
pub const ADDRESS_LEN: usize = 32;

/// A derivation takes fewer than this many seeds.
pub const MAX_SEEDS: usize = 16;

/// No seed of a derivation is longer than this.
pub const MAX_SEED_LEN: usize = 32;

/// The identity of an account: a caller's public key or a derived address.
#[derive(Clone, Copy, Debug, PartialEq, Eq)]
pub struct Address {
    pub bytes: [u8; 32],
}

impl View for Address {
    type V = Seq<u8>;

    open spec fn view(&self) -> Seq<u8> {
        self.bytes@
    }
}

impl Address {
    /// The address made of the given bytes.
    pub fn new(bytes: [u8; 32]) -> (a: Address)
        ensures
            a.bytes == bytes,
    {
        Address { bytes }
    }

    /// Whether two addresses are the same.
    pub fn same(&self, other: &Address) -> (r: bool)
        ensures
            r == (*self == *other),
            r == (self@ == other@),
    {
        let mut i: usize = 0;
        while i < ADDRESS_LEN
            invariant
                i <= ADDRESS_LEN,
                forall|k: int| 0 <= k < i ==> self.bytes[k] == other.bytes[k],
            decreases ADDRESS_LEN - i,
        {
            if self.bytes[i] != other.bytes[i] {
                return false;
            }
            i += 1;
        }
        proof {
            assert(self.bytes =~= other.bytes);
        }
        true
    }

    /// The bytes of the address, as a seed of a derivation.
    pub fn to_seed(&self) -> (seed: Vec<u8>)
        ensures
            seed@ == self@,
    {
        let mut seed: Vec<u8> = Vec::new();
        let mut i: usize = 0;
        while i < ADDRESS_LEN
            invariant
                i <= ADDRESS_LEN,
                seed@ == self@.subrange(0, i as int),
            decreases ADDRESS_LEN - i,
        {
            seed.push(self.bytes[i]);
            proof {
                assert(seed@ =~= self@.subrange(0, i + 1));
            }
            i += 1;
        }
        proof {
            assert(self@.subrange(0, 32) =~= self@);
        }
        seed
    }
}

/// Two addresses with the same bytes are the same address.
pub proof fn lemma_address_by_bytes(a: Address, b: Address)
    ensures
        (a@ == b@) == (a == b),
{
    if a@ == b@ {
        assert(forall|k: int| 0 <= k < 32 ==> a.bytes[k] == a@[k]);
        assert(forall|k: int| 0 <= k < 32 ==> b.bytes[k] == b@[k]);
        assert(a.bytes =~= b.bytes);
    }
}

/// The bytes of `user_profile`, the first seed of a profile's address.
pub open spec fn profile_tag() -> Seq<u8> {
    seq![117u8, 115u8, 101u8, 114u8, 95u8, 112u8, 114u8, 111u8, 102u8, 105u8, 108u8, 101u8]
}

/// The bytes of `vault`, the first seed of a vault's address.
pub open spec fn vault_tag() -> Seq<u8> {
    seq![118u8, 97u8, 117u8, 108u8, 116u8]
}

/// The bytes of `post`, the first seed of a post's address.
pub open spec fn post_tag() -> Seq<u8> {
    seq![112u8, 111u8, 115u8, 116u8]
}

/// The seeds that name the profile of `owner`.
pub open spec fn profile_seeds(owner: Address) -> Seq<Seq<u8>> {
    seq![profile_tag(), owner@]
}

/// The seeds that name the vault of `owner`.
pub open spec fn vault_seeds(owner: Address) -> Seq<Seq<u8>> {
    seq![vault_tag(), owner@]
}

/// The seeds that name the post that `author` creates when `index` posts
/// of theirs came before it: the index stands in little-endian bytes.
pub open spec fn post_seeds(author: Address, index: u64) -> Seq<Seq<u8>> {
    seq![post_tag(), author@, vstd::bytes::spec_u64_to_le_bytes(index)]
}

/// The seeds held by a vector, each as its sequence of bytes.
pub open spec fn seed_bytes(seeds: Seq<Vec<u8>>) -> Seq<Seq<u8>> {
    Seq::new(seeds.len(), |i: int| seeds[i]@)
}

/// The address and bump that a program's derivation gives for a tuple of
/// seeds, or `None` where the tuple has no derived address.
pub uninterp spec fn program_address(seeds: Seq<Seq<u8>>, program: Seq<u8>) -> Option<(Seq<u8>, u8)>;

/// A derivation's outcome with the address taken as its bytes.
pub open spec fn derivation_bytes(found: Option<(Address, u8)>) -> Option<(Seq<u8>, u8)> {
    match found {
        Some((address, bump)) => Some((address@, bump)),
        None => None,
    }
}

/// An optional address taken as its bytes.
pub open spec fn bytes_of(found: Option<Address>) -> Option<Seq<u8>> {
    match found {
        Some(address) => Some(address@),
        None => None,
    }
}

/// The address that `program` derives from `seeds`, if there is one.
pub open spec fn derived_address(seeds: Seq<Seq<u8>>, program: Address) -> Option<Seq<u8>> {
    match program_address(seeds, program@) {
        Some((bytes, _)) => Some(bytes),
        None => None,
    }
}

/// Whether `claimed` is the address that `program` derives from `seeds`.
pub open spec fn derives_to(seeds: Seq<Seq<u8>>, program: Address, claimed: Address) -> bool {
    derived_address(seeds, program) == Some(claimed@)
}

/// Calls `Pubkey::try_find_program_address`. Trusted: the outcome is a
/// function of the seeds and the program alone, named `program_address`;
/// there is none for sixteen seeds or more, nor where a seed is longer than
/// thirty-two bytes.
#[verifier::external_body]
fn find_program_address(seeds: &Vec<Vec<u8>>, program: &Address) -> (found: Option<(Address, u8)>)
    ensures
        derivation_bytes(found) == program_address(seed_bytes(seeds@), program@),
        seeds@.len() >= MAX_SEEDS ==> found is None,
        (exists|i: int| 0 <= i < seeds@.len() && seeds@[i]@.len() > MAX_SEED_LEN) ==> found is None,
{
    let parts: Vec<&[u8]> = seeds.iter().map(|seed| seed.as_slice()).collect();
    match Pubkey::try_find_program_address(&parts, &Pubkey::new_from_array(program.bytes)) {
        Some((key, bump)) => Some((Address { bytes: key.to_bytes() }, bump)),
        None => None,
    }
}

/// Derives the address and bump that `program` gives to `seeds`.
pub fn derive_address(seeds: &Vec<Vec<u8>>, program: &Address) -> (found: Option<(Address, u8)>)
    ensures
        derivation_bytes(found) == program_address(seed_bytes(seeds@), program@),
        seeds@.len() >= MAX_SEEDS ==> found is None,
        (exists|i: int| 0 <= i < seeds@.len() && seeds@[i]@.len() > MAX_SEED_LEN) ==> found is None,
{
    find_program_address(seeds, program)
}

/// The seeds of the profile of `owner`, ready for a derivation.
pub fn profile_seed_vec(owner: &Address) -> (seeds: Vec<Vec<u8>>)
    ensures
        seed_bytes(seeds@) == profile_seeds(*owner),
{
    let tag: Vec<u8> = vec![117u8, 115u8, 101u8, 114u8, 95u8, 112u8, 114u8, 111u8, 102u8, 105u8, 108u8, 101u8];
    let seeds: Vec<Vec<u8>> = vec![tag, owner.to_seed()];
    proof {
        assert(seeds@[0]@ =~= profile_tag());
        assert(seed_bytes(seeds@) =~= profile_seeds(*owner));
    }
    seeds
}

/// The seeds of the vault of `owner`, ready for a derivation.
pub fn vault_seed_vec(owner: &Address) -> (seeds: Vec<Vec<u8>>)
    ensures
        seed_bytes(seeds@) == vault_seeds(*owner),
{
    let tag: Vec<u8> = vec![118u8, 97u8, 117u8, 108u8, 116u8];
    let seeds: Vec<Vec<u8>> = vec![tag, owner.to_seed()];
    proof {
        assert(seeds@[0]@ =~= vault_tag());
        assert(seed_bytes(seeds@) =~= vault_seeds(*owner));
    }
    seeds
}

/// The seeds of the post of `author` with the given index, ready for a
/// derivation.
pub fn post_seed_vec(author: &Address, index: u64) -> (seeds: Vec<Vec<u8>>)
    ensures
        seed_bytes(seeds@) == post_seeds(*author, index),
{
    let tag: Vec<u8> = vec![112u8, 111u8, 115u8, 116u8];
    let seeds: Vec<Vec<u8>> = vec![tag, author.to_seed(), vstd::bytes::u64_to_le_bytes(index)];
    proof {
        assert(seeds@[0]@ =~= post_tag());
        assert(seed_bytes(seeds@) =~= post_seeds(*author, index));
    }
    seeds
}

/// The address of the profile of `owner` under `program`.
pub fn profile_address(program: &Address, owner: &Address) -> (found: Option<Address>)
    ensures
        bytes_of(found) == derived_address(profile_seeds(*owner), *program),
{
    let seeds = profile_seed_vec(owner);
    match derive_address(&seeds, program) {
        Some((address, _)) => Some(address),
        None => None,
    }
}

/// The address of the vault of `owner` under `program`.
pub fn vault_address(program: &Address, owner: &Address) -> (found: Option<Address>)
    ensures
        bytes_of(found) == derived_address(vault_seeds(*owner), *program),
{
    let seeds = vault_seed_vec(owner);
    match derive_address(&seeds, program) {
        Some((address, _)) => Some(address),
        None => None,
    }
}

/// The address of the post of `author` with the given index under
/// `program`.
pub fn post_address(program: &Address, author: &Address, index: u64) -> (found: Option<Address>)
    ensures
        bytes_of(found) == derived_address(post_seeds(*author, index), *program),
{
    let seeds = post_seed_vec(author, index);
    match derive_address(&seeds, program) {
        Some((address, _)) => Some(address),
        None => None,
    }
}

/// Whether a derivation's outcome is the address that a caller supplied.
pub fn matches_derived(found: &Option<Address>, claimed: &Address) -> (r: bool)
    ensures
        r == (*found == Some(*claimed)),
        r == (bytes_of(*found) == Some(claimed@)),
{
    match found {
        Some(address) => address.same(claimed),
        None => false,
    }
}

/// The program that owns every profile and post of the feed.
pub fn program_id() -> (id: Address)
    ensures
        id@ == seq![
            136u8, 243u8, 252u8, 220u8, 237u8, 17u8, 31u8, 31u8, 223u8, 250u8, 1u8, 180u8,
            168u8, 66u8, 163u8, 211u8, 209u8, 24u8, 151u8, 6u8, 96u8, 178u8, 153u8, 3u8,
            240u8, 105u8, 4u8, 143u8, 56u8, 142u8, 141u8, 23u8,
        ],
{
    let id = Address {
        bytes: [
            136u8, 243u8, 252u8, 220u8, 237u8, 17u8, 31u8, 31u8, 223u8, 250u8, 1u8, 180u8,
            168u8, 66u8, 163u8, 211u8, 209u8, 24u8, 151u8, 6u8, 96u8, 178u8, 153u8, 3u8,
            240u8, 105u8, 4u8, 143u8, 56u8, 142u8, 141u8, 23u8,
        ],
    };
    proof {
        assert(id@ =~= seq![
            136u8, 243u8, 252u8, 220u8, 237u8, 17u8, 31u8, 31u8, 223u8, 250u8, 1u8, 180u8,
            168u8, 66u8, 163u8, 211u8, 209u8, 24u8, 151u8, 6u8, 96u8, 178u8, 153u8, 3u8,
            240u8, 105u8, 4u8, 143u8, 56u8, 142u8, 141u8, 23u8,
        ]);
    }
    id
}

/// The seeds tell every record apart: two profiles, two vaults or two
/// posts have the same seeds only where they are the same, and no profile,
/// vault and post share their seeds.
pub proof fn theorem_seeds_tell_apart(a: Address, b: Address, i: u64, j: u64)
    ensures
        profile_seeds(a) == profile_seeds(b) ==> a == b,
        vault_seeds(a) == vault_seeds(b) ==> a == b,
        post_seeds(a, i) == post_seeds(b, j) ==> a == b && i == j,
        profile_seeds(a) != vault_seeds(b),
        profile_seeds(a) != post_seeds(b, j),
        vault_seeds(a) != post_seeds(b, j),
{
    lemma_address_by_bytes(a, b);
    vstd::bytes::lemma_auto_spec_u64_to_from_le_bytes();
    assert(profile_seeds(a)[1] == a@);
    assert(profile_seeds(b)[1] == b@);
    assert(vault_seeds(a)[1] == a@);
    assert(vault_seeds(b)[1] == b@);
    assert(post_seeds(a, i)[1] == a@);
    assert(post_seeds(b, j)[1] == b@);
    assert(post_seeds(a, i)[2] == vstd::bytes::spec_u64_to_le_bytes(i));
    assert(post_seeds(b, j)[2] == vstd::bytes::spec_u64_to_le_bytes(j));
    assert(profile_seeds(a)[0].len() == 12);
    assert(vault_seeds(b)[0].len() == 5);
    assert(profile_seeds(a).len() == 2);
    assert(vault_seeds(a).len() == 2);
    assert(post_seeds(b, j).len() == 3);
}

} // verus!
