use crate::bytes::{le_bytes, push_le_u64};
use crate::error::EchoError;
use solana_program::pubkey::Pubkey;
use vstd::prelude::*;

verus! {

/// A 32-byte identity: a program, an authority, an asset class or a buffer.
#[derive(Clone, Copy, Debug)]
pub struct Address {
    pub bytes: [u8; 32],
}

impl View for Address {
    type V = Seq<u8>;

    open spec fn view(&self) -> Seq<u8> {
        self.bytes@
    }
}

impl PartialEq for Address {
    fn eq(&self, other: &Address) -> (r: bool) {
        let mut i: usize = 0;
        while i < 32
            invariant
                0 <= i <= 32,
                self.bytes@.len() == 32,
                other.bytes@.len() == 32,
                forall|j: int| 0 <= j < i ==> self.bytes@[j] == other.bytes@[j],
            decreases 32 - i,
        {
            if self.bytes[i] != other.bytes[i] {
                return false;
            }
            i = i + 1;
        }
        assert(self.bytes@ =~= other.bytes@);
        true
    }
}

impl vstd::std_specs::cmp::PartialEqSpecImpl for Address {
    open spec fn obeys_eq_spec() -> bool {
        true
    }

    open spec fn eq_spec(&self, other: &Address) -> bool {
        self@ == other@
    }
}

impl Address {
    /// The address made of the given bytes.
    pub fn new(bytes: [u8; 32]) -> (r: Address)
        ensures
            r.bytes == bytes,
    {
        Address { bytes }
    }

    /// Whether both addresses hold the same bytes.
    pub fn same(&self, other: &Address) -> (r: bool)
        ensures
            r == (self@ == other@),
    {
        self.eq(other)
    }
}

/// What the ledger's address function makes of a seed list and a program
/// identity: an address off the key curve, or nothing.
pub uninterp spec fn program_address_of(seeds: Seq<Seq<u8>>, program_id: Seq<u8>) -> Option<
    Seq<u8>,
>;

/// The byte contents of each seed.
pub open spec fn seed_views(seeds: Seq<Vec<u8>>) -> Seq<Seq<u8>> {
    seeds.map_values(|v: Vec<u8>| v@)
}

/// Relies on `Pubkey::create_program_address`: the result is a function of
/// the seeds and the program identity alone (a hash, refused when it lies on
/// the key curve), and it is refused outright for more than 16 seeds or for a
/// seed longer than 32 bytes.
#[verifier::external_body]
fn create_program_address(seeds: &Vec<Vec<u8>>, program_id: &Address) -> (r: Option<Address>)
    ensures
        r is Some <==> program_address_of(seed_views(seeds@), program_id@) is Some,
        r is Some ==> r->0@ == program_address_of(seed_views(seeds@), program_id@)->0,
        seeds@.len() > 16 || exists|i: int| 0 <= i < seeds@.len() && seeds@[i]@.len() > 32
            ==> r is None,
{
    let refs: Vec<&[u8]> = seeds.iter().map(|s| s.as_slice()).collect();
    match Pubkey::create_program_address(&refs, &Pubkey::new_from_array(program_id.bytes)) {
        Ok(key) => Some(Address { bytes: key.to_bytes() }),
        Err(_) => None,
    }
}

/// The seeds that an address is derived from, before the uniqueness token:
/// the namespace tag, the owner, and the salt in little-endian order.
pub open spec fn seed_prefix(namespace: Seq<u8>, owner: Seq<u8>, salt: u64) -> Seq<Seq<u8>> {
    seq![namespace, owner, le_bytes(salt)]
}

/// The first token, from `token` down to zero, whose seed list gives an
/// address, together with that address.
pub open spec fn search_bump(prefix: Seq<Seq<u8>>, program_id: Seq<u8>, token: int) -> Option<
    (Seq<u8>, u8),
>
    decreases token + 1,
{
    if token < 0 {
        None
    } else {
        match program_address_of(prefix.push(seq![token as u8]), program_id) {
            Some(a) => Some((a, token as u8)),
            None => search_bump(prefix, program_id, token - 1),
        }
    }
}

/// The derived address and uniqueness token for a namespace, an owner and a
/// salt under a program: the search starts at the largest token.
pub open spec fn derived(namespace: Seq<u8>, owner: Seq<u8>, salt: u64, program_id: Seq<u8>) -> Option<
    (Seq<u8>, u8),
> {
    search_bump(seed_prefix(namespace, owner, salt), program_id, 255)
}

/// Whether `r` reports the derivation for these inputs: the address and
/// token found, or exhaustion when there is none.
pub open spec fn derivation_matches(
    namespace: Seq<u8>,
    owner: Seq<u8>,
    salt: u64,
    program_id: Seq<u8>,
    r: Result<(Address, u8), EchoError>,
) -> bool {
    match derived(namespace, owner, salt, program_id) {
        Some((a, t)) => r is Ok && r->Ok_0.0@ == a && r->Ok_0.1 == t,
        None => r == Err::<(Address, u8), EchoError>(EchoError::DerivationExhausted),
    }
}

/// Two derivations from the same namespace, owner, salt and program report
/// the same address and token, or both report exhaustion.
pub proof fn lemma_derivation_deterministic(
    namespace: Seq<u8>,
    owner: Seq<u8>,
    salt: u64,
    program_id: Seq<u8>,
    first: Result<(Address, u8), EchoError>,
    second: Result<(Address, u8), EchoError>,
)
    requires
        derivation_matches(namespace, owner, salt, program_id, first),
        derivation_matches(namespace, owner, salt, program_id, second),
    ensures
        first is Ok <==> second is Ok,
        first is Ok ==> first->Ok_0.0@ == second->Ok_0.0@ && first->Ok_0.1 == second->Ok_0.1,
        first is Err ==> first == second,
{
}

/// The seed list of `seed_prefix` as owned byte vectors.
pub fn seed_list(namespace: &[u8], owner: &Address, salt: u64) -> (r: Vec<Vec<u8>>)
    ensures
        seed_views(r@) == seed_prefix(namespace@, owner@, salt),
{
    let mut tag: Vec<u8> = Vec::new();
    let mut i: usize = 0;
    while i < namespace.len()
        invariant
            i <= namespace@.len(),
            tag@ == namespace@.subrange(0, i as int),
        decreases namespace@.len() - i,
    {
        tag.push(namespace[i]);
        i = i + 1;
    }
    let mut who: Vec<u8> = Vec::new();
    let mut j: usize = 0;
    while j < 32
        invariant
            j <= 32,
            owner.bytes@.len() == 32,
            who@ == owner.bytes@.subrange(0, j as int),
        decreases 32 - j,
    {
        who.push(owner.bytes[j]);
        j = j + 1;
    }
    let mut salt_bytes: Vec<u8> = Vec::new();
    push_le_u64(&mut salt_bytes, salt);
    let mut r: Vec<Vec<u8>> = Vec::new();
    r.push(tag);
    r.push(who);
    r.push(salt_bytes);
    assert(tag@ =~= namespace@);
    assert(who@ =~= owner@);
    assert(salt_bytes@ =~= le_bytes(salt));
    assert(seed_views(r@) =~= seed_prefix(namespace@, owner@, salt));
    r
}

/// Derives the address of a buffer from a namespace tag, its owner and a
/// salt: tokens are tried from 255 down to 0 and the first that yields an
/// address wins.
pub fn derive_address(namespace: &[u8], owner: &Address, salt: u64, program_id: &Address) -> (r:
    Result<(Address, u8), EchoError>)
    ensures
        derivation_matches(namespace@, owner@, salt, program_id@, r),
{
    let ghost prefix = seed_prefix(namespace@, owner@, salt);
    let mut seeds = seed_list(namespace, owner, salt);
    let mut token: u8 = 255;
    loop
        invariant
            prefix == seed_prefix(namespace@, owner@, salt),
            seed_views(seeds@) == prefix,
            search_bump(prefix, program_id@, 255) == search_bump(prefix, program_id@, token as int),
        decreases token,
    {
        let bump_seed: Vec<u8> = vec![token];
        let ghost before = seeds@;
        seeds.push(bump_seed);
        proof {
            assert(bump_seed@ =~= seq![token]);
            assert(seeds@ == before.push(bump_seed));
            assert(seed_views(seeds@) =~= prefix.push(seq![token]));
        }
        let found = create_program_address(&seeds, program_id);
        seeds.pop();
        proof {
            assert(seed_views(seeds@) =~= prefix);
            assert(search_bump(prefix, program_id@, token as int) == match program_address_of(
                prefix.push(seq![token]),
                program_id@,
            ) {
                Some(a) => Some((a, token)),
                None => search_bump(prefix, program_id@, token - 1),
            });
        }
        match found {
            Some(a) => {
                assert(search_bump(prefix, program_id@, token as int) == Some((a@, token)));
                return Ok((a, token));
            },
            None => {
                if token == 0 {
                    assert(search_bump(prefix, program_id@, -1) is None);
                    return Err(EchoError::DerivationExhausted);
                }
                token = token - 1;
            },
        }
    }
}

} // verus!
