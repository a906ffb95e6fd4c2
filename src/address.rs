use solana_program::pubkey::Pubkey;
use vstd::prelude::*;

verus! {

/// The address that the host derives from a list of seeds and a program id,
/// or `None` where the hash of them lies on the ed25519 curve.
pub uninterp spec fn program_address(seeds: Seq<Seq<u8>>, program_id: Seq<u8>) -> Option<Seq<u8>>;

pub open spec fn seeds_view(seeds: Seq<Vec<u8>>) -> Seq<Seq<u8>> {
    seeds.map_values(|s: Vec<u8>| s@)
}

pub open spec fn seeds_fit(seeds: Seq<Vec<u8>>, max_count: nat) -> bool {
    &&& seeds.len() <= max_count
    &&& forall|i: int| 0 <= i < seeds.len() ==> (#[trigger] seeds[i])@.len() <= 32
}

/// Relies on solana_program's `Pubkey::create_program_address`: for at most
/// 16 seeds of at most 32 bytes each, it hashes the seeds with the program id
/// and returns the resulting address, or `InvalidSeeds` where the hash lies on
/// the curve. The result depends on the seeds and the program id alone.
#[verifier::external_body]
fn create_program_address(seeds: &Vec<Vec<u8>>, program_id: &[u8; 32]) -> (r: Option<[u8; 32]>)
    requires
        seeds_fit(seeds@, 16),
    ensures
        match r {
            Some(a) => program_address(seeds_view(seeds@), program_id@) == Some(a@),
            None => program_address(seeds_view(seeds@), program_id@) is None,
        },
{
    let slices: Vec<&[u8]> = seeds.iter().map(|s| s.as_slice()).collect();
    Pubkey::create_program_address(&slices, &Pubkey::new_from_array(*program_id)).ok().map(
        |k| k.to_bytes(),
    )
}

/// Relies on solana_program's `Pubkey::try_find_program_address`: it appends
/// to the seeds a one-byte bump, tried from 255 down to 1, and returns the
/// first address that `create_program_address` gives, with its bump; `None`
/// where no bump gives one.
#[verifier::external_body]
fn try_find_program_address(seeds: &Vec<Vec<u8>>, program_id: &[u8; 32]) -> (r: Option<
    ([u8; 32], u8),
>)
    requires
        seeds_fit(seeds@, 15),
    ensures
        match r {
            Some(found) => {
                &&& 1 <= found.1
                &&& program_address(seeds_view(seeds@).push(seq![found.1]), program_id@) == Some(
                    found.0@,
                )
                &&& forall|c: u8|
                    found.1 < c ==> (#[trigger] program_address(
                        seeds_view(seeds@).push(seq![c]),
                        program_id@,
                    )) is None
            },
            None => forall|c: u8|
                1 <= c ==> (#[trigger] program_address(
                    seeds_view(seeds@).push(seq![c]),
                    program_id@,
                )) is None,
        },
{
    let slices: Vec<&[u8]> = seeds.iter().map(|s| s.as_slice()).collect();
    Pubkey::try_find_program_address(&slices, &Pubkey::new_from_array(*program_id)).map(
        |(k, bump)| (k.to_bytes(), bump),
    )
}

/// The domain tag that separates counter addresses from other derivations:
/// the bytes of `counter`.
pub open spec fn counter_tag() -> Seq<u8> {
    seq![99u8, 111u8, 117u8, 110u8, 116u8, 101u8, 114u8]
}

/// The seeds of an owner's counter address, before the bump.
pub open spec fn counter_seeds(owner: Seq<u8>) -> Seq<Seq<u8>> {
    seq![counter_tag(), owner]
}

/// The counter address of `owner` derived in one step from a known bump.
pub open spec fn direct_address(owner: Seq<u8>, bump: u8, program_id: Seq<u8>) -> Option<Seq<u8>> {
    program_address(counter_seeds(owner).push(seq![bump]), program_id)
}

/// `bump` is the one the search finds: the highest from 255 down to 1 that
/// derives an address.
pub open spec fn is_canonical_bump(owner: Seq<u8>, program_id: Seq<u8>, bump: u8) -> bool {
    &&& 1 <= bump
    &&& direct_address(owner, bump, program_id) is Some
    &&& forall|c: u8| bump < c ==> (#[trigger] direct_address(owner, c, program_id)) is None
}

/// `(address, bump)` is what the search finds: the canonical bump and the
/// address it derives.
pub open spec fn is_search_result(owner: Seq<u8>, program_id: Seq<u8>, address: Seq<u8>, bump: u8) -> bool {
    &&& is_canonical_bump(owner, program_id, bump)
    &&& direct_address(owner, bump, program_id) == Some(address)
}

/// No bump from 1 to 255 derives an address for `owner`.
pub open spec fn search_fails(owner: Seq<u8>, program_id: Seq<u8>) -> bool {
    forall|c: u8| 1 <= c ==> (#[trigger] direct_address(owner, c, program_id)) is None
}

/// Re-deriving in direct mode with the bump that the search returned gives
/// the address that the search returned.
pub proof fn lemma_direct_matches_search(owner: Seq<u8>, program_id: Seq<u8>, address: Seq<u8>, bump: u8)
    requires
        is_search_result(owner, program_id, address, bump),
    ensures
        direct_address(owner, bump, program_id) == Some(address),
{
}

/// The search result is a function of the owner: two searches for the same
/// owner and program find the same address and bump.
pub proof fn lemma_search_result_unique(
    owner: Seq<u8>,
    program_id: Seq<u8>,
    a1: Seq<u8>,
    b1: u8,
    a2: Seq<u8>,
    b2: u8,
)
    requires
        is_search_result(owner, program_id, a1, b1),
        is_search_result(owner, program_id, a2, b2),
    ensures
        a1 == a2,
        b1 == b2,
{
    if b1 < b2 {
        assert(direct_address(owner, b2, program_id) is None);
    } else if b2 < b1 {
        assert(direct_address(owner, b1, program_id) is None);
    }
}

/// The bytes of a key as a vector.
fn key_to_vec(k: &[u8; 32]) -> (v: Vec<u8>)
    ensures
        v@ == k@,
{
    let mut v: Vec<u8> = Vec::new();
    let mut i: usize = 0;
    while i < 32
        invariant
            i <= 32,
            k@.len() == 32,
            v@ == k@.subrange(0, i as int),
        decreases 32 - i,
    {
        v.push(k[i]);
        i = i + 1;
        assert(v@ =~= k@.subrange(0, i as int));
    }
    assert(v@ =~= k@);
    v
}

/// Whether two keys are the same.
pub fn same_key(a: &[u8; 32], b: &[u8; 32]) -> (r: bool)
    ensures
        r == (a@ == b@),
{
    let mut i: usize = 0;
    while i < 32
        invariant
            i <= 32,
            a@.len() == 32,
            b@.len() == 32,
            forall|j: int| 0 <= j < i ==> a@[j] == b@[j],
        decreases 32 - i,
    {
        if a[i] != b[i] {
            return false;
        }
        i = i + 1;
    }
    assert(a@ =~= b@);
    true
}

/// The counter seeds of `owner`, as vectors.
fn counter_seed_vecs(owner: &[u8; 32]) -> (r: Vec<Vec<u8>>)
    ensures
        r@.len() == 2,
        seeds_view(r@) == counter_seeds(owner@),
        seeds_fit(r@, 2),
{
    let tag: Vec<u8> = vec![99u8, 111u8, 117u8, 110u8, 116u8, 101u8, 114u8];
    let owner_bytes = key_to_vec(owner);
    let r: Vec<Vec<u8>> = vec![tag, owner_bytes];
    assert(r@[0]@ =~= counter_tag());
    assert(seeds_view(r@) =~= counter_seeds(owner@));
    r
}

/// Search mode: finds the highest bump that derives a counter address for
/// `owner`, and that address.
pub fn find_counter_address(owner: &[u8; 32], program_id: &[u8; 32]) -> (r: Option<([u8; 32], u8)>)
    ensures
        match r {
            Some(found) => is_search_result(owner@, program_id@, found.0@, found.1),
            None => search_fails(owner@, program_id@),
        },
{
    let seeds = counter_seed_vecs(owner);
    try_find_program_address(&seeds, program_id)
}

/// Direct mode: the counter address of `owner` for a known bump, without
/// searching.
pub fn counter_address(owner: &[u8; 32], bump: u8, program_id: &[u8; 32]) -> (r: Option<[u8; 32]>)
    ensures
        match r {
            Some(a) => direct_address(owner@, bump, program_id@) == Some(a@),
            None => direct_address(owner@, bump, program_id@) is None,
        },
{
    let seeds = signer_seed_vecs(owner, bump);
    create_program_address(&seeds, program_id)
}

/// The full seeds of an owner's counter address: the counter seeds and the
/// bump.
pub fn signer_seed_vecs(owner: &[u8; 32], bump: u8) -> (r: Vec<Vec<u8>>)
    ensures
        seeds_view(r@) == counter_seeds(owner@).push(seq![bump]),
        seeds_fit(r@, 3),
{
    let mut seeds = counter_seed_vecs(owner);
    let bump_seed: Vec<u8> = vec![bump];
    assert(bump_seed@ =~= seq![bump]);
    seeds.push(bump_seed);
    assert(seeds_view(seeds@) =~= counter_seeds(owner@).push(seq![bump]));
    seeds
}

} // verus!
