use vstd::prelude::*;

verus! {

/// Identity of a signer or address of a record: 32 bytes.
#[derive(Clone, Copy, Debug)]
pub struct Pubkey {
    pub bytes: [u8; 32],
}

impl View for Pubkey {
    type V = Seq<u8>;

    open spec fn view(&self) -> Seq<u8> {
        self.bytes@
    }
}

/// Namespace salt of every address this program derives.
pub const PROGRAM_ID: [u8; 32] = [
    238, 87, 167, 164, 78, 122, 106, 25, 93, 231, 31, 145, 0, 63, 143, 32,
    143, 138, 147, 231, 21, 25, 214, 24, 196, 76, 27, 150, 140, 115, 75, 10,
];

/// The program id as bytes.
pub open spec fn program_id_spec() -> Seq<u8> {
    seq![
        238u8, 87u8, 167u8, 164u8, 78u8, 122u8, 106u8, 25u8, 93u8, 231u8, 31u8, 145u8, 0u8, 63u8,
        143u8, 32u8, 143u8, 138u8, 147u8, 231u8, 21u8, 25u8, 214u8, 24u8, 196u8, 76u8, 27u8,
        150u8, 140u8, 115u8, 75u8, 10u8,
    ]
}

/// The program-derived address and bump for `seeds` under `program`, or `None`
/// where no bump gives an address off the curve.
pub uninterp spec fn program_address(seeds: Seq<Seq<u8>>, program: Seq<u8>) -> Option<(Seq<u8>, u8)>;

/// Most seeds one derivation takes, the bump excluded.
pub open spec fn max_seeds() -> nat {
    15
}

/// Most bytes in one seed.
pub open spec fn max_seed_len() -> nat {
    32
}

/// A derivation takes these seeds: few enough, none too long.
pub open spec fn seeds_fit(seeds: Seq<Seq<u8>>) -> bool {
    seeds.len() <= max_seeds() && forall|i: int| 0 <= i < seeds.len() ==> #[trigger] seeds[i].len() <= max_seed_len()
}

/// The seeds as byte sequences.
pub open spec fn seeds_view(seeds: Seq<Vec<u8>>) -> Seq<Seq<u8>> {
    seeds.map_values(|s: Vec<u8>| s@)
}

/// Relies on `Pubkey::try_find_program_address` of solana-program (re-exported by
/// anchor-lang): deterministic in the seeds and the program id; `None` when there
/// are 16 seeds or more or a seed is longer than 32 bytes.
#[verifier::external_body]
fn try_find_program_address(seeds: &Vec<Vec<u8>>, program: &[u8; 32]) -> (r: Option<(Pubkey, u8)>)
    ensures
        r matches Some((k, b)) ==> program_address(seeds_view(seeds@), program@) == Some((k@, b)),
        r is None ==> program_address(seeds_view(seeds@), program@) is None,
        !seeds_fit(seeds_view(seeds@)) ==> r is None,
{
    let slices: Vec<&[u8]> = seeds.iter().map(|s| s.as_slice()).collect();
    let id = anchor_lang::prelude::Pubkey::new_from_array(*program);
    anchor_lang::prelude::Pubkey::try_find_program_address(&slices, &id).map(
        |(k, b)| (Pubkey { bytes: k.to_bytes() }, b),
    )
}

/// Little-endian encoding of `n` in `k` bytes.
pub open spec fn le_bytes(n: nat, k: nat) -> Seq<u8>
    decreases k,
{
    if k == 0 {
        seq![]
    } else {
        seq![(n % 256) as u8] + le_bytes(n / 256, (k - 1) as nat)
    }
}

/// The 8-byte little-endian encoding of a post id.
pub fn u64_le_bytes(n: u64) -> (r: Vec<u8>)
    ensures
        r@ == le_bytes(n as nat, 8),
{
    let mut r: Vec<u8> = Vec::new();
    let mut x: u64 = n;
    let mut i: usize = 0;
    while i < 8
        invariant
            i <= 8,
            r@ + le_bytes(x as nat, (8 - i) as nat) == le_bytes(n as nat, 8),
        decreases 8 - i,
    {
        let ghost before = r@;
        r.push((x % 256) as u8);
        assert(le_bytes(x as nat, (8 - i) as nat) == seq![(x % 256) as u8] + le_bytes(
            (x / 256) as nat,
            (8 - (i + 1)) as nat,
        ));
        assert(before + le_bytes(x as nat, (8 - i) as nat) == r@ + le_bytes(
            (x / 256) as nat,
            (8 - (i + 1)) as nat,
        ));
        x = x / 256;
        i = i + 1;
    }
    assert(r@ + le_bytes(x as nat, 0) == r@);
    r
}

/// Copies the 32 bytes of a key into a seed.
pub fn key_seed(k: &Pubkey) -> (r: Vec<u8>)
    ensures
        r@ == k@,
{
    let mut r: Vec<u8> = Vec::new();
    let mut i: usize = 0;
    while i < 32
        invariant
            i <= 32,
            r@ == k@.subrange(0, i as int),
        decreases 32 - i,
    {
        r.push(k.bytes[i]);
        i = i + 1;
    }
    assert(r@ == k@);
    r
}

/// Whether two keys hold the same bytes.
pub fn same_key(a: &Pubkey, b: &Pubkey) -> (r: bool)
    ensures
        r == (a@ == b@),
{
    let mut i: usize = 0;
    while i < 32
        invariant
            i <= 32,
            a@.subrange(0, i as int) == b@.subrange(0, i as int),
        decreases 32 - i,
    {
        if a.bytes[i] != b.bytes[i] {
            assert(a@[i as int] != b@[i as int]);
            return false;
        }
        assert(a@.subrange(0, i + 1) == a@.subrange(0, i as int).push(a@[i as int]));
        assert(b@.subrange(0, i + 1) == b@.subrange(0, i as int).push(b@[i as int]));
        i = i + 1;
    }
    assert(a@ == a@.subrange(0, 32));
    assert(b@ == b@.subrange(0, 32));
    true
}

/// Seed tag of profiles: `"profile"`.
pub open spec fn profile_tag() -> Seq<u8> {
    seq![112u8, 114u8, 111u8, 102u8, 105u8, 108u8, 101u8]
}

/// Seed tag of posts: `"post"`.
pub open spec fn post_tag() -> Seq<u8> {
    seq![112u8, 111u8, 115u8, 116u8]
}

/// Seed tag of likes: `"like"`.
pub open spec fn like_tag() -> Seq<u8> {
    seq![108u8, 105u8, 107u8, 101u8]
}

/// Seeds of the profile of `owner`: `"profile"`, the owner's bytes.
pub open spec fn profile_seeds(owner: Seq<u8>) -> Seq<Seq<u8>> {
    seq![profile_tag(), owner]
}

/// Seeds of post number `post_id` of `author`: `"post"`, the author's bytes,
/// the id in 8 little-endian bytes.
pub open spec fn post_seeds(author: Seq<u8>, post_id: nat) -> Seq<Seq<u8>> {
    seq![post_tag(), author, le_bytes(post_id, 8)]
}

/// Seeds of the like of `user` on the post at `post`: `"like"`, the post's
/// address, the user's bytes.
pub open spec fn like_seeds(post: Seq<u8>, user: Seq<u8>) -> Seq<Seq<u8>> {
    seq![like_tag(), post, user]
}

/// The address and bump derived from `seeds` under this program's id.
pub open spec fn derive_spec(seeds: Seq<Seq<u8>>) -> Option<(Seq<u8>, u8)> {
    program_address(seeds, program_id_spec())
}

/// A derived address and bump, as bytes.
pub open spec fn derived_view(r: Option<(Pubkey, u8)>) -> Option<(Seq<u8>, u8)> {
    match r {
        Some((k, b)) => Some((k@, b)),
        None => None,
    }
}

/// Copies a seed tag into a seed.
fn tag(bytes: &[u8]) -> (r: Vec<u8>)
    ensures
        r@ == bytes@,
{
    let mut r: Vec<u8> = Vec::new();
    let mut i: usize = 0;
    while i < bytes.len()
        invariant
            i <= bytes@.len(),
            r@ == bytes@.subrange(0, i as int),
        decreases bytes@.len() - i,
    {
        r.push(bytes[i]);
        i = i + 1;
    }
    assert(r@ == bytes@);
    r
}

/// Derives an address and bump under this program's id.
fn derive(seeds: Vec<Vec<u8>>) -> (r: Option<(Pubkey, u8)>)
    ensures
        derived_view(r) == derive_spec(seeds_view(seeds@)),
{
    let r = try_find_program_address(&seeds, &PROGRAM_ID);
    assert(PROGRAM_ID@ == program_id_spec());
    r
}

/// Address and bump of the profile of `owner`.
pub fn profile_address(owner: &Pubkey) -> (r: Option<(Pubkey, u8)>)
    ensures
        derived_view(r) == derive_spec(profile_seeds(owner@)),
{
    let seeds = vec![tag(&[112, 114, 111, 102, 105, 108, 101]), key_seed(owner)];
    assert(seeds_view(seeds@) == profile_seeds(owner@));
    derive(seeds)
}

/// Address and bump of post number `post_id` of `author`.
pub fn post_address(author: &Pubkey, post_id: u64) -> (r: Option<(Pubkey, u8)>)
    ensures
        derived_view(r) == derive_spec(post_seeds(author@, post_id as nat)),
{
    let seeds = vec![tag(&[112, 111, 115, 116]), key_seed(author), u64_le_bytes(post_id)];
    assert(seeds_view(seeds@) == post_seeds(author@, post_id as nat));
    derive(seeds)
}

/// Address and bump of the like of `user` on the post at `post`.
pub fn like_address(post: &Pubkey, user: &Pubkey) -> (r: Option<(Pubkey, u8)>)
    ensures
        derived_view(r) == derive_spec(like_seeds(post@, user@)),
{
    let seeds = vec![tag(&[108, 105, 107, 101]), key_seed(post), key_seed(user)];
    assert(seeds_view(seeds@) == like_seeds(post@, user@));
    derive(seeds)
}
}
