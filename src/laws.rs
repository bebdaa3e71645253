use vstd::prelude::*;
use crate::address::{derive_spec, like_seeds, post_seeds, profile_seeds, Pubkey};
use crate::ledger::{
    create_post_next, create_post_outcome, create_profile_next, create_profile_outcome,
    holds_post, holds_profile, like_post_next, like_post_outcome, Account,
};
use crate::state::{Like, Post, Profile};
use crate::state::ErrorCode;

verus! {

/// Once an owner's profile is created, every later `create_profile` by that
/// owner fails with `InitializationConflict` and leaves the ledger unchanged.
pub proof fn lemma_one_profile_per_owner(m: Map<Seq<u8>, Account>, owner: Pubkey, first: String, second: String)
    requires
        create_profile_outcome(m, owner, first) is Ok,
    ensures
        create_profile_outcome(create_profile_next(m, owner, first), owner, second)
            == Err::<Seq<u8>, ErrorCode>(ErrorCode::InitializationConflict),
        create_profile_next(create_profile_next(m, owner, first), owner, second)
            == create_profile_next(m, owner, first),
{
}

/// After a successful `create_post`, the profile's counter names the post just
/// stored: the address its seeds derive for that number holds a post of the
/// signer with that number. A failed `create_post` changes nothing.
pub proof fn lemma_counter_names_stored_post(m: Map<Seq<u8>, Account>, signer: Pubkey, post: Pubkey, content: String)
    ensures
        create_post_outcome(m, signer, post, content) is Err ==> create_post_next(m, signer, post, content) == m,
        create_post_outcome(m, signer, post, content) is Ok ==> ({
            let m2 = create_post_next(m, signer, post, content);
            let pk = derive_spec(profile_seeds(signer@))->Some_0.0;
            let n = m2[pk]->Profile_0.last_post_id;
            &&& holds_profile(m2, pk)
            &&& n == m[pk]->Profile_0.last_post_id + 1
            &&& derive_spec(post_seeds(signer@, n as nat)) matches Some((k, _b))
            &&& k == post@
            &&& holds_post(m2, k)
            &&& m2[k]->Post_0.post_id == n
            &&& m2[k]->Post_0.author == signer
            &&& m2[k]->Post_0.like_count == 0
        }),
{
}

/// Once a user's like of a post is stored, every later `like_post` by that
/// user on that post fails with `InitializationConflict` and leaves the
/// ledger, the post's like count included, unchanged.
pub proof fn lemma_one_like_per_user(m: Map<Seq<u8>, Account>, user: Pubkey, post: Pubkey)
    requires
        like_post_outcome(m, user, post) is Ok,
    ensures
        like_post_outcome(like_post_next(m, user, post), user, post)
            == Err::<Seq<u8>, ErrorCode>(ErrorCode::InitializationConflict),
        like_post_next(like_post_next(m, user, post), user, post) == like_post_next(m, user, post),
{
    let m2 = like_post_next(m, user, post);
    let lk = derive_spec(like_seeds(post@, user@))->Some_0.0;
    assert(!m.contains_key(lk));
    assert(lk != post@);
    assert(m2[post@] is Post);
}

/// `create_post` on a profile whose counter is at `u64::MAX` fails with
/// `Overflow` and writes nothing.
pub proof fn lemma_post_counter_overflow(m: Map<Seq<u8>, Account>, signer: Pubkey, post: Pubkey, content: String)
    requires
        derive_spec(profile_seeds(signer@)) matches Some((pk, _b)) && holds_profile(m, pk)
            && m[pk]->Profile_0.author@ == signer@ && m[pk]->Profile_0.last_post_id == u64::MAX,
    ensures
        create_post_outcome(m, signer, post, content) == Err::<(), ErrorCode>(ErrorCode::Overflow),
        create_post_next(m, signer, post, content) == m,
{
}

/// `like_post` on a post whose like count is at `u64::MAX`, at its own
/// address and by a user who has not liked it, fails with `Overflow` and
/// writes nothing.
pub proof fn lemma_like_counter_overflow(m: Map<Seq<u8>, Account>, user: Pubkey, post: Pubkey)
    requires
        holds_post(m, post@),
        m[post@]->Post_0.like_count == u64::MAX,
        derive_spec(post_seeds(m[post@]->Post_0.author@, m[post@]->Post_0.post_id as nat))
            == Some((post@, m[post@]->Post_0.bump)),
        derive_spec(like_seeds(post@, user@)) matches Some((lk, _b)) && !m.contains_key(lk),
    ensures
        like_post_outcome(m, user, post) == Err::<Seq<u8>, ErrorCode>(ErrorCode::Overflow),
        like_post_next(m, user, post) == m,
{
}

/// The address `k` holds a like.
pub open spec fn holds_like(m: Map<Seq<u8>, Account>, k: Seq<u8>) -> bool {
    m.contains_key(k) && m[k] is Like
}

/// Post number `n` of `author` is stored at the address its seeds derive.
pub open spec fn post_stored(m: Map<Seq<u8>, Account>, author: Seq<u8>, n: nat) -> bool {
    match derive_spec(post_seeds(author, n)) {
        Some((k, _b)) => holds_post(m, k) && m[k]->Post_0.post_id == n && m[k]->Post_0.author@ == author,
        None => false,
    }
}

/// The addresses of the likes of the post at `post`.
pub open spec fn likes_on(m: Map<Seq<u8>, Account>, post: Seq<u8>) -> Set<Seq<u8>> {
    m.dom().filter(|x: Seq<u8>| m[x] is Like && m[x]->Like_0.post@ == post)
}

/// The profile of `author` exists, is the author's, and its counter has
/// reached `post_id`.
pub open spec fn counter_covers(m: Map<Seq<u8>, Account>, author: Seq<u8>, post_id: nat) -> bool {
    match derive_spec(profile_seeds(author)) {
        Some((pk, _b)) => holds_profile(m, pk) && m[pk]->Profile_0.author@ == author
            && post_id <= m[pk]->Profile_0.last_post_id,
        None => false,
    }
}

/// A profile sits at its owner's address and each of its posts up to its
/// counter is stored.
pub open spec fn profile_ok(m: Map<Seq<u8>, Account>, k: Seq<u8>) -> bool {
    let p = m[k]->Profile_0;
    &&& derive_spec(profile_seeds(p.author@)) == Some((k, p.bump))
    &&& forall|n: nat| 1 <= n <= p.last_post_id ==> #[trigger] post_stored(m, p.author@, n)
}

/// A post sits at the address of its seeds, its number is within its
/// author's counter, and its like count is the number of its likes.
pub open spec fn post_ok(m: Map<Seq<u8>, Account>, k: Seq<u8>) -> bool {
    let p = m[k]->Post_0;
    &&& derive_spec(post_seeds(p.author@, p.post_id as nat)) == Some((k, p.bump))
    &&& 1 <= p.post_id
    &&& counter_covers(m, p.author@, p.post_id as nat)
    &&& p.like_count == likes_on(m, k).len()
}

/// A like sits at the address of its seeds and names a stored post.
pub open spec fn like_ok(m: Map<Seq<u8>, Account>, k: Seq<u8>) -> bool {
    let l = m[k]->Like_0;
    holds_post(m, l.post@) && derive_spec(like_seeds(l.post@, l.user@)) == Some((k, l.bump))
}

/// The record at `k` is well placed, as its kind asks.
pub open spec fn record_ok(m: Map<Seq<u8>, Account>, k: Seq<u8>) -> bool {
    match m[k] {
        Account::Profile(_) => profile_ok(m, k),
        Account::Post(_) => post_ok(m, k),
        Account::Like(_) => like_ok(m, k),
    }
}

/// What holds of every ledger that the three instructions build from an
/// empty one.
pub open spec fn valid(m: Map<Seq<u8>, Account>) -> bool {
    &&& m.dom().finite()
    &&& forall|k: Seq<u8>| #[trigger] m.contains_key(k) ==> record_ok(m, k)
}

/// Every post of `m` is in `m2` with the same author, number and bump.
pub open spec fn posts_kept(m: Map<Seq<u8>, Account>, m2: Map<Seq<u8>, Account>) -> bool {
    forall|x: Seq<u8>| #[trigger] holds_post(m, x) ==> holds_post(m2, x) && m2[x]->Post_0.post_id
        == m[x]->Post_0.post_id && m2[x]->Post_0.author == m[x]->Post_0.author
        && m2[x]->Post_0.bump == m[x]->Post_0.bump
}

/// Every profile of `m` is in `m2` with the same author and a counter as high.
pub open spec fn profiles_kept(m: Map<Seq<u8>, Account>, m2: Map<Seq<u8>, Account>) -> bool {
    forall|x: Seq<u8>| #[trigger] holds_profile(m, x) ==> holds_profile(m2, x) && m2[x]->Profile_0.author
        == m[x]->Profile_0.author && m[x]->Profile_0.last_post_id <= m2[x]->Profile_0.last_post_id
}

proof fn lemma_stored_kept(m: Map<Seq<u8>, Account>, m2: Map<Seq<u8>, Account>, author: Seq<u8>, n: nat)
    requires
        post_stored(m, author, n),
        posts_kept(m, m2),
    ensures
        post_stored(m2, author, n),
{
    let k = derive_spec(post_seeds(author, n))->Some_0.0;
    assert(holds_post(m, k));
}

proof fn lemma_covers_kept(m: Map<Seq<u8>, Account>, m2: Map<Seq<u8>, Account>, author: Seq<u8>, n: nat)
    requires
        counter_covers(m, author, n),
        profiles_kept(m, m2),
    ensures
        counter_covers(m2, author, n),
{
    let pk = derive_spec(profile_seeds(author))->Some_0.0;
    assert(holds_profile(m, pk));
}

/// A record left as it was stays well placed when posts and profiles are kept
/// and, for a post, its likes are the same.
proof fn lemma_record_kept(m: Map<Seq<u8>, Account>, m2: Map<Seq<u8>, Account>, x: Seq<u8>)
    requires
        valid(m),
        m.contains_key(x),
        m2.contains_key(x),
        m2[x] == m[x],
        posts_kept(m, m2),
        profiles_kept(m, m2),
        m[x] is Post ==> likes_on(m2, x) == likes_on(m, x),
    ensures
        record_ok(m2, x),
{
    assert(record_ok(m, x));
    match m[x] {
        Account::Profile(p) => {
            assert forall|n: nat| 1 <= n <= p.last_post_id implies #[trigger] post_stored(m2, p.author@, n) by {
                assert(post_stored(m, p.author@, n));
                lemma_stored_kept(m, m2, p.author@, n);
            }
        },
        Account::Post(p) => {
            lemma_covers_kept(m, m2, p.author@, p.post_id as nat);
        },
        Account::Like(l) => {
            assert(holds_post(m, l.post@));
        },
    }
}

/// The empty ledger is valid.
pub proof fn lemma_empty_valid()
    ensures
        valid(Map::<Seq<u8>, Account>::empty()),
{
}

/// `create_profile` keeps a ledger valid.
pub proof fn lemma_create_profile_keeps_valid(m: Map<Seq<u8>, Account>, signer: Pubkey, username: String)
    requires
        valid(m),
    ensures
        valid(create_profile_next(m, signer, username)),
{
    let m2 = create_profile_next(m, signer, username);
    if create_profile_outcome(m, signer, username) is Ok {
        let (pk, b) = derive_spec(profile_seeds(signer@))->Some_0;
        assert(!m.contains_key(pk));
        assert(posts_kept(m, m2));
        assert(profiles_kept(m, m2));
        assert forall|x: Seq<u8>| #[trigger] m2.contains_key(x) implies record_ok(m2, x) by {
            if x != pk {
                if m[x] is Post {
                    assert(likes_on(m2, x) =~= likes_on(m, x));
                }
                lemma_record_kept(m, m2, x);
            }
        }
    }
}

/// `create_post` keeps a ledger valid.
pub proof fn lemma_create_post_keeps_valid(m: Map<Seq<u8>, Account>, signer: Pubkey, post: Pubkey, content: String)
    requires
        valid(m),
    ensures
        valid(create_post_next(m, signer, post, content)),
{
    let m2 = create_post_next(m, signer, post, content);
    if create_post_outcome(m, signer, post, content) is Ok {
        let pk = derive_spec(profile_seeds(signer@))->Some_0.0;
        let p = m[pk]->Profile_0;
        let n = p.last_post_id;
        let k = post@;
        assert(m.contains_key(pk));
        assert(record_ok(m, pk));
        assert(!m.contains_key(k));
        assert(posts_kept(m, m2));
        assert(profiles_kept(m, m2));
        assert forall|x: Seq<u8>| #[trigger] m2.contains_key(x) implies record_ok(m2, x) by {
            if x == k {
                assert forall|y: Seq<u8>| !(#[trigger] likes_on(m2, k).contains(y)) by {
                    if m2.contains_key(y) && m2[y] is Like {
                        assert(m.contains_key(y) && record_ok(m, y));
                    }
                }
                assert(likes_on(m2, k) =~= Set::<Seq<u8>>::empty());
                assert(counter_covers(m2, signer@, (n + 1) as nat));
            } else if x == pk {
                assert forall|i: nat| 1 <= i <= m2[pk]->Profile_0.last_post_id implies #[trigger] post_stored(
                    m2,
                    signer@,
                    i,
                ) by {
                    if i <= n {
                        assert(post_stored(m, signer@, i));
                        lemma_stored_kept(m, m2, signer@, i);
                    }
                }
            } else {
                if m[x] is Post {
                    assert(likes_on(m2, x) =~= likes_on(m, x));
                }
                lemma_record_kept(m, m2, x);
            }
        }
    }
}

/// `like_post` keeps a ledger valid.
pub proof fn lemma_like_post_keeps_valid(m: Map<Seq<u8>, Account>, signer: Pubkey, post: Pubkey)
    requires
        valid(m),
    ensures
        valid(like_post_next(m, signer, post)),
{
    let m2 = like_post_next(m, signer, post);
    if like_post_outcome(m, signer, post) is Ok {
        let a = post@;
        let p = m[a]->Post_0;
        let lk = derive_spec(like_seeds(a, signer@))->Some_0.0;
        assert(m.contains_key(a));
        assert(record_ok(m, a));
        assert(!m.contains_key(lk));
        assert(posts_kept(m, m2));
        assert(profiles_kept(m, m2));
        assert forall|x: Seq<u8>| #[trigger] m2.contains_key(x) implies record_ok(m2, x) by {
            if x == lk {
            } else if x == a {
                assert(likes_on(m2, a) =~= likes_on(m, a).insert(lk));
                m.dom().lemma_len_filter(|y: Seq<u8>| m[y] is Like && m[y]->Like_0.post@ == a);
                assert(!likes_on(m, a).contains(lk));
                lemma_covers_kept(m, m2, p.author@, p.post_id as nat);
            } else {
                if m[x] is Post {
                    assert(likes_on(m2, x) =~= likes_on(m, x));
                }
                lemma_record_kept(m, m2, x);
            }
        }
    }
}

/// On a valid ledger, the numbers of the posts of an owner with a profile are
/// exactly `1..=last_post_id`, each at one address only.
pub proof fn lemma_post_ids_contiguous(m: Map<Seq<u8>, Account>, owner: Pubkey)
    requires
        valid(m),
        derive_spec(profile_seeds(owner@)) matches Some((pk, _b)) && holds_profile(m, pk)
            && m[pk]->Profile_0.author@ == owner@,
    ensures
        ({
            let pk = derive_spec(profile_seeds(owner@))->Some_0.0;
            Set::new(|n: nat| exists|x: Seq<u8>| #[trigger] holds_post(m, x) && m[x]->Post_0.author@ == owner@ && m[x]->Post_0.post_id == n)
                == Set::new(|n: nat| 1 <= n <= m[pk]->Profile_0.last_post_id)
        }),
        forall|x: Seq<u8>, y: Seq<u8>| #[trigger] holds_post(m, x) && #[trigger] holds_post(m, y)
            && m[x]->Post_0.author@ == owner@ && m[y]->Post_0.author@ == owner@ && m[x]->Post_0.post_id
            == m[y]->Post_0.post_id ==> x == y,
{
    let pk = derive_spec(profile_seeds(owner@))->Some_0.0;
    let last = m[pk]->Profile_0.last_post_id;
    assert(record_ok(m, pk));
    let ids = Set::new(|n: nat| exists|x: Seq<u8>| #[trigger] holds_post(m, x) && m[x]->Post_0.author@ == owner@ && m[x]->Post_0.post_id == n);
    assert forall|n: nat| ids.contains(n) <==> 1 <= n <= last by {
        if 1 <= n <= last {
            assert(post_stored(m, owner@, n));
            let k = derive_spec(post_seeds(owner@, n))->Some_0.0;
            assert(holds_post(m, k));
        }
        if ids.contains(n) {
            let x = choose|x: Seq<u8>| #[trigger] holds_post(m, x) && m[x]->Post_0.author@ == owner@ && m[x]->Post_0.post_id == n;
            assert(record_ok(m, x));
        }
    }
    assert(ids =~= Set::new(|n: nat| 1 <= n <= last));
    assert forall|x: Seq<u8>, y: Seq<u8>| #[trigger] holds_post(m, x) && #[trigger] holds_post(m, y)
        && m[x]->Post_0.author@ == owner@ && m[y]->Post_0.author@ == owner@ && m[x]->Post_0.post_id
        == m[y]->Post_0.post_id implies x == y by {
        assert(record_ok(m, x));
        assert(record_ok(m, y));
    }
}

/// On a valid ledger, a post's like count is the number of its likes, and no
/// two of its likes are by the same user.
pub proof fn lemma_like_count_is_likers(m: Map<Seq<u8>, Account>, post: Seq<u8>)
    requires
        valid(m),
        holds_post(m, post),
    ensures
        m[post]->Post_0.like_count == likes_on(m, post).len(),
        forall|x: Seq<u8>, y: Seq<u8>| #[trigger] likes_on(m, post).contains(x) && #[trigger] likes_on(m, post).contains(y)
            && m[x]->Like_0.user@ == m[y]->Like_0.user@ ==> x == y,
{
    assert(record_ok(m, post));
    assert forall|x: Seq<u8>, y: Seq<u8>| #[trigger] likes_on(m, post).contains(x) && #[trigger] likes_on(m, post).contains(y)
        && m[x]->Like_0.user@ == m[y]->Like_0.user@ implies x == y by {
        assert(record_ok(m, x));
        assert(record_ok(m, y));
    }
}

} // verus!
