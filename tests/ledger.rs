use instagram_ledger::address::{like_address, post_address, profile_address, u64_le_bytes, Pubkey, PROGRAM_ID};
use instagram_ledger::instructions::{create_post, create_profile, like_post, CreatePost, CreateProfile, LikePost};
use instagram_ledger::ledger::{Account, Ledger};
use instagram_ledger::state::{ErrorCode, Like, Post, Profile};

fn key(b: u8) -> Pubkey {
    Pubkey { bytes: [b; 32] }
}

fn anchor_pda(seeds: &[&[u8]]) -> (anchor_lang::prelude::Pubkey, u8) {
    let id = anchor_lang::prelude::Pubkey::new_from_array(PROGRAM_ID);
    anchor_lang::prelude::Pubkey::find_program_address(seeds, &id)
}

fn profile_of(l: &Ledger, owner: &Pubkey) -> Profile {
    let (k, _) = profile_address(owner).unwrap();
    match l.get(&k) {
        Some(Account::Profile(p)) => p.clone(),
        _ => panic!("no profile"),
    }
}

fn post_at(l: &Ledger, k: &Pubkey) -> Post {
    match l.get(k) {
        Some(Account::Post(p)) => p.clone(),
        _ => panic!("no post"),
    }
}

fn next_post_key(l: &Ledger, owner: &Pubkey) -> Pubkey {
    let n = profile_of(l, owner).last_post_id + 1;
    post_address(owner, n).unwrap().0
}

#[test]
fn program_id_matches_declared_id() {
    let id = anchor_lang::prelude::Pubkey::new_from_array(PROGRAM_ID);
    assert_eq!(id.to_string(), "H3PZAD7wwkgGQhYLJBABfW376oAaZVrwmYoErRYuf9yj");
}

#[test]
fn le_bytes_of_post_id() {
    assert_eq!(u64_le_bytes(1), vec![1, 0, 0, 0, 0, 0, 0, 0]);
    assert_eq!(u64_le_bytes(0x0102030405060708), vec![8, 7, 6, 5, 4, 3, 2, 1]);
    assert_eq!(u64_le_bytes(u64::MAX), vec![255; 8]);
    assert_eq!(u64_le_bytes(258), 258u64.to_le_bytes().to_vec());
}

#[test]
fn profile_address_uses_profile_seeds() {
    let a = key(7);
    let (k, b) = profile_address(&a).unwrap();
    let (ak, ab) = anchor_pda(&[b"profile", &a.bytes]);
    assert_eq!(k.bytes, ak.to_bytes());
    assert_eq!(b, ab);
    assert_ne!(k.bytes, a.bytes);
}

#[test]
fn post_address_uses_post_seeds() {
    let a = key(7);
    let (k, b) = post_address(&a, 3).unwrap();
    let (ak, ab) = anchor_pda(&[b"post", &a.bytes, &3u64.to_le_bytes()]);
    assert_eq!(k.bytes, ak.to_bytes());
    assert_eq!(b, ab);
    let (k4, _) = post_address(&a, 4).unwrap();
    assert_ne!(k.bytes, k4.bytes);
}

#[test]
fn like_address_uses_like_seeds() {
    let p = key(9);
    let u = key(3);
    let (k, b) = like_address(&p, &u).unwrap();
    let (ak, ab) = anchor_pda(&[b"like", &p.bytes, &u.bytes]);
    assert_eq!(k.bytes, ak.to_bytes());
    assert_eq!(b, ab);
    let (k2, _) = like_address(&p, &key(4)).unwrap();
    assert_ne!(k.bytes, k2.bytes);
}

#[test]
fn derivation_is_deterministic() {
    let a = key(5);
    let (k1, b1) = profile_address(&a).unwrap();
    let (k2, b2) = profile_address(&a).unwrap();
    assert_eq!(k1.bytes, k2.bytes);
    assert_eq!(b1, b2);
}

#[test]
fn handler_create_profile_fills_record() {
    let mut ctx = CreateProfile { user: key(1), profile: Profile::blank(), profile_bump: 254 };
    assert_eq!(create_profile(&mut ctx, "alice".to_string()), Ok(()));
    assert_eq!(ctx.profile.author.bytes, [1; 32]);
    assert_eq!(ctx.profile.username, "alice");
    assert_eq!(ctx.profile.last_post_id, 0);
    assert_eq!(ctx.profile.bump, 254);
}

#[test]
fn handler_create_profile_rejects_long_username() {
    let mut ctx = CreateProfile { user: key(1), profile: Profile::blank(), profile_bump: 254 };
    assert_eq!(create_profile(&mut ctx, "a".repeat(33)), Err(ErrorCode::UsernameTooLong));
    assert_eq!(ctx.profile.username, "");
    let mut ctx = CreateProfile { user: key(1), profile: Profile::blank(), profile_bump: 254 };
    assert_eq!(create_profile(&mut ctx, "a".repeat(32)), Ok(()));
}

#[test]
fn handler_create_post_advances_counter() {
    let mut profile = Profile::blank();
    profile.author = key(1);
    profile.last_post_id = 4;
    let mut ctx = CreatePost { user: key(1), profile, post: Post::blank(), post_bump: 250 };
    assert_eq!(create_post(&mut ctx, "hello".to_string()), Ok(()));
    assert_eq!(ctx.post.post_id, 5);
    assert_eq!(ctx.post.like_count, 0);
    assert_eq!(ctx.post.content, "hello");
    assert_eq!(ctx.post.bump, 250);
    assert_eq!(ctx.post.author.bytes, [1; 32]);
    assert_eq!(ctx.profile.last_post_id, 5);
}

#[test]
fn handler_create_post_overflow_writes_nothing() {
    let mut profile = Profile::blank();
    profile.last_post_id = u64::MAX;
    let mut ctx = CreatePost { user: key(1), profile, post: Post::blank(), post_bump: 250 };
    assert_eq!(create_post(&mut ctx, "hello".to_string()), Err(ErrorCode::Overflow));
    assert_eq!(ctx.profile.last_post_id, u64::MAX);
    assert_eq!(ctx.post.post_id, 0);
    assert_eq!(ctx.post.content, "");
}

#[test]
fn handler_create_post_rejects_long_content() {
    let mut ctx = CreatePost { user: key(1), profile: Profile::blank(), post: Post::blank(), post_bump: 1 };
    assert_eq!(create_post(&mut ctx, "x".repeat(281)), Err(ErrorCode::ContentTooLong));
    assert_eq!(ctx.profile.last_post_id, 0);
    let mut ctx = CreatePost { user: key(1), profile: Profile::blank(), post: Post::blank(), post_bump: 1 };
    assert_eq!(create_post(&mut ctx, "x".repeat(280)), Ok(()));
    assert_eq!(ctx.profile.last_post_id, 1);
}

#[test]
fn handler_content_budget_counts_bytes() {
    let mut ctx = CreatePost { user: key(1), profile: Profile::blank(), post: Post::blank(), post_bump: 1 };
    assert_eq!(create_post(&mut ctx, "é".repeat(141)), Err(ErrorCode::ContentTooLong));
    let mut ctx = CreatePost { user: key(1), profile: Profile::blank(), post: Post::blank(), post_bump: 1 };
    assert_eq!(create_post(&mut ctx, "é".repeat(140)), Ok(()));
}

#[test]
fn handler_like_post_counts_like() {
    let mut post = Post::blank();
    post.like_count = 6;
    let mut ctx = LikePost { user: key(2), post_key: key(8), post, like: Like::blank(), like_bump: 253 };
    assert_eq!(like_post(&mut ctx), Ok(()));
    assert_eq!(ctx.post.like_count, 7);
    assert_eq!(ctx.like.post.bytes, [8; 32]);
    assert_eq!(ctx.like.user.bytes, [2; 32]);
    assert_eq!(ctx.like.bump, 253);
}

#[test]
fn handler_like_post_overflow_writes_nothing() {
    let mut post = Post::blank();
    post.like_count = u64::MAX;
    let mut ctx = LikePost { user: key(2), post_key: key(8), post, like: Like::blank(), like_bump: 253 };
    assert_eq!(like_post(&mut ctx), Err(ErrorCode::Overflow));
    assert_eq!(ctx.post.like_count, u64::MAX);
    assert_eq!(ctx.like.bump, 0);
    assert_eq!(ctx.like.user.bytes, [0; 32]);
}

#[test]
fn example_scenario() {
    let a = key(0xA);
    let b = key(0xB);
    let mut l = Ledger::new();
    let pk = l.process_create_profile(a, "alice".to_string()).unwrap();
    assert_eq!(pk.bytes, profile_address(&a).unwrap().0.bytes);
    assert_eq!(profile_of(&l, &a).last_post_id, 0);
    assert_eq!(profile_of(&l, &a).username, "alice");

    let post1 = next_post_key(&l, &a);
    assert_eq!(l.process_create_post(a, post1, "hello".to_string()), Ok(()));
    let p1 = post_at(&l, &post1);
    assert_eq!(p1.post_id, 1);
    assert_eq!(p1.like_count, 0);
    assert_eq!(p1.content, "hello");
    assert_eq!(profile_of(&l, &a).last_post_id, 1);

    let lk = l.process_like_post(b, post1).unwrap();
    match l.get(&lk) {
        Some(Account::Like(like)) => {
            assert_eq!(like.post.bytes, post1.bytes);
            assert_eq!(like.user.bytes, b.bytes);
        }
        _ => panic!("no like"),
    }
    assert_eq!(post_at(&l, &post1).like_count, 1);

    assert_eq!(l.process_like_post(b, post1).unwrap_err(), ErrorCode::InitializationConflict);
    assert_eq!(post_at(&l, &post1).like_count, 1);

    let post2 = next_post_key(&l, &a);
    assert_eq!(l.process_create_post(a, post2, "world".to_string()), Ok(()));
    assert_eq!(post_at(&l, &post2).post_id, 2);
    assert_eq!(profile_of(&l, &a).last_post_id, 2);
}

#[test]
fn second_profile_for_owner_conflicts() {
    let a = key(1);
    let mut l = Ledger::new();
    assert!(l.process_create_profile(a, "alice".to_string()).is_ok());
    assert_eq!(
        l.process_create_profile(a, "other".to_string()).unwrap_err(),
        ErrorCode::InitializationConflict
    );
    assert_eq!(profile_of(&l, &a).username, "alice");
}

#[test]
fn long_username_creates_nothing() {
    let a = key(1);
    let mut l = Ledger::new();
    assert_eq!(l.process_create_profile(a, "a".repeat(33)).unwrap_err(), ErrorCode::UsernameTooLong);
    assert!(!l.contains(&profile_address(&a).unwrap().0));
    assert!(l.process_create_profile(a, "a".repeat(32)).is_ok());
}

#[test]
fn post_without_profile_fails() {
    let a = key(1);
    let mut l = Ledger::new();
    let k = post_address(&a, 1).unwrap().0;
    assert_eq!(l.process_create_post(a, k, "hi".to_string()), Err(ErrorCode::AccountNotInitialized));
    assert!(!l.contains(&k));
}

#[test]
fn stale_post_address_mismatches() {
    let a = key(1);
    let mut l = Ledger::new();
    l.process_create_profile(a, "alice".to_string()).unwrap();
    let first = next_post_key(&l, &a);
    l.process_create_post(a, first, "one".to_string()).unwrap();
    assert_eq!(l.process_create_post(a, first, "again".to_string()), Err(ErrorCode::AddressMismatch));
    assert_eq!(profile_of(&l, &a).last_post_id, 1);
    assert_eq!(post_at(&l, &first).content, "one");
}

#[test]
fn post_ids_are_contiguous() {
    let a = key(1);
    let mut l = Ledger::new();
    l.process_create_profile(a, "alice".to_string()).unwrap();
    for _ in 0..5 {
        let k = next_post_key(&l, &a);
        l.process_create_post(a, k, "p".to_string()).unwrap();
        let bad = key(0xEE);
        assert_eq!(l.process_create_post(a, bad, "p".to_string()), Err(ErrorCode::AddressMismatch));
    }
    assert_eq!(profile_of(&l, &a).last_post_id, 5);
    for n in 1..=5u64 {
        let k = post_address(&a, n).unwrap().0;
        assert_eq!(post_at(&l, &k).post_id, n);
    }
    assert!(!l.contains(&post_address(&a, 6).unwrap().0));
}

#[test]
fn long_content_leaves_counter() {
    let a = key(1);
    let mut l = Ledger::new();
    l.process_create_profile(a, "alice".to_string()).unwrap();
    let k = next_post_key(&l, &a);
    assert_eq!(l.process_create_post(a, k, "x".repeat(281)), Err(ErrorCode::ContentTooLong));
    assert_eq!(profile_of(&l, &a).last_post_id, 0);
    assert!(!l.contains(&k));
}

#[test]
fn like_count_equals_distinct_likers() {
    let a = key(1);
    let mut l = Ledger::new();
    l.process_create_profile(a, "alice".to_string()).unwrap();
    let post = next_post_key(&l, &a);
    l.process_create_post(a, post, "hello".to_string()).unwrap();
    for u in [2u8, 3, 4, 2, 3, 5] {
        let _ = l.process_like_post(key(u), post);
    }
    assert_eq!(post_at(&l, &post).like_count, 4);
}

#[test]
fn like_of_missing_post_fails() {
    let mut l = Ledger::new();
    assert_eq!(l.process_like_post(key(2), key(9)).unwrap_err(), ErrorCode::AccountNotInitialized);
}

#[test]
fn like_of_profile_address_fails() {
    let a = key(1);
    let mut l = Ledger::new();
    let pk = l.process_create_profile(a, "alice".to_string()).unwrap();
    assert_eq!(l.process_like_post(key(2), pk).unwrap_err(), ErrorCode::AccountNotInitialized);
}
