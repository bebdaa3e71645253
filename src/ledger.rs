use vstd::prelude::*;
use crate::address::{
    derive_spec, like_address, like_seeds, post_address, post_seeds, profile_address,
    profile_seeds, same_key, Pubkey,
};
use crate::laws::{
    lemma_create_post_keeps_valid, lemma_create_profile_keeps_valid, lemma_empty_valid,
    lemma_like_post_keeps_valid, valid,
};
use crate::instructions::{create_post, create_profile, like_post, CreatePost, CreateProfile, LikePost};
use crate::state::{text_len, ErrorCode, Like, Post, Profile, MAX_CONTENT_LEN, MAX_USERNAME_LEN};

verus! {

/// A record stored at an address of the ledger.
pub enum Account {
    Profile(Profile),
    Post(Post),
    Like(Like),
}

/// The records of the ledger, each at its own address. An address is written
/// for the first time at most once: records are never deleted.
pub struct Ledger {
    entries: Vec<(Pubkey, Account)>,
}

/// The map from address bytes to record that a list of entries stands for.
pub open spec fn map_of(s: Seq<(Pubkey, Account)>) -> Map<Seq<u8>, Account>
    decreases s.len(),
{
    if s.len() == 0 {
        Map::empty()
    } else {
        map_of(s.drop_last()).insert(s.last().0@, s.last().1)
    }
}

/// No two entries hold the same address.
pub open spec fn keys_distinct(s: Seq<(Pubkey, Account)>) -> bool {
    forall|i: int, j: int| 0 <= i < j < s.len() ==> s[i].0@ != s[j].0@
}

proof fn lemma_map_of_index(s: Seq<(Pubkey, Account)>, i: int)
    requires
        keys_distinct(s),
        0 <= i < s.len(),
    ensures
        map_of(s).contains_key(s[i].0@),
        map_of(s)[s[i].0@] == s[i].1,
    decreases s.len(),
{
    if i < s.len() - 1 {
        let t = s.drop_last();
        assert(keys_distinct(t)) by {
            assert forall|a: int, b: int| 0 <= a < b < t.len() implies t[a].0@ != t[b].0@ by {
                assert(t[a] == s[a] && t[b] == s[b]);
            }
        }
        assert(t[i] == s[i]);
        lemma_map_of_index(t, i);
    }
}

proof fn lemma_map_of_absent(s: Seq<(Pubkey, Account)>, k: Seq<u8>)
    requires
        forall|i: int| 0 <= i < s.len() ==> s[i].0@ != k,
    ensures
        !map_of(s).contains_key(k),
    decreases s.len(),
{
    if s.len() > 0 {
        let t = s.drop_last();
        assert forall|i: int| 0 <= i < t.len() implies t[i].0@ != k by {
            assert(t[i] == s[i]);
        }
        lemma_map_of_absent(t, k);
    }
}

proof fn lemma_map_of_update(s: Seq<(Pubkey, Account)>, i: int, e: (Pubkey, Account))
    requires
        keys_distinct(s),
        0 <= i < s.len(),
        e.0@ == s[i].0@,
    ensures
        map_of(s.update(i, e)) == map_of(s).insert(e.0@, e.1),
    decreases s.len(),
{
    let t = s.update(i, e);
    if i == s.len() - 1 {
        assert(t.drop_last() =~= s.drop_last());
        assert(map_of(t) =~= map_of(s).insert(e.0@, e.1));
    } else {
        let d = s.drop_last();
        assert(keys_distinct(d)) by {
            assert forall|a: int, b: int| 0 <= a < b < d.len() implies d[a].0@ != d[b].0@ by {
                assert(d[a] == s[a] && d[b] == s[b]);
            }
        }
        assert(t.drop_last() =~= d.update(i, e));
        lemma_map_of_update(d, i, e);
        assert(s.last().0@ != e.0@);
        assert(map_of(t) =~= map_of(s).insert(e.0@, e.1));
    }
}

/// The key of a result, as bytes.
pub open spec fn key_result(r: Result<Pubkey, ErrorCode>) -> Result<Seq<u8>, ErrorCode> {
    match r {
        Ok(k) => Ok(k@),
        Err(e) => Err(e),
    }
}

/// The address `k` holds a profile.
pub open spec fn holds_profile(m: Map<Seq<u8>, Account>, k: Seq<u8>) -> bool {
    m.contains_key(k) && m[k] is Profile
}

/// The address `k` holds a post.
pub open spec fn holds_post(m: Map<Seq<u8>, Account>, k: Seq<u8>) -> bool {
    m.contains_key(k) && m[k] is Post
}

/// What `create_profile` submitted by `signer` returns on the ledger `m`: the
/// profile's address, or why it fails.
pub open spec fn create_profile_outcome(m: Map<Seq<u8>, Account>, signer: Pubkey, username: String) -> Result<Seq<u8>, ErrorCode> {
    match derive_spec(profile_seeds(signer@)) {
        None => Err(ErrorCode::BumpNotFound),
        Some((k, _b)) => if m.contains_key(k) {
            Err(ErrorCode::InitializationConflict)
        } else if text_len(username@) > MAX_USERNAME_LEN {
            Err(ErrorCode::UsernameTooLong)
        } else {
            Ok(k)
        },
    }
}

/// The ledger after `create_profile` submitted by `signer` on `m`.
pub open spec fn create_profile_next(m: Map<Seq<u8>, Account>, signer: Pubkey, username: String) -> Map<Seq<u8>, Account> {
    if create_profile_outcome(m, signer, username) is Ok {
        let (k, b) = derive_spec(profile_seeds(signer@))->Some_0;
        m.insert(k, Account::Profile(Profile { author: signer, username, last_post_id: 0, bump: b }))
    } else {
        m
    }
}

/// What `create_post` submitted by `signer`, naming `post` as the address of
/// the new post, returns on the ledger `m`.
pub open spec fn create_post_outcome(m: Map<Seq<u8>, Account>, signer: Pubkey, post: Pubkey, content: String) -> Result<(), ErrorCode> {
    match derive_spec(profile_seeds(signer@)) {
        None => Err(ErrorCode::BumpNotFound),
        Some((pk, _b)) => if !holds_profile(m, pk) {
            Err(ErrorCode::AccountNotInitialized)
        } else if m[pk]->Profile_0.author@ != signer@ {
            Err(ErrorCode::AddressMismatch)
        } else if m[pk]->Profile_0.last_post_id == u64::MAX {
            Err(ErrorCode::Overflow)
        } else {
            match derive_spec(post_seeds(signer@, (m[pk]->Profile_0.last_post_id + 1) as nat)) {
                None => Err(ErrorCode::BumpNotFound),
                Some((k, _b)) => if k != post@ {
                    Err(ErrorCode::AddressMismatch)
                } else if m.contains_key(k) {
                    Err(ErrorCode::InitializationConflict)
                } else if text_len(content@) > MAX_CONTENT_LEN {
                    Err(ErrorCode::ContentTooLong)
                } else {
                    Ok(())
                },
            }
        },
    }
}

/// The ledger after `create_post` submitted by `signer` on `m`: the new post
/// is stored and the profile's counter advanced to it, or nothing changes.
pub open spec fn create_post_next(m: Map<Seq<u8>, Account>, signer: Pubkey, post: Pubkey, content: String) -> Map<Seq<u8>, Account> {
    if create_post_outcome(m, signer, post, content) is Ok {
        let pk = derive_spec(profile_seeds(signer@))->Some_0.0;
        let p = m[pk]->Profile_0;
        let id = (p.last_post_id + 1) as u64;
        let b = derive_spec(post_seeds(signer@, id as nat))->Some_0.1;
        m.insert(pk, Account::Profile(Profile { last_post_id: id, ..p })).insert(
            post@,
            Account::Post(Post { author: signer, post_id: id, content, like_count: 0, bump: b }),
        )
    } else {
        m
    }
}

/// What `like_post` submitted by `signer` on the post at `post` returns on
/// the ledger `m`: the like's address, or why it fails.
pub open spec fn like_post_outcome(m: Map<Seq<u8>, Account>, signer: Pubkey, post: Pubkey) -> Result<Seq<u8>, ErrorCode> {
    if !holds_post(m, post@) {
        Err(ErrorCode::AccountNotInitialized)
    } else {
        let p = m[post@]->Post_0;
        match derive_spec(post_seeds(p.author@, p.post_id as nat)) {
            None => Err(ErrorCode::BumpNotFound),
            Some((k, b)) => if k != post@ || b != p.bump {
                Err(ErrorCode::AddressMismatch)
            } else {
                match derive_spec(like_seeds(post@, signer@)) {
                    None => Err(ErrorCode::BumpNotFound),
                    Some((lk, _lb)) => if m.contains_key(lk) {
                        Err(ErrorCode::InitializationConflict)
                    } else if p.like_count == u64::MAX {
                        Err(ErrorCode::Overflow)
                    } else {
                        Ok(lk)
                    },
                }
            },
        }
    }
}

/// The ledger after `like_post` submitted by `signer` on `m`: the like is
/// stored and counted on the post, or nothing changes.
pub open spec fn like_post_next(m: Map<Seq<u8>, Account>, signer: Pubkey, post: Pubkey) -> Map<Seq<u8>, Account> {
    if like_post_outcome(m, signer, post) is Ok {
        let p = m[post@]->Post_0;
        let (lk, lb) = derive_spec(like_seeds(post@, signer@))->Some_0;
        m.insert(post@, Account::Post(Post { like_count: (p.like_count + 1) as u64, ..p })).insert(
            lk,
            Account::Like(Like { post, user: signer, bump: lb }),
        )
    } else {
        m
    }
}

fn copy_profile(p: &Profile) -> (r: Profile)
    ensures
        r == *p,
{
    Profile { author: p.author, username: p.username.clone(), last_post_id: p.last_post_id, bump: p.bump }
}

fn copy_post(p: &Post) -> (r: Post)
    ensures
        r == *p,
{
    Post {
        author: p.author,
        post_id: p.post_id,
        content: p.content.clone(),
        like_count: p.like_count,
        bump: p.bump,
    }
}

impl View for Ledger {
    type V = Map<Seq<u8>, Account>;

    closed spec fn view(&self) -> Map<Seq<u8>, Account> {
        map_of(self.entries@)
    }
}

impl Ledger {
    /// The ledger's entries hold distinct addresses.
    pub closed spec fn wf(&self) -> bool {
        keys_distinct(self.entries@)
    }

    /// A ledger with no records.
    pub fn new() -> (r: Ledger)
        ensures
            r.wf(),
            r@ == Map::<Seq<u8>, Account>::empty(),
            valid(r@),
    {
        proof {
            lemma_empty_valid();
        }
        Ledger { entries: Vec::new() }
    }

    fn find(&self, k: &Pubkey) -> (r: Option<usize>)
        requires
            self.wf(),
        ensures
            match r {
                Some(i) => i < self.entries@.len() && self.entries@[i as int].0@ == k@
                    && self@.contains_key(k@) && self@[k@] == self.entries@[i as int].1,
                None => !self@.contains_key(k@),
            },
    {
        let mut i: usize = 0;
        while i < self.entries.len()
            invariant
                self.wf(),
                i <= self.entries@.len(),
                forall|j: int| 0 <= j < i ==> self.entries@[j].0@ != k@,
            decreases self.entries@.len() - i,
        {
            if same_key(&self.entries[i].0, k) {
                proof {
                    lemma_map_of_index(self.entries@, i as int);
                }
                return Some(i);
            }
            i = i + 1;
        }
        proof {
            lemma_map_of_absent(self.entries@, k@);
        }
        None
    }

    /// Whether the address `k` holds a record.
    pub fn contains(&self, k: &Pubkey) -> (r: bool)
        requires
            self.wf(),
        ensures
            r == self@.contains_key(k@),
    {
        self.find(k).is_some()
    }

    /// The record at `k`, if any.
    pub fn get(&self, k: &Pubkey) -> (r: Option<&Account>)
        requires
            self.wf(),
        ensures
            r is Some == self@.contains_key(k@),
            r matches Some(a) ==> *a == self@[k@],
    {
        match self.find(k) {
            Some(i) => Some(&self.entries[i].1),
            None => None,
        }
    }

    fn insert_new(&mut self, k: Pubkey, a: Account)
        requires
            old(self).wf(),
            !old(self)@.contains_key(k@),
        ensures
            final(self).wf(),
            final(self)@ == old(self)@.insert(k@, a),
    {
        let ghost s = self.entries@;
        proof {
            assert forall|j: int| 0 <= j < s.len() implies s[j].0@ != k@ by {
                if s[j].0@ == k@ {
                    lemma_map_of_index(s, j);
                }
            }
        }
        self.entries.push((k, a));
        proof {
            assert(self.entries@.drop_last() =~= s);
        }
    }

    fn replace_at(&mut self, i: usize, a: Account)
        requires
            old(self).wf(),
            i < old(self).entries@.len(),
        ensures
            final(self).wf(),
            final(self)@ == old(self)@.insert(old(self).entries@[i as int].0@, a),
    {
        let ghost s = self.entries@;
        let (k, _old) = self.entries.remove(i);
        self.entries.insert(i, (k, a));
        proof {
            assert(self.entries@ =~= s.update(i as int, (k, a)));
            lemma_map_of_update(s, i as int, (k, a));
        }
    }
    /// Runs `create_profile` for `signer`: derives the profile's address,
    /// refuses it if it already holds a record, and stores the new profile.
    pub fn process_create_profile(&mut self, signer: Pubkey, username: String) -> (r: Result<Pubkey, ErrorCode>)
        requires
            old(self).wf(),
        ensures
            final(self).wf(),
            key_result(r) == create_profile_outcome(old(self)@, signer, username),
            final(self)@ == create_profile_next(old(self)@, signer, username),
            valid(old(self)@) ==> valid(final(self)@),
    {
        proof {
            if valid(self@) {
                lemma_create_profile_keeps_valid(self@, signer, username);
            }
        }
        let (k, b) = match profile_address(&signer) {
            Some(x) => x,
            None => return Err(ErrorCode::BumpNotFound),
        };
        if self.contains(&k) {
            return Err(ErrorCode::InitializationConflict);
        }
        let mut ctx = CreateProfile { user: signer, profile: Profile::blank(), profile_bump: b };
        match create_profile(&mut ctx, username) {
            Err(e) => Err(e),
            Ok(()) => {
                self.insert_new(k, Account::Profile(ctx.profile));
                Ok(k)
            },
        }
    }

    /// Runs `create_post` for `signer`, whose new post the caller resolved to
    /// the address `post`: loads the signer's profile, checks that it is the
    /// signer's, checks that `post` is
    /// the address of its next post and is free, stores the post and advances
    /// the profile's counter.
    pub fn process_create_post(&mut self, signer: Pubkey, post: Pubkey, content: String) -> (r: Result<(), ErrorCode>)
        requires
            old(self).wf(),
        ensures
            final(self).wf(),
            r == create_post_outcome(old(self)@, signer, post, content),
            final(self)@ == create_post_next(old(self)@, signer, post, content),
            valid(old(self)@) ==> valid(final(self)@),
    {
        proof {
            if valid(self@) {
                lemma_create_post_keeps_valid(self@, signer, post, content);
            }
        }
        let (pk, _pb) = match profile_address(&signer) {
            Some(x) => x,
            None => return Err(ErrorCode::BumpNotFound),
        };
        let i = match self.find(&pk) {
            Some(i) => i,
            None => return Err(ErrorCode::AccountNotInitialized),
        };
        let profile = match &self.entries[i].1 {
            Account::Profile(p) => copy_profile(p),
            _ => return Err(ErrorCode::AccountNotInitialized),
        };
        if !same_key(&profile.author, &signer) {
            return Err(ErrorCode::AddressMismatch);
        }
        let next_post_id = match profile.last_post_id.checked_add(1) {
            Some(n) => n,
            None => return Err(ErrorCode::Overflow),
        };
        let (k, b) = match post_address(&signer, next_post_id) {
            Some(x) => x,
            None => return Err(ErrorCode::BumpNotFound),
        };
        if !same_key(&k, &post) {
            return Err(ErrorCode::AddressMismatch);
        }
        if self.contains(&k) {
            return Err(ErrorCode::InitializationConflict);
        }
        let mut ctx = CreatePost { user: signer, profile, post: Post::blank(), post_bump: b };
        match create_post(&mut ctx, content) {
            Err(e) => Err(e),
            Ok(()) => {
                self.replace_at(i, Account::Profile(ctx.profile));
                self.insert_new(post, Account::Post(ctx.post));
                Ok(())
            },
        }
    }

    /// Runs `like_post` for `signer` on the post at `post`: checks the post's
    /// address against its seeds and bump, refuses a like address that
    /// already holds a record, stores the like and counts it on the post.
    pub fn process_like_post(&mut self, signer: Pubkey, post: Pubkey) -> (r: Result<Pubkey, ErrorCode>)
        requires
            old(self).wf(),
        ensures
            final(self).wf(),
            key_result(r) == like_post_outcome(old(self)@, signer, post),
            final(self)@ == like_post_next(old(self)@, signer, post),
            valid(old(self)@) ==> valid(final(self)@),
    {
        proof {
            if valid(self@) {
                lemma_like_post_keeps_valid(self@, signer, post);
            }
        }
        let i = match self.find(&post) {
            Some(i) => i,
            None => return Err(ErrorCode::AccountNotInitialized),
        };
        let p = match &self.entries[i].1 {
            Account::Post(p) => copy_post(p),
            _ => return Err(ErrorCode::AccountNotInitialized),
        };
        let (k, b) = match post_address(&p.author, p.post_id) {
            Some(x) => x,
            None => return Err(ErrorCode::BumpNotFound),
        };
        if !same_key(&k, &post) || b != p.bump {
            return Err(ErrorCode::AddressMismatch);
        }
        let (lk, lb) = match like_address(&post, &signer) {
            Some(x) => x,
            None => return Err(ErrorCode::BumpNotFound),
        };
        if self.contains(&lk) {
            return Err(ErrorCode::InitializationConflict);
        }
        let mut ctx = LikePost { user: signer, post_key: post, post: p, like: Like::blank(), like_bump: lb };
        match like_post(&mut ctx) {
            Err(e) => Err(e),
            Ok(()) => {
                self.replace_at(i, Account::Post(ctx.post));
                self.insert_new(lk, Account::Like(ctx.like));
                Ok(lk)
            },
        }
    }
}

} // verus!
