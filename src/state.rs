use vstd::prelude::*;
use crate::address::Pubkey;

verus! {

/// Most bytes of a username.
pub const MAX_USERNAME_LEN: usize = 32;

/// Most bytes of the content of a post.
pub const MAX_CONTENT_LEN: usize = 280;

/// Length of a text in bytes, as it is stored (UTF-8).
pub open spec fn text_len(s: Seq<char>) -> nat {
    vstd::utf8::encode_utf8(s).len()
}

/// Byte length of `s`.
pub fn byte_len(s: &String) -> (r: usize)
    ensures
        r as nat == text_len(s@),
{
    let bytes = s.as_str().as_bytes();
    bytes.len()
}

/// The one profile of an owner, with the counter of its posts.
#[derive(Clone, Debug)]
pub struct Profile {
    pub author: Pubkey,
    pub username: String,
    pub last_post_id: u64,
    pub bump: u8,
}

/// A post: its author, its number among the author's posts, its likes.
#[derive(Clone, Debug)]
pub struct Post {
    pub author: Pubkey,
    pub post_id: u64,
    pub content: String,
    pub like_count: u64,
    pub bump: u8,
}

/// One user's like of the post at address `post`.
#[derive(Clone, Copy, Debug)]
pub struct Like {
    pub post: Pubkey,
    pub user: Pubkey,
    pub bump: u8,
}

/// Why an instruction failed; a failed instruction writes nothing.
#[derive(Clone, Copy, Debug, PartialEq, Eq, Structural)]
pub enum ErrorCode {
    /// A counter at `u64::MAX` was to be incremented.
    Overflow,
    /// The address to initialise already holds a record.
    InitializationConflict,
    /// A supplied address is not the one its seeds derive.
    AddressMismatch,
    /// An address that should hold a record of some kind does not.
    AccountNotInitialized,
    /// The content of a post is longer than its budget.
    ContentTooLong,
    /// The username is longer than its budget.
    UsernameTooLong,
    /// No bump gives a valid address for the seeds.
    BumpNotFound,
}

/// A key of 32 zero bytes.
pub fn zero_key() -> (r: Pubkey)
    ensures
        r@ == Seq::new(32, |i: int| 0u8),
{
    let r = Pubkey { bytes: [0u8; 32] };
    assert(r@ =~= Seq::new(32, |i: int| 0u8));
    r
}

impl Profile {
    /// A freshly allocated, zeroed profile record.
    pub fn blank() -> (r: Profile)
        ensures
            r.username@.len() == 0,
            r.last_post_id == 0,
            r.bump == 0,
    {
        Profile { author: zero_key(), username: String::new(), last_post_id: 0, bump: 0 }
    }
}

impl Post {
    /// A freshly allocated, zeroed post record.
    pub fn blank() -> (r: Post)
        ensures
            r.post_id == 0,
            r.content@.len() == 0,
            r.like_count == 0,
            r.bump == 0,
    {
        Post { author: zero_key(), post_id: 0, content: String::new(), like_count: 0, bump: 0 }
    }
}

impl Like {
    /// A freshly allocated, zeroed like record.
    pub fn blank() -> (r: Like)
        ensures
            r.bump == 0,
    {
        Like { post: zero_key(), user: zero_key(), bump: 0 }
    }
}

} // verus!
