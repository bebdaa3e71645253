use vstd::prelude::*;
use crate::address::Pubkey;
use crate::state::{byte_len, text_len, ErrorCode, Like, Post, Profile, MAX_CONTENT_LEN, MAX_USERNAME_LEN};

verus! {

/// Accounts of `create_profile`: the signer, the profile record to
/// initialise and the bump of its address.
pub struct CreateProfile {
    pub user: Pubkey,
    pub profile: Profile,
    pub profile_bump: u8,
}

/// Accounts of `create_post`: the signer, the signer's profile, the post
/// record to initialise and the bump of its address.
pub struct CreatePost {
    pub user: Pubkey,
    pub profile: Profile,
    pub post: Post,
    pub post_bump: u8,
}

/// Accounts of `like_post`: the signer, the liked post and its address, the
/// like record to initialise and the bump of its address.
pub struct LikePost {
    pub user: Pubkey,
    pub post_key: Pubkey,
    pub post: Post,
    pub like: Like,
    pub like_bump: u8,
}

/// Fills the profile record of the signer: owner, username, a post counter at 0.
pub fn create_profile(ctx: &mut CreateProfile, username: String) -> (r: Result<(), ErrorCode>)
    ensures
        text_len(username@) > MAX_USERNAME_LEN ==> r == Err::<(), ErrorCode>(ErrorCode::UsernameTooLong)
            && *final(ctx) == *old(ctx),
        text_len(username@) <= MAX_USERNAME_LEN ==> r is Ok && final(ctx).user == old(ctx).user
            && final(ctx).profile_bump == old(ctx).profile_bump && final(ctx).profile == (Profile {
            author: old(ctx).user,
            username: username,
            last_post_id: 0,
            bump: old(ctx).profile_bump,
        }),
{
    if byte_len(&username) > MAX_USERNAME_LEN {
        return Err(ErrorCode::UsernameTooLong);
    }
    ctx.profile.author = ctx.user;
    ctx.profile.username = username;
    ctx.profile.last_post_id = 0;
    ctx.profile.bump = ctx.profile_bump;
    Ok(())
}

/// Fills the next post of the signer's profile and then advances the profile's
/// counter to it. On overflow of the counter or oversize content nothing is
/// written.
pub fn create_post(ctx: &mut CreatePost, content: String) -> (r: Result<(), ErrorCode>)
    ensures
        old(ctx).profile.last_post_id == u64::MAX ==> r == Err::<(), ErrorCode>(ErrorCode::Overflow)
            && *final(ctx) == *old(ctx),
        old(ctx).profile.last_post_id < u64::MAX && text_len(content@) > MAX_CONTENT_LEN ==> r
            == Err::<(), ErrorCode>(ErrorCode::ContentTooLong) && *final(ctx) == *old(ctx),
        old(ctx).profile.last_post_id < u64::MAX && text_len(content@) <= MAX_CONTENT_LEN ==> r is Ok
            && final(ctx).user == old(ctx).user && final(ctx).post_bump == old(ctx).post_bump
            && final(ctx).post == (Post {
            author: old(ctx).user,
            post_id: (old(ctx).profile.last_post_id + 1) as u64,
            content: content,
            like_count: 0,
            bump: old(ctx).post_bump,
        }) && final(ctx).profile == (Profile {
            last_post_id: (old(ctx).profile.last_post_id + 1) as u64,
            ..old(ctx).profile
        }),
{
    let next_post_id = match ctx.profile.last_post_id.checked_add(1) {
        Some(n) => n,
        None => return Err(ErrorCode::Overflow),
    };
    if byte_len(&content) > MAX_CONTENT_LEN {
        return Err(ErrorCode::ContentTooLong);
    }
    ctx.post.author = ctx.user;
    ctx.post.post_id = next_post_id;
    ctx.post.content = content;
    ctx.post.like_count = 0;
    ctx.post.bump = ctx.post_bump;
    ctx.profile.last_post_id = next_post_id;
    Ok(())
}

/// Fills the like record of the signer on the post and counts it on the post.
/// On overflow of the like counter nothing is written.
pub fn like_post(ctx: &mut LikePost) -> (r: Result<(), ErrorCode>)
    ensures
        old(ctx).post.like_count == u64::MAX ==> r == Err::<(), ErrorCode>(ErrorCode::Overflow)
            && *final(ctx) == *old(ctx),
        old(ctx).post.like_count < u64::MAX ==> r is Ok && final(ctx).user == old(ctx).user
            && final(ctx).post_key == old(ctx).post_key && final(ctx).like_bump == old(ctx).like_bump
            && final(ctx).like == (Like {
            post: old(ctx).post_key,
            user: old(ctx).user,
            bump: old(ctx).like_bump,
        }) && final(ctx).post == (Post {
            like_count: (old(ctx).post.like_count + 1) as u64,
            ..old(ctx).post
        }),
{
    let like_count = match ctx.post.like_count.checked_add(1) {
        Some(n) => n,
        None => return Err(ErrorCode::Overflow),
    };
    ctx.like.post = ctx.post_key;
    ctx.like.user = ctx.user;
    ctx.like.bump = ctx.like_bump;
    ctx.post.like_count = like_count;
    Ok(())
}

} // verus!
