//! The five operations of the feed. Each takes the addresses that the
//! caller says are concerned, checks them and either commits as a whole or
//! fails and changes nothing. The `user` of an operation is the caller, whom
//! the ledger's runtime has authenticated before the operation starts.
//!
//! Whatever the operation, a missing record is reported first
//! (`NotFound`), then a caller or an address that is not the expected one
//! (`Unauthorized`), then an occupied target (`DuplicateInitialization`),
//! then a payer or a vault without the value (`InsufficientFunds`), and
//! last, once the fee could be paid, a post that would not fit
//! (`StorageExhausted`).

use crate::address::{
    bytes_of, derived_address, matches_derived, post_address, post_seeds, profile_address,
    profile_seeds, vault_address, vault_seeds, Address,
};
use crate::ledger::{Ledger, LedgerView, Record, RecordView};
use crate::records::{
    lemma_space_of_commented, text_space, Comment, CommentView, Error, Post, PostView,
    UserProfile, UserProfileView, LIKE_FEE, POST_BASE_SPACE, POST_FEE, POST_SPACE,
    PROFILE_SPACE,
};
use vstd::prelude::*;

verus! {

/// The accounts of `initialize_user`.
#[derive(Clone, Copy, Debug, PartialEq, Eq)]
pub struct InitializeUser {
    /// Where the profile is to be created.
    pub user_profile: Address,
    /// The caller, who pays for the profile's storage.
    pub user: Address,
}

/// The accounts of `initialize_post`.
#[derive(Clone, Copy, Debug, PartialEq, Eq)]
pub struct InitializePost {
    /// The caller, who pays the fee and for the post's storage.
    pub user: Address,
    /// The caller's profile.
    pub user_profile: Address,
    /// The caller's vault, which receives the fee.
    pub vault_account: Address,
    /// Where the post is to be created.
    pub post: Address,
}

/// The accounts of `like_post`.
#[derive(Clone, Copy, Debug, PartialEq, Eq)]
pub struct LikePost {
    /// The caller, who pays the fee.
    pub user: Address,
    /// The post's author, who receives the fee.
    pub author_account: Address,
    /// The post to like.
    pub post: Address,
}

/// The accounts of `comment_post`.
#[derive(Clone, Copy, Debug, PartialEq, Eq)]
pub struct CommentPost {
    /// The caller, who pays the fee.
    pub user: Address,
    /// The caller's vault, which receives the fee.
    pub vault_account: Address,
    /// The post to comment.
    pub post: Address,
}

/// The accounts of `delete_post`.
#[derive(Clone, Copy, Debug, PartialEq, Eq)]
pub struct DeletePost {
    /// The caller, who receives what the vault and the post hold.
    pub user: Address,
    /// The caller's vault, which is emptied.
    pub vault_account: Address,
    /// The post to delete.
    pub post: Address,
}

impl LedgerView {
    /// What `initialize_user` comes to, where `profile_at` holds the bytes
    /// of the address derived for the caller's profile.
    pub open spec fn initialize_user_at(
        self,
        ctx: InitializeUser,
        profile_at: Option<Seq<u8>>,
    ) -> Result<LedgerView, Error> {
        if profile_at != Some(ctx.user_profile@) {
            Err(Error::Unauthorized)
        } else {
            self.create(
                ctx.user_profile,
                PROFILE_SPACE as nat,
                ctx.user,
                RecordView::Profile(UserProfileView::fresh(ctx.user)),
            )
        }
    }

    /// What `initialize_user` comes to.
    pub open spec fn initialize_user(self, ctx: InitializeUser) -> Result<LedgerView, Error> {
        self.initialize_user_at(ctx, derived_address(profile_seeds(ctx.user), self.program))
    }

    /// What `initialize_post` comes to, where `profile_at`, `vault_at` and
    /// `post_at` hold the bytes of the addresses derived for the caller's
    /// profile, for their vault and for their next post.
    pub open spec fn initialize_post_at(
        self,
        ctx: InitializePost,
        title: Seq<char>,
        content: Seq<char>,
        profile_at: Option<Seq<u8>>,
        vault_at: Option<Seq<u8>>,
        post_at: Option<Seq<u8>>,
    ) -> Result<LedgerView, Error> {
        match self.profile(ctx.user_profile) {
            None => Err(Error::NotFound),
            Some(profile) => {
                let post = PostView::fresh(ctx.user, title, content);
                if profile.user != ctx.user || profile_at != Some(ctx.user_profile@) || vault_at
                    != Some(ctx.vault_account@) || post_at != Some(ctx.post@) {
                    Err(Error::Unauthorized)
                } else if self.has_account(ctx.post) {
                    Err(Error::DuplicateInitialization)
                } else if self.available(ctx.user) < self.storage_cost(POST_SPACE as nat)
                    + POST_FEE {
                    Err(Error::InsufficientFunds)
                } else if !post.fits() {
                    Err(Error::StorageExhausted)
                } else {
                    Ok(
                        self.created(
                            ctx.post,
                            POST_SPACE as nat,
                            ctx.user,
                            RecordView::Post(post),
                        ).moved(ctx.user, ctx.vault_account, POST_FEE as nat).with_record(
                            ctx.user_profile,
                            RecordView::Profile(profile.posted()),
                        ),
                    )
                }
            },
        }
    }

    /// The bytes of the address derived for the next post of the profile at
    /// `profile`, written by `author`.
    pub open spec fn next_post_address(self, profile: Address, author: Address) -> Option<Seq<u8>> {
        match self.profile(profile) {
            Some(found) => derived_address(
                post_seeds(author, found.post_count as u64),
                self.program,
            ),
            None => None,
        }
    }

    /// What `initialize_post` comes to.
    pub open spec fn initialize_post(
        self,
        ctx: InitializePost,
        title: Seq<char>,
        content: Seq<char>,
    ) -> Result<LedgerView, Error> {
        self.initialize_post_at(
            ctx,
            title,
            content,
            derived_address(profile_seeds(ctx.user), self.program),
            derived_address(vault_seeds(ctx.user), self.program),
            self.next_post_address(ctx.user_profile, ctx.user),
        )
    }

    /// What `like_post` comes to.
    pub open spec fn like_post(self, ctx: LikePost) -> Result<LedgerView, Error> {
        match self.post(ctx.post) {
            None => Err(Error::NotFound),
            Some(post) => {
                if ctx.author_account != post.author {
                    Err(Error::Unauthorized)
                } else if self.available(ctx.user) < LIKE_FEE {
                    Err(Error::InsufficientFunds)
                } else {
                    Ok(
                        self.moved(ctx.user, ctx.author_account, LIKE_FEE as nat).with_record(
                            ctx.post,
                            RecordView::Post(post.liked()),
                        ),
                    )
                }
            },
        }
    }

    /// What `comment_post` comes to, where `vault_at` holds the bytes of
    /// the address derived for the caller's vault.
    pub open spec fn comment_post_at(
        self,
        ctx: CommentPost,
        content: Seq<char>,
        timestamp: i64,
        vault_at: Option<Seq<u8>>,
    ) -> Result<LedgerView, Error> {
        match self.post(ctx.post) {
            None => Err(Error::NotFound),
            Some(post) => {
                let comment = CommentView { author: ctx.user, content, timestamp };
                if vault_at != Some(ctx.vault_account@) {
                    Err(Error::Unauthorized)
                } else if self.available(ctx.user) < POST_FEE {
                    Err(Error::InsufficientFunds)
                } else if !post.commented(comment).fits() {
                    Err(Error::StorageExhausted)
                } else {
                    Ok(
                        self.moved(ctx.user, ctx.vault_account, POST_FEE as nat).with_record(
                            ctx.post,
                            RecordView::Post(post.commented(comment)),
                        ),
                    )
                }
            },
        }
    }

    /// What `comment_post` comes to.
    pub open spec fn comment_post(
        self,
        ctx: CommentPost,
        content: Seq<char>,
        timestamp: i64,
    ) -> Result<LedgerView, Error> {
        self.comment_post_at(
            ctx,
            content,
            timestamp,
            derived_address(vault_seeds(ctx.user), self.program),
        )
    }

    /// What `delete_post` comes to, where `vault_at` holds the bytes of the
    /// address derived for the caller's vault.
    pub open spec fn delete_post_at(
        self,
        ctx: DeletePost,
        vault_at: Option<Seq<u8>>,
    ) -> Result<LedgerView, Error> {
        match self.post(ctx.post) {
            None => Err(Error::NotFound),
            Some(post) => {
                if ctx.user != post.author || vault_at != Some(ctx.vault_account@) {
                    Err(Error::Unauthorized)
                } else if self.available(ctx.vault_account) == 0 {
                    Err(Error::InsufficientFunds)
                } else {
                    Ok(
                        self.moved(
                            ctx.vault_account,
                            ctx.user,
                            self.available(ctx.vault_account),
                        ).closed(ctx.post, ctx.user),
                    )
                }
            },
        }
    }

    /// What `delete_post` comes to.
    pub open spec fn delete_post(self, ctx: DeletePost) -> Result<LedgerView, Error> {
        self.delete_post_at(ctx, derived_address(vault_seeds(ctx.user), self.program))
    }
}

/// Whether an operation ended as its model says: committed to `after`, or
/// failed with the model's error and left the ledger as it was.
pub open spec fn ended_as(
    model: Result<LedgerView, Error>,
    before: LedgerView,
    after: LedgerView,
    result: Result<(), Error>,
) -> bool {
    match model {
        Ok(committed) => result is Ok && after == committed,
        Err(e) => result == Err::<(), Error>(e) && after == before,
    }
}

/// What a caller is told of an operation before it is made: that it would
/// go through, or the error it would fail with.
pub open spec fn result_of(model: Result<LedgerView, Error>) -> Result<(), Error> {
    match model {
        Ok(_) => Ok(()),
        Err(e) => Err(e),
    }
}

/// Creates the caller's profile at the address that `profile_at` gives,
/// with no post counted. See `LedgerView::initialize_user_at`.
pub fn initialize_user_at(
    ledger: &mut Ledger,
    ctx: &InitializeUser,
    profile_at: &Option<Address>,
) -> (r: Result<(), Error>)
    requires
        old(ledger).wf(),
    ensures
        final(ledger).wf(),
        final(ledger).supply() == old(ledger).supply(),
        ended_as(
            old(ledger)@.initialize_user_at(*ctx, bytes_of(*profile_at)),
            old(ledger)@,
            final(ledger)@,
            r,
        ),
{
    if !matches_derived(profile_at, &ctx.user_profile) {
        return Err(Error::Unauthorized);
    }
    ledger.create(
        &ctx.user_profile,
        PROFILE_SPACE,
        &ctx.user,
        Record::Profile(UserProfile::new(ctx.user)),
    )
}

/// Creates the caller's profile, with no post counted, at the address
/// derived from `user_profile` and the caller. The caller pays for its
/// storage.
pub fn initialize_user(ledger: &mut Ledger, ctx: &InitializeUser) -> (r: Result<(), Error>)
    requires
        old(ledger).wf(),
    ensures
        final(ledger).wf(),
        final(ledger).supply() == old(ledger).supply(),
        ended_as(old(ledger)@.initialize_user(*ctx), old(ledger)@, final(ledger)@, r),
{
    let program = ledger.program();
    let profile_at = profile_address(&program, &ctx.user);
    initialize_user_at(ledger, ctx, &profile_at)
}

/// Whether a new post with these texts fits the space reserved for a post.
pub fn fresh_post_fits(title: &String, content: &String) -> (r: bool)
    ensures
        forall|author: Address| r == #[trigger] PostView::fresh(author, title@, content@).fits(),
{
    let fits = match text_space(title, POST_BASE_SPACE) {
        Some(with_title) => text_space(content, with_title).is_some(),
        None => false,
    };
    proof {
        assert forall|author: Address| fits == #[trigger] PostView::fresh(
            author,
            title@,
            content@,
        ).fits() by {
            assert(PostView::fresh(author, title@, content@).comments.len() == 0);
        }
    }
    fits
}

/// Says what `initialize_post_at` would come to on this ledger, and
/// changes nothing: `Ok` where the post would be published, else the error.
pub fn check_initialize_post_at(
    ledger: &Ledger,
    ctx: &InitializePost,
    title: &String,
    content: &String,
    profile_at: &Option<Address>,
    vault_at: &Option<Address>,
    post_at: &Option<Address>,
) -> (r: Result<(), Error>)
    requires
        ledger.wf(),
    ensures
        r == result_of(
            ledger@.initialize_post_at(
                *ctx,
                title@,
                content@,
                bytes_of(*profile_at),
                bytes_of(*vault_at),
                bytes_of(*post_at),
            ),
        ),
{
    let profile = match ledger.profile(&ctx.user_profile) {
        Some(profile) => profile,
        None => { return Err(Error::NotFound); },
    };
    if !profile.user.same(&ctx.user) || !matches_derived(profile_at, &ctx.user_profile)
        || !matches_derived(vault_at, &ctx.vault_account) || !matches_derived(
        post_at,
        &ctx.post,
    ) {
        return Err(Error::Unauthorized);
    }
    if ledger.has_account(&ctx.post) {
        return Err(Error::DuplicateInitialization);
    }
    let funds = ledger.available(&ctx.user);
    let cost = match ledger.storage_cost(POST_SPACE) {
        Some(cost) => cost,
        None => { return Err(Error::InsufficientFunds); },
    };
    if funds < cost || funds - cost < POST_FEE {
        return Err(Error::InsufficientFunds);
    }
    if !fresh_post_fits(title, content) {
        return Err(Error::StorageExhausted);
    }
    Ok(())
}

/// Says what `initialize_post` would come to on this ledger, and changes
/// nothing: `Ok` where the post would be published, else the error.
pub fn check_initialize_post(
    ledger: &Ledger,
    ctx: &InitializePost,
    title: &String,
    content: &String,
) -> (r: Result<(), Error>)
    requires
        ledger.wf(),
    ensures
        r == result_of(ledger@.initialize_post(*ctx, title@, content@)),
{
    let program = ledger.program();
    let profile_at = profile_address(&program, &ctx.user);
    let vault_at = vault_address(&program, &ctx.user);
    let post_at = match ledger.profile(&ctx.user_profile) {
        Some(profile) => post_address(&program, &ctx.user, profile.post_count),
        None => None,
    };
    check_initialize_post_at(ledger, ctx, title, content, &profile_at, &vault_at, &post_at)
}

/// Publishes a post of the caller at the address that `post_at` gives,
/// pays the fee into the vault that `vault_at` gives and counts the post on
/// the profile that `profile_at` gives. See
/// `LedgerView::initialize_post_at`. A profile that has counted `u64::MAX`
/// posts takes no further post: a call that would otherwise go through is
/// left out.
pub fn initialize_post_at(
    ledger: &mut Ledger,
    ctx: &InitializePost,
    title: String,
    content: String,
    profile_at: &Option<Address>,
    vault_at: &Option<Address>,
    post_at: &Option<Address>,
) -> (r: Result<(), Error>)
    requires
        old(ledger).wf(),
        old(ledger)@.initialize_post_at(
            *ctx,
            title@,
            content@,
            bytes_of(*profile_at),
            bytes_of(*vault_at),
            bytes_of(*post_at),
        ) is Ok ==> old(ledger)@.counted_posts(ctx.user_profile) < u64::MAX,
    ensures
        final(ledger).wf(),
        final(ledger).supply() == old(ledger).supply(),
        ended_as(
            old(ledger)@.initialize_post_at(
                *ctx,
                title@,
                content@,
                bytes_of(*profile_at),
                bytes_of(*vault_at),
                bytes_of(*post_at),
            ),
            old(ledger)@,
            final(ledger)@,
            r,
        ),
{
    let checked = check_initialize_post_at(
        ledger,
        ctx,
        &title,
        &content,
        profile_at,
        vault_at,
        post_at,
    );
    if checked.is_err() {
        return checked;
    }
    proof {
        ledger.lemma_wf();
    }
    let post = Post::new(ctx.user, title, content);
    let created = ledger.create(&ctx.post, POST_SPACE, &ctx.user, Record::Post(post));
    if created.is_err() {
        return created;
    }
    ledger.withdraw(&ctx.user, POST_FEE);
    ledger.deposit(&ctx.vault_account, POST_FEE);
    ledger.count_post(&ctx.user_profile);
    Ok(())
}

/// Publishes a post of the caller: charges the fee into the caller's
/// vault, creates the post at the address derived from the caller and the
/// number of posts counted so far, and counts it on the caller's profile.
/// A profile that has counted `u64::MAX` posts takes no further post: a
/// call that would otherwise go through is left out.
pub fn initialize_post(
    ledger: &mut Ledger,
    ctx: &InitializePost,
    title: String,
    content: String,
) -> (r: Result<(), Error>)
    requires
        old(ledger).wf(),
        old(ledger)@.initialize_post(*ctx, title@, content@) is Ok ==> old(
            ledger,
        )@.counted_posts(ctx.user_profile) < u64::MAX,
    ensures
        final(ledger).wf(),
        final(ledger).supply() == old(ledger).supply(),
        ended_as(
            old(ledger)@.initialize_post(*ctx, title@, content@),
            old(ledger)@,
            final(ledger)@,
            r,
        ),
{
    let program = ledger.program();
    let profile_at = profile_address(&program, &ctx.user);
    let vault_at = vault_address(&program, &ctx.user);
    let post_at = match ledger.profile(&ctx.user_profile) {
        Some(profile) => post_address(&program, &ctx.user, profile.post_count),
        None => None,
    };
    initialize_post_at(ledger, ctx, title, content, &profile_at, &vault_at, &post_at)
}

/// Publishes a post of the caller unless the profile's counter is full:
/// `None`, with nothing changed, where the post would go through but the
/// profile has counted `u64::MAX` posts; else what `initialize_post` gives.
pub fn try_initialize_post(
    ledger: &mut Ledger,
    ctx: &InitializePost,
    title: String,
    content: String,
) -> (r: Option<Result<(), Error>>)
    requires
        old(ledger).wf(),
    ensures
        final(ledger).wf(),
        final(ledger).supply() == old(ledger).supply(),
        r is None <==> old(ledger)@.initialize_post(*ctx, title@, content@) is Ok && old(
            ledger,
        )@.counted_posts(ctx.user_profile) >= u64::MAX,
        match r {
            Some(result) => ended_as(
                old(ledger)@.initialize_post(*ctx, title@, content@),
                old(ledger)@,
                final(ledger)@,
                result,
            ),
            None => final(ledger)@ == old(ledger)@,
        },
{
    let full = match ledger.profile(&ctx.user_profile) {
        Some(profile) => profile.post_count == u64::MAX,
        None => false,
    };
    if full {
        match check_initialize_post(ledger, ctx, &title, &content) {
            Ok(()) => None,
            Err(e) => Some(Err(e)),
        }
    } else {
        Some(initialize_post(ledger, ctx, title, content))
    }
}

/// Says what `like_post` would come to on this ledger, and changes
/// nothing: `Ok` where the like would be counted, else the error.
pub fn check_like_post(ledger: &Ledger, ctx: &LikePost) -> (r: Result<(), Error>)
    requires
        ledger.wf(),
    ensures
        r == result_of(ledger@.like_post(*ctx)),
{
    let author = match ledger.post(&ctx.post) {
        Some(post) => post.author,
        None => { return Err(Error::NotFound); },
    };
    if !ctx.author_account.same(&author) {
        return Err(Error::Unauthorized);
    }
    if ledger.available(&ctx.user) < LIKE_FEE {
        return Err(Error::InsufficientFunds);
    }
    Ok(())
}

/// Likes a post: pays the fee to the post's author and counts the like. A
/// post that has counted `u64::MAX` likes takes no further like: a call
/// that would otherwise go through is left out.
pub fn like_post(ledger: &mut Ledger, ctx: &LikePost) -> (r: Result<(), Error>)
    requires
        old(ledger).wf(),
        old(ledger)@.like_post(*ctx) is Ok ==> old(ledger)@.counted_likes(ctx.post) < u64::MAX,
    ensures
        final(ledger).wf(),
        final(ledger).supply() == old(ledger).supply(),
        ended_as(old(ledger)@.like_post(*ctx), old(ledger)@, final(ledger)@, r),
{
    let checked = check_like_post(ledger, ctx);
    if checked.is_err() {
        return checked;
    }
    proof {
        ledger.lemma_wf();
    }
    ledger.withdraw(&ctx.user, LIKE_FEE);
    ledger.deposit(&ctx.author_account, LIKE_FEE);
    ledger.like(&ctx.post);
    Ok(())
}

/// Likes a post unless its counter is full: `None`, with nothing changed,
/// where the like would go through but the post has counted `u64::MAX`
/// likes; else what `like_post` gives.
pub fn try_like_post(ledger: &mut Ledger, ctx: &LikePost) -> (r: Option<Result<(), Error>>)
    requires
        old(ledger).wf(),
    ensures
        final(ledger).wf(),
        final(ledger).supply() == old(ledger).supply(),
        r is None <==> old(ledger)@.like_post(*ctx) is Ok && old(ledger)@.counted_likes(ctx.post)
            >= u64::MAX,
        match r {
            Some(result) => ended_as(
                old(ledger)@.like_post(*ctx),
                old(ledger)@,
                final(ledger)@,
                result,
            ),
            None => final(ledger)@ == old(ledger)@,
        },
{
    let full = match ledger.post(&ctx.post) {
        Some(post) => post.like_count == u64::MAX,
        None => false,
    };
    if full {
        match check_like_post(ledger, ctx) {
            Ok(()) => None,
            Err(e) => Some(Err(e)),
        }
    } else {
        Some(like_post(ledger, ctx))
    }
}

/// Comments a post at the given time, paying the fee into the vault that
/// `vault_at` gives. See `LedgerView::comment_post_at`.
pub fn comment_post_at(
    ledger: &mut Ledger,
    ctx: &CommentPost,
    content: String,
    timestamp: i64,
    vault_at: &Option<Address>,
) -> (r: Result<(), Error>)
    requires
        old(ledger).wf(),
    ensures
        final(ledger).wf(),
        final(ledger).supply() == old(ledger).supply(),
        ended_as(
            old(ledger)@.comment_post_at(*ctx, content@, timestamp, bytes_of(*vault_at)),
            old(ledger)@,
            final(ledger)@,
            r,
        ),
{
    let used = match ledger.post(&ctx.post) {
        Some(post) => post.space(),
        None => { return Err(Error::NotFound); },
    };
    if !matches_derived(vault_at, &ctx.vault_account) {
        return Err(Error::Unauthorized);
    }
    let comment = Comment { author: ctx.user, content, timestamp };
    proof {
        ledger.lemma_wf();
        lemma_space_of_commented(ledger@.post(ctx.post).unwrap(), comment@);
    }
    if ledger.available(&ctx.user) < POST_FEE {
        return Err(Error::InsufficientFunds);
    }
    let fits = match (used, comment.space()) {
        (Some(used), Some(more)) => more <= POST_SPACE - used,
        _ => false,
    };
    if !fits {
        return Err(Error::StorageExhausted);
    }
    ledger.withdraw(&ctx.user, POST_FEE);
    ledger.deposit(&ctx.vault_account, POST_FEE);
    ledger.append_comment(&ctx.post, comment);
    Ok(())
}

/// Comments a post at the given time: pays the fee into the caller's own
/// vault and appends the comment to the post's thread.
pub fn comment_post(
    ledger: &mut Ledger,
    ctx: &CommentPost,
    content: String,
    timestamp: i64,
) -> (r: Result<(), Error>)
    requires
        old(ledger).wf(),
    ensures
        final(ledger).wf(),
        final(ledger).supply() == old(ledger).supply(),
        ended_as(
            old(ledger)@.comment_post(*ctx, content@, timestamp),
            old(ledger)@,
            final(ledger)@,
            r,
        ),
{
    let program = ledger.program();
    let vault_at = vault_address(&program, &ctx.user);
    comment_post_at(ledger, ctx, content, timestamp, &vault_at)
}

/// Deletes a post of the caller, emptying the vault that `vault_at` gives
/// into the caller's account. See `LedgerView::delete_post_at`.
pub fn delete_post_at(
    ledger: &mut Ledger,
    ctx: &DeletePost,
    vault_at: &Option<Address>,
) -> (r: Result<(), Error>)
    requires
        old(ledger).wf(),
    ensures
        final(ledger).wf(),
        final(ledger).supply() == old(ledger).supply(),
        ended_as(
            old(ledger)@.delete_post_at(*ctx, bytes_of(*vault_at)),
            old(ledger)@,
            final(ledger)@,
            r,
        ),
{
    let author = match ledger.post(&ctx.post) {
        Some(post) => post.author,
        None => { return Err(Error::NotFound); },
    };
    if !ctx.user.same(&author) || !matches_derived(vault_at, &ctx.vault_account) {
        return Err(Error::Unauthorized);
    }
    let escrow = ledger.available(&ctx.vault_account);
    if escrow == 0 {
        return Err(Error::InsufficientFunds);
    }
    proof {
        ledger.lemma_wf();
    }
    let paid = ledger.transfer_as(&ctx.vault_account, &ctx.user, escrow, vault_at);
    if paid.is_err() {
        return paid;
    }
    ledger.close(&ctx.post, &ctx.user)
}

/// Deletes a post of the caller: everything that the caller's vault holds
/// goes to the caller, the post is closed and what its account held goes
/// to the caller too.
pub fn delete_post(ledger: &mut Ledger, ctx: &DeletePost) -> (r: Result<(), Error>)
    requires
        old(ledger).wf(),
    ensures
        final(ledger).wf(),
        final(ledger).supply() == old(ledger).supply(),
        ended_as(old(ledger)@.delete_post(*ctx), old(ledger)@, final(ledger)@, r),
{
    let program = ledger.program();
    let vault_at = vault_address(&program, &ctx.user);
    delete_post_at(ledger, ctx, &vault_at)
}

} // verus!
