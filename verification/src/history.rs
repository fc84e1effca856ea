//! Runs of operations on the model of the ledger, and what holds of every
//! run.

use crate::address::{
    derives_to, lemma_address_by_bytes, post_seeds, profile_seeds, vault_seeds, Address,
};
use crate::handlers::{CommentPost, DeletePost, InitializePost, InitializeUser, LikePost};
use crate::ledger::LedgerView;
use crate::records::{CommentView, Error, PostView, LIKE_FEE, POST_FEE};
use vstd::prelude::*;

verus! {

/// One operation with everything it is called with.
pub enum Call {
    /// `initialize_user` with its accounts.
    InitializeUser(InitializeUser),
    /// `initialize_post` with its accounts, the title and the content.
    InitializePost(InitializePost, Seq<char>, Seq<char>),
    /// `like_post` with its accounts.
    LikePost(LikePost),
    /// `comment_post` with its accounts, the content and the time.
    CommentPost(CommentPost, Seq<char>, i64),
    /// `delete_post` with its accounts.
    DeletePost(DeletePost),
}

impl LedgerView {
    /// What a call comes to.
    pub open spec fn outcome(self, call: Call) -> Result<LedgerView, Error> {
        match call {
            Call::InitializeUser(ctx) => self.initialize_user(ctx),
            Call::InitializePost(ctx, title, content) => self.initialize_post(ctx, title, content),
            Call::LikePost(ctx) => self.like_post(ctx),
            Call::CommentPost(ctx, content, timestamp) => self.comment_post(
                ctx,
                content,
                timestamp,
            ),
            Call::DeletePost(ctx) => self.delete_post(ctx),
        }
    }

    /// The ledger after a call: as committed, or unchanged where it failed.
    pub open spec fn after(self, call: Call) -> LedgerView {
        match self.outcome(call) {
            Ok(committed) => committed,
            Err(_) => self,
        }
    }

    /// The ledger after a run of calls, made one after the other.
    pub open spec fn after_all(self, calls: Seq<Call>) -> LedgerView
        decreases calls.len(),
    {
        if calls.len() == 0 {
            self
        } else {
            self.after_all(calls.drop_last()).after(calls.last())
        }
    }

    /// Whether a call creates a post that counts on the profile at
    /// `profile`.
    pub open spec fn creates_post_of(self, call: Call, profile: Address) -> bool {
        call matches Call::InitializePost(ctx, _, _) && ctx.user_profile == profile
            && self.outcome(call) is Ok
    }

    /// How many calls of a run create a post that counts on the profile at
    /// `profile`.
    pub open spec fn creations(self, calls: Seq<Call>, profile: Address) -> nat
        decreases calls.len(),
    {
        if calls.len() == 0 {
            0
        } else {
            let before = self.after_all(calls.drop_last());
            self.creations(calls.drop_last(), profile) + if before.creates_post_of(
                calls.last(),
                profile,
            ) {
                1nat
            } else {
                0nat
            }
        }
    }

    /// Whether a call is a creation of a post by `owner` that goes through.
    pub open spec fn creates_post_by(self, call: Call, owner: Address) -> bool {
        call matches Call::InitializePost(ctx, _, _) && ctx.user == owner && self.outcome(call)
            is Ok
    }

    /// How many calls of a run are creations of a post by `owner` that go
    /// through.
    pub open spec fn creations_by(self, calls: Seq<Call>, owner: Address) -> nat
        decreases calls.len(),
    {
        if calls.len() == 0 {
            0
        } else {
            let before = self.after_all(calls.drop_last());
            self.creations_by(calls.drop_last(), owner) + if before.creates_post_by(
                calls.last(),
                owner,
            ) {
                1nat
            } else {
                0nat
            }
        }
    }

    /// Whether the profile of `owner` stands at `profile`, the address
    /// derived for it.
    pub open spec fn has_profile_of(self, profile: Address, owner: Address) -> bool {
        &&& derives_to(profile_seeds(owner), self.program, profile)
        &&& self.profile(profile) matches Some(found) && found.user == owner
    }

    /// The ledger after `n` likes by the same call, or `None` once one of
    /// them failed.
    pub open spec fn liked_times(self, ctx: LikePost, n: nat) -> Option<LedgerView>
        decreases n,
    {
        if n == 0 {
            Some(self)
        } else {
            match self.liked_times(ctx, (n - 1) as nat) {
                Some(before) => match before.like_post(ctx) {
                    Ok(after) => Some(after),
                    Err(_) => None,
                },
                None => None,
            }
        }
    }
}

/// A call changes the count of a profile only by creating a post that
/// counts on it, and then by one; it never changes whose profile it is.
pub proof fn lemma_count_after_call(s: LedgerView, call: Call, profile: Address)
    ensures
        s.after(call).counted_posts(profile) == s.counted_posts(profile) + if s.creates_post_of(
            call,
            profile,
        ) {
            1nat
        } else {
            0nat
        },
        s.profile(profile) matches Some(before) ==> s.after(call).profile(profile) matches Some(
            after,
        ) && after.user == before.user,
{
}

/// After any run of calls, a profile counts the posts it counted before
/// and one more for each call of the run that created a post on it; and it
/// still belongs to the same user.
pub proof fn theorem_profile_counts_creations(s: LedgerView, calls: Seq<Call>, profile: Address)
    ensures
        s.after_all(calls).counted_posts(profile) == s.counted_posts(profile) + s.creations(
            calls,
            profile,
        ),
        s.profile(profile) matches Some(before) ==> s.after_all(calls).profile(
            profile,
        ) matches Some(after) && after.user == before.user,
    decreases calls.len(),
{
    if calls.len() > 0 {
        theorem_profile_counts_creations(s, calls.drop_last(), profile);
        lemma_count_after_call(s.after_all(calls.drop_last()), calls.last(), profile);
    }
}

/// Where the profile of `owner` stands at its derived address, the
/// creations that count on it are the creations by `owner`, and the profile
/// still stands there after any call.
pub proof fn lemma_profile_of_owner(s: LedgerView, call: Call, profile: Address, owner: Address)
    requires
        s.has_profile_of(profile, owner),
    ensures
        s.creates_post_by(call, owner) == s.creates_post_of(call, profile),
        s.after(call).has_profile_of(profile, owner),
{
    lemma_count_after_call(s, call, profile);
    if let Call::InitializePost(ctx, _, _) = call {
        lemma_address_by_bytes(ctx.user_profile, profile);
    }
}

/// After any run of calls, the profile of a user counts the posts it
/// counted before and one more for each creation of a post by that user
/// that went through.
pub proof fn theorem_profile_counts_posts_of_owner(
    s: LedgerView,
    calls: Seq<Call>,
    profile: Address,
    owner: Address,
)
    requires
        s.has_profile_of(profile, owner),
    ensures
        s.after_all(calls).has_profile_of(profile, owner),
        s.creations_by(calls, owner) == s.creations(calls, profile),
        s.after_all(calls).counted_posts(profile) == s.counted_posts(profile) + s.creations_by(
            calls,
            owner,
        ),
    decreases calls.len(),
{
    theorem_profile_counts_creations(s, calls, profile);
    if calls.len() > 0 {
        theorem_profile_counts_posts_of_owner(s, calls.drop_last(), profile, owner);
        lemma_profile_of_owner(s.after_all(calls.drop_last()), calls.last(), profile, owner);
    }
}

/// A post is created only by the user of the profile that counts it, at an
/// address where no account stood, and that address is the one derived
/// from the author and the count before the creation.
pub proof fn theorem_creation_is_fresh(
    s: LedgerView,
    ctx: InitializePost,
    title: Seq<char>,
    content: Seq<char>,
)
    ensures
        s.initialize_post(ctx, title, content) matches Ok(after) ==> {
            &&& s.profile(ctx.user_profile) matches Some(profile)
            &&& profile.user == ctx.user
            &&& derives_to(post_seeds(ctx.user, profile.post_count as u64), s.program, ctx.post)
            &&& !s.has_account(ctx.post)
            &&& after.post(ctx.post) == Some(PostView::fresh(ctx.user, title, content))
        },
{
}

/// A record stays where it is through any call but the deletion of it.
pub proof fn lemma_record_stays(s: LedgerView, call: Call, a: Address)
    requires
        s.has_account(a),
        !(s.accounts[a].record is Wallet),
        !(call matches Call::DeletePost(ctx) && ctx.post == a),
    ensures
        s.after(call).has_account(a),
        !(s.after(call).accounts[a].record is Wallet),
{
}

/// A record stays where it is through any run without a deletion of it.
pub proof fn lemma_record_stays_through(s: LedgerView, calls: Seq<Call>, a: Address)
    requires
        s.has_account(a),
        !(s.accounts[a].record is Wallet),
        forall|k: int|
            0 <= k < calls.len() ==> !(#[trigger] calls[k] matches Call::DeletePost(ctx) && ctx.post
                == a),
    ensures
        s.after_all(calls).has_account(a),
        !(s.after_all(calls).accounts[a].record is Wallet),
    decreases calls.len(),
{
    if calls.len() > 0 {
        let earlier = calls.drop_last();
        assert forall|k: int| 0 <= k < earlier.len() implies !(#[trigger] earlier[k] matches Call::DeletePost(
            ctx,
        ) && ctx.post == a) by {
            assert(earlier[k] == calls[k]);
        }
        lemma_record_stays_through(s, earlier, a);
        lemma_record_stays(s.after_all(earlier), calls.last(), a);
    }
}

/// Two posts created in one run stand at different addresses, unless the
/// first was deleted in between.
pub proof fn theorem_post_addresses_differ(
    s: LedgerView,
    first: InitializePost,
    first_title: Seq<char>,
    first_content: Seq<char>,
    between: Seq<Call>,
    second: InitializePost,
    second_title: Seq<char>,
    second_content: Seq<char>,
)
    requires
        s.initialize_post(first, first_title, first_content) is Ok,
        forall|k: int|
            0 <= k < between.len() ==> !(#[trigger] between[k] matches Call::DeletePost(ctx)
                && ctx.post == first.post),
        s.initialize_post(first, first_title, first_content).unwrap().after_all(
            between,
        ).initialize_post(second, second_title, second_content) is Ok,
    ensures
        first.post != second.post,
{
    let created = s.initialize_post(first, first_title, first_content).unwrap();
    theorem_creation_is_fresh(s, first, first_title, first_content);
    lemma_record_stays_through(created, between, first.post);
    theorem_creation_is_fresh(created.after_all(between), second, second_title, second_content);
}

/// One like counts once on the post, takes the fee from the caller and
/// gives it to the author.
pub proof fn lemma_one_like(s: LedgerView, ctx: LikePost)
    ensures
        s.like_post(ctx) matches Ok(after) ==> {
            &&& s.post(ctx.post) matches Some(before)
            &&& after.post(ctx.post) == Some(before.liked())
            &&& ctx.author_account == before.author
            &&& ctx.user != ctx.author_account ==> after.balance(ctx.author_account) == s.balance(
                ctx.author_account,
            ) + LIKE_FEE
            &&& ctx.user != ctx.author_account ==> after.available(ctx.user) + LIKE_FEE
                == s.available(ctx.user)
            &&& ctx.user == ctx.author_account ==> after.balance(ctx.user) == s.balance(ctx.user)
        },
{
}

/// `n` likes of one post by one caller, all of which went through, count
/// `n` times on the post; the caller paid the fee `n` times and the author
/// received it `n` times.
pub proof fn theorem_likes_add_up(s: LedgerView, ctx: LikePost, n: nat)
    ensures
        s.liked_times(ctx, n) matches Some(after) ==> {
            &&& after.counted_likes(ctx.post) == s.counted_likes(ctx.post) + n
            &&& n > 0 ==> s.post(ctx.post) is Some && after.post(ctx.post) is Some
            &&& ctx.user != ctx.author_account ==> after.balance(ctx.author_account) == s.balance(
                ctx.author_account,
            ) + n * LIKE_FEE
            &&& ctx.user != ctx.author_account ==> after.available(ctx.user) + n * LIKE_FEE
                == s.available(ctx.user)
            &&& ctx.user == ctx.author_account ==> after.balance(ctx.user) == s.balance(ctx.user)
        },
    decreases n,
{
    if n > 0 {
        theorem_likes_add_up(s, ctx, (n - 1) as nat);
        if let Some(before) = s.liked_times(ctx, (n - 1) as nat) {
            lemma_one_like(before, ctx);
        }
    }
}

/// A comment that goes through is appended to the thread and nothing else
/// of the post changes; the fee leaves the caller and arrives in the vault
/// derived for the caller, and no other account gains or loses value.
pub proof fn theorem_comment_appends(
    s: LedgerView,
    ctx: CommentPost,
    content: Seq<char>,
    timestamp: i64,
)
    ensures
        s.comment_post(ctx, content, timestamp) matches Ok(after) ==> {
            &&& s.post(ctx.post) matches Some(before)
            &&& after.post(ctx.post) matches Some(now)
            &&& now == before.commented(CommentView { author: ctx.user, content, timestamp })
            &&& now.comments.len() == before.comments.len() + 1
            &&& forall|i: int|
                0 <= i < before.comments.len() ==> now.comments[i] == before.comments[i]
            &&& derives_to(vault_seeds(ctx.user), s.program, ctx.vault_account)
            &&& ctx.user != ctx.vault_account ==> after.balance(ctx.vault_account) == s.balance(
                ctx.vault_account,
            ) + POST_FEE
            &&& ctx.user != ctx.vault_account ==> after.available(ctx.user) + POST_FEE
                == s.available(ctx.user)
            &&& forall|a: Address|
                a != ctx.user && a != ctx.vault_account ==> #[trigger] after.balance(a)
                    == s.balance(a)
        },
{
}

/// A deletion that goes through leaves no account at the post's address
/// nor at the vault's; the caller, who is the author, holds what they held
/// and all that the vault and the post's account held; no other account
/// changes; and deleting the same post again fails with `NotFound`.
pub proof fn theorem_delete_drains_vault(s: LedgerView, ctx: DeletePost)
    requires
        s.wf(),
        ctx.user != ctx.vault_account,
    ensures
        s.delete_post(ctx) matches Ok(after) ==> {
            &&& s.post(ctx.post) matches Some(before)
            &&& before.author == ctx.user
            &&& derives_to(vault_seeds(ctx.user), s.program, ctx.vault_account)
            &&& !after.has_account(ctx.post)
            &&& !after.has_account(ctx.vault_account)
            &&& after.balance(ctx.user) == s.balance(ctx.user) + s.balance(ctx.vault_account)
                + s.balance(ctx.post)
            &&& forall|a: Address|
                a != ctx.user && a != ctx.vault_account && a != ctx.post ==> after.has_account(a)
                    == s.has_account(a) && (s.has_account(a) ==> #[trigger] after.accounts[a]
                    == s.accounts[a])
            &&& after.delete_post(ctx) == Err::<LedgerView, Error>(Error::NotFound)
        },
{
}

/// A like fails with `Unauthorized` where the account named as the
/// author's is not the author of the post.
pub proof fn theorem_like_needs_author(s: LedgerView, ctx: LikePost)
    requires
        s.post(ctx.post) matches Some(post) && ctx.author_account != post.author,
    ensures
        s.like_post(ctx) == Err::<LedgerView, Error>(Error::Unauthorized),
{
}

/// A deletion fails with `Unauthorized` where the caller is not the author
/// of the post, or the account named as the vault is not the one derived
/// for the caller.
pub proof fn theorem_delete_needs_author_and_vault(s: LedgerView, ctx: DeletePost)
    requires
        s.post(ctx.post) matches Some(post) && (ctx.user != post.author || !derives_to(
            vault_seeds(ctx.user),
            s.program,
            ctx.vault_account,
        )),
    ensures
        s.delete_post(ctx) == Err::<LedgerView, Error>(Error::Unauthorized),
{
}

/// Whatever a call does, it leaves a well-formed ledger well-formed.
pub proof fn lemma_call_keeps_wf(s: LedgerView, call: Call)
    requires
        s.wf(),
    ensures
        s.after(call).wf(),
{
}

/// Whatever a run of calls does, it leaves a well-formed ledger
/// well-formed.
pub proof fn theorem_run_keeps_wf(s: LedgerView, calls: Seq<Call>)
    requires
        s.wf(),
    ensures
        s.after_all(calls).wf(),
    decreases calls.len(),
{
    if calls.len() > 0 {
        theorem_run_keeps_wf(s, calls.drop_last());
        lemma_call_keeps_wf(s.after_all(calls.drop_last()), calls.last());
    }
}

/// Whether `later` is `earlier` grown: the same author and texts, no fewer
/// likes, and a thread that begins with the earlier thread.
pub open spec fn grown_from(later: PostView, earlier: PostView) -> bool {
    &&& later.author == earlier.author
    &&& later.title == earlier.title
    &&& later.content == earlier.content
    &&& later.like_count >= earlier.like_count
    &&& later.comments.len() >= earlier.comments.len()
    &&& later.comments.subrange(0, earlier.comments.len() as int) == earlier.comments
}

/// Through any call, a post either goes away or grows: nothing takes a
/// like or a comment back, reorders the thread or rewrites the post.
pub proof fn theorem_post_only_grows(s: LedgerView, call: Call, a: Address)
    ensures
        s.post(a) matches Some(earlier) ==> (s.after(call).post(a) matches Some(later)
            ==> grown_from(later, earlier)),
{
    if let Some(earlier) = s.post(a) {
        assert(earlier.comments.subrange(0, earlier.comments.len() as int)
            =~= earlier.comments);
        match call {
            Call::CommentPost(ctx, content, timestamp) => {
                let comment = CommentView { author: ctx.user, content, timestamp };
                assert(earlier.commented(comment).comments.subrange(
                    0,
                    earlier.comments.len() as int,
                ) =~= earlier.comments);
            },
            _ => {},
        }
    }
}

} // verus!
