//! The typed records of the feed, their models and the space they take.

use crate::address::Address;
use vstd::prelude::*;
use vstd::utf8::encode_utf8;

verus! {

broadcast use vstd::slice::group_slice_axioms;

/// Fee for creating a post and for commenting, paid into the caller's vault.
pub const POST_FEE: u64 = 1_000_000;

/// Fee for a like, paid to the post's author.
pub const LIKE_FEE: u64 = 1_000;

/// Bytes reserved for a profile: a marker, the owner and the counter.
pub const PROFILE_SPACE: u64 = 48;

/// Bytes reserved for a post when it is created; it never grows past them.
pub const POST_SPACE: u64 = 8248;

/// Bytes of a post besides its texts and comments: a marker, the author,
/// the like counter and the three length prefixes.
pub const POST_BASE_SPACE: u64 = 60;

/// Bytes of a comment besides its text: the author, the length prefix and
/// the timestamp.
pub const COMMENT_BASE_SPACE: u64 = 44;

/// What can go wrong in an operation. Whatever the error, the operation
/// leaves the ledger as it found it.
#[derive(Clone, Copy, Debug, PartialEq, Eq, Structural)]
pub enum Error {
    /// An account already exists at the address of the record to create.
    DuplicateInitialization,
    /// There is no such profile or post.
    NotFound,
    /// The caller may not do this, or a supplied address is not the one
    /// that its seeds derive.
    Unauthorized,
    /// The payer does not hold the amount, or the vault holds nothing.
    InsufficientFunds,
    /// The post would outgrow the space reserved for it.
    StorageExhausted,
}

/// The profile of one user, which counts the posts they created.
#[derive(Clone, Copy, Debug, PartialEq, Eq)]
pub struct UserProfile {
    pub user: Address,
    pub post_count: u64,
}

/// Model of a profile.
pub struct UserProfileView {
    pub user: Address,
    pub post_count: nat,
}

impl UserProfileView {
    /// The profile of a user who has not posted yet.
    pub open spec fn fresh(user: Address) -> UserProfileView {
        UserProfileView { user, post_count: 0 }
    }

    /// The profile after its user created one more post.
    pub open spec fn posted(self) -> UserProfileView {
        UserProfileView { post_count: self.post_count + 1, ..self }
    }
}

impl View for UserProfile {
    type V = UserProfileView;

    open spec fn view(&self) -> UserProfileView {
        UserProfileView { user: self.user, post_count: self.post_count as nat }
    }
}

/// One comment of a post's thread.
#[derive(Clone, Debug, PartialEq, Eq)]
pub struct Comment {
    pub author: Address,
    pub content: String,
    pub timestamp: i64,
}

/// Model of a comment.
pub struct CommentView {
    pub author: Address,
    pub content: Seq<char>,
    pub timestamp: i64,
}

impl View for Comment {
    type V = CommentView;

    open spec fn view(&self) -> CommentView {
        CommentView { author: self.author, content: self.content@, timestamp: self.timestamp }
    }
}

/// A post with its likes and its thread of comments, oldest first.
#[derive(Clone, Debug, PartialEq, Eq)]
pub struct Post {
    pub author: Address,
    pub title: String,
    pub content: String,
    pub like_count: u64,
    pub comments: Vec<Comment>,
}

/// Model of a post.
pub struct PostView {
    pub author: Address,
    pub title: Seq<char>,
    pub content: Seq<char>,
    pub like_count: nat,
    pub comments: Seq<CommentView>,
}

/// The models of a run of comments.
pub open spec fn comment_views(comments: Seq<Comment>) -> Seq<CommentView> {
    Seq::new(comments.len(), |i: int| comments[i]@)
}

impl View for Post {
    type V = PostView;

    open spec fn view(&self) -> PostView {
        PostView {
            author: self.author,
            title: self.title@,
            content: self.content@,
            like_count: self.like_count as nat,
            comments: comment_views(self.comments@),
        }
    }
}

/// Bytes that a text takes without its length prefix.
pub open spec fn text_len(text: Seq<char>) -> nat {
    encode_utf8(text).len()
}

/// Bytes that one comment takes.
pub open spec fn comment_space(comment: CommentView) -> nat {
    COMMENT_BASE_SPACE as nat + text_len(comment.content)
}

/// Bytes that a thread of comments takes.
pub open spec fn comments_space(comments: Seq<CommentView>) -> nat
    decreases comments.len(),
{
    if comments.len() == 0 {
        0
    } else {
        comments_space(comments.drop_last()) + comment_space(comments.last())
    }
}

/// Bytes that a post takes.
pub open spec fn post_space(post: PostView) -> nat {
    POST_BASE_SPACE as nat + text_len(post.title) + text_len(post.content) + comments_space(
        post.comments,
    )
}

impl PostView {
    /// A post as it is created: not liked, not commented.
    pub open spec fn fresh(author: Address, title: Seq<char>, content: Seq<char>) -> PostView {
        PostView { author, title, content, like_count: 0, comments: Seq::empty() }
    }

    /// Whether the post fits the space reserved for it.
    pub open spec fn fits(self) -> bool {
        post_space(self) <= POST_SPACE
    }

    /// The post liked once more.
    pub open spec fn liked(self) -> PostView {
        PostView { like_count: self.like_count + 1, ..self }
    }

    /// The post with one more comment at the end of its thread.
    pub open spec fn commented(self, comment: CommentView) -> PostView {
        PostView { comments: self.comments.push(comment), ..self }
    }
}

/// A thread with one more comment takes the bytes of the thread and of the
/// comment.
pub proof fn lemma_space_of_push(comments: Seq<CommentView>, comment: CommentView)
    ensures
        comments_space(comments.push(comment)) == comments_space(comments) + comment_space(
            comment,
        ),
{
    assert(comments.push(comment).drop_last() =~= comments);
}

/// A commented post takes the bytes of the post and of the comment.
pub proof fn lemma_space_of_commented(post: PostView, comment: CommentView)
    ensures
        post_space(post.commented(comment)) == post_space(post) + comment_space(comment),
{
    lemma_space_of_push(post.comments, comment);
}

/// The number of bytes of a text.
pub fn byte_len(text: &String) -> (n: usize)
    ensures
        n == text_len(text@),
{
    text.as_str().as_bytes().len()
}

impl UserProfile {
    /// The profile of a user who has not posted yet.
    pub fn new(user: Address) -> (profile: UserProfile)
        ensures
            profile.user == user,
            profile.post_count == 0,
    {
        UserProfile { user, post_count: 0 }
    }
}

impl Comment {
    /// The bytes that the comment takes, or `None` where they are more than
    /// a post can hold.
    pub fn space(&self) -> (r: Option<u64>)
        ensures
            match r {
                Some(n) => n == comment_space(self@) && n <= POST_SPACE,
                None => comment_space(self@) > POST_SPACE,
            },
    {
        text_space(&self.content, COMMENT_BASE_SPACE)
    }
}

/// The bytes of a text added to `base`, or `None` where they are more than
/// a post can hold.
pub fn text_space(text: &String, base: u64) -> (r: Option<u64>)
    requires
        base <= POST_SPACE,
    ensures
        match r {
            Some(n) => n == base + text_len(text@) && n <= POST_SPACE,
            None => base + text_len(text@) > POST_SPACE,
        },
{
    let n: usize = byte_len(text);
    let room: u64 = POST_SPACE - base;
    if n as u64 > room {
        None
    } else {
        Some(base + n as u64)
    }
}

impl Post {
    /// A post as it is created: not liked, not commented.
    pub fn new(author: Address, title: String, content: String) -> (post: Post)
        ensures
            post@ == PostView::fresh(author, title@, content@),
    {
        let post = Post { author, title, content, like_count: 0, comments: Vec::new() };
        proof {
            assert(post@.comments =~= Seq::empty());
        }
        post
    }

    /// The bytes that the post takes, or `None` where they are more than
    /// the space reserved for a post.
    pub fn space(&self) -> (r: Option<u64>)
        ensures
            match r {
                Some(n) => n == post_space(self@) && self@.fits(),
                None => !self@.fits(),
            },
    {
        let with_title = match text_space(&self.title, POST_BASE_SPACE) {
            Some(n) => n,
            None => { return None; },
        };
        let mut used: u64 = match text_space(&self.content, with_title) {
            Some(n) => n,
            None => { return None; },
        };
        let ghost texts: nat = used as nat;
        let ghost all = comment_views(self.comments@);
        let mut i: usize = 0;
        while i < self.comments.len()
            invariant
                i <= self.comments.len(),
                all == comment_views(self.comments@),
                texts == POST_BASE_SPACE + text_len(self.title@) + text_len(self.content@),
                used == texts + comments_space(all.subrange(0, i as int)),
                used <= POST_SPACE,
            decreases self.comments.len() - i,
        {
            proof {
                let upto = all.subrange(0, i + 1);
                assert(upto.drop_last() =~= all.subrange(0, i as int));
                assert(upto.last() == self.comments@[i as int]@);
                lemma_space_grows(all, i + 1);
            }
            match self.comments[i].space() {
                Some(n) => {
                    if n > POST_SPACE - used {
                        return None;
                    }
                    used = used + n;
                },
                None => { return None; },
            }
            i += 1;
        }
        proof {
            assert(all.subrange(0, i as int) =~= all);
        }
        Some(used)
    }
}

/// A thread takes at least the bytes of each of its beginnings.
pub proof fn lemma_space_grows(comments: Seq<CommentView>, upto: int)
    requires
        0 <= upto <= comments.len(),
    ensures
        comments_space(comments.subrange(0, upto)) <= comments_space(comments),
    decreases comments.len(),
{
    if upto == comments.len() {
        assert(comments.subrange(0, upto) =~= comments);
    } else {
        lemma_space_grows(comments.drop_last(), upto);
        assert(comments.drop_last().subrange(0, upto) =~= comments.subrange(0, upto));
    }
}

} // verus!
