use vstd::prelude::*;

verus! {

/// A one-shot, session-scoped URL that casts a vote when fetched.
#[derive(Debug, PartialEq, Eq)]
pub enum VoteAction {
    Upvote(String),
    Downvote(String),
}

/// Mathematical image of a `VoteAction`.
pub enum VoteActionView {
    Upvote(Seq<char>),
    Downvote(Seq<char>),
}

impl View for VoteAction {
    type V = VoteActionView;

    open spec fn view(&self) -> VoteActionView {
        match self {
            VoteAction::Upvote(u) => VoteActionView::Upvote(u@),
            VoteAction::Downvote(u) => VoteActionView::Downvote(u@),
        }
    }
}

/// The URL carried by a vote action, whichever direction it has.
pub open spec fn spec_vote_url(v: VoteActionView) -> Seq<char> {
    match v {
        VoteActionView::Upvote(u) => u,
        VoteActionView::Downvote(u) => u,
    }
}

impl Clone for VoteAction {
    fn clone(&self) -> (r: VoteAction)
        ensures
            r@ == self@,
    {
        match self {
            VoteAction::Upvote(u) => VoteAction::Upvote(u.clone()),
            VoteAction::Downvote(u) => VoteAction::Downvote(u.clone()),
        }
    }
}

impl VoteAction {
    pub fn url(&self) -> (r: &str)
        ensures
            r@ == spec_vote_url(self@),
    {
        match self {
            VoteAction::Upvote(u) => u.as_str(),
            VoteAction::Downvote(u) => u.as_str(),
        }
    }

    pub fn is_upvote(&self) -> (r: bool)
        ensures
            r == (self@ matches VoteActionView::Upvote(_)),
    {
        match self {
            VoteAction::Upvote(_) => true,
            VoteAction::Downvote(_) => false,
        }
    }
}

/// A threaded reply: either to the post itself (depth 0) or to another
/// comment. `content_html` is the raw markup of the body, deliberately
/// left unparsed. `children` holds the sub-replies in document order.
#[derive(Debug, PartialEq, Eq)]
pub struct Comment {
    pub id: String,
    pub depth: u32,
    pub age: String,
    pub username: String,
    pub content_html: String,
    pub children: Vec<Comment>,
    pub upvote: Option<VoteAction>,
    pub downvote: Option<VoteAction>,
}

/// Mathematical image of a `Comment`, with the sub-replies as a sequence
/// of images.
pub struct CommentView {
    pub id: Seq<char>,
    pub depth: u32,
    pub age: Seq<char>,
    pub username: Seq<char>,
    pub content_html: Seq<char>,
    pub children: Seq<CommentView>,
    pub upvote: Option<VoteActionView>,
    pub downvote: Option<VoteActionView>,
}

pub open spec fn opt_vote_view(o: Option<VoteAction>) -> Option<VoteActionView> {
    match o {
        Option::Some(v) => Option::Some(v@),
        Option::None => Option::None,
    }
}

pub open spec fn comment_view(c: Comment) -> CommentView
    decreases c,
{
    CommentView {
        id: c.id@,
        depth: c.depth,
        age: c.age@,
        username: c.username@,
        content_html: c.content_html@,
        children: comment_seq_view(c.children@),
        upvote: opt_vote_view(c.upvote),
        downvote: opt_vote_view(c.downvote),
    }
}

pub open spec fn comment_seq_view(s: Seq<Comment>) -> Seq<CommentView>
    decreases s,
{
    if s.len() == 0 {
        Seq::empty()
    } else {
        comment_seq_view(s.drop_last()).push(comment_view(s.last()))
    }
}

impl View for Comment {
    type V = CommentView;

    open spec fn view(&self) -> CommentView {
        comment_view(*self)
    }
}

impl Clone for Comment {
    fn clone(&self) -> (r: Comment)
        ensures
            r@ == self@,
        decreases *self,
    {
        let mut children: Vec<Comment> = Vec::new();
        let mut i: usize = 0;
        while i < self.children.len()
            invariant
                i <= self.children@.len(),
                children@.len() == i,
                forall|j: int|
                    0 <= j < i ==> comment_view(children@[j]) == comment_view(self.children@[j]),
            decreases self.children@.len() - i,
        {
            children.push(self.children[i].clone());
            i = i + 1;
        }
        let r = Comment {
            id: self.id.clone(),
            depth: self.depth,
            age: self.age.clone(),
            username: self.username.clone(),
            content_html: self.content_html.clone(),
            children,
            upvote: match &self.upvote {
                Some(v) => Some(v.clone()),
                None => None,
            },
            downvote: match &self.downvote {
                Some(v) => Some(v.clone()),
                None => None,
            },
        };
        proof {
            lemma_comment_seq_view(r.children@);
            lemma_comment_seq_view(self.children@);
            assert(comment_seq_view(r.children@) =~= comment_seq_view(self.children@));
            assert(comment_view(r) == comment_view(*self));
        }
        r
    }
}

/// A top-level submission. For a listing-page record `comments` is empty;
/// for a submission-page record it holds the reconstructed comment forest,
/// root-level comments only, in document order.
#[derive(Debug, PartialEq, Eq)]
pub struct Post {
    pub id: String,
    pub title: String,
    pub url: String,
    pub username: String,
    pub score: u64,
    pub comment_count: u64,
    pub comments: Vec<Comment>,
    pub vote: Option<VoteAction>,
}

/// Mathematical image of a `Post`.
pub struct PostView {
    pub id: Seq<char>,
    pub title: Seq<char>,
    pub url: Seq<char>,
    pub username: Seq<char>,
    pub score: u64,
    pub comment_count: u64,
    pub comments: Seq<CommentView>,
    pub vote: Option<VoteActionView>,
}

impl View for Post {
    type V = PostView;

    open spec fn view(&self) -> PostView {
        PostView {
            id: self.id@,
            title: self.title@,
            url: self.url@,
            username: self.username@,
            score: self.score,
            comment_count: self.comment_count,
            comments: comment_seq_view(self.comments@),
            vote: opt_vote_view(self.vote),
        }
    }
}

pub open spec fn post_seq_view(s: Seq<Post>) -> Seq<PostView>
    decreases s,
{
    if s.len() == 0 {
        Seq::empty()
    } else {
        post_seq_view(s.drop_last()).push(s.last()@)
    }
}

impl Clone for Post {
    fn clone(&self) -> (r: Post)
        ensures
            r@ == self@,
    {
        let mut comments: Vec<Comment> = Vec::new();
        let mut i: usize = 0;
        while i < self.comments.len()
            invariant
                i <= self.comments@.len(),
                comments@.len() == i,
                forall|j: int|
                    0 <= j < i ==> comment_view(comments@[j]) == comment_view(self.comments@[j]),
            decreases self.comments@.len() - i,
        {
            comments.push(self.comments[i].clone());
            i = i + 1;
        }
        let r = Post {
            id: self.id.clone(),
            title: self.title.clone(),
            url: self.url.clone(),
            username: self.username.clone(),
            score: self.score,
            comment_count: self.comment_count,
            comments,
            vote: match &self.vote {
                Some(v) => Some(v.clone()),
                None => None,
            },
        };
        proof {
            lemma_comment_seq_view(r.comments@);
            lemma_comment_seq_view(self.comments@);
            assert(comment_seq_view(r.comments@) =~= comment_seq_view(self.comments@));
        }
        r
    }
}

/// Basic facts about the post-sequence image: its length matches, and it
/// maps each post to its image.
pub proof fn lemma_post_seq_view(s: Seq<Post>)
    ensures
        post_seq_view(s).len() == s.len(),
        forall|i: int| 0 <= i < s.len() ==> post_seq_view(s)[i] == s[i]@,
    decreases s,
{
    if s.len() > 0 {
        lemma_post_seq_view(s.drop_last());
    }
}

/// Basic facts about the comment-sequence image, available to every proof:
/// its length matches, and it maps each comment to its image.
pub broadcast proof fn lemma_comment_seq_view(s: Seq<Comment>)
    ensures
        #[trigger] comment_seq_view(s).len() == s.len(),
        forall|i: int| 0 <= i < s.len() ==> comment_seq_view(s)[i] == comment_view(s[i]),
    decreases s,
{
    if s.len() > 0 {
        lemma_comment_seq_view(s.drop_last());
    }
}

} // verus!
