//! The content resolver: maps a stored post row to the projection a response
//! carries — owner attached, counters copied down from the content post for
//! reposts, the viewer's own interaction flags — and the law that a repost
//! shows its content post's counters.

use vstd::prelude::*;

use crate::markdown::{render_markdown, spec_render_markdown};
use crate::models::{ApiUser, Post, PostInteraction, PostInteractionType, PostType, ResolvedPost, User};
use crate::store::{
    has_row, spec_find_post, spec_find_user, post_idx, lemma_post_idx, Store,
};

verus! {

/// The user projection attached to a resolved post.
pub open spec fn user_projection(users: Seq<User>, uid: u128) -> Option<ApiUser> {
    match spec_find_user(users, uid) {
        Some(u) => Some(u.spec_to_api()),
        None => None,
    }
}

/// The nested parent projection: the parent row as displayed, its own view
/// counter already raised when the child is a repost (the write that the
/// same fetch records), with no further nesting.
pub open spec fn parent_projection(
    parent: Post,
    users: Seq<User>,
    bump: bool,
    pr: ResolvedPost,
) -> bool {
    &&& pr.id == parent.id
    &&& pr.kind == parent.kind
    &&& pr.text@ == parent.text@
    &&& pr.text_html@ == spec_render_markdown(parent.text@)
    &&& pr.replies_count == parent.replies_count
    &&& pr.reposts_count == parent.reposts_count
    &&& pr.likes_count == parent.likes_count
    &&& pr.dislikes_count == parent.dislikes_count
    &&& pr.views_count as int == (if bump && parent.views_count < i64::MAX {
        parent.views_count + 1
    } else {
        parent.views_count as int
    })
    &&& pr.created_at == parent.created_at
    &&& pr.updated_at == parent.updated_at
    &&& pr.user == user_projection(users, parent.user_id)
    &&& pr.parent_post is None
    &&& pr.replies is None
    &&& pr.auth_user_liked is None
    &&& pr.auth_user_disliked is None
}

/// What resolving `p` for `viewer` yields, read against one store state:
/// for a repost every counter is the content post's, read-time copy-down;
/// otherwise the post's own counters with the view this fetch records; the
/// interaction flags are computed against the content post id.
pub open spec fn resolved_ok(
    posts: Seq<Post>,
    users: Seq<User>,
    ints: Seq<PostInteraction>,
    p: Post,
    viewer: Option<u128>,
    r: ResolvedPost,
) -> bool {
    let cid = p.spec_content_post_id();
    &&& r.id == p.id
    &&& r.kind == p.kind
    &&& r.text@ == p.text@
    &&& r.text_html@ == spec_render_markdown(p.text@)
    &&& r.created_at == p.created_at
    &&& r.updated_at == p.updated_at
    &&& r.user == user_projection(users, p.user_id)
    &&& r.replies is None
    &&& (match p.parent_post_id {
        None => r.parent_post is None,
        Some(ppid) => r.parent_post is Some && parent_projection(
            spec_find_post(posts, ppid)->0,
            users,
            p.kind == PostType::Repost,
            *r.parent_post->0,
        ),
    })
    &&& (if p.kind == PostType::Repost {
        let parent = spec_find_post(posts, p.parent_post_id->0)->0;
        r.replies_count == parent.replies_count && r.reposts_count == parent.reposts_count
            && r.likes_count == parent.likes_count && r.dislikes_count == parent.dislikes_count
            && r.views_count == parent.views_count
    } else {
        r.replies_count == p.replies_count && r.reposts_count == p.reposts_count && r.likes_count
            == p.likes_count && r.dislikes_count == p.dislikes_count && r.views_count as int == (
        if p.views_count < i64::MAX {
            p.views_count + 1
        } else {
            p.views_count as int
        })
    })
    &&& r.auth_user_liked == (match viewer {
        None => None::<bool>,
        Some(u) => Some(has_row(ints, cid, u, PostInteractionType::Like)),
    })
    &&& r.auth_user_disliked == (match viewer {
        None => None::<bool>,
        Some(u) => Some(has_row(ints, cid, u, PostInteractionType::Dislike)),
    })
}

impl Store {
    fn parent_dto_of(&self, parent: &Post, bump: bool) -> (pr: ResolvedPost)
        ensures
            parent_projection(*parent, self.users@, bump, pr),
    {
        let puser = match self.find_user(parent.user_id) {
            Option::Some(u) => Option::Some(u.to_api()),
            Option::None => Option::None,
        };
        let pviews: i64 = if bump && parent.views_count < i64::MAX {
            parent.views_count + 1
        } else {
            parent.views_count
        };
        ResolvedPost {
            id: parent.id,
            kind: parent.kind,
            text: parent.text.clone(),
            text_html: render_markdown(parent.text.as_str()),
            replies_count: parent.replies_count,
            reposts_count: parent.reposts_count,
            likes_count: parent.likes_count,
            dislikes_count: parent.dislikes_count,
            views_count: pviews,
            created_at: parent.created_at,
            updated_at: parent.updated_at,
            parent_post: Option::None,
            user: puser,
            replies: Option::None,
            auth_user_liked: Option::None,
            auth_user_disliked: Option::None,
        }
    }

    /// Resolve a stored post for a viewer without touching the store; the
    /// caller records the view with `record_view` on the content post.
    pub fn fetch_relationships(&self, post: &Post, viewer: Option<u128>) -> (r: ResolvedPost)
        requires
            self.wf(),
            spec_find_post(self.posts@, post.id) == Some(*post),
        ensures
            resolved_ok(self.posts@, self.users@, self.interactions@, *post, viewer, r),
    {
        proof {
            lemma_post_idx(self.posts@, post.id);
        }
        let cid = post.content_post_id();
        let user = match self.find_user(post.user_id) {
            Option::Some(u) => Option::Some(u.to_api()),
            Option::None => Option::None,
        };
        let is_repost = post.kind == PostType::Repost;
        let parent_row: Option<Post> = match &post.parent_post_id {
            Option::Some(ppid) => {
                let found = self.find_post(*ppid);
                assert(found is Some) by {
                    lemma_post_idx(self.posts@, post.id);
                }
                found
            },
            Option::None => Option::None,
        };
        let (parent_dto, counters): (Option<Box<ResolvedPost>>, (i64, i64, i64, i64, i64)) =
            match &parent_row {
            Option::Some(parent) => {
                let dto = self.parent_dto_of(parent, is_repost);
                let cs: (i64, i64, i64, i64, i64) = if is_repost {
                    (
                        parent.replies_count,
                        parent.reposts_count,
                        parent.likes_count,
                        parent.dislikes_count,
                        parent.views_count,
                    )
                } else {
                    (
                        post.replies_count,
                        post.reposts_count,
                        post.likes_count,
                        post.dislikes_count,
                        if post.views_count < i64::MAX {
                            post.views_count + 1
                        } else {
                            post.views_count
                        },
                    )
                };
                (Option::Some(Box::new(dto)), cs)
            },
            Option::None => {
                (
                    Option::None,
                    (
                        post.replies_count,
                        post.reposts_count,
                        post.likes_count,
                        post.dislikes_count,
                        if post.views_count < i64::MAX {
                            post.views_count + 1
                        } else {
                            post.views_count
                        },
                    ),
                )
            },
        };
        let (liked, disliked): (Option<bool>, Option<bool>) = match viewer {
            Option::Some(u) => (
                Option::Some(self.has_interaction(cid, u, PostInteractionType::Like)),
                Option::Some(self.has_interaction(cid, u, PostInteractionType::Dislike)),
            ),
            Option::None => (Option::None, Option::None),
        };
        let r = ResolvedPost {
            id: post.id,
            kind: post.kind,
            text: post.text.clone(),
            text_html: render_markdown(post.text.as_str()),
            replies_count: counters.0,
            reposts_count: counters.1,
            likes_count: counters.2,
            dislikes_count: counters.3,
            views_count: counters.4,
            created_at: post.created_at,
            updated_at: post.updated_at,
            parent_post: parent_dto,
            user,
            replies: Option::None,
            auth_user_liked: liked,
            auth_user_disliked: disliked,
        };
        r
    }
}

/// Read-time copy-down: resolving a repost yields exactly the content
/// post's counters, whatever the repost's own row stores.
pub proof fn lemma_repost_copy_down(
    posts: Seq<Post>,
    users: Seq<User>,
    ints: Seq<PostInteraction>,
    repost: Post,
    content: Post,
    viewer: Option<u128>,
    r: ResolvedPost,
)
    requires
        repost.kind == PostType::Repost,
        repost.parent_post_id == Some(content.id),
        spec_find_post(posts, content.id) == Some(content),
        resolved_ok(posts, users, ints, repost, viewer, r),
    ensures
        r.likes_count == content.likes_count,
        r.dislikes_count == content.dislikes_count,
        r.replies_count == content.replies_count,
        r.reposts_count == content.reposts_count,
        r.views_count == content.views_count,
{
}

/// Content identity: a repost's interactions target the content post, so
/// the viewer's `auth_user_liked` flag on the repost and on the content
/// post itself always agree.
pub proof fn lemma_repost_flags_match_content(
    posts: Seq<Post>,
    users: Seq<User>,
    ints: Seq<PostInteraction>,
    repost: Post,
    content: Post,
    viewer: u128,
    r_repost: ResolvedPost,
    r_content: ResolvedPost,
)
    requires
        repost.kind == PostType::Repost,
        repost.parent_post_id == Some(content.id),
        content.kind != PostType::Repost,
        resolved_ok(posts, users, ints, repost, Some(viewer), r_repost),
        resolved_ok(posts, users, ints, content, Some(viewer), r_content),
    ensures
        r_repost.auth_user_liked == r_content.auth_user_liked,
        r_repost.auth_user_disliked == r_content.auth_user_disliked,
{
    assert(repost.spec_content_post_id() == content.id);
    assert(content.spec_content_post_id() == content.id);
}

} // verus!
