//! The post routes: listing, creation, display, edit, replies, reposts and
//! the like/dislike toggles of the interaction ledger.

use vstd::prelude::*;

use crate::forms::{form_get, parse_form, key_count, first_value, spec_form_pairs};
use crate::layers::Context;
use crate::listing::{
    filter_posts, page_posts, select_posts, sort_posts, sort_posts_desc, spec_total, total_of,
    PostFilter, lemma_filter_posts_contains, lemma_sort_posts_contains,
};
use crate::models::{Post, PostInteractionType, PostType, ResolvedPost, User, UserRole};
use crate::resolve::resolved_ok;
use crate::store::{
    bump_many, lemma_find_contained_post, lemma_post_idx, post_idx, spec_bump_views,
    spec_clear_ints, spec_clear_posts, spec_find_post, spec_set_interaction, spec_tree_counter,
    Store, has_row,
};
use crate::text::{parse_uuid, spec_parse_uuid};
use crate::web::{
    page_window, FieldReport, IndexQueryOutcome, Request, Response, ResponseBody, Status,
    index_query_ok,
};

verus! {

/// The post a raw path id names, if the id parses and a row carries it.
pub open spec fn spec_found_post(posts: Seq<Post>, raw: Seq<char>) -> Option<Post> {
    match spec_parse_uuid(raw) {
        None => None,
        Some(id) => spec_find_post(posts, id),
    }
}

/// Resolve the `:post_id` path parameter to a stored post.
pub fn find_post(post_id: &str, store: &Store) -> (r: Option<Post>)
    ensures
        r == spec_found_post(store.posts@, post_id@),
{
    match parse_uuid(post_id) {
        Option::Some(id) => store.find_post(id),
        Option::None => Option::None,
    }
}

/// A found post is a table row, so the tree clauses of the invariant hold
/// of it.
pub proof fn lemma_found_post(posts: Seq<Post>, raw: Seq<char>)
    requires
        crate::store::posts_wf(posts),
        spec_found_post(posts, raw) is Some,
    ensures
        ({
            let p = spec_found_post(posts, raw)->0;
            &&& spec_find_post(posts, p.id) == Some(p)
            &&& (p.parent_post_id is Some <==> p.kind != PostType::Normal)
            &&& (p.parent_post_id is Some ==> spec_find_post(posts, p.parent_post_id->0) is Some)
            &&& (p.kind == PostType::Repost ==> spec_find_post(posts, p.parent_post_id->0)->0.kind
                != PostType::Repost)
            &&& spec_find_post(posts, p.spec_content_post_id()) is Some
            &&& spec_find_post(posts, p.spec_content_post_id())->0.kind != PostType::Repost
        }),
{
    let id = spec_parse_uuid(raw)->0;
    lemma_post_idx(posts, id);
    let p = posts[post_idx(posts, id)];
    assert(p.id == id);
    assert(posts[post_idx(posts, id)] == p);
    if p.kind == PostType::Repost {
    } else {
        assert(p.spec_content_post_id() == p.id);
    }
}

/// The `text` field of a post body: present exactly once.
pub open spec fn spec_text_form(body: Option<String>) -> Option<Seq<char>> {
    let pairs = match body {
        Some(b) => spec_form_pairs(b@),
        None => spec_form_pairs(Seq::<char>::empty()),
    };
    if key_count(pairs, "text"@) == 1 {
        Some(first_value(pairs, "text"@)->0)
    } else {
        None
    }
}

fn text_form(body: &Option<String>) -> (r: Option<String>)
    ensures
        match r {
            Some(v) => spec_text_form(*body) == Some(v@),
            None => spec_text_form(*body) is None,
        },
{
    let body_str: &str = match body {
        Option::Some(b) => b.as_str(),
        Option::None => "",
    };
    proof {
        reveal_strlit("");
        assert(""@ =~= Seq::<char>::empty());
    }
    let pairs = parse_form(body_str);
    proof {
        assert(pairs@.map_values(|p: (String, String)| (p.0@, p.1@)) =~= spec_form_pairs(
            body_str@,
        ));
    }
    match form_get(&pairs, "text") {
        Result::Ok(Option::Some(v)) => Some(v),
        _ => None,
    }
}

/// A post text is accepted when it has 1 to 512 characters.
pub open spec fn text_valid(t: Seq<char>) -> bool {
    1 <= t.len() <= 512
}

fn check_text(t: &str) -> (r: bool)
    ensures
        r == text_valid(t@),
{
    let n = t.unicode_len();
    1 <= n && n <= 512
}

impl Store {
    /// Draw a fresh id and insert a post row; `None` when the drawn id
    /// collides with an existing row.
    fn create_post_row(
        &mut self,
        kind: PostType,
        parent_post_id: Option<u128>,
        user_id: u128,
        text: String,
        now: i64,
    ) -> (r: Option<Post>)
        requires
            old(self).wf(),
            parent_post_id is Some <==> kind != PostType::Normal,
            parent_post_id is Some ==> spec_find_post(old(self).posts@, parent_post_id->0) is Some,
            kind == PostType::Repost ==> spec_find_post(
                old(self).posts@,
                parent_post_id->0,
            )->0.kind != PostType::Repost,
        ensures
            final(self).wf(),
            final(self).users == old(self).users,
            final(self).sessions == old(self).sessions,
            final(self).interactions == old(self).interactions,
            match r {
                Some(p) => spec_find_post(old(self).posts@, p.id) is None && final(self).posts@
                    == old(self).posts@.push(p) && p.kind == kind && p.parent_post_id
                    == parent_post_id && p.user_id == user_id && p.text == text && p.replies_count
                    == 0 && p.reposts_count == 0 && p.likes_count == 0 && p.dislikes_count == 0
                    && p.views_count == 0 && p.created_at == now && p.updated_at == now,
                None => final(self).posts@ == old(self).posts@ && old(self).posts@.len() > 0,
            },
    {
        let id = crate::trusted::fresh_id();
        let post = Post {
            id,
            kind,
            parent_post_id,
            user_id,
            text,
            replies_count: 0,
            reposts_count: 0,
            likes_count: 0,
            dislikes_count: 0,
            views_count: 0,
            created_at: now,
            updated_at: now,
        };
        let ret = post.clone();
        let ok = self.insert_post(post);
        if ok {
            Some(ret)
        } else {
            None
        }
    }

    /// Resolve one page of listed posts against the state the listing read,
    /// then record one view per listed row on its content post.
    pub(crate) fn resolve_page(&mut self, win: &Vec<Post>, viewer: Option<u128>) -> (data: Vec<ResolvedPost>)
        requires
            old(self).wf(),
            forall|k: int|
                0 <= k < win@.len() ==> spec_find_post(old(self).posts@, (#[trigger] win@[k]).id)
                    == Some(win@[k]),
        ensures
            final(self).wf(),
            final(self).users == old(self).users,
            final(self).sessions == old(self).sessions,
            final(self).interactions == old(self).interactions,
            final(self).posts@ == bump_many(old(self).posts@, win@),
            data@.len() == win@.len(),
            forall|k: int|
                0 <= k < win@.len() ==> resolved_ok(
                    old(self).posts@,
                    old(self).users@,
                    old(self).interactions@,
                    win@[k],
                    viewer,
                    #[trigger] data@[k],
                ),
    {
        let mut data: Vec<ResolvedPost> = Vec::new();
        let mut i: usize = 0;
        while i < win.len()
            invariant
                old(self).wf(),
                *self == *old(self),
                i <= win@.len(),
                data@.len() == i,
                forall|k: int|
                    0 <= k < win@.len() ==> spec_find_post(
                        old(self).posts@,
                        (#[trigger] win@[k]).id,
                    ) == Some(win@[k]),
                forall|k: int|
                    0 <= k < i ==> resolved_ok(
                        old(self).posts@,
                        old(self).users@,
                        old(self).interactions@,
                        win@[k],
                        viewer,
                        #[trigger] data@[k],
                    ),
            decreases win@.len() - i,
        {
            let r = self.fetch_relationships(&win[i], viewer);
            data.push(r);
            i = i + 1;
        }
        let mut j: usize = 0;
        let ghost posts0 = self.posts@;
        assert(win@.skip(0) =~= win@);
        while j < win.len()
            invariant
                old(self).wf(),
                self.wf(),
                j <= win@.len(),
                self.users == old(self).users,
                self.sessions == old(self).sessions,
                self.interactions == old(self).interactions,
                posts0 == old(self).posts@,
                forall|k: int|
                    0 <= k < win@.len() ==> spec_find_post(posts0, (#[trigger] win@[k]).id)
                        == Some(win@[k]),
                bump_many(posts0, win@) == bump_many(self.posts@, win@.skip(j as int)),
            decreases win@.len() - j,
        {
            let ghost rest = win@.skip(j as int);
            assert(rest[0] == win@[j as int]);
            proof {
                lemma_post_idx(posts0, win@[j as int].id);
                assert(posts0[post_idx(posts0, win@[j as int].id)] == win@[j as int]);
            }
            let cid = win[j].content_post_id();
            self.record_view(cid);
            assert(rest.drop_first() =~= win@.skip(j + 1));
            j = j + 1;
        }
        assert(win@.skip(win@.len() as int) =~= Seq::<Post>::empty());
        data
    }
}

pub open spec fn posts_index_outcome(req: Request, ctx: Context, s0: Store, s1: Store, status: Status, rbody: ResponseBody) -> bool {
    &&& (s1.users == s0.users)
    &&& (s1.sessions == s0.sessions)
    &&& (s1.interactions == s0.interactions)
    &&& ({
    ({
        let qs = crate::web::opt_view(req.query);
        let viewer = match ctx.auth_user {
            Some(u) => Some(u.id),
            None => None,
        };
        match status {
            Status::Okay => exists|q: Seq<char>, page: i64, limit: i64|
                {
                    &&& #[trigger] index_query_ok(qs, q, page, limit)
                    &&& ({
                        let rows = sort_posts_desc(
                            filter_posts(s0.posts@, PostFilter::ByText, q),
                        );
                        let win = page_window(rows, page, limit);
                        &&& s1.posts@ == bump_many(s0.posts@, win)
                        &&& (rbody matches ResponseBody::PostList { pagination, data }
                            && pagination.total == spec_total(rows.len()) && pagination.page
                            == page && pagination.limit == limit && data@.len() == win.len()
                            && (forall|k: int|
                            0 <= k < win.len() ==> resolved_ok(
                                s0.posts@,
                                s0.users@,
                                s0.interactions@,
                                win[k],
                                viewer,
                                #[trigger] data@[k],
                            )))
                    })
                },
            Status::BadRequest => s1.posts@ == s0.posts@ && !(exists|
                q: Seq<char>,
                page: i64,
                limit: i64,
            |
                #[trigger] index_query_ok(qs, q, page, limit)),
            _ => false,
        }
    })
    })
}

/// The listing of all posts whose text matches the filter, newest first.
pub fn posts_index(req: &Request, ctx: &Context, store: &mut Store, now: i64) -> (res: Response)
    requires
        old(store).wf(),
    ensures
        final(store).wf(),
        posts_index_outcome(*req, *ctx, *old(store), *final(store), res.status, res.body),
{
    let query = match parse_index_query_of(req) {
        Result::Ok(iq) => iq,
        Result::Err(res) => {
            return res;
        },
    };
    let rows = sort_posts(select_posts(&store.posts, &PostFilter::ByText, query.query.as_str()));
    let total = total_of(rows.len());
    let win = page_posts(&rows, query.page, query.limit);
    proof {
        lemma_filter_posts_contains(old(store).posts@, PostFilter::ByText, query.query@);
        lemma_sort_posts_contains(filter_posts(old(store).posts@, PostFilter::ByText, query.query@));
        assert forall|k: int|
            0 <= k < win@.len() implies spec_find_post(old(store).posts@, (#[trigger] win@[k]).id)
            == Some(win@[k]) by {
            assert(rows@.contains(win@[k]));
            let j = choose|j: int| 0 <= j < rows@.len() && rows@[j] == win@[k];
            assert(old(store).posts@.contains(rows@[j]));
            lemma_find_contained_post(old(store).posts@, win@[k]);
        }
    }
    let viewer: Option<u128> = match &ctx.auth_user {
        Option::Some(u) => Option::Some(u.id),
        Option::None => Option::None,
    };
    let data = store.resolve_page(&win, viewer);
    Response::new().body(
        ResponseBody::PostList {
            pagination: crate::web::Pagination { total, page: query.page, limit: query.limit },
            data,
        },
    )
}

/// Parse the listing query of a request, mapping failures to the refusal
/// responses the listing endpoints share.
fn parse_index_query_of(req: &Request) -> (r: Result<crate::models::IndexQuery, Response>)
    ensures
        ({
            let qs = crate::web::opt_view(req.query);
            match r {
                Result::Ok(iq) => index_query_ok(qs, iq.query@, iq.page, iq.limit),
                Result::Err(res) => res.status == Status::BadRequest && !(exists|
                    q: Seq<char>,
                    page: i64,
                    limit: i64,
                |
                    #[trigger] index_query_ok(qs, q, page, limit)),
            }
        }),
{
    match crate::web::parse_index_query(&req.query) {
        IndexQueryOutcome::Parsed(iq) => Result::Ok(iq),
        IndexQueryOutcome::Malformed => Result::Err(Response::with_status(Status::BadRequest)),
        IndexQueryOutcome::Invalid(report) => Result::Err(
            Response::with_status(Status::BadRequest).body(ResponseBody::Report(report)),
        ),
    }
}


/// A post with the `replies` projection attached; everything else as the
/// resolver produced it.
pub open spec fn with_replies(r0: ResolvedPost, r: ResolvedPost) -> bool {
    r == (ResolvedPost { replies: r.replies, ..r0 })
}

pub open spec fn posts_show_outcome(pid: Seq<char>, ctx: Context, s0: Store, s1: Store, status: Status, rbody: ResponseBody) -> bool {
    &&& (s1.users == s0.users)
    &&& (s1.sessions == s0.sessions)
    &&& (s1.interactions == s0.interactions)
    &&& ({
    ({
        let viewer = match ctx.auth_user {
            Some(u) => Some(u.id),
            None => None,
        };
        match spec_found_post(s0.posts@, pid) {
            None => status == Status::NotFound && s1.posts@ == s0.posts@,
            Some(post) => {
                let replies = sort_posts_desc(
                    filter_posts(s0.posts@, PostFilter::ByParentReply(post.id), Seq::empty()),
                );
                &&& status == Status::Okay
                &&& s1.posts@ == spec_bump_views(
                    bump_many(s0.posts@, replies),
                    post.spec_content_post_id(),
                )
                &&& (rbody matches ResponseBody::Post(r) && (exists|r0: ResolvedPost|
                    resolved_ok(
                        s0.posts@,
                        s0.users@,
                        s0.interactions@,
                        post,
                        viewer,
                        r0,
                    ) && #[trigger] with_replies(r0, r)) && (r.replies matches Some(list)
                    && list@.len() == replies.len() && (forall|k: int|
                    0 <= k < replies.len() ==> resolved_ok(
                        s0.posts@,
                        s0.users@,
                        s0.interactions@,
                        replies[k],
                        viewer,
                        #[trigger] list@[k],
                    ))))
            },
        }
    })
    })
}

/// One post with its replies, newest first: each reply resolved and
/// counted as viewed, then the post itself.
pub fn posts_show(post_id: &str, ctx: &Context, store: &mut Store, now: i64) -> (res: Response)
    requires
        old(store).wf(),
    ensures
        final(store).wf(),
        posts_show_outcome(post_id@, *ctx, *old(store), *final(store), res.status, res.body),
{
    let post = match find_post(post_id, store) {
        Option::Some(p) => p,
        Option::None => {
            return Response::new().status(Status::NotFound).text("404 Not Found");
        },
    };
    proof {
        lemma_found_post(store.posts@, post_id@);
    }
    let viewer: Option<u128> = match &ctx.auth_user {
        Option::Some(u) => Option::Some(u.id),
        Option::None => Option::None,
    };
    proof {
        reveal_strlit("");
        assert(""@ =~= Seq::<char>::empty());
    }
    let replies = sort_posts(
        select_posts(&store.posts, &PostFilter::ByParentReply(post.id), ""),
    );
    proof {
        lemma_filter_posts_contains(
            old(store).posts@,
            PostFilter::ByParentReply(post.id),
            Seq::empty(),
        );
        lemma_sort_posts_contains(
            filter_posts(old(store).posts@, PostFilter::ByParentReply(post.id), Seq::empty()),
        );
        assert forall|k: int|
            0 <= k < replies@.len() implies spec_find_post(
            old(store).posts@,
            (#[trigger] replies@[k]).id,
        ) == Some(replies@[k]) by {
            assert(filter_posts(
                old(store).posts@,
                PostFilter::ByParentReply(post.id),
                Seq::empty(),
            ).contains(replies@[k]));
            lemma_find_contained_post(old(store).posts@, replies@[k]);
        }
    }
    let ghost posts0 = store.posts@;
    let mut r = store.fetch_relationships(&post, viewer);
    let list = store.resolve_page(&replies, viewer);
    proof {
        lemma_post_idx(posts0, post.id);
    }
    let cid = post.content_post_id();
    store.record_view(cid);
    let ghost r0 = r;
    r.replies = Option::Some(list);
    assert(with_replies(r0, r));
    Response::new().body(ResponseBody::Post(r))
}



pub open spec fn posts_create_outcome(req: Request, ctx: Context, s0: Store, s1: Store, status: Status, rbody: ResponseBody, now: i64) -> bool {
    &&& (s1.users == s0.users)
    &&& (s1.sessions == s0.sessions)
    &&& (s1.interactions == s0.interactions)
    &&& ({
    ctx.auth_user is None ==> status == Status::Unauthorized
        && s1.posts@ == s0.posts@
    })
    &&& ({
    ctx.auth_user is Some && spec_text_form(req.body) is None ==> status
        == Status::BadRequest && s1.posts@ == s0.posts@
    })
    &&& ({
    ctx.auth_user is Some && (spec_text_form(req.body) matches Some(t) && !text_valid(t))
        ==> status == Status::BadRequest && (rbody is Report) && s1.posts@
        == s0.posts@
    })
    &&& ({
    ctx.auth_user is Some && (spec_text_form(req.body) matches Some(t) && text_valid(t))
        && s0.posts@.len() == 0 ==> status == Status::Okay
    })
    &&& ({
    ctx.auth_user is Some && (spec_text_form(req.body) matches Some(t) && text_valid(t)) ==> ({
        ||| (status == Status::Okay && exists|p: Post|
            {
                &&& #[trigger] spec_find_post(s0.posts@, p.id) is None
                &&& p.kind == PostType::Normal && p.parent_post_id is None && p.user_id
                    == ctx.auth_user->0.id && p.text@ == spec_text_form(req.body)->0
                    && p.likes_count == 0
                    && p.dislikes_count == 0 && p.replies_count == 0 && p.reposts_count == 0
                    && p.views_count == 0 && p.created_at == now && p.updated_at == now
                &&& s1.posts@ == spec_bump_views(s0.posts@.push(p), p.id)
                &&& (rbody matches ResponseBody::Post(r) && resolved_ok(
                    s0.posts@.push(p),
                    s0.users@,
                    s0.interactions@,
                    p,
                    Some(ctx.auth_user->0.id),
                    r,
                ))
            })
        ||| (status == Status::BadRequest && s1.posts@ == s0.posts@)
    })
    })
}

/// Create a normal post owned by the authenticated user.
pub fn posts_create(req: &Request, ctx: &Context, store: &mut Store, now: i64) -> (res: Response)
    requires
        old(store).wf(),
    ensures
        final(store).wf(),
        posts_create_outcome(*req, *ctx, *old(store), *final(store), res.status, res.body, now),
{
    let auth_user = match &ctx.auth_user {
        Option::Some(u) => u,
        Option::None => {
            return Response::new().status(Status::Unauthorized).text("401 Unauthorized");
        },
    };
    let text = match text_form(&req.body) {
        Option::Some(t) => t,
        Option::None => {
            return Response::new().status(Status::BadRequest).text("400 Bad Request");
        },
    };
    if !check_text(text.as_str()) {
        let mut report = FieldReport::new();
        report.insert_error("text", "must be between 1 and 512 characters");
        return Response::new().status(Status::BadRequest).body(ResponseBody::Report(report));
    }
    let post = match store.create_post_row(
        PostType::Normal,
        Option::None,
        auth_user.id,
        text,
        now,
    ) {
        Option::Some(p) => p,
        Option::None => {
            return Response::new().status(Status::BadRequest).text("400 Bad Request");
        },
    };
    proof {
        assert(store.posts@.last() == post);
        assert(store.posts@.contains(post));
        lemma_find_contained_post(store.posts@, post);
    }
    let r = store.fetch_relationships(&post, Option::Some(auth_user.id));
    let cid = post.content_post_id();
    store.record_view(cid);
    Response::new().body(ResponseBody::Post(r))
}

pub open spec fn posts_create_reply_outcome(pid: Seq<char>, req: Request, ctx: Context, s0: Store, s1: Store, status: Status, rbody: ResponseBody, now: i64) -> bool {
    &&& (s1.users == s0.users)
    &&& (s1.sessions == s0.sessions)
    &&& (s1.interactions == s0.interactions)
    &&& ({
    spec_found_post(s0.posts@, pid) is None ==> status == Status::NotFound
        && s1.posts@ == s0.posts@
    })
    &&& ({
    spec_found_post(s0.posts@, pid) is Some && ctx.auth_user is None ==> status
        == Status::Unauthorized && s1.posts@ == s0.posts@
    })
    &&& ({
    spec_found_post(s0.posts@, pid) is Some && ctx.auth_user is Some
        && spec_text_form(req.body) is None ==> status == Status::BadRequest
        && s1.posts@ == s0.posts@
    })
    &&& ({
    spec_found_post(s0.posts@, pid) is Some && ctx.auth_user is Some && (
    spec_text_form(req.body) matches Some(t) && !text_valid(t)) ==> status
        == Status::BadRequest && (rbody is Report) && s1.posts@
        == s0.posts@
    })
    &&& ({
    spec_found_post(s0.posts@, pid) is Some && ctx.auth_user is Some && (
    spec_text_form(req.body) matches Some(t) && text_valid(t)) ==> ({
        let parent = spec_found_post(s0.posts@, pid)->0;
        ||| (status == Status::Okay && exists|p: Post|
            {
                let state1 = spec_tree_counter(
                    s0.posts@.push(p),
                    parent.id,
                    PostType::Reply,
                    true,
                );
                &&& #[trigger] spec_find_post(s0.posts@, p.id) is None
                &&& p.kind == PostType::Reply && p.parent_post_id == Some(parent.id)
                    && p.user_id == ctx.auth_user->0.id && p.text@ == spec_text_form(
                    req.body,
                )->0 && p.likes_count == 0 && p.dislikes_count == 0 && p.created_at == now
                &&& s1.posts@ == spec_bump_views(state1, p.id)
                &&& (rbody matches ResponseBody::Post(r) && resolved_ok(
                    state1,
                    s0.users@,
                    s0.interactions@,
                    p,
                    Some(ctx.auth_user->0.id),
                    r,
                ))
            })
        ||| (status == Status::BadRequest && s1.posts@ == s0.posts@)
    })
    })
}

/// Reply to a post: a new reply row, the parent reply counter raised, the
/// reply returned resolved.
pub fn posts_create_reply(
    post_id: &str,
    req: &Request,
    ctx: &Context,
    store: &mut Store,
    now: i64,
) -> (res: Response)
    requires
        old(store).wf(),
    ensures
        final(store).wf(),
        posts_create_reply_outcome(post_id@, *req, *ctx, *old(store), *final(store), res.status, res.body, now),
{
    let post = match find_post(post_id, store) {
        Option::Some(p) => p,
        Option::None => {
            return Response::new().status(Status::NotFound).text("404 Not Found");
        },
    };
    proof {
        lemma_found_post(store.posts@, post_id@);
    }
    let auth_user = match &ctx.auth_user {
        Option::Some(u) => u,
        Option::None => {
            return Response::new().status(Status::Unauthorized).text("401 Unauthorized");
        },
    };
    let text = match text_form(&req.body) {
        Option::Some(t) => t,
        Option::None => {
            return Response::new().status(Status::BadRequest).text("400 Bad Request");
        },
    };
    if !check_text(text.as_str()) {
        let mut report = FieldReport::new();
        report.insert_error("text", "must be between 1 and 512 characters");
        return Response::new().status(Status::BadRequest).body(ResponseBody::Report(report));
    }
    let reply = match store.create_post_row(
        PostType::Reply,
        Option::Some(post.id),
        auth_user.id,
        text,
        now,
    ) {
        Option::Some(p) => p,
        Option::None => {
            return Response::new().status(Status::BadRequest).text("400 Bad Request");
        },
    };
    store.adjust_tree_counter(post.id, PostType::Reply, true);
    proof {
        assert(store.posts@[store.posts@.len() - 1].id == reply.id);
        assert(store.posts@.contains(store.posts@[store.posts@.len() - 1]));
        lemma_find_contained_post(store.posts@, store.posts@[store.posts@.len() - 1]);
    }
    let stored = match store.find_post(reply.id) {
        Option::Some(p) => p,
        Option::None => {
            proof {
                assert(false);
            }
            return Response::new().status(Status::BadRequest).text("400 Bad Request");
        },
    };
    let r = store.fetch_relationships(&stored, Option::Some(auth_user.id));
    let cid = stored.content_post_id();
    store.record_view(cid);
    Response::new().body(ResponseBody::Post(r))
}



pub open spec fn posts_repost_outcome(pid: Seq<char>, ctx: Context, s0: Store, s1: Store, status: Status, rbody: ResponseBody, now: i64) -> bool {
    &&& (s1.users == s0.users)
    &&& (s1.sessions == s0.sessions)
    &&& (s1.interactions == s0.interactions)
    &&& ({
    spec_found_post(s0.posts@, pid) is None ==> status == Status::NotFound
        && s1.posts@ == s0.posts@
    })
    &&& ({
    spec_found_post(s0.posts@, pid) is Some && ctx.auth_user is None ==> status
        == Status::Unauthorized && s1.posts@ == s0.posts@
    })
    &&& ({
    spec_found_post(s0.posts@, pid) is Some && ctx.auth_user is Some ==> ({
        let post = spec_found_post(s0.posts@, pid)->0;
        let cid = post.spec_content_post_id();
        ||| (status == Status::Okay && exists|p: Post|
            {
                let state1 = spec_tree_counter(
                    s0.posts@.push(p),
                    cid,
                    PostType::Repost,
                    true,
                );
                &&& #[trigger] spec_find_post(s0.posts@, p.id) is None
                &&& p.kind == PostType::Repost && p.parent_post_id == Some(cid) && p.user_id
                    == ctx.auth_user->0.id && p.text@ == post.text@ && p.created_at == now
                &&& s1.posts@ == spec_bump_views(state1, cid)
                &&& (rbody matches ResponseBody::Post(r) && resolved_ok(
                    state1,
                    s0.users@,
                    s0.interactions@,
                    p,
                    Some(ctx.auth_user->0.id),
                    r,
                ))
            })
        ||| (status == Status::BadRequest && s1.posts@ == s0.posts@)
    })
    })
}

/// Repost a post: a new repost row targeting the content post, the content
/// repost counter raised, the repost returned resolved (copied-down).
pub fn posts_repost(post_id: &str, ctx: &Context, store: &mut Store, now: i64) -> (res: Response)
    requires
        old(store).wf(),
    ensures
        final(store).wf(),
        posts_repost_outcome(post_id@, *ctx, *old(store), *final(store), res.status, res.body, now),
{
    let post = match find_post(post_id, store) {
        Option::Some(p) => p,
        Option::None => {
            return Response::new().status(Status::NotFound).text("404 Not Found");
        },
    };
    proof {
        lemma_found_post(store.posts@, post_id@);
    }
    let auth_user = match &ctx.auth_user {
        Option::Some(u) => u,
        Option::None => {
            return Response::new().status(Status::Unauthorized).text("401 Unauthorized");
        },
    };
    let cid = post.content_post_id();
    let repost = match store.create_post_row(
        PostType::Repost,
        Option::Some(cid),
        auth_user.id,
        post.text.clone(),
        now,
    ) {
        Option::Some(p) => p,
        Option::None => {
            return Response::new().status(Status::BadRequest).text("400 Bad Request");
        },
    };
    store.adjust_tree_counter(cid, PostType::Repost, true);
    proof {
        assert(store.posts@[store.posts@.len() - 1].id == repost.id);
        assert(store.posts@.contains(store.posts@[store.posts@.len() - 1]));
        lemma_find_contained_post(store.posts@, store.posts@[store.posts@.len() - 1]);
    }
    let stored = match store.find_post(repost.id) {
        Option::Some(p) => p,
        Option::None => {
            proof {
                assert(false);
            }
            return Response::new().status(Status::BadRequest).text("400 Bad Request");
        },
    };
    let r = store.fetch_relationships(&stored, Option::Some(auth_user.id));
    let cid2 = stored.content_post_id();
    store.record_view(cid2);
    Response::new().body(ResponseBody::Post(r))
}

pub open spec fn posts_update_outcome(pid: Seq<char>, req: Request, ctx: Context, s0: Store, s1: Store, status: Status, rbody: ResponseBody, now: i64) -> bool {
    &&& (s1.users == s0.users)
    &&& (s1.sessions == s0.sessions)
    &&& (s1.interactions == s0.interactions)
    &&& ({
    spec_found_post(s0.posts@, pid) is None ==> status == Status::NotFound
        && s1.posts@ == s0.posts@
    })
    &&& ({
    spec_found_post(s0.posts@, pid) is Some ==> ({
        let post = spec_found_post(s0.posts@, pid)->0;
        let auth = ctx.auth_user->0;
        if !(post.user_id == auth.id || auth.role == UserRole::Admin) {
            status == Status::Unauthorized && s1.posts@ == s0.posts@
        } else if spec_text_form(req.body) is None {
            status == Status::BadRequest && s1.posts@ == s0.posts@
        } else if !text_valid(spec_text_form(req.body)->0) {
            status == Status::BadRequest && (rbody is Report) && s1.posts@
                == s0.posts@
        } else {
            let t = spec_text_form(req.body)->0;
            exists|state1: Seq<Post>|
                {
                    &&& #[trigger] state1.len() == s0.posts@.len()
                    &&& (forall|k: int|
                        0 <= k < state1.len() ==> (if (#[trigger] s0.posts@[k]).id
                            == post.id || (s0.posts@[k].parent_post_id == Some(post.id)
                            && s0.posts@[k].kind == PostType::Repost) {
                            crate::store::text_updated(s0.posts@[k], state1[k], t, now)
                        } else {
                            state1[k] == s0.posts@[k]
                        }))
                    &&& status == Status::Okay
                    &&& s1.posts@ == spec_bump_views(
                        state1,
                        post.spec_content_post_id(),
                    )
                    &&& (rbody matches ResponseBody::Post(r) && resolved_ok(
                        state1,
                        s0.users@,
                        s0.interactions@,
                        state1[post_idx(s0.posts@, post.id)],
                        Some(auth.id),
                        r,
                    ))
                }
        }
    })
    })
}

/// Edit a post's text: the owner or an administrator only; the new text is
/// written to the post and to every child that carries a copy.
pub fn posts_update(
    post_id: &str,
    req: &Request,
    ctx: &Context,
    store: &mut Store,
    now: i64,
) -> (res: Response)
    requires
        old(store).wf(),
        ctx.auth_user is Some,
    ensures
        final(store).wf(),
        posts_update_outcome(post_id@, *req, *ctx, *old(store), *final(store), res.status, res.body, now),
{
    let post = match find_post(post_id, store) {
        Option::Some(p) => p,
        Option::None => {
            return Response::new().status(Status::NotFound).text("404 Not Found");
        },
    };
    proof {
        lemma_found_post(store.posts@, post_id@);
    }
    let auth_user = match &ctx.auth_user {
        Option::Some(u) => u,
        Option::None => {
            proof {
                assert(false);
            }
            return Response::new().status(Status::Unauthorized).text("401 Unauthorized");
        },
    };
    if !(post.user_id == auth_user.id || auth_user.role == UserRole::Admin) {
        return Response::new().status(Status::Unauthorized).text("401 Unauthorized");
    }
    let text = match text_form(&req.body) {
        Option::Some(t) => t,
        Option::None => {
            return Response::new().status(Status::BadRequest).text("400 Bad Request");
        },
    };
    if !check_text(text.as_str()) {
        let mut report = FieldReport::new();
        report.insert_error("text", "must be between 1 and 512 characters");
        return Response::new().status(Status::BadRequest).body(ResponseBody::Report(report));
    }
    let ghost posts0 = store.posts@;
    store.update_post_texts(post.id, text.as_str(), now);
    let ghost state1 = store.posts@;
    proof {
        lemma_post_idx(posts0, post.id);
        assert(crate::store::text_updated(
            posts0[post_idx(posts0, post.id)],
            state1[post_idx(posts0, post.id)],
            text@,
            now,
        ));
        assert(state1[post_idx(posts0, post.id)].id == post.id);
        assert(state1.contains(state1[post_idx(posts0, post.id)]));
        assert(crate::store::same_shape(posts0, state1)) by {
            assert forall|k: int|
                0 <= k < posts0.len() implies (#[trigger] state1[k]).id == (
            #[trigger] posts0[k]).id && state1[k].kind == posts0[k].kind
                && state1[k].parent_post_id == posts0[k].parent_post_id by {
                if posts0[k].id == post.id || (posts0[k].parent_post_id == Some(post.id)
                    && posts0[k].kind == PostType::Repost) {
                    assert(crate::store::text_updated(posts0[k], state1[k], text@, now));
                }
            }
        }
        lemma_find_contained_post(state1, state1[post_idx(posts0, post.id)]);
    }
    let stored = match store.find_post(post.id) {
        Option::Some(p) => p,
        Option::None => {
            proof {
                assert(false);
            }
            return Response::new().status(Status::BadRequest).text("400 Bad Request");
        },
    };
    let r = store.fetch_relationships(&stored, Option::Some(auth_user.id));
    let cid = stored.content_post_id();
    proof {
        assert(stored.spec_content_post_id() == post.spec_content_post_id());
    }
    store.record_view(cid);
    Response::new().body(ResponseBody::Post(r))
}



pub open spec fn posts_replies_outcome(pid: Seq<char>, req: Request, ctx: Context, s0: Store, s1: Store, status: Status, rbody: ResponseBody) -> bool {
    &&& (s1.users == s0.users)
    &&& (s1.sessions == s0.sessions)
    &&& (s1.interactions == s0.interactions)
    &&& ({
    spec_found_post(s0.posts@, pid) is None ==> status == Status::NotFound
        && s1.posts@ == s0.posts@
    })
    &&& ({
    spec_found_post(s0.posts@, pid) is Some ==> ({
        let post = spec_found_post(s0.posts@, pid)->0;
        let qs = crate::web::opt_view(req.query);
        let viewer = match ctx.auth_user {
            Some(u) => Some(u.id),
            None => None,
        };
        match status {
            Status::Okay => exists|q: Seq<char>, page: i64, limit: i64|
                {
                    &&& #[trigger] index_query_ok(qs, q, page, limit)
                    &&& ({
                        let rows = sort_posts_desc(
                            filter_posts(s0.posts@, PostFilter::ByParent(post.id), q),
                        );
                        let win = page_window(rows, page, limit);
                        &&& s1.posts@ == bump_many(s0.posts@, win)
                        &&& (rbody matches ResponseBody::PostList { pagination, data }
                            && pagination.total == spec_total(rows.len()) && pagination.page
                            == page && pagination.limit == limit && data@.len() == win.len()
                            && (forall|k: int|
                            0 <= k < win.len() ==> resolved_ok(
                                s0.posts@,
                                s0.users@,
                                s0.interactions@,
                                win[k],
                                viewer,
                                #[trigger] data@[k],
                            )))
                    })
                },
            Status::BadRequest => s1.posts@ == s0.posts@ && !(exists|
                q: Seq<char>,
                page: i64,
                limit: i64,
            |
                #[trigger] index_query_ok(qs, q, page, limit)),
            _ => false,
        }
    })
    })
}

/// The listing of a post's direct children whose text matches the filter,
/// newest first.
pub fn posts_replies(
    post_id: &str,
    req: &Request,
    ctx: &Context,
    store: &mut Store,
    now: i64,
) -> (res: Response)
    requires
        old(store).wf(),
    ensures
        final(store).wf(),
        posts_replies_outcome(post_id@, *req, *ctx, *old(store), *final(store), res.status, res.body),
{
    let post = match find_post(post_id, store) {
        Option::Some(p) => p,
        Option::None => {
            return Response::new().status(Status::NotFound).text("404 Not Found");
        },
    };
    let query = match parse_index_query_of(req) {
        Result::Ok(iq) => iq,
        Result::Err(res) => {
            return res;
        },
    };
    let rows = sort_posts(
        select_posts(&store.posts, &PostFilter::ByParent(post.id), query.query.as_str()),
    );
    let total = total_of(rows.len());
    let win = page_posts(&rows, query.page, query.limit);
    proof {
        lemma_filter_posts_contains(
            old(store).posts@,
            PostFilter::ByParent(post.id),
            query.query@,
        );
        lemma_sort_posts_contains(
            filter_posts(old(store).posts@, PostFilter::ByParent(post.id), query.query@),
        );
        assert forall|k: int|
            0 <= k < win@.len() implies spec_find_post(old(store).posts@, (#[trigger] win@[k]).id)
            == Some(win@[k]) by {
            assert(rows@.contains(win@[k]));
            let j = choose|j: int| 0 <= j < rows@.len() && rows@[j] == win@[k];
            assert(old(store).posts@.contains(rows@[j]));
            lemma_find_contained_post(old(store).posts@, win@[k]);
        }
    }
    let viewer: Option<u128> = match &ctx.auth_user {
        Option::Some(u) => Option::Some(u.id),
        Option::None => Option::None,
    };
    let data = store.resolve_page(&win, viewer);
    Response::new().body(
        ResponseBody::PostList {
            pagination: crate::web::Pagination { total, page: query.page, limit: query.limit },
            data,
        },
    )
}

/// Remove the viewer's Like on a content post, if there is one, lowering
/// the counter only when a row was removed.
pub fn remove_post_like(store: &mut Store, post_id: u128, auth_user: &User)
    requires
        old(store).wf(),
    ensures
        final(store).wf(),
        final(store).users == old(store).users,
        final(store).sessions == old(store).sessions,
        final(store).interactions@ == spec_clear_ints(
            old(store).interactions@,
            post_id,
            auth_user.id,
            PostInteractionType::Like,
        ),
        final(store).posts@ == spec_clear_posts(
            old(store).posts@,
            old(store).interactions@,
            post_id,
            auth_user.id,
            PostInteractionType::Like,
        ),
{
    store.clear_interaction(post_id, auth_user.id, PostInteractionType::Like);
}

/// The Dislike twin of `remove_post_like`.
pub fn remove_post_dislike(store: &mut Store, post_id: u128, auth_user: &User)
    requires
        old(store).wf(),
    ensures
        final(store).wf(),
        final(store).users == old(store).users,
        final(store).sessions == old(store).sessions,
        final(store).interactions@ == spec_clear_ints(
            old(store).interactions@,
            post_id,
            auth_user.id,
            PostInteractionType::Dislike,
        ),
        final(store).posts@ == spec_clear_posts(
            old(store).posts@,
            old(store).interactions@,
            post_id,
            auth_user.id,
            PostInteractionType::Dislike,
        ),
{
    store.clear_interaction(post_id, auth_user.id, PostInteractionType::Dislike);
}

/// Toggle an interaction of `kind` on the content post of the named post.
fn set_post_interaction(
    post_id: &str,
    ctx: &Context,
    store: &mut Store,
    now: i64,
    kind: PostInteractionType,
) -> (res: Response)
    requires
        old(store).wf(),
    ensures
        final(store).wf(),
        final(store).users == old(store).users,
        final(store).sessions == old(store).sessions,
        spec_found_post(old(store).posts@, post_id@) is None ==> res.status == Status::NotFound
            && final(store).posts@ == old(store).posts@ && final(store).interactions == old(store).interactions,
        spec_found_post(old(store).posts@, post_id@) is Some && ctx.auth_user is None ==> res.status
            == Status::Unauthorized && final(store).posts@ == old(store).posts@ && final(store).interactions == old(store).interactions,
        spec_found_post(old(store).posts@, post_id@) is Some && ctx.auth_user is Some ==> ({
            let post = spec_found_post(old(store).posts@, post_id@)->0;
            let cid = post.spec_content_post_id();
            let uid = ctx.auth_user->0.id;
            &&& res.status == Status::Okay
            &&& res.body is Empty
            &&& (old(store).interactions@.len() < i64::MAX ==> exists|rid: u128|
                {
                    let st = #[trigger] spec_set_interaction(
                        old(store).posts@,
                        old(store).interactions@,
                        cid,
                        uid,
                        kind,
                        crate::models::PostInteraction {
                            id: rid,
                            post_id: cid,
                            user_id: uid,
                            kind,
                            created_at: now,
                            updated_at: now,
                        },
                    );
                    final(store).posts@ == st.0 && final(store).interactions@ == st.1
                })
            &&& (old(store).interactions@.len() >= i64::MAX ==> final(store).posts@
                == old(store).posts@ && final(store).interactions@ == old(store).interactions@)
        }),
{
    let post = match find_post(post_id, store) {
        Option::Some(p) => p,
        Option::None => {
            return Response::new().status(Status::NotFound).text("404 Not Found");
        },
    };
    proof {
        lemma_found_post(store.posts@, post_id@);
    }
    let auth_user = match &ctx.auth_user {
        Option::Some(u) => u,
        Option::None => {
            return Response::new().status(Status::Unauthorized).text("401 Unauthorized");
        },
    };
    let cid = post.content_post_id();
    let rid = crate::trusted::fresh_id();
    store.set_interaction(cid, auth_user.id, kind, rid, now);
    Response::new()
}

pub open spec fn posts_like_outcome(pid: Seq<char>, ctx: Context, s0: Store, s1: Store, status: Status, rbody: ResponseBody, now: i64) -> bool {
    &&& (s1.users == s0.users)
    &&& (s1.sessions == s0.sessions)
    &&& ({
    spec_found_post(s0.posts@, pid) is None ==> status == Status::NotFound
        && s1.posts@ == s0.posts@ && s1.interactions == s0.interactions
    })
    &&& ({
    spec_found_post(s0.posts@, pid) is Some && ctx.auth_user is None ==> status
        == Status::Unauthorized && s1.posts@ == s0.posts@ && s1.interactions == s0.interactions
    })
    &&& ({
    spec_found_post(s0.posts@, pid) is Some && ctx.auth_user is Some ==> ({
        let post = spec_found_post(s0.posts@, pid)->0;
        let cid = post.spec_content_post_id();
        let uid = ctx.auth_user->0.id;
        &&& status == Status::Okay
        &&& rbody is Empty
        &&& (s0.interactions@.len() < i64::MAX ==> exists|rid: u128|
            {
                let st = #[trigger] spec_set_interaction(
                    s0.posts@,
                    s0.interactions@,
                    cid,
                    uid,
                    PostInteractionType::Like,
                    crate::models::PostInteraction {
                        id: rid,
                        post_id: cid,
                        user_id: uid,
                        kind: PostInteractionType::Like,
                        created_at: now,
                        updated_at: now,
                    },
                );
                s1.posts@ == st.0 && s1.interactions@ == st.1
            })
    })
    })
}

/// Like a post: the ledger's set path on the content post.
pub fn posts_like(post_id: &str, ctx: &Context, store: &mut Store, now: i64) -> (res: Response)
    requires
        old(store).wf(),
    ensures
        final(store).wf(),
        posts_like_outcome(post_id@, *ctx, *old(store), *final(store), res.status, res.body, now),
{
    set_post_interaction(post_id, ctx, store, now, PostInteractionType::Like)
}

pub open spec fn posts_dislike_outcome(pid: Seq<char>, ctx: Context, s0: Store, s1: Store, status: Status, rbody: ResponseBody, now: i64) -> bool {
    &&& (s1.users == s0.users)
    &&& (s1.sessions == s0.sessions)
    &&& ({
    spec_found_post(s0.posts@, pid) is None ==> status == Status::NotFound
        && s1.posts@ == s0.posts@ && s1.interactions == s0.interactions
    })
    &&& ({
    spec_found_post(s0.posts@, pid) is Some && ctx.auth_user is None ==> status
        == Status::Unauthorized && s1.posts@ == s0.posts@ && s1.interactions == s0.interactions
    })
    &&& ({
    spec_found_post(s0.posts@, pid) is Some && ctx.auth_user is Some ==> ({
        let post = spec_found_post(s0.posts@, pid)->0;
        let cid = post.spec_content_post_id();
        let uid = ctx.auth_user->0.id;
        &&& status == Status::Okay
        &&& rbody is Empty
        &&& (s0.interactions@.len() < i64::MAX ==> exists|rid: u128|
            {
                let st = #[trigger] spec_set_interaction(
                    s0.posts@,
                    s0.interactions@,
                    cid,
                    uid,
                    PostInteractionType::Dislike,
                    crate::models::PostInteraction {
                        id: rid,
                        post_id: cid,
                        user_id: uid,
                        kind: PostInteractionType::Dislike,
                        created_at: now,
                        updated_at: now,
                    },
                );
                s1.posts@ == st.0 && s1.interactions@ == st.1
            })
    })
    })
}

/// Dislike a post: the ledger's set path on the content post.
pub fn posts_dislike(post_id: &str, ctx: &Context, store: &mut Store, now: i64) -> (res: Response)
    requires
        old(store).wf(),
    ensures
        final(store).wf(),
        posts_dislike_outcome(post_id@, *ctx, *old(store), *final(store), res.status, res.body, now),
{
    set_post_interaction(post_id, ctx, store, now, PostInteractionType::Dislike)
}

pub open spec fn posts_like_delete_outcome(pid: Seq<char>, ctx: Context, s0: Store, s1: Store, status: Status, rbody: ResponseBody) -> bool {
    &&& (s1.users == s0.users)
    &&& (s1.sessions == s0.sessions)
    &&& ({
    spec_found_post(s0.posts@, pid) is None ==> status == Status::NotFound
        && s1.posts@ == s0.posts@ && s1.interactions == s0.interactions
    })
    &&& ({
    spec_found_post(s0.posts@, pid) is Some && ctx.auth_user is None ==> status
        == Status::Unauthorized && s1.posts@ == s0.posts@ && s1.interactions == s0.interactions
    })
    &&& ({
    spec_found_post(s0.posts@, pid) is Some && ctx.auth_user is Some ==> ({
        let post = spec_found_post(s0.posts@, pid)->0;
        let cid = post.spec_content_post_id();
        let uid = ctx.auth_user->0.id;
        &&& status == Status::Okay
        &&& rbody is Empty
        &&& s1.interactions@ == spec_clear_ints(
            s0.interactions@,
            cid,
            uid,
            PostInteractionType::Like,
        )
        &&& s1.posts@ == spec_clear_posts(
            s0.posts@,
            s0.interactions@,
            cid,
            uid,
            PostInteractionType::Like,
        )
    })
    })
}

/// Clear the viewer's Like on the content post of the named post; calling
/// it again is a no-op.
pub fn posts_like_delete(post_id: &str, ctx: &Context, store: &mut Store) -> (res: Response)
    requires
        old(store).wf(),
    ensures
        final(store).wf(),
        posts_like_delete_outcome(post_id@, *ctx, *old(store), *final(store), res.status, res.body),
{
    let post = match find_post(post_id, store) {
        Option::Some(p) => p,
        Option::None => {
            return Response::new().status(Status::NotFound).text("404 Not Found");
        },
    };
    proof {
        lemma_found_post(store.posts@, post_id@);
    }
    let auth_user = match &ctx.auth_user {
        Option::Some(u) => u,
        Option::None => {
            return Response::new().status(Status::Unauthorized).text("401 Unauthorized");
        },
    };
    let cid = post.content_post_id();
    remove_post_like(store, cid, auth_user);
    Response::new()
}

pub open spec fn posts_dislike_delete_outcome(pid: Seq<char>, ctx: Context, s0: Store, s1: Store, status: Status, rbody: ResponseBody) -> bool {
    &&& (s1.users == s0.users)
    &&& (s1.sessions == s0.sessions)
    &&& ({
    spec_found_post(s0.posts@, pid) is None ==> status == Status::NotFound
        && s1.posts@ == s0.posts@ && s1.interactions == s0.interactions
    })
    &&& ({
    spec_found_post(s0.posts@, pid) is Some && ctx.auth_user is None ==> status
        == Status::Unauthorized && s1.posts@ == s0.posts@ && s1.interactions == s0.interactions
    })
    &&& ({
    spec_found_post(s0.posts@, pid) is Some && ctx.auth_user is Some ==> ({
        let post = spec_found_post(s0.posts@, pid)->0;
        let cid = post.spec_content_post_id();
        let uid = ctx.auth_user->0.id;
        &&& status == Status::Okay
        &&& rbody is Empty
        &&& s1.interactions@ == spec_clear_ints(
            s0.interactions@,
            cid,
            uid,
            PostInteractionType::Dislike,
        )
        &&& s1.posts@ == spec_clear_posts(
            s0.posts@,
            s0.interactions@,
            cid,
            uid,
            PostInteractionType::Dislike,
        )
    })
    })
}

/// Clear the viewer's Dislike on the content post of the named post.
pub fn posts_dislike_delete(post_id: &str, ctx: &Context, store: &mut Store) -> (res: Response)
    requires
        old(store).wf(),
    ensures
        final(store).wf(),
        posts_dislike_delete_outcome(post_id@, *ctx, *old(store), *final(store), res.status, res.body),
{
    let post = match find_post(post_id, store) {
        Option::Some(p) => p,
        Option::None => {
            return Response::new().status(Status::NotFound).text("404 Not Found");
        },
    };
    proof {
        lemma_found_post(store.posts@, post_id@);
    }
    let auth_user = match &ctx.auth_user {
        Option::Some(u) => u,
        Option::None => {
            return Response::new().status(Status::Unauthorized).text("401 Unauthorized");
        },
    };
    let cid = post.content_post_id();
    remove_post_dislike(store, cid, auth_user);
    Response::new()
}



pub open spec fn posts_delete_outcome(pid: Seq<char>, ctx: Context, s0: Store, s1: Store, status: Status, rbody: ResponseBody) -> bool {
    &&& (s1.users == s0.users)
    &&& (s1.sessions == s0.sessions)
    &&& ({
    ({
        match spec_found_post(s0.posts@, pid) {
            None => status == Status::NotFound && s1.posts@ == s0.posts@
                && s1.interactions == s0.interactions,
            Some(post) => {
                let auth = ctx.auth_user->0;
                if !(post.user_id == auth.id || auth.role == UserRole::Admin) {
                    status == Status::Unauthorized && s1.posts@ == s0.posts@ && s1.interactions == s0.interactions
                } else {
                    status == Status::Okay && rbody is Empty && exists|
                        dead: Seq<u128>,
                    |
                        {
                            let posts1 = if post.kind == PostType::Reply {
                                spec_tree_counter(
                                    s0.posts@,
                                    post.parent_post_id->0,
                                    PostType::Reply,
                                    false,
                                )
                            } else if post.kind == PostType::Repost {
                                spec_tree_counter(
                                    s0.posts@,
                                    post.parent_post_id->0,
                                    PostType::Repost,
                                    false,
                                )
                            } else {
                                s0.posts@
                            };
                            &&& #[trigger] dead.contains(post.id)
                            &&& (forall|x: u128|
                                #[trigger] dead.contains(x) ==> x == post.id || exists|k: int|
                                    0 <= k < s0.posts@.len() && (#[trigger] s0.posts@[k]).id == x && s0.posts@[k].parent_post_id is Some && dead.contains(
                                        s0.posts@[k].parent_post_id->0,
                                    ))
                            &&& (forall|k: int|
                                0 <= k < s0.posts@.len() && (#[trigger] s0.posts@[k]).parent_post_id is Some && dead.contains(
                                    s0.posts@[k].parent_post_id->0,
                                ) ==> dead.contains(s0.posts@[k].id))
                            &&& s1.posts@ == crate::store::keep_posts(posts1, dead)
                            &&& s1.interactions@ == crate::store::keep_ints(
                                s0.interactions@,
                                dead,
                            )
                        }
                }
            },
        }
    })
    })
}

/// Delete a post: the owner or an administrator; the parent's counter
/// falls, and the post's whole subtree and its interaction rows go with it.
pub fn posts_delete(post_id: &str, ctx: &Context, store: &mut Store) -> (res: Response)
    requires
        old(store).wf(),
        ctx.auth_user is Some,
    ensures
        final(store).wf(),
        posts_delete_outcome(post_id@, *ctx, *old(store), *final(store), res.status, res.body),
{
    let post = match find_post(post_id, store) {
        Option::Some(p) => p,
        Option::None => {
            return Response::new().status(Status::NotFound).text("404 Not Found");
        },
    };
    proof {
        lemma_found_post(store.posts@, post_id@);
    }
    let auth_user = match &ctx.auth_user {
        Option::Some(u) => u,
        Option::None => {
            proof {
                assert(false);
            }
            return Response::new();
        },
    };
    if !(post.user_id == auth_user.id || auth_user.role == UserRole::Admin) {
        return Response::new().status(Status::Unauthorized).text("401 Unauthorized");
    }
    store.delete_post(post);
    Response::new()
}


} // verus!
