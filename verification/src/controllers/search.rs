//! The combined search: users by username and posts by text, one page of
//! each. The server does not route it; it is part of the service surface
//! kept for callers that dispatch it themselves.

use vstd::prelude::*;

use crate::layers::Context;
use crate::listing::{
    filter_posts, filter_users, page_posts, page_users, select_posts, select_users, sort_posts,
    sort_posts_desc, PostFilter, lemma_filter_posts_contains, lemma_sort_posts_contains,
};
use crate::models::ApiUser;
use crate::resolve::resolved_ok;
use crate::store::{bump_many, lemma_find_contained_post, spec_find_post, Store};
use crate::web::{
    index_query_ok, page_window, IndexQueryOutcome, Request, Response, ResponseBody, Status,
};

verus! {

/// One page of users whose name matches and of posts whose text matches,
/// the posts newest first and resolved.
pub fn search(req: &Request, ctx: &Context, store: &mut Store, now: i64) -> (res: Response)
    requires
        old(store).wf(),
    ensures
        final(store).wf(),
        final(store).users == old(store).users,
        final(store).sessions == old(store).sessions,
        final(store).interactions == old(store).interactions,
        ({
            let qs = crate::web::opt_view(req.query);
            let viewer = match ctx.auth_user {
                Some(u) => Some(u.id),
                None => None,
            };
            match res.status {
                Status::Okay => exists|q: Seq<char>, page: i64, limit: i64|
                    {
                        &&& #[trigger] index_query_ok(qs, q, page, limit)
                        &&& ({
                            let urows = filter_users(old(store).users@, q);
                            let uwin = page_window(urows, page, limit);
                            let prows = sort_posts_desc(
                                filter_posts(old(store).posts@, PostFilter::ByText, q),
                            );
                            let pwin = page_window(prows, page, limit);
                            &&& final(store).posts@ == bump_many(old(store).posts@, pwin)
                            &&& (res.body matches ResponseBody::Search { users, posts }
                                && users@.len() == uwin.len() && (forall|k: int|
                                0 <= k < uwin.len() ==> #[trigger] users@[k]
                                    == uwin[k].spec_to_api()) && posts@.len() == pwin.len() && (
                            forall|k: int|
                                0 <= k < pwin.len() ==> resolved_ok(
                                    old(store).posts@,
                                    old(store).users@,
                                    old(store).interactions@,
                                    pwin[k],
                                    viewer,
                                    #[trigger] posts@[k],
                                )))
                        })
                    },
                Status::BadRequest => final(store).posts@ == old(store).posts@ && !(exists|
                    q: Seq<char>,
                    page: i64,
                    limit: i64,
                |
                    #[trigger] index_query_ok(qs, q, page, limit)),
                _ => false,
            }
        }),
{
    let query = match crate::web::parse_index_query(&req.query) {
        IndexQueryOutcome::Parsed(iq) => iq,
        IndexQueryOutcome::Malformed => {
            return Response::with_status(Status::BadRequest);
        },
        IndexQueryOutcome::Invalid(report) => {
            return Response::with_status(Status::BadRequest).body(ResponseBody::Report(report));
        },
    };
    let urows = select_users(&store.users, query.query.as_str());
    let uwin = page_users(&urows, query.page, query.limit);
    let mut users: Vec<ApiUser> = Vec::new();
    let mut i: usize = 0;
    while i < uwin.len()
        invariant
            i <= uwin@.len(),
            users@.len() == i,
            forall|k: int| 0 <= k < i ==> #[trigger] users@[k] == uwin@[k].spec_to_api(),
        decreases uwin@.len() - i,
    {
        users.push(uwin[i].to_api());
        i = i + 1;
    }
    let prows = sort_posts(select_posts(&store.posts, &PostFilter::ByText, query.query.as_str()));
    let pwin = page_posts(&prows, query.page, query.limit);
    proof {
        lemma_filter_posts_contains(old(store).posts@, PostFilter::ByText, query.query@);
        lemma_sort_posts_contains(filter_posts(old(store).posts@, PostFilter::ByText, query.query@));
        assert forall|k: int|
            0 <= k < pwin@.len() implies spec_find_post(old(store).posts@, (#[trigger] pwin@[k]).id)
            == Some(pwin@[k]) by {
            let rows_s = sort_posts_desc(
                filter_posts(old(store).posts@, PostFilter::ByText, query.query@),
            );
            assert(rows_s.contains(pwin@[k]));
            let j = choose|j: int| 0 <= j < rows_s.len() && rows_s[j] == pwin@[k];
            assert(old(store).posts@.contains(rows_s[j]));
            lemma_find_contained_post(old(store).posts@, pwin@[k]);
        }
    }
    let viewer: Option<u128> = match &ctx.auth_user {
        Option::Some(u) => Option::Some(u.id),
        Option::None => Option::None,
    };
    let posts = store.resolve_page(&pwin, viewer);
    Response::new().body(ResponseBody::Search { users, posts })
}

} // verus!
