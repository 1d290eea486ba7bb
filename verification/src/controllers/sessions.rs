//! The session routes: listing, display and revocation.

use vstd::prelude::*;

use crate::layers::Context;
use crate::listing::{
    filter_sessions, page_sessions, select_sessions, sort_sessions, sort_sessions_desc,
    spec_total, total_of, SessionFilter,
};
use crate::models::{ApiSession, Session, UserRole};
use crate::resolve::user_projection;
use crate::store::{
    lemma_user_idx, spec_expire_session, spec_find_session, spec_find_user, user_idx, Store,
};
use crate::text::{parse_uuid, spec_parse_uuid};
use crate::web::{
    index_query_ok, page_window, IndexQueryOutcome, Request, Response, ResponseBody, Status,
};

verus! {

/// The session a raw path id names.
pub open spec fn spec_found_session(sessions: Seq<Session>, raw: Seq<char>) -> Option<Session> {
    match spec_parse_uuid(raw) {
        None => None,
        Some(id) => spec_find_session(sessions, id),
    }
}

/// Resolve the `:session_id` path parameter to a stored session.
pub fn find_session(session_id: &str, store: &Store) -> (r: Option<Session>)
    ensures
        r == spec_found_session(store.sessions@, session_id@),
{
    match parse_uuid(session_id) {
        Option::Some(id) => store.find_session(id),
        Option::None => Option::None,
    }
}

/// The projections a session listing carries, each with its owning user
/// attached.
pub open spec fn sessions_projected(
    win: Seq<Session>,
    users: Seq<crate::models::User>,
    data: Seq<ApiSession>,
) -> bool {
    data.len() == win.len() && forall|k: int|
        0 <= k < win.len() ==> #[trigger] data[k] == win[k].spec_to_api(
            user_projection(users, win[k].user_id),
        )
}

pub open spec fn sessions_index_outcome(req: Request, ctx: Context, s0: Store, s1: Store, status: Status, rbody: ResponseBody) -> bool {
    &&& (s1 == s0)
    &&& ({
    ({
        let qs = crate::web::opt_view(req.query);
        if ctx.auth_user->0.role != UserRole::Admin {
            status == Status::Unauthorized
        } else {
            match status {
                Status::Okay => exists|q: Seq<char>, page: i64, limit: i64|
                    {
                        &&& #[trigger] index_query_ok(qs, q, page, limit)
                        &&& ({
                            let rows = sort_sessions_desc(
                                filter_sessions(s0.sessions@, SessionFilter::All),
                            );
                            let win = page_window(rows, page, limit);
                            rbody matches ResponseBody::SessionList { pagination, data }
                                && pagination.total == spec_total(rows.len())
                                && pagination.page == page && pagination.limit == limit
                                && sessions_projected(win, s0.users@, data@)
                        })
                    },
                Status::BadRequest => !(exists|q: Seq<char>, page: i64, limit: i64|
                    #[trigger] index_query_ok(qs, q, page, limit)),
                _ => false,
            }
        }
    })
    })
}

/// The administrator's listing of every session, by expiry, latest first.
pub fn sessions_index(req: &Request, ctx: &Context, store: &mut Store, now: i64) -> (res: Response)
    requires
        old(store).wf(),
        ctx.auth_user is Some,
    ensures
        final(store).wf(),
        sessions_index_outcome(*req, *ctx, *old(store), *final(store), res.status, res.body),
{
    let auth_user = match &ctx.auth_user {
        Option::Some(u) => u,
        Option::None => {
            proof {
                assert(false);
            }
            return Response::new();
        },
    };
    if auth_user.role != UserRole::Admin {
        return Response::new().status(Status::Unauthorized).text("401 Unauthorized");
    }
    let query = match crate::web::parse_index_query(&req.query) {
        IndexQueryOutcome::Parsed(iq) => iq,
        IndexQueryOutcome::Malformed => {
            return Response::with_status(Status::BadRequest);
        },
        IndexQueryOutcome::Invalid(report) => {
            return Response::with_status(Status::BadRequest).body(ResponseBody::Report(report));
        },
    };
    let rows = sort_sessions(select_sessions(&store.sessions, &SessionFilter::All));
    let total = total_of(rows.len());
    let win = page_sessions(&rows, query.page, query.limit);
    let data = attach_users(store, &win);
    Response::new().body(
        ResponseBody::SessionList {
            pagination: crate::web::Pagination { total, page: query.page, limit: query.limit },
            data,
        },
    )
}

/// Attach each listed session's owning user projection.
fn attach_users(store: &Store, win: &Vec<Session>) -> (data: Vec<ApiSession>)
    ensures
        sessions_projected(win@, store.users@, data@),
{
    let mut data: Vec<ApiSession> = Vec::new();
    let mut i: usize = 0;
    while i < win.len()
        invariant
            i <= win@.len(),
            data@.len() == i,
            forall|k: int|
                0 <= k < i ==> #[trigger] data@[k] == win@[k].spec_to_api(
                    user_projection(store.users@, win@[k].user_id),
                ),
        decreases win@.len() - i,
    {
        let user = match store.find_user(win[i].user_id) {
            Option::Some(u) => Option::Some(u.to_api()),
            Option::None => Option::None,
        };
        data.push(win[i].to_api(user));
        i = i + 1;
    }
    data
}

pub open spec fn sessions_show_outcome(sid: Seq<char>, ctx: Context, s0: Store, s1: Store, status: Status, rbody: ResponseBody) -> bool {
    &&& (s1 == s0)
    &&& ({
    ({
        match spec_found_session(s0.sessions@, sid) {
            None => status == Status::NotFound,
            Some(sess) => {
                let auth = ctx.auth_user->0;
                if !(sess.user_id == auth.id || auth.role == UserRole::Admin) {
                    status == Status::Unauthorized
                } else {
                    status == Status::Okay && (rbody matches ResponseBody::Session(s)
                        && s == sess.spec_to_api(
                        user_projection(s0.users@, sess.user_id),
                    ))
                }
            },
        }
    })
    })
}

/// One session, its owning user attached: its owner or an administrator.
pub fn sessions_show(session_id: &str, ctx: &Context, store: &mut Store) -> (res: Response)
    requires
        old(store).wf(),
        ctx.auth_user is Some,
    ensures
        final(store).wf(),
        sessions_show_outcome(session_id@, *ctx, *old(store), *final(store), res.status, res.body),
{
    let sess = match find_session(session_id, store) {
        Option::Some(s) => s,
        Option::None => {
            return Response::new().status(Status::NotFound).text("404 Not Found");
        },
    };
    let auth_user = match &ctx.auth_user {
        Option::Some(u) => u,
        Option::None => {
            proof {
                assert(false);
            }
            return Response::new();
        },
    };
    if !(sess.user_id == auth_user.id || auth_user.role == UserRole::Admin) {
        return Response::new().status(Status::Unauthorized).text("401 Unauthorized");
    }
    let user = match store.find_user(sess.user_id) {
        Option::Some(u) => Option::Some(u.to_api()),
        Option::None => Option::None,
    };
    let api = sess.to_api(user);
    Response::new().body(ResponseBody::Session(api))
}

pub open spec fn sessions_revoke_outcome(sid: Seq<char>, ctx: Context, s0: Store, s1: Store, status: Status, rbody: ResponseBody, now: i64) -> bool {
    &&& (s1.users == s0.users)
    &&& (s1.posts == s0.posts)
    &&& (s1.interactions == s0.interactions)
    &&& ({
    ({
        match spec_found_session(s0.sessions@, sid) {
            None => status == Status::NotFound && s1.sessions@ == s0.sessions@,
            Some(sess) => {
                let auth = ctx.auth_user->0;
                if !(sess.user_id == auth.id || auth.role == UserRole::Admin) {
                    status == Status::Unauthorized && s1.sessions@ == s0.sessions@
                } else {
                    status == Status::Okay && s1.sessions@ == spec_expire_session(
                        s0.sessions@,
                        sess.id,
                        now,
                    )
                }
            },
        }
    })
    })
}

/// Revoke a session: its owner or an administrator sets its expiry to now.
pub fn sessions_revoke(session_id: &str, ctx: &Context, store: &mut Store, now: i64) -> (res:
    Response)
    requires
        old(store).wf(),
        ctx.auth_user is Some,
    ensures
        final(store).wf(),
        sessions_revoke_outcome(session_id@, *ctx, *old(store), *final(store), res.status, res.body, now),
{
    let sess = match find_session(session_id, store) {
        Option::Some(s) => s,
        Option::None => {
            return Response::new().status(Status::NotFound).text("404 Not Found");
        },
    };
    let auth_user = match &ctx.auth_user {
        Option::Some(u) => u,
        Option::None => {
            proof {
                assert(false);
            }
            return Response::new();
        },
    };
    if !(sess.user_id == auth_user.id || auth_user.role == UserRole::Admin) {
        return Response::new().status(Status::Unauthorized).text("401 Unauthorized");
    }
    store.expire_session(sess.id, now);
    Response::new()
}

} // verus!
