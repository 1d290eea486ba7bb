//! The middleware pipeline and router: ordered pre-stages that may
//! short-circuit, exact method-and-path dispatch with one bound parameter,
//! and the post-stage that stamps CORS headers on every response,
//! short-circuited ones included.

use vstd::prelude::*;

use crate::controllers;
use crate::forms::{find_from, lemma_find_from, find_char, str_eq};
use crate::layers::{
    auth_optional_pre_layer, auth_required_pre_layer, cors_headers_present, cors_post_layer,
    cors_pre_layer, spec_authenticate, Context,
};
use crate::models::{Session, User};
use crate::store::Store;
use crate::web::{Method, Request, Response, ResponseBody, Status};

verus! {

/// The path segments after the leading slash.
pub open spec fn segs_from(s: Seq<char>, i: int) -> Seq<Seq<char>>
    decreases s.len() - i,
    via segs_from_dec
{
    if i < 0 || i > s.len() {
        Seq::empty()
    } else {
        let j = find_from(s, i, '/');
        if j >= s.len() {
            seq![s.subrange(i, s.len() as int)]
        } else {
            seq![s.subrange(i, j)] + segs_from(s, j + 1)
        }
    }
}

#[via_fn]
proof fn segs_from_dec(s: Seq<char>, i: int) {
    if 0 <= i <= s.len() {
        lemma_find_from(s, i, '/');
    }
}

pub open spec fn spec_segments(path: Seq<char>) -> Seq<Seq<char>> {
    if path.len() >= 1 && path[0] == '/' {
        segs_from(path, 1)
    } else {
        segs_from(path, 0)
    }
}

fn split_path(path: &str) -> (r: Vec<String>)
    ensures
        r@.len() == spec_segments(path@).len(),
        forall|k: int| 0 <= k < r@.len() ==> (#[trigger] r@[k])@ == spec_segments(path@)[k],
{
    let n = path.unicode_len();
    let mut start: usize = 0;
    if n >= 1 && path.get_char(0) == '/' {
        start = 1;
    }
    let mut out: Vec<String> = Vec::new();
    let mut i: usize = start;
    let mut done = false;
    while !done
        invariant
            n == path@.len(),
            !done ==> i <= n && spec_segments(path@) =~= out@.map_values(|p: String| p@)
                + segs_from(path@, i as int),
            done ==> spec_segments(path@) =~= out@.map_values(|p: String| p@),
        decreases n - i + (if done {
            0int
        } else {
            1int
        }),
    {
        let j = find_char(path, i, '/');
        proof {
            lemma_find_from(path@, i as int, '/');
        }
        let seg = path.substring_char(i, j).to_owned();
        out.push(seg);
        proof {
            assert(out@.map_values(|p: String| p@) =~= out@.drop_last().map_values(
                |p: String| p@,
            ).push(out@.last()@));
        }
        if j >= n {
            done = true;
        } else {
            i = j + 1;
        }
    }
    out
}

/// Every route the service dispatches, and the fallback.
pub enum Route {
    Home,
    AuthLogin,
    AuthValidate,
    AuthLogout,
    PostsIndex,
    PostsCreate,
    PostShow,
    PostUpdate,
    PostDelete,
    PostReplies,
    PostReply,
    PostRepost,
    PostLike,
    PostLikeDelete,
    PostDislike,
    PostDislikeDelete,
    UsersIndex,
    UsersCreate,
    UserShow,
    UserUpdate,
    UserChangePassword,
    UserSessions,
    UserPosts,
    SessionsIndex,
    SessionShow,
    SessionRevoke,
    Fallback,
}

/// Exact method-and-path dispatch over the split segments.
pub open spec fn spec_route(m: Method, segs: Seq<Seq<char>>) -> Route {
    if segs.len() == 1 && segs[0] == Seq::<char>::empty() && m == Method::Get {
        Route::Home
    } else if segs.len() == 2 && segs[0] == "auth"@ && segs[1] == "login"@ && m == Method::Post {
        Route::AuthLogin
    } else if segs.len() == 2 && segs[0] == "auth"@ && segs[1] == "validate"@ && m == Method::Get {
        Route::AuthValidate
    } else if segs.len() == 2 && segs[0] == "auth"@ && segs[1] == "logout"@ && m == Method::Put {
        Route::AuthLogout
    } else if segs.len() == 1 && segs[0] == "posts"@ && m == Method::Get {
        Route::PostsIndex
    } else if segs.len() == 1 && segs[0] == "posts"@ && m == Method::Post {
        Route::PostsCreate
    } else if segs.len() == 2 && segs[0] == "posts"@ && m == Method::Get {
        Route::PostShow
    } else if segs.len() == 2 && segs[0] == "posts"@ && m == Method::Put {
        Route::PostUpdate
    } else if segs.len() == 2 && segs[0] == "posts"@ && m == Method::Delete {
        Route::PostDelete
    } else if segs.len() == 3 && segs[0] == "posts"@ && segs[2] == "replies"@ && m
        == Method::Get {
        Route::PostReplies
    } else if segs.len() == 3 && segs[0] == "posts"@ && segs[2] == "reply"@ && m == Method::Post {
        Route::PostReply
    } else if segs.len() == 3 && segs[0] == "posts"@ && segs[2] == "repost"@ && m
        == Method::Post {
        Route::PostRepost
    } else if segs.len() == 3 && segs[0] == "posts"@ && segs[2] == "like"@ && m == Method::Put {
        Route::PostLike
    } else if segs.len() == 3 && segs[0] == "posts"@ && segs[2] == "like"@ && m
        == Method::Delete {
        Route::PostLikeDelete
    } else if segs.len() == 3 && segs[0] == "posts"@ && segs[2] == "dislike"@ && m
        == Method::Put {
        Route::PostDislike
    } else if segs.len() == 3 && segs[0] == "posts"@ && segs[2] == "dislike"@ && m
        == Method::Delete {
        Route::PostDislikeDelete
    } else if segs.len() == 1 && segs[0] == "users"@ && m == Method::Get {
        Route::UsersIndex
    } else if segs.len() == 1 && segs[0] == "users"@ && m == Method::Post {
        Route::UsersCreate
    } else if segs.len() == 2 && segs[0] == "users"@ && m == Method::Get {
        Route::UserShow
    } else if segs.len() == 2 && segs[0] == "users"@ && m == Method::Put {
        Route::UserUpdate
    } else if segs.len() == 3 && segs[0] == "users"@ && segs[2] == "change_password"@ && m
        == Method::Put {
        Route::UserChangePassword
    } else if segs.len() == 3 && segs[0] == "users"@ && segs[2] == "sessions"@ && m
        == Method::Get {
        Route::UserSessions
    } else if segs.len() == 3 && segs[0] == "users"@ && segs[2] == "posts"@ && m == Method::Get {
        Route::UserPosts
    } else if segs.len() == 1 && segs[0] == "sessions"@ && m == Method::Get {
        Route::SessionsIndex
    } else if segs.len() == 2 && segs[0] == "sessions"@ && m == Method::Get {
        Route::SessionShow
    } else if segs.len() == 2 && segs[0] == "sessions"@ && m == Method::Delete {
        Route::SessionRevoke
    } else {
        Route::Fallback
    }
}

/// The routes the required-authentication pre-stage guards.
pub open spec fn route_requires_auth(r: Route) -> bool {
    match r {
        Route::AuthValidate => true,
        Route::AuthLogout => true,
        Route::PostsCreate => true,
        Route::PostUpdate => true,
        Route::PostDelete => true,
        Route::PostReply => true,
        Route::PostRepost => true,
        Route::PostLike => true,
        Route::PostLikeDelete => true,
        Route::PostDislike => true,
        Route::PostDislikeDelete => true,
        Route::UsersIndex => true,
        Route::UserUpdate => true,
        Route::UserChangePassword => true,
        Route::UserSessions => true,
        Route::SessionsIndex => true,
        Route::SessionShow => true,
        Route::SessionRevoke => true,
        _ => false,
    }
}

fn match_route(m: Method, segs: &Vec<String>) -> (r: Route)
    ensures
        ({
            let sv = segs@.map_values(|p: String| p@);
            r == spec_route(m, sv)
        }),
{
    proof {
        reveal_strlit("");
        reveal_strlit("auth");
        reveal_strlit("posts");
        reveal_strlit("users");
        reveal_strlit("sessions");
        reveal_strlit("login");
        reveal_strlit("validate");
        reveal_strlit("logout");
        reveal_strlit("replies");
        reveal_strlit("reply");
        reveal_strlit("repost");
        reveal_strlit("like");
        reveal_strlit("dislike");
        reveal_strlit("change_password");
        assert(""@ =~= Seq::<char>::empty());
        assert("posts"@[0] != "users"@[0]);
        assert("replies"@[0] != "dislike"@[0]);
    }
    let ghost sv = segs@.map_values(|p: String| p@);
    let n = segs.len();
    if n == 1 {
        let s0 = &segs[0];
        assert(sv[0] == s0@);
        if str_eq(s0.as_str(), "") {
            if m == Method::Get {
                return Route::Home;
            }
        } else if str_eq(s0.as_str(), "posts") {
            if m == Method::Get {
                return Route::PostsIndex;
            }
            if m == Method::Post {
                return Route::PostsCreate;
            }
        } else if str_eq(s0.as_str(), "users") {
            if m == Method::Get {
                return Route::UsersIndex;
            }
            if m == Method::Post {
                return Route::UsersCreate;
            }
        } else if str_eq(s0.as_str(), "sessions") {
            if m == Method::Get {
                return Route::SessionsIndex;
            }
        }
        return Route::Fallback;
    }
    if n == 2 {
        let s0 = &segs[0];
        let s1 = &segs[1];
        assert(sv[0] == s0@ && sv[1] == s1@);
        if str_eq(s0.as_str(), "auth") {
            if str_eq(s1.as_str(), "login") && m == Method::Post {
                return Route::AuthLogin;
            }
            if str_eq(s1.as_str(), "validate") && m == Method::Get {
                return Route::AuthValidate;
            }
            if str_eq(s1.as_str(), "logout") && m == Method::Put {
                return Route::AuthLogout;
            }
            return Route::Fallback;
        }
        if str_eq(s0.as_str(), "posts") {
            if m == Method::Get {
                return Route::PostShow;
            }
            if m == Method::Put {
                return Route::PostUpdate;
            }
            if m == Method::Delete {
                return Route::PostDelete;
            }
            return Route::Fallback;
        }
        if str_eq(s0.as_str(), "users") {
            if m == Method::Get {
                return Route::UserShow;
            }
            if m == Method::Put {
                return Route::UserUpdate;
            }
            return Route::Fallback;
        }
        if str_eq(s0.as_str(), "sessions") {
            if m == Method::Get {
                return Route::SessionShow;
            }
            if m == Method::Delete {
                return Route::SessionRevoke;
            }
            return Route::Fallback;
        }
        return Route::Fallback;
    }
    if n == 3 {
        let s0 = &segs[0];
        let s2 = &segs[2];
        assert(sv[0] == s0@ && sv[2] == s2@);
        if str_eq(s0.as_str(), "posts") {
            if str_eq(s2.as_str(), "replies") && m == Method::Get {
                return Route::PostReplies;
            }
            if str_eq(s2.as_str(), "reply") && m == Method::Post {
                return Route::PostReply;
            }
            if str_eq(s2.as_str(), "repost") && m == Method::Post {
                return Route::PostRepost;
            }
            if str_eq(s2.as_str(), "like") && m == Method::Put {
                return Route::PostLike;
            }
            if str_eq(s2.as_str(), "like") && m == Method::Delete {
                return Route::PostLikeDelete;
            }
            if str_eq(s2.as_str(), "dislike") && m == Method::Put {
                return Route::PostDislike;
            }
            if str_eq(s2.as_str(), "dislike") && m == Method::Delete {
                return Route::PostDislikeDelete;
            }
            return Route::Fallback;
        }
        if str_eq(s0.as_str(), "users") {
            if str_eq(s2.as_str(), "change_password") && m == Method::Put {
                return Route::UserChangePassword;
            }
            if str_eq(s2.as_str(), "sessions") && m == Method::Get {
                return Route::UserSessions;
            }
            if str_eq(s2.as_str(), "posts") && m == Method::Get {
                return Route::UserPosts;
            }
            return Route::Fallback;
        }
        return Route::Fallback;
    }
    Route::Fallback
}

/// The context the authenticator resolves for a request.
pub open spec fn auth_context(auth: Option<(Session, User)>) -> Context {
    Context {
        auth_user: match auth {
            Some(su) => Some(su.1),
            None => None,
        },
        auth_session: match auth {
            Some(su) => Some(su.0),
            None => None,
        },
    }
}

/// The whole pipeline contract: an OPTIONS request is answered untouched, a
/// guarded route without a valid session is refused untouched, and every
/// other request is answered exactly as its route's handler answers it,
/// under the context the authenticator resolved.
pub open spec fn dispatched_ok(
    req: Request,
    geo: Option<(String, String)>,
    s0: Store,
    s1: Store,
    status: Status,
    rbody: ResponseBody,
    now: i64,
) -> bool {
    let segs = spec_segments(req.path@);
    let auth = spec_authenticate(s0.sessions@, s0.users@, req.headers@, now);
    let ctx = auth_context(auth);
    let r = spec_route(req.method, segs);
    &&& (req.method == Method::Options ==> s1 == s0 && status == Status::Okay && rbody is Empty)
    &&& (req.method != Method::Options && route_requires_auth(r) && auth is None ==> status
        == Status::Unauthorized && s1 == s0)
    &&& (req.method != Method::Options && !(route_requires_auth(r) && auth is None) ==> (match r {
        Route::Home => controllers::home_outcome(status, rbody) && s1 == s0,
        Route::AuthLogin => controllers::auth::auth_login_outcome(
            req,
            geo,
            s0,
            s1,
            status,
            rbody,
            now,
        ),
        Route::AuthValidate => controllers::auth::auth_validate_outcome(ctx, status, rbody) && s1
            == s0,
        Route::AuthLogout => controllers::auth::auth_logout_outcome(ctx, s0, s1, status, rbody, now),
        Route::PostsIndex => controllers::posts::posts_index_outcome(req, ctx, s0, s1, status, rbody),
        Route::PostsCreate => controllers::posts::posts_create_outcome(
            req,
            ctx,
            s0,
            s1,
            status,
            rbody,
            now,
        ),
        Route::PostShow => controllers::posts::posts_show_outcome(
            segs[1],
            ctx,
            s0,
            s1,
            status,
            rbody,
        ),
        Route::PostUpdate => controllers::posts::posts_update_outcome(
            segs[1],
            req,
            ctx,
            s0,
            s1,
            status,
            rbody,
            now,
        ),
        Route::PostDelete => controllers::posts::posts_delete_outcome(
            segs[1],
            ctx,
            s0,
            s1,
            status,
            rbody,
        ),
        Route::PostReplies => controllers::posts::posts_replies_outcome(
            segs[1],
            req,
            ctx,
            s0,
            s1,
            status,
            rbody,
        ),
        Route::PostReply => controllers::posts::posts_create_reply_outcome(
            segs[1],
            req,
            ctx,
            s0,
            s1,
            status,
            rbody,
            now,
        ),
        Route::PostRepost => controllers::posts::posts_repost_outcome(
            segs[1],
            ctx,
            s0,
            s1,
            status,
            rbody,
            now,
        ),
        Route::PostLike => controllers::posts::posts_like_outcome(
            segs[1],
            ctx,
            s0,
            s1,
            status,
            rbody,
            now,
        ),
        Route::PostLikeDelete => controllers::posts::posts_like_delete_outcome(
            segs[1],
            ctx,
            s0,
            s1,
            status,
            rbody,
        ),
        Route::PostDislike => controllers::posts::posts_dislike_outcome(
            segs[1],
            ctx,
            s0,
            s1,
            status,
            rbody,
            now,
        ),
        Route::PostDislikeDelete => controllers::posts::posts_dislike_delete_outcome(
            segs[1],
            ctx,
            s0,
            s1,
            status,
            rbody,
        ),
        Route::UsersIndex => controllers::users::users_index_outcome(req, ctx, s0, s1, status, rbody),
        Route::UsersCreate => controllers::users::users_create_outcome(
            req,
            s0,
            s1,
            status,
            rbody,
            now,
        ),
        Route::UserShow => controllers::users::users_show_outcome(segs[1], s0, s1, status, rbody),
        Route::UserUpdate => controllers::users::users_update_outcome(
            segs[1],
            req,
            ctx,
            s0,
            s1,
            status,
            rbody,
            now,
        ),
        Route::UserChangePassword => controllers::users::users_change_password_outcome(
            segs[1],
            req,
            ctx,
            s0,
            s1,
            status,
            rbody,
            now,
        ),
        Route::UserSessions => controllers::users::users_sessions_outcome(
            segs[1],
            req,
            ctx,
            s0,
            s1,
            status,
            rbody,
            now,
        ),
        Route::UserPosts => controllers::users::users_posts_outcome(
            segs[1],
            req,
            ctx,
            s0,
            s1,
            status,
            rbody,
        ),
        Route::SessionsIndex => controllers::sessions::sessions_index_outcome(
            req,
            ctx,
            s0,
            s1,
            status,
            rbody,
        ),
        Route::SessionShow => controllers::sessions::sessions_show_outcome(
            segs[1],
            ctx,
            s0,
            s1,
            status,
            rbody,
        ),
        Route::SessionRevoke => controllers::sessions::sessions_revoke_outcome(
            segs[1],
            ctx,
            s0,
            s1,
            status,
            rbody,
            now,
        ),
        Route::Fallback => controllers::not_found_outcome(status, rbody) && s1 == s0,
    }))
}

/// Run one request through the pipeline: CORS preflight short-circuit,
/// optional authentication, dispatch (behind the required-authentication
/// stage where the route demands it), and CORS headers on every way out.
/// The caller may attach looked-up geo metadata for the client address,
/// which only login records.
pub fn handle_geo(
    store: &mut Store,
    req: &Request,
    geo: &Option<(String, String)>,
    now: i64,
) -> (res: Response)
    requires
        old(store).wf(),
    ensures
        final(store).wf(),
        cors_headers_present(res.headers@),
        dispatched_ok(*req, *geo, *old(store), *final(store), res.status, res.body, now),
{
    let mut ctx = Context::new();
    match cors_pre_layer(req, &mut ctx) {
        Option::Some(res) => {
            return cors_post_layer(req, &mut ctx, res);
        },
        Option::None => {},
    }
    auth_optional_pre_layer(req, &mut ctx, store, now);
    let segs = split_path(req.path.as_str());
    let route = match_route(req.method, &segs);
    proof {
        assert(segs@.map_values(|p: String| p@) =~= spec_segments(req.path@));
    }
    let guarded = match route {
        Route::AuthValidate => true,
        Route::AuthLogout => true,
        Route::PostsCreate => true,
        Route::PostUpdate => true,
        Route::PostDelete => true,
        Route::PostReply => true,
        Route::PostRepost => true,
        Route::PostLike => true,
        Route::PostLikeDelete => true,
        Route::PostDislike => true,
        Route::PostDislikeDelete => true,
        Route::UsersIndex => true,
        Route::UserUpdate => true,
        Route::UserChangePassword => true,
        Route::UserSessions => true,
        Route::SessionsIndex => true,
        Route::SessionShow => true,
        Route::SessionRevoke => true,
        _ => false,
    };
    if guarded {
        match auth_required_pre_layer(req, &mut ctx, store, now) {
            Option::Some(res) => {
                return cors_post_layer(req, &mut ctx, res);
            },
            Option::None => {},
        }
    }
    proof {
        let auth = spec_authenticate(old(store).sessions@, old(store).users@, req.headers@, now);
        assert(ctx == auth_context(auth));
    }
    let res = match route {
        Route::Home => controllers::home(req, &ctx),
        Route::AuthLogin => controllers::auth::auth_login(req, geo, store, now),
        Route::AuthValidate => controllers::auth::auth_validate(&ctx),
        Route::AuthLogout => controllers::auth::auth_logout(&ctx, store, now),
        Route::PostsIndex => controllers::posts::posts_index(req, &ctx, store, now),
        Route::PostsCreate => controllers::posts::posts_create(req, &ctx, store, now),
        Route::PostShow => controllers::posts::posts_show(segs[1].as_str(), &ctx, store, now),
        Route::PostUpdate => controllers::posts::posts_update(
            segs[1].as_str(),
            req,
            &ctx,
            store,
            now,
        ),
        Route::PostDelete => controllers::posts::posts_delete(segs[1].as_str(), &ctx, store),
        Route::PostReplies => controllers::posts::posts_replies(
            segs[1].as_str(),
            req,
            &ctx,
            store,
            now,
        ),
        Route::PostReply => controllers::posts::posts_create_reply(
            segs[1].as_str(),
            req,
            &ctx,
            store,
            now,
        ),
        Route::PostRepost => controllers::posts::posts_repost(segs[1].as_str(), &ctx, store, now),
        Route::PostLike => controllers::posts::posts_like(segs[1].as_str(), &ctx, store, now),
        Route::PostLikeDelete => controllers::posts::posts_like_delete(
            segs[1].as_str(),
            &ctx,
            store,
        ),
        Route::PostDislike => controllers::posts::posts_dislike(
            segs[1].as_str(),
            &ctx,
            store,
            now,
        ),
        Route::PostDislikeDelete => controllers::posts::posts_dislike_delete(
            segs[1].as_str(),
            &ctx,
            store,
        ),
        Route::UsersIndex => controllers::users::users_index(req, &ctx, store, now),
        Route::UsersCreate => controllers::users::users_create(req, &ctx, store, now),
        Route::UserShow => controllers::users::users_show(segs[1].as_str(), &ctx, store),
        Route::UserUpdate => controllers::users::users_update(
            segs[1].as_str(),
            req,
            &ctx,
            store,
            now,
        ),
        Route::UserChangePassword => controllers::users::users_change_password(
            segs[1].as_str(),
            req,
            &ctx,
            store,
            now,
        ),
        Route::UserSessions => controllers::users::users_sessions(
            segs[1].as_str(),
            req,
            &ctx,
            store,
            now,
        ),
        Route::UserPosts => controllers::users::users_posts(
            segs[1].as_str(),
            req,
            &ctx,
            store,
            now,
        ),
        Route::SessionsIndex => controllers::sessions::sessions_index(req, &ctx, store, now),
        Route::SessionShow => controllers::sessions::sessions_show(segs[1].as_str(), &ctx, store),
        Route::SessionRevoke => controllers::sessions::sessions_revoke(
            segs[1].as_str(),
            &ctx,
            store,
            now,
        ),
        Route::Fallback => controllers::not_found(req, &ctx),
    };
    cors_post_layer(req, &mut ctx, res)
}

/// As `handle_geo`, with no geo metadata attached.
pub fn handle(store: &mut Store, req: &Request, now: i64) -> (res: Response)
    requires
        old(store).wf(),
    ensures
        final(store).wf(),
        cors_headers_present(res.headers@),
        dispatched_ok(*req, None, *old(store), *final(store), res.status, res.body, now),
{
    handle_geo(store, req, &None, now)
}

/// As `handle`, with the time read from the system clock: the pipeline
/// contract holds for whatever instant the clock reported.
pub fn handle_now(store: &mut Store, req: &Request) -> (res: Response)
    requires
        old(store).wf(),
    ensures
        final(store).wf(),
        cors_headers_present(res.headers@),
        exists|t: i64|
            #[trigger] dispatched_ok(
                *req,
                None,
                *old(store),
                *final(store),
                res.status,
                res.body,
                t,
            ),
{
    let now = crate::trusted::now_millis();
    handle(store, req, now)
}

} // verus!
