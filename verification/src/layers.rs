//! The pipeline's pre- and post-stages: CORS short-circuit and header
//! injection, and the session authenticator that populates the per-request
//! context in its optional and required modes.

use vstd::prelude::*;

use crate::models::{Session, User};
use crate::store::{
    lemma_token_session_idx, spec_find_session_by_token, spec_find_user, Store,
};
use crate::web::{spec_header_get, Method, Request, Response, Status};

verus! {

/// The request-scoped context: written once by the authenticator, read by
/// the handlers for ownership and role checks.
pub struct Context {
    pub auth_user: Option<User>,
    pub auth_session: Option<Session>,
}

impl Context {
    pub fn new() -> (r: Context)
        ensures
            r.auth_user is None,
            r.auth_session is None,
    {
        Context { auth_user: None, auth_session: None }
    }
}

pub open spec fn is_ws(c: char) -> bool {
    c == ' ' || c == '\t' || c == '\n' || c == '\r'
}

pub open spec fn trim_front(s: Seq<char>) -> Seq<char>
    decreases s.len(),
{
    if s.len() > 0 && is_ws(s[0]) {
        trim_front(s.drop_first())
    } else {
        s
    }
}

pub open spec fn trim_back(s: Seq<char>) -> Seq<char>
    decreases s.len(),
{
    if s.len() > 0 && is_ws(s.last()) {
        trim_back(s.drop_last())
    } else {
        s
    }
}

pub open spec fn spec_trim(s: Seq<char>) -> Seq<char> {
    trim_back(trim_front(s))
}

/// The bearer token of an `Authorization` header value: everything after
/// the fixed 7-character scheme prefix, trimmed; a shorter value carries no
/// token.
pub open spec fn bearer_token(h: Seq<char>) -> Option<Seq<char>> {
    if h.len() >= 7 {
        Some(spec_trim(h.skip(7)))
    } else {
        None
    }
}

fn trim_str(s: &str, from: usize) -> (r: String)
    requires
        from <= s@.len(),
    ensures
        r@ == spec_trim(s@.skip(from as int)),
{
    let n = s.unicode_len();
    let mut a = from;
    while a < n && (s.get_char(a) == ' ' || s.get_char(a) == '\t' || s.get_char(a) == '\n'
        || s.get_char(a) == '\r')
        invariant
            from <= a <= n,
            n == s@.len(),
            trim_front(s@.skip(from as int)) == trim_front(s@.skip(a as int)),
        decreases n - a,
    {
        assert(s@.skip(a as int)[0] == s@[a as int]);
        assert(s@.skip(a as int).drop_first() =~= s@.skip(a + 1));
        a = a + 1;
    }
    proof {
        if a < n {
            assert(s@.skip(a as int)[0] == s@[a as int]);
        }
    }
    let mut b = n;
    while b > a && (s.get_char(b - 1) == ' ' || s.get_char(b - 1) == '\t' || s.get_char(b - 1)
        == '\n' || s.get_char(b - 1) == '\r')
        invariant
            a <= b <= n,
            n == s@.len(),
            a < n ==> !is_ws(s@[a as int]),
            trim_front(s@.skip(a as int)) == s@.skip(a as int),
            trim_back(s@.subrange(a as int, n as int)) == trim_back(s@.subrange(a as int, b as int)),
        decreases b,
    {
        assert(s@.subrange(a as int, b as int).last() == s@[b - 1]);
        assert(s@.subrange(a as int, b as int).drop_last() =~= s@.subrange(a as int, b - 1));
        b = b - 1;
    }
    proof {
        if b > a {
            assert(s@.subrange(a as int, b as int).last() == s@[b - 1]);
        }
        assert(s@.skip(a as int) =~= s@.subrange(a as int, n as int));
    }
    let r = s.substring_char(a, b).to_owned();
    assert(r@ == spec_trim(s@.skip(from as int)));
    r
}

/// What the authenticator resolves for a request: the active session named
/// by the bearer token, and its owning user.
pub open spec fn spec_authenticate(
    sessions: Seq<Session>,
    users: Seq<User>,
    headers: Seq<(String, String)>,
    now: i64,
) -> Option<(Session, User)> {
    let h = match spec_header_get(headers, "Authorization"@) {
        Some(v) => Some(v),
        None => spec_header_get(headers, "authorization"@),
    };
    match h {
        None => None,
        Some(hv) => match bearer_token(hv@) {
            None => None,
            Some(tok) => match spec_find_session_by_token(sessions, tok, now) {
                None => None,
                Some(sess) => Some((sess, spec_find_user(users, sess.user_id)->0)),
            },
        },
    }
}

/// Resolve the bearer token to an active session and its user. Under the
/// store invariant a found session's user always exists.
pub fn authenticate(store: &Store, req: &Request, now: i64) -> (r: Option<(Session, User)>)
    requires
        store.wf(),
    ensures
        r == spec_authenticate(store.sessions@, store.users@, req.headers@, now),
{
    let header = match req.header("Authorization") {
        Option::Some(v) => Option::Some(v),
        Option::None => req.header("authorization"),
    };
    let hv = match header {
        Option::Some(v) => v,
        Option::None => {
            return Option::None;
        },
    };
    if hv.as_str().unicode_len() < 7 {
        return Option::None;
    }
    let token = trim_str(hv.as_str(), 7);
    let sess = match store.find_session_by_token(token.as_str(), now) {
        Option::Some(s) => s,
        Option::None => {
            return Option::None;
        },
    };
    let user = match store.find_user(sess.user_id) {
        Option::Some(u) => u,
        Option::None => {
            proof {
                lemma_token_session_idx(store.sessions@, token@, now);
                assert(spec_find_user(store.users@, sess.user_id) is Some);
            }
            assert(false);
            return Option::None;
        },
    };
    Option::Some((sess, user))
}

/// The optional authentication pre-stage: populate the context when a valid
/// session is presented, pass through always.
pub fn auth_optional_pre_layer(
    req: &Request,
    ctx: &mut Context,
    store: &Store,
    now: i64,
) -> (r: Option<Response>)
    requires
        store.wf(),
    ensures
        r is None,
        ({
            let auth = spec_authenticate(store.sessions@, store.users@, req.headers@, now);
            match auth {
                Some(su) => final(ctx).auth_session == Some(su.0) && final(ctx).auth_user == Some(
                    su.1,
                ),
                None => final(ctx).auth_session == old(ctx).auth_session && final(ctx).auth_user
                    == old(ctx).auth_user,
            }
        }),
{
    match authenticate(store, req, now) {
        Option::Some((sess, user)) => {
            ctx.auth_user = Option::Some(user);
            ctx.auth_session = Option::Some(sess);
            Option::None
        },
        Option::None => Option::None,
    }
}

/// The required authentication pre-stage: as the optional one, but a
/// missing, malformed or expired token short-circuits with Unauthorized.
pub fn auth_required_pre_layer(
    req: &Request,
    ctx: &mut Context,
    store: &Store,
    now: i64,
) -> (r: Option<Response>)
    requires
        store.wf(),
    ensures
        ({
            let auth = spec_authenticate(store.sessions@, store.users@, req.headers@, now);
            match auth {
                Some(su) => r is None && final(ctx).auth_session == Some(su.0)
                    && final(ctx).auth_user == Some(su.1),
                None => (r matches Some(res) && res.status == Status::Unauthorized) && *final(ctx)
                    == *old(ctx),
            }
        }),
{
    match authenticate(store, req, now) {
        Option::Some((sess, user)) => {
            ctx.auth_user = Option::Some(user);
            ctx.auth_session = Option::Some(sess);
            Option::None
        },
        Option::None => Option::Some(
            Response::new().status(Status::Unauthorized).text("401 Unauthorized"),
        ),
    }
}

/// The CORS preflight short-circuit: an OPTIONS request is answered
/// immediately, already carrying the full header set.
pub fn cors_pre_layer(req: &Request, ctx: &mut Context) -> (r: Option<Response>)
    ensures
        *final(ctx) == *old(ctx),
        req.method == Method::Options ==> (r matches Some(res) && res.status == Status::Okay
            && res.body is Empty && cors_headers_present(res.headers@)),
        req.method != Method::Options ==> r is None,
{
    if req.method == Method::Options {
        Some(cors_post_layer(req, ctx, Response::new()))
    } else {
        None
    }
}

/// The four headers every response carries.
pub open spec fn cors_headers_present(headers: Seq<(String, String)>) -> bool {
    &&& spec_header_get(headers, "Access-Control-Allow-Origin"@) matches Some(v) && v@ == "*"@
    &&& spec_header_get(headers, "Access-Control-Allow-Methods"@) matches Some(v) && v@
        == "GET, POST, PUT, DELETE"@
    &&& spec_header_get(headers, "Access-Control-Allow-Headers"@) matches Some(v) && v@
        == "Authorization"@
    &&& spec_header_get(headers, "Access-Control-Max-Age"@) matches Some(v) && v@ == "86400"@
}

/// The CORS post-stage: inject the header set into any response, including
/// short-circuited ones.
pub fn cors_post_layer(_req: &Request, _ctx: &mut Context, res: Response) -> (r: Response)
    ensures
        *final(_ctx) == *old(_ctx),
        r.status == res.status,
        r.body == res.body,
        cors_headers_present(r.headers@),
{
    proof {
        reveal_strlit("Access-Control-Allow-Origin");
        reveal_strlit("Access-Control-Allow-Methods");
        reveal_strlit("Access-Control-Allow-Headers");
        reveal_strlit("Access-Control-Max-Age");
        assert("Access-Control-Allow-Origin"@.len() != "Access-Control-Allow-Methods"@.len());
        assert("Access-Control-Allow-Origin"@.len() != "Access-Control-Allow-Headers"@.len());
        assert("Access-Control-Allow-Origin"@.len() != "Access-Control-Max-Age"@.len());
        assert("Access-Control-Allow-Methods"@[21] != "Access-Control-Allow-Headers"@[21]);
        assert("Access-Control-Allow-Methods"@.len() != "Access-Control-Max-Age"@.len());
        assert("Access-Control-Allow-Headers"@.len() != "Access-Control-Max-Age"@.len());
    }
    let r1 = res.header("Access-Control-Allow-Origin", "*");
    let r2 = r1.header("Access-Control-Allow-Methods", "GET, POST, PUT, DELETE");
    let r3 = r2.header("Access-Control-Allow-Headers", "Authorization");
    let r4 = r3.header("Access-Control-Max-Age", "86400");
    assert(spec_header_get(r4.headers@, "Access-Control-Allow-Origin"@) == spec_header_get(
        r1.headers@,
        "Access-Control-Allow-Origin"@,
    ));
    assert(spec_header_get(r4.headers@, "Access-Control-Allow-Methods"@) == spec_header_get(
        r2.headers@,
        "Access-Control-Allow-Methods"@,
    ));
    assert(spec_header_get(r4.headers@, "Access-Control-Allow-Headers"@) == spec_header_get(
        r3.headers@,
        "Access-Control-Allow-Headers"@,
    ));
    r4
}

} // verus!
