//! The authentication routes: login, token validation and logout.

use vstd::prelude::*;

use crate::forms::{first_value, form_get, key_count, parse_form, spec_form_pairs};
use crate::layers::Context;
use crate::models::{Session, User};
use crate::store::{spec_expire_session, spec_find_user_by_logon, Store};
use crate::trusted::{
    base64_encode_no_pad, fill_random, fresh_id, parse_user_agent, password_matches,
    password_verify, ua_parts,
};
use crate::web::{
    spec_header_get, FieldReport, Request, Response, ResponseBody, Status,
};

verus! {

/// A year of session validity, in milliseconds.
pub open spec fn session_expire_millis() -> int {
    31536000000
}

/// A fresh opaque bearer token: 256 random bytes, base64 without padding;
/// `None` when the platform randomness source refused to answer.
pub fn generate_random_token() -> (r: Option<String>)
    ensures
        r matches Some(t) ==> t@.len() == 342,
{
    let mut token_bytes: Vec<u8> = Vec::new();
    let mut i: usize = 0;
    while i < 256
        invariant
            i <= 256,
            token_bytes@.len() == i,
        decreases 256 - i,
    {
        token_bytes.push(0u8);
        i = i + 1;
    }
    if !fill_random(&mut token_bytes) {
        return None;
    }
    Some(base64_encode_no_pad(&token_bytes))
}

/// The two fields of a login body, each present exactly once.
pub open spec fn spec_login_form(body: Option<String>) -> Option<(Seq<char>, Seq<char>)> {
    let pairs = match body {
        Some(b) => spec_form_pairs(b@),
        None => spec_form_pairs(Seq::<char>::empty()),
    };
    if key_count(pairs, "logon"@) == 1 && key_count(pairs, "password"@) == 1 {
        Some((first_value(pairs, "logon"@)->0, first_value(pairs, "password"@)->0))
    } else {
        None
    }
}

fn login_form(body: &Option<String>) -> (r: Option<(String, String)>)
    ensures
        match r {
            Some(v) => spec_login_form(*body) == Some((v.0@, v.1@)),
            None => spec_login_form(*body) is None,
        },
{
    let body_str: &str = match body {
        Option::Some(b) => b.as_str(),
        Option::None => "",
    };
    proof {
        reveal_strlit("");
        assert(""@ =~= Seq::<char>::empty());
    }
    let pairs = parse_form(body_str);
    proof {
        assert(pairs@.map_values(|p: (String, String)| (p.0@, p.1@)) =~= spec_form_pairs(
            body_str@,
        ));
    }
    let logon = match form_get(&pairs, "logon") {
        Result::Ok(Option::Some(v)) => v,
        _ => {
            return None;
        },
    };
    let password = match form_get(&pairs, "password") {
        Result::Ok(Option::Some(v)) => v,
        _ => {
            return None;
        },
    };
    Some((logon, password))
}

/// The geo metadata a caller may have looked up for the client address:
/// country and city, recorded on the session when present.
pub open spec fn geo_recorded(geo: Option<(String, String)>, sess: Session) -> bool {
    match geo {
        Some(g) => (sess.ip_country matches Some(c) && c@ == g.0@) && (sess.ip_city matches Some(
            c2,
        ) && c2@ == g.1@),
        None => sess.ip_country is None && sess.ip_city is None,
    }
}

/// What login answers, read against the store before and after: a malformed
/// body is refused, unknown names and wrong passwords are reported alike,
/// and a match inserts exactly one fresh year-long session.
pub open spec fn auth_login_outcome(
    req: Request,
    geo: Option<(String, String)>,
    s0: Store,
    s1: Store,
    status: Status,
    rbody: ResponseBody,
    now: i64,
) -> bool {
    &&& s1.users == s0.users
    &&& s1.posts == s0.posts
    &&& s1.interactions == s0.interactions
    &&& (spec_login_form(req.body) is None ==> status == Status::BadRequest && s1.sessions@
        == s0.sessions@)
    &&& (spec_login_form(req.body) matches Some(lp) ==> ({
        match spec_find_user_by_logon(s0.users@, lp.0) {
            None => status == Status::Unauthorized && (rbody is Report) && s1.sessions@
                == s0.sessions@,
            Some(user) => {
                if !password_matches(lp.1, user.password@) {
                    status == Status::Unauthorized && (rbody is Report) && s1.sessions@
                        == s0.sessions@
                } else {
                    ||| (status == Status::Okay && exists|sess: Session|
                        {
                            &&& s1.sessions@ == #[trigger] s0.sessions@.push(sess)
                            &&& sess.user_id == user.id
                            &&& sess.token@.len() == 342
                            &&& sess.ip_address@ == req.client_addr@
                            &&& geo_recorded(geo, sess)
                            &&& sess.expires_at as int == (if now + session_expire_millis()
                                <= i64::MAX {
                                now + session_expire_millis()
                            } else {
                                i64::MAX as int
                            })
                            &&& sess.created_at == now && sess.updated_at == now
                            &&& (match spec_header_get(req.headers@, "User-Agent"@) {
                                Some(ua) => (sess.client_name matches Some(cn) && cn@ == ua_parts(
                                    ua@,
                                ).0) && (sess.client_os matches Some(os) && os@ == ua_parts(
                                    ua@,
                                ).2) && (match ua_parts(ua@).1 {
                                    Some(v) => sess.client_version matches Some(cv) && cv@ == v,
                                    None => sess.client_version is None,
                                }),
                                None => sess.client_name is None && sess.client_version is None
                                    && sess.client_os is None,
                            })
                            &&& (rbody matches ResponseBody::AuthLogin {
                                token,
                                session,
                                user: u,
                            } && token@ == sess.token@ && session == sess.spec_to_api(None) && u
                                == user.spec_to_api())
                        })
                    ||| (status == Status::BadRequest && s1.sessions@ == s0.sessions@)
                }
            },
        }
    }))
}

/// The deterministic tail of login: credentials checked and, when they
/// match, the session created from the already drawn id and token. Success
/// is forced whenever the token was drawn and neither drawn value collides
/// with an existing session — in particular always on an empty table.
pub fn login_with_token(
    req: &Request,
    geo: &Option<(String, String)>,
    store: &mut Store,
    now: i64,
    sid: u128,
    token: Option<String>,
) -> (res: Response)
    requires
        old(store).wf(),
        token matches Some(t) ==> t@.len() == 342,
    ensures
        final(store).wf(),
        auth_login_outcome(
            *req,
            *geo,
            *old(store),
            *final(store),
            res.status,
            res.body,
            now,
        ),
        (spec_login_form(req.body) matches Some(lp) && (spec_find_user_by_logon(
            old(store).users@,
            lp.0,
        ) matches Some(user) && password_matches(lp.1, user.password@))) ==> (match token {
            None => res.status == Status::BadRequest,
            Some(t) => {
                if exists|k: int|
                    0 <= k < old(store).sessions@.len() && ((#[trigger] old(
                        store,
                    ).sessions@[k]).id == sid || old(store).sessions@[k].token@ == t@) {
                    res.status == Status::BadRequest
                } else {
                    res.status == Status::Okay
                }
            },
        }),
{
    let lp = match login_form(&req.body) {
        Option::Some(v) => v,
        Option::None => {
            return Response::new().status(Status::BadRequest).text("400 Bad Request");
        },
    };
    let user = match store.find_user_by_logon(lp.0.as_str()) {
        Option::Some(u) => u,
        Option::None => {
            let mut report = FieldReport::new();
            report.insert_error("logon", "Wrong username, email address or password");
            return Response::new().status(Status::Unauthorized).body(
                ResponseBody::Report(report),
            );
        },
    };
    if !password_verify(lp.1.as_str(), user.password.as_str()) {
        let mut report = FieldReport::new();
        report.insert_error("logon", "Wrong username, email address or password");
        return Response::new().status(Status::Unauthorized).body(ResponseBody::Report(report));
    }
    let token = match token {
        Option::Some(t) => t,
        Option::None => {
            return Response::new().status(Status::BadRequest).text("400 Bad Request");
        },
    };
    let ua = match req.header("User-Agent") {
        Option::Some(h) => {
            let parts = parse_user_agent(h.as_str());
            Option::Some(parts)
        },
        Option::None => Option::None,
    };
    let session = Session {
        id: sid,
        user_id: user.id,
        token: token.clone(),
        ip_address: req.client_addr.clone(),
        ip_country: match geo {
            Option::Some(g) => Option::Some(g.0.clone()),
            Option::None => Option::None,
        },
        ip_city: match geo {
            Option::Some(g) => Option::Some(g.1.clone()),
            Option::None => Option::None,
        },
        client_name: match &ua {
            Option::Some(p) => Option::Some(p.0.clone()),
            Option::None => Option::None,
        },
        client_version: match &ua {
            Option::Some(p) => match &p.1 {
                Option::Some(v) => Option::Some(v.clone()),
                Option::None => Option::None,
            },
            Option::None => Option::None,
        },
        client_os: match &ua {
            Option::Some(p) => Option::Some(p.2.clone()),
            Option::None => Option::None,
        },
        expires_at: if now <= i64::MAX - 31536000000i64 {
            now + 31536000000i64
        } else {
            i64::MAX
        },
        created_at: now,
        updated_at: now,
    };
    let ghost sess = session;
    let api_session = session.to_api(Option::None);
    proof {
        // the found user is a table row, so the insert can only refuse on a
        // drawn-value collision
        crate::store::lemma_logon_idx(store.users@, lp.0@);
        crate::store::lemma_find_user_contained(store.users@, user);
    }
    let ok = store.insert_session(session);
    if !ok {
        return Response::new().status(Status::BadRequest).text("400 Bad Request");
    }
    Response::new().body(
        ResponseBody::AuthLogin { token, session: api_session, user: user.to_api() },
    )
}

/// Log in with a username or email and a password: on a match, one fresh
/// session row with a fresh opaque token, valid for a year. The token and
/// id draws decide the rare refusals on the success path;
/// `login_with_token` pins the outcome for every drawn value.
pub fn auth_login(
    req: &Request,
    geo: &Option<(String, String)>,
    store: &mut Store,
    now: i64,
) -> (res: Response)
    requires
        old(store).wf(),
    ensures
        final(store).wf(),
        auth_login_outcome(
            *req,
            *geo,
            *old(store),
            *final(store),
            res.status,
            res.body,
            now,
        ),
{
    let token = generate_random_token();
    let sid = fresh_id();
    login_with_token(req, geo, store, now, sid, token)
}

/// What token validation answers: the authenticated session and user,
/// echoed back.
pub open spec fn auth_validate_outcome(ctx: Context, status: Status, rbody: ResponseBody) -> bool {
    &&& status == Status::Okay
    &&& (rbody matches ResponseBody::AuthValidate { session, user } && session
        == ctx.auth_session->0.spec_to_api(None) && user == ctx.auth_user->0.spec_to_api())
}

/// Report the authenticated session and user back to the caller.
pub fn auth_validate(ctx: &Context) -> (res: Response)
    requires
        ctx.auth_user is Some,
        ctx.auth_session is Some,
    ensures
        auth_validate_outcome(*ctx, res.status, res.body),
{
    let session = match &ctx.auth_session {
        Option::Some(s) => s.to_api(Option::None),
        Option::None => {
            proof {
                assert(false);
            }
            return Response::new();
        },
    };
    let user = match &ctx.auth_user {
        Option::Some(u) => u.to_api(),
        Option::None => {
            proof {
                assert(false);
            }
            return Response::new();
        },
    };
    Response::new().body(ResponseBody::AuthValidate { session, user })
}

/// What logout does: exactly the authenticated session's expiry set to now.
pub open spec fn auth_logout_outcome(
    ctx: Context,
    s0: Store,
    s1: Store,
    status: Status,
    rbody: ResponseBody,
    now: i64,
) -> bool {
    &&& s1.users == s0.users
    &&& s1.posts == s0.posts
    &&& s1.interactions == s0.interactions
    &&& s1.sessions@ == spec_expire_session(s0.sessions@, ctx.auth_session->0.id, now)
    &&& status == Status::Okay
    &&& rbody is Empty
}

/// Log out: the authenticated session's expiry is set to now, revoking it.
pub fn auth_logout(ctx: &Context, store: &mut Store, now: i64) -> (res: Response)
    requires
        old(store).wf(),
        ctx.auth_session is Some,
    ensures
        final(store).wf(),
        auth_logout_outcome(*ctx, *old(store), *final(store), res.status, res.body, now),
{
    let sid = match &ctx.auth_session {
        Option::Some(s) => s.id,
        Option::None => {
            proof {
                assert(false);
            }
            0
        },
    };
    store.expire_session(sid, now);
    Response::new()
}

} // verus!
