//! The user routes: listing, registration, profile display and update,
//! password change, and a user's sessions and posts.

use vstd::prelude::*;

use crate::forms::{
    first_value, form_get, key_count, parse_form, spec_form_pairs, spec_valid_date,
    is_valid_date,
};
use crate::layers::Context;
use crate::listing::{
    filter_posts, filter_sessions, filter_users, page_posts, page_sessions, page_users,
    select_posts, select_sessions, select_users, sort_posts, sort_posts_desc, sort_sessions,
    sort_sessions_desc, spec_total, total_of, PostFilter, SessionFilter,
    lemma_filter_posts_contains, lemma_sort_posts_contains,
};
use crate::markdown::has_prefix;
use crate::models::{ApiUser, Post, Session, User, UserRole};
use crate::resolve::resolved_ok;
use crate::store::{
    bump_many, lemma_find_contained_post, spec_find_post, spec_find_user_by_id_or_username,
    spec_update_user, Store,
};
use crate::text::{parse_uuid, spec_parse_uuid};
use crate::trusted::{password_hash, password_matches, password_verify};
use crate::web::{
    index_query_ok, page_window, FieldReport, IndexQueryOutcome, Request, Response, ResponseBody,
    Status,
};

verus! {

/// The user a raw path id names: by parsed id, or by the raw string as a
/// username.
pub open spec fn spec_found_user(users: Seq<User>, raw: Seq<char>) -> Option<User> {
    spec_find_user_by_id_or_username(users, spec_parse_uuid(raw), raw)
}

/// Resolve the `:user_id` path parameter to a stored user.
pub fn find_user(user_id: &str, store: &Store) -> (r: Option<User>)
    ensures
        r == spec_found_user(store.users@, user_id@),
{
    let id = parse_uuid(user_id);
    store.find_user_by_id_or_username(id, user_id)
}

pub open spec fn spec_is_ascii(s: Seq<char>) -> bool {
    forall|i: int| 0 <= i < s.len() ==> ((#[trigger] s[i]) as int) < 128
}

fn check_ascii(s: &str) -> (r: bool)
    ensures
        r == spec_is_ascii(s@),
{
    let n = s.unicode_len();
    let mut i: usize = 0;
    while i < n
        invariant
            i <= n,
            n == s@.len(),
            forall|k: int| 0 <= k < i ==> ((#[trigger] s@[k]) as int) < 128,
        decreases n - i,
    {
        let c = s.get_char(i);
        if (c as u32) >= 128 {
            return false;
        }
        i = i + 1;
    }
    true
}

/// An accepted email address: one `@` with a nonempty local part, and a dot
/// inside the domain, which does not end with one.
pub open spec fn spec_valid_email(s: Seq<char>) -> bool {
    let a = crate::forms::find_from(s, 0, '@');
    &&& 1 <= a < s.len()
    &&& crate::forms::find_from(s, a + 1, '@') == s.len()
    &&& ({
        let d = crate::forms::find_from(s, a + 1, '.');
        a + 1 < d < s.len() - 1
    })
}

fn check_email(s: &str) -> (r: bool)
    ensures
        r == spec_valid_email(s@),
{
    let n = s.unicode_len();
    let a = crate::forms::find_char(s, 0, '@');
    proof {
        crate::forms::lemma_find_from(s@, 0, '@');
    }
    if !(1 <= a && a < n) {
        return false;
    }
    let a2 = crate::forms::find_char(s, a + 1, '@');
    proof {
        crate::forms::lemma_find_from(s@, a + 1, '@');
        crate::forms::lemma_find_from(s@, a + 1, '.');
    }
    if a2 < n {
        return false;
    }
    let d = crate::forms::find_char(s, a + 1, '.');
    a + 1 < d && d < n - 1
}

/// An accepted website address: an `http` or `https` scheme.
pub open spec fn spec_valid_url(s: Seq<char>) -> bool {
    has_prefix(s, 0, "http://"@) || has_prefix(s, 0, "https://"@)
}

fn check_url(s: &str) -> (r: bool)
    ensures
        r == spec_valid_url(s@),
{
    let a = crate::markdown::check_prefix(s, 0, "http://");
    let b = crate::markdown::check_prefix(s, 0, "https://");
    a || b
}

/// No user holds this username.
pub open spec fn spec_unique_username(users: Seq<User>, v: Seq<char>) -> bool {
    forall|k: int| 0 <= k < users.len() ==> (#[trigger] users[k]).username@ != v
}

pub fn is_unique_username(value: &str, store: &Store) -> (r: bool)
    ensures
        r == spec_unique_username(store.users@, value@),
{
    let mut i: usize = 0;
    while i < store.users.len()
        invariant
            i <= store.users@.len(),
            forall|k: int| 0 <= k < i ==> (#[trigger] store.users@[k]).username@ != value@,
        decreases store.users@.len() - i,
    {
        if crate::forms::str_eq(store.users[i].username.as_str(), value) {
            return false;
        }
        i = i + 1;
    }
    true
}

/// The username is the caller's own, or nobody's.
pub fn is_unique_username_or_auth_user_username(
    value: &str,
    ctx: &Context,
    store: &Store,
) -> (r: bool)
    requires
        ctx.auth_user is Some,
    ensures
        r == (value@ == ctx.auth_user->0.username@ || spec_unique_username(store.users@, value@)),
{
    let auth_user = match &ctx.auth_user {
        Option::Some(u) => u,
        Option::None => {
            proof {
                assert(false);
            }
            return false;
        },
    };
    if crate::forms::str_eq(value, auth_user.username.as_str()) {
        return true;
    }
    is_unique_username(value, store)
}

/// No user holds this email address.
pub open spec fn spec_unique_email(users: Seq<User>, v: Seq<char>) -> bool {
    forall|k: int| 0 <= k < users.len() ==> (#[trigger] users[k]).email@ != v
}

pub fn is_unique_email(value: &str, store: &Store) -> (r: bool)
    ensures
        r == spec_unique_email(store.users@, value@),
{
    let mut i: usize = 0;
    while i < store.users.len()
        invariant
            i <= store.users@.len(),
            forall|k: int| 0 <= k < i ==> (#[trigger] store.users@[k]).email@ != value@,
        decreases store.users@.len() - i,
    {
        if crate::forms::str_eq(store.users[i].email.as_str(), value) {
            return false;
        }
        i = i + 1;
    }
    true
}

/// The email is the caller's own, or nobody's.
pub fn is_unique_email_or_auth_user_email(value: &str, ctx: &Context, store: &Store) -> (r: bool)
    requires
        ctx.auth_user is Some,
    ensures
        r == (value@ == ctx.auth_user->0.email@ || spec_unique_email(store.users@, value@)),
{
    let auth_user = match &ctx.auth_user {
        Option::Some(u) => u,
        Option::None => {
            proof {
                assert(false);
            }
            return false;
        },
    };
    if crate::forms::str_eq(value, auth_user.email.as_str()) {
        return true;
    }
    is_unique_email(value, store)
}

/// Whether the given password re-derives the caller's stored credential.
pub fn is_auth_user_current_password(value: &str, ctx: &Context) -> (r: bool)
    requires
        ctx.auth_user is Some,
    ensures
        r == password_matches(value@, ctx.auth_user->0.password@),
{
    let auth_user = match &ctx.auth_user {
        Option::Some(u) => u,
        Option::None => {
            proof {
                assert(false);
            }
            return false;
        },
    };
    password_verify(value, auth_user.password.as_str())
}

pub open spec fn users_index_outcome(req: Request, ctx: Context, s0: Store, s1: Store, status: Status, rbody: ResponseBody) -> bool {
    &&& (s1 == s0)
    &&& ({
    ({
        let qs = crate::web::opt_view(req.query);
        if ctx.auth_user->0.role != UserRole::Admin {
            status == Status::Unauthorized
        } else {
            match status {
                Status::Okay => exists|q: Seq<char>, page: i64, limit: i64|
                    {
                        &&& #[trigger] index_query_ok(qs, q, page, limit)
                        &&& ({
                            let rows = filter_users(s0.users@, q);
                            let win = page_window(rows, page, limit);
                            rbody matches ResponseBody::UserList { pagination, data }
                                && pagination.total == spec_total(rows.len())
                                && pagination.page == page && pagination.limit == limit
                                && data@.len() == win.len() && (forall|k: int|
                                0 <= k < win.len() ==> #[trigger] data@[k]
                                    == win[k].spec_to_api())
                        })
                    },
                Status::BadRequest => !(exists|q: Seq<char>, page: i64, limit: i64|
                    #[trigger] index_query_ok(qs, q, page, limit)),
                _ => false,
            }
        }
    })
    })
}

/// The administrator's listing of users whose username matches the filter,
/// in table order.
pub fn users_index(req: &Request, ctx: &Context, store: &mut Store, now: i64) -> (res: Response)
    requires
        old(store).wf(),
        ctx.auth_user is Some,
    ensures
        final(store).wf(),
        users_index_outcome(*req, *ctx, *old(store), *final(store), res.status, res.body),
{
    let auth_user = match &ctx.auth_user {
        Option::Some(u) => u,
        Option::None => {
            proof {
                assert(false);
            }
            return Response::new();
        },
    };
    if auth_user.role != UserRole::Admin {
        return Response::new().status(Status::Unauthorized).text("401 Unauthorized");
    }
    let query = match crate::web::parse_index_query(&req.query) {
        IndexQueryOutcome::Parsed(iq) => iq,
        IndexQueryOutcome::Malformed => {
            return Response::with_status(Status::BadRequest);
        },
        IndexQueryOutcome::Invalid(report) => {
            return Response::with_status(Status::BadRequest).body(ResponseBody::Report(report));
        },
    };
    let rows = select_users(&store.users, query.query.as_str());
    let total = total_of(rows.len());
    let win = page_users(&rows, query.page, query.limit);
    let mut data: Vec<ApiUser> = Vec::new();
    let mut i: usize = 0;
    while i < win.len()
        invariant
            i <= win@.len(),
            data@.len() == i,
            forall|k: int| 0 <= k < i ==> #[trigger] data@[k] == win@[k].spec_to_api(),
        decreases win@.len() - i,
    {
        data.push(win[i].to_api());
        i = i + 1;
    }
    Response::new().body(
        ResponseBody::UserList {
            pagination: crate::web::Pagination { total, page: query.page, limit: query.limit },
            data,
        },
    )
}

pub open spec fn users_show_outcome(uid: Seq<char>, s0: Store, s1: Store, status: Status, rbody: ResponseBody) -> bool {
    &&& (s1 == s0)
    &&& ({
    ({
        match spec_found_user(s0.users@, uid) {
            None => status == Status::NotFound,
            Some(user) => status == Status::Okay && (rbody
                matches ResponseBody::User(u) && u == user.spec_to_api()),
        }
    })
    })
}

/// One user's public profile.
pub fn users_show(user_id: &str, _ctx: &Context, store: &mut Store) -> (res: Response)
    requires
        old(store).wf(),
    ensures
        final(store).wf(),
        users_show_outcome(user_id@, *old(store), *final(store), res.status, res.body),
{
    let user = match find_user(user_id, store) {
        Option::Some(u) => u,
        Option::None => {
            return Response::new().status(Status::NotFound).text("404 Not Found");
        },
    };
    Response::new().body(ResponseBody::User(user.to_api()))
}


/// The three fields of a registration body, each present exactly once.
pub open spec fn spec_create_form(body: Option<String>) -> Option<
    (Seq<char>, Seq<char>, Seq<char>),
> {
    let pairs = match body {
        Some(b) => spec_form_pairs(b@),
        None => spec_form_pairs(Seq::<char>::empty()),
    };
    if key_count(pairs, "username"@) == 1 && key_count(pairs, "email"@) == 1 && key_count(
        pairs,
        "password"@,
    ) == 1 {
        Some(
            (
                first_value(pairs, "username"@)->0,
                first_value(pairs, "email"@)->0,
                first_value(pairs, "password"@)->0,
            ),
        )
    } else {
        None
    }
}

fn create_form(body: &Option<String>) -> (r: Option<(String, String, String)>)
    ensures
        match r {
            Some(v) => spec_create_form(*body) == Some((v.0@, v.1@, v.2@)),
            None => spec_create_form(*body) is None,
        },
{
    let body_str: &str = match body {
        Option::Some(b) => b.as_str(),
        Option::None => "",
    };
    proof {
        reveal_strlit("");
        assert(""@ =~= Seq::<char>::empty());
    }
    let pairs = parse_form(body_str);
    proof {
        assert(pairs@.map_values(|p: (String, String)| (p.0@, p.1@)) =~= spec_form_pairs(
            body_str@,
        ));
    }
    let username = match form_get(&pairs, "username") {
        Result::Ok(Option::Some(v)) => v,
        _ => {
            return None;
        },
    };
    let email = match form_get(&pairs, "email") {
        Result::Ok(Option::Some(v)) => v,
        _ => {
            return None;
        },
    };
    let password = match form_get(&pairs, "password") {
        Result::Ok(Option::Some(v)) => v,
        _ => {
            return None;
        },
    };
    Some((username, email, password))
}

/// The field rules of registration.
pub open spec fn create_valid(users: Seq<User>, u: Seq<char>, e: Seq<char>, p: Seq<char>) -> bool {
    &&& spec_is_ascii(u) && 1 <= u.len() <= 32 && spec_unique_username(users, u)
    &&& spec_valid_email(e) && e.len() <= 128 && spec_unique_email(users, e)
    &&& spec_is_ascii(p) && 6 <= p.len() <= 128
}

pub open spec fn users_create_outcome(req: Request, s0: Store, s1: Store, status: Status, rbody: ResponseBody, now: i64) -> bool {
    &&& (s1.sessions == s0.sessions)
    &&& (s1.posts == s0.posts)
    &&& (s1.interactions == s0.interactions)
    &&& ({
    spec_create_form(req.body) is None ==> status == Status::BadRequest
        && s1.users@ == s0.users@
    })
    &&& ({
    spec_create_form(req.body) matches Some(f) && create_valid(
        s0.users@,
        f.0,
        f.1,
        f.2,
    ) && s0.users@.len() == 0 ==> status == Status::Okay
    })
    &&& ({
    spec_create_form(req.body) matches Some(f) ==> ({
        if !create_valid(s0.users@, f.0, f.1, f.2) {
            status == Status::BadRequest && (rbody is Report) && s1.users@
                == s0.users@
        } else {
            ||| (status == Status::Okay && exists|nu: User|
                {
                    &&& s1.users@ == s0.users@.push(nu)
                    &&& nu.username@ == f.0 && nu.email@ == f.1 && password_matches(
                        f.2,
                        nu.password@,
                    ) && nu.role == UserRole::Normal && nu.created_at == now && nu.updated_at
                        == now && nu.firstname is None && nu.birthdate is None
                    &&& (rbody matches ResponseBody::User(a) && a
                        == #[trigger] nu.spec_to_api())
                })
            ||| (status == Status::BadRequest && s1.users@ == s0.users@)
        }
    })
    })
}

/// Register a user: a fresh Normal account with a hashed credential.
pub fn users_create(req: &Request, _ctx: &Context, store: &mut Store, now: i64) -> (res: Response)
    requires
        old(store).wf(),
    ensures
        final(store).wf(),
        users_create_outcome(*req, *old(store), *final(store), res.status, res.body, now),
{
    let f = match create_form(&req.body) {
        Option::Some(v) => v,
        Option::None => {
            return Response::new().status(Status::BadRequest).text("400 Bad Request");
        },
    };
    let ulen = f.0.as_str().unicode_len();
    let elen = f.1.as_str().unicode_len();
    let plen = f.2.as_str().unicode_len();
    let mut report = FieldReport::new();
    let mut bad = false;
    if !(check_ascii(f.0.as_str()) && 1 <= ulen && ulen <= 32 && is_unique_username(
        f.0.as_str(),
        store,
    )) {
        report.insert_error("username", "invalid or taken");
        bad = true;
    }
    if !(check_email(f.1.as_str()) && elen <= 128 && is_unique_email(f.1.as_str(), store)) {
        report.insert_error("email", "invalid or taken");
        bad = true;
    }
    if !(check_ascii(f.2.as_str()) && 6 <= plen && plen <= 128) {
        report.insert_error("password", "must be 6 to 128 ASCII characters");
        bad = true;
    }
    if bad {
        return Response::new().status(Status::BadRequest).body(ResponseBody::Report(report));
    }
    let user = User {
        id: crate::trusted::fresh_id(),
        username: f.0,
        email: f.1,
        password: password_hash(f.2.as_str()),
        firstname: Option::None,
        lastname: Option::None,
        birthdate: Option::None,
        bio: Option::None,
        location: Option::None,
        website: Option::None,
        role: UserRole::Normal,
        created_at: now,
        updated_at: now,
    };
    let api = user.to_api();
    let ok = store.insert_user(user);
    if !ok {
        return Response::new().status(Status::BadRequest).text("400 Bad Request");
    }
    Response::new().body(ResponseBody::User(api))
}

/// The two fields of a password change, each present exactly once.
pub open spec fn spec_password_form(body: Option<String>) -> Option<(Seq<char>, Seq<char>)> {
    let pairs = match body {
        Some(b) => spec_form_pairs(b@),
        None => spec_form_pairs(Seq::<char>::empty()),
    };
    if key_count(pairs, "current_password"@) == 1 && key_count(pairs, "password"@) == 1 {
        Some(
            (first_value(pairs, "current_password"@)->0, first_value(pairs, "password"@)->0),
        )
    } else {
        None
    }
}

fn password_form(body: &Option<String>) -> (r: Option<(String, String)>)
    ensures
        match r {
            Some(v) => spec_password_form(*body) == Some((v.0@, v.1@)),
            None => spec_password_form(*body) is None,
        },
{
    let body_str: &str = match body {
        Option::Some(b) => b.as_str(),
        Option::None => "",
    };
    proof {
        reveal_strlit("");
        assert(""@ =~= Seq::<char>::empty());
    }
    let pairs = parse_form(body_str);
    proof {
        assert(pairs@.map_values(|p: (String, String)| (p.0@, p.1@)) =~= spec_form_pairs(
            body_str@,
        ));
    }
    let current = match form_get(&pairs, "current_password") {
        Result::Ok(Option::Some(v)) => v,
        _ => {
            return None;
        },
    };
    let password = match form_get(&pairs, "password") {
        Result::Ok(Option::Some(v)) => v,
        _ => {
            return None;
        },
    };
    Some((current, password))
}

pub open spec fn users_change_password_outcome(uid: Seq<char>, req: Request, ctx: Context, s0: Store, s1: Store, status: Status, rbody: ResponseBody, now: i64) -> bool {
    &&& (s1.sessions == s0.sessions)
    &&& (s1.posts == s0.posts)
    &&& (s1.interactions == s0.interactions)
    &&& ({
    ({
        match spec_found_user(s0.users@, uid) {
            None => status == Status::NotFound && s1.users@ == s0.users@,
            Some(user) => {
                let auth = ctx.auth_user->0;
                if !(user.id == auth.id || auth.role == UserRole::Admin) {
                    status == Status::Unauthorized && s1.users@ == s0.users@
                } else if spec_password_form(req.body) is None {
                    status == Status::BadRequest && s1.users@ == s0.users@
                } else {
                    let f = spec_password_form(req.body)->0;
                    if !(password_matches(f.0, auth.password@) && spec_is_ascii(f.0)
                        && spec_is_ascii(f.1) && 6 <= f.1.len() <= 128) {
                        status == Status::BadRequest && (rbody is Report) && s1.users@ == s0.users@
                    } else {
                        status == Status::Okay && exists|nu: User|
                            {
                                &&& s1.users@ == spec_update_user(
                                    s0.users@,
                                    user.id,
                                    nu,
                                )
                                &&& nu == (User {
                                    password: nu.password,
                                    updated_at: now,
                                    ..user
                                }) && password_matches(f.1, nu.password@)
                                &&& (rbody matches ResponseBody::User(a) && a
                                    == #[trigger] nu.spec_to_api())
                            }
                    }
                }
            },
        }
    })
    })
}

/// Change a user's password: the owner or an administrator, with the
/// caller's current password confirmed against the caller's own credential.
pub fn users_change_password(
    user_id: &str,
    req: &Request,
    ctx: &Context,
    store: &mut Store,
    now: i64,
) -> (res: Response)
    requires
        old(store).wf(),
        ctx.auth_user is Some,
    ensures
        final(store).wf(),
        users_change_password_outcome(user_id@, *req, *ctx, *old(store), *final(store), res.status, res.body, now),
{
    let user = match find_user(user_id, store) {
        Option::Some(u) => u,
        Option::None => {
            return Response::new().status(Status::NotFound).text("404 Not Found");
        },
    };
    let auth_user = match &ctx.auth_user {
        Option::Some(u) => u,
        Option::None => {
            proof {
                assert(false);
            }
            return Response::new();
        },
    };
    if !(user.id == auth_user.id || auth_user.role == UserRole::Admin) {
        return Response::new().status(Status::Unauthorized).text("401 Unauthorized");
    }
    let f = match password_form(&req.body) {
        Option::Some(v) => v,
        Option::None => {
            return Response::new().status(Status::BadRequest).text("400 Bad Request");
        },
    };
    let plen = f.1.as_str().unicode_len();
    if !(is_auth_user_current_password(f.0.as_str(), ctx) && check_ascii(f.0.as_str())
        && check_ascii(f.1.as_str()) && 6 <= plen && plen <= 128) {
        let mut report = FieldReport::new();
        report.insert_error("current_password", "incorrect");
        return Response::new().status(Status::BadRequest).body(ResponseBody::Report(report));
    }
    let nu = User {
        password: password_hash(f.1.as_str()),
        updated_at: now,
        ..user.clone()
    };
    let ghost nug = nu;
    let api = nu.to_api();
    let ok = store.update_user(user.id, nu);
    proof {
        assert(ok) by {
            assert(forall|k: int|
                0 <= k < old(store).users@.len() ==> ((#[trigger] old(store).users@[k]).id
                    != user.id ==> old(store).users@[k].username@ != nug.username@
                    && old(store).users@[k].email@ != nug.email@)) by {
                crate::store::lemma_id_or_username_idx(
                    old(store).users@,
                    spec_parse_uuid(user_id@),
                    user_id@,
                );
                assert forall|k: int|
                    0 <= k < old(store).users@.len() && (#[trigger] old(store).users@[k]).id
                    != user.id implies old(store).users@[k].username@ != nug.username@
                    && old(store).users@[k].email@ != nug.email@ by {
                    let uix = crate::store::id_or_username_idx(
                        old(store).users@,
                        spec_parse_uuid(user_id@),
                        user_id@,
                    );
                    assert(old(store).users@[uix] == user);
                    if k < uix {
                    } else if k > uix {
                    }
                }
            }
        }
    }
    Response::new().body(ResponseBody::User(api))
}



/// An optional profile field: absent or empty means cleared; present more
/// than once refuses the body.
pub open spec fn opt_field(
    pairs: Seq<(Seq<char>, Seq<char>)>,
    key: Seq<char>,
) -> Option<Option<Seq<char>>> {
    if key_count(pairs, key) == 0 {
        Some(None)
    } else if key_count(pairs, key) == 1 {
        if first_value(pairs, key)->0.len() == 0 {
            Some(None)
        } else {
            Some(Some(first_value(pairs, key)->0))
        }
    } else {
        None
    }
}

fn get_opt_field(pairs: &Vec<(String, String)>, key: &str) -> (r: Result<Option<String>, ()>)
    ensures
        ({
            let ps = pairs@.map_values(|p: (String, String)| (p.0@, p.1@));
            match r {
                Result::Ok(Some(v)) => opt_field(ps, key@) == Some(Some(v@)),
                Result::Ok(None) => opt_field(ps, key@) == Some(None::<Seq<char>>),
                Result::Err(_) => opt_field(ps, key@) is None,
            }
        }),
{
    match form_get(pairs, key) {
        Result::Ok(Option::Some(v)) => {
            if v.as_str().unicode_len() == 0 {
                Result::Ok(Option::None)
            } else {
                Result::Ok(Option::Some(v))
            }
        },
        Result::Ok(Option::None) => Result::Ok(Option::None),
        Result::Err(_) => Result::Err(()),
    }
}

/// The whole profile-update body: username and email exactly once, six
/// optional fields.
pub open spec fn spec_update_form(body: Option<String>) -> Option<
    (
        Seq<char>,
        Seq<char>,
        Option<Seq<char>>,
        Option<Seq<char>>,
        Option<Seq<char>>,
        Option<Seq<char>>,
        Option<Seq<char>>,
        Option<Seq<char>>,
    ),
> {
    let pairs = match body {
        Some(b) => spec_form_pairs(b@),
        None => spec_form_pairs(Seq::<char>::empty()),
    };
    if key_count(pairs, "username"@) == 1 && key_count(pairs, "email"@) == 1 && opt_field(
        pairs,
        "firstname"@,
    ) is Some && opt_field(pairs, "lastname"@) is Some && opt_field(pairs, "birthdate"@) is Some
        && opt_field(pairs, "bio"@) is Some && opt_field(pairs, "location"@) is Some && opt_field(
        pairs,
        "website"@,
    ) is Some {
        Some(
            (
                first_value(pairs, "username"@)->0,
                first_value(pairs, "email"@)->0,
                opt_field(pairs, "firstname"@)->0,
                opt_field(pairs, "lastname"@)->0,
                opt_field(pairs, "birthdate"@)->0,
                opt_field(pairs, "bio"@)->0,
                opt_field(pairs, "location"@)->0,
                opt_field(pairs, "website"@)->0,
            ),
        )
    } else {
        None
    }
}

struct UpdateForm {
    username: String,
    email: String,
    firstname: Option<String>,
    lastname: Option<String>,
    birthdate: Option<String>,
    bio: Option<String>,
    location: Option<String>,
    website: Option<String>,
}

pub open spec fn opt_view_c(o: Option<String>) -> Option<Seq<char>> {
    match o {
        Some(v) => Some(v@),
        None => None,
    }
}

fn update_form(body: &Option<String>) -> (r: Option<UpdateForm>)
    ensures
        match r {
            Some(f) => spec_update_form(*body) == Some(
                (
                    f.username@,
                    f.email@,
                    opt_view_c(f.firstname),
                    opt_view_c(f.lastname),
                    opt_view_c(f.birthdate),
                    opt_view_c(f.bio),
                    opt_view_c(f.location),
                    opt_view_c(f.website),
                ),
            ),
            None => spec_update_form(*body) is None,
        },
{
    let body_str: &str = match body {
        Option::Some(b) => b.as_str(),
        Option::None => "",
    };
    proof {
        reveal_strlit("");
        assert(""@ =~= Seq::<char>::empty());
    }
    let pairs = parse_form(body_str);
    proof {
        assert(pairs@.map_values(|p: (String, String)| (p.0@, p.1@)) =~= spec_form_pairs(
            body_str@,
        ));
    }
    let username = match form_get(&pairs, "username") {
        Result::Ok(Option::Some(v)) => v,
        _ => {
            return None;
        },
    };
    let email = match form_get(&pairs, "email") {
        Result::Ok(Option::Some(v)) => v,
        _ => {
            return None;
        },
    };
    let firstname = match get_opt_field(&pairs, "firstname") {
        Result::Ok(v) => v,
        Result::Err(_) => {
            return None;
        },
    };
    let lastname = match get_opt_field(&pairs, "lastname") {
        Result::Ok(v) => v,
        Result::Err(_) => {
            return None;
        },
    };
    let birthdate = match get_opt_field(&pairs, "birthdate") {
        Result::Ok(v) => v,
        Result::Err(_) => {
            return None;
        },
    };
    let bio = match get_opt_field(&pairs, "bio") {
        Result::Ok(v) => v,
        Result::Err(_) => {
            return None;
        },
    };
    let location = match get_opt_field(&pairs, "location") {
        Result::Ok(v) => v,
        Result::Err(_) => {
            return None;
        },
    };
    let website = match get_opt_field(&pairs, "website") {
        Result::Ok(v) => v,
        Result::Err(_) => {
            return None;
        },
    };
    Some(UpdateForm { username, email, firstname, lastname, birthdate, bio, location, website })
}

/// The field rules of a profile update; uniqueness is relative to the
/// caller's own name and address.
pub open spec fn update_valid(
    users: Seq<User>,
    auth: User,
    f: (
        Seq<char>,
        Seq<char>,
        Option<Seq<char>>,
        Option<Seq<char>>,
        Option<Seq<char>>,
        Option<Seq<char>>,
        Option<Seq<char>>,
        Option<Seq<char>>,
    ),
) -> bool {
    &&& spec_is_ascii(f.0) && 1 <= f.0.len() <= 32 && (f.0 == auth.username@
        || spec_unique_username(users, f.0))
    &&& spec_valid_email(f.1) && f.1.len() <= 128 && (f.1 == auth.email@ || spec_unique_email(
        users,
        f.1,
    ))
    &&& (f.2 matches Some(v) ==> v.len() <= 64)
    &&& (f.3 matches Some(v) ==> v.len() <= 64)
    &&& (f.5 matches Some(v) ==> v.len() <= 512)
    &&& (f.6 matches Some(v) ==> v.len() <= 128)
    &&& (f.7 matches Some(v) ==> spec_valid_url(v) && v.len() <= 512)
}

pub open spec fn users_update_outcome(uid: Seq<char>, req: Request, ctx: Context, s0: Store, s1: Store, status: Status, rbody: ResponseBody, now: i64) -> bool {
    &&& (s1.sessions == s0.sessions)
    &&& (s1.posts == s0.posts)
    &&& (s1.interactions == s0.interactions)
    &&& ({
    ({
        match spec_found_user(s0.users@, uid) {
            None => status == Status::NotFound && s1.users@ == s0.users@,
            Some(user) => {
                let auth = ctx.auth_user->0;
                if !(user.id == auth.id || auth.role == UserRole::Admin) {
                    status == Status::Unauthorized && s1.users@ == s0.users@
                } else if spec_update_form(req.body) is None {
                    status == Status::BadRequest && s1.users@ == s0.users@
                } else if !update_valid(s0.users@, auth, spec_update_form(
                    req.body,
                )->0) {
                    status == Status::BadRequest && (rbody is Report) && s1.users@ == s0.users@
                } else if exists|k: int|
                    0 <= k < s0.users@.len() && (#[trigger] s0.users@[k]).id
                        != user.id && (s0.users@[k].username@ == (spec_update_form(
                        req.body,
                    )->0).0 || s0.users@[k].email@ == (spec_update_form(
                        req.body,
                    )->0).1) {
                    // under the validity rules this can only be an administrator
                    // renaming another user to a name or address that is not free
                    status == Status::BadRequest && s1.users@ == s0.users@
                } else {
                    let f = spec_update_form(req.body)->0;
                    status == Status::Okay && exists|nu: User|
                        {
                            &&& s1.users@ == spec_update_user(
                                s0.users@,
                                user.id,
                                nu,
                            )
                            &&& nu == (User {
                                username: nu.username,
                                email: nu.email,
                                firstname: nu.firstname,
                                lastname: nu.lastname,
                                birthdate: nu.birthdate,
                                bio: nu.bio,
                                location: nu.location,
                                website: nu.website,
                                updated_at: now,
                                ..user
                            })
                            &&& nu.username@ == f.0 && nu.email@ == f.1
                            &&& opt_view_c(nu.firstname) == f.2 && opt_view_c(nu.lastname)
                                == f.3 && opt_view_c(nu.bio) == f.5 && opt_view_c(nu.location)
                                == f.6 && opt_view_c(nu.website) == f.7
                            &&& (match f.4 {
                                Some(bd) => if spec_valid_date(bd) {
                                    opt_view_c(nu.birthdate) == Some(bd)
                                } else {
                                    nu.birthdate is None
                                },
                                None => nu.birthdate is None,
                            })
                            &&& (rbody matches ResponseBody::User(a) && a
                                == #[trigger] nu.spec_to_api())
                        }
                }
            },
        }
    })
    })
}

/// Update a user's profile: the owner or an administrator. A birthdate that
/// is not a well-formed calendar day is cleared rather than refused.
pub fn users_update(
    user_id: &str,
    req: &Request,
    ctx: &Context,
    store: &mut Store,
    now: i64,
) -> (res: Response)
    requires
        old(store).wf(),
        ctx.auth_user is Some,
    ensures
        final(store).wf(),
        users_update_outcome(user_id@, *req, *ctx, *old(store), *final(store), res.status, res.body, now),
{
    let user = match find_user(user_id, store) {
        Option::Some(u) => u,
        Option::None => {
            return Response::new().status(Status::NotFound).text("404 Not Found");
        },
    };
    let auth_user = match &ctx.auth_user {
        Option::Some(u) => u,
        Option::None => {
            proof {
                assert(false);
            }
            return Response::new();
        },
    };
    if !(user.id == auth_user.id || auth_user.role == UserRole::Admin) {
        return Response::new().status(Status::Unauthorized).text("401 Unauthorized");
    }
    let f = match update_form(&req.body) {
        Option::Some(v) => v,
        Option::None => {
            return Response::new().status(Status::BadRequest).text("400 Bad Request");
        },
    };
    let ulen = f.username.as_str().unicode_len();
    let elen = f.email.as_str().unicode_len();
    let mut report = FieldReport::new();
    let mut bad = false;
    if !(check_ascii(f.username.as_str()) && 1 <= ulen && ulen <= 32
        && is_unique_username_or_auth_user_username(f.username.as_str(), ctx, store)) {
        report.insert_error("username", "invalid or taken");
        bad = true;
    }
    if !(check_email(f.email.as_str()) && elen <= 128 && is_unique_email_or_auth_user_email(
        f.email.as_str(),
        ctx,
        store,
    )) {
        report.insert_error("email", "invalid or taken");
        bad = true;
    }
    if !(opt_len_at_most(&f.firstname, 64)) {
        report.insert_error("firstname", "too long");
        bad = true;
    }
    if !(opt_len_at_most(&f.lastname, 64)) {
        report.insert_error("lastname", "too long");
        bad = true;
    }
    if !(opt_len_at_most(&f.bio, 512)) {
        report.insert_error("bio", "too long");
        bad = true;
    }
    if !(opt_len_at_most(&f.location, 128)) {
        report.insert_error("location", "too long");
        bad = true;
    }
    let website_ok = match &f.website {
        Option::Some(v) => check_url(v.as_str()) && v.as_str().unicode_len() <= 512,
        Option::None => true,
    };
    if !website_ok {
        report.insert_error("website", "must be a web address");
        bad = true;
    }
    if bad {
        return Response::new().status(Status::BadRequest).body(ResponseBody::Report(report));
    }
    let birthdate: Option<String> = match f.birthdate {
        Option::Some(bd) => {
            if is_valid_date(bd.as_str()) {
                Option::Some(bd)
            } else {
                Option::None
            }
        },
        Option::None => Option::None,
    };
    let nu = User {
        username: f.username,
        email: f.email,
        firstname: f.firstname,
        lastname: f.lastname,
        birthdate,
        bio: f.bio,
        location: f.location,
        website: f.website,
        updated_at: now,
        ..user.clone()
    };
    let api = nu.to_api();
    let ok = store.update_user(user.id, nu);
    if !ok {
        return Response::new().status(Status::BadRequest).text("400 Bad Request");
    }
    Response::new().body(ResponseBody::User(api))
}

fn opt_len_at_most(o: &Option<String>, n: usize) -> (r: bool)
    ensures
        r == (match *o {
            Some(v) => v@.len() <= n,
            None => true,
        }),
{
    match o {
        Option::Some(v) => v.as_str().unicode_len() <= n,
        Option::None => true,
    }
}



pub open spec fn users_sessions_outcome(uid: Seq<char>, req: Request, ctx: Context, s0: Store, s1: Store, status: Status, rbody: ResponseBody, now: i64) -> bool {
    &&& (s1 == s0)
    &&& ({
    ({
        let qs = crate::web::opt_view(req.query);
        match spec_found_user(s0.users@, uid) {
            None => status == Status::NotFound,
            Some(user) => {
                let auth = ctx.auth_user->0;
                if !(user.id == auth.id || auth.role == UserRole::Admin) {
                    status == Status::Unauthorized
                } else {
                    match status {
                        Status::Okay => exists|q: Seq<char>, page: i64, limit: i64|
                            {
                                &&& #[trigger] index_query_ok(qs, q, page, limit)
                                &&& ({
                                    let rows = sort_sessions_desc(
                                        filter_sessions(
                                            s0.sessions@,
                                            SessionFilter::ActiveOfUser(user.id, now),
                                        ),
                                    );
                                    let win = page_window(rows, page, limit);
                                    rbody matches ResponseBody::SessionList {
                                        pagination,
                                        data,
                                    } && pagination.total == spec_total(rows.len())
                                        && pagination.page == page && pagination.limit == limit
                                        && data@.len() == win.len() && (forall|k: int|
                                        0 <= k < win.len() ==> #[trigger] data@[k]
                                            == win[k].spec_to_api(None))
                                })
                            },
                        Status::BadRequest => !(exists|
                            q: Seq<char>,
                            page: i64,
                            limit: i64,
                        |
                            #[trigger] index_query_ok(qs, q, page, limit)),
                        _ => false,
                    }
                }
            },
        }
    })
    })
}

/// A user's active sessions, by expiry, latest first: the owner or an
/// administrator.
pub fn users_sessions(
    user_id: &str,
    req: &Request,
    ctx: &Context,
    store: &mut Store,
    now: i64,
) -> (res: Response)
    requires
        old(store).wf(),
        ctx.auth_user is Some,
    ensures
        final(store).wf(),
        users_sessions_outcome(user_id@, *req, *ctx, *old(store), *final(store), res.status, res.body, now),
{
    let user = match find_user(user_id, store) {
        Option::Some(u) => u,
        Option::None => {
            return Response::new().status(Status::NotFound).text("404 Not Found");
        },
    };
    let auth_user = match &ctx.auth_user {
        Option::Some(u) => u,
        Option::None => {
            proof {
                assert(false);
            }
            return Response::new();
        },
    };
    if !(user.id == auth_user.id || auth_user.role == UserRole::Admin) {
        return Response::new().status(Status::Unauthorized).text("401 Unauthorized");
    }
    let query = match crate::web::parse_index_query(&req.query) {
        IndexQueryOutcome::Parsed(iq) => iq,
        IndexQueryOutcome::Malformed => {
            return Response::with_status(Status::BadRequest);
        },
        IndexQueryOutcome::Invalid(report) => {
            return Response::with_status(Status::BadRequest).body(ResponseBody::Report(report));
        },
    };
    let rows = sort_sessions(
        select_sessions(&store.sessions, &SessionFilter::ActiveOfUser(user.id, now)),
    );
    let total = total_of(rows.len());
    let win = page_sessions(&rows, query.page, query.limit);
    let mut data: Vec<crate::models::ApiSession> = Vec::new();
    let mut i: usize = 0;
    while i < win.len()
        invariant
            i <= win@.len(),
            data@.len() == i,
            forall|k: int| 0 <= k < i ==> #[trigger] data@[k] == win@[k].spec_to_api(None),
        decreases win@.len() - i,
    {
        data.push(win[i].to_api(Option::None));
        i = i + 1;
    }
    Response::new().body(
        ResponseBody::SessionList {
            pagination: crate::web::Pagination { total, page: query.page, limit: query.limit },
            data,
        },
    )
}

pub open spec fn users_posts_outcome(uid: Seq<char>, req: Request, ctx: Context, s0: Store, s1: Store, status: Status, rbody: ResponseBody) -> bool {
    &&& (s1.users == s0.users)
    &&& (s1.sessions == s0.sessions)
    &&& (s1.interactions == s0.interactions)
    &&& ({
    ({
        let qs = crate::web::opt_view(req.query);
        let viewer = match ctx.auth_user {
            Some(u) => Some(u.id),
            None => None,
        };
        match spec_found_user(s0.users@, uid) {
            None => status == Status::NotFound && s1.posts@ == s0.posts@,
            Some(user) => match status {
                Status::Okay => exists|q: Seq<char>, page: i64, limit: i64|
                    {
                        &&& #[trigger] index_query_ok(qs, q, page, limit)
                        &&& ({
                            let rows = sort_posts_desc(
                                filter_posts(
                                    s0.posts@,
                                    PostFilter::ByUser(user.id),
                                    q,
                                ),
                            );
                            let win = page_window(rows, page, limit);
                            &&& s1.posts@ == bump_many(s0.posts@, win)
                            &&& (rbody matches ResponseBody::PostList { pagination, data }
                                && pagination.total == spec_total(rows.len())
                                && pagination.page == page && pagination.limit == limit
                                && data@.len() == win.len() && (forall|k: int|
                                0 <= k < win.len() ==> resolved_ok(
                                    s0.posts@,
                                    s0.users@,
                                    s0.interactions@,
                                    win[k],
                                    viewer,
                                    #[trigger] data@[k],
                                )))
                        })
                    },
                Status::BadRequest => s1.posts@ == s0.posts@,
                _ => false,
            },
        }
    })
    })
}

/// A user's posts whose text matches the filter, newest first, resolved.
pub fn users_posts(
    user_id: &str,
    req: &Request,
    ctx: &Context,
    store: &mut Store,
    now: i64,
) -> (res: Response)
    requires
        old(store).wf(),
    ensures
        final(store).wf(),
        users_posts_outcome(user_id@, *req, *ctx, *old(store), *final(store), res.status, res.body),
{
    let user = match find_user(user_id, store) {
        Option::Some(u) => u,
        Option::None => {
            return Response::new().status(Status::NotFound).text("404 Not Found");
        },
    };
    let query = match crate::web::parse_index_query(&req.query) {
        IndexQueryOutcome::Parsed(iq) => iq,
        IndexQueryOutcome::Malformed => {
            return Response::with_status(Status::BadRequest);
        },
        IndexQueryOutcome::Invalid(report) => {
            return Response::with_status(Status::BadRequest).body(ResponseBody::Report(report));
        },
    };
    let rows = sort_posts(
        select_posts(&store.posts, &PostFilter::ByUser(user.id), query.query.as_str()),
    );
    let total = total_of(rows.len());
    let win = page_posts(&rows, query.page, query.limit);
    proof {
        lemma_filter_posts_contains(
            old(store).posts@,
            PostFilter::ByUser(user.id),
            query.query@,
        );
        lemma_sort_posts_contains(
            filter_posts(old(store).posts@, PostFilter::ByUser(user.id), query.query@),
        );
        assert forall|k: int|
            0 <= k < win@.len() implies spec_find_post(old(store).posts@, (#[trigger] win@[k]).id)
            == Some(win@[k]) by {
            let rows_s = sort_posts_desc(
                filter_posts(old(store).posts@, PostFilter::ByUser(user.id), query.query@),
            );
            assert(rows_s.contains(win@[k]));
            let j = choose|j: int| 0 <= j < rows_s.len() && rows_s[j] == win@[k];
            assert(old(store).posts@.contains(rows_s[j]));
            lemma_find_contained_post(old(store).posts@, win@[k]);
        }
    }
    let viewer: Option<u128> = match &ctx.auth_user {
        Option::Some(u) => Option::Some(u.id),
        Option::None => Option::None,
    };
    let data = store.resolve_page(&win, viewer);
    Response::new().body(
        ResponseBody::PostList {
            pagination: crate::web::Pagination { total, page: query.page, limit: query.limit },
            data,
        },
    )
}


} // verus!
