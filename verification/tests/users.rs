use plaatbook::layers::Context;
use plaatbook::models::{Post, PostType, Session, User, UserRole};
use plaatbook::router::handle;
use plaatbook::store::Store;
use plaatbook::text::format_uuid;
use plaatbook::web::{Method, Request, ResponseBody, Status};

const NOW: i64 = 1_700_000_000_000;

fn request(method: Method, path: &str) -> Request {
    Request {
        method,
        path: path.to_string(),
        query: None,
        headers: Vec::new(),
        body: None,
        client_addr: "127.0.0.1".to_string(),
    }
}

fn with_bearer(mut r: Request, token: &str) -> Request {
    r.headers.push(("Authorization".to_string(), format!("Bearer {}", token)));
    r
}

fn with_body(mut r: Request, body: &str) -> Request {
    r.body = Some(body.to_string());
    r
}

fn plain_user(id: u128, name: &str) -> User {
    User {
        id,
        username: name.to_string(),
        email: format!("{}@example.com", name),
        password: "unverifiable-credential".to_string(),
        firstname: None,
        lastname: None,
        birthdate: None,
        bio: None,
        location: None,
        website: None,
        role: UserRole::Normal,
        created_at: NOW,
        updated_at: NOW,
    }
}

fn create_user_session(store: &mut Store, id: u128, role: UserRole) -> (User, Session) {
    let user = User { role, ..plain_user(id, &format!("test-{}", id)) };
    assert!(store.insert_user(user.clone()));
    let session = Session {
        id: id + 500_000,
        user_id: id,
        token: plaatbook::controllers::auth::generate_random_token().unwrap(),
        ip_address: "127.0.0.1".to_string(),
        ip_country: None,
        ip_city: None,
        client_name: None,
        client_version: None,
        client_os: None,
        expires_at: NOW + 1_000_000,
        created_at: NOW,
        updated_at: NOW,
    };
    assert!(store.insert_session(session.clone()));
    (user, session)
}

#[test]
fn test_users_index() {
    let mut store = Store::new();
    let (_, session) = create_user_session(&mut store, 1, UserRole::Admin);
    for k in 0..10u128 {
        assert!(store.insert_user(plain_user(100 + k, &format!("user{}", k))));
    }
    let res = handle(&mut store, &with_bearer(request(Method::Get, "/users"), &session.token), NOW);
    assert_eq!(res.status, Status::Okay);
    match res.body {
        ResponseBody::UserList { pagination, .. } => assert_eq!(pagination.total, 10 + 1),
        _ => panic!("expected a user listing"),
    }
}

#[test]
fn test_users_create() {
    let mut store = Store::new();
    let (_, session) = create_user_session(&mut store, 1, UserRole::Admin);
    let res = handle(
        &mut store,
        &with_body(
            with_bearer(request(Method::Post, "/users"), &session.token),
            "username=newuser&email=newuser%40example.com&password=password123",
        ),
        NOW,
    );
    assert_eq!(res.status, Status::Okay);
    match res.body {
        ResponseBody::User(u) => {
            assert_eq!(u.username, "newuser");
            assert_eq!(u.email, "newuser@example.com");
        },
        _ => panic!("expected a user body"),
    }
}

#[test]
fn test_users_show() {
    let mut store = Store::new();
    let (user, session) = create_user_session(&mut store, 1, UserRole::Normal);
    let res = handle(
        &mut store,
        &with_bearer(
            request(Method::Get, &format!("/users/{}", format_uuid(user.id))),
            &session.token,
        ),
        NOW,
    );
    assert_eq!(res.status, Status::Okay);
    match res.body {
        ResponseBody::User(u) => assert_eq!(u.id, user.id),
        _ => panic!("expected a user body"),
    }
}

#[test]
fn test_users_update() {
    let mut store = Store::new();
    let (user, session) = create_user_session(&mut store, 1, UserRole::Normal);
    let body = "username=updateduser&email=updateduser%40example.com&firstname=Updated&lastname=User&birthdate=2000-01-01&bio=Updated%20bio&location=Updated%20location&website=http%3A%2F%2Fupdatedwebsite.com";
    let res = handle(
        &mut store,
        &with_body(
            with_bearer(
                request(Method::Put, &format!("/users/{}", format_uuid(user.id))),
                &session.token,
            ),
            body,
        ),
        NOW,
    );
    assert_eq!(res.status, Status::Okay);
    match res.body {
        ResponseBody::User(u) => {
            assert_eq!(u.username, "updateduser");
            assert_eq!(u.email, "updateduser@example.com");
            assert_eq!(u.birthdate, Some("2000-01-01".to_string()));
        },
        _ => panic!("expected a user body"),
    }
}

#[test]
fn test_users_change_password() {
    let mut store = Store::new();
    let res = handle(
        &mut store,
        &with_body(
            request(Method::Post, "/users"),
            "username=test&email=test%40example.com&password=password",
        ),
        NOW,
    );
    assert_eq!(res.status, Status::Okay);
    let res = handle(
        &mut store,
        &with_body(request(Method::Post, "/auth/login"), "logon=test&password=password"),
        NOW,
    );
    assert_eq!(res.status, Status::Okay);
    let (token, uid) = match res.body {
        ResponseBody::AuthLogin { token, user, .. } => (token, user.id),
        _ => panic!("expected a login body"),
    };
    let res = handle(
        &mut store,
        &with_body(
            with_bearer(
                request(Method::Put, &format!("/users/{}/change_password", format_uuid(uid))),
                &token,
            ),
            "current_password=password&password=password123",
        ),
        NOW,
    );
    assert_eq!(res.status, Status::Okay);
    // the new password logs in, the old one no longer does
    let res = handle(
        &mut store,
        &with_body(request(Method::Post, "/auth/login"), "logon=test&password=password123"),
        NOW,
    );
    assert_eq!(res.status, Status::Okay);
    let res = handle(
        &mut store,
        &with_body(request(Method::Post, "/auth/login"), "logon=test&password=password"),
        NOW,
    );
    assert_eq!(res.status, Status::Unauthorized);
}

#[test]
fn test_users_sessions() {
    let mut store = Store::new();
    let (user, session) = create_user_session(&mut store, 1, UserRole::Normal);
    let res = handle(
        &mut store,
        &with_bearer(
            request(Method::Get, &format!("/users/{}/sessions", format_uuid(user.id))),
            &session.token,
        ),
        NOW,
    );
    assert_eq!(res.status, Status::Okay);
    match res.body {
        ResponseBody::SessionList { data, .. } => assert!(!data.is_empty()),
        _ => panic!("expected a session listing"),
    }
}

#[test]
fn test_users_posts() {
    let mut store = Store::new();
    let (user, session) = create_user_session(&mut store, 1, UserRole::Normal);
    let post = Post {
        id: 100,
        kind: PostType::Normal,
        parent_post_id: None,
        user_id: user.id,
        text: "This is a test post".to_string(),
        replies_count: 0,
        reposts_count: 0,
        likes_count: 0,
        dislikes_count: 0,
        views_count: 0,
        created_at: NOW,
        updated_at: NOW,
    };
    assert!(store.insert_post(post));
    let res = handle(
        &mut store,
        &with_bearer(
            request(Method::Get, &format!("/users/{}/posts", format_uuid(user.id))),
            &session.token,
        ),
        NOW,
    );
    assert_eq!(res.status, Status::Okay);
    match res.body {
        ResponseBody::PostList { data, .. } => assert!(!data.is_empty()),
        _ => panic!("expected a post listing"),
    }
}

#[test]
fn test_is_unique_username() {
    let mut store = Store::new();
    assert!(store.insert_user(plain_user(1, "existing_username")));
    assert!(plaatbook::controllers::users::is_unique_username("unique_username", &store));
    assert!(!plaatbook::controllers::users::is_unique_username("existing_username", &store));
}

#[test]
fn test_is_unique_username_or_auth_user_username() {
    let mut store = Store::new();
    assert!(store.insert_user(plain_user(1, "existing_username")));
    let ctx = Context { auth_user: Some(plain_user(2, "auth_username")), auth_session: None };
    assert!(plaatbook::controllers::users::is_unique_username_or_auth_user_username(
        "auth_username",
        &ctx,
        &store
    ));
    assert!(plaatbook::controllers::users::is_unique_username_or_auth_user_username(
        "unique_username",
        &ctx,
        &store
    ));
    assert!(!plaatbook::controllers::users::is_unique_username_or_auth_user_username(
        "existing_username",
        &ctx,
        &store
    ));
}

#[test]
fn test_is_unique_email() {
    let mut store = Store::new();
    assert!(store.insert_user(plain_user(1, "existing_email")));
    assert!(plaatbook::controllers::users::is_unique_email("unique_email@example.com", &store));
    assert!(!plaatbook::controllers::users::is_unique_email("existing_email@example.com", &store));
}

#[test]
fn test_is_unique_email_or_auth_user_email() {
    let mut store = Store::new();
    assert!(store.insert_user(plain_user(1, "existing_email")));
    let ctx = Context { auth_user: Some(plain_user(2, "auth_email")), auth_session: None };
    assert!(plaatbook::controllers::users::is_unique_email_or_auth_user_email(
        "auth_email@example.com",
        &ctx,
        &store
    ));
    assert!(plaatbook::controllers::users::is_unique_email_or_auth_user_email(
        "unique_email@example.com",
        &ctx,
        &store
    ));
    assert!(!plaatbook::controllers::users::is_unique_email_or_auth_user_email(
        "existing_email@example.com",
        &ctx,
        &store
    ));
}

#[test]
fn test_is_auth_user_current_password() {
    let mut store = Store::new();
    let res = handle(
        &mut store,
        &with_body(
            request(Method::Post, "/users"),
            "username=holder&email=holder%40example.com&password=correct_password",
        ),
        NOW,
    );
    assert_eq!(res.status, Status::Okay);
    let user = store.find_user_by_logon("holder").unwrap();
    let ctx = Context { auth_user: Some(user), auth_session: None };
    assert!(plaatbook::controllers::users::is_auth_user_current_password("correct_password", &ctx));
    assert!(!plaatbook::controllers::users::is_auth_user_current_password(
        "incorrect_password",
        &ctx
    ));
}
