use plaatbook::models::{Session, User, UserRole};
use plaatbook::router::handle;
use plaatbook::store::Store;
use plaatbook::text::format_uuid;
use plaatbook::web::{Method, Request, ResponseBody, Status};

const NOW: i64 = 1_700_000_000_000;

fn request(method: Method, path: &str) -> Request {
    Request {
        method,
        path: path.to_string(),
        query: None,
        headers: Vec::new(),
        body: None,
        client_addr: "127.0.0.1".to_string(),
    }
}

fn with_bearer(mut r: Request, token: &str) -> Request {
    r.headers.push(("Authorization".to_string(), format!("Bearer {}", token)));
    r
}

fn create_user_session(store: &mut Store, id: u128, role: UserRole) -> (User, Session) {
    let user = User {
        id,
        username: format!("test-{}", id),
        email: format!("email-{}@example.com", id),
        password: "unverifiable-credential".to_string(),
        firstname: None,
        lastname: None,
        birthdate: None,
        bio: None,
        location: None,
        website: None,
        role,
        created_at: NOW,
        updated_at: NOW,
    };
    assert!(store.insert_user(user.clone()));
    let session = Session {
        id: id + 500_000,
        user_id: id,
        token: plaatbook::controllers::auth::generate_random_token().unwrap(),
        ip_address: "127.0.0.1".to_string(),
        ip_country: None,
        ip_city: None,
        client_name: None,
        client_version: None,
        client_os: None,
        expires_at: NOW + 1_000_000,
        created_at: NOW,
        updated_at: NOW,
    };
    assert!(store.insert_session(session.clone()));
    (user, session)
}

#[test]
fn test_sessions_index() {
    let mut store = Store::new();
    let (user, session) = create_user_session(&mut store, 1, UserRole::Admin);
    for k in 0..10u128 {
        let s = Session {
            id: 700_000 + k,
            token: plaatbook::controllers::auth::generate_random_token().unwrap(),
            ..session.clone()
        };
        let s = Session { user_id: user.id, ..s };
        assert!(store.insert_session(s));
    }
    let res = handle(
        &mut store,
        &with_bearer(request(Method::Get, "/sessions"), &session.token),
        NOW,
    );
    assert_eq!(res.status, Status::Okay);
    match res.body {
        ResponseBody::SessionList { pagination, .. } => assert_eq!(pagination.total, 10 + 1),
        _ => panic!("expected a session listing"),
    }
}

#[test]
fn test_sessions_show() {
    let mut store = Store::new();

    // Show your own session
    let (_, user_session) = create_user_session(&mut store, 1, UserRole::Normal);
    let path = format!("/sessions/{}", format_uuid(user_session.id));
    let res = handle(&mut store, &with_bearer(request(Method::Get, &path), &user_session.token), NOW);
    assert_eq!(res.status, Status::Okay);
    match res.body {
        ResponseBody::Session(s) => assert_eq!(s.id, user_session.id),
        _ => panic!("expected a session body"),
    }

    // Admin shows the user's session
    let (_, admin_session) = create_user_session(&mut store, 2, UserRole::Admin);
    let res = handle(&mut store, &with_bearer(request(Method::Get, &path), &admin_session.token), NOW);
    assert_eq!(res.status, Status::Okay);
    match res.body {
        ResponseBody::Session(s) => assert_eq!(s.id, user_session.id),
        _ => panic!("expected a session body"),
    }

    // Another user is refused
    let (_, other_session) = create_user_session(&mut store, 3, UserRole::Normal);
    let res = handle(&mut store, &with_bearer(request(Method::Get, &path), &other_session.token), NOW);
    assert_eq!(res.status, Status::Unauthorized);
}

#[test]
fn test_sessions_revoke() {
    let mut store = Store::new();

    // Revoke your own session
    let (_, user_session) = create_user_session(&mut store, 1, UserRole::Normal);
    let path = format!("/sessions/{}", format_uuid(user_session.id));
    let res = handle(
        &mut store,
        &with_bearer(request(Method::Delete, &path), &user_session.token),
        NOW,
    );
    assert_eq!(res.status, Status::Okay);
    let res = handle(&mut store, &with_bearer(request(Method::Get, &path), &user_session.token), NOW);
    assert_eq!(res.status, Status::Unauthorized);

    // Admin revokes another user's session
    let (_, admin_session) = create_user_session(&mut store, 2, UserRole::Admin);
    let (_, user_session) = create_user_session(&mut store, 3, UserRole::Normal);
    let path = format!("/sessions/{}", format_uuid(user_session.id));
    let res = handle(
        &mut store,
        &with_bearer(request(Method::Delete, &path), &admin_session.token),
        NOW,
    );
    assert_eq!(res.status, Status::Okay);
    let res = handle(&mut store, &with_bearer(request(Method::Get, &path), &user_session.token), NOW);
    assert_eq!(res.status, Status::Unauthorized);
}
