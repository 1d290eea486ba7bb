use plaatbook::models::{Session, User, UserRole};
use plaatbook::router::handle;
use plaatbook::store::Store;
use plaatbook::web::{Method, Request, ResponseBody, Status};

const NOW: i64 = 1_700_000_000_000;

fn request(method: Method, path: &str) -> Request {
    Request {
        method,
        path: path.to_string(),
        query: None,
        headers: Vec::new(),
        body: None,
        client_addr: "127.0.0.1".to_string(),
    }
}

fn with_bearer(mut r: Request, token: &str) -> Request {
    r.headers.push(("Authorization".to_string(), format!("Bearer {}", token)));
    r
}

fn with_body(mut r: Request, body: &str) -> Request {
    r.body = Some(body.to_string());
    r
}

fn register(store: &mut Store, username: &str, email: &str, password: &str) {
    let res = handle(
        &mut *store,
        &with_body(
            request(Method::Post, "/users"),
            &format!("username={}&email={}&password={}", username, email, password),
        ),
        NOW,
    );
    assert_eq!(res.status, Status::Okay);
}

fn create_user_session(store: &mut Store, id: u128, role: UserRole) -> (User, Session) {
    let user = User {
        id,
        username: format!("test-{}", id),
        email: format!("email-{}@example.com", id),
        password: "unverifiable-credential".to_string(),
        firstname: None,
        lastname: None,
        birthdate: None,
        bio: None,
        location: None,
        website: None,
        role,
        created_at: NOW,
        updated_at: NOW,
    };
    assert!(store.insert_user(user.clone()));
    let session = Session {
        id: id + 500_000,
        user_id: id,
        token: plaatbook::controllers::auth::generate_random_token().unwrap(),
        ip_address: "127.0.0.1".to_string(),
        ip_country: None,
        ip_city: None,
        client_name: None,
        client_version: None,
        client_os: None,
        expires_at: NOW + 1_000_000,
        created_at: NOW,
        updated_at: NOW,
    };
    assert!(store.insert_session(session.clone()));
    (user, session)
}

#[test]
fn test_auth_login() {
    let mut store = Store::new();
    register(&mut store, "test", "test@example.com", "password");

    // Login with username
    let res = handle(
        &mut store,
        &with_body(request(Method::Post, "/auth/login"), "logon=test&password=password"),
        NOW,
    );
    assert_eq!(res.status, Status::Okay);
    match res.body {
        ResponseBody::AuthLogin { token, user, .. } => {
            assert!(!token.is_empty());
            assert_eq!(user.username, "test");
        },
        _ => panic!("expected a login body"),
    }

    // Login with email
    let res = handle(
        &mut store,
        &with_body(
            request(Method::Post, "/auth/login"),
            "logon=test@example.com&password=password",
        ),
        NOW,
    );
    assert_eq!(res.status, Status::Okay);
    match res.body {
        ResponseBody::AuthLogin { token, user, .. } => {
            assert!(!token.is_empty());
            assert_eq!(user.email, "test@example.com");
        },
        _ => panic!("expected a login body"),
    }

    // Login with wrong username
    let res = handle(
        &mut store,
        &with_body(request(Method::Post, "/auth/login"), "logon=wrongtest&password=password"),
        NOW,
    );
    assert_eq!(res.status, Status::Unauthorized);
    match res.body {
        ResponseBody::Report(report) => {
            assert_eq!(
                report.get_errors("logon").unwrap().as_slice(),
                &["Wrong username, email address or password".to_string()]
            );
        },
        _ => panic!("expected a report body"),
    }

    // Login with wrong password
    let res = handle(
        &mut store,
        &with_body(request(Method::Post, "/auth/login"), "logon=test&password=wrongpassword"),
        NOW,
    );
    assert_eq!(res.status, Status::Unauthorized);
    match res.body {
        ResponseBody::Report(report) => {
            assert_eq!(
                report.get_errors("logon").unwrap().as_slice(),
                &["Wrong username, email address or password".to_string()]
            );
        },
        _ => panic!("expected a report body"),
    }
}

#[test]
fn test_auth_validate() {
    let mut store = Store::new();
    let (user, session) = create_user_session(&mut store, 1, UserRole::Normal);

    let res = handle(
        &mut store,
        &with_bearer(request(Method::Get, "/auth/validate"), &session.token),
        NOW,
    );
    assert_eq!(res.status, Status::Okay);
    match res.body {
        ResponseBody::AuthValidate { user: u, .. } => assert_eq!(u.username, user.username),
        _ => panic!("expected a validate body"),
    }

    let res = handle(
        &mut store,
        &with_bearer(request(Method::Get, "/auth/validate"), "wrong_token"),
        NOW,
    );
    assert_eq!(res.status, Status::Unauthorized);
}

#[test]
fn test_auth_logout() {
    let mut store = Store::new();
    let (_, session) = create_user_session(&mut store, 1, UserRole::Normal);

    let res = handle(
        &mut store,
        &with_bearer(request(Method::Put, "/auth/logout"), &session.token),
        NOW,
    );
    assert_eq!(res.status, Status::Okay);

    let res = handle(
        &mut store,
        &with_bearer(request(Method::Get, "/auth/validate"), &session.token),
        NOW,
    );
    assert_eq!(res.status, Status::Unauthorized);
}
