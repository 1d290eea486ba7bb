use plaatbook::models::{Session, User, UserRole};
use plaatbook::router::handle;
use plaatbook::store::Store;
use plaatbook::web::{Method, Request, Response, Status};

const NOW: i64 = 1_700_000_000_000;

fn request(method: Method, path: &str) -> Request {
    Request {
        method,
        path: path.to_string(),
        query: None,
        headers: Vec::new(),
        body: None,
        client_addr: "127.0.0.1".to_string(),
    }
}

fn with_bearer(mut r: Request, token: &str) -> Request {
    r.headers.push(("Authorization".to_string(), format!("Bearer {}", token)));
    r
}

fn header(res: &Response, name: &str) -> Option<String> {
    for (k, v) in &res.headers {
        if k == name {
            return Some(v.clone());
        }
    }
    None
}

fn create_user_session(store: &mut Store, id: u128, role: UserRole) -> (User, Session) {
    let user = User {
        id,
        username: format!("test-{}", id),
        email: format!("email-{}@example.com", id),
        password: "unverifiable-credential".to_string(),
        firstname: None,
        lastname: None,
        birthdate: None,
        bio: None,
        location: None,
        website: None,
        role,
        created_at: NOW,
        updated_at: NOW,
    };
    assert!(store.insert_user(user.clone()));
    let session = Session {
        id: id + 500_000,
        user_id: id,
        token: plaatbook::controllers::auth::generate_random_token().unwrap(),
        ip_address: "127.0.0.1".to_string(),
        ip_country: None,
        ip_city: None,
        client_name: None,
        client_version: None,
        client_os: None,
        expires_at: NOW + 1_000_000,
        created_at: NOW,
        updated_at: NOW,
    };
    assert!(store.insert_session(session.clone()));
    (user, session)
}

#[test]
fn test_unauthed() {
    let mut store = Store::new();
    let res = handle(&mut store, &request(Method::Get, "/auth/validate"), NOW);
    assert_eq!(res.status, Status::Unauthorized);
}

#[test]
fn test_authed() {
    let mut store = Store::new();
    let (_, session) = create_user_session(&mut store, 1, UserRole::Normal);
    let res = handle(
        &mut store,
        &with_bearer(request(Method::Get, "/auth/validate"), &session.token),
        NOW,
    );
    assert_eq!(res.status, Status::Okay);
}

#[test]
fn test_cors() {
    let mut store = Store::new();
    let res = handle(&mut store, &request(Method::Get, "/"), NOW);
    assert_eq!(header(&res, "Access-Control-Allow-Origin"), Some("*".to_string()));
}

#[test]
fn test_cors_preflight() {
    let mut store = Store::new();
    let res = handle(&mut store, &request(Method::Options, "/"), NOW);
    assert_eq!(header(&res, "Access-Control-Allow-Origin"), Some("*".to_string()));
    assert_eq!(
        header(&res, "Access-Control-Allow-Methods"),
        Some("GET, POST, PUT, DELETE".to_string())
    );
    assert_eq!(header(&res, "Access-Control-Allow-Headers"), Some("Authorization".to_string()));
    assert_eq!(header(&res, "Access-Control-Max-Age"), Some("86400".to_string()));
}
