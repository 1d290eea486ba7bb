use plaatbook::layers::Context;
use plaatbook::models::{Post, PostInteractionType, PostType, User, UserRole};
use plaatbook::router::handle;
use plaatbook::store::Store;
use plaatbook::text::format_uuid;
use plaatbook::web::{Method, Request, Response, ResponseBody, Status};

const NOW: i64 = 1_700_000_000_000;

fn blank_request() -> Request {
    Request {
        method: Method::Get,
        path: "/".to_string(),
        query: None,
        headers: Vec::new(),
        body: None,
        client_addr: "127.0.0.1".to_string(),
    }
}

fn request(method: Method, path: &str) -> Request {
    let mut r = blank_request();
    r.method = method;
    r.path = path.to_string();
    r
}

fn with_bearer(mut r: Request, token: &str) -> Request {
    r.headers.push(("Authorization".to_string(), format!("Bearer {}", token)));
    r
}

fn with_body(mut r: Request, body: &str) -> Request {
    r.body = Some(body.to_string());
    r
}

fn plain_user(id: u128, name: &str) -> User {
    User {
        id,
        username: name.to_string(),
        email: format!("{}@example.com", name),
        password: "unverifiable-credential".to_string(),
        firstname: None,
        lastname: None,
        birthdate: None,
        bio: None,
        location: None,
        website: None,
        role: UserRole::Normal,
        created_at: NOW,
        updated_at: NOW,
    }
}

fn plain_post(id: u128, user_id: u128, text: &str) -> Post {
    Post {
        id,
        kind: PostType::Normal,
        parent_post_id: None,
        user_id,
        text: text.to_string(),
        replies_count: 0,
        reposts_count: 0,
        likes_count: 0,
        dislikes_count: 0,
        views_count: 0,
        created_at: NOW,
        updated_at: NOW,
    }
}

fn session_for(store: &mut Store, user: &User) -> String {
    let token = plaatbook::controllers::auth::generate_random_token().unwrap();
    let session = plaatbook::models::Session {
        id: user.id + 500_000,
        user_id: user.id,
        token: token.clone(),
        ip_address: "127.0.0.1".to_string(),
        ip_country: None,
        ip_city: None,
        client_name: None,
        client_version: None,
        client_os: None,
        expires_at: NOW + 1_000_000,
        created_at: NOW,
        updated_at: NOW,
    };
    assert!(store.insert_session(session));
    token
}

/// Clearing an interaction twice never drives a counter below the value
/// before the first call: the second clear is a no-op.
#[test]
fn idempotent_clear() {
    let mut store = Store::new();
    assert!(store.insert_user(plain_user(1, "alice")));
    assert!(store.insert_user(plain_user(2, "bob")));
    assert!(store.insert_post(plain_post(10, 1, "hello")));
    store.set_interaction(10, 2, PostInteractionType::Like, 900, NOW);
    assert_eq!(store.find_post(10).unwrap().likes_count, 1);
    assert!(store.clear_interaction(10, 2, PostInteractionType::Like));
    assert_eq!(store.find_post(10).unwrap().likes_count, 0);
    assert!(!store.clear_interaction(10, 2, PostInteractionType::Like));
    assert_eq!(store.find_post(10).unwrap().likes_count, 0);
}

/// After set Like then set Dislike, exactly one active row remains, it is
/// the Dislike, and the counters moved across.
#[test]
fn mutual_exclusion() {
    let mut store = Store::new();
    assert!(store.insert_user(plain_user(1, "alice")));
    assert!(store.insert_user(plain_user(2, "bob")));
    assert!(store.insert_post(plain_post(10, 1, "hello")));
    store.set_interaction(10, 2, PostInteractionType::Like, 900, NOW);
    let before = store.find_post(10).unwrap();
    assert_eq!((before.likes_count, before.dislikes_count), (1, 0));
    store.set_interaction(10, 2, PostInteractionType::Dislike, 901, NOW);
    let after = store.find_post(10).unwrap();
    assert_eq!((after.likes_count, after.dislikes_count), (0, 1));
    assert!(store.has_interaction(10, 2, PostInteractionType::Dislike));
    assert!(!store.has_interaction(10, 2, PostInteractionType::Like));
    assert_eq!(store.interactions.len(), 1);
}

/// Resolving a repost shows the content post's counters, not the repost's
/// own stored row values.
#[test]
fn repost_counter_copy_down() {
    let mut store = Store::new();
    assert!(store.insert_user(plain_user(1, "alice")));
    let mut content = plain_post(10, 1, "the content");
    assert!(store.insert_post(content.clone()));
    for viewer in [2u128, 3, 4, 5, 6] {
        assert!(store.insert_user(plain_user(viewer, &format!("u{}", viewer))));
        store.set_interaction(10, viewer, PostInteractionType::Like, 900 + viewer, NOW);
    }
    content = store.find_post(10).unwrap();
    assert_eq!(content.likes_count, 5);
    let repost = Post {
        id: 11,
        kind: PostType::Repost,
        parent_post_id: Some(10),
        text: content.text.clone(),
        ..plain_post(11, 1, "")
    };
    assert!(store.insert_post(repost.clone()));
    let resolved = store.fetch_relationships(&store.find_post(11).unwrap(), None);
    assert_eq!(resolved.likes_count, 5);
    assert_eq!(resolved.id, 11);
}

/// Liking a repost targets the content post, and `auth_user_liked` agrees
/// between repost and content post for the same viewer.
#[test]
fn content_identity_for_reposts() {
    let mut store = Store::new();
    let alice = plain_user(1, "alice");
    let bob = plain_user(2, "bob");
    assert!(store.insert_user(alice.clone()));
    assert!(store.insert_user(bob.clone()));
    assert!(store.insert_post(plain_post(10, 1, "the content")));
    let repost = Post {
        id: 11,
        kind: PostType::Repost,
        parent_post_id: Some(10),
        ..plain_post(11, 1, "the content")
    };
    assert!(store.insert_post(repost));
    let token = session_for(&mut store, &bob);
    let res = handle(
        &mut store,
        &with_bearer(request(Method::Put, &format!("/posts/{}/like", format_uuid(11))), &token),
        NOW,
    );
    assert_eq!(res.status, Status::Okay);
    // the row landed on the content post
    assert!(store.has_interaction(10, 2, PostInteractionType::Like));
    assert_eq!(store.find_post(10).unwrap().likes_count, 1);
    assert_eq!(store.find_post(11).unwrap().likes_count, 0);
    let on_repost = store.fetch_relationships(&store.find_post(11).unwrap(), Some(2));
    let on_content = store.fetch_relationships(&store.find_post(10).unwrap(), Some(2));
    assert_eq!(on_repost.auth_user_liked, Some(true));
    assert_eq!(on_repost.auth_user_liked, on_content.auth_user_liked);
    assert_eq!(on_repost.auth_user_disliked, on_content.auth_user_disliked);
}

/// Fetching the same post three times, same or different viewers, raises
/// its view counter by exactly three.
#[test]
fn view_increments() {
    let mut store = Store::new();
    let alice = plain_user(1, "alice");
    let bob = plain_user(2, "bob");
    assert!(store.insert_user(alice.clone()));
    assert!(store.insert_user(bob.clone()));
    assert!(store.insert_post(plain_post(10, 1, "watch me")));
    let t_alice = session_for(&mut store, &alice);
    let t_bob = session_for(&mut store, &bob);
    let path = format!("/posts/{}", format_uuid(10));
    let r1 = handle(&mut store, &with_bearer(request(Method::Get, &path), &t_alice), NOW);
    assert_eq!(r1.status, Status::Okay);
    let r2 = handle(&mut store, &with_bearer(request(Method::Get, &path), &t_bob), NOW);
    assert_eq!(r2.status, Status::Okay);
    let r3 = handle(&mut store, &request(Method::Get, &path), NOW);
    assert_eq!(r3.status, Status::Okay);
    assert_eq!(store.find_post(10).unwrap().views_count, 3);
}

/// An OPTIONS request is answered before any handler, already carrying the
/// CORS headers; a guarded route without a token is refused with the CORS
/// headers still present.
#[test]
fn pipeline_short_circuit_ordering() {
    let mut store = Store::new();
    let res = handle(&mut store, &request(Method::Options, "/posts"), NOW);
    assert_eq!(res.status, Status::Okay);
    assert!(matches!(res.body, ResponseBody::Empty));
    assert_eq!(header(&res, "Access-Control-Allow-Origin"), Some("*".to_string()));
    assert_eq!(
        header(&res, "Access-Control-Allow-Methods"),
        Some("GET, POST, PUT, DELETE".to_string())
    );
    let res = handle(&mut store, &request(Method::Post, "/posts"), NOW);
    assert_eq!(res.status, Status::Unauthorized);
    assert_eq!(header(&res, "Access-Control-Allow-Origin"), Some("*".to_string()));
    // an expired token is refused the same way
    let alice = plain_user(1, "alice");
    let mut s2 = Store::new();
    assert!(s2.insert_user(alice.clone()));
    let token = session_for(&mut s2, &alice);
    let res = handle(
        &mut s2,
        &with_bearer(request(Method::Post, "/posts"), &token),
        NOW + 10_000_000,
    );
    assert_eq!(res.status, Status::Unauthorized);
    assert_eq!(header(&res, "Access-Control-Allow-Origin"), Some("*".to_string()));
}

fn header(res: &Response, name: &str) -> Option<String> {
    for (k, v) in &res.headers {
        if k == name {
            return Some(v.clone());
        }
    }
    None
}

/// Login on a seeded user, validate the token, log out, and watch the
/// token die.
#[test]
fn login_validate_logout_scenario() {
    let mut store = Store::new();
    let res = handle(
        &mut store,
        &with_body(
            request(Method::Post, "/users"),
            "username=alice&email=alice@example.com&password=secret",
        ),
        NOW,
    );
    assert_eq!(res.status, Status::Okay);
    let res = handle(
        &mut store,
        &with_body(request(Method::Post, "/auth/login"), "logon=alice&password=secret"),
        NOW,
    );
    assert_eq!(res.status, Status::Okay);
    let (token, user_id) = match res.body {
        ResponseBody::AuthLogin { token, user, .. } => (token, user.id),
        _ => panic!("expected a login body"),
    };
    assert!(!token.is_empty());
    let res = handle(
        &mut store,
        &with_bearer(request(Method::Get, "/auth/validate"), &token),
        NOW,
    );
    assert_eq!(res.status, Status::Okay);
    match res.body {
        ResponseBody::AuthValidate { user, .. } => assert_eq!(user.id, user_id),
        _ => panic!("expected a validate body"),
    }
    let res = handle(
        &mut store,
        &with_bearer(request(Method::Put, "/auth/logout"), &token),
        NOW,
    );
    assert_eq!(res.status, Status::Okay);
    let res = handle(
        &mut store,
        &with_bearer(request(Method::Get, "/auth/validate"), &token),
        NOW,
    );
    assert_eq!(res.status, Status::Unauthorized);
}

/// Create, like, dislike, then clear an already-absent like: the counters
/// move exactly as the ledger promises, and the final no-op changes nothing.
#[test]
fn like_dislike_scenario() {
    let mut store = Store::new();
    let alice = plain_user(1, "alice");
    let bob = plain_user(2, "bob");
    assert!(store.insert_user(alice.clone()));
    assert!(store.insert_user(bob.clone()));
    let t_alice = session_for(&mut store, &alice);
    let t_bob = session_for(&mut store, &bob);
    let res = handle(
        &mut store,
        &with_body(with_bearer(request(Method::Post, "/posts"), &t_alice), "text=Fresh%20post"),
        NOW,
    );
    assert_eq!(res.status, Status::Okay);
    let post_id = match res.body {
        ResponseBody::Post(p) => {
            assert_eq!(p.likes_count, 0);
            p.id
        },
        _ => panic!("expected a post body"),
    };
    let path_like = format!("/posts/{}/like", format_uuid(post_id));
    let res = handle(&mut store, &with_bearer(request(Method::Put, &path_like), &t_bob), NOW);
    assert_eq!(res.status, Status::Okay);
    assert_eq!(store.find_post(post_id).unwrap().likes_count, 1);
    let resolved = store.fetch_relationships(&store.find_post(post_id).unwrap(), Some(bob.id));
    assert_eq!(resolved.auth_user_liked, Some(true));
    let path_dislike = format!("/posts/{}/dislike", format_uuid(post_id));
    let res = handle(&mut store, &with_bearer(request(Method::Put, &path_dislike), &t_bob), NOW);
    assert_eq!(res.status, Status::Okay);
    let p = store.find_post(post_id).unwrap();
    assert_eq!((p.likes_count, p.dislikes_count), (0, 1));
    let res = handle(&mut store, &with_bearer(request(Method::Delete, &path_like), &t_bob), NOW);
    assert_eq!(res.status, Status::Okay);
    let p = store.find_post(post_id).unwrap();
    assert_eq!((p.likes_count, p.dislikes_count), (0, 1));
}
