use plaatbook::models::{Post, PostType, Session, User, UserRole};
use plaatbook::router::handle;
use plaatbook::store::Store;
use plaatbook::text::format_uuid;
use plaatbook::web::{Method, Request, ResponseBody, Status};

const NOW: i64 = 1_700_000_000_000;

fn request(method: Method, path: &str) -> Request {
    Request {
        method,
        path: path.to_string(),
        query: None,
        headers: Vec::new(),
        body: None,
        client_addr: "127.0.0.1".to_string(),
    }
}

fn with_bearer(mut r: Request, token: &str) -> Request {
    r.headers.push(("Authorization".to_string(), format!("Bearer {}", token)));
    r
}

fn with_body(mut r: Request, body: &str) -> Request {
    r.body = Some(body.to_string());
    r
}

fn create_user_session(store: &mut Store, id: u128, role: UserRole) -> (User, Session) {
    let user = User {
        id,
        username: format!("test-{}", id),
        email: format!("email-{}@example.com", id),
        password: "unverifiable-credential".to_string(),
        firstname: None,
        lastname: None,
        birthdate: None,
        bio: None,
        location: None,
        website: None,
        role,
        created_at: NOW,
        updated_at: NOW,
    };
    assert!(store.insert_user(user.clone()));
    let session = Session {
        id: id + 500_000,
        user_id: id,
        token: plaatbook::controllers::auth::generate_random_token().unwrap(),
        ip_address: "127.0.0.1".to_string(),
        ip_country: None,
        ip_city: None,
        client_name: None,
        client_version: None,
        client_os: None,
        expires_at: NOW + 1_000_000,
        created_at: NOW,
        updated_at: NOW,
    };
    assert!(store.insert_session(session.clone()));
    (user, session)
}

fn plain_post(id: u128, user_id: u128, text: &str) -> Post {
    Post {
        id,
        kind: PostType::Normal,
        parent_post_id: None,
        user_id,
        text: text.to_string(),
        replies_count: 0,
        reposts_count: 0,
        likes_count: 0,
        dislikes_count: 0,
        views_count: 0,
        created_at: NOW,
        updated_at: NOW,
    }
}

#[test]
fn test_posts_index() {
    let mut store = Store::new();
    let (user, session) = create_user_session(&mut store, 1, UserRole::Admin);
    for k in 0..10u128 {
        assert!(store.insert_post(plain_post(100 + k, user.id, "Hello world")));
    }
    let res = handle(
        &mut store,
        &with_bearer(request(Method::Get, "/posts"), &session.token),
        NOW,
    );
    assert_eq!(res.status, Status::Okay);
    match res.body {
        ResponseBody::PostList { pagination, .. } => assert_eq!(pagination.total, 10),
        _ => panic!("expected a post listing"),
    }
}

#[test]
fn test_posts_create() {
    let mut store = Store::new();
    let (_, session) = create_user_session(&mut store, 1, UserRole::Admin);
    let res = handle(
        &mut store,
        &with_body(
            with_bearer(request(Method::Post, "/posts"), &session.token),
            "text=Hello%20world",
        ),
        NOW,
    );
    assert_eq!(res.status, Status::Okay);
    match res.body {
        ResponseBody::Post(p) => assert_eq!(p.text, "Hello world"),
        _ => panic!("expected a post body"),
    }
}

#[test]
fn test_posts_show() {
    let mut store = Store::new();
    let (user, session) = create_user_session(&mut store, 1, UserRole::Admin);
    let post = plain_post(100, user.id, "Hello world");
    assert!(store.insert_post(post.clone()));
    let res = handle(
        &mut store,
        &with_bearer(
            request(Method::Get, &format!("/posts/{}", format_uuid(post.id))),
            &session.token,
        ),
        NOW,
    );
    assert_eq!(res.status, Status::Okay);
    match res.body {
        ResponseBody::Post(p) => assert_eq!(p.id, post.id),
        _ => panic!("expected a post body"),
    }
}

#[test]
fn test_posts_update() {
    let mut store = Store::new();
    let (user, session) = create_user_session(&mut store, 1, UserRole::Admin);
    let post = plain_post(100, user.id, "Hello world");
    assert!(store.insert_post(post.clone()));
    let res = handle(
        &mut store,
        &with_body(
            with_bearer(
                request(Method::Put, &format!("/posts/{}", format_uuid(post.id))),
                &session.token,
            ),
            "text=Updated%20text",
        ),
        NOW,
    );
    assert_eq!(res.status, Status::Okay);
    match res.body {
        ResponseBody::Post(p) => assert_eq!(p.text, "Updated text"),
        _ => panic!("expected a post body"),
    }
}

#[test]
fn test_posts_delete() {
    let mut store = Store::new();
    let (user, session) = create_user_session(&mut store, 1, UserRole::Admin);
    let post = plain_post(100, user.id, "Hello world");
    assert!(store.insert_post(post.clone()));
    let path = format!("/posts/{}", format_uuid(post.id));
    let res = handle(&mut store, &with_bearer(request(Method::Delete, &path), &session.token), NOW);
    assert_eq!(res.status, Status::Okay);
    let res = handle(&mut store, &with_bearer(request(Method::Get, &path), &session.token), NOW);
    assert_eq!(res.status, Status::NotFound);
}

#[test]
fn test_posts_replies() {
    let mut store = Store::new();
    let (user, session) = create_user_session(&mut store, 1, UserRole::Admin);
    let post = plain_post(100, user.id, "Hello world");
    assert!(store.insert_post(post.clone()));
    for k in 0..5u128 {
        let reply = Post {
            id: 200 + k,
            kind: PostType::Reply,
            parent_post_id: Some(post.id),
            ..plain_post(200 + k, user.id, "Reply")
        };
        assert!(store.insert_post(reply));
    }
    let res = handle(
        &mut store,
        &with_bearer(
            request(Method::Get, &format!("/posts/{}/replies", format_uuid(post.id))),
            &session.token,
        ),
        NOW,
    );
    assert_eq!(res.status, Status::Okay);
    match res.body {
        ResponseBody::PostList { pagination, .. } => assert_eq!(pagination.total, 5),
        _ => panic!("expected a post listing"),
    }
}

#[test]
fn test_posts_create_reply() {
    let mut store = Store::new();
    let (user, session) = create_user_session(&mut store, 1, UserRole::Admin);
    let post = plain_post(100, user.id, "Hello world");
    assert!(store.insert_post(post.clone()));
    let res = handle(
        &mut store,
        &with_body(
            with_bearer(
                request(Method::Post, &format!("/posts/{}/reply", format_uuid(post.id))),
                &session.token,
            ),
            "text=Reply%20text",
        ),
        NOW,
    );
    assert_eq!(res.status, Status::Okay);
    match res.body {
        ResponseBody::Post(p) => assert_eq!(p.text, "Reply text"),
        _ => panic!("expected a post body"),
    }
    assert_eq!(store.find_post(post.id).unwrap().replies_count, 1);
}

#[test]
fn test_posts_repost() {
    let mut store = Store::new();
    let (user, session) = create_user_session(&mut store, 1, UserRole::Admin);
    let post = plain_post(100, user.id, "Hello world");
    assert!(store.insert_post(post.clone()));
    let res = handle(
        &mut store,
        &with_bearer(
            request(Method::Post, &format!("/posts/{}/repost", format_uuid(post.id))),
            &session.token,
        ),
        NOW,
    );
    assert_eq!(res.status, Status::Okay);
    match res.body {
        ResponseBody::Post(p) => assert!(p.parent_post.is_some()),
        _ => panic!("expected a post body"),
    }
    assert_eq!(store.find_post(post.id).unwrap().reposts_count, 1);
}

#[test]
fn test_posts_like() {
    let mut store = Store::new();
    let (user, session) = create_user_session(&mut store, 1, UserRole::Admin);
    let post = plain_post(100, user.id, "Hello world");
    assert!(store.insert_post(post.clone()));
    let res = handle(
        &mut store,
        &with_bearer(
            request(Method::Put, &format!("/posts/{}/like", format_uuid(post.id))),
            &session.token,
        ),
        NOW,
    );
    assert_eq!(res.status, Status::Okay);
    assert_eq!(store.find_post(post.id).unwrap().likes_count, 1);
}

#[test]
fn test_posts_like_delete() {
    let mut store = Store::new();
    let (user, session) = create_user_session(&mut store, 1, UserRole::Admin);
    let post = plain_post(100, user.id, "Hello world");
    assert!(store.insert_post(post.clone()));
    // a POST to the like path matches no route, so no like is created
    handle(
        &mut store,
        &with_bearer(
            request(Method::Post, &format!("/posts/{}/like", format_uuid(post.id))),
            &session.token,
        ),
        NOW,
    );
    let res = handle(
        &mut store,
        &with_bearer(
            request(Method::Delete, &format!("/posts/{}/like", format_uuid(post.id))),
            &session.token,
        ),
        NOW,
    );
    assert_eq!(res.status, Status::Okay);
    assert_eq!(store.find_post(post.id).unwrap().likes_count, 0);
}

#[test]
fn test_posts_dislike() {
    let mut store = Store::new();
    let (user, session) = create_user_session(&mut store, 1, UserRole::Admin);
    let post = plain_post(100, user.id, "Hello world");
    assert!(store.insert_post(post.clone()));
    let res = handle(
        &mut store,
        &with_bearer(
            request(Method::Put, &format!("/posts/{}/dislike", format_uuid(post.id))),
            &session.token,
        ),
        NOW,
    );
    assert_eq!(res.status, Status::Okay);
    assert_eq!(store.find_post(post.id).unwrap().dislikes_count, 1);
}

#[test]
fn test_posts_dislike_delete() {
    let mut store = Store::new();
    let (user, session) = create_user_session(&mut store, 1, UserRole::Admin);
    let post = plain_post(100, user.id, "Hello world");
    assert!(store.insert_post(post.clone()));
    handle(
        &mut store,
        &with_bearer(
            request(Method::Post, &format!("/posts/{}/dislike", format_uuid(post.id))),
            &session.token,
        ),
        NOW,
    );
    let res = handle(
        &mut store,
        &with_bearer(
            request(Method::Delete, &format!("/posts/{}/dislike", format_uuid(post.id))),
            &session.token,
        ),
        NOW,
    );
    assert_eq!(res.status, Status::Okay);
    assert_eq!(store.find_post(post.id).unwrap().dislikes_count, 0);
}
