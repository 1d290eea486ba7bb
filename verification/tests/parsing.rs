use plaatbook::forms::is_valid_date;
use plaatbook::router::handle;
use plaatbook::store::Store;
use plaatbook::text::{format_uuid, parse_i64, parse_uuid};
use plaatbook::web::{Method, Request, ResponseBody, Status};

const NOW: i64 = 1_700_000_000_000;

fn request(method: Method, path: &str) -> Request {
    Request {
        method,
        path: path.to_string(),
        query: None,
        headers: Vec::new(),
        body: None,
        client_addr: "127.0.0.1".to_string(),
    }
}

#[test]
fn decimal_numbers() {
    assert_eq!(parse_i64("0"), Some(0));
    assert_eq!(parse_i64("42"), Some(42));
    assert_eq!(parse_i64("-42"), Some(-42));
    assert_eq!(parse_i64("9223372036854775807"), Some(i64::MAX));
    assert_eq!(parse_i64("-9223372036854775808"), Some(i64::MIN));
    assert_eq!(parse_i64("9223372036854775808"), None);
    assert_eq!(parse_i64(""), None);
    assert_eq!(parse_i64("-"), None);
    assert_eq!(parse_i64("12a"), None);
}

#[test]
fn id_round_trip() {
    let id: u128 = 0x0123_4567_89ab_cdef_0011_2233_4455_6677;
    let text = format_uuid(id);
    assert_eq!(text, "01234567-89ab-cdef-0011-223344556677");
    assert_eq!(parse_uuid(&text), Some(id));
    assert_eq!(parse_uuid("0123456789abcdef0011223344556677"), Some(id));
    assert_eq!(parse_uuid("01234567-89AB-CDEF-0011-223344556677"), Some(id));
    assert_eq!(parse_uuid("nonsense"), None);
    assert_eq!(parse_uuid(""), None);
}

#[test]
fn calendar_days() {
    assert!(is_valid_date("2000-01-01"));
    assert!(is_valid_date("2024-02-29"));
    assert!(!is_valid_date("2023-02-29"));
    assert!(is_valid_date("1900-02-28"));
    assert!(!is_valid_date("1900-02-29"));
    assert!(!is_valid_date("2000-13-01"));
    assert!(!is_valid_date("2000-00-10"));
    assert!(!is_valid_date("2000-04-31"));
    assert!(!is_valid_date("not-a-date"));
    assert!(!is_valid_date("20000101"));
}

#[test]
fn listing_query_is_validated() {
    let mut store = Store::new();
    // an out-of-range page is a field error
    let mut req = request(Method::Get, "/posts");
    req.query = Some("page=0".to_string());
    let res = handle(&mut store, &req, NOW);
    assert_eq!(res.status, Status::BadRequest);
    assert!(matches!(res.body, ResponseBody::Report(_)));
    // an out-of-range limit is a field error
    let mut req = request(Method::Get, "/posts");
    req.query = Some("limit=51".to_string());
    let res = handle(&mut store, &req, NOW);
    assert_eq!(res.status, Status::BadRequest);
    assert!(matches!(res.body, ResponseBody::Report(_)));
    // a number that does not parse refuses the query outright
    let mut req = request(Method::Get, "/posts");
    req.query = Some("page=abc".to_string());
    let res = handle(&mut store, &req, NOW);
    assert_eq!(res.status, Status::BadRequest);
    assert!(matches!(res.body, ResponseBody::Empty));
}

#[test]
fn listing_pages_slice_exactly() {
    let mut store = Store::new();
    assert!(store.insert_user(plaatbook_user(1)));
    for k in 0..7u128 {
        let post = plaatbook::models::Post {
            id: 100 + k,
            kind: plaatbook::models::PostType::Normal,
            parent_post_id: None,
            user_id: 1,
            text: format!("item {}", k),
            replies_count: 0,
            reposts_count: 0,
            likes_count: 0,
            dislikes_count: 0,
            views_count: 0,
            created_at: NOW + k as i64,
            updated_at: NOW,
        };
        assert!(store.insert_post(post));
    }
    let mut req = request(Method::Get, "/posts");
    req.query = Some("page=2&limit=3".to_string());
    let res = handle(&mut store, &req, NOW);
    assert_eq!(res.status, Status::Okay);
    match res.body {
        ResponseBody::PostList { pagination, data } => {
            assert_eq!(pagination.total, 7);
            assert_eq!(pagination.page, 2);
            assert_eq!(pagination.limit, 3);
            assert_eq!(data.len(), 3);
            // newest first: page two holds items 3, 2, 1
            assert_eq!(data[0].text, "item 3");
            assert_eq!(data[1].text, "item 2");
            assert_eq!(data[2].text, "item 1");
        },
        _ => panic!("expected a post listing"),
    }
}

fn plaatbook_user(id: u128) -> plaatbook::models::User {
    plaatbook::models::User {
        id,
        username: format!("user-{}", id),
        email: format!("user-{}@example.com", id),
        password: "unverifiable-credential".to_string(),
        firstname: None,
        lastname: None,
        birthdate: None,
        bio: None,
        location: None,
        website: None,
        role: plaatbook::models::UserRole::Normal,
        created_at: NOW,
        updated_at: NOW,
    }
}

#[test]
fn seeded_administrator_logs_in() {
    let mut store = Store::new();
    store.seed(NOW);
    assert_eq!(store.users.len(), 1);
    let mut req = request(Method::Post, "/auth/login");
    req.body = Some("logon=admin&password=admin".to_string());
    let res = handle(&mut store, &req, NOW);
    assert_eq!(res.status, Status::Okay);
    match res.body {
        ResponseBody::AuthLogin { token, user, .. } => {
            assert_eq!(token.len(), 342);
            assert_eq!(user.username, "admin");
        },
        _ => panic!("expected a login body"),
    }
}

#[test]
fn registration_field_errors() {
    let mut store = Store::new();
    // a broken email address is reported under its field
    let mut req = request(Method::Post, "/users");
    req.body = Some("username=ok&email=broken&password=password123".to_string());
    let res = handle(&mut store, &req, NOW);
    assert_eq!(res.status, Status::BadRequest);
    match res.body {
        ResponseBody::Report(report) => assert!(report.get_errors("email").is_some()),
        _ => panic!("expected a report body"),
    }
    // a missing field refuses the body outright
    let mut req = request(Method::Post, "/users");
    req.body = Some("username=ok&password=password123".to_string());
    let res = handle(&mut store, &req, NOW);
    assert_eq!(res.status, Status::BadRequest);
    assert!(matches!(res.body, ResponseBody::Text(_)));
}

#[test]
fn percent_decoding_reaches_storage() {
    let mut store = Store::new();
    store.seed(NOW);
    let mut req = request(Method::Post, "/auth/login");
    req.body = Some("logon=admin&password=admin".to_string());
    let res = handle(&mut store, &req, NOW);
    let token = match res.body {
        ResponseBody::AuthLogin { token, .. } => token,
        _ => panic!("expected a login body"),
    };
    let mut req = request(Method::Post, "/posts");
    req.headers.push(("Authorization".to_string(), format!("Bearer {}", token)));
    req.body = Some("text=a%2Bb+c%20d".to_string());
    let res = handle(&mut store, &req, NOW);
    assert_eq!(res.status, Status::Okay);
    match res.body {
        ResponseBody::Post(p) => assert_eq!(p.text, "a+b c d"),
        _ => panic!("expected a post body"),
    }
}

#[test]
fn missing_post_is_not_found() {
    let mut store = Store::new();
    let res = handle(&mut store, &request(Method::Get, "/posts/not-an-id"), NOW);
    assert_eq!(res.status, Status::NotFound);
    let res = handle(
        &mut store,
        &request(Method::Get, &format!("/posts/{}", format_uuid(424242))),
        NOW,
    );
    assert_eq!(res.status, Status::NotFound);
}

#[test]
fn search_lists_users_and_posts() {
    let mut store = Store::new();
    assert!(store.insert_user(plaatbook_user(1)));
    for k in 0..3u128 {
        let post = plaatbook::models::Post {
            id: 100 + k,
            kind: plaatbook::models::PostType::Normal,
            parent_post_id: None,
            user_id: 1,
            text: format!("findable {}", k),
            replies_count: 0,
            reposts_count: 0,
            likes_count: 0,
            dislikes_count: 0,
            views_count: 0,
            created_at: NOW,
            updated_at: NOW,
        };
        assert!(store.insert_post(post));
    }
    let ctx = plaatbook::layers::Context { auth_user: None, auth_session: None };
    let mut req = request(Method::Get, "/search");
    req.query = Some("q=findable".to_string());
    let res = plaatbook::controllers::search::search(&req, &ctx, &mut store, NOW);
    assert_eq!(res.status, Status::Okay);
    match res.body {
        ResponseBody::Search { users, posts } => {
            assert_eq!(users.len(), 0);
            assert_eq!(posts.len(), 3);
        },
        _ => panic!("expected a search body"),
    }
    let mut req = request(Method::Get, "/search");
    req.query = Some("q=user".to_string());
    let res = plaatbook::controllers::search::search(&req, &ctx, &mut store, NOW);
    match res.body {
        ResponseBody::Search { users, posts } => {
            assert_eq!(users.len(), 1);
            assert_eq!(posts.len(), 0);
        },
        _ => panic!("expected a search body"),
    }
}

#[test]
fn expired_sessions_drop_out_of_a_users_listing() {
    let mut store = Store::new();
    assert!(store.insert_user(plaatbook_user(1)));
    let make_session = |id: u128, expires_at: i64| plaatbook::models::Session {
        id,
        user_id: 1,
        token: plaatbook::controllers::auth::generate_random_token().unwrap(),
        ip_address: "127.0.0.1".to_string(),
        ip_country: None,
        ip_city: None,
        client_name: None,
        client_version: None,
        client_os: None,
        expires_at,
        created_at: NOW,
        updated_at: NOW,
    };
    let live = make_session(900, NOW + 5_000);
    let dead = make_session(901, NOW - 5_000);
    let token = live.token.clone();
    assert!(store.insert_session(live));
    assert!(store.insert_session(dead));
    let mut req = request(Method::Get, &format!("/users/{}/sessions", format_uuid(1)));
    req.headers.push(("Authorization".to_string(), format!("Bearer {}", token)));
    let res = handle(&mut store, &req, NOW);
    assert_eq!(res.status, Status::Okay);
    match res.body {
        ResponseBody::SessionList { pagination, data } => {
            assert_eq!(pagination.total, 1);
            assert_eq!(data.len(), 1);
            assert_eq!(data[0].id, 900);
        },
        _ => panic!("expected a session listing"),
    }
}

#[test]
fn cascading_delete_takes_the_subtree() {
    let mut store = Store::new();
    store.seed(NOW);
    let admin = store.find_user_by_logon("admin").unwrap();
    let make_post =
        |id: u128, kind: plaatbook::models::PostType, parent: Option<u128>| plaatbook::models::Post {
            id,
            kind,
            parent_post_id: parent,
            user_id: admin.id,
            text: "node".to_string(),
            replies_count: 0,
            reposts_count: 0,
            likes_count: 0,
            dislikes_count: 0,
            views_count: 0,
            created_at: NOW,
            updated_at: NOW,
        };
    assert!(store.insert_post(make_post(10, plaatbook::models::PostType::Normal, None)));
    assert!(store.insert_post(make_post(11, plaatbook::models::PostType::Reply, Some(10))));
    assert!(store.insert_post(make_post(12, plaatbook::models::PostType::Reply, Some(11))));
    assert!(store.insert_post(make_post(13, plaatbook::models::PostType::Repost, Some(10))));
    assert!(store.insert_post(make_post(20, plaatbook::models::PostType::Normal, None)));
    store.set_interaction(11, admin.id, plaatbook::models::PostInteractionType::Like, 900, NOW);
    // deleting the root takes the reply, the reply's reply, the repost, and
    // the like row on the reply; the unrelated post survives
    let root = store.find_post(10).unwrap();
    store.delete_post(root);
    assert!(store.find_post(10).is_none());
    assert!(store.find_post(11).is_none());
    assert!(store.find_post(12).is_none());
    assert!(store.find_post(13).is_none());
    assert!(store.find_post(20).is_some());
    assert_eq!(store.interactions.len(), 0);
}

#[test]
fn login_records_supplied_geo_metadata() {
    let mut store = Store::new();
    store.seed(NOW);
    let mut req = request(Method::Post, "/auth/login");
    req.body = Some("logon=admin&password=admin".to_string());
    let geo = Some(("Netherlands".to_string(), "Gouda".to_string()));
    let res = plaatbook::router::handle_geo(&mut store, &req, &geo, NOW);
    assert_eq!(res.status, Status::Okay);
    assert_eq!(store.sessions.len(), 1);
    assert_eq!(store.sessions[0].ip_country, Some("Netherlands".to_string()));
    assert_eq!(store.sessions[0].ip_city, Some("Gouda".to_string()));
    // without the lookup the fields stay empty
    let mut req2 = request(Method::Post, "/auth/login");
    req2.body = Some("logon=admin&password=admin".to_string());
    let res = handle(&mut store, &req2, NOW);
    assert_eq!(res.status, Status::Okay);
    assert_eq!(store.sessions.len(), 2);
    assert_eq!(store.sessions[1].ip_country, None);
    assert_eq!(store.sessions[1].ip_city, None);
}
