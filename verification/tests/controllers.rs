use plaatbook::router::handle;
use plaatbook::store::Store;
use plaatbook::web::{Method, Request, ResponseBody, Status};

const NOW: i64 = 1_700_000_000_000;

fn request(method: Method, path: &str) -> Request {
    Request {
        method,
        path: path.to_string(),
        query: None,
        headers: Vec::new(),
        body: None,
        client_addr: "127.0.0.1".to_string(),
    }
}

#[test]
fn test_home() {
    let mut store = Store::new();
    let res = handle(&mut store, &request(Method::Get, "/"), NOW);
    assert_eq!(res.status, Status::Okay);
    match res.body {
        ResponseBody::Home { name, version } => {
            assert_eq!(name, "PlaatBook");
            assert_eq!(version, "0.1.0");
        },
        _ => panic!("expected the banner body"),
    }
}

#[test]
fn test_not_found() {
    let mut store = Store::new();
    let res = handle(&mut store, &request(Method::Get, "/nonexistent"), NOW);
    assert_eq!(res.status, Status::NotFound);
}
