use at_gateway::web::{page_response, static_response, target_path, StaticResponse};

fn page(content_type: &str, body: &[u8]) -> StaticResponse {
    StaticResponse::Page { content_type: content_type.to_string(), body: body.to_vec() }
}

#[test]
fn directories_have_an_index_page() {
    assert_eq!(target_path("/"), "index.html");
    assert_eq!(target_path(""), "index.html");
    assert_eq!(target_path("/5700/"), "index.html");
    assert_eq!(target_path("/5700/sub/"), "sub/index.html");
}

#[test]
fn files_are_found_with_and_without_the_prefix() {
    assert_eq!(target_path("/5700/app.js"), "app.js");
    assert_eq!(target_path("/app.js"), "app.js");
    assert_eq!(target_path("app.js"), "app.js");
    assert_eq!(target_path("//css/a.css"), "css/a.css");
}

#[test]
fn the_prefix_is_taken_off_as_often_as_it_stands() {
    assert_eq!(target_path("/5700//5700/x"), "x");
    assert_eq!(target_path("/5700/5700/x"), "5700/x");
    assert_eq!(target_path("/5700"), "5700");
}

#[test]
fn a_file_has_the_type_of_its_extension() {
    assert_eq!(
        static_response("app.js", Some(vec![1]), None),
        page("text/javascript", &[1])
    );
    assert_eq!(static_response("index.html", Some(vec![2]), None), page("text/html", &[2]));
    assert_eq!(static_response("a/b.PNG", Some(vec![]), None), page("image/png", &[]));
    assert_eq!(
        static_response("LICENSE", Some(vec![3]), Some(vec![4])),
        page("application/octet-stream", &[3])
    );
}

#[test]
fn an_unknown_file_gives_the_index_page() {
    assert_eq!(static_response("route", None, Some(vec![7])), page("text/html", &[7]));
}

#[test]
fn without_an_index_page_nothing_is_found() {
    assert_eq!(static_response("route", None, None), StaticResponse::NotFound);
}

#[test]
fn the_given_type_goes_with_the_file_alone() {
    let kind = "x/y".to_string();
    assert_eq!(page_response(kind.clone(), Some(vec![1]), Some(vec![2])), page("x/y", &[1]));
    assert_eq!(page_response(kind.clone(), None, Some(vec![2])), page("text/html", &[2]));
    assert_eq!(page_response(kind, None, None), StaticResponse::NotFound);
}

/// What is sent for a request path, with a few files embedded.
fn served(path: &str) -> StaticResponse {
    let file = |name: &str| match name {
        "index.html" => Some(vec![1]),
        "css/a.css" => Some(vec![2]),
        "net:1.js" => Some(vec![3]),
        _ => None,
    };
    let target = target_path(path);
    static_response(&target, file(&target), file("index.html"))
}

#[test]
fn the_prefix_and_a_plain_slash_serve_the_same_page() {
    for tail in ["", "css/a.css", "css/", "net:1.js", "nothing.js", "5700"] {
        let with_prefix = served(&format!("/5700/{}", tail));
        assert_eq!(with_prefix, served(&format!("/{}", tail)));
    }
    assert_eq!(served("/5700/css/a.css"), page("text/css", &[2]));
    assert_eq!(served("/5700/nothing.js"), page("text/html", &[1]));
}
