use poly::serve::{
    favicon, file_path_from_req, listen_addr, listen_port_from_str, log_request,
    prepare_response, prepare_response_body, read_request, requested_path, write_response, Body,
    Config, Found, Request, Response,
};

fn config() -> Config {
    Config { static_base_path: "/home/user/project/dist".to_string() }
}

fn request(path: &str) -> Request {
    Request { method: "GET".to_string(), path: path.to_string() }
}

#[test]
fn port_is_derived_from_the_directory() {
    assert_eq!(listen_port_from_str("/home/user/project/dist"), 8414);
    assert_eq!(listen_port_from_str("dist"), 8088);
    assert_eq!(listen_port_from_str(""), 8000);
    assert_eq!(listen_port_from_str("---///"), 8000);
    assert_eq!(listen_port_from_str("zzzzzzzzzzzzzzzzzzzzzzzzzzzzzzzzzzzzzzzzzzz"), 8505);
    assert_eq!(listen_port_from_str("Z"), 8035);
    assert_eq!(listen_port_from_str("é9"), 8009);
    assert_eq!(listen_addr(&config()), "127.0.0.1:8414");
}

#[test]
fn request_head_is_read() {
    let req = read_request(b"GET /styles/app.css?v=1 HTTP/1.1\r\nHost: localhost\r\n\r\n").unwrap();
    assert_eq!(req, Request { method: "GET".to_string(), path: "/styles/app.css".to_string() });
    let req = read_request(b"POST / HTTP/1.1\r\n\r\n").unwrap();
    assert_eq!(req, Request { method: "POST".to_string(), path: "/".to_string() });
    assert_eq!(log_request(&req), "[POST] /");
}

#[test]
fn incomplete_head_counts_as_get_of_the_root() {
    assert_eq!(read_request(b""), Ok(request("/")));
}

#[test]
fn broken_head_is_refused() {
    assert_eq!(read_request(b"\x00\x01 nonsense\r\n\r\n"), Err("Failed to read request".to_string()));
}

#[test]
fn requested_file_lies_in_the_served_directory() {
    assert_eq!(requested_path(&config(), &request("/styles/app.css")), "/home/user/project/dist/styles/app.css");
    assert_eq!(requested_path(&config(), &request("//a")), "/home/user/project/dist/a");
    assert_eq!(requested_path(&config(), &request("/")), "/home/user/project/dist/");
    assert_eq!(
        file_path_from_req(&config(), &request("/docs"), true),
        "/home/user/project/dist/docs/index.html"
    );
    assert_eq!(
        file_path_from_req(&config(), &request("/"), true),
        "/home/user/project/dist/index.html"
    );
    assert_eq!(
        file_path_from_req(&config(), &request("/docs"), false),
        "/home/user/project/dist/docs"
    );
}

#[test]
fn file_is_sent_with_the_media_type_of_its_extension() {
    let body = prepare_response_body("/d/app.css", Found::Content(b"a{}".to_vec())).unwrap();
    assert_eq!(body, Body { content: b"a{}".to_vec(), content_type: "text/css".to_string() });
    let body = prepare_response_body("/d/index.html", Found::Content(Vec::new())).unwrap();
    assert_eq!(body.content_type, "text/html");
    let body = prepare_response_body("/d/LICENSE", Found::Content(Vec::new())).unwrap();
    assert_eq!(body.content_type, "application/octet-stream");
    let body = prepare_response_body("/d/x.unknownext", Found::Content(Vec::new())).unwrap();
    assert_eq!(body.content_type, "application/octet-stream");
}

#[test]
fn missing_icon_is_replaced_by_the_built_in_one() {
    let icon = favicon().expect("an icon");
    assert_eq!(icon.len(), 318);
    assert_eq!(&icon[..8], &[0, 0, 1, 0, 1, 0, 16, 16]);
    assert_eq!(&icon[314..], &[255, 255, 0, 0]);
    let body = prepare_response_body("/d/favicon.ico", Found::Missing).unwrap();
    assert_eq!(body.content, icon);
    assert_eq!(body.content_type, "image/x-icon");
}

#[test]
fn missing_and_unreadable_files_are_refused() {
    assert_eq!(
        prepare_response_body("/d/nothing.txt", Found::Missing),
        Err("Path not found: /d/nothing.txt".to_string())
    );
    assert_eq!(
        prepare_response_body("/d/favicon.ico/x", Found::Missing),
        Err("Path not found: /d/favicon.ico/x".to_string())
    );
    assert_eq!(
        prepare_response_body("/d/a.txt", Found::Unreadable("denied".to_string())),
        Err("Failed to read file: denied".to_string())
    );
}

#[test]
fn response_is_framed() {
    let body = Body { content: b"hello".to_vec(), content_type: "text/plain".to_string() };
    let res = prepare_response(body, &vec![("x-extra".to_string(), "1".to_string())]);
    assert_eq!(
        res,
        Response {
            headers: vec![
                ("content-type".to_string(), "text/plain".to_string()),
                ("x-extra".to_string(), "1".to_string()),
            ],
            body: b"hello".to_vec(),
        }
    );
    assert_eq!(
        write_response(&res),
        "HTTP/1.1 200 OK\r\nContent-Length: 5\r\ncontent-type: text/plain\r\nx-extra: 1\r\n\r\n"
    );
    let empty = Response { headers: Vec::new(), body: Vec::new() };
    assert_eq!(write_response(&empty), "HTTP/1.1 200 OK\r\nContent-Length: 0\r\n\r\n");
}
