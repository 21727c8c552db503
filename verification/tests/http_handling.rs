use rustic_server::http::{
    decimal_string, request_line_well_formed, str_eq, Config, RequestHandler,
};

#[test]
fn config_starts_empty_and_parses_address_and_port() {
    let mut c = Config::new();
    assert_eq!(c.address, "");
    assert_eq!(c.port, "");
    let args = vec![
        "rustic_server".to_string(),
        "127.0.0.1".to_string(),
        "8080".to_string(),
    ];
    c.parse_args(&args);
    assert_eq!(c.address, "127.0.0.1");
    assert_eq!(c.port, "8080");
}

#[test]
fn new_handler_is_primed_for_success() {
    let h = RequestHandler::new();
    assert_eq!(h.request.method, "");
    assert_eq!(h.request.path, "");
    assert_eq!(h.request.protocol, "");
    assert_eq!(h.response.protocol, "HTTP/1.1");
    assert_eq!(h.response.status, "200 OK");
    assert_eq!(h.response.body, "");
}

#[test]
fn parse_request_extracts_the_three_fields() {
    let mut h = RequestHandler::new();
    let req = "GET /hello.html HTTP/1.1\r\nHost: localhost\r\n\r\n".to_string();
    assert!(request_line_well_formed(&req));
    h.parse_request(&req);
    assert_eq!(h.request.method, "GET");
    assert_eq!(h.request.path, "./static/hello.html");
    assert_eq!(h.request.protocol, "HTTP/1.1");
    assert_eq!(h.response.status, "200 OK");
}

#[test]
fn root_path_maps_to_the_static_directory() {
    let mut h = RequestHandler::new();
    let req = "GET / HTTP/1.1\r\n\r\n".to_string();
    h.parse_request(&req);
    assert_eq!(h.request.path, "./static");
}

#[test]
fn tabs_also_separate_the_fields() {
    let mut h = RequestHandler::new();
    let req = "GET\t/a.txt\tHTTP/1.0\n".to_string();
    assert!(request_line_well_formed(&req));
    h.parse_request(&req);
    assert_eq!(h.request.method, "GET");
    assert_eq!(h.request.path, "./static/a.txt");
    assert_eq!(h.request.protocol, "HTTP/1.0");
}

#[test]
fn malformed_request_lines_are_rejected() {
    assert!(!request_line_well_formed(&String::new()));
    assert!(!request_line_well_formed(&"GET".to_string()));
    assert!(!request_line_well_formed(&"GET /x\nHTTP/1.1".to_string()));
    assert!(!request_line_well_formed(&"\nGET /x HTTP/1.1".to_string()));
    assert!(!request_line_well_formed(&"   \r\n".to_string()));
    assert!(request_line_well_formed(&"GET /x HTTP/1.1".to_string()));
}

#[test]
fn get_response_serves_an_existing_file() {
    let mut h = RequestHandler::new();
    let req = "GET /index.html HTTP/1.1\r\n".to_string();
    h.parse_request(&req);
    assert!(h.serves_request_path(true));
    let content = "<html>hello</html>".to_string();
    h.get_response(true, &content);
    assert_eq!(h.response.status, "200 OK");
    assert_eq!(
        h.response.body,
        format!("HTTP/1.1 200 OK {}\r\n\r\n{}", content.len(), content)
    );
}

#[test]
fn get_response_answers_not_found_for_a_missing_path() {
    let mut h = RequestHandler::new();
    let req = "GET /gone.html HTTP/1.1\r\n".to_string();
    h.parse_request(&req);
    assert!(!h.serves_request_path(false));
    let page = "not found".to_string();
    h.get_response(false, &page);
    assert_eq!(h.response.status, "404 NOT FOUND");
    assert_eq!(h.response.body, "HTTP/1.1 404 NOT FOUND 9\r\n\r\nnot found");
}

#[test]
fn get_response_refuses_other_methods_even_for_existing_paths() {
    let mut h = RequestHandler::new();
    let req = "POST /index.html HTTP/1.1\r\n".to_string();
    h.parse_request(&req);
    assert!(!h.serves_request_path(true));
    let page = "not found".to_string();
    h.get_response(true, &page);
    assert_eq!(h.response.status, "405 METHOD NOT ALLOWED");
    assert_eq!(
        h.response.body,
        "HTTP/1.1 405 METHOD NOT ALLOWED 9\r\n\r\nnot found"
    );
}

#[test]
fn body_length_counts_bytes_not_characters() {
    let mut h = RequestHandler::new();
    let req = "GET / HTTP/1.1\r\n".to_string();
    h.parse_request(&req);
    let content = "é".to_string();
    assert_eq!(content.len(), 2);
    h.get_response(true, &content);
    assert_eq!(h.response.body, "HTTP/1.1 200 OK 2\r\n\r\né");
}

#[test]
fn empty_body_formats_with_length_zero() {
    let mut h = RequestHandler::new();
    let req = "GET / HTTP/1.1\r\n".to_string();
    h.parse_request(&req);
    let content = String::new();
    h.get_response(true, &content);
    assert_eq!(h.response.body, "HTTP/1.1 200 OK 0\r\n\r\n");
}

#[test]
fn decimal_rendering_matches_usual_notation() {
    assert_eq!(decimal_string(0), "0");
    assert_eq!(decimal_string(7), "7");
    assert_eq!(decimal_string(10), "10");
    assert_eq!(decimal_string(105), "105");
    assert_eq!(decimal_string(98765), "98765");
}

#[test]
fn str_eq_compares_contents() {
    assert!(str_eq("GET", "GET"));
    assert!(!str_eq("GET", "PUT"));
    assert!(!str_eq("GET", "GE"));
    assert!(str_eq("", ""));
}
