use prost::Message;
use tonic::codegen::http::HeaderMap;
use wiremock_grpc::{Code, GrpcServer, MockBuilder, Reply, RequestItem, Then};

fn hello_reply(message: &str) -> Vec<u8> {
    String::from(message).encode_to_vec()
}

fn request(port: u16, path: &str, headers: &[(&'static str, &str)]) -> RequestItem {
    let mut map = HeaderMap::new();
    for (name, value) in headers {
        map.insert(*name, value.parse().unwrap());
    }
    RequestItem {
        headers: map,
        method: "POST".to_string(),
        uri: format!("http://[::1]:{}{}", port, path),
    }
}

fn send(server: &mut GrpcServer, path: &str, headers: &[(&'static str, &str)]) -> Reply {
    let port = server.port();
    server.handle_request(path, request(port, path, headers))
}

fn message_of(reply: &Reply) -> String {
    String::decode(reply.body.as_ref().unwrap().as_slice()).unwrap()
}

fn started(port: u16) -> GrpcServer {
    let mut server = GrpcServer::new(port);
    server.mark_started();
    server
}

#[test]
fn features_test_it_starts_with_specified_port() {
    let server = started(5055);
    assert_eq!(5055, server.port());
    assert!(server.is_started());
}

#[test]
fn features_test_default() {
    let mut server = started(50051);

    let request1 = server
        .setup(
            MockBuilder::when()
                .path("/hello.Greeter/SayHello")
                .then()
                .return_status(Code::Okay)
                .return_body(hello_reply("Hello Mustakim")),
        )
        .unwrap();

    let response = send(&mut server, "/hello.Greeter/SayHello", &[]);
    assert_eq!(Code::Okay, response.status);
    assert_eq!("Hello Mustakim", message_of(&response));

    let requests = server.find(&request1);
    assert!(requests.is_some(), "Request must be logged");
    assert_eq!(1, requests.unwrap().len(), "Only 1 request must be logged");

    let request = server.find_one(&request1);
    assert_eq!(
        format!("http://[::1]:{}/hello.Greeter/SayHello", server.port()),
        request.uri
    );
    assert_eq!("POST", request.method);
    assert!(server.shutdown().is_ok());
}

#[test]
fn handled_when_mock_set() {
    let mut server = started(50052);
    server
        .setup(MockBuilder::given("/hello.Greeter/SayHello").return_body(hello_reply("yo")))
        .unwrap();

    let response = send(&mut server, "/hello.Greeter/SayHello", &[]);
    assert_eq!(Code::Okay, response.status);
    assert_eq!("yo", message_of(&response));
}

#[test]
fn mocked_header_return() {
    let mut server = started(50053);
    let mock = server
        .setup(
            MockBuilder::given("/hello.Greeter/SayHello")
                .return_header("X-RateLimit-Remaining", "100")
                .return_body(hello_reply("Hello to you too!")),
        )
        .unwrap();

    let response = send(&mut server, "/hello.Greeter/SayHello", &[]);
    assert_eq!(
        response
            .headers
            .get("X-RateLimit-Remaining")
            .expect("header should be set"),
        "100"
    );
    let _ = server.find_one(&mock);
}

#[test]
fn features_test_handled_when_mock_set_with_different_status_code() {
    let mut server = started(50054);
    server
        .setup(
            MockBuilder::given("/hello.Greeter/SayHello")
                .return_status(Code::AlreadyExists)
                .return_body(hello_reply("yo")),
        )
        .unwrap();

    let response = send(&mut server, "/hello.Greeter/SayHello", &[]);
    assert_eq!(Code::AlreadyExists, response.status);
    assert_eq!(6, response.status.number());
}

#[test]
fn status_without_body_gives_an_empty_answer() {
    let mut server = started(50054);
    server
        .setup(MockBuilder::given("/hello.Greeter/SayHello").return_status(Code::Aborted))
        .unwrap();

    let response = send(&mut server, "/hello.Greeter/SayHello", &[]);
    assert_eq!(Code::Aborted, response.status);
    assert!(response.body.is_none());
    assert!(response.headers.is_empty());
}

#[test]
fn unimplemented_when_mock_not_set() {
    let mut server = started(50055);

    let response = send(&mut server, "/hello.Greeter/SayHello", &[]);
    assert_eq!(Code::Unimplemented, response.status);
    assert!(response.body.is_none());
    assert!(response.headers.is_empty());
    assert_eq!(0, server.find_request_count());
}

#[test]
fn unmatched_path_leaves_other_rules_untouched() {
    let mut server = started(50055);
    let rule = server
        .setup(MockBuilder::given("/hello.Greeter/SayHello").return_status(Code::Okay))
        .unwrap();

    let response = send(&mut server, "/hello.Greeter/WeatherInfo", &[]);
    assert_eq!(Code::Unimplemented, response.status);
    assert_eq!(0, server.find_request_count());
    assert_eq!(Some(0), server.find(&rule).map(|r| r.len()));
    assert_eq!(1, server.rules_unmatched());
}

#[test]
fn features_test_multiple_mocks() {
    let mut server = started(50056);

    let request1 = server
        .setup(
            MockBuilder::given("/hello.Greeter/SayHello")
                .return_body(hello_reply("Hello to you too!")),
        )
        .unwrap();
    let request2 = server
        .setup(
            MockBuilder::given("/hello.Greeter/WeatherInfo")
                .return_body(hello_reply("rainy, as always")),
        )
        .unwrap();

    let response1 = send(&mut server, "/hello.Greeter/SayHello", &[]);
    assert_eq!("Hello to you too!", message_of(&response1));

    let response2 = send(&mut server, "/hello.Greeter/WeatherInfo", &[]);
    assert_eq!("rainy, as always", message_of(&response2));

    let _ = server.find_one(&request1);
    let _ = server.find_one(&request2);

    assert_eq!(2, server.find_request_count());
}

#[test]
fn header_discriminated_mocks() {
    let mut server = started(50057);

    let mock1_session_id = "mock1";
    let mock2_session_id = "mock2";
    let mock1 = server
        .setup(
            MockBuilder::when()
                .path("/hello.Greeter/SayHello")
                .header("session-id", mock1_session_id)
                .then()
                .return_body(hello_reply("Hello to you too!")),
        )
        .unwrap();
    let mock2 = server
        .setup(
            MockBuilder::when()
                .path("/hello.Greeter/SayHello")
                .header("session-id", mock2_session_id)
                .then()
                .return_body(hello_reply("Hello to you two!")),
        )
        .unwrap();

    let response1 = send(
        &mut server,
        "/hello.Greeter/SayHello",
        &[("session-id", mock1_session_id)],
    );
    assert_eq!("Hello to you too!", message_of(&response1));

    let response2 = send(
        &mut server,
        "/hello.Greeter/SayHello",
        &[("session-id", mock2_session_id)],
    );
    assert_eq!("Hello to you two!", message_of(&response2));

    let tracked_response_1 = server.find_one(&mock1);
    let tracked_response_2 = server.find_one(&mock2);

    assert_eq!(
        tracked_response_1
            .headers
            .get("session-id")
            .expect("header set")
            .to_str()
            .unwrap(),
        mock1_session_id
    );
    assert_eq!(
        tracked_response_2
            .headers
            .get("session-id")
            .expect("header set")
            .to_str()
            .unwrap(),
        mock2_session_id
    );

    assert_eq!(2, server.find_request_count());
}

#[test]
#[should_panic(expected = "Server terminated with unmatched rules: \n/hello.Greeter/SayHello")]
fn unmatched_request_panics() {
    let mut server = started(50058);

    server
        .setup(
            MockBuilder::when()
                .path("/hello.Greeter/SayHello")
                .then()
                .return_body(hello_reply("Hello to you too!")),
        )
        .unwrap();

    assert_eq!(0, server.find_request_count());
    assert_eq!(1, server.rules_len());
    assert_eq!(1, server.rules_unmatched());

    if let Err(unmatched) = server.shutdown() {
        panic!("{}", unmatched.message());
    }
}

#[test]
fn a_server_that_never_listened_is_taken_down_quietly() {
    let mut server = GrpcServer::new(50059);
    server
        .setup(MockBuilder::given("/hello.Greeter/SayHello").return_status(Code::Okay))
        .unwrap();
    assert!(server.shutdown().is_ok());
}

#[test]
fn teardown_lists_every_unmatched_path_in_order() {
    let mut server = started(50060);
    for path in ["/a", "/b", "/c"] {
        server
            .setup(MockBuilder::given(path).return_status(Code::Okay))
            .unwrap();
    }
    let _ = send(&mut server, "/b", &[]);

    let error = server.shutdown().unwrap_err();
    assert_eq!(vec!["/a".to_string(), "/c".to_string()], error.unmatched_paths);
    assert_eq!(
        "Server terminated with unmatched rules: \n/a\n/c",
        error.message()
    );
}

#[test]
fn reset_forgets_every_rule() {
    let mut server = started(50061);
    let rule = server
        .setup(MockBuilder::given("/a").return_status(Code::Okay))
        .unwrap();
    let _ = send(&mut server, "/a", &[]);
    assert_eq!(1, server.find_request_count());

    server.reset();

    assert!(server.find(&rule).is_none());
    assert_eq!(0, server.rules_len());
    assert_eq!(0, server.find_request_count());
    assert_eq!(Code::Unimplemented, send(&mut server, "/a", &[]).status);
    assert!(server.shutdown().is_ok());
}

#[test]
fn the_earliest_matching_rule_answers() {
    let mut server = started(50062);
    let first = server
        .setup(MockBuilder::given("/a").return_status(Code::NotFound))
        .unwrap();
    let second = server
        .setup(MockBuilder::given("/a").return_status(Code::Internal))
        .unwrap();

    for _ in 0..3 {
        assert_eq!(Code::NotFound, send(&mut server, "/a", &[]).status);
    }

    assert_eq!(3, server.find(&first).unwrap().len());
    assert_eq!(0, server.find(&second).unwrap().len());
    assert_eq!(3, server.find_request_count());
    assert_eq!(1, server.rules_unmatched());
}

#[test]
fn a_rule_with_headers_needs_each_of_them() {
    let rule = MockBuilder::when()
        .path("/a")
        .header("x-one", "1")
        .header("X-Two", "2")
        .then()
        .return_status(Code::Okay);
    let mut server = started(50063);
    let handle = server.setup(rule).unwrap();

    let port = server.port();
    let both = request(port, "/a", &[("x-one", "1"), ("x-two", "2"), ("x-three", "3")]);
    assert!(handle.matches("/a", &both.headers));
    assert!(!handle.matches("/b", &both.headers));
    assert!(!handle.matches("/a", &request(port, "/a", &[("x-one", "1")]).headers));
    assert!(!handle.matches("/a", &request(port, "/a", &[("x-one", "1"), ("x-two", "3")]).headers));
    assert!(!handle.matches("/a", &HeaderMap::new()));

    assert_eq!(
        Code::Unimplemented,
        send(&mut server, "/a", &[("x-one", "1")]).status
    );
    assert_eq!(
        Code::Okay,
        send(&mut server, "/a", &[("x-two", "2"), ("x-one", "1")]).status
    );
    assert_eq!(1, server.find_request_count());
}

#[test]
fn only_the_first_value_of_a_repeated_header_counts() {
    let rule = MockBuilder::when()
        .path("/a")
        .header("x-id", "second")
        .then()
        .return_status(Code::Okay);
    let mut headers = HeaderMap::new();
    headers.append("x-id", "first".parse().unwrap());
    headers.append("x-id", "second".parse().unwrap());
    let handle: MockBuilder = wiremock_grpc::Mountable::into_rule(rule);
    assert!(!handle.matches("/a", &headers));
}

#[test]
fn find_twice_gives_the_same_requests() {
    let mut server = started(50064);
    let rule = server
        .setup(MockBuilder::given("/a").return_status(Code::Okay))
        .unwrap();
    let _ = send(&mut server, "/a", &[("x-n", "1")]);
    let _ = send(&mut server, "/a", &[("x-n", "2")]);

    let first = server.find(&rule).unwrap();
    let second = server.find(&rule).unwrap();
    assert_eq!(2, first.len());
    assert_eq!(first.len(), second.len());
    for (a, b) in first.iter().zip(second.iter()) {
        assert_eq!(a.uri, b.uri);
        assert_eq!(a.method, b.method);
        assert_eq!(a.headers, b.headers);
    }
    assert_eq!("1", first[0].headers.get("x-n").unwrap());
    assert_eq!("2", first[1].headers.get("x-n").unwrap());
}

#[test]
fn a_rule_is_found_by_path_status_and_body_alone() {
    let mut server = started(50065);
    let with_header = server
        .setup(
            MockBuilder::when()
                .path("/a")
                .header("x-id", "1")
                .then()
                .return_status(Code::Okay),
        )
        .unwrap();
    let plain = MockBuilder::given("/a").return_status(Code::Okay);
    assert!(with_header == plain);
    assert!(server.find(&plain).is_some());

    assert!(server
        .find(&MockBuilder::given("/a").return_status(Code::Internal))
        .is_none());
    assert!(server
        .find(&MockBuilder::given("/b").return_status(Code::Okay))
        .is_none());
    assert!(server
        .find(&MockBuilder::given("/a").return_status(Code::Okay).return_body(vec![1]))
        .is_none());
}
