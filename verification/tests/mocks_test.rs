use tonic::codegen::http::{HeaderName, HeaderValue};
use wiremock_grpc::headers::{is_valid_header_name, is_valid_header_value};
use wiremock_grpc::invocations::FindError;
use wiremock_grpc::{Code, GrpcServer, MockBuilder, RequestItem, SetupError, Then};

fn hello_reply(message: &str) -> Vec<u8> {
    prost::Message::encode_to_vec(&String::from(message))
}

fn request(path: &str) -> RequestItem {
    RequestItem {
        headers: tonic::codegen::http::HeaderMap::new(),
        method: "POST".to_string(),
        uri: format!("http://[::1]:1{}", path),
    }
}

#[test]
#[should_panic(expected = "Server terminated with unmatched rules: \n/")]
fn mocks_test_mock_builder() {
    let mut server = GrpcServer::new(50070);
    server.mark_started();

    server
        .setup(
            MockBuilder::when()
                .path("/")
                .then()
                .return_status(Code::AlreadyExists),
        )
        .unwrap();

    server
        .setup(
            MockBuilder::when()
                .path("/")
                .then()
                .return_status(Code::AlreadyExists)
                .return_body(hello_reply("Hello")),
        )
        .unwrap();

    if let Err(unmatched) = server.shutdown() {
        panic!("{}", unmatched.message());
    }
}

#[test]
#[should_panic(
    expected = "You must set one or more condition to match (eg. `.when().path(/* ToDo */).then()`)"
)]
fn invalid_mock_builder() {
    let when = MockBuilder::when();
    if !when.validate() {
        panic!("You must set one or more condition to match (eg. `.when().path(/* ToDo */).then()`)");
    }
    when.then();
}

#[test]
fn a_path_makes_the_match_side_valid() {
    assert!(!MockBuilder::when().validate());
    assert!(!MockBuilder::when().header("x-id", "1").validate());
    assert!(MockBuilder::when().path("/a").validate());
    assert!(MockBuilder::when().path("/a").header("x-id", "1").validate());
}

#[test]
fn a_rule_without_status_and_body_is_refused() {
    let mut server = GrpcServer::new(50071);
    let refused = server.setup(MockBuilder::given("/a"));
    assert_eq!(Some(SetupError::ResponseNotSet), refused.err());
    assert_eq!(0, server.rules_len());
    assert_eq!(
        Code::Unimplemented,
        server.handle_request("/a", request("/a")).status
    );

    let refused = server.setup(MockBuilder::when().path("/a").then());
    assert_eq!(Some(SetupError::ResponseNotSet), refused.err());
    let refused = server.setup(MockBuilder::given("/a").return_header("x-a", "b"));
    assert_eq!(Some(SetupError::ResponseNotSet), refused.err());
    assert_eq!(0, server.rules_len());
    assert_eq!(
        "Must set the status code or body before attempting to mount the rule.",
        SetupError::ResponseNotSet.message()
    );
}

#[test]
fn a_status_or_a_body_is_enough_to_register() {
    let mut server = GrpcServer::new(50072);
    assert!(server
        .setup(MockBuilder::given("/a").return_status(Code::Okay))
        .is_ok());
    assert!(server
        .setup(MockBuilder::given("/b").return_body(Vec::new()))
        .is_ok());
    assert_eq!(2, server.rules_len());
    assert_eq!(2, server.rules_unmatched());
}

#[test]
fn find_one_tells_its_failures_apart() {
    let mut server = GrpcServer::new(50073);
    let rule = server
        .setup(MockBuilder::given("/a").return_status(Code::Okay))
        .unwrap();
    let stranger = MockBuilder::given("/other").return_status(Code::Okay);

    assert_eq!(Some(FindError::NotRegistered), server.try_find_one(&stranger).err());
    assert_eq!(Some(FindError::NoRequest), server.try_find_one(&rule).err());

    let _ = server.handle_request("/a", request("/a"));
    assert_eq!("http://[::1]:1/a", server.try_find_one(&rule).unwrap().uri);
    assert_eq!("http://[::1]:1/a", server.find_one(&rule).uri);

    let _ = server.handle_request("/a", request("/a"));
    assert_eq!(Some(FindError::MoreThanOne), server.try_find_one(&rule).err());

    assert_eq!(
        "No request maching the given criteria.",
        FindError::NoRequest.message()
    );
    assert_eq!(
        "More then one request matching the criteria.",
        FindError::MoreThanOne.message()
    );
    assert_eq!(
        "The given MockBuilder is not registered with the mock server.",
        FindError::NotRegistered.message()
    );
}

#[test]
fn the_count_of_a_rule_is_the_number_of_its_requests() {
    let mut server = GrpcServer::new(50074);
    let a = server
        .setup(MockBuilder::given("/a").return_status(Code::Okay))
        .unwrap();
    let b = server
        .setup(MockBuilder::given("/b").return_status(Code::Okay))
        .unwrap();
    for _ in 0..5 {
        let _ = server.handle_request("/a", request("/a"));
    }
    for _ in 0..2 {
        let _ = server.handle_request("/b", request("/b"));
    }
    let _ = server.handle_request("/c", request("/c"));

    assert_eq!(5, server.find(&a).unwrap().len());
    assert_eq!(2, server.find(&b).unwrap().len());
    assert_eq!(7, server.find_request_count());
    assert_eq!(0, server.rules_unmatched());
}

#[test]
fn the_last_status_and_body_win() {
    let rule = MockBuilder::given("/a")
        .return_status(Code::Internal)
        .return_status(Code::Unavailable)
        .return_body(vec![1])
        .return_body(vec![2, 3]);
    let reply = rule.reply();
    assert_eq!(Code::Unavailable, reply.status);
    assert_eq!(Some(vec![2, 3]), reply.body);
}

#[test]
fn a_header_set_twice_keeps_its_place_and_the_last_value() {
    let rule = MockBuilder::given("/a")
        .return_header("x-a", "1")
        .return_header("x-b", "2")
        .return_header("X-A", "3")
        .return_status(Code::Okay);
    let reply = rule.reply();
    let pairs: Vec<(String, Vec<u8>)> = reply
        .headers
        .iter()
        .map(|(name, value)| (name.as_str().to_string(), value.as_bytes().to_vec()))
        .collect();
    assert_eq!(
        vec![
            ("x-a".to_string(), b"3".to_vec()),
            ("x-b".to_string(), b"2".to_vec())
        ],
        pairs
    );
    assert_eq!(2, wiremock_grpc::headers::header_count(&reply.headers));
    assert_eq!(2, rule.response_header_count());
    assert_eq!(0, MockBuilder::when().header_count());
    assert_eq!(
        1,
        MockBuilder::when().header("a", "1").header("A", "2").header_count()
    );
}

#[test]
fn a_copy_of_a_rule_matches_what_the_rule_matches() {
    let rule = wiremock_grpc::Mountable::into_rule(
        MockBuilder::when()
            .path("/a")
            .header("x-id", "7")
            .then()
            .return_status(Code::Okay),
    );
    let copy = rule.clone();
    let mut headers = tonic::codegen::http::HeaderMap::new();
    assert!(!copy.matches("/a", &headers));
    headers.insert("x-id", "7".parse().unwrap());
    assert!(copy.matches("/a", &headers));
    assert!(rule.matches("/a", &headers));
    assert!(copy == rule);
    assert_eq!("/a", copy.path());
}

#[test]
fn header_names_and_values_are_checked() {
    assert!(is_valid_header_name("session-id"));
    assert!(is_valid_header_name("X-RateLimit-Remaining"));
    assert!(is_valid_header_name("a"));
    assert!(!is_valid_header_name(""));
    assert!(!is_valid_header_name("with space"));
    assert!(!is_valid_header_name("colon:"));
    assert!(!is_valid_header_name("na\u{ef}ve"));
    assert!(is_valid_header_name(&"a".repeat(65535)));
    assert!(!is_valid_header_name(&"a".repeat(65536)));
    assert!(is_valid_header_value(""));
    assert!(is_valid_header_value("mock1"));
    assert!(is_valid_header_value("a\tb c"));
    assert!(is_valid_header_value("na\u{ef}ve"));
    assert!(!is_valid_header_value("line\nbreak"));
    assert!(!is_valid_header_value("del\u{7f}"));
}

#[test]
fn the_checks_agree_with_the_header_types() {
    for code in 0u32..0x250 {
        let c = char::from_u32(code).unwrap();
        let text = format!("a{}b", c);
        assert_eq!(
            HeaderName::from_bytes(text.as_bytes()).is_ok(),
            is_valid_header_name(&text),
            "name with {:?}",
            c
        );
        assert_eq!(
            HeaderValue::from_str(&text).is_ok(),
            is_valid_header_value(&text),
            "value with {:?}",
            c
        );
    }
}

#[test]
fn codes_have_their_wire_numbers() {
    let pairs = [
        (Code::Okay, tonic::Code::Ok),
        (Code::Cancelled, tonic::Code::Cancelled),
        (Code::Unknown, tonic::Code::Unknown),
        (Code::InvalidArgument, tonic::Code::InvalidArgument),
        (Code::DeadlineExceeded, tonic::Code::DeadlineExceeded),
        (Code::NotFound, tonic::Code::NotFound),
        (Code::AlreadyExists, tonic::Code::AlreadyExists),
        (Code::PermissionDenied, tonic::Code::PermissionDenied),
        (Code::ResourceExhausted, tonic::Code::ResourceExhausted),
        (Code::FailedPrecondition, tonic::Code::FailedPrecondition),
        (Code::Aborted, tonic::Code::Aborted),
        (Code::OutOfRange, tonic::Code::OutOfRange),
        (Code::Unimplemented, tonic::Code::Unimplemented),
        (Code::Internal, tonic::Code::Internal),
        (Code::Unavailable, tonic::Code::Unavailable),
        (Code::DataLoss, tonic::Code::DataLoss),
        (Code::Unauthenticated, tonic::Code::Unauthenticated),
    ];
    for (i, (ours, theirs)) in pairs.iter().enumerate() {
        assert_eq!(i as u32, ours.number());
        assert_eq!(*theirs as u32, ours.number());
    }
}

#[test]
fn a_rule_may_ask_for_headers_up_to_the_limit() {
    let mut when = MockBuilder::when().path("/a");
    let mut request = tonic::codegen::http::HeaderMap::new();
    let mut i = 0;
    while when.header_count() <= wiremock_grpc::headers::MAX_HEADERS {
        let name = format!("x-{}", i);
        when = when.header(&name, "v");
        request.insert(HeaderName::from_bytes(name.as_bytes()).unwrap(), "v".parse().unwrap());
        i += 1;
    }
    assert_eq!(6554, when.header_count());
    let rule = wiremock_grpc::Mountable::into_rule(when.then().return_status(Code::Okay));
    assert!(rule.matches("/a", &request));
    request.remove("x-6553");
    assert!(!rule.matches("/a", &request));
}
