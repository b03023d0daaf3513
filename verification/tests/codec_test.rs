use prost::Message;
use wiremock_grpc::startup::{StartStep, END_PORT, FIRST_PORT, START_PROBES};
use wiremock_grpc::tonic_ext::{from_decode_error, GenericProstDecoder, GenericProstEncoder};
use wiremock_grpc::naming::attach_method_name;
use wiremock_grpc::text::decimal_text;
use wiremock_grpc::{Code, GrpcServer, MockBuilder, RequestItem, Then};

#[test]
fn the_encoder_appends_the_bytes_as_they_are() {
    let mut encoder = GenericProstEncoder::default();
    let mut buf = vec![9u8];
    assert!(encoder.encode(vec![1, 2, 3], &mut buf).is_ok());
    assert!(encoder.encode(Vec::new(), &mut buf).is_ok());
    assert!(encoder.encode(vec![4], &mut buf).is_ok());
    assert_eq!(vec![9u8, 1, 2, 3, 4], buf);
}

#[test]
fn the_decoder_reads_one_field_of_bytes() {
    let mut decoder = GenericProstDecoder::default();
    let wire = vec![7u8, 8, 9].encode_to_vec();
    assert_eq!(vec![0x0au8, 3, 7, 8, 9], wire);
    assert_eq!(Some(vec![7u8, 8, 9]), decoder.decode(&wire).unwrap());
    assert_eq!(Some(Vec::new()), decoder.decode(&[]).unwrap());
}

#[test]
fn bytes_that_are_no_message_give_an_internal_status() {
    let mut decoder = GenericProstDecoder::default();
    let status = decoder.decode(&[0x0a, 5, 1]).unwrap_err();
    assert_eq!(Code::Internal, status.code);
    assert_eq!(
        "failed to decode Protobuf message: buffer underflow",
        status.message
    );

    let error = Vec::<u8>::decode(&[0xffu8][..]).unwrap_err();
    let text = error.to_string();
    let status = from_decode_error(error);
    assert_eq!(Code::Internal, status.code);
    assert_eq!(text, status.message);
    assert!(status.message.starts_with("failed to decode Protobuf message: "));
}

#[test]
fn candidate_ports_are_in_range() {
    assert_eq!(50000, FIRST_PORT);
    assert_eq!(60000, END_PORT);
    let mut seen = std::collections::HashSet::new();
    for _ in 0..200 {
        let port = GrpcServer::candidate_port();
        assert!((FIRST_PORT..END_PORT).contains(&port));
        seen.insert(port);
    }
    assert!(seen.len() > 1);
}

#[test]
fn a_port_on_which_nothing_answers_is_taken() {
    assert_eq!(Some(50123), GrpcServer::find_unused_port(50123, false));
    assert_eq!(None, GrpcServer::find_unused_port(50123, true));
}

#[test]
fn the_server_starts_on_a_connection_or_after_forty_probes() {
    assert_eq!(40, START_PROBES);
    let mut server = GrpcServer::new(1);
    for probe in 0..39 {
        assert_eq!(StartStep::ProbeAgain, server._start(probe, false));
        assert!(!server.is_started());
    }
    assert_eq!(StartStep::Started, server._start(39, false));
    assert!(server.is_started());

    let mut server = GrpcServer::new(1);
    assert_eq!(StartStep::Started, server._start(0, true));
    assert!(server.is_started());
    assert_eq!(1, server.port());

    let mut server = GrpcServer::new(1);
    assert_eq!(StartStep::Started, server._start(u32::MAX, false));
}

#[test]
fn an_answer_is_announced_by_its_status_number() {
    let pair = |a: &str, b: &str| (a.to_string(), b.to_string());
    for (code, number) in [
        (Code::Okay, "0"),
        (Code::AlreadyExists, "6"),
        (Code::Aborted, "10"),
        (Code::Unimplemented, "12"),
        (Code::Unauthenticated, "16"),
    ] {
        let mut server = GrpcServer::new(1);
        let rule = MockBuilder::given("/a").return_status(code);
        server.setup(rule.clone()).unwrap();
        let empty = server.handle_request(
            "/a",
            RequestItem {
                headers: Default::default(),
                method: "POST".to_string(),
                uri: "/a".to_string(),
            },
        );
        assert_eq!(
            vec![pair("content-type", "application/grpc"), pair("grpc-status", number)],
            empty.head()
        );
        let full = rule.return_body(vec![1]).reply();
        assert_eq!(vec![pair("grpc-status", number)], full.head());
    }
}

#[test]
fn numbers_are_written_in_decimal() {
    for n in [0u32, 7, 9, 10, 16, 99, 100, 5055, 65535, 4_000_000_000, u32::MAX] {
        assert_eq!(n.to_string(), decimal_text(n));
    }
    assert_eq!("[::1]:5055", GrpcServer::new(5055).address());
    assert_eq!("[::1]:0", GrpcServer::new(0).address());
    assert_eq!("[::1]:65535", GrpcServer::new(u16::MAX).address());
    assert_eq!("attach_order", attach_method_name("attach"));
}
