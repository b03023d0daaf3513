use wiremock_grpc::parser::{
    first_filled_piece, parse_dependencies, parse_svc_name, service_name_in, split_on,
    Dependency, ManifestDependency,
};

const SOURCE: &str = "impl<T, B> Service<http::Request<B>> for GreeterServer<T> {\n    fn call(&mut self, req: http::Request<B>) -> Self::Future {\n        match req.uri().path() {\n            \"/hello.Greeter/SayHello\" => {\n                todo\n            }\n            \"/hello.Greeter/WeatherInfo\" => {\n            }\n            _ => {}\n        }\n    }\n}\n";

#[test]
fn the_service_name_is_the_first_part_of_the_first_path() {
    assert_eq!(Some("hello.Greeter".to_string()), parse_svc_name(SOURCE, 0));
    assert_eq!(Some("hello.Greeter".to_string()), parse_svc_name(SOURCE, 3));
    assert_eq!(Some("hello.Greeter".to_string()), parse_svc_name(SOURCE, 6));
    assert_eq!(None, parse_svc_name(SOURCE, 7));
    assert_eq!(None, parse_svc_name(SOURCE, 1000));
    assert_eq!(None, parse_svc_name("", 0));
}

#[test]
fn only_the_arm_of_a_path_counts() {
    assert_eq!(None, parse_svc_name(" \"hello.Greeter/SayHello\" => {", 0));
    assert_eq!(None, parse_svc_name(" \"/hello.Greeter/SayHello\" => { }", 0));
    assert_eq!(None, parse_svc_name("\"/hello.Greeter/SayHello\" => {", 0));
    assert_eq!(None, parse_svc_name(" \"/\" => {", 0));
    assert_eq!(
        Some("other".to_string()),
        parse_svc_name(" \"/\" => {\n \"//other/x\" => {", 0)
    );
    assert_eq!(Some("a.B".to_string()), parse_svc_name("\t\"/a.B\" => {", 0));
}

#[test]
fn the_name_is_taken_from_the_first_group_that_has_one() {
    assert_eq!(None, service_name_in(&Vec::new()));
    assert_eq!(None, service_name_in(&vec![None, Some("//".to_string())]));
    assert_eq!(
        Some("b".to_string()),
        service_name_in(&vec![None, Some("/".to_string()), Some("/b/c".to_string())])
    );
    assert_eq!(
        Some("x".to_string()),
        service_name_in(&vec![Some("x".to_string()), Some("/y".to_string())])
    );
}

#[test]
fn a_text_is_cut_at_each_separator() {
    assert_eq!(vec![""], split_on("", '/'));
    assert_eq!(vec!["a"], split_on("a", '/'));
    assert_eq!(vec!["", "a", "", "b", ""], split_on("/a//b/", '/'));
    assert_eq!(vec!["a", "b", ""], split_on("a\nb\n", '\n'));
    for text in ["", "/", "a/b", "//x//", "no separator", "\u{e9}/\u{e9}"] {
        let expected: Vec<String> = text.split('/').map(|s| s.to_string()).collect();
        assert_eq!(expected, split_on(text, '/'));
    }
    assert_eq!(None, first_filled_piece(&split_on("///", '/')));
    assert_eq!(
        Some("x".to_string()),
        first_filled_piece(&split_on("//x/y", '/'))
    );
}

#[test]
fn dependencies_are_sorted_by_where_they_come_from() {
    let entries = vec![
        ("tonic".to_string(), ManifestDependency::Simple("0.8".to_string())),
        (
            "wiremock-grpc".to_string(),
            ManifestDependency::WithPath("../lib".to_string(), true),
        ),
        (
            "gone".to_string(),
            ManifestDependency::WithPath("../gone".to_string(), false),
        ),
        ("tokio".to_string(), ManifestDependency::WithoutPath),
    ];
    let deps = parse_dependencies(entries);
    assert_eq!(3, deps.len());
    assert!(matches!(&deps[0], Dependency::Remote(v) if v == "0.8"));
    assert!(matches!(&deps[1], Dependency::Local(n, p) if n == "wiremock-grpc" && p == "../lib"));
    assert!(matches!(&deps[2], Dependency::Remote(n) if n == "tokio"));
    assert!(parse_dependencies(Vec::new()).is_empty());
}
