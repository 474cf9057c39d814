use http_router::method::Method;
use http_router::text::same_text;

const ALL: [Method; 9] = [
    Method::GET,
    Method::POST,
    Method::PUT,
    Method::PATCH,
    Method::DELETE,
    Method::OPTIONS,
    Method::HEAD,
    Method::CONNECT,
    Method::TRACE,
];

#[test]
fn each_method_has_its_token() {
    assert_eq!(Method::GET.name(), "GET");
    assert_eq!(Method::POST.name(), "POST");
    assert_eq!(Method::PUT.name(), "PUT");
    assert_eq!(Method::PATCH.name(), "PATCH");
    assert_eq!(Method::DELETE.name(), "DELETE");
    assert_eq!(Method::OPTIONS.name(), "OPTIONS");
    assert_eq!(Method::HEAD.name(), "HEAD");
    assert_eq!(Method::CONNECT.name(), "CONNECT");
    assert_eq!(Method::TRACE.name(), "TRACE");
}

#[test]
fn a_token_reads_back_as_its_method() {
    for m in ALL.iter() {
        assert_eq!(Method::from_name(m.name()), Some(*m));
    }
}

#[test]
fn other_text_is_no_method() {
    assert_eq!(Method::from_name(""), None);
    assert_eq!(Method::from_name("get"), None);
    assert_eq!(Method::from_name("GET "), None);
    assert_eq!(Method::from_name("GE"), None);
    assert_eq!(Method::from_name("GETS"), None);
    assert_eq!(Method::from_name("PROPFIND"), None);
}

#[test]
fn methods_are_equal_only_to_themselves() {
    for (i, a) in ALL.iter().enumerate() {
        for (j, b) in ALL.iter().enumerate() {
            assert_eq!(a == b, i == j);
        }
    }
}

#[test]
fn texts_are_the_same_when_their_characters_are() {
    assert!(same_text("", ""));
    assert!(same_text("/", "/"));
    assert!(same_text("abc", "abc"));
    assert!(same_text("\u{17c}x", "\u{17c}x"));
    assert!(!same_text("abc", "abd"));
    assert!(!same_text("abc", "ab"));
    assert!(!same_text("ab", "abc"));
    assert!(!same_text("", "/"));
    assert!(!same_text("/", ""));
}
