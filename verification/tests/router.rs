use http_router::Method;
use http_router::param::{ParamType, ParamValue};
use http_router::pattern::PatternCache;
use http_router::router::Router;
use http_router::template::{PathTemplate, Segment};

type Handler<R> = Box<dyn Fn((), Vec<ParamValue>) -> R>;
type Fallback<R> = Box<dyn Fn(()) -> R>;

fn lit(text: &str) -> Segment {
    Segment::Literal(text.to_string())
}

fn param(name: &str, ty: ParamType) -> Segment {
    Segment::Placeholder { name: name.to_string(), ty }
}

fn template(segments: Vec<Segment>) -> PathTemplate {
    PathTemplate::new(segments).unwrap()
}

fn uint(value: &ParamValue) -> u32 {
    match value {
        ParamValue::Unsigned(n) => *n as u32,
        other => panic!("not an unsigned integer: {:?}", other),
    }
}

fn text(value: &ParamValue) -> String {
    match value {
        ParamValue::Text(s) => s.clone(),
        other => panic!("not a text: {:?}", other),
    }
}

fn concat(params: Vec<ParamValue>) -> String {
    let mut out = String::new();
    for p in params.iter() {
        out.push_str(&text(p));
    }
    out
}

#[test]
fn test_real_life() {
    let fallback: Fallback<String> = Box::new(|_| "404".to_string());
    let mut router: Router<Handler<String>, Fallback<String>> = Router::new(fallback);
    router.add(Method::GET, PathTemplate::root(), Box::new(|_, _| "get_users".to_string()));
    router.add(Method::GET, template(vec![lit("users")]), Box::new(|_, _| "get_users".to_string()));
    router.add(Method::POST, template(vec![lit("users")]), Box::new(|_, _| "post_users".to_string()));
    router.add(
        Method::PATCH,
        template(vec![lit("users"), param("user_id", ParamType::U32)]),
        Box::new(|_, p| format!("patch_users({})", uint(&p[0]))),
    );
    router.add(
        Method::DELETE,
        template(vec![lit("users"), param("user_id", ParamType::U32)]),
        Box::new(|_, p| format!("delete_users({})", uint(&p[0]))),
    );
    router.add(
        Method::GET,
        template(vec![lit("users"), param("user_id", ParamType::U32), lit("transactions")]),
        Box::new(|_, p| format!("get_transactions({})", uint(&p[0]))),
    );
    router.add(
        Method::POST,
        template(vec![lit("users"), param("user_id", ParamType::U32), lit("transactions")]),
        Box::new(|_, p| format!("post_transactions({})", uint(&p[0]))),
    );
    router.add(
        Method::PATCH,
        template(vec![
            lit("users"),
            param("user_id", ParamType::U32),
            lit("transactions"),
            param("hash", ParamType::Text),
        ]),
        Box::new(|_, p| format!("patch_transactions({}, {})", uint(&p[0]), text(&p[1]))),
    );
    router.add(
        Method::DELETE,
        template(vec![
            lit("users"),
            param("user_id", ParamType::U32),
            lit("transactions"),
            param("hash", ParamType::Text),
        ]),
        Box::new(|_, p| format!("delete_transactions({}, {})", uint(&p[0]), text(&p[1]))),
    );
    let test_cases = [
        (Method::GET, "/", "get_users"),
        (Method::GET, "/users", "get_users"),
        (Method::POST, "/users", "post_users"),
        (Method::PATCH, "/users/12", "patch_users(12)"),
        (Method::DELETE, "/users/132134", "delete_users(132134)"),
        (Method::GET, "/users/534/transactions", "get_transactions(534)"),
        (Method::POST, "/users/534/transactions", "post_transactions(534)"),
        (Method::PATCH, "/users/534/transactions/0x234", "patch_transactions(534, 0x234)"),
        (Method::DELETE, "/users/534/transactions/0x234", "delete_transactions(534, 0x234)"),
        (Method::DELETE, "/users/5d34/transactions/0x234", "404"),
        (Method::POST, "/users/534/transactions/0x234", "404"),
        (Method::GET, "/u", "404"),
        (Method::POST, "/", "404"),
    ];
    let mut cache = PatternCache::new();
    for test_case in test_cases.iter() {
        let (method, path, expected) = test_case.clone();
        assert_eq!(router.dispatch(&mut cache, (), method.clone(), path), expected.to_string());
    }
    // The same requests again, in another order, against the cache as the
    // first round left it.
    for round in 0..300usize {
        let (method, path, expected) = test_cases[(round * 7 + 3) % test_cases.len()];
        assert_eq!(router.dispatch(&mut cache, (), method.clone(), path), expected.to_string());
    }
}

#[test]
fn test_home() {
    let fallback: Fallback<&'static str> = Box::new(|_| unreachable!());
    let mut router: Router<Handler<&'static str>, Fallback<&'static str>> = Router::new(fallback);
    router.add(Method::GET, PathTemplate::root(), Box::new(|_, _| "get_home"));
    let mut cache = PatternCache::new();
    assert_eq!(router.dispatch(&mut cache, (), Method::GET, "/"), "get_home");
}

#[test]
fn test_fallback() {
    let fallback: Fallback<&'static str> = Box::new(|_| "fallback");
    let mut router: Router<Handler<&'static str>, Fallback<&'static str>> = Router::new(fallback);
    router.add(Method::GET, PathTemplate::root(), Box::new(|_, _| "home"));
    router.add(Method::POST, template(vec![lit("users")]), Box::new(|_, _| "users"));
    let mut cache = PatternCache::new();
    assert_eq!(router.dispatch(&mut cache, (), Method::GET, "/"), "home");
    assert_eq!(router.dispatch(&mut cache, (), Method::POST, "/users"), "users");
    assert_eq!(router.dispatch(&mut cache, (), Method::GET, "/users"), "fallback");
    assert_eq!(router.dispatch(&mut cache, (), Method::GET, "/us"), "fallback");
    assert_eq!(router.dispatch(&mut cache, (), Method::PATCH, "/"), "fallback");
}

#[test]
fn test_verbs() {
    let fallback: Fallback<Method> = Box::new(|_| unreachable!());
    let mut router: Router<Handler<Method>, Fallback<Method>> = Router::new(fallback);
    router.add(Method::GET, template(vec![lit("users")]), Box::new(|_, _| Method::GET));
    router.add(Method::POST, template(vec![lit("users")]), Box::new(|_, _| Method::POST));
    router.add(Method::PUT, template(vec![lit("users")]), Box::new(|_, _| Method::PUT));
    router.add(Method::PATCH, template(vec![lit("users")]), Box::new(|_, _| Method::PATCH));
    router.add(Method::DELETE, template(vec![lit("users")]), Box::new(|_, _| Method::DELETE));
    router.add(Method::OPTIONS, template(vec![lit("users")]), Box::new(|_, _| Method::OPTIONS));
    router.add(Method::CONNECT, template(vec![lit("users")]), Box::new(|_, _| Method::CONNECT));
    router.add(Method::TRACE, template(vec![lit("users")]), Box::new(|_, _| Method::TRACE));
    router.add(Method::HEAD, template(vec![lit("users")]), Box::new(|_, _| Method::HEAD));
    let mut cache = PatternCache::new();

    assert_eq!(router.dispatch(&mut cache, (), Method::GET, "/users"), Method::GET);
    assert_eq!(router.dispatch(&mut cache, (), Method::POST, "/users"), Method::POST);
    assert_eq!(router.dispatch(&mut cache, (), Method::PUT, "/users"), Method::PUT);
    assert_eq!(router.dispatch(&mut cache, (), Method::PATCH, "/users"), Method::PATCH);
    assert_eq!(router.dispatch(&mut cache, (), Method::DELETE, "/users"), Method::DELETE);
    assert_eq!(router.dispatch(&mut cache, (), Method::OPTIONS, "/users"), Method::OPTIONS);
    assert_eq!(router.dispatch(&mut cache, (), Method::TRACE, "/users"), Method::TRACE);
    assert_eq!(router.dispatch(&mut cache, (), Method::CONNECT, "/users"), Method::CONNECT);
    assert_eq!(router.dispatch(&mut cache, (), Method::HEAD, "/users"), Method::HEAD);
}

#[test]
fn test_params_number() {
    let fallback: Fallback<String> = Box::new(|_| unreachable!());
    let mut router: Router<Handler<String>, Fallback<String>> = Router::new(fallback);
    let names = ["users", "users2", "users3", "users4", "users5", "users6", "users7"];
    let params = ["first", "second", "third", "fourth", "fifth", "sixth", "seventh"];
    router.add(Method::GET, template(vec![lit("users")]), Box::new(|_, _| String::new()));
    for count in 1..=7usize {
        let mut segments = Vec::new();
        for k in 0..count {
            segments.push(lit(names[k]));
            segments.push(param(params[k], ParamType::Text));
        }
        router.add(Method::GET, template(segments), Box::new(|_, p| concat(p)));
    }
    let mut cache = PatternCache::new();

    assert_eq!(router.dispatch(&mut cache, (), Method::GET, "/users"), "");
    assert_eq!(router.dispatch(&mut cache, (), Method::GET, "/users/id1"), "id1");
    assert_eq!(router.dispatch(&mut cache, (), Method::GET, "/users/id1/users2/id2"), "id1id2");
    assert_eq!(
        router.dispatch(&mut cache, (), Method::GET, "/users/id1/users2/id2/users3/id3"),
        "id1id2id3"
    );
    assert_eq!(
        router.dispatch(&mut cache, (), Method::GET, "/users/id1/users2/id2/users3/id3/users4/id4"),
        "id1id2id3id4"
    );
    assert_eq!(
        router.dispatch(
            &mut cache,
            (),
            Method::GET,
            "/users/id1/users2/id2/users3/id3/users4/id4/users5/id5"
        ),
        "id1id2id3id4id5"
    );
    assert_eq!(
        router.dispatch(
            &mut cache,
            (),
            Method::GET,
            "/users/id1/users2/id2/users3/id3/users4/id4/users5/id5/users6/id6"
        ),
        "id1id2id3id4id5id6"
    );
    assert_eq!(
        router.dispatch(
            &mut cache,
            (),
            Method::GET,
            "/users/id1/users2/id2/users3/id3/users4/id4/users5/id5/users6/id6/users7/id7"
        ),
        "id1id2id3id4id5id6id7"
    );
}
