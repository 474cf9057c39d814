use http_router::param::ParamType;
use http_router::pattern::{
    captured_params, create_regex, match_source, pattern_source, PatternCache,
};
use http_router::template::{PathTemplate, Segment, TemplateError};

fn lit(text: &str) -> Segment {
    Segment::Literal(text.to_string())
}

fn param(name: &str, ty: ParamType) -> Segment {
    Segment::Placeholder { name: name.to_string(), ty }
}

fn groups(items: &[Option<&str>]) -> Vec<Option<String>> {
    items.iter().map(|g| g.map(|s| s.to_string())).collect()
}

#[test]
fn the_root_template_has_the_source_of_the_root_path() {
    assert_eq!(pattern_source(&PathTemplate::root()), "^/$");
    assert_eq!(pattern_source(&PathTemplate::new(Vec::new()).unwrap()), "^/$");
}

#[test]
fn segments_follow_one_another_behind_slashes() {
    let t = PathTemplate::new(vec![lit("users")]).unwrap();
    assert_eq!(pattern_source(&t), "^/users$");
    let t = PathTemplate::new(vec![lit("users"), param("id", ParamType::U32)]).unwrap();
    assert_eq!(pattern_source(&t), "^/users/([\\w-]+)$");
    let t = PathTemplate::new(vec![
        lit("users"),
        param("id", ParamType::U32),
        lit("transactions"),
        param("hash", ParamType::Text),
    ])
    .unwrap();
    assert_eq!(pattern_source(&t), "^/users/([\\w-]+)/transactions/([\\w-]+)$");
}

#[test]
fn meta_characters_of_a_literal_are_escaped() {
    let t = PathTemplate::new(vec![lit("a.b")]).unwrap();
    assert_eq!(pattern_source(&t), "^/a\\.b$");
    let t = PathTemplate::new(vec![lit("v1+2"), lit("x-y")]).unwrap();
    assert_eq!(pattern_source(&t), "^/v1\\+2/x\\-y$");
    let t = PathTemplate::new(vec![lit("(.*)")]).unwrap();
    assert_eq!(pattern_source(&t), "^/\\(\\.\\*\\)$");
}

#[test]
fn a_placeholder_without_a_name_is_rejected() {
    let r = PathTemplate::new(vec![lit("users"), param("", ParamType::U32)]);
    assert_eq!(r, Err(TemplateError::UnnamedPlaceholder(1)));
    let r = PathTemplate::new(vec![
        param("a", ParamType::Text),
        param("", ParamType::Text),
        param("", ParamType::U8),
    ]);
    assert_eq!(r, Err(TemplateError::UnnamedPlaceholder(1)));
    let r = PathTemplate::new(vec![param("", ParamType::Text)]);
    assert_eq!(r, Err(TemplateError::UnnamedPlaceholder(0)));
}

#[test]
fn an_empty_literal_is_allowed() {
    let t = PathTemplate::new(vec![lit("")]).unwrap();
    assert_eq!(t.len(), 1);
    assert!(!t.is_root());
    assert_eq!(pattern_source(&t), "^/$");
}

#[test]
fn a_template_knows_its_segments_and_types() {
    let segments = vec![
        lit("users"),
        param("id", ParamType::U32),
        lit("transactions"),
        param("hash", ParamType::Text),
    ];
    let t = PathTemplate::new(segments.clone()).unwrap();
    assert_eq!(t.len(), 4);
    assert!(!t.is_root());
    assert_eq!(t.segments(), &segments);
    assert_eq!(t.param_types(), vec![ParamType::U32, ParamType::Text]);
    assert!(PathTemplate::root().is_root());
    assert_eq!(PathTemplate::root().len(), 0);
    assert_eq!(PathTemplate::root().param_types(), Vec::<ParamType>::new());
}

#[test]
fn a_match_gives_the_whole_match_and_each_group() {
    let mut cache = PatternCache::new();
    let r = match_source(&mut cache, "^/users/([\\w-]+)$", "/users/12");
    assert_eq!(r, Some(groups(&[Some("/users/12"), Some("12")])));
    let r = match_source(&mut cache, "^/users/([\\w-]+)/tx/([\\w-]+)$", "/users/42/tx/0xabc");
    assert_eq!(r, Some(groups(&[Some("/users/42/tx/0xabc"), Some("42"), Some("0xabc")])));
    let r = match_source(&mut cache, "^/(a)?(b)$", "/b");
    assert_eq!(r, Some(groups(&[Some("/b"), None, Some("b")])));
}

#[test]
fn no_match_gives_none() {
    let mut cache = PatternCache::new();
    assert_eq!(match_source(&mut cache, "^/users/([\\w-]+)$", "/users"), None);
    assert_eq!(match_source(&mut cache, "^/users/([\\w-]+)$", "/users/12/x"), None);
    assert_eq!(match_source(&mut cache, "^/users$", "/users/"), None);
    assert_eq!(match_source(&mut cache, "^/users$", "x/users"), None);
}

#[test]
fn a_source_that_does_not_compile_matches_nothing() {
    let mut cache = PatternCache::new();
    assert_eq!(match_source(&mut cache, "(", "("), None);
    assert_eq!(cache.len(), 0);
    assert!(!cache.contains("("));
    assert!(create_regex(&mut cache, "(").is_none());
    assert!(create_regex(&mut cache, "[a").is_none());
    assert_eq!(cache.len(), 0);
}

#[test]
fn the_cache_keeps_each_compiled_expression_once() {
    let mut cache = PatternCache::new();
    assert_eq!(cache.len(), 0);
    assert!(cache.get("^/users$").is_none());
    {
        let re = create_regex(&mut cache, "^/users$").unwrap();
        assert_eq!(re.as_str(), "^/users$");
        assert!(re.is_match("/users"));
        assert!(!re.is_match("/other"));
    }
    assert_eq!(cache.len(), 1);
    assert!(cache.contains("^/users$"));
    assert_eq!(cache.get("^/users$").unwrap().as_str(), "^/users$");
    {
        let re = create_regex(&mut cache, "^/users$").unwrap();
        assert_eq!(re.as_str(), "^/users$");
    }
    assert_eq!(cache.len(), 1);
    {
        let re = create_regex(&mut cache, "^/other$").unwrap();
        assert_eq!(re.as_str(), "^/other$");
        assert!(re.is_match("/other"));
    }
    assert_eq!(cache.len(), 2);
    assert!(cache.contains("^/users$"));
    assert!(cache.contains("^/other$"));
    assert!(!cache.contains("^/third$"));
}

#[test]
fn matching_is_the_same_with_and_without_a_cached_expression() {
    let source = "^/users/([\\w-]+)$";
    let texts = ["/users/12", "/users", "/users/a-b", "/users/a/b", "", "/"];
    let mut warm = PatternCache::new();
    let _ = match_source(&mut warm, source, "/users/1");
    for text in texts.iter() {
        let mut cold = PatternCache::new();
        assert_eq!(match_source(&mut cold, source, text), match_source(&mut warm, source, text));
    }
    assert_eq!(warm.len(), 1);
}

#[test]
fn captured_params_drop_the_whole_match_and_absent_groups() {
    assert_eq!(captured_params(&groups(&[])), Vec::<String>::new());
    assert_eq!(captured_params(&groups(&[Some("/users")])), Vec::<String>::new());
    assert_eq!(
        captured_params(&groups(&[Some("/users/12"), Some("12")])),
        vec!["12".to_string()]
    );
    assert_eq!(
        captured_params(&groups(&[Some("/b"), None, Some("b"), None, Some("c")])),
        vec!["b".to_string(), "c".to_string()]
    );
    assert_eq!(captured_params(&groups(&[None, Some("x")])), vec!["x".to_string()]);
}
