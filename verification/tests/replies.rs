use reconcile::json::{reply_text, reply_text_in, Json, ReplyError};
use reconcile::provider::Provider;

fn text(value: &str) -> Json {
    Json::Text(value.to_string())
}

fn object(fields: Vec<(&str, Json)>) -> Json {
    Json::Object(fields.into_iter().map(|(name, value)| (name.to_string(), value)).collect())
}

#[test]
fn hyperbolic_reply_holds_its_text_in_the_first_choice() {
    let body = r#"{"id":"x","choices":[{"index":0,"text":"```\nfoo\n```"}],"usage":{"n":3}}"#;
    assert_eq!(reply_text(Provider::Hyperbolic, body), Ok(Some("```\nfoo\n```".to_string())));
    assert_eq!(reply_text(Provider::OpenRouter, body), Ok(None));
}

#[test]
fn openrouter_reply_holds_its_text_in_the_message_of_the_first_choice() {
    let body = r#"{"choices":[{"message":{"role":"assistant","content":"hi there"}},{"message":{"content":"second"}}]}"#;
    assert_eq!(reply_text(Provider::OpenRouter, body), Ok(Some("hi there".to_string())));
    assert_eq!(reply_text(Provider::Hyperbolic, body), Ok(None));
}

#[test]
fn empty_body_is_no_reply_and_no_error() {
    assert_eq!(reply_text(Provider::Hyperbolic, ""), Ok(None));
    assert_eq!(reply_text(Provider::OpenRouter, ""), Ok(None));
}

#[test]
fn body_that_is_not_json_is_an_error() {
    for body in ["not json", "{", "{\"choices\": [}", " ", "{} trailing"] {
        match reply_text(Provider::Hyperbolic, body) {
            Err(ReplyError::Malformed(message)) => assert!(!message.is_empty()),
            other => panic!("{:?} gave {:?}", body, other),
        }
    }
}

#[test]
fn missing_or_mistyped_parts_give_no_text() {
    for body in [
        "{}",
        "[]",
        "null",
        "42",
        "\"choices\"",
        r#"{"choices":[]}"#,
        r#"{"choices":{}}"#,
        r#"{"choices":[{}]}"#,
        r#"{"choices":[{"text":7}]}"#,
        r#"{"choices":[{"text":null}]}"#,
        r#"{"choices":[["text"]]}"#,
        r#"{"choices":[{"message":"content"}]}"#,
        r#"{"choices":[{"message":{"content":false}}]}"#,
        r#"{"Choices":[{"text":"t","message":{"Content":"c"}}]}"#,
    ] {
        assert_eq!(reply_text(Provider::Hyperbolic, body), Ok(None), "{}", body);
        assert_eq!(reply_text(Provider::OpenRouter, body), Ok(None), "{}", body);
    }
}

#[test]
fn escapes_in_the_text_are_resolved() {
    let body = r#"{"choices":[{"text":"a\n\"b\"\té"}]}"#;
    assert_eq!(reply_text(Provider::Hyperbolic, body), Ok(Some("a\n\"b\"\t\u{e9}".to_string())));
}

#[test]
fn lookups_in_a_tree() {
    let tree = object(vec![
        ("other", Json::Number),
        (
            "choices",
            Json::Array(vec![
                object(vec![("text", text("first")), ("message", object(vec![("content", text("m"))]))]),
                object(vec![("text", text("second"))]),
            ]),
        ),
    ]);
    assert_eq!(reply_text_in(Provider::Hyperbolic, &tree), Some("first".to_string()));
    assert_eq!(reply_text_in(Provider::OpenRouter, &tree), Some("m".to_string()));
    assert_eq!(tree.member("other"), Some(&Json::Number));
    assert_eq!(tree.member("absent"), None);
    assert_eq!(tree.element(0), None);
    assert_eq!(tree.as_text(), None);
    let choices = tree.member("choices").unwrap();
    assert_eq!(choices.member("text"), None);
    assert_eq!(choices.element(1).unwrap().member("text"), Some(&text("second")));
    assert_eq!(choices.element(2), None);
    assert_eq!(text("t").as_text(), Some("t"));
    assert_eq!(Json::Null.as_text(), None);
    assert_eq!(Json::Bool(true).member("x"), None);
    assert_eq!(reply_text_in(Provider::Hyperbolic, &Json::Null), None);
}

#[test]
fn the_tree_agrees_with_the_lookups_of_the_json_crate() {
    let bodies = [
        r#"{"choices":[{"text":"plain"}]}"#,
        r#"{"choices":[{"message":{"content":"chat"}}]}"#,
        r#"{"choices":[{"text":"both","message":{"content":"forms"}}]}"#,
        r#"{"choices":[{"text":"dup"}],"choices":[{"text":"later"}]}"#,
        r#"{"choices":"none"}"#,
        r#"[{"choices":[{"text":"nested"}]}]"#,
    ];
    for body in bodies {
        let value: serde_json::Value = serde_json::from_str(body).unwrap();
        let plain = value["choices"][0]["text"].as_str().map(String::from);
        let chat = value["choices"][0]["message"]["content"].as_str().map(String::from);
        assert_eq!(reply_text(Provider::Hyperbolic, body), Ok(plain), "{}", body);
        assert_eq!(reply_text(Provider::OpenRouter, body), Ok(chat), "{}", body);
    }
}
