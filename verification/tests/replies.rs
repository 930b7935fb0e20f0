use thugsrf::addons::{addon_output, AddonError};
use thugsrf::ai::{reply_answer, reply_texts, AiError, ApiShape};
use thugsrf::cli::{command_args, CommandError};
use thugsrf::codec::{rds_output, CodecError};
use thugsrf::json::Json;

#[test]
fn replies_are_read_by_api() {
    let openai = br#"{"output":[{"content":[{"type":"output_text","text":"a"},{"text":"b"},{"text":3}]},{"content":"x"},{"content":[{"text":"c"}]}]}"#;
    assert_eq!(reply_answer("openai", openai), Ok("a\nb\nc".to_string()));
    let anthropic = br#"{"content":[{"type":"text","text":"hi"},{"type":"tool_use"}]}"#;
    assert_eq!(reply_answer("anthropic", anthropic), Ok("hi".to_string()));
    let local = br#"{"choices":[{"message":{"content":"yo"}}]}"#;
    assert_eq!(reply_answer("local", local), Ok("yo".to_string()));
    assert_eq!(reply_answer("local", br#"{"choices":[]}"#), Err(AiError::NoText));
    assert_eq!(reply_answer("openai", br#"{"output":3}"#), Err(AiError::NoText));
    assert_eq!(reply_answer("anthropic", b"not json"), Err(AiError::NotJson));
    assert_eq!(reply_answer("openai", br#"{"output":[{"content":[{"text":"  "}]}]}"#), Err(AiError::NoText));
    assert_eq!(AiError::NotJson.message(), "AI response is not valid JSON");
}

#[test]
fn reply_texts_follow_the_shape() {
    let v = Json::Object(vec![(
        "content".to_string(),
        Json::List(vec![
            Json::Object(vec![("text".to_string(), Json::Text("one".to_string()))]),
            Json::Object(vec![("text".to_string(), Json::Null)]),
            Json::Object(vec![("text".to_string(), Json::Text("two".to_string()))]),
        ]),
    )]);
    assert_eq!(reply_texts(ApiShape::Messages, &v), vec!["one".to_string(), "two".to_string()]);
    assert!(reply_texts(ApiShape::Responses, &v).is_empty());
    assert_eq!(reply_texts(ApiShape::ChatCompletions, &v), vec![String::new()]);
}

#[test]
fn addon_output_is_one_json_object_of_at_most_one_mib() {
    assert_eq!(
        addon_output(br#"{"events":[1,"x"],"ok":true}"#).unwrap(),
        Json::Object(vec![
            ("events".to_string(), Json::List(vec![Json::Number("1".to_string()), Json::Text("x".to_string())])),
            ("ok".to_string(), Json::Bool(true)),
        ])
    );
    assert!(matches!(addon_output(b"[1, 2]"), Err(AddonError::NotJsonObject)));
    assert!(matches!(addon_output(b"{\"a\":"), Err(AddonError::NotJson)));
    assert!(matches!(addon_output(b"{} {}"), Err(AddonError::NotJson)));
    let mut big = b"{\"a\":\"".to_vec();
    big.resize(1_048_575, b'x');
    big.extend_from_slice(b"\"}");
    assert!(matches!(addon_output(&big), Err(AddonError::OutputTooLarge)));
    big.truncate(1_048_574);
    big.extend_from_slice(b"\"}");
    assert_eq!(big.len(), 1_048_576);
    assert!(addon_output(&big).is_ok());
}

#[test]
fn rds_output_is_json_of_at_most_one_mib() {
    assert_eq!(rds_output(b" null "), Ok(Json::Null));
    assert_eq!(rds_output(b"oops"), Err(CodecError::RdsNotJson));
    assert_eq!(rds_output(&vec![b' '; 1_048_577]), Err(CodecError::RdsTooLarge));
    assert_eq!(CodecError::RdsTooLarge.message(), "RDS output exceeds 1 MiB");
}

#[test]
fn command_bar_text_is_split_like_a_shell() {
    assert_eq!(
        command_args("identify '/tmp/my signal.cs8' --format cs8"),
        Ok(vec![
            "thugsrf".to_string(),
            "identify".to_string(),
            "/tmp/my signal.cs8".to_string(),
            "--format".to_string(),
            "cs8".to_string(),
        ])
    );
    assert_eq!(command_args("play \"a b.wav\""), Ok(vec!["thugsrf".to_string(), "play".to_string(), "a b.wav".to_string()]));
    assert_eq!(command_args(""), Ok(vec!["thugsrf".to_string()]));
    assert_eq!(command_args("record 'unclosed"), Err(CommandError::UnclosedQuote));
    assert_eq!(command_args("record trailing\\"), Err(CommandError::UnclosedQuote));
    assert_eq!(CommandError::UnclosedQuote.message(), "Unclosed quote");
}
