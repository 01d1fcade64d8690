use data_contract_creator::codec::parse;
use data_contract_creator::prompt::{
    braced_part, compose_prompt, extract_schema, interpret_response, reply_content, reply_error,
    LlmError, FIRST_PROMPT_PRE, LLM_MAX_TOKENS, LLM_MODEL, SECOND_PROMPT_PRE,
};

#[test]
fn the_first_prompt_is_the_preamble_and_the_description() {
    let p = compose_prompt("", "a shop");
    assert_eq!(p, format!("{}{}", FIRST_PROMPT_PRE, "a shop"));
    assert!(p.starts_with("\nI'm going to ask you to generate a Dash Platform data contract"));
    assert!(p.ends_with("App description: \n\na shop"));
}

#[test]
fn a_later_prompt_holds_the_current_contract() {
    let p = compose_prompt("{\"a\":{}}", "add b");
    assert_eq!(p, format!("{}{}\n\n{}", SECOND_PROMPT_PRE, "{\"a\":{}}", "add b"));
    assert!(p.starts_with("\nI'm going to ask you to make some changes"));
    assert!(p.ends_with("properly formatted JSON schema:\n\n{\"a\":{}}\n\nadd b"));
}

#[test]
fn the_preambles_state_the_rules() {
    assert!(FIRST_PROMPT_PRE.contains(" - Indexes may only have \"asc\" sort order. \n"));
    assert!(FIRST_PROMPT_PRE.contains("\"imageHash\":{\"type\":\"array\""));
    assert!(SECOND_PROMPT_PRE.contains(" - All \"array\" properties must specify \"byteArray\": true. \n"));
    assert_eq!(LLM_MODEL, "gpt-3.5-turbo-16k");
    assert_eq!(LLM_MAX_TOKENS, 8000);
}

#[test]
fn the_contract_is_taken_from_the_first_to_the_last_brace() {
    assert_eq!(extract_schema("{\"a\":{}}"), Ok("{\"a\":{}}".to_string()));
    assert_eq!(
        extract_schema("Here you are:\n{\"a\":{\"b\":1}}\nI hope it helps."),
        Ok("{\"a\":{\"b\":1}}".to_string())
    );
    assert_eq!(extract_schema("{}"), Ok("{}".to_string()));
    assert_eq!(extract_schema("\u{e9}\u{4e16} {\"k\":\"\u{e9}\"} \u{1f600}"), Ok("{\"k\":\"\u{e9}\"}".to_string()));
}

#[test]
fn a_reply_without_braces_in_order_holds_no_contract() {
    assert_eq!(extract_schema(""), Err(LlmError::NoJson));
    assert_eq!(extract_schema("no contract"), Err(LlmError::NoJson));
    assert_eq!(extract_schema("{ only"), Err(LlmError::NoJson));
    assert_eq!(extract_schema("only }"), Err(LlmError::NoJson));
    assert_eq!(extract_schema("}{"), Err(LlmError::NoJson));
    assert_eq!(extract_schema("} and then {"), Err(LlmError::NoJson));
}

#[test]
fn a_braced_part_that_is_no_json_is_refused() {
    assert_eq!(extract_schema("{a}"), Err(LlmError::InvalidJson));
    assert_eq!(extract_schema("{\"a\":1} and {\"b\":2}"), Err(LlmError::InvalidJson));
    assert_eq!(extract_schema("{\"a\":{}"), Err(LlmError::InvalidJson));
}

#[test]
fn a_reply_is_read_at_its_first_choice() {
    let body = "{\"choices\":[{\"message\":{\"role\":\"assistant\",\"content\":\"Sure: {\\\"a\\\":{}} done\"}},{\"message\":{\"content\":\"{}\"}}]}";
    assert_eq!(interpret_response(true, 200, body), Ok("{\"a\":{}}".to_string()));
}

#[test]
fn a_reply_without_content_holds_no_contract() {
    assert_eq!(interpret_response(true, 200, "{}"), Err(LlmError::NoJson));
    assert_eq!(interpret_response(true, 200, "{\"choices\":[]}"), Err(LlmError::NoJson));
    assert_eq!(interpret_response(true, 200, "{\"choices\":{\"message\":{\"content\":\"{}\"}}}"), Err(LlmError::NoJson));
    assert_eq!(
        interpret_response(true, 200, "{\"choices\":[{\"message\":{\"content\":5}}]}"),
        Err(LlmError::NoJson)
    );
    assert_eq!(interpret_response(true, 200, "not json"), Err(LlmError::NoJson));
    assert_eq!(
        interpret_response(true, 200, "{\"choices\":[{\"message\":{\"content\":\"{x}\"}}]}"),
        Err(LlmError::InvalidJson)
    );
}

#[test]
fn an_error_of_the_service_is_told_with_its_status() {
    let e = interpret_response(false, 429, "{\"error\":{\"message\":\"Rate limit reached\"}}")
        .unwrap_err();
    assert_eq!(e, LlmError::Http { status: 429, message: "Rate limit reached".to_string() });
    assert_eq!(e.message(), "HTTP 429 error from OpenAI: Rate limit reached");
}

#[test]
fn an_error_without_a_message_is_told_with_the_whole_body() {
    let e = interpret_response(false, 500, "Internal Server Error").unwrap_err();
    assert_eq!(e.message(), "HTTP 500 error from OpenAI: Internal Server Error");
    let e = interpret_response(false, 502, "{\"error\":\"bad gateway\"}").unwrap_err();
    assert_eq!(e.message(), "HTTP 502 error from OpenAI: {\"error\":\"bad gateway\"}");
    let e = interpret_response(false, 0, "{\"error\":{\"message\":7}}").unwrap_err();
    assert_eq!(e.message(), "HTTP 0 error from OpenAI: {\"error\":{\"message\":7}}");
    // a contract in the body of an error is not taken
    let e = interpret_response(false, 65535, "{\"choices\":[{\"message\":{\"content\":\"{}\"}}]}")
        .unwrap_err();
    assert!(e.message().starts_with("HTTP 65535 error from OpenAI: {\"choices\""));
}

#[test]
fn each_error_has_its_words() {
    assert_eq!(LlmError::NoJson.message(), "No valid JSON found in the returned text.");
    assert_eq!(LlmError::InvalidJson.message(), "Extracted text is not valid JSON.");
    assert_eq!(
        LlmError::Transport("Fetch request failed".to_string()).message(),
        "Fetch request failed"
    );
    assert_eq!(
        LlmError::Http { status: 404, message: String::new() }.message(),
        "HTTP 404 error from OpenAI: "
    );
}


#[test]
fn the_braced_part_runs_from_the_first_to_the_last_brace() {
    assert_eq!(braced_part("a{b}c"), Some("{b}".to_string()));
    assert_eq!(braced_part("{}"), Some("{}".to_string()));
    assert_eq!(braced_part("{{}{}}x}"), Some("{{}{}}x}".to_string()));
    assert_eq!(braced_part("x}{y}"), Some("{y}".to_string()));
    assert_eq!(braced_part(""), None);
    assert_eq!(braced_part("{"), None);
    assert_eq!(braced_part("}"), None);
    assert_eq!(braced_part("}{"), None);
    assert_eq!(braced_part("\u{e9}{\u{4e16}}\u{e9}"), Some("{\u{4e16}}".to_string()));
}

#[test]
fn the_content_of_a_reply_is_that_of_its_first_choice() {
    let reply = parse("{\"choices\":[{\"message\":{\"content\":\"one\"}},{\"message\":{\"content\":\"two\"}}]}");
    assert_eq!(reply_content(reply.as_ref()), "one");
    assert_eq!(reply_content(None), "");
    assert_eq!(reply_content(parse("[]").as_ref()), "");
    assert_eq!(reply_content(parse("{\"choices\":[{\"message\":{}}]}").as_ref()), "");
    assert_eq!(reply_content(parse("{\"choices\":[{\"message\":{\"content\":null}}]}").as_ref()), "");
}

#[test]
fn the_error_of_a_reply_is_its_message() {
    assert_eq!(
        reply_error(parse("{\"error\":{\"message\":\"no\",\"code\":1}}").as_ref()),
        Some("no".to_string())
    );
    assert_eq!(reply_error(None), None);
    assert_eq!(reply_error(parse("{\"error\":\"no\"}").as_ref()), None);
    assert_eq!(reply_error(parse("{\"message\":\"no\"}").as_ref()), None);
    assert_eq!(reply_error(parse("{\"error\":{\"message\":[]}}").as_ref()), None);
}
