use exam_calendar::dotenv::{
    env_value, load_ai_defaults, parse_env, process_value, read_entry, read_env_file, split_lines,
    strip_env_quotes, Variable,
};
use exam_calendar::html::{all_pieces, checked_visible_text, extract_visible_text, visible_text};
use exam_calendar::rows::{calendar_row, event_row, ColumnError};
use exam_calendar::server::{
    apply_request, braced_part, chat_completions_endpoint, chat_request, content_or_error,
    fill_urls, has_braces_in_order, message_content, parse_extracted_events, preview_source,
    save_request, store_error_message, truncate_chars, AiConfig, AnswerReadings, ApiError,
    ApplyRequest, PreviewRequest, PreviewSource, RemoteFailure,
};
use exam_calendar::store::{Statement, Store, StoreError};
use exam_calendar::{CalendarFile, Event};

fn event(id: &str, url: Option<&str>) -> Event {
    Event {
        id: id.to_string(),
        title: "考试".to_string(),
        start: "2026-06-07".to_string(),
        end: "2026-06-10".to_string(),
        all_day: true,
        description: None,
        location: None,
        url: url.map(|url| url.to_string()),
        source: None,
        status: None,
        alarm_minutes: None,
    }
}

fn calendar() -> CalendarFile {
    CalendarFile {
        id: "cal".to_string(),
        title: "Title".to_string(),
        year: 2026,
        region: "CN".to_string(),
        exam_type: "exam".to_string(),
        timezone: "UTC".to_string(),
        updated_at: None,
        source: None,
        default_alarm_minutes: Vec::new(),
        events: vec![event("main", None)],
    }
}

fn store() -> Store {
    Store::new("calendars.sqlite".into())
}

fn answer<T: std::fmt::Debug>(res: Result<T, ApiError>) -> (u16, String) {
    let error = res.unwrap_err();
    (error.status, error.message)
}

/// The events of an object that holds them, as far as these tests need them.
fn object_events(json: &str) -> Option<Vec<Event>> {
    let value: serde_json::Value = serde_json::from_str(json).ok()?;
    list_of(value.get("events")?)
}

/// The events of a list.
fn list_events(json: &str) -> Option<Vec<Event>> {
    list_of(&serde_json::from_str(json).ok()?)
}

fn list_of(value: &serde_json::Value) -> Option<Vec<Event>> {
    let mut events = Vec::new();
    for item in value.as_array()? {
        events.push(Event {
            id: item.get("id")?.as_str()?.to_string(),
            title: item.get("title")?.as_str()?.to_string(),
            start: item.get("start")?.as_str()?.to_string(),
            end: item.get("end")?.as_str()?.to_string(),
            all_day: item.get("all_day").and_then(|v| v.as_bool()).unwrap_or(false),
            ..event("", None)
        });
    }
    Some(events)
}

fn parse(content: &str) -> Result<Vec<Event>, ApiError> {
    let whole = content.trim();
    let part = match braced_part(content) {
        Ok(part) => object_events(&part).ok_or("no events".to_string()),
        Err(error) => Err(error.message),
    };
    parse_extracted_events(
        content,
        AnswerReadings { object: object_events(whole), list: list_events(whole), part },
    )
}

#[test]
fn accepts_base_url_or_full_chat_endpoint() {
    assert_eq!(
        chat_completions_endpoint("https://api.example.com/v1"),
        "https://api.example.com/v1/chat/completions"
    );
    assert_eq!(
        chat_completions_endpoint("https://api.example.com/v1/chat/completions"),
        "https://api.example.com/v1/chat/completions"
    );
}

#[test]
fn endpoints_are_taken_as_they_are() {
    for base in ["", "/", " https://a/v1// ", "https://a/chat/completions/", "a/", "\t"] {
        let endpoint = chat_completions_endpoint(base);
        assert!(endpoint.ends_with("/chat/completions"));
        assert_eq!(chat_completions_endpoint(&endpoint), endpoint);
    }
    assert_eq!(chat_completions_endpoint(" https://a/v1// "), "https://a/v1/chat/completions");
    for base in ["", "https://a/v1", "https://a/chat/completions"] {
        let endpoint = chat_completions_endpoint(base);
        assert_eq!(chat_completions_endpoint(&format!("\u{3000} {}\n", base)), endpoint);
        assert_eq!(chat_completions_endpoint(&format!("{}/", base)), endpoint);
    }
    assert_eq!(chat_completions_endpoint("/"), "/chat/completions");
}

#[test]
fn parses_ai_events_object() {
    let parsed = parse(
        r#"{"events":[{"id":"main","title":"考试","start":"2026-06-07","end":"2026-06-10","all_day":true}]}"#,
    )
    .unwrap();

    assert_eq!(parsed.len(), 1);
    assert_eq!(parsed[0].id, "main");
    assert!(parsed[0].all_day);
}

#[test]
fn parses_lists_and_braced_parts() {
    let item = r#"{"id":"a","title":"t","start":"s","end":"e"}"#;
    assert_eq!(parse(&format!(" [{}] ", item)).unwrap()[0].id, "a");
    let wrapped = format!("Here it is: {{\"events\":[{}]}} - done", item);
    assert_eq!(parse(&wrapped).unwrap()[0].id, "a");
    assert_eq!(
        answer(parse("nothing")),
        (502, "ai output did not contain JSON".to_string())
    );
    assert_eq!(answer(parse("only {")), (502, "ai output did not contain JSON".to_string()));
    assert_eq!(answer(parse("only }")), (502, "ai output did not contain JSON".to_string()));
    assert_eq!(
        answer(parse("x {} y")),
        (502, "failed to parse ai events: no events".to_string())
    );
}

#[test]
fn braces_of_an_answer() {
    assert_eq!(braced_part(" a{b}c}d ").unwrap(), "{b}c}");
    assert_eq!(braced_part("}{").unwrap(), "");
    assert!(has_braces_in_order("}{") && has_braces_in_order("}") && has_braces_in_order("{}"));
    assert!(!has_braces_in_order("} {"));
}

#[test]
fn reads_dotenv_values() {
    let values = read_env_file(Some(
        "AI_BASE_URL=\"https://api.example.com/v1\"\nAI_MODEL='model-a'\nAI_API_KEY=secret\n",
    ));

    assert_eq!(
        values.get("AI_BASE_URL").unwrap(),
        "https://api.example.com/v1"
    );
    assert_eq!(values.get("AI_MODEL").unwrap(), "model-a");
    assert_eq!(values.get("AI_API_KEY").unwrap(), "secret");
}

#[test]
fn dotenv_lines() {
    let values = parse_env(
        "# comment\r\n\r\n  export A = 1 \r\nB=x=y\nnothing\n = no key\nA='2'\nC=\nexport  D=4\n",
    );
    assert_eq!(values.get("A").unwrap(), "2");
    assert_eq!(values.get("B").unwrap(), "x=y");
    assert_eq!(values.get("C").unwrap(), "");
    assert_eq!(values.get("D").unwrap(), "4");
    assert!(values.get("nothing").is_none());
    assert_eq!(values.len(), 4);
    assert_eq!(read_env_file(None).len(), 0);
    assert_eq!(read_entry("#A=1"), None);
    assert_eq!(read_entry("exportA=1"), Some(("exportA".to_string(), "1".to_string())));
}

#[test]
fn lines_make_up_the_text() {
    for text in ["", "\n", "a", "a\nb", "a\n\nb\n"] {
        let lines = split_lines(text);
        assert_eq!(lines.join("\n"), text);
        assert_eq!(lines, text.split('\n').collect::<Vec<&str>>());
    }
}

#[test]
fn quotes_around_values() {
    assert_eq!(strip_env_quotes("\"a\""), "a");
    assert_eq!(strip_env_quotes("'a'"), "a");
    assert_eq!(strip_env_quotes("\"\""), "");
    assert_eq!(strip_env_quotes("\"a'"), "\"a'");
    assert_eq!(strip_env_quotes("\""), "\"");
    assert_eq!(strip_env_quotes(""), "");
    assert_eq!(strip_env_quotes("'\"考\"'"), "\"考\"");
}

#[test]
fn settings_come_from_the_process_first() {
    let file = parse_env("AI_MODEL=file\nOPENAI_MODEL=other\nAI_BASE_URL=' '\nOPENAI_API_KEY=k\n");
    let variables = vec![
        Variable { name: "OPENAI_BASE_URL".to_string(), value: "https://p".to_string() },
        Variable { name: "AI_MODEL".to_string(), value: " process ".to_string() },
        Variable { name: "AI_API_KEY".to_string(), value: " ".to_string() },
    ];
    assert_eq!(env_value(&file, &variables, &["AI_MODEL", "OPENAI_MODEL"]), " process ");
    assert_eq!(env_value(&file, &Vec::new(), &["AI_MODEL", "OPENAI_MODEL"]), "file");
    assert_eq!(env_value(&file, &variables, &[]), "");
    assert_eq!(process_value(&variables, "AI_MODEL").as_deref(), Some(" process "));
    assert_eq!(process_value(&variables, "X"), None);
    let defaults = load_ai_defaults(
        Some("AI_MODEL=file\nOPENAI_MODEL=other\nAI_BASE_URL=' '\nOPENAI_API_KEY=k\n"),
        &variables,
    );
    assert_eq!(defaults.base_url, "https://p");
    assert_eq!(defaults.model, " process ");
    assert_eq!(defaults.api_key, "k");
    let defaults = load_ai_defaults(None, &Vec::new()).clone();
    assert_eq!((defaults.base_url, defaults.model, defaults.api_key), Default::default());
}

#[test]
fn visible_text_of_a_page() {
    assert_eq!(
        extract_visible_text(
            "<html><head><title>T</title></head><body><h1> Exam </h1>\n<p>June <b>7</b></p></body>"
        ),
        "Exam\nJune\n7"
    );
    assert_eq!(extract_visible_text("plain"), "plain");
    assert_eq!(extract_visible_text("<p> </p>"), "<p> </p>");
    assert_eq!(extract_visible_text(""), "");
    assert_eq!(checked_visible_text("<p>x</p>").as_deref(), Some("x"));
}

#[test]
fn pieces_of_several_elements() {
    let elements = vec![
        vec!["a".to_string(), "b".to_string()],
        Vec::new(),
        vec!["c".to_string()],
    ];
    assert_eq!(all_pieces(elements), vec!["a", "b", "c"]);
    assert!(all_pieces(Vec::new()).is_empty());
}

#[test]
fn visible_text_of_pieces() {
    let parts = vec![" a ".to_string(), "\n".to_string(), "b".to_string()];
    assert_eq!(visible_text("page", &parts), "a\nb");
    assert_eq!(visible_text("page", &Vec::new()), "page");
}

#[test]
fn truncates_by_characters() {
    assert_eq!(truncate_chars("考试日程", 2), "考试");
    assert_eq!(truncate_chars("ab", 2), "ab");
    assert_eq!(truncate_chars("ab", 0), "");
}

#[test]
fn questions_to_the_service() {
    let config = |base_url: &str, model: &str, api_key: &str| AiConfig {
        base_url: base_url.to_string(),
        model: model.to_string(),
        api_key: api_key.to_string(),
    };
    let text = "考".repeat(20001);
    let request = chat_request(&config("https://a/", "m ", " key\n"), &text).unwrap();
    assert_eq!(request.endpoint, "https://a/chat/completions");
    assert_eq!(request.model, "m ");
    assert_eq!(request.bearer, "key");
    assert_eq!(request.temperature, 0);
    assert_eq!(request.response_format, "json_object");
    assert!(request.system.starts_with("Extract exam calendar events"));
    assert_eq!(request.user, "考".repeat(20000));
    for bad in [config(" ", "m", "k"), config("b", "", "k"), config("b", "m", "\t")] {
        assert_eq!(
            answer(chat_request(&bad, "x")),
            (400, "ai.base_url, ai.model and ai.api_key are required".to_string())
        );
    }
}

#[test]
fn answers_of_the_service() {
    assert_eq!(
        message_content(r#"{"choices":[{"message":{"content":"hi"}}]}"#).unwrap(),
        "hi"
    );
    let missing = (502, "ai response did not contain message content".to_string());
    assert_eq!(answer(message_content(r#"{"choices":[]}"#)), missing);
    assert_eq!(answer(message_content(r#"{"choices":[{"message":{"content":1}}]}"#)), missing);
    assert_eq!(answer(content_or_error(None)), missing);
    assert_eq!(content_or_error(Some("x".to_string())).unwrap(), "x");
}

#[test]
fn sources_of_previews() {
    let request = |calendar_id: &str, url: Option<&str>, text: Option<&str>| PreviewRequest {
        calendar_id: calendar_id.to_string(),
        url: url.map(|s| s.to_string()),
        text: text.map(|s| s.to_string()),
        ai: AiConfig { base_url: String::new(), model: String::new(), api_key: String::new() },
    };
    assert_eq!(
        answer(preview_source(&request(" ", Some("u"), Some("t")))),
        (400, "calendar_id is required".to_string())
    );
    assert_eq!(
        answer(preview_source(&request("c", None, Some(" ")))),
        (400, "url or text is required".to_string())
    );
    assert!(matches!(
        preview_source(&request("c", Some("u"), Some(" t "))).unwrap(),
        PreviewSource::Given(text) if text == "t"
    ));
    assert!(matches!(
        preview_source(&request("c", Some("u"), Some(" "))).unwrap(),
        PreviewSource::Page(url) if url == "u"
    ));
    assert!(matches!(
        preview_source(&request("c", Some("u"), None)).unwrap(),
        PreviewSource::Page(url) if url == "u"
    ));
}

#[test]
fn missing_urls_are_filled() {
    let filled =
        fill_urls(vec![event("a", None), event("b", Some("own"))], &Some("page".to_string()));
    assert_eq!(filled[0].url.as_deref(), Some("page"));
    assert_eq!(filled[1].url.as_deref(), Some("own"));
    assert_eq!(fill_urls(vec![event("a", None)], &None)[0].url, None);
}

#[test]
fn calendars_are_saved_under_their_identifier() {
    assert_eq!(
        answer(save_request(&store(), "other", &calendar())),
        (400, "path id does not match calendar id".to_string())
    );
    let mut bad = calendar();
    bad.title.clear();
    assert_eq!(
        answer(save_request(&store(), "cal", &bad)),
        (500, "calendar title is required".to_string())
    );
    let statements = save_request(&store(), "cal", &calendar()).unwrap();
    assert_eq!(statements.len(), 3);
    assert!(matches!(&statements[0], Statement::UpsertCalendar(row) if row.id == "cal"));
    assert!(matches!(&statements[1], Statement::DeleteEvents(id) if id == "cal"));
    assert!(
        matches!(&statements[2], Statement::UpsertEvent(id, row) if id == "cal" && row.id == "main")
    );
}

#[test]
fn imports_are_applied() {
    let request = |import_id: Option<i64>, events: Vec<Event>| ApplyRequest {
        calendar_id: "cal".to_string(),
        import_id,
        events,
    };
    let row = || Some(calendar_row(&calendar()).unwrap());
    let event_rows = || vec![event_row(&calendar().events[0]).unwrap()];
    let done = apply_request(
        &store(),
        &request(Some(7), vec![event("x", None), event("y", None)]),
        row(),
        event_rows(),
    )
    .unwrap();
    assert_eq!(done.applied, 2);
    assert_eq!(done.statements.len(), 2);
    assert!(matches!(done.mark, Some(Statement::MarkImportApplied(7))));
    let done = apply_request(&store(), &request(None, Vec::new()), row(), event_rows()).unwrap();
    assert_eq!(done.applied, 0);
    assert!(done.mark.is_none());
    let mut broken = event_rows();
    broken[0].status = Some("lost".to_string());
    assert_eq!(
        answer(apply_request(&store(), &request(None, Vec::new()), row(), broken)),
        (
            500,
            "Conversion error from type Text at index: 10, invalid event status 'lost'".to_string()
        )
    );
    assert_eq!(
        answer(apply_request(&store(), &request(None, Vec::new()), None, Vec::new())),
        (500, "calendar 'cal' not found".to_string())
    );
}

#[test]
fn messages_of_store_errors() {
    let column = |column: usize| {
        store_error_message(&StoreError::Column(ColumnError {
            column,
            message: "bad".to_string(),
        }))
    };
    assert_eq!(column(9), "Conversion error from type Text at index: 9, bad");
    assert_eq!(column(usize::MAX), "bad");
    assert_eq!(store_error_message(&StoreError::Refused("no".to_string())), "no");
}

#[test]
fn answers_to_failures() {
    let failures = [
        (RemoteFailure::PageRequest, "failed to fetch url: x"),
        (RemoteFailure::PageStatus, "url returned an error: x"),
        (RemoteFailure::PageText, "failed to read response text: x"),
        (RemoteFailure::ServiceRequest, "ai request failed: x"),
        (RemoteFailure::ServiceStatus, "ai returned an error: x"),
        (RemoteFailure::ServiceReply, "ai response was not JSON: x"),
    ];
    for (failure, message) in failures {
        let error = failure.answer("x");
        assert_eq!((error.status, error.message.as_str()), (502, message));
    }
    assert_eq!(ApiError::bad_request("m").status, 400);
    assert_eq!(ApiError::internal("m").status, 500);
    assert_eq!(ApiError::bad_gateway("m").message, "m");
}
