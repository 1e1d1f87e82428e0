use openai_proxy::download::{
    conversation_reply, conversation_to_markdown, format_role, refused_id_reply, response_reply,
    response_to_markdown, sanitize_content, Message, RequestBody, RequestData, ResponseBody,
    ResponseChoice, ResponseData, Transaction,
};
use openai_proxy::store::{
    has_json_extension, id_text, is_tx_file, tx_file_suffix, validate_id, LoadFailure,
};
use openai_proxy::text::{decimal_string, trim_string};

fn msg(role: &str, content: Option<&str>) -> Message {
    Message { role: role.to_string(), content: content.map(|c| c.to_string()) }
}

fn tx_with_messages(messages: Vec<Message>) -> Transaction {
    Transaction {
        id: "t".to_string(),
        request: Some(RequestData { body: Some(RequestBody { messages }) }),
        response: None,
    }
}

fn tx_with_choices(choices: Vec<ResponseChoice>) -> Transaction {
    Transaction {
        id: "t".to_string(),
        request: None,
        response: Some(ResponseData { body: Some(ResponseBody { choices }) }),
    }
}

const ID: &str = "550e8400-e29b-41d4-a716-446655440000";
const ID_VALUE: u128 = 0x550e8400e29b41d4a716446655440000;

#[test]
fn sanitize_turns_escapes_into_newlines() {
    assert_eq!(sanitize_content("a\\nb\\n"), "a\nb\n");
    assert_eq!(sanitize_content("\\\\n"), "\\\n");
    assert_eq!(sanitize_content("no escapes"), "no escapes");
    assert_eq!(sanitize_content("\\"), "\\");
    assert_eq!(sanitize_content(""), "");
}

#[test]
fn plain_content_is_exported_unchanged() {
    let s = "line one\nline two ünïcode";
    assert_eq!(sanitize_content(s), s);
}

#[test]
fn roles_get_headings() {
    assert_eq!(format_role("system"), "System");
    assert_eq!(format_role("user"), "User");
    assert_eq!(format_role("assistant"), "Assistant");
    assert_eq!(format_role(""), "Unknown");
    assert_eq!(format_role("tOOL"), "Tool");
    assert_eq!(format_role("f"), "F");
    assert_eq!(format_role("ßx"), "SSx");
    assert_eq!(format_role("System"), "System");
}

#[test]
fn conversation_markdown_blocks() {
    let messages = vec![
        msg("system", Some("Be brief.")),
        msg("user", Some("Hi\\nthere")),
        msg("", None),
    ];
    assert_eq!(
        conversation_to_markdown(&messages),
        "=== System ===\nBe brief.\n\n=== User ===\nHi\nthere\n\n=== Unknown ==="
    );
    assert_eq!(conversation_to_markdown(&vec![]), "");
    let trailing = vec![msg("user", Some("  x  \n"))];
    assert_eq!(conversation_to_markdown(&trailing), "=== User ===\n  x");
}

#[test]
fn answer_markdown() {
    assert_eq!(response_to_markdown("Hello\\nWorld"), "=== Assistant ===\nHello\nWorld");
    assert_eq!(response_to_markdown(""), "=== Assistant ===\n");
}

#[test]
fn trim_uses_unicode_whitespace() {
    assert_eq!(trim_string("\u{3000} a b \t\n"), "a b");
    assert_eq!(trim_string("   "), "");
    assert_eq!(trim_string("x"), "x");
}

#[test]
fn decimal_numbers() {
    assert_eq!(decimal_string(0), "0");
    assert_eq!(decimal_string(1234), "1234");
    assert_eq!(decimal_string(u64::MAX), "18446744073709551615");
}

#[test]
fn ids_are_validated_as_uuids() {
    assert_eq!(validate_id(ID), Ok(ID_VALUE));
    assert_eq!(validate_id("550e8400e29b41d4a716446655440000"), Ok(ID_VALUE));
    assert_eq!(validate_id("../etc/passwd"), Err(400));
    assert_eq!(validate_id(""), Err(400));
}

#[test]
fn id_text_is_hyphenated_and_accepted() {
    assert_eq!(id_text(ID_VALUE), ID);
    assert_eq!(id_text(0), "00000000-0000-0000-0000-000000000000");
    assert_eq!(validate_id(&id_text(ID_VALUE)), Ok(ID_VALUE));
}

#[test]
fn transaction_files_are_matched_by_suffix() {
    assert_eq!(tx_file_suffix(ID), format!("_{ID}.json"));
    assert!(is_tx_file(&format!("tx_2026-01-01T00-00-00+00-00_{ID}.json"), ID));
    assert!(!is_tx_file(&format!("tx_x_{ID}.json.bak"), ID));
    assert!(!is_tx_file("tx.json", ID));
}

#[test]
fn json_extension_follows_path_rules() {
    assert!(has_json_extension("tx_1_abc.json"));
    assert!(has_json_extension("a.b.json"));
    assert!(!has_json_extension(".json"));
    assert!(!has_json_extension("json"));
    assert!(!has_json_extension("a.json.tmp"));
    assert!(!has_json_extension("a.JSON"));
    assert!(!has_json_extension(""));
}

#[test]
fn load_failures_map_to_statuses() {
    assert_eq!(LoadFailure::ListDirectory.status(), 500);
    assert_eq!(LoadFailure::ReadFile.status(), 500);
    assert_eq!(LoadFailure::Parse.status(), 400);
    assert_eq!(LoadFailure::NotFound.status(), 404);
}

#[test]
fn conversation_download_replies() {
    let ok = conversation_reply(
        ID_VALUE,
        &Ok(tx_with_messages(vec![msg("user", Some("Hi"))])),
    );
    assert_eq!(ok.status, 200);
    assert_eq!(ok.content_type.as_deref(), Some("text/markdown"));
    assert_eq!(
        ok.content_disposition,
        Some(format!("attachment; filename=\"conversation_{ID}.md\""))
    );
    assert_eq!(ok.body, "=== User ===\nHi");

    let empty = conversation_reply(ID_VALUE, &Ok(tx_with_messages(vec![])));
    assert_eq!((empty.status, empty.body.as_str()), (400, "No messages to download"));
    assert!(empty.content_disposition.is_none());

    let no_request = conversation_reply(ID_VALUE, &Ok(tx_with_choices(vec![])));
    assert_eq!(no_request.status, 400);

    let missing = conversation_reply(ID_VALUE, &Err(404));
    assert_eq!((missing.status, missing.body.as_str()), (404, "Transaction not found"));

    let refused = refused_id_reply(400);
    assert_eq!((refused.status, refused.body.as_str()), (400, "Invalid transaction id"));
    assert!(refused.content_type.is_none());
}

#[test]
fn response_download_replies() {
    let answer = ResponseChoice { message: Some(msg("assistant", Some("Yes\\nNo"))) };
    let ok = response_reply(ID_VALUE, &Ok(tx_with_choices(vec![answer])));
    assert_eq!(ok.status, 200);
    assert_eq!(
        ok.content_disposition,
        Some(format!("attachment; filename=\"response_{ID}.md\""))
    );
    assert_eq!(ok.body, "=== Assistant ===\nYes\nNo");

    let none = response_reply(ID_VALUE, &Ok(tx_with_choices(vec![])));
    assert_eq!((none.status, none.body.as_str()), (400, "No response to download"));

    let blank = ResponseChoice { message: Some(msg("assistant", None)) };
    let no_content = response_reply(ID_VALUE, &Ok(tx_with_choices(vec![blank])));
    assert_eq!((no_content.status, no_content.body.as_str()), (400, "Response has no content"));

    let no_message = ResponseChoice { message: None };
    let r = response_reply(ID_VALUE, &Ok(tx_with_choices(vec![no_message])));
    assert_eq!(r.body, "Response has no content");

    let missing = response_reply(ID_VALUE, &Err(500));
    assert_eq!((missing.status, missing.body.as_str()), (500, "Transaction not found"));
}

#[test]
fn sanitized_content_is_settled() {
    for s in ["a\\nb", "\\\\n", "\\\\\\nn", "\\n\\n", "x\\", "plain"] {
        let once = sanitize_content(s);
        assert!(!once.contains("\\n"));
        assert_eq!(sanitize_content(&once), once);
    }
}
