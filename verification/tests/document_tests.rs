use notes_emitter::convert::convert_body;
use notes_emitter::document::build_document;
use notes_emitter::error::{bridge_outcome, NotesError};
use notes_emitter::record::NoteRecord;

fn sample_record() -> NoteRecord {
    NoteRecord {
        id: "42".to_string(),
        name: "A \"quoted\" name".to_string(),
        body_markup: "<p>hi</p>".to_string(),
        created: "2024-01-01".to_string(),
        modified: "2024-01-02".to_string(),
        folder: "Notes".to_string(),
        account: "iCloud".to_string(),
    }
}

#[test]
fn document_has_exactly_the_nine_keys() {
    let doc = build_document(&sample_record(), "hi");
    let value: serde_json::Value = serde_json::from_str(&doc).expect("document parses as JSON");
    let object = value.as_object().expect("document is a JSON object");
    let keys: Vec<&str> = object.keys().map(|k| k.as_str()).collect();
    let mut sorted = keys.clone();
    sorted.sort();
    assert_eq!(
        sorted,
        vec![
            "@id",
            "@type",
            "account",
            "dateCreated",
            "dateModified",
            "isPartOf",
            "name",
            "source",
            "text"
        ]
    );
    assert_eq!(object["@type"], "CreativeWork");
    assert_eq!(object["@id"], "urn:apple:notes:note:42");
    assert_eq!(object["source"], "apple-notes");
    assert_eq!(object["name"], "A \"quoted\" name");
    assert_eq!(object["text"], "hi");
    assert_eq!(object["dateCreated"], "2024-01-01");
    assert_eq!(object["dateModified"], "2024-01-02");
    assert_eq!(object["isPartOf"], "Notes");
    assert_eq!(object["account"], "iCloud");
}

#[test]
fn document_keys_keep_their_order() {
    let doc = build_document(&sample_record(), "hi");
    let positions: Vec<usize> = [
        "\"@type\"",
        "\"@id\"",
        "\"name\"",
        "\"text\"",
        "\"dateCreated\"",
        "\"dateModified\"",
        "\"isPartOf\"",
        "\"account\"",
        "\"source\"",
    ]
    .iter()
    .map(|k| doc.find(k).expect("key present"))
    .collect();
    for pair in positions.windows(2) {
        assert!(pair[0] < pair[1], "keys out of order in {}", doc);
    }
}

#[test]
fn document_is_a_single_line_whatever_the_values_hold() {
    let mut rec = sample_record();
    rec.name = "first\nsecond\r\nthird".to_string();
    let doc = build_document(&rec, "body\nwith\nbreaks");
    assert!(!doc.contains('\n'));
    assert!(!doc.contains('\r'));
}

#[test]
fn quoting_escapes_special_characters() {
    let mut rec = sample_record();
    rec.name = "line\nbreak \\ \"q\"".to_string();
    let doc = build_document(&rec, "");
    assert!(doc.contains("\"name\":\"line\\nbreak \\\\ \\\"q\\\"\""));
}

#[test]
fn conversion_strips_markup_and_trims() {
    let text = convert_body("<p>Milk</p>", 80).expect("well-formed body converts");
    assert_eq!(text, "Milk");
}

#[test]
fn conversion_failure_carries_its_context() {
    match convert_body("<p>hi</p>", 0) {
        Err(NotesError::NotesParse { context, .. }) => {
            assert_eq!(context, "converting note body from HTML to text");
        },
        other => panic!("expected a parse failure for width 0, got {:?}", other),
    }
}

#[test]
fn narrow_wrap_keeps_lines_within_width_and_content_intact() {
    let body = "<p>one two three four five six seven eight nine ten eleven twelve</p>";
    let narrow = convert_body(body, 12).expect("converts at width 12");
    let wide = convert_body(body, 80).expect("converts at width 80");
    for line in narrow.lines() {
        assert!(line.chars().count() <= 12, "line {:?} exceeds width 12", line);
    }
    let squash = |s: &str| s.chars().filter(|c| !c.is_whitespace()).collect::<String>();
    assert_eq!(squash(&narrow), squash(&wide));
    assert!(narrow.lines().count() > wide.lines().count());
}

#[test]
fn error_messages_and_exit_codes() {
    let io = NotesError::Io {
        context: "writing newline to stdout".to_string(),
        message: "broken pipe".to_string(),
    };
    assert_eq!(io.message(), "I/O error while writing newline to stdout");
    assert_eq!(io.exit_code(), 74);

    let bridge = NotesError::OsaScriptFailed { code: Some(1), stderr: "boom".to_string() };
    assert_eq!(bridge.message(), "failed to talk to Apple Notes (osascript)");
    assert_eq!(bridge.exit_code(), 69);

    let parse = NotesError::NotesParse {
        context: "reading note id".to_string(),
        message: "missing id field".to_string(),
    };
    assert_eq!(parse.message(), "failed to parse Apple Notes output while reading note id");
    assert_eq!(parse.exit_code(), 65);

    let json = NotesError::Json {
        context: "writing JSON to stdout".to_string(),
        message: "bad".to_string(),
    };
    assert_eq!(json.message(), "failed to serialize JSON while writing JSON to stdout");
    assert_eq!(json.exit_code(), 65);
}

#[test]
fn bridge_outcome_mirrors_the_exit_status() {
    assert!(bridge_outcome(true, Some(0), String::new()).is_ok());
    match bridge_outcome(false, Some(1), "no notes app".to_string()) {
        Err(NotesError::OsaScriptFailed { code, stderr }) => {
            assert_eq!(code, Some(1));
            assert_eq!(stderr, "no notes app");
        },
        other => panic!("expected a bridge failure, got {:?}", other),
    }
}
