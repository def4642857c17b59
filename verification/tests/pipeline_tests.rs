use notes_emitter::error::NotesError;
use notes_emitter::pipeline::{frame_payload, process_block, render_output, run_pipeline};
use notes_emitter::record::decode_block;

fn doc(payload: &str) -> (Vec<String>, Option<NotesError>) {
    run_pipeline(payload, 80)
}

#[test]
fn single_record_scenario() {
    let payload = "1|||Shopping|||<p>Milk</p>|||2024-01-01|||2024-01-02|||Groceries|||me@example.com~~~";
    let (docs, failure) = doc(payload);
    assert!(failure.is_none());
    assert_eq!(docs.len(), 1);
    assert_eq!(
        docs[0],
        "{\"@type\":\"CreativeWork\",\"@id\":\"urn:apple:notes:note:1\",\"name\":\"Shopping\",\
         \"text\":\"Milk\",\"dateCreated\":\"2024-01-01\",\"dateModified\":\"2024-01-02\",\
         \"isPartOf\":\"Groceries\",\"account\":\"me@example.com\",\"source\":\"apple-notes\"}"
    );
}

#[test]
fn empty_payload_yields_no_documents() {
    let (docs, failure) = doc("");
    assert!(failure.is_none());
    assert_eq!(docs.len(), 0);
}

#[test]
fn whitespace_payload_yields_no_documents() {
    let (docs, failure) = doc("  \n\t  \r\n ");
    assert!(failure.is_none());
    assert_eq!(docs.len(), 0);
}

#[test]
fn unicode_whitespace_payload_yields_no_documents() {
    let (docs, failure) = doc("\u{000B}\u{0085}\u{00A0}\u{2003}\u{2028}\u{3000}");
    assert!(failure.is_none());
    assert_eq!(docs.len(), 0);
}

#[test]
fn unicode_whitespace_is_trimmed_from_fields() {
    let rec = decode_block("\u{00A0}1\u{00A0}|||\u{2003}My Note\u{2003}|||b|||c|||m|||f|||a")
        .expect("seven fields decode");
    assert_eq!(rec.id, "1");
    assert_eq!(rec.name, "My Note");
}

#[test]
fn order_is_preserved() {
    let payload = "1|||A|||x|||c1|||m1|||F|||acc~~~2|||B|||y|||c2|||m2|||F|||acc~~~3|||C|||z|||c3|||m3|||F|||acc~~~";
    let (docs, failure) = doc(payload);
    assert!(failure.is_none());
    assert_eq!(docs.len(), 3);
    assert!(docs[0].contains("\"urn:apple:notes:note:1\""));
    assert!(docs[0].contains("\"name\":\"A\""));
    assert!(docs[1].contains("\"urn:apple:notes:note:2\""));
    assert!(docs[1].contains("\"name\":\"B\""));
    assert!(docs[2].contains("\"urn:apple:notes:note:3\""));
    assert!(docs[2].contains("\"name\":\"C\""));
}

#[test]
fn whitespace_only_blocks_are_skipped() {
    let payload = "  \n ~~~1|||A|||x|||c|||m|||F|||acc~~~ \t ~~~";
    let (docs, failure) = doc(payload);
    assert!(failure.is_none());
    assert_eq!(docs.len(), 1);
}

#[test]
fn short_block_aborts_the_run() {
    let payload = "1|||A|||x|||c|||m|||F|||acc~~~2|||B|||y~~~3|||C|||z|||c|||m|||F|||acc~~~";
    let (docs, failure) = doc(payload);
    assert_eq!(docs.len(), 1);
    match failure {
        Some(NotesError::NotesParse { context, message }) => {
            assert_eq!(context, "reading creation date");
            assert_eq!(message, "missing creation date field");
        },
        other => panic!("expected a parse failure, got {:?}", other),
    }
}

#[test]
fn frame_payload_splits_and_filters() {
    let blocks = frame_payload("a~~~ ~~~b~~~");
    assert_eq!(blocks, vec!["a".to_string(), "b".to_string()]);
    let blocks = frame_payload("only one block");
    assert_eq!(blocks, vec!["only one block".to_string()]);
}

#[test]
fn fields_are_trimmed() {
    let rec = decode_block(" 1 ||| My Note |||  <p>hi</p> ||| c ||| m ||| Folder ||| acc ")
        .expect("seven fields decode");
    assert_eq!(rec.id, "1");
    assert_eq!(rec.name, "My Note");
    assert_eq!(rec.body_markup, "<p>hi</p>");
    assert_eq!(rec.created, "c");
    assert_eq!(rec.modified, "m");
    assert_eq!(rec.folder, "Folder");
    assert_eq!(rec.account, "acc");
}

#[test]
fn extra_trailing_fields_are_ignored() {
    let rec = decode_block("1|||n|||b|||c|||m|||f|||a|||extra|||more").expect("decodes");
    assert_eq!(rec.account, "a");
}

#[test]
fn each_missing_field_is_named() {
    let cases = [
        ("justtext", "reading note name", "missing name field"),
        ("1|||n", "reading note body", "missing body field"),
        ("1|||n|||b", "reading creation date", "missing creation date field"),
        ("1|||n|||b|||c", "reading modification date", "missing modification date field"),
        ("1|||n|||b|||c|||m", "reading folder name", "missing folder field"),
        ("1|||n|||b|||c|||m|||f", "reading account name", "missing account field"),
    ];
    for (block, want_context, want_message) in cases {
        match decode_block(block) {
            Err(NotesError::NotesParse { context, message }) => {
                assert_eq!(context, want_context);
                assert_eq!(message, want_message);
            },
            other => panic!("expected a parse failure for {:?}, got {:?}", block, other),
        }
    }
}

#[test]
fn arity_failure_never_yields_a_document() {
    assert!(process_block("1|||n|||b", 80).is_err());
    assert!(process_block("", 80).is_err());
}

#[test]
fn render_output_terminates_every_line() {
    let docs = vec!["one".to_string(), "two".to_string()];
    assert_eq!(render_output(&docs), "one\ntwo\n");
    let none: Vec<String> = Vec::new();
    assert_eq!(render_output(&none), "");
}

#[test]
fn lone_delimiter_characters_survive_round_trip() {
    let payload = "1|||a|b ~ c|||<p>x</p>|||c~1|||m|1|||F~older|||acc~~~";
    let blocks = frame_payload(payload);
    assert_eq!(blocks.len(), 1);
    let rec = decode_block(&blocks[0]).expect("block decodes");
    assert_eq!(rec.name, "a|b ~ c");
    assert_eq!(rec.created, "c~1");
    assert_eq!(rec.modified, "m|1");
    assert_eq!(rec.folder, "F~older");
}

#[test]
fn round_trip_two_records() {
    let recs = [
        ["10", "First note", "<p>alpha</p>", "2024-02-01", "2024-02-02", "Inbox", "a@b.c"],
        ["11", "Second note", "<p>beta</p>", "2024-03-01", "2024-03-02", "Archive", "d@e.f"],
    ];
    let mut payload = String::new();
    for rec in &recs {
        payload.push_str(&rec.join("|||"));
        payload.push_str("~~~");
    }
    let blocks = frame_payload(&payload);
    assert_eq!(blocks.len(), 2);
    for (block, want) in blocks.iter().zip(recs.iter()) {
        let got = decode_block(block).expect("round-tripped block decodes");
        assert_eq!(got.id, want[0]);
        assert_eq!(got.name, want[1]);
        assert_eq!(got.body_markup, want[2]);
        assert_eq!(got.created, want[3]);
        assert_eq!(got.modified, want[4]);
        assert_eq!(got.folder, want[5]);
        assert_eq!(got.account, want[6]);
    }
}
