//! Building the fixed-schema JSON document for one note.
//!
//! Every document is a single-line JSON object with exactly nine keys, in
//! fixed order: `@type` (always `"CreativeWork"`), `@id` (a constant prefix
//! followed by the note id), `name`, `text` (the converted body),
//! `dateCreated`, `dateModified`, `isPartOf` (folder), `account`, and
//! `source` (always `"apple-notes"`). Values are never null: a missing field
//! is a parse failure upstream, never a hole in the output.

use crate::record::{NoteRecord, NoteView};
use vstd::prelude::*;
use vstd::string::StringExecFns;

verus! {

/// The JSON string literal (quotes and escapes included) that the JSON
/// encoder produces for `s`: a function of the characters alone.
pub uninterp spec fn json_string_of(s: Seq<char>) -> Seq<char>;

/// Relies on serde_json::to_string on a `&str`: it emits the JSON string
/// literal for exactly those characters — a double quote, the characters
/// with every control character (so every newline), `"` and `\` escaped,
/// and a closing double quote — so the result holds no raw newline. For a
/// string the encoder cannot fail: the only documented failure sources are a
/// `Serialize` impl that errors and maps with non-string keys, and a string
/// has neither.
#[verifier::external_body]
fn json_quote(s: &str) -> (r: String)
    ensures
        r@ == json_string_of(s@),
        r@.len() >= 2,
        r@[0] == '"',
        r@[r@.len() - 1] == '"',
        forall|k: int| 0 <= k < r@.len() ==> r@[k] != '\n',
{
    serde_json::to_string(s).unwrap()
}

/// The constant prefix of every document's `@id` value.
pub open spec fn id_prefix() -> Seq<char> {
    "urn:apple:notes:note:"@
}

/// The document emitted for a record and its converted body text: the nine
/// fixed keys in fixed order, each string value JSON-encoded.
pub open spec fn document_of(r: NoteView, text: Seq<char>) -> Seq<char> {
    "{\"@type\":\"CreativeWork\",\"@id\":"@ + json_string_of(id_prefix() + r.id) + ",\"name\":"@
        + json_string_of(r.name) + ",\"text\":"@ + json_string_of(text) + ",\"dateCreated\":"@
        + json_string_of(r.created) + ",\"dateModified\":"@ + json_string_of(r.modified)
        + ",\"isPartOf\":"@ + json_string_of(r.folder) + ",\"account\":"@ + json_string_of(
        r.account,
    ) + ",\"source\":\"apple-notes\"}"@
}

/// Builds the single-line JSON document for one note. Total: every record
/// and body text yield a well-formed document, and the document holds no
/// raw newline — one document is one output line.
pub fn build_document(rec: &NoteRecord, text: &str) -> (out: String)
    ensures
        out@ == document_of(rec@, text@),
        forall|k: int| 0 <= k < out@.len() ==> out@[k] != '\n',
{
    let id_urn = String::from_str("urn:apple:notes:note:").concat(rec.id.as_str());
    let mut out = String::from_str("{\"@type\":\"CreativeWork\",\"@id\":");
    out.append(json_quote(id_urn.as_str()).as_str());
    out.append(",\"name\":");
    out.append(json_quote(rec.name.as_str()).as_str());
    out.append(",\"text\":");
    out.append(json_quote(text).as_str());
    out.append(",\"dateCreated\":");
    out.append(json_quote(rec.created.as_str()).as_str());
    out.append(",\"dateModified\":");
    out.append(json_quote(rec.modified.as_str()).as_str());
    out.append(",\"isPartOf\":");
    out.append(json_quote(rec.folder.as_str()).as_str());
    out.append(",\"account\":");
    out.append(json_quote(rec.account.as_str()).as_str());
    out.append(",\"source\":\"apple-notes\"}");
    proof {
        reveal_strlit("{\"@type\":\"CreativeWork\",\"@id\":");
        reveal_strlit(",\"name\":");
        reveal_strlit(",\"text\":");
        reveal_strlit(",\"dateCreated\":");
        reveal_strlit(",\"dateModified\":");
        reveal_strlit(",\"isPartOf\":");
        reveal_strlit(",\"account\":");
        reveal_strlit(",\"source\":\"apple-notes\"}");
    }
    assert(forall|k: int| 0 <= k < out@.len() ==> out@[k] != '\n');
    out
}

} // verus!
