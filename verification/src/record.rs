//! Decoding one record block into a typed note record.
//!
//! A block is split on the `|||` delimiter into fields; exactly seven are
//! consumed, in fixed order: id, name, body markup, creation timestamp,
//! modification timestamp, folder name, account name. Fewer than seven is a
//! parse failure naming the first missing field; extra trailing fields are
//! ignored. Each consumed field is trimmed of surrounding whitespace; the
//! timestamps stay opaque text.

use crate::error::NotesError;
use crate::text::{split_on, split_str, trim_spec, trim_str};
use vstd::prelude::*;
use vstd::string::StringExecFns;

verus! {

/// The seven trimmed fields of one note.
#[derive(Debug)]
pub struct NoteRecord {
    pub id: String,
    pub name: String,
    pub body_markup: String,
    pub created: String,
    pub modified: String,
    pub folder: String,
    pub account: String,
}

/// The mathematical value of a [`NoteRecord`]: its fields as char sequences.
pub ghost struct NoteView {
    pub id: Seq<char>,
    pub name: Seq<char>,
    pub body_markup: Seq<char>,
    pub created: Seq<char>,
    pub modified: Seq<char>,
    pub folder: Seq<char>,
    pub account: Seq<char>,
}

impl View for NoteRecord {
    type V = NoteView;

    open spec fn view(&self) -> NoteView {
        NoteView {
            id: self.id@,
            name: self.name@,
            body_markup: self.body_markup@,
            created: self.created@,
            modified: self.modified@,
            folder: self.folder@,
            account: self.account@,
        }
    }
}

/// The fields of a block: the block split on the `|||` delimiter.
pub open spec fn block_fields(b: Seq<char>) -> Seq<Seq<char>> {
    split_on(b, '|')
}

/// A block has at least the seven expected fields.
pub open spec fn block_arity_ok(b: Seq<char>) -> bool {
    block_fields(b).len() >= 7
}

/// The record a well-formed block decodes to: its first seven fields, each
/// trimmed of surrounding whitespace.
pub open spec fn rec_of_block(b: Seq<char>) -> NoteView {
    let f = block_fields(b);
    NoteView {
        id: trim_spec(f[0]),
        name: trim_spec(f[1]),
        body_markup: trim_spec(f[2]),
        created: trim_spec(f[3]),
        modified: trim_spec(f[4]),
        folder: trim_spec(f[5]),
        account: trim_spec(f[6]),
    }
}

/// The parse-failure context naming the field at position `k`.
pub open spec fn field_context(k: int) -> Seq<char> {
    if k == 0 {
        "reading note id"@
    } else if k == 1 {
        "reading note name"@
    } else if k == 2 {
        "reading note body"@
    } else if k == 3 {
        "reading creation date"@
    } else if k == 4 {
        "reading modification date"@
    } else if k == 5 {
        "reading folder name"@
    } else {
        "reading account name"@
    }
}

/// The parse-failure message naming the field at position `k`.
pub open spec fn field_missing(k: int) -> Seq<char> {
    if k == 0 {
        "missing id field"@
    } else if k == 1 {
        "missing name field"@
    } else if k == 2 {
        "missing body field"@
    } else if k == 3 {
        "missing creation date field"@
    } else if k == 4 {
        "missing modification date field"@
    } else if k == 5 {
        "missing folder field"@
    } else {
        "missing account field"@
    }
}

/// The parse failure for a block whose field at position `k` is missing.
fn missing_field_error(k: usize) -> (e: NotesError)
    requires
        k < 7,
    ensures
        e matches NotesError::NotesParse { context, message } && context@ == field_context(
            k as int,
        ) && message@ == field_missing(k as int),
{
    let (context, message) = if k == 0 {
        (String::from_str("reading note id"), String::from_str("missing id field"))
    } else if k == 1 {
        (String::from_str("reading note name"), String::from_str("missing name field"))
    } else if k == 2 {
        (String::from_str("reading note body"), String::from_str("missing body field"))
    } else if k == 3 {
        (String::from_str("reading creation date"), String::from_str(
            "missing creation date field",
        ))
    } else if k == 4 {
        (String::from_str("reading modification date"), String::from_str(
            "missing modification date field",
        ))
    } else if k == 5 {
        (String::from_str("reading folder name"), String::from_str("missing folder field"))
    } else {
        (String::from_str("reading account name"), String::from_str("missing account field"))
    };
    NotesError::NotesParse { context, message }
}

/// Decodes one block: succeeds exactly when the block has at least seven
/// fields, and then yields those fields trimmed; otherwise reports the first
/// missing field.
pub fn decode_block(block: &str) -> (r: Result<NoteRecord, NotesError>)
    ensures
        r is Ok <==> block_arity_ok(block@),
        r matches Ok(rec) ==> rec@ == rec_of_block(block@),
        !block_arity_ok(block@) ==> (r matches Err(NotesError::NotesParse { context, message })
            && context@ == field_context(block_fields(block@).len() as int) && message@
            == field_missing(block_fields(block@).len() as int)),
{
    let parts = split_str(block, '|');
    if parts.len() < 7 {
        return Err(missing_field_error(parts.len()));
    }
    Ok(
        NoteRecord {
            id: trim_str(parts[0].as_str()),
            name: trim_str(parts[1].as_str()),
            body_markup: trim_str(parts[2].as_str()),
            created: trim_str(parts[3].as_str()),
            modified: trim_str(parts[4].as_str()),
            folder: trim_str(parts[5].as_str()),
            account: trim_str(parts[6].as_str()),
        },
    )
}

} // verus!
