//! Converting a note body from HTML markup to wrapped plain text.
//!
//! The markup grammar itself is handled by the `html2text` crate; this module
//! wraps that call, names its result, and does the verified part: trimming
//! the rendered text and shaping a conversion failure into the pipeline's
//! error taxonomy.

use crate::error::NotesError;
use crate::text::trim_spec;
use vstd::prelude::*;
use vstd::string::StringExecFns;

verus! {

/// The plain text that the HTML renderer produces for `body` wrapped at
/// `width` columns: a function of the two arguments alone.
pub uninterp spec fn html_text_of(body: Seq<char>, width: int) -> Seq<char>;

/// Whether the HTML renderer accepts `body` at `width` columns: like its
/// text, a function of the two arguments alone.
pub uninterp spec fn html_renders(body: Seq<char>, width: int) -> bool;

/// Relies on html2text::from_read: renders the HTML in `body` to plain text
/// wrapped at `width` columns. Both the outcome and the text depend on the
/// bytes and the width alone; a rendering failure (including a width of
/// zero, which the renderer rejects as too narrow) comes back as the error's
/// display text.
#[verifier::external_body]
fn html_to_text(body: &str, width: usize) -> (r: Result<String, String>)
    ensures
        r is Ok <==> html_renders(body@, width as int),
        r matches Ok(t) ==> t@ == html_text_of(body@, width as int),
{
    match html2text::from_read(body.as_bytes(), width) {
        Ok(t) => Ok(t),
        Err(e) => Err(e.to_string()),
    }
}

/// The context label carried by every conversion failure.
pub open spec fn convert_context() -> Seq<char> {
    "converting note body from HTML to text"@
}

/// Finishes a conversion: a rendered text is trimmed of surrounding
/// whitespace, a renderer failure becomes a parse failure carrying the
/// conversion context and the renderer's message.
pub fn finish_convert(rendered: Result<String, String>) -> (r: Result<String, NotesError>)
    ensures
        r is Ok <==> rendered is Ok,
        rendered matches Ok(t) ==> (r matches Ok(out) && out@ == trim_spec(t@)),
        rendered matches Err(m) ==> (r matches Err(NotesError::NotesParse { context, message })
            && context@ == convert_context() && message@ == m@),
{
    match rendered {
        Ok(t) => Ok(crate::text::trim_str(t.as_str())),
        Err(m) => Err(
            NotesError::NotesParse {
                context: String::from_str("converting note body from HTML to text"),
                message: m,
            },
        ),
    }
}

/// Converts a note body to plain text wrapped at `width` columns and trimmed
/// of surrounding whitespace. Succeeds exactly when the renderer accepts the
/// body at that width, and then yields exactly the renderer's text, trimmed.
pub fn convert_body(body: &str, width: usize) -> (r: Result<String, NotesError>)
    ensures
        r is Ok <==> html_renders(body@, width as int),
        r matches Ok(out) ==> out@ == trim_spec(html_text_of(body@, width as int)),
        r matches Err(e) ==> (e matches NotesError::NotesParse { context, .. } && context@
            == convert_context()),
{
    finish_convert(html_to_text(body, width))
}

} // verus!
