//! Framing the raw payload and driving the pipeline over it.
//!
//! The payload is split on the `~~~` delimiter into blocks; blocks that are
//! empty or whitespace-only (a trailing delimiter, or an empty payload) are
//! silently skipped. Each remaining block is decoded, its body converted,
//! and its document built, strictly in source order; the first failure stops
//! the run, and the documents built before it are kept.

use crate::convert::{convert_body, convert_context, html_renders, html_text_of};
use crate::document::{build_document, document_of};
use crate::error::NotesError;
use crate::record::{
    block_arity_ok,
    block_fields,
    decode_block,
    field_context,
    field_missing,
    rec_of_block,
};
use crate::text::{split_on, split_str, trim_spec, trim_str};
use vstd::prelude::*;
use vstd::string::{StrSliceExecFns, StringExecFns};

verus! {

/// Keeps the blocks whose trimmed content is non-empty, in order.
pub open spec fn keep_nonblank(bs: Seq<Seq<char>>) -> Seq<Seq<char>>
    decreases bs.len(),
{
    if bs.len() == 0 {
        Seq::empty()
    } else if trim_spec(bs[0]).len() > 0 {
        seq![bs[0]] + keep_nonblank(bs.subrange(1, bs.len() as int))
    } else {
        keep_nonblank(bs.subrange(1, bs.len() as int))
    }
}

/// The record blocks of a payload: the payload split on the `~~~` delimiter,
/// with empty and whitespace-only pieces dropped.
pub open spec fn blocks_of(payload: Seq<char>) -> Seq<Seq<char>> {
    keep_nonblank(split_on(payload, '~'))
}

/// Splits the payload into record blocks, skipping the empty and
/// whitespace-only pieces.
pub fn frame_payload(payload: &str) -> (r: Vec<String>)
    ensures
        r@.len() == blocks_of(payload@).len(),
        forall|i: int| 0 <= i < r@.len() ==> r@[i]@ == blocks_of(payload@)[i],
{
    let pieces = split_str(payload, '~');
    let ghost all = Seq::new(pieces@.len() as nat, |i: int| pieces@[i]@);
    let mut out: Vec<String> = Vec::new();
    let mut idx: usize = 0;
    proof {
        assert(all =~= split_on(payload@, '~'));
        assert(blocks_of(payload@) == keep_nonblank(all));
        assert(all.subrange(0, all.len() as int) =~= all);
        assert(keep_nonblank(all.subrange(0, all.len() as int)) == keep_nonblank(all));
        assert(out@.len() == 0);
    }
    while idx < pieces.len()
        invariant
            all == Seq::new(pieces@.len() as nat, |i: int| pieces@[i]@),
            all =~= split_on(payload@, '~'),
            idx <= pieces.len(),
            out@.len() + keep_nonblank(all.subrange(idx as int, all.len() as int)).len()
                == blocks_of(payload@).len(),
            forall|i: int| 0 <= i < out@.len() ==> out@[i]@ == blocks_of(payload@)[i],
            forall|i: int|
                0 <= i < keep_nonblank(all.subrange(idx as int, all.len() as int)).len()
                    ==> keep_nonblank(all.subrange(idx as int, all.len() as int))[i] == blocks_of(
                    payload@,
                )[out@.len() + i],
        decreases pieces.len() - idx,
    {
        let ghost rest = all.subrange(idx as int, all.len() as int);
        proof {
            assert(rest[0] == all[idx as int]);
            assert(rest.subrange(1, rest.len() as int) =~= all.subrange(
                idx + 1,
                all.len() as int,
            ));
        }
        let trimmed = trim_str(pieces[idx].as_str());
        if trimmed.as_str().unicode_len() > 0 {
            proof {
                assert(keep_nonblank(rest) == seq![rest[0]] + keep_nonblank(
                    rest.subrange(1, rest.len() as int),
                ));
                assert(keep_nonblank(rest)[0] == rest[0]);
                assert forall|m: int|
                    0 <= m < keep_nonblank(rest.subrange(1, rest.len() as int)).len() implies
                    keep_nonblank(rest.subrange(1, rest.len() as int))[m] == blocks_of(
                    payload@,
                )[out@.len() + 1 + m] by {
                    assert(keep_nonblank(rest)[m + 1] == keep_nonblank(
                        rest.subrange(1, rest.len() as int),
                    )[m]);
                }
            }
            let piece = pieces[idx].clone();
            assert(piece@ == blocks_of(payload@)[out@.len() as int]);
            out.push(piece);
        } else {
            proof {
                assert(keep_nonblank(rest) == keep_nonblank(rest.subrange(1, rest.len() as int)));
            }
        }
        idx += 1;
    }
    proof {
        assert(all.subrange(pieces@.len() as int, all.len() as int) =~= Seq::<Seq<char>>::empty());
    }
    out
}

/// The document a well-formed block yields under a given wrap width: its
/// decoded record together with its body rendered at that width and trimmed.
pub open spec fn doc_of_block(b: Seq<char>, width: int) -> Seq<char> {
    document_of(rec_of_block(b), trim_spec(html_text_of(rec_of_block(b).body_markup, width)))
}

/// A block that yields a document: it has the seven fields, and the renderer
/// accepts its trimmed body at the given width.
pub open spec fn block_ok(b: Seq<char>, width: int) -> bool {
    &&& block_arity_ok(b)
    &&& html_renders(rec_of_block(b).body_markup, width)
}

/// Processes one block: decode, convert the body at `width` columns, build
/// the document. Succeeds exactly when the block has the seven fields and
/// its body renders; fails on an arity error (naming the first missing
/// field) or a rejected body (with the conversion context).
pub fn process_block(block: &str, width: usize) -> (r: Result<String, NotesError>)
    ensures
        r is Ok <==> block_ok(block@, width as int),
        r matches Ok(doc) ==> doc@ == doc_of_block(block@, width as int) && (forall|k: int|
            0 <= k < doc@.len() ==> doc@[k] != '\n'),
        !block_arity_ok(block@) ==> (r matches Err(NotesError::NotesParse { context, message })
            && context@ == field_context(block_fields(block@).len() as int) && message@
            == field_missing(block_fields(block@).len() as int)),
        r matches Err(e) ==> (block_arity_ok(block@) ==> (e matches NotesError::NotesParse {
            context,
            ..
        } && context@ == convert_context())),
{
    let rec = match decode_block(block) {
        Ok(rec) => rec,
        Err(e) => {
            return Err(e);
        },
    };
    let text = match convert_body(rec.body_markup.as_str(), width) {
        Ok(text) => text,
        Err(e) => {
            return Err(e);
        },
    };
    Ok(build_document(&rec, text.as_str()))
}

/// Document `i` of a run is the document of block `i`, which decoded and
/// whose body rendered; it holds no raw newline, so it is one output line.
pub open spec fn doc_matches(payload: Seq<char>, width: int, docs: Seq<String>, i: int) -> bool {
    &&& block_ok(blocks_of(payload)[i], width)
    &&& docs[i]@ == doc_of_block(blocks_of(payload)[i], width)
    &&& forall|k: int| 0 <= k < docs[i]@.len() ==> docs[i]@[k] != '\n'
}

/// What a finished run guarantees: documents for a prefix of the blocks, in
/// block order; all of them — success is owed — exactly when every block up
/// to and including the next one decodes and renders; otherwise the error
/// describes the first failing block.
pub open spec fn run_post(
    payload: Seq<char>,
    width: int,
    docs: Seq<String>,
    failure: Option<NotesError>,
) -> bool {
    let bs = blocks_of(payload);
    &&& docs.len() <= bs.len()
    &&& forall|i: int| 0 <= i < docs.len() ==> #[trigger] doc_matches(payload, width, docs, i)
    &&& (failure is None <==> docs.len() == bs.len())
    &&& match failure {
        None => true,
        Some(e) => {
            let b = bs[docs.len() as int];
            &&& !block_ok(b, width)
            &&& if !block_arity_ok(b) {
                e matches NotesError::NotesParse { context, message } && context@ == field_context(
                    block_fields(b).len() as int,
                ) && message@ == field_missing(block_fields(b).len() as int)
            } else {
                e matches NotesError::NotesParse { context, .. } && context@ == convert_context()
            }
        },
    }
}

/// Drives the pipeline over every block of the payload, in source order,
/// stopping at the first failure. Returns the documents built so far and the
/// failure, if any: when every block decodes and renders there is none and
/// every document is returned; an empty or whitespace-only payload yields
/// zero documents and no failure.
pub fn run_pipeline(payload: &str, width: usize) -> (r: (Vec<String>, Option<NotesError>))
    ensures
        run_post(payload@, width as int, r.0@, r.1),
{
    let blocks = frame_payload(payload);
    let mut docs: Vec<String> = Vec::new();
    let mut idx: usize = 0;
    while idx < blocks.len()
        invariant
            blocks@.len() == blocks_of(payload@).len(),
            forall|i: int| 0 <= i < blocks@.len() ==> blocks@[i]@ == blocks_of(payload@)[i],
            idx <= blocks.len(),
            docs@.len() == idx,
            forall|i: int|
                0 <= i < idx ==> #[trigger] doc_matches(payload@, width as int, docs@, i),
        decreases blocks.len() - idx,
    {
        assert(blocks@[idx as int]@ == blocks_of(payload@)[idx as int]);
        let ghost old_docs = docs@;
        match process_block(blocks[idx].as_str(), width) {
            Ok(doc) => {
                docs.push(doc);
                proof {
                    assert forall|i: int| 0 <= i < idx + 1 implies #[trigger] doc_matches(
                        payload@,
                        width as int,
                        docs@,
                        i,
                    ) by {
                        if i < idx {
                            assert(doc_matches(payload@, width as int, old_docs, i));
                            assert(docs@[i] == old_docs[i]);
                        } else {
                            assert(docs@[i] == doc);
                        }
                    }
                }
            },
            Err(e) => {
                proof {
                    assert(docs@.len() < blocks_of(payload@).len());
                }
                return (docs, Some(e));
            },
        }
        idx += 1;
    }
    (docs, None)
}

/// The emitted output: every document line followed by a newline, in order.
pub open spec fn joined_lines(docs: Seq<Seq<char>>) -> Seq<char>
    decreases docs.len(),
{
    if docs.len() == 0 {
        Seq::empty()
    } else {
        joined_lines(docs.drop_last()) + docs.last() + seq!['\n']
    }
}

/// Renders the output stream for a run: each document on its own line,
/// newline-terminated, with no trailing content after the final newline.
pub fn render_output(docs: &Vec<String>) -> (out: String)
    ensures
        out@ == joined_lines(Seq::new(docs@.len() as nat, |i: int| docs@[i]@)),
{
    let ghost all = Seq::new(docs@.len() as nat, |i: int| docs@[i]@);
    let mut out = String::new();
    let mut idx: usize = 0;
    while idx < docs.len()
        invariant
            all == Seq::new(docs@.len() as nat, |i: int| docs@[i]@),
            idx <= docs.len(),
            out@ == joined_lines(all.subrange(0, idx as int)),
        decreases docs.len() - idx,
    {
        let ghost prefix = all.subrange(0, idx as int);
        out.append(docs[idx].as_str());
        out.append("\n");
        proof {
            reveal_strlit("\n");
            let next = all.subrange(0, idx + 1);
            assert(next.drop_last() =~= prefix);
            assert(next.last() == all[idx as int]);
            assert("\n"@ =~= seq!['\n']);
            assert(out@ =~= joined_lines(next));
        }
        idx += 1;
    }
    proof {
        assert(all.subrange(0, docs@.len() as int) =~= all);
    }
    out
}

} // verus!
