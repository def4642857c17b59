//! The global guarantees of the wire format and the pipeline.
//!
//! The wire format has no escaping, so the guarantees here are stated for
//! field content that cannot collide with the delimiters: content holding a
//! three-character delimiter run, or ending in a delimiter character right
//! before a delimiter follows, corrupts framing — the format's documented
//! limitation.

use crate::convert::html_renders;
use crate::error::NotesError;
use crate::pipeline::{block_ok, blocks_of, doc_matches, doc_of_block, keep_nonblank, run_post};
use crate::record::{block_arity_ok, block_fields, rec_of_block, NoteView};
use crate::text::{
    delim_at,
    first_delim,
    is_space,
    lemma_first_delim,
    lemma_first_delim_is,
    lemma_first_delim_none,
    lemma_trim_empty_iff,
    split_on,
    trim_spec,
};
use vstd::prelude::*;

verus! {

/// `s` contains a run of three `c` characters.
pub open spec fn has_triple(s: Seq<char>, c: char) -> bool {
    exists|k: int| delim_at(s, c, k)
}

/// `s` can stand right before a `ccc` delimiter without colliding with it:
/// it holds no such run itself and does not end in `c`.
pub open spec fn joinable(s: Seq<char>, c: char) -> bool {
    &&& !has_triple(s, c)
    &&& (s.len() > 0 ==> s[s.len() - 1] != c)
}

/// A well-formed field: it cannot collide with either delimiter.
pub open spec fn plain_field(f: Seq<char>) -> bool {
    joinable(f, '|') && joinable(f, '~')
}

/// `parts` joined with the three-character delimiter `ccc` between
/// neighbours (and nothing after the last part).
pub open spec fn join_with(parts: Seq<Seq<char>>, c: char) -> Seq<char>
    decreases parts.len(),
{
    if parts.len() == 0 {
        Seq::empty()
    } else if parts.len() == 1 {
        parts[0]
    } else {
        parts[0] + seq![c, c, c] + join_with(parts.subrange(1, parts.len() as int), c)
    }
}

/// The payload the bridge emits for a sequence of records: within a record
/// the fields are joined with `|||`, and every record is followed by `~~~`.
pub open spec fn payload_of(recs: Seq<Seq<Seq<char>>>) -> Seq<char> {
    join_with(recs.map_values(|r: Seq<Seq<char>>| join_with(r, '|')).push(Seq::empty()), '~')
}

/// Splitting undoes joining, for parts that cannot collide with the
/// delimiter.
pub proof fn lemma_split_join(parts: Seq<Seq<char>>, c: char)
    requires
        parts.len() >= 1,
        forall|p: int| 0 <= p < parts.len() ==> joinable(#[trigger] parts[p], c),
    ensures
        split_on(join_with(parts, c), c) == parts,
    decreases parts.len(),
{
    if parts.len() == 1 {
        let s = parts[0];
        assert forall|k: int| !delim_at(s, c, k) by {
            if delim_at(s, c, k) {
                assert(has_triple(s, c));
            }
        }
        lemma_first_delim_none(s, c);
        assert(split_on(s, c) == seq![s]);
        assert(seq![s] =~= parts);
    } else {
        let p0 = parts[0];
        let tail = parts.subrange(1, parts.len() as int);
        let rest = join_with(tail, c);
        let s = join_with(parts, c);
        assert(s == p0 + seq![c, c, c] + rest);
        assert(delim_at(s, c, p0.len() as int)) by {
            assert(s[p0.len() as int] == c);
            assert(s[p0.len() as int + 1] == c);
            assert(s[p0.len() as int + 2] == c);
        }
        assert forall|k: int| 0 <= k < p0.len() implies !delim_at(s, c, k) by {
            if delim_at(s, c, k) {
                if k + 3 <= p0.len() {
                    // the run would lie inside the part
                    assert(s[k] == p0[k] && s[k + 1] == p0[k + 1] && s[k + 2] == p0[k + 2]);
                    assert(delim_at(p0, c, k));
                    assert(has_triple(p0, c));
                } else {
                    // the run would cover the part's last character
                    let last = p0.len() - 1;
                    assert(k <= last < k + 3);
                    assert(s[last] == p0[last]);
                    assert(p0[last] != c);
                }
            }
        }
        lemma_first_delim_is(s, c, p0.len() as int);
        assert(s.subrange(0, p0.len() as int) =~= p0);
        assert(s.subrange(p0.len() as int + 3, s.len() as int) =~= rest);
        assert forall|p: int| 0 <= p < tail.len() implies joinable(#[trigger] tail[p], c) by {
            assert(tail[p] == parts[p + 1]);
        }
        lemma_split_join(tail, c);
        assert(split_on(s, c) == seq![s.subrange(0, p0.len() as int)] + split_on(
            s.subrange(p0.len() as int + 3, s.len() as int),
            c,
        ));
        assert(seq![p0] + tail =~= parts);
    }
}

/// Joining with delimiter `c` introduces no run of three of a different
/// character `d` that the parts are free of: such a run would have to cross
/// a delimiter, and the delimiter's characters are not `d`.
pub proof fn lemma_join_no_triple(parts: Seq<Seq<char>>, c: char, d: char)
    requires
        c != d,
        forall|p: int| 0 <= p < parts.len() ==> !has_triple(#[trigger] parts[p], d),
    ensures
        !has_triple(join_with(parts, c), d),
    decreases parts.len(),
{
    if parts.len() <= 1 {
    } else {
        let p0 = parts[0];
        let tail = parts.subrange(1, parts.len() as int);
        assert forall|p: int| 0 <= p < tail.len() implies !has_triple(#[trigger] tail[p], d) by {
            assert(tail[p] == parts[p + 1]);
        }
        lemma_join_no_triple(tail, c, d);
        let rest = join_with(tail, c);
        let s = join_with(parts, c);
        assert(s == p0 + seq![c, c, c] + rest);
        assert forall|k: int| !delim_at(s, d, k) by {
            if delim_at(s, d, k) {
                if k + 3 <= p0.len() {
                    assert(s[k] == p0[k] && s[k + 1] == p0[k + 1] && s[k + 2] == p0[k + 2]);
                    assert(delim_at(p0, d, k));
                    assert(has_triple(p0, d));
                } else if k >= p0.len() + 3 {
                    let m = k - p0.len() - 3;
                    assert(s[k] == rest[m] && s[k + 1] == rest[m + 1] && s[k + 2] == rest[m + 2]);
                    assert(delim_at(rest, d, m));
                    assert(has_triple(rest, d));
                } else {
                    // the run would include a delimiter character
                    let m = if k >= p0.len() {
                        k
                    } else {
                        p0.len() as int
                    };
                    assert(k <= m < k + 3);
                    assert(s[m] == c);
                }
            }
        }
    }
}

/// A join of two or more parts contains its delimiter character.
proof fn lemma_join_has_delim(parts: Seq<Seq<char>>, c: char)
    requires
        parts.len() >= 2,
    ensures
        0 <= parts[0].len() < join_with(parts, c).len(),
        join_with(parts, c)[parts[0].len() as int] == c,
{
}

/// The last character of a join of two or more parts: the last part's last
/// character, or the delimiter's when the last part is empty.
proof fn lemma_join_last(parts: Seq<Seq<char>>, c: char)
    requires
        parts.len() >= 2,
    ensures
        join_with(parts, c).len() > 0,
        parts.last().len() > 0 ==> join_with(parts, c).last() == parts.last().last(),
        parts.last().len() == 0 ==> join_with(parts, c).last() == c,
    decreases parts.len(),
{
    let tail = parts.subrange(1, parts.len() as int);
    let s = join_with(parts, c);
    assert(s == parts[0] + seq![c, c, c] + join_with(tail, c));
    if parts.len() == 2 {
        assert(join_with(tail, c) == tail[0]);
        assert(tail[0] == parts.last());
    } else {
        lemma_join_last(tail, c);
        assert(tail.last() == parts.last());
    }
}

/// Every piece of a split of all-whitespace input is all whitespace.
proof fn lemma_split_all_space(s: Seq<char>, c: char)
    requires
        forall|k: int| 0 <= k < s.len() ==> is_space(s[k]),
    ensures
        forall|i: int, k: int|
            0 <= i < split_on(s, c).len() && 0 <= k < split_on(s, c)[i].len() ==> is_space(
                #[trigger] split_on(s, c)[i][k],
            ),
    decreases s.len(),
{
    lemma_first_delim(s, c);
    match first_delim(s, c) {
        None => {
            assert(split_on(s, c) == seq![s]);
        },
        Some(i) => {
            let head = s.subrange(0, i);
            let rest = s.subrange(i + 3, s.len() as int);
            lemma_split_all_space(rest, c);
            assert(split_on(s, c) == seq![head] + split_on(rest, c));
            assert forall|p: int, k: int|
                0 <= p < split_on(s, c).len() && 0 <= k < split_on(s, c)[p].len() implies is_space(
                #[trigger] split_on(s, c)[p][k],
            ) by {
                if p == 0 {
                    assert(split_on(s, c)[0] == head);
                    assert(head[k] == s[k]);
                } else {
                    assert(split_on(s, c)[p] == split_on(rest, c)[p - 1]);
                }
            }
        },
    }
}

/// Dropping blank blocks keeps nothing when every block is blank.
proof fn lemma_keep_nonblank_all_blank(bs: Seq<Seq<char>>)
    requires
        forall|i: int| 0 <= i < bs.len() ==> trim_spec(#[trigger] bs[i]).len() == 0,
    ensures
        keep_nonblank(bs).len() == 0,
    decreases bs.len(),
{
    if bs.len() > 0 {
        let tail = bs.subrange(1, bs.len() as int);
        assert forall|i: int| 0 <= i < tail.len() implies trim_spec(#[trigger] tail[i]).len()
            == 0 by {
            assert(tail[i] == bs[i + 1]);
        }
        lemma_keep_nonblank_all_blank(tail);
    }
}

/// Dropping blank blocks keeps everything when no block is blank.
proof fn lemma_keep_nonblank_all_kept(bs: Seq<Seq<char>>)
    requires
        forall|i: int| 0 <= i < bs.len() ==> trim_spec(#[trigger] bs[i]).len() > 0,
    ensures
        keep_nonblank(bs) == bs,
    decreases bs.len(),
{
    if bs.len() > 0 {
        let tail = bs.subrange(1, bs.len() as int);
        assert forall|i: int| 0 <= i < tail.len() implies trim_spec(#[trigger] tail[i]).len()
            > 0 by {
            assert(tail[i] == bs[i + 1]);
        }
        lemma_keep_nonblank_all_kept(tail);
        assert(keep_nonblank(bs) == seq![bs[0]] + tail);
        assert(seq![bs[0]] + tail =~= bs);
    }
}

/// A blank block at the end is dropped, the rest is kept as it stands.
proof fn lemma_keep_nonblank_push_blank(bs: Seq<Seq<char>>, b: Seq<char>)
    requires
        trim_spec(b).len() == 0,
    ensures
        keep_nonblank(bs.push(b)) == keep_nonblank(bs),
    decreases bs.len(),
{
    let all = bs.push(b);
    if bs.len() == 0 {
        assert(all.len() == 1);
        assert(all[0] == b);
        assert(all.subrange(1, 1) =~= Seq::<Seq<char>>::empty());
        assert(keep_nonblank(all) == keep_nonblank(all.subrange(1, 1)));
    } else {
        let tail = bs.subrange(1, bs.len() as int);
        lemma_keep_nonblank_push_blank(tail, b);
        assert(all[0] == bs[0]);
        assert(all.subrange(1, all.len() as int) =~= tail.push(b));
        if trim_spec(bs[0]).len() > 0 {
            assert(keep_nonblank(all) == seq![all[0]] + keep_nonblank(tail.push(b)));
            assert(keep_nonblank(bs) == seq![bs[0]] + keep_nonblank(tail));
        } else {
            assert(keep_nonblank(all) == keep_nonblank(tail.push(b)));
            assert(keep_nonblank(bs) == keep_nonblank(tail));
        }
    }
}

/// An empty or all-whitespace payload frames to zero record blocks, so a run
/// over it emits zero documents and no failure.
pub proof fn lemma_empty_payload(payload: Seq<char>)
    requires
        trim_spec(payload).len() == 0,
    ensures
        blocks_of(payload).len() == 0,
{
    lemma_trim_empty_iff(payload);
    lemma_split_all_space(payload, '~');
    let pieces = split_on(payload, '~');
    assert forall|i: int| 0 <= i < pieces.len() implies trim_spec(#[trigger] pieces[i]).len()
        == 0 by {
        lemma_trim_empty_iff(pieces[i]);
    }
    lemma_keep_nonblank_all_blank(pieces);
}

/// Round-trip framing: a payload assembled from any sequence of records
/// whose fields are well-formed frames and decodes back to exactly those
/// records, field for field, each field trimmed.
pub proof fn lemma_round_trip(recs: Seq<Seq<Seq<char>>>)
    requires
        forall|i: int| 0 <= i < recs.len() ==> #[trigger] recs[i].len() == 7,
        forall|i: int, j: int|
            0 <= i < recs.len() && 0 <= j < recs[i].len() ==> plain_field(#[trigger] recs[i][j]),
    ensures
        blocks_of(payload_of(recs)).len() == recs.len(),
        forall|i: int|
            0 <= i < recs.len() ==> block_fields(#[trigger] blocks_of(payload_of(recs))[i])
                == recs[i],
        forall|i: int| 0 <= i < recs.len() ==> block_arity_ok(blocks_of(payload_of(recs))[i]),
        forall|i: int|
            0 <= i < recs.len() ==> rec_of_block(#[trigger] blocks_of(payload_of(recs))[i])
                == (NoteView {
                id: trim_spec(recs[i][0]),
                name: trim_spec(recs[i][1]),
                body_markup: trim_spec(recs[i][2]),
                created: trim_spec(recs[i][3]),
                modified: trim_spec(recs[i][4]),
                folder: trim_spec(recs[i][5]),
                account: trim_spec(recs[i][6]),
            }),
{
    let blocks = recs.map_values(|r: Seq<Seq<char>>| join_with(r, '|'));
    let with_tail = blocks.push(Seq::<char>::empty());
    let payload = payload_of(recs);
    assert(payload == join_with(with_tail, '~'));

    // Every block is its record's fields joined with `|||`, cannot collide
    // with the `~~~` delimiter, and is not blank (it contains a `|`, which
    // is not whitespace).
    assert forall|i: int| 0 <= i < recs.len() implies {
        &&& split_on(#[trigger] blocks[i], '|') == recs[i]
        &&& joinable(blocks[i], '~')
        &&& trim_spec(blocks[i]).len() > 0
    } by {
        lemma_split_join(recs[i], '|');
        lemma_join_no_triple(recs[i], '|', '~');
        lemma_join_last(recs[i], '|');
        assert(recs[i].last() == recs[i][6]);
        lemma_join_has_delim(recs[i], '|');
        lemma_trim_empty_iff(blocks[i]);
        let pos = recs[i][0].len() as int;
        assert(blocks[i][pos] == '|');
        assert(!is_space('|'));
    }

    // Splitting the payload on `~` recovers the blocks plus one empty piece.
    assert forall|p: int| 0 <= p < with_tail.len() implies joinable(
        #[trigger] with_tail[p],
        '~',
    ) by {
        if p < blocks.len() {
            assert(with_tail[p] == blocks[p]);
        } else {
            assert(with_tail[p] == Seq::<char>::empty());
            assert(!has_triple(Seq::<char>::empty(), '~')) by {
                if has_triple(Seq::<char>::empty(), '~') {
                    let k = choose|k: int| delim_at(Seq::<char>::empty(), '~', k);
                    assert(delim_at(Seq::<char>::empty(), '~', k));
                }
            }
        }
    }
    lemma_split_join(with_tail, '~');
    assert(split_on(payload, '~') == with_tail);

    // The empty trailing piece is dropped, the blocks all stay.
    assert(trim_spec(Seq::<char>::empty()).len() == 0) by {
        lemma_trim_empty_iff(Seq::<char>::empty());
    }
    lemma_keep_nonblank_push_blank(blocks, Seq::<char>::empty());
    assert forall|i: int| 0 <= i < blocks.len() implies trim_spec(#[trigger] blocks[i]).len()
        > 0 by {}
    lemma_keep_nonblank_all_kept(blocks);
    assert(blocks_of(payload) == blocks);
}

/// Round-trip emission: a run over a payload assembled from well-formed
/// records whose trimmed bodies the renderer accepts at the run's width
/// succeeds and emits exactly one document per record, in order.
pub proof fn lemma_round_trip_run(
    recs: Seq<Seq<Seq<char>>>,
    width: int,
    docs: Seq<String>,
    failure: Option<NotesError>,
)
    requires
        forall|i: int| 0 <= i < recs.len() ==> #[trigger] recs[i].len() == 7,
        forall|i: int, j: int|
            0 <= i < recs.len() && 0 <= j < recs[i].len() ==> plain_field(#[trigger] recs[i][j]),
        forall|i: int|
            0 <= i < recs.len() ==> html_renders(trim_spec(#[trigger] recs[i][2]), width),
        run_post(payload_of(recs), width, docs, failure),
    ensures
        failure is None,
        docs.len() == recs.len(),
        forall|i: int|
            0 <= i < recs.len() ==> #[trigger] docs[i]@ == doc_of_block(
                blocks_of(payload_of(recs))[i],
                width,
            ),
{
    lemma_round_trip(recs);
    let bs = blocks_of(payload_of(recs));
    assert forall|i: int| 0 <= i < bs.len() implies block_ok(#[trigger] bs[i], width) by {
        assert(rec_of_block(bs[i]).body_markup == trim_spec(recs[i][2]));
        assert(html_renders(trim_spec(recs[i][2]), width));
    }
    if failure is Some {
        let k = docs.len() as int;
        assert(!block_ok(bs[k], width));
    }
    assert forall|i: int| 0 <= i < recs.len() implies #[trigger] docs[i]@ == doc_of_block(
        bs[i],
        width,
    ) by {
        assert(doc_matches(payload_of(recs), width, docs, i));
    }
}

} // verus!
