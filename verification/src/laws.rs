//! What holds of classification and retrieval on every input.

use crate::git::{
    assembled, assembled_all, classified, classified_lines, diff_views, hunk_headers, origin_of,
    renders, retrievable, retrieved, to_line, total, Diff, DiffParsingError, DiffView, HeaderView,
    LineView, Origin, RawFileDelta, RawHunk, RawLine, Stats,
};
use vstd::prelude::*;
use vstd::utf8::{decode_utf8, valid_utf8};

verus! {

/// The comparison reported a number for every side on which a line with
/// this marker exists: the new side for an addition, the old side for a
/// deletion, both for anything else.
pub open spec fn faithful(
    marker: char,
    old_line_number: Option<u32>,
    new_line_number: Option<u32>,
) -> bool {
    match origin_of(marker) {
        Origin::Addition => new_line_number is Some,
        Origin::Deletion => old_line_number is Some,
        Origin::Context => old_line_number is Some && new_line_number is Some,
    }
}

/// The comparison reported a number for the one side that classification
/// keeps: the new side for an addition, the old side for a deletion, and
/// one of the two, not both, for anything else.
pub open spec fn single_sided(
    marker: char,
    old_line_number: Option<u32>,
    new_line_number: Option<u32>,
) -> bool {
    match origin_of(marker) {
        Origin::Addition => new_line_number is Some,
        Origin::Deletion => old_line_number is Some,
        Origin::Context => old_line_number is Some != new_line_number is Some,
    }
}

/// A classified line has exactly one of its two line numbers whenever the
/// comparison reported a number for the one side that is kept.
///
/// Context reported with both numbers keeps both, so it is not covered: a
/// line `' '` with old number 5 and new number 5 has two.
pub proof fn lemma_classified_one_sided(
    marker: char,
    old_line_number: Option<u32>,
    new_line_number: Option<u32>,
    content: Seq<char>,
)
    requires
        single_sided(marker, old_line_number, new_line_number),
    ensures
        classified(marker, old_line_number, new_line_number, content).one_sided(),
{
}

/// A classified line is numbered on exactly the sides on which it exists
/// whenever the comparison reported its numbers faithfully; and it is
/// well-formed whatever was reported.
pub proof fn lemma_classified_numbered(
    marker: char,
    old_line_number: Option<u32>,
    new_line_number: Option<u32>,
    content: Seq<char>,
)
    ensures
        classified(marker, old_line_number, new_line_number, content).well_formed(),
        faithful(marker, old_line_number, new_line_number) ==> classified(
            marker,
            old_line_number,
            new_line_number,
            content,
        ).numbered(),
{
}

/// The comparison reported the numbers of every raw line that renders
/// faithfully.
pub open spec fn all_faithful(raw: Seq<RawLine>) -> bool {
    forall|i: int|
        0 <= i < raw.len() && renders((#[trigger] raw[i]).marker) ==> faithful(
            raw[i].marker,
            raw[i].old_line_number,
            raw[i].new_line_number,
        )
}

/// The classified lines are well-formed, whatever the comparison reported.
pub proof fn lemma_classified_lines_well_formed(raw: Seq<RawLine>)
    ensures
        forall|j: int|
            0 <= j < classified_lines(raw).len() ==> (#[trigger] classified_lines(
                raw,
            )[j]).well_formed(),
    decreases raw.len(),
{
    if raw.len() > 0 {
        let front = classified_lines(raw.drop_last());
        let all = classified_lines(raw);
        lemma_classified_lines_well_formed(raw.drop_last());
        match raw.last().line() {
            Some(line) => {
                assert(all =~= front + seq![line]);
                assert forall|j: int| 0 <= j < all.len() implies (
                #[trigger] all[j]).well_formed() by {
                    if j < front.len() {
                        assert(all[j] == front[j]);
                    }
                }
            },
            None => {
                assert(all == front);
            },
        }
    }
}

/// The classified lines are numbered on exactly the sides on which they
/// exist, wherever the comparison reported the numbers of every line that
/// renders faithfully.
pub proof fn lemma_classified_lines_numbered(raw: Seq<RawLine>)
    requires
        all_faithful(raw),
    ensures
        forall|j: int|
            0 <= j < classified_lines(raw).len() ==> (#[trigger] classified_lines(
                raw,
            )[j]).numbered(),
    decreases raw.len(),
{
    if raw.len() > 0 {
        let front = classified_lines(raw.drop_last());
        let all = classified_lines(raw);
        assert(all_faithful(raw.drop_last())) by {
            assert(forall|i: int|
                0 <= i < raw.drop_last().len() ==> #[trigger] raw.drop_last()[i] == raw[i]);
        }
        lemma_classified_lines_numbered(raw.drop_last());
        match raw.last().line() {
            Some(line) => {
                assert(all =~= front + seq![line]);
                assert(renders(raw[raw.len() - 1].marker));
                assert forall|j: int| 0 <= j < all.len() implies (#[trigger] all[j]).numbered() by {
                    if j < front.len() {
                        assert(all[j] == front[j]);
                    }
                }
            },
            None => {
                assert(all == front);
            },
        }
    }
}

/// Classification gives one line for each raw line that renders and none
/// for the others.
pub proof fn lemma_one_line_per_rendering_raw_line(raw: Seq<RawLine>)
    ensures
        classified_lines(raw).len() == raw.filter(|r: RawLine| renders(r.marker)).len(),
    decreases raw.len(),
{
    let rendering = |r: RawLine| renders(r.marker);
    if raw.len() > 0 {
        lemma_one_line_per_rendering_raw_line(raw.drop_last());
        assert(raw.drop_last().push(raw.last()) =~= raw);
        raw.drop_last().lemma_filter_push(raw.last(), rendering);
    }
}

/// A header never precedes an addition or a deletion, even where its anchor
/// is that line's number.
pub proof fn lemma_changed_line_has_no_header(header: HeaderView, line: LineView)
    requires
        !(line.origin is Context),
    ensures
        !header.anchors(line),
{
}

/// What retrieval returns, with its texts as sequences of characters.
pub open spec fn result_view(result: Result<(Vec<Diff>, Stats), DiffParsingError>) -> Result<
    (Seq<DiffView>, Stats),
    DiffParsingError,
> {
    match result {
        Ok((diffs, stats)) => Ok((diff_views(diffs@), stats)),
        Err(error) => Err(error),
    }
}

/// Retrieval is a function of what the repository access gave: two
/// retrievals from the same raw deltas are equal, diffs and statistics.
pub proof fn lemma_retrieval_repeats(
    accessed: Result<Vec<RawFileDelta>, DiffParsingError>,
    first: Result<(Vec<Diff>, Stats), DiffParsingError>,
    second: Result<(Vec<Diff>, Stats), DiffParsingError>,
)
    requires
        retrieved(accessed, first),
        retrieved(accessed, second),
    ensures
        result_view(first) == result_view(second),
{
}

/// Retrieval never returns part of a result: it fails exactly when the
/// repository access failed or gave what cannot be read as text, and
/// otherwise gives one diff for each reported file.
pub proof fn lemma_retrieval_all_or_nothing(
    accessed: Result<Vec<RawFileDelta>, DiffParsingError>,
    result: Result<(Vec<Diff>, Stats), DiffParsingError>,
)
    requires
        retrieved(accessed, result),
    ensures
        accessed is Err ==> result is Err,
        result is Ok <==> retrievable(accessed),
        result matches Ok((diffs, stats)) ==> diffs.len() == accessed->Ok_0.len()
            && stats.files_changed == accessed->Ok_0.len(),
{
    if let Ok((diffs, stats)) = result {
        let deltas = accessed->Ok_0;
        assert(diff_views(diffs@).len() == assembled_all(deltas@).len());
    }
}

/// A project without changes gives no diffs and counts of zero.
pub proof fn lemma_no_changes(
    deltas: Vec<RawFileDelta>,
    result: Result<(Vec<Diff>, Stats), DiffParsingError>,
)
    requires
        deltas.len() == 0,
        retrieved(Ok(deltas), result),
    ensures
        result matches Ok((diffs, stats)) && diffs.len() == 0 && stats == (Stats {
            files_changed: 0,
            insertions: 0,
            deletions: 0,
        }),
{
    let (diffs, stats) = result->Ok_0;
    assert(diff_views(diffs@).len() == assembled_all(deltas@).len());
}

/// The delta has no text to show: no hunks, and no raw line that renders.
pub open spec fn without_text(delta: RawFileDelta) -> bool {
    &&& delta.hunks.len() == 0
    &&& forall|i: int| 0 <= i < delta.lines.len() ==> !renders((#[trigger] delta.lines[i]).marker)
}

/// Raw lines of which none renders give no lines.
pub proof fn lemma_nothing_renders(raw: Seq<RawLine>)
    requires
        forall|i: int| 0 <= i < raw.len() ==> !renders((#[trigger] raw[i]).marker),
    ensures
        classified_lines(raw).len() == 0,
    decreases raw.len(),
{
    if raw.len() > 0 {
        lemma_nothing_renders(raw.drop_last());
        assert(to_line()(raw.last()) is None);
    }
}

/// A delta without text can be read whenever its path is text: what its
/// lines hold is never looked at.
pub proof fn lemma_without_text_is_readable(delta: RawFileDelta)
    requires
        without_text(delta),
        valid_utf8(delta.path@),
    ensures
        delta.readable(),
{
}

/// A diff has one header for each hunk of its file, in order.
pub proof fn lemma_one_header_per_hunk(raw: Seq<RawHunk>)
    ensures
        hunk_headers(raw).len() == raw.len(),
        forall|i: int| 0 <= i < raw.len() ==> hunk_headers(raw)[i] == (#[trigger] raw[i]).header(),
{
}

/// A changed file without text gives a diff without lines and without
/// headers, and still counts as a changed file.
pub proof fn lemma_change_without_text(
    deltas: Vec<RawFileDelta>,
    result: Result<(Vec<Diff>, Stats), DiffParsingError>,
    i: int,
)
    requires
        retrieved(Ok(deltas), result),
        result is Ok,
        0 <= i < deltas.len(),
        without_text(deltas[i]),
    ensures
        result matches Ok((diffs, stats)) && diffs.len() == deltas.len() && diffs[i].lines.len()
            == 0 && diffs[i].headers.len() == 0 && stats.files_changed == deltas.len()
            && diffs[i].file_name@ == decode_utf8(deltas[i].path@),
{
    let (diffs, stats) = result->Ok_0;
    assert(diff_views(diffs@).len() == assembled_all(deltas@).len());
    assert(diff_views(diffs@)[i] == assembled(deltas[i]));
    lemma_nothing_renders(deltas[i].lines@);
    assert(diffs[i]@.lines.len() == diffs[i].lines.len());
    assert(diffs[i]@.headers.len() == diffs[i].headers.len());
}

/// All lines of `diffs`, file after file.
pub open spec fn all_lines(diffs: Seq<DiffView>) -> Seq<LineView> {
    diffs.map_values(|d: DiffView| d.lines).flatten()
}

/// The total over a set of diffs is the count over all their lines taken
/// together.
pub proof fn lemma_total_counts_all_lines(diffs: Seq<DiffView>, origin: Origin)
    ensures
        total(diffs, origin) == all_lines(diffs).filter(|l: LineView| l.origin == origin).len(),
    decreases diffs.len(),
{
    let of = |l: LineView| l.origin == origin;
    let lines = diffs.map_values(|d: DiffView| d.lines);
    if diffs.len() == 0 {
        assert(lines.flatten() =~= Seq::<LineView>::empty());
    } else {
        lemma_total_counts_all_lines(diffs.drop_last(), origin);
        let front = diffs.drop_last().map_values(|d: DiffView| d.lines);
        assert(lines =~= front.push(diffs.last().lines));
        front.lemma_flatten_push(diffs.last().lines);
        Seq::filter_distributes_over_add(front.flatten(), diffs.last().lines, of);
    }
}

} // verus!
