//! The rows of a diff on screen: every line, each preceded by the headers
//! that anchor it.
//!
//! Headers hold no reference to a line, so the rows are computed by
//! matching every header against every line.

use crate::git::{header_views, line_views, Diff, Header, HeaderView, Line, LineView, Origin};
use vstd::prelude::*;

verus! {

/// One row on screen.
#[derive(Clone, Copy, Debug, PartialEq, Eq)]
pub enum Row<'a> {
    /// A hunk header.
    Heading(&'a Header),
    /// A line of the diff.
    Body(&'a Line),
}

/// What a [`Row`] holds.
pub enum RowView {
    Heading(HeaderView),
    Body(LineView),
}

impl<'a> View for Row<'a> {
    type V = RowView;

    open spec fn view(&self) -> RowView {
        match *self {
            Row::Heading(header) => RowView::Heading(header@),
            Row::Body(line) => RowView::Body(line@),
        }
    }
}

/// The views of a sequence of rows.
pub open spec fn row_views(rows: Seq<Row<'_>>) -> Seq<RowView> {
    rows.map_values(|r: Row<'_>| r@)
}

/// What a row is coloured as.
#[derive(Clone, Copy, Debug, PartialEq, Eq, Structural)]
pub enum Kind {
    Header,
    Insertion,
    Deletion,
    Neutral,
}

impl RowView {
    /// The text of the row: the header's or the line's.
    pub open spec fn text(self) -> Seq<char> {
        match self {
            RowView::Heading(header) => header.content,
            RowView::Body(line) => line.content,
        }
    }

    /// What the row is coloured as: a heading as header, a line by its
    /// origin.
    pub open spec fn kind(self) -> Kind {
        match self {
            RowView::Heading(_) => Kind::Header,
            RowView::Body(line) => match line.origin {
                Origin::Addition => Kind::Insertion,
                Origin::Deletion => Kind::Deletion,
                Origin::Context => Kind::Neutral,
            },
        }
    }
}

/// The headers that anchor `line`, in their order, as rows.
pub open spec fn headings(headers: Seq<HeaderView>, line: LineView) -> Seq<RowView> {
    headers.filter(|h: HeaderView| h.anchors(line)).map_values(|h: HeaderView| RowView::Heading(h))
}

/// The rows that `line` gives: the headers that anchor it, then the line.
pub open spec fn group(headers: Seq<HeaderView>, line: LineView) -> Seq<RowView> {
    headings(headers, line).push(RowView::Body(line))
}

/// The rows of a diff: the groups of its lines, one after the other.
pub open spec fn rows(lines: Seq<LineView>, headers: Seq<HeaderView>) -> Seq<RowView> {
    lines.map_values(|l: LineView| group(headers, l)).flatten()
}

impl<'a> Row<'a> {
    /// What the row is coloured as.
    pub fn kind(&self) -> (kind: Kind)
        ensures
            kind == self@.kind(),
    {
        match self {
            Row::Heading(_) => Kind::Header,
            Row::Body(line) => match line.origin {
                Origin::Addition => Kind::Insertion,
                Origin::Deletion => Kind::Deletion,
                Origin::Context => Kind::Neutral,
            },
        }
    }

    /// The text of the row.
    pub fn text(&self) -> (text: &'a str)
        ensures
            text@ == self@.text(),
    {
        match self {
            Row::Heading(header) => header.content.as_str(),
            Row::Body(line) => line.content.as_str(),
        }
    }
}

/// Lays out lines and headers as rows: every line in order, each preceded
/// by the headers that anchor it, those in their own order.
pub fn rows_of<'a>(lines: &'a Vec<Line>, headers: &'a Vec<Header>) -> (out: Vec<Row<'a>>)
    ensures
        row_views(out@) == rows(line_views(lines@), header_views(headers@)),
{
    let ghost ls = line_views(lines@);
    let ghost hs = header_views(headers@);
    let ghost groups = ls.map_values(|l: LineView| group(hs, l));
    let mut out: Vec<Row<'a>> = Vec::new();
    let mut i: usize = 0;
    assert(groups.take(0).flatten() =~= Seq::<RowView>::empty());
    while i < lines.len()
        invariant
            i <= lines.len(),
            ls == line_views(lines@),
            hs == header_views(headers@),
            groups == ls.map_values(|l: LineView| group(hs, l)),
            row_views(out@) == groups.take(i as int).flatten(),
        decreases lines.len() - i,
    {
        let line = &lines[i];
        let ghost before = row_views(out@);
        let ghost anchoring = |h: HeaderView| h.anchors(line@);
        let mut j: usize = 0;
        assert(hs.take(0).filter(anchoring) =~= Seq::<HeaderView>::empty());
        while j < headers.len()
            invariant
                j <= headers.len(),
                hs == header_views(headers@),
                anchoring == |h: HeaderView| h.anchors(line@),
                row_views(out@) == before + hs.take(j as int).filter(anchoring).map_values(
                    |h: HeaderView| RowView::Heading(h),
                ),
            decreases headers.len() - j,
        {
            let header = &headers[j];
            proof {
                assert(hs.take(j + 1) =~= hs.take(j as int).push(header@));
                hs.take(j as int).lemma_filter_push(header@, anchoring);
            }
            if header.anchors(line) {
                let ghost old_rows = row_views(out@);
                out.push(Row::Heading(header));
                assert(row_views(out@) =~= old_rows.push(RowView::Heading(header@)));
            }
            j += 1;
        }
        proof {
            assert(hs.take(j as int) =~= hs);
        }
        let ghost old_rows = row_views(out@);
        out.push(Row::Body(line));
        proof {
            assert(row_views(out@) =~= old_rows.push(RowView::Body(line@)));
            assert(row_views(out@) =~= before + group(hs, line@));
            assert(groups.take(i + 1) =~= groups.take(i as int).push(group(hs, line@)));
            groups.take(i as int).lemma_flatten_push(group(hs, line@));
        }
        i += 1;
    }
    assert(groups.take(i as int) =~= groups);
    out
}

impl Diff {
    /// The rows of this diff; see [`rows_of`].
    pub fn rows(&self) -> (out: Vec<Row<'_>>)
        ensures
            row_views(out@) == rows(self@.lines, self@.headers),
    {
        rows_of(&self.lines, &self.headers)
    }
}

/// Every line gives exactly one row, and these rows stand in the order of
/// the lines: the rows that are lines are the lines.
pub proof fn lemma_rows_keep_lines(lines: Seq<LineView>, headers: Seq<HeaderView>)
    ensures
        rows(lines, headers).filter(|r: RowView| r is Body) == lines.map_values(
            |l: LineView| RowView::Body(l),
        ),
    decreases lines.len(),
{
    let body = |r: RowView| r is Body;
    let groups = lines.map_values(|l: LineView| group(headers, l));
    if lines.len() == 0 {
        assert(groups.flatten() =~= Seq::<RowView>::empty());
        assert(rows(lines, headers).filter(body) =~= lines.map_values(
            |l: LineView| RowView::Body(l),
        ));
    } else {
        let front = lines.drop_last();
        let last = lines.last();
        lemma_rows_keep_lines(front, headers);
        let front_groups = front.map_values(|l: LineView| group(headers, l));
        assert(groups =~= front_groups.push(group(headers, last)));
        front_groups.lemma_flatten_push(group(headers, last));
        Seq::filter_distributes_over_add(front_groups.flatten(), group(headers, last), body);
        lemma_headings_hold_no_line(headers, last);
        headings(headers, last).lemma_filter_push(RowView::Body(last), body);
        assert(rows(lines, headers).filter(body) =~= lines.map_values(
            |l: LineView| RowView::Body(l),
        ));
    }
}

/// Among the headings of a line there is no line.
proof fn lemma_headings_hold_no_line(headers: Seq<HeaderView>, line: LineView)
    ensures
        headings(headers, line).filter(|r: RowView| r is Body).len() == 0,
{
    let hs = headings(headers, line);
    assert forall|i: int| 0 <= i < hs.len() implies !(hs[i] is Body) by {}
    hs.lemma_all_neg_filter_empty(|r: RowView| r is Body);
}

} // verus!
