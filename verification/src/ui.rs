//! What each widget of the viewer shows, computed from the model.
//!
//! A widget here is the data it was made from, with functions that give
//! the texts, colours and positions to draw. Drawing them is left to the
//! caller.

use crate::git::{
    copy_headers, copy_lines, header_views, is_largest_shown, line_views, Diff, Header, Line,
    LineView, Stats,
};
use crate::rows::{row_views, rows, rows_of, Kind, Row, RowView};
use crate::state::AppData;
use crate::style::{
    header_color, header_position, header_synopsis, marker, origin_color, Color, Label, LabelView,
};
use crate::text::{
    decimal, decimal_string, join_after, join_first, pad_left, padded, split, split_at, texts,
};
use vstd::prelude::*;

verus! {

/// The views of a column of cells, where an absent cell is a blank row.
pub open spec fn cell_views(cells: Seq<Option<Label>>) -> Seq<Option<LabelView>> {
    cells.map_values(
        |c: Option<Label>|
            match c {
                Some(label) => Some(label@),
                None => None,
            },
    )
}

/// The number beside a line, padded on the left to `width` characters, in
/// gray monospace text.
pub open spec fn number_label(line: LineView, width: usize) -> LabelView {
    LabelView {
        text: padded(decimal(line.shown_number() as nat), width as nat),
        color: Color::Gray,
        monospace: true,
    }
}

/// The number of one line.
#[derive(Debug, PartialEq, Eq)]
pub struct LineNumberWidget {
    pub max_digits: usize,
    pub line: Line,
}

impl LineNumberWidget {
    /// The number of `line` in a column of `max_digits` characters.
    pub fn new(line: Line, max_digits: usize) -> (widget: LineNumberWidget)
        ensures
            widget.line == line,
            widget.max_digits == max_digits,
    {
        LineNumberWidget { line, max_digits }
    }

    /// The number beside the line, padded on the left to `max_digits`
    /// characters. A numeral that is longer is shown as it is.
    pub fn label(&self) -> (label: Label)
        ensures
            label@ == number_label(self.line@, self.max_digits),
    {
        let number = decimal_string(self.line.shown_number() as u128);
        Label {
            text: pad_left(number.as_str(), self.max_digits),
            color: Color::Gray,
            monospace: true,
        }
    }
}

/// The cell of a row in the column of line numbers: blank beside a
/// heading, the padded number beside a line.
pub open spec fn number_cell(row: RowView, width: usize) -> Option<LabelView> {
    match row {
        RowView::Heading(_) => None,
        RowView::Body(line) => Some(number_label(line, width)),
    }
}

/// The column of line numbers.
#[derive(Debug, PartialEq, Eq)]
pub struct LineNumbersWidget {
    /// The width of the column, in characters.
    pub longest_line: usize,
    pub lines: Vec<Line>,
    pub headers: Vec<Header>,
}

impl LineNumbersWidget {
    /// The numbers of `lines` in a column of `longest_line` characters,
    /// with room for `headers`.
    pub fn new(longest_line: usize, lines: Vec<Line>, headers: Vec<Header>) -> (widget:
        LineNumbersWidget)
        ensures
            widget.longest_line == longest_line,
            widget.lines == lines,
            widget.headers == headers,
    {
        LineNumbersWidget { longest_line, lines, headers }
    }

    /// The cells of the column, one for each row of the diff.
    pub fn cells(&self) -> (cells: Vec<Option<Label>>)
        ensures
            cell_views(cells@) == rows(
                line_views(self.lines@),
                header_views(self.headers@),
            ).map_values(|r: RowView| number_cell(r, self.longest_line)),
    {
        let all = rows_of(&self.lines, &self.headers);
        let ghost views = rows(line_views(self.lines@), header_views(self.headers@));
        let mut cells: Vec<Option<Label>> = Vec::new();
        let mut k: usize = 0;
        while k < all.len()
            invariant
                k <= all.len(),
                cells.len() == k,
                row_views(all@) == views,
                forall|n: int|
                    0 <= n < k ==> (#[trigger] cell_views(cells@)[n]) == number_cell(
                        views[n],
                        self.longest_line,
                    ),
            decreases all.len() - k,
        {
            let ghost before = cell_views(cells@);
            let row = all[k];
            assert(views[k as int] == row@);
            match row {
                Row::Heading(_) => {
                    cells.push(None);
                },
                Row::Body(line) => {
                    let number = decimal_string(line.shown_number() as u128);
                    cells.push(
                        Some(
                            Label {
                                text: pad_left(number.as_str(), self.longest_line),
                                color: Color::Gray,
                                monospace: true,
                            },
                        ),
                    );
                },
            }
            assert(forall|n: int| 0 <= n < k ==> #[trigger] cell_views(cells@)[n] == before[n]);
            assert(cell_views(cells@)[k as int] == number_cell(row@, self.longest_line));
            k += 1;
        }
        assert(cell_views(cells@) =~= views.map_values(
            |r: RowView| number_cell(r, self.longest_line),
        ));
        cells
    }
}

/// The cell of a row in the column of origins: blank beside a heading, the
/// marker of its origin beside a line.
pub open spec fn origin_cell(row: RowView) -> Option<LabelView> {
    match row {
        RowView::Heading(_) => None,
        RowView::Body(line) => Some(
            LabelView {
                text: seq![marker(line.origin)],
                color: origin_color(line.origin),
                monospace: true,
            },
        ),
    }
}

/// The column of origin markers.
#[derive(Debug, PartialEq, Eq)]
pub struct OriginsWidget {
    pub lines: Vec<Line>,
    pub headers: Vec<Header>,
}

impl OriginsWidget {
    /// The origins of `lines`, with room for `headers`.
    pub fn new(lines: Vec<Line>, headers: Vec<Header>) -> (widget: OriginsWidget)
        ensures
            widget.lines == lines,
            widget.headers == headers,
    {
        OriginsWidget { lines, headers }
    }

    /// The cells of the column, one for each row of the diff.
    pub fn cells(&self) -> (cells: Vec<Option<Label>>)
        ensures
            cell_views(cells@) == rows(
                line_views(self.lines@),
                header_views(self.headers@),
            ).map_values(|r: RowView| origin_cell(r)),
    {
        let all = rows_of(&self.lines, &self.headers);
        let ghost views = rows(line_views(self.lines@), header_views(self.headers@));
        let mut cells: Vec<Option<Label>> = Vec::new();
        let mut k: usize = 0;
        while k < all.len()
            invariant
                k <= all.len(),
                cells.len() == k,
                row_views(all@) == views,
                forall|n: int|
                    0 <= n < k ==> (#[trigger] cell_views(cells@)[n]) == origin_cell(views[n]),
            decreases all.len() - k,
        {
            let ghost before = cell_views(cells@);
            let row = all[k];
            assert(views[k as int] == row@);
            match row {
                Row::Heading(_) => {
                    cells.push(None);
                },
                Row::Body(line) => {
                    let mut text = String::new();
                    text.push(line.origin.marker());
                    assert(text@ =~= seq![marker(line.origin)]);
                    cells.push(Some(Label { text, color: line.origin.color(), monospace: true }));
                },
            }
            assert(forall|n: int| 0 <= n < k ==> #[trigger] cell_views(cells@)[n] == before[n]);
            assert(cell_views(cells@)[k as int] == origin_cell(row@));
            k += 1;
        }
        assert(cell_views(cells@) =~= views.map_values(|r: RowView| origin_cell(r)));
        cells
    }
}

/// The positions of the rows of one kind, in ascending order.
pub open spec fn positions(rows: Seq<RowView>, kind: Kind) -> Seq<usize>
    decreases rows.len(),
{
    if rows.len() == 0 {
        Seq::empty()
    } else {
        let front = positions(rows.drop_last(), kind);
        if rows.last().kind() == kind {
            front.push((rows.len() - 1) as usize)
        } else {
            front
        }
    }
}

/// The positions of a kind are exactly the indices of the rows of that
/// kind, in ascending order.
pub proof fn lemma_positions(rows: Seq<RowView>, kind: Kind)
    requires
        rows.len() <= usize::MAX,
    ensures
        forall|k: usize|
            positions(rows, kind).contains(k) <==> k < rows.len() && (
            #[trigger] rows[k as int]).kind() == kind,
        forall|a: int, b: int|
            0 <= a < b < positions(rows, kind).len() ==> #[trigger] positions(rows, kind)[a]
                < #[trigger] positions(rows, kind)[b],
    decreases rows.len(),
{
    if rows.len() > 0 {
        let front = positions(rows.drop_last(), kind);
        let all = positions(rows, kind);
        lemma_positions(rows.drop_last(), kind);
        let last = (rows.len() - 1) as usize;
        assert forall|k: usize|
            all.contains(k) <==> k < rows.len() && (#[trigger] rows[k as int]).kind() == kind by {
            if k < last {
                assert(rows.drop_last()[k as int] == rows[k as int]);
            }
            if rows.last().kind() == kind {
                if front.contains(k) {
                    let n = choose|n: int| 0 <= n < front.len() && front[n] == k;
                    assert(all[n] == k);
                }
                if k == last {
                    assert(all[all.len() - 1] == k);
                }
                if all.contains(k) {
                    let n = choose|n: int| 0 <= n < all.len() && all[n] == k;
                    if n < front.len() {
                        assert(front[n] == k);
                    }
                }
            }
        }
        assert forall|a: int, b: int| 0 <= a < b < all.len() implies #[trigger] all[a]
            < #[trigger] all[b] by {
            if b == front.len() {
                let k = front[a];
                assert(front.contains(k));
                assert(k < rows.drop_last().len() && rows.drop_last()[k as int].kind() == kind);
            }
        }
    }
}

/// The text of the code column: the texts of the rows, each ended by a
/// newline.
pub open spec fn code_text(rows: Seq<RowView>) -> Seq<char> {
    rows.map_values(|r: RowView| r.text().push('\n')).flatten()
}

/// The column of code.
#[derive(Debug, PartialEq, Eq)]
pub struct CodeWidget {
    pub lines: Vec<Line>,
    pub headers: Vec<Header>,
}

impl CodeWidget {
    /// The texts of `lines` and of the `headers` that anchor them.
    pub fn new(lines: Vec<Line>, headers: Vec<Header>) -> (widget: CodeWidget)
        ensures
            widget.lines == lines,
            widget.headers == headers,
    {
        CodeWidget { lines, headers }
    }

    /// The text of the column and, for its layout, the positions of the
    /// rows of each kind.
    pub fn content(&self) -> (out: (String, LayoutHandler))
        ensures
            ({
                let rows = rows(line_views(self.lines@), header_views(self.headers@));
                &&& out.0@ == code_text(rows)
                &&& out.1.header_indices@ == positions(rows, Kind::Header)
                &&& out.1.insertion_indices@ == positions(rows, Kind::Insertion)
                &&& out.1.deletion_indices@ == positions(rows, Kind::Deletion)
                &&& out.1.neutral_indices@ == positions(rows, Kind::Neutral)
            }),
    {
        let all = rows_of(&self.lines, &self.headers);
        let ghost views = rows(line_views(self.lines@), header_views(self.headers@));
        let ghost pieces = views.map_values(|r: RowView| r.text().push('\n'));
        let mut content = String::new();
        let mut header_indices: Vec<usize> = Vec::new();
        let mut insertion_indices: Vec<usize> = Vec::new();
        let mut deletion_indices: Vec<usize> = Vec::new();
        let mut neutral_indices: Vec<usize> = Vec::new();
        let mut k: usize = 0;
        assert(pieces.take(0).flatten() =~= Seq::<char>::empty());
        while k < all.len()
            invariant
                k <= all.len(),
                row_views(all@) == views,
                pieces == views.map_values(|r: RowView| r.text().push('\n')),
                content@ == pieces.take(k as int).flatten(),
                header_indices@ == positions(views.take(k as int), Kind::Header),
                insertion_indices@ == positions(views.take(k as int), Kind::Insertion),
                deletion_indices@ == positions(views.take(k as int), Kind::Deletion),
                neutral_indices@ == positions(views.take(k as int), Kind::Neutral),
            decreases all.len() - k,
        {
            let row = all[k];
            proof {
                assert(views[k as int] == row@);
                assert(views.take(k + 1).drop_last() =~= views.take(k as int));
                assert(views.take(k + 1).last() == row@);
                assert(pieces.take(k + 1) =~= pieces.take(k as int).push(pieces[k as int]));
                pieces.take(k as int).lemma_flatten_push(pieces[k as int]);
            }
            let ghost before = content@;
            content.append(row.text());
            content.push('\n');
            assert(content@ =~= before + row@.text().push('\n'));
            match row.kind() {
                Kind::Header => header_indices.push(k),
                Kind::Insertion => insertion_indices.push(k),
                Kind::Deletion => deletion_indices.push(k),
                Kind::Neutral => neutral_indices.push(k),
            }
            k += 1;
        }
        assert(views.take(k as int) =~= views);
        assert(pieces.take(k as int) =~= pieces);
        (
            content,
            LayoutHandler::new(
                header_indices,
                insertion_indices,
                deletion_indices,
                neutral_indices,
            ),
        )
    }
}

/// The colour in which text of a kind is laid out.
pub open spec fn kind_color(kind: Kind) -> Color {
    match kind {
        Kind::Header => header_color(),
        Kind::Insertion => Color::Green,
        Kind::Deletion => Color::Red,
        Kind::Neutral => Color::White,
    }
}

impl Kind {
    /// The colour in which text of this kind is laid out.
    pub fn color(&self) -> (color: Color)
        ensures
            color == kind_color(*self),
    {
        match self {
            Kind::Header => Color::Rgb(7, 138, 171),
            Kind::Insertion => Color::Green,
            Kind::Deletion => Color::Red,
            Kind::Neutral => Color::White,
        }
    }
}

/// A stretch of text that is laid out in one format.
#[derive(Clone, Debug, PartialEq, Eq)]
pub struct Section {
    pub text: String,
    pub kind: Kind,
}

/// What a [`Section`] holds, with its text as a sequence of characters.
pub struct SectionView {
    pub text: Seq<char>,
    pub kind: Kind,
}

impl View for Section {
    type V = SectionView;

    open spec fn view(&self) -> SectionView {
        SectionView { text: self.text@, kind: self.kind }
    }
}

/// The views of a sequence of sections.
pub open spec fn section_views(sections: Seq<Section>) -> Seq<SectionView> {
    sections.map_values(|s: Section| s@)
}

/// The sections of a header line: its position part in the header format,
/// then a space, the rest of the line and a newline in the neutral format.
pub open spec fn header_sections(line: Seq<char>) -> Seq<SectionView> {
    seq![
        SectionView { text: header_position(line), kind: Kind::Header },
        SectionView { text: seq![' '], kind: Kind::Neutral },
        SectionView { text: header_synopsis(line), kind: Kind::Neutral },
        SectionView { text: seq!['\n'], kind: Kind::Neutral },
    ]
}

/// The section of a line that is laid out whole: the line and a newline.
pub open spec fn line_section(line: Seq<char>, kind: Kind) -> Seq<SectionView> {
    seq![SectionView { text: line.push('\n'), kind }]
}

/// Says how each line of the code column is laid out, by the position of
/// the line in the text.
#[derive(Debug, PartialEq, Eq)]
pub struct LayoutHandler {
    pub header_indices: Vec<usize>,
    pub insertion_indices: Vec<usize>,
    pub deletion_indices: Vec<usize>,
    pub neutral_indices: Vec<usize>,
}

/// Whether `i` is among `indices`.
fn holds(indices: &Vec<usize>, i: usize) -> (yes: bool)
    ensures
        yes == indices@.contains(i),
{
    let mut k: usize = 0;
    while k < indices.len()
        invariant
            k <= indices.len(),
            forall|n: int| 0 <= n < k ==> indices[n] != i,
        decreases indices.len() - k,
    {
        if indices[k] == i {
            return true;
        }
        k += 1;
    }
    false
}

/// `text` with one character after it.
fn followed_by(text: &str, ch: char) -> (out: String)
    ensures
        out@ == text@.push(ch),
{
    let mut out = String::new();
    out.append(text);
    out.push(ch);
    assert(out@ =~= text@.push(ch));
    out
}

/// The text that is one character.
fn single(ch: char) -> (out: String)
    ensures
        out@ == seq![ch],
{
    let mut out = String::new();
    out.push(ch);
    assert(out@ =~= seq![ch]);
    out
}

impl LayoutHandler {
    /// A handler that knows the positions of the lines of each kind.
    pub fn new(
        header_indices: Vec<usize>,
        insertion_indices: Vec<usize>,
        deletion_indices: Vec<usize>,
        neutral_indices: Vec<usize>,
    ) -> (handler: LayoutHandler)
        ensures
            handler.header_indices == header_indices,
            handler.insertion_indices == insertion_indices,
            handler.deletion_indices == deletion_indices,
            handler.neutral_indices == neutral_indices,
    {
        LayoutHandler { header_indices, insertion_indices, deletion_indices, neutral_indices }
    }

    /// The sections of the line at position `i` of the text: those of a
    /// header, of an insertion, of a deletion and of a neutral line, in
    /// this order, each if `i` is among the positions of that kind.
    pub open spec fn sections(&self, i: usize, line: Seq<char>) -> Seq<SectionView> {
        (if self.header_indices@.contains(i) {
            header_sections(line)
        } else {
            Seq::empty()
        }) + (if self.insertion_indices@.contains(i) {
            line_section(line, Kind::Insertion)
        } else {
            Seq::empty()
        }) + (if self.deletion_indices@.contains(i) {
            line_section(line, Kind::Deletion)
        } else {
            Seq::empty()
        }) + (if self.neutral_indices@.contains(i) {
            line_section(line, Kind::Neutral)
        } else {
            Seq::empty()
        })
    }

    /// The layout of `text`: the sections of its lines, one line after the
    /// other, where the lines are the pieces of `text` between newlines.
    pub open spec fn layout(&self, text: Seq<char>) -> Seq<SectionView> {
        let lines = split(text, '\n');
        Seq::new(lines.len(), |i: int| self.sections(i as usize, lines[i])).flatten()
    }

    /// Lays out `text` line by line.
    pub fn layout_job(&self, text: &str) -> (job: Vec<Section>)
        ensures
            section_views(job@) == self.layout(text@),
    {
        let lines = split_at(text, '\n');
        let ghost pieces = split(text@, '\n');
        let ghost groups = Seq::new(pieces.len(), |i: int| self.sections(i as usize, pieces[i]));
        let mut job: Vec<Section> = Vec::new();
        let mut i: usize = 0;
        assert(groups.take(0).flatten() =~= Seq::<SectionView>::empty());
        while i < lines.len()
            invariant
                i <= lines.len(),
                texts(lines@) == pieces,
                groups == Seq::new(pieces.len(), |i: int| self.sections(i as usize, pieces[i])),
                section_views(job@) == groups.take(i as int).flatten(),
            decreases lines.len() - i,
        {
            let line = lines[i].as_str();
            let ghost before = section_views(job@);
            let ghost mut added: Seq<SectionView> = Seq::empty();
            proof {
                assert(line@ == pieces[i as int]);
                assert(groups.take(i + 1) =~= groups.take(i as int).push(groups[i as int]));
                groups.take(i as int).lemma_flatten_push(groups[i as int]);
            }
            if self.is_header(i) {
                let words = split_at(line, ' ');
                job.push(Section { text: join_first(&words, 4, ' '), kind: Kind::Header });
                job.push(Section { text: single(' '), kind: Kind::Neutral });
                job.push(Section { text: join_after(&words, 4, ' '), kind: Kind::Neutral });
                job.push(Section { text: single('\n'), kind: Kind::Neutral });
                proof {
                    added = added + header_sections(line@);
                }
                assert(section_views(job@) =~= before + added);
            }
            if self.is_insertion(i) {
                job.push(Section { text: followed_by(line, '\n'), kind: Kind::Insertion });
                proof {
                    added = added + line_section(line@, Kind::Insertion);
                }
                assert(section_views(job@) =~= before + added);
            }
            if self.is_deletion(i) {
                job.push(Section { text: followed_by(line, '\n'), kind: Kind::Deletion });
                proof {
                    added = added + line_section(line@, Kind::Deletion);
                }
                assert(section_views(job@) =~= before + added);
            }
            if self.is_neutral(i) {
                job.push(Section { text: followed_by(line, '\n'), kind: Kind::Neutral });
                proof {
                    added = added + line_section(line@, Kind::Neutral);
                }
                assert(section_views(job@) =~= before + added);
            }
            assert(section_views(job@) =~= before + added);
            assert(added =~= self.sections(i, line@));
            i += 1;
        }
        assert(groups.take(i as int) =~= groups);
        job
    }

    /// Whether the line at position `i` is a hunk header.
    pub fn is_header(&self, i: usize) -> (yes: bool)
        ensures
            yes == self.header_indices@.contains(i),
    {
        holds(&self.header_indices, i)
    }

    /// Whether the line at position `i` is an insertion.
    pub fn is_insertion(&self, i: usize) -> (yes: bool)
        ensures
            yes == self.insertion_indices@.contains(i),
    {
        holds(&self.insertion_indices, i)
    }

    /// Whether the line at position `i` is a deletion.
    pub fn is_deletion(&self, i: usize) -> (yes: bool)
        ensures
            yes == self.deletion_indices@.contains(i),
    {
        holds(&self.deletion_indices, i)
    }

    /// Whether the line at position `i` is neither changed nor a header.
    pub fn is_neutral(&self, i: usize) -> (yes: bool)
        ensures
            yes == self.neutral_indices@.contains(i),
    {
        holds(&self.neutral_indices, i)
    }
}

/// A number with the word for what is counted: `one` after 1, `many`
/// after any other number.
pub open spec fn counted(n: u128, one: Seq<char>, many: Seq<char>) -> Seq<char> {
    decimal(n as nat) + (if n == 1 {
        one
    } else {
        many
    })
}

/// Writes a number with the word for what is counted; see [`counted`].
fn counted_text(n: u128, one: &str, many: &str) -> (text: String)
    ensures
        text@ == counted(n, one@, many@),
{
    let mut text = decimal_string(n);
    if n == 1 {
        text.append(one);
    } else {
        text.append(many);
    }
    text
}

/// The statistics of a project.
#[derive(Debug, PartialEq, Eq)]
pub struct StatsWidget {
    pub stats: Stats,
}

impl StatsWidget {
    /// The widget that shows `stats`.
    pub fn new(stats: Stats) -> (widget: StatsWidget)
        ensures
            widget.stats == stats,
    {
        StatsWidget { stats }
    }

    /// The three labels of the statistics: the changed files in white, the
    /// insertions in green and the deletions in red, each with its word in
    /// the singular after 1 and in the plural otherwise.
    pub fn labels(&self) -> (labels: (Label, Label, Label))
        ensures
            labels.0@ == (LabelView {
                text: counted(self.stats.files_changed, " file changed,"@, " files changed,"@),
                color: Color::White,
                monospace: false,
            }),
            labels.1@ == (LabelView {
                text: counted(self.stats.insertions, " insertion(+),"@, " insertions(+),"@),
                color: Color::Green,
                monospace: false,
            }),
            labels.2@ == (LabelView {
                text: counted(self.stats.deletions, " deletion(-)"@, " deletions(-)"@),
                color: Color::Red,
                monospace: false,
            }),
    {
        (
            Label {
                text: counted_text(self.stats.files_changed, " file changed,", " files changed,"),
                color: Color::White,
                monospace: false,
            },
            Label {
                text: counted_text(self.stats.insertions, " insertion(+),", " insertions(+),"),
                color: Color::Green,
                monospace: false,
            },
            Label {
                text: counted_text(self.stats.deletions, " deletion(-)", " deletions(-)"),
                color: Color::Red,
                monospace: false,
            },
        )
    }
}

/// The head of the window: the path of the open project and its
/// statistics.
#[derive(Debug, PartialEq, Eq)]
pub struct ProjectAreaWidget {
    pub app_data: AppData,
}

impl ProjectAreaWidget {
    /// The head of the window for the open project `app_data`.
    pub fn new(app_data: AppData) -> (widget: ProjectAreaWidget)
        ensures
            widget.app_data == app_data,
    {
        ProjectAreaWidget { app_data }
    }

    /// The path of the project, in white.
    pub fn heading(&self) -> (label: Label)
        ensures
            label@ == (LabelView {
                text: self.app_data.project_path@,
                color: Color::White,
                monospace: false,
            }),
    {
        Label { text: self.app_data.project_path.clone(), color: Color::White, monospace: false }
    }

    /// The widget of the project's statistics.
    pub fn stats(&self) -> (widget: StatsWidget)
        ensures
            widget.stats == self.app_data.stats,
    {
        StatsWidget::new(self.app_data.stats)
    }
}

/// The diff of one file in three columns: line numbers, origins, code.
#[derive(Debug, PartialEq, Eq)]
pub struct DiffAreaWidget {
    pub diff: Diff,
}

impl DiffAreaWidget {
    /// The widget that shows `diff`.
    pub fn new(diff: Diff) -> (widget: DiffAreaWidget)
        ensures
            widget.diff == diff,
    {
        DiffAreaWidget { diff }
    }

    /// What is shown in place of the columns for a diff without lines.
    pub fn no_content() -> (label: Label)
        ensures
            label@ == (LabelView { text: "No content"@, color: Color::Gray, monospace: false }),
    {
        Label { text: "No content".to_owned(), color: Color::Gray, monospace: false }
    }

    /// The three columns of the diff, each over all its lines and headers,
    /// the numbers as wide as the longest of them; nothing for a diff
    /// without lines.
    pub fn columns(&self) -> (columns: Option<(LineNumbersWidget, OriginsWidget, CodeWidget)>)
        ensures
            columns is None <==> self.diff.lines.len() == 0,
            columns matches Some((numbers, origins, code)) ==> {
                &&& numbers.lines@ == self.diff.lines@
                &&& numbers.headers@ == self.diff.headers@
                &&& exists|longest: u32|
                    is_largest_shown(self.diff@.lines, longest) && numbers.longest_line == decimal(
                        longest as nat,
                    ).len()
                &&& origins.lines@ == self.diff.lines@
                &&& origins.headers@ == self.diff.headers@
                &&& code.lines@ == self.diff.lines@
                &&& code.headers@ == self.diff.headers@
            },
    {
        if self.diff.lines.len() == 0 {
            return None;
        }
        let longest_line = self.diff.get_longest_line();
        Some(
            (
                LineNumbersWidget::new(
                    longest_line,
                    copy_lines(&self.diff.lines),
                    copy_headers(&self.diff.headers),
                ),
                OriginsWidget::new(copy_lines(&self.diff.lines), copy_headers(&self.diff.headers)),
                CodeWidget::new(copy_lines(&self.diff.lines), copy_headers(&self.diff.headers)),
            ),
        )
    }
}

/// The sections in which a row is laid out: those of a header line for a
/// heading, and the whole line in the format of its kind for a line.
pub open spec fn row_sections(row: RowView) -> Seq<SectionView> {
    match row.kind() {
        Kind::Header => header_sections(row.text()),
        kind => line_section(row.text(), kind),
    }
}

/// No text of a row holds a newline.
pub open spec fn single_lines(rows: Seq<RowView>) -> bool {
    forall|k: int, j: int|
        0 <= k < rows.len() && 0 <= j < rows[k].text().len() ==> #[trigger] rows[k].text()[j]
            != '\n'
}

/// The lines of the text of the code column are the texts of the rows, and
/// one empty line after the last newline, as long as no text holds a
/// newline itself.
pub proof fn lemma_code_text_lines(rows: Seq<RowView>)
    requires
        single_lines(rows),
    ensures
        split(code_text(rows), '\n') == rows.map_values(|r: RowView| r.text()).push(Seq::empty()),
    decreases rows.len(),
{
    let ended = rows.map_values(|r: RowView| r.text().push('\n'));
    let plain = rows.map_values(|r: RowView| r.text());
    if rows.len() == 0 {
        assert(ended.flatten() =~= Seq::<char>::empty());
        assert(split(code_text(rows), '\n') =~= plain.push(Seq::empty()));
    } else {
        let front = rows.drop_last();
        let last = rows.last().text();
        assert(single_lines(front)) by {
            assert forall|k: int, j: int|
                0 <= k < front.len() && 0 <= j < front[k].text().len() implies (
            #[trigger] front[k].text()[j]) != '\n' by {
                assert(rows[k].text()[j] != '\n');
            }
        }
        lemma_code_text_lines(front);
        let front_ended = front.map_values(|r: RowView| r.text().push('\n'));
        let front_plain = front.map_values(|r: RowView| r.text());
        assert(ended =~= front_ended.push(last.push('\n')));
        front_ended.lemma_flatten_push(last.push('\n'));
        let before = code_text(front);
        assert(code_text(rows) =~= (before + last).push('\n'));
        assert forall|j: int| 0 <= j < last.len() implies last[j] != '\n' by {
            assert(rows[rows.len() - 1].text()[j] != '\n');
        }
        crate::text::lemma_split_append(before, last, '\n');
        let pieces = split(before, '\n');
        assert(pieces.drop_last() =~= front_plain);
        assert(pieces.last() + last =~= last);
        assert((before + last).push('\n').drop_last() =~= before + last);
        assert(split(code_text(rows), '\n') =~= plain.push(Seq::empty()));
    }
}

/// The layout of the code column agrees with its rows: with the text and
/// the positions that [`CodeWidget::content`] gives, every row is laid out
/// in the sections of its own kind, one row after the other, as long as no
/// text of a row holds a newline.
pub proof fn lemma_layout_follows_rows(rows: Seq<RowView>, handler: LayoutHandler)
    requires
        rows.len() <= usize::MAX,
        single_lines(rows),
        handler.header_indices@ == positions(rows, Kind::Header),
        handler.insertion_indices@ == positions(rows, Kind::Insertion),
        handler.deletion_indices@ == positions(rows, Kind::Deletion),
        handler.neutral_indices@ == positions(rows, Kind::Neutral),
    ensures
        handler.layout(code_text(rows)) == rows.map_values(|r: RowView| row_sections(r)).flatten(),
{
    let lines = split(code_text(rows), '\n');
    let groups = Seq::new(lines.len(), |i: int| handler.sections(i as usize, lines[i]));
    let by_row = rows.map_values(|r: RowView| row_sections(r));
    lemma_code_text_lines(rows);
    lemma_positions(rows, Kind::Header);
    lemma_positions(rows, Kind::Insertion);
    lemma_positions(rows, Kind::Deletion);
    lemma_positions(rows, Kind::Neutral);
    assert forall|i: int| 0 <= i < rows.len() implies groups[i] == by_row[i] by {
        let k = i as usize;
        let kind = rows[k as int].kind();
        assert(lines[i] == rows[i].text());
        assert(handler.header_indices@.contains(k) <==> kind == Kind::Header);
        assert(handler.insertion_indices@.contains(k) <==> kind == Kind::Insertion);
        assert(handler.deletion_indices@.contains(k) <==> kind == Kind::Deletion);
        assert(handler.neutral_indices@.contains(k) <==> kind == Kind::Neutral);
        assert(handler.sections(k, lines[i]) =~= row_sections(rows[i]));
    }
    let end = rows.len() as usize;
    assert(groups[rows.len() as int] =~= Seq::<SectionView>::empty()) by {
        let beyond = rows[end as int].kind();
        assert(!handler.header_indices@.contains(end));
        assert(!handler.insertion_indices@.contains(end));
        assert(!handler.deletion_indices@.contains(end));
        assert(!handler.neutral_indices@.contains(end));
    }
    assert(groups =~= by_row.push(Seq::empty()));
    by_row.lemma_flatten_push(Seq::empty());
    assert(by_row.flatten() + Seq::<SectionView>::empty() =~= by_row.flatten());
}

} // verus!
