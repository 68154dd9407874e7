//! Diffs of a working tree against its last commit: classified lines, hunk
//! headers, per-file diffs and project-wide statistics.
//!
//! Reading the repository is left to the caller. What the comparison emits is
//! handed in as [`RawFileDelta`] values, and everything from there on is
//! computed here.

use crate::text::{decimal, decimal_string};
use vstd::prelude::*;
use vstd::utf8::{decode_utf8, valid_utf8};

verus! {

/// The side of the comparison that a line belongs to.
#[derive(Clone, Copy, Debug, PartialEq, Eq, Structural)]
pub enum Origin {
    /// The line exists in the working tree only.
    Addition,
    /// The line exists in the committed file only.
    Deletion,
    /// The line exists on both sides, unchanged.
    Context,
}

/// One row of a file's diff.
///
/// An addition never carries an old line number and a deletion never carries
/// a new one; see [`LineView::well_formed`].
#[derive(Clone, Debug, PartialEq, Eq)]
pub struct Line {
    pub origin: Origin,
    pub old_line_number: Option<u32>,
    pub new_line_number: Option<u32>,
    /// The text of the line, without origin marker and without the newline
    /// that ends it.
    pub content: String,
}

/// What a [`Line`] holds, with its text as a sequence of characters.
pub struct LineView {
    pub origin: Origin,
    pub old_line_number: Option<u32>,
    pub new_line_number: Option<u32>,
    pub content: Seq<char>,
}

impl View for Line {
    type V = LineView;

    open spec fn view(&self) -> LineView {
        LineView {
            origin: self.origin,
            old_line_number: self.old_line_number,
            new_line_number: self.new_line_number,
            content: self.content@,
        }
    }
}

impl LineView {
    /// No line number is kept for a side on which the line does not exist.
    pub open spec fn well_formed(self) -> bool {
        &&& self.origin is Addition ==> self.old_line_number is None
        &&& self.origin is Deletion ==> self.new_line_number is None
    }

    /// A line number is present for exactly the sides on which the line
    /// exists: the old side for deletions and context, the new side for
    /// additions and context.
    pub open spec fn numbered(self) -> bool {
        &&& self.old_line_number is Some <==> !(self.origin is Addition)
        &&& self.new_line_number is Some <==> !(self.origin is Deletion)
    }

    /// Exactly one of the two line numbers is present.
    pub open spec fn one_sided(self) -> bool {
        self.old_line_number is Some != self.new_line_number is Some
    }

    /// The number shown beside the line: the old one for a deletion, the new
    /// one otherwise, and 0 where that number is absent.
    pub open spec fn shown_number(self) -> u32 {
        let number = if self.origin is Deletion {
            self.old_line_number
        } else {
            self.new_line_number
        };
        match number {
            Some(n) => n,
            None => 0,
        }
    }
}

/// The origin that a marker of the comparison stands for: `'+'` an addition,
/// `'-'` a deletion, anything else context.
pub open spec fn origin_of(marker: char) -> Origin {
    if marker == '+' {
        Origin::Addition
    } else if marker == '-' {
        Origin::Deletion
    } else {
        Origin::Context
    }
}

/// `text` without the newline that ends it, if one does.
pub open spec fn without_newline(text: Seq<char>) -> Seq<char> {
    if text.len() > 0 && text.last() == '\n' {
        text.drop_last()
    } else {
        text
    }
}

/// The line that a raw line of the comparison becomes.
pub open spec fn classified(
    marker: char,
    old_line_number: Option<u32>,
    new_line_number: Option<u32>,
    content: Seq<char>,
) -> LineView {
    LineView {
        origin: origin_of(marker),
        old_line_number: if marker == '+' {
            None
        } else {
            old_line_number
        },
        new_line_number: if marker == '-' {
            None
        } else {
            new_line_number
        },
        content: without_newline(content),
    }
}

/// Copies `text` without the newline that ends it, if one does.
pub fn strip_newline(text: &str) -> (stripped: String)
    ensures
        stripped@ == without_newline(text@),
{
    let len: usize = text.unicode_len();
    if len > 0 && text.get_char(len - 1) == '\n' {
        text.substring_char(0, len - 1).to_owned()
    } else {
        text.to_owned()
    }
}

/// Classifies one raw line of the comparison.
///
/// Never fails: a marker that is neither `'+'` nor `'-'` is taken as context.
/// An addition drops the old line number and a deletion the new one, even if
/// the comparison reported them.
pub fn classify(
    marker: char,
    old_line_number: Option<u32>,
    new_line_number: Option<u32>,
    content: &str,
) -> (line: Line)
    ensures
        line@ == classified(marker, old_line_number, new_line_number, content@),
        line@.well_formed(),
{
    let content = strip_newline(content);
    if marker == '+' {
        Line { origin: Origin::Addition, old_line_number: None, new_line_number, content }
    } else if marker == '-' {
        Line { origin: Origin::Deletion, old_line_number, new_line_number: None, content }
    } else {
        Line { origin: Origin::Context, old_line_number, new_line_number, content }
    }
}

/// A hunk boundary of a file's diff.
///
/// A header holds no reference to a line. Which line it precedes is found by
/// matching its anchor against the lines; see [`HeaderView::anchors`].
#[derive(Clone, Debug, PartialEq, Eq)]
pub struct Header {
    /// The number, in the new file, of the context line that opens the hunk;
    /// 0 if the hunk has none.
    pub anchor_line: u32,
    /// The text of the hunk header, without the newline that ends it.
    pub content: String,
}

/// What a [`Header`] holds, with its text as a sequence of characters.
pub struct HeaderView {
    pub anchor_line: u32,
    pub content: Seq<char>,
}

impl View for Header {
    type V = HeaderView;

    open spec fn view(&self) -> HeaderView {
        HeaderView { anchor_line: self.anchor_line, content: self.content@ }
    }
}

impl HeaderView {
    /// The header precedes `line`: the line is context and its new line
    /// number is the header's anchor. An addition or a deletion is never
    /// preceded by a header, whatever its number.
    pub open spec fn anchors(self, line: LineView) -> bool {
        line.origin is Context && line.new_line_number == Some(self.anchor_line)
    }
}

/// The header that a raw hunk boundary becomes.
pub open spec fn header_of(anchor_line: Option<u32>, text: Seq<char>) -> HeaderView {
    HeaderView {
        anchor_line: match anchor_line {
            Some(n) => n,
            None => 0,
        },
        content: without_newline(text),
    }
}

impl Line {
    /// The number shown beside the line: the old one for a deletion, the new
    /// one otherwise, and 0 where that number is absent.
    pub fn shown_number(&self) -> (number: u32)
        ensures
            number == self@.shown_number(),
    {
        let number = match self.origin {
            Origin::Deletion => self.old_line_number,
            _ => self.new_line_number,
        };
        match number {
            Some(n) => n,
            None => 0,
        }
    }
}

impl Header {
    /// Builds the header of a hunk from what the comparison reports of it:
    /// the new-file number of its opening context line, if it has one, and
    /// the header text.
    pub fn from_hunk(anchor_line: Option<u32>, text: &str) -> (header: Header)
        ensures
            header@ == header_of(anchor_line, text@),
    {
        let anchor_line: u32 = match anchor_line {
            Some(n) => n,
            None => 0,
        };
        Header { anchor_line, content: strip_newline(text) }
    }

    /// Whether this header precedes `line`.
    pub fn anchors(&self, line: &Line) -> (yes: bool)
        ensures
            yes == self@.anchors(line@),
    {
        match (line.origin, line.new_line_number) {
            (Origin::Context, Some(n)) => n == self.anchor_line,
            _ => false,
        }
    }
}

/// The one error of retrieval: the path names no repository, the repository
/// has no commit to compare with, or the comparison could not be computed or
/// read, which includes text that is not UTF-8. The causes are not told apart.
#[derive(Clone, Copy, Debug, PartialEq, Eq, Structural)]
pub struct DiffParsingError;

/// `std::str::from_utf8` of the standard library: it succeeds exactly on the
/// byte sequences that are well-formed UTF-8, and the text then consists of
/// the characters that the bytes encode.
#[verifier::external_body]
fn from_utf8(bytes: &[u8]) -> (text: Option<&str>)
    ensures
        text is Some <==> valid_utf8(bytes@),
        text matches Some(t) ==> t@ == decode_utf8(bytes@),
{
    match std::str::from_utf8(bytes) {
        Ok(text) => Some(text),
        Err(_) => None,
    }
}

/// Reads bytes of the comparison as text. Bytes that are not well-formed
/// UTF-8 are an error.
pub fn text_of(bytes: &[u8]) -> (text: Result<String, DiffParsingError>)
    ensures
        match text {
            Ok(t) => valid_utf8(bytes@) && t@ == decode_utf8(bytes@),
            Err(_) => !valid_utf8(bytes@),
        },
{
    match from_utf8(bytes) {
        Some(text) => Ok(text.to_owned()),
        None => Err(DiffParsingError),
    }
}

/// A line as the comparison emits it.
#[derive(Clone, Debug, PartialEq, Eq)]
pub struct RawLine {
    /// The origin marker: `'+'`, `'-'`, `' '`, or one of the markers that
    /// stand for no line of either file (see [`renders`]).
    pub marker: char,
    pub old_line_number: Option<u32>,
    pub new_line_number: Option<u32>,
    /// The bytes of the line, with or without the newline that ends it.
    pub content: Vec<u8>,
}

/// A hunk boundary as the comparison emits it.
#[derive(Clone, Debug, PartialEq, Eq)]
pub struct RawHunk {
    /// The new-file number of the context line that opens the hunk, if any.
    pub anchor_line: Option<u32>,
    /// The bytes of the header, with or without the newline that ends it.
    pub header: Vec<u8>,
}

/// Everything the comparison emits for one changed file: its hunks in
/// ascending position and its lines in the order of the unified diff body.
#[derive(Clone, Debug, PartialEq, Eq)]
pub struct RawFileDelta {
    /// The bytes of the path of the file, relative to the project.
    pub path: Vec<u8>,
    pub hunks: Vec<RawHunk>,
    pub lines: Vec<RawLine>,
}

/// Whether a raw line with this marker becomes a [`Line`].
///
/// The markers for a file header (`'F'`), a hunk header (`'H'`), binary
/// content (`'B'`) and a missing newline at the end of a file (`'='`, `'>'`,
/// `'<'`) stand for no line of either file and are left out.
pub open spec fn renders(marker: char) -> bool {
    marker != 'F' && marker != 'H' && marker != 'B' && marker != '=' && marker != '>' && marker
        != '<'
}

impl RawLine {
    /// The content can be read: it is text, or the line is left out and
    /// its content never looked at.
    pub open spec fn readable(self) -> bool {
        renders(self.marker) ==> valid_utf8(self.content@)
    }

    /// The line that this raw line becomes, if it becomes one.
    pub open spec fn line(self) -> Option<LineView> {
        if renders(self.marker) {
            Some(
                classified(
                    self.marker,
                    self.old_line_number,
                    self.new_line_number,
                    decode_utf8(self.content@),
                ),
            )
        } else {
            None
        }
    }

    /// Whether this raw line becomes a [`Line`].
    pub fn renders(&self) -> (yes: bool)
        ensures
            yes == renders(self.marker),
    {
        let m: char = self.marker;
        m != 'F' && m != 'H' && m != 'B' && m != '=' && m != '>' && m != '<'
    }
}

impl RawHunk {
    /// The header text can be read.
    pub open spec fn readable(self) -> bool {
        valid_utf8(self.header@)
    }

    /// The header that this hunk boundary becomes.
    pub open spec fn header(self) -> HeaderView {
        header_of(self.anchor_line, decode_utf8(self.header@))
    }
}

/// All of the raw lines can be read.
pub open spec fn lines_readable(raw: Seq<RawLine>) -> bool {
    forall|i: int| 0 <= i < raw.len() ==> (#[trigger] raw[i]).readable()
}

/// All of the raw hunk headers can be read.
pub open spec fn hunks_readable(raw: Seq<RawHunk>) -> bool {
    forall|i: int| 0 <= i < raw.len() ==> (#[trigger] raw[i]).readable()
}

impl RawFileDelta {
    /// Everything of the delta that becomes part of a diff can be read as
    /// text: the path, the header of every hunk, and every line that
    /// renders.
    pub open spec fn readable(self) -> bool {
        &&& valid_utf8(self.path@)
        &&& hunks_readable(self.hunks@)
        &&& lines_readable(self.lines@)
    }
}

/// All of the raw deltas can be read.
pub open spec fn deltas_readable(raw: Seq<RawFileDelta>) -> bool {
    forall|i: int| 0 <= i < raw.len() ==> (#[trigger] raw[i]).readable()
}

/// The views of a sequence of lines.
pub open spec fn line_views(lines: Seq<Line>) -> Seq<LineView> {
    lines.map_values(|l: Line| l@)
}

/// The views of a sequence of headers.
pub open spec fn header_views(headers: Seq<Header>) -> Seq<HeaderView> {
    headers.map_values(|h: Header| h@)
}

/// Maps a raw line to the line it becomes, if any.
pub open spec fn to_line() -> spec_fn(RawLine) -> Option<LineView> {
    |r: RawLine| r.line()
}

/// The lines of a file's diff: one for each raw line that renders, in the
/// order in which the comparison emitted them.
pub open spec fn classified_lines(raw: Seq<RawLine>) -> Seq<LineView> {
    raw.filter_map(to_line())
}

/// The headers of a file's diff: one for each hunk, in order.
pub open spec fn hunk_headers(raw: Seq<RawHunk>) -> Seq<HeaderView> {
    raw.map_values(|h: RawHunk| h.header())
}

/// Classifies the raw lines of one file, leaving out those that stand for
/// no line (see [`renders`]) and keeping the order of the rest.
///
/// Fails exactly when the content of a line that renders is not text.
pub fn classify_lines(raw: &Vec<RawLine>) -> (lines: Result<Vec<Line>, DiffParsingError>)
    ensures
        match lines {
            Ok(lines) => {
                &&& lines_readable(raw@)
                &&& line_views(lines@) == classified_lines(raw@)
                &&& forall|i: int| 0 <= i < lines.len() ==> (#[trigger] lines[i])@.well_formed()
            },
            Err(_) => !lines_readable(raw@),
        },
{
    let mut lines: Vec<Line> = Vec::new();
    let mut i: usize = 0;
    while i < raw.len()
        invariant
            i <= raw.len(),
            lines_readable(raw@.take(i as int)),
            line_views(lines@) == classified_lines(raw@.take(i as int)),
            forall|k: int| 0 <= k < lines.len() ==> (#[trigger] lines[k])@.well_formed(),
        decreases raw.len() - i,
    {
        let r = &raw[i];
        let ghost before = lines@;
        proof {
            raw@.lemma_filter_map_take_succ(to_line(), i as int);
        }
        if r.renders() {
            match text_of(r.content.as_slice()) {
                Ok(content) => {
                    let line = classify(
                        r.marker,
                        r.old_line_number,
                        r.new_line_number,
                        content.as_str(),
                    );
                    lines.push(line);
                    assert(line_views(lines@) =~= line_views(before) + seq![line@]);
                },
                Err(error) => {
                    assert(!raw[i as int].readable());
                    return Err(error);
                },
            }
        }
        assert forall|k: int| 0 <= k < i + 1 implies (#[trigger] raw@.take(
            i + 1,
        )[k]).readable() by {
            if k < i {
                assert(raw@.take(i as int)[k].readable());
            }
        }
        i += 1;
    }
    assert(raw@.take(raw.len() as int) =~= raw@);
    Ok(lines)
}

/// Builds the header of each hunk of one file, in order.
///
/// Fails exactly when the bytes of a header are not text.
pub fn hunk_headers_of(raw: &Vec<RawHunk>) -> (headers: Result<Vec<Header>, DiffParsingError>)
    ensures
        match headers {
            Ok(headers) => hunks_readable(raw@) && header_views(headers@) == hunk_headers(raw@),
            Err(_) => !hunks_readable(raw@),
        },
{
    let mut headers: Vec<Header> = Vec::new();
    let mut i: usize = 0;
    while i < raw.len()
        invariant
            i <= raw.len(),
            headers.len() == i,
            forall|k: int| 0 <= k < i ==> (#[trigger] raw[k]).readable(),
            forall|k: int| 0 <= k < i ==> (#[trigger] headers[k])@ == raw[k].header(),
        decreases raw.len() - i,
    {
        let h = &raw[i];
        match text_of(h.header.as_slice()) {
            Ok(text) => {
                headers.push(Header::from_hunk(h.anchor_line, text.as_str()));
            },
            Err(error) => {
                assert(!raw[i as int].readable());
                return Err(error);
            },
        }
        i += 1;
    }
    assert(header_views(headers@) =~= hunk_headers(raw@));
    Ok(headers)
}

/// The full diff of one file.
///
/// Lines and headers are two independent sequences. An empty `lines` stands
/// for a change with no text to show, such as a change of binary content.
#[derive(Clone, Debug, PartialEq, Eq)]
pub struct Diff {
    /// The path of the file, relative to the project.
    pub file_name: String,
    /// The lines in the order of the unified diff body.
    pub lines: Vec<Line>,
    /// One header for each hunk of the file, in ascending position.
    pub headers: Vec<Header>,
}

/// What a [`Diff`] holds, with its texts as sequences of characters.
pub struct DiffView {
    pub file_name: Seq<char>,
    pub lines: Seq<LineView>,
    pub headers: Seq<HeaderView>,
}

impl View for Diff {
    type V = DiffView;

    open spec fn view(&self) -> DiffView {
        DiffView {
            file_name: self.file_name@,
            lines: line_views(self.lines@),
            headers: header_views(self.headers@),
        }
    }
}

/// The views of a sequence of diffs.
pub open spec fn diff_views(diffs: Seq<Diff>) -> Seq<DiffView> {
    diffs.map_values(|d: Diff| d@)
}

/// `number` is the largest number shown beside any of `lines`, and 0 if
/// there are none.
pub open spec fn is_largest_shown(lines: Seq<LineView>, number: u32) -> bool {
    &&& forall|i: int| 0 <= i < lines.len() ==> (#[trigger] lines[i]).shown_number() <= number
    &&& lines.len() == 0 ==> number == 0
    &&& lines.len() > 0 ==> exists|i: int|
        0 <= i < lines.len() && (#[trigger] lines[i]).shown_number() == number
}

impl DiffView {
    /// The number of lines of this diff that have the given origin.
    pub open spec fn count(self, origin: Origin) -> nat {
        self.lines.filter(|l: LineView| l.origin == origin).len()
    }
}

/// The number of lines with the given origin in all of `diffs` together.
pub open spec fn total(diffs: Seq<DiffView>, origin: Origin) -> nat
    decreases diffs.len(),
{
    if diffs.len() == 0 {
        0
    } else {
        total(diffs.drop_last(), origin) + diffs.last().count(origin)
    }
}

/// Project-wide counts over a set of diffs.
///
/// The counts are kept in 128 bits: no sum of the lengths of vectors leaves
/// that range, so [`aggregate`] is exact on every input.
#[derive(Clone, Copy, Debug, PartialEq, Eq, Structural)]
pub struct Stats {
    /// The number of files reported as changed, those without lines included.
    pub files_changed: u128,
    /// The number of added lines in all files together.
    pub insertions: u128,
    /// The number of deleted lines in all files together.
    pub deletions: u128,
}

impl Stats {
    /// These are the counts over `diffs`: every diff is a changed file, and
    /// the insertions and deletions are the added and deleted lines of all
    /// diffs together.
    pub open spec fn counts(self, diffs: Seq<DiffView>) -> bool {
        &&& self.files_changed == diffs.len()
        &&& self.insertions == total(diffs, Origin::Addition)
        &&& self.deletions == total(diffs, Origin::Deletion)
    }
}

/// The diff that the raw delta of one file becomes.
pub open spec fn assembled(delta: RawFileDelta) -> DiffView {
    DiffView {
        file_name: decode_utf8(delta.path@),
        lines: classified_lines(delta.lines@),
        headers: hunk_headers(delta.hunks@),
    }
}

/// The diffs that the raw deltas of a project become: one for each file, in
/// the order in which the comparison reported the files.
pub open spec fn assembled_all(deltas: Seq<RawFileDelta>) -> Seq<DiffView> {
    deltas.map_values(|d: RawFileDelta| assembled(d))
}

/// Puts the parts of one file's diff together, as they are.
pub fn assemble(file_name: String, lines: Vec<Line>, headers: Vec<Header>) -> (diff: Diff)
    ensures
        diff.file_name == file_name,
        diff.lines == lines,
        diff.headers == headers,
{
    Diff { file_name, lines, headers }
}

impl Diff {
    /// The path of the file, relative to the project.
    pub fn file_name(&self) -> (name: &str)
        ensures
            name@ == self.file_name@,
    {
        self.file_name.as_str()
    }

    /// The largest line number shown beside any line of this diff, and 0
    /// if it has no lines.
    pub fn largest_shown_number(&self) -> (number: u32)
        ensures
            is_largest_shown(self@.lines, number),
    {
        let ghost views = line_views(self.lines@);
        let mut number: u32 = 0;
        let mut i: usize = 0;
        while i < self.lines.len()
            invariant
                i <= self.lines.len(),
                views == line_views(self.lines@),
                is_largest_shown(views.take(i as int), number),
            decreases self.lines.len() - i,
        {
            let ghost before = views.take(i as int);
            let ghost after = views.take(i + 1);
            let shown: u32 = self.lines[i].shown_number();
            proof {
                assert(after[i as int] == views[i as int]);
                assert(forall|k: int| 0 <= k < i ==> after[k] == before[k]);
                if shown <= number && i > 0 {
                    let k = choose|k: int|
                        0 <= k < before.len() && (#[trigger] before[k]).shown_number() == number;
                    assert(after[k].shown_number() == number);
                }
            }
            if shown > number {
                number = shown;
            }
            i += 1;
        }
        assert(views.take(i as int) =~= views);
        number
    }

    /// The width of the column of line numbers: the length of the numeral
    /// of the largest number shown beside any line.
    pub fn get_longest_line(&self) -> (width: usize)
        ensures
            exists|longest: u32|
                is_largest_shown(self@.lines, longest) && width == decimal(longest as nat).len(),
    {
        let longest: u32 = self.largest_shown_number();
        decimal_string(longest as u128).as_str().unicode_len()
    }

    /// The number of lines of this diff that have the given origin.
    pub fn count(&self, origin: Origin) -> (n: usize)
        ensures
            n == self@.count(origin),
    {
        let ghost of = |l: LineView| l.origin == origin;
        let mut n: usize = 0;
        let mut i: usize = 0;
        while i < self.lines.len()
            invariant
                i <= self.lines.len(),
                n <= i,
                of == |l: LineView| l.origin == origin,
                n == line_views(self.lines@).take(i as int).filter(of).len(),
            decreases self.lines.len() - i,
        {
            proof {
                let views = line_views(self.lines@);
                assert(views.take(i + 1) =~= views.take(i as int).push(views[i as int]));
                views.take(i as int).lemma_filter_push(views[i as int], of);
            }
            if self.lines[i].origin == origin {
                n += 1;
            }
            i += 1;
        }
        assert(line_views(self.lines@).take(i as int) =~= line_views(self.lines@));
        n
    }
}

/// Counts the changed files, the insertions and the deletions of `diffs`.
///
/// Every diff counts as one changed file, also one without lines.
pub fn aggregate(diffs: &Vec<Diff>) -> (stats: Stats)
    ensures
        stats.counts(diff_views(diffs@)),
{
    let ghost views = diff_views(diffs@);
    let mut insertions: u128 = 0;
    let mut deletions: u128 = 0;
    let mut i: usize = 0;
    while i < diffs.len()
        invariant
            i <= diffs.len(),
            views == diff_views(diffs@),
            insertions == total(views.take(i as int), Origin::Addition),
            deletions == total(views.take(i as int), Origin::Deletion),
            insertions <= i * 0x1_0000_0000_0000_0000,
            deletions <= i * 0x1_0000_0000_0000_0000,
        decreases diffs.len() - i,
    {
        let added: usize = diffs[i].count(Origin::Addition);
        let deleted: usize = diffs[i].count(Origin::Deletion);
        proof {
            assert(views.take(i + 1).drop_last() =~= views.take(i as int));
            assert(views.take(i + 1).last() == diffs[i as int]@);
        }
        insertions += added as u128;
        deletions += deleted as u128;
        i += 1;
    }
    assert(views.take(diffs.len() as int) =~= views);
    Stats { files_changed: diffs.len() as u128, insertions, deletions }
}

/// Retrieval succeeds on this outcome of the repository access: the access
/// succeeded, and all that it gave can be read as text.
pub open spec fn retrievable(accessed: Result<Vec<RawFileDelta>, DiffParsingError>) -> bool {
    accessed matches Ok(deltas) && deltas_readable(deltas@)
}

/// `result` is what retrieval gives for what the repository access gave:
/// the one error where the access failed or gave what cannot be read, and
/// else the diffs of all reported files, in order, with the counts over
/// exactly those diffs.
pub open spec fn retrieved(
    accessed: Result<Vec<RawFileDelta>, DiffParsingError>,
    result: Result<(Vec<Diff>, Stats), DiffParsingError>,
) -> bool {
    if retrievable(accessed) {
        &&& result matches Ok((diffs, stats))
        &&& diff_views(diffs@) == assembled_all(accessed->Ok_0@)
        &&& stats.counts(diff_views(diffs@))
        &&& forall|i: int, j: int|
            0 <= i < diffs.len() && 0 <= j < diffs[i].lines.len() ==> (
            #[trigger] diffs[i].lines[j])@.well_formed()
    } else {
        result is Err
    }
}

/// Builds the diff of one file from its raw delta.
///
/// Fails exactly when the delta holds what cannot be read as text.
pub fn diff_of(delta: &RawFileDelta) -> (diff: Result<Diff, DiffParsingError>)
    ensures
        match diff {
            Ok(diff) => {
                &&& delta.readable()
                &&& diff@ == assembled(*delta)
                &&& forall|j: int|
                    0 <= j < diff.lines.len() ==> (#[trigger] diff.lines[j])@.well_formed()
            },
            Err(_) => !delta.readable(),
        },
{
    let file_name = match text_of(delta.path.as_slice()) {
        Ok(text) => text,
        Err(error) => {
            return Err(error);
        },
    };
    let headers = match hunk_headers_of(&delta.hunks) {
        Ok(headers) => headers,
        Err(error) => {
            return Err(error);
        },
    };
    let lines = match classify_lines(&delta.lines) {
        Ok(lines) => lines,
        Err(error) => {
            return Err(error);
        },
    };
    Ok(assemble(file_name, lines, headers))
}

/// Retrieves the diffs and their statistics from the outcome of the
/// repository access.
///
/// An error of the access is handed on, and bytes that are no text are the
/// same error; nothing else is returned with it. Otherwise each reported
/// file gives one diff, in the order reported, and the statistics count
/// exactly those diffs.
pub fn get_diffs(accessed: Result<Vec<RawFileDelta>, DiffParsingError>) -> (result: Result<
    (Vec<Diff>, Stats),
    DiffParsingError,
>)
    ensures
        retrieved(accessed, result),
{
    match accessed {
        Err(error) => Err(error),
        Ok(deltas) => {
            let mut diffs: Vec<Diff> = Vec::new();
            let mut i: usize = 0;
            while i < deltas.len()
                invariant
                    i <= deltas.len(),
                    diffs.len() == i,
                    accessed == Ok::<Vec<RawFileDelta>, DiffParsingError>(deltas),
                    forall|k: int| 0 <= k < i ==> (#[trigger] deltas[k]).readable(),
                    forall|k: int| 0 <= k < i ==> (#[trigger] diffs[k])@ == assembled(deltas[k]),
                    forall|k: int, j: int|
                        0 <= k < diffs.len() && 0 <= j < diffs[k].lines.len() ==> (
                        #[trigger] diffs[k].lines[j])@.well_formed(),
                decreases deltas.len() - i,
            {
                match diff_of(&deltas[i]) {
                    Ok(diff) => {
                        diffs.push(diff);
                    },
                    Err(error) => {
                        assert(!deltas[i as int].readable());
                        return Err(error);
                    },
                }
                i += 1;
            }
            assert(diff_views(diffs@) =~= assembled_all(deltas@));
            let stats = aggregate(&diffs);
            Ok((diffs, stats))
        },
    }
}

/// Copies a sequence of lines.
pub fn copy_lines(lines: &Vec<Line>) -> (copy: Vec<Line>)
    ensures
        copy@ == lines@,
{
    let mut copy: Vec<Line> = Vec::new();
    let mut i: usize = 0;
    while i < lines.len()
        invariant
            i <= lines.len(),
            copy@ == lines@.take(i as int),
        decreases lines.len() - i,
    {
        let line = &lines[i];
        copy.push(
            Line {
                origin: line.origin,
                old_line_number: line.old_line_number,
                new_line_number: line.new_line_number,
                content: line.content.clone(),
            },
        );
        assert(copy@ =~= lines@.take(i + 1));
        i += 1;
    }
    assert(lines@.take(i as int) =~= lines@);
    copy
}

/// Copies a sequence of headers.
pub fn copy_headers(headers: &Vec<Header>) -> (copy: Vec<Header>)
    ensures
        copy@ == headers@,
{
    let mut copy: Vec<Header> = Vec::new();
    let mut i: usize = 0;
    while i < headers.len()
        invariant
            i <= headers.len(),
            copy@ == headers@.take(i as int),
        decreases headers.len() - i,
    {
        let header = &headers[i];
        copy.push(Header { anchor_line: header.anchor_line, content: header.content.clone() });
        assert(copy@ =~= headers@.take(i + 1));
        i += 1;
    }
    assert(headers@.take(i as int) =~= headers@);
    copy
}

} // verus!
