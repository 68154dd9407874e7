//! The state of the viewer and how each event changes it.
//!
//! Nothing here reads a repository or draws. Whoever does calls in with the
//! outcome of the repository access and draws what the state says.

use crate::git::{
    get_diffs, is_largest_shown, retrievable, retrieved, Diff, DiffParsingError, Line, LineView,
    RawFileDelta, Stats,
};
use crate::rows::{row_views, rows, rows_of, Row, RowView};
use crate::style::{header_labels, line_label, Color, Label, LabelView};
use crate::text::{decimal, decimal_string, pad_left, padded};
use vstd::prelude::*;

verus! {

/// Why a project could not be opened.
#[derive(Clone, Copy, Debug, PartialEq, Eq, Structural)]
pub enum AppDataCreationError {
    /// The path is not text, or retrieval of the diffs failed.
    Parsing,
}

/// An open project: its diffs, their statistics, and the diff on display.
#[derive(Debug, PartialEq, Eq)]
pub struct AppData {
    pub project_path: String,
    pub diffs: Vec<Diff>,
    pub stats: Stats,
    pub selected_diff_index: usize,
}

/// The line of statistics under the project's path.
pub open spec fn stats_line(stats: Stats) -> Seq<char> {
    decimal(stats.files_changed as nat) + " file(s) changed, "@ + decimal(stats.insertions as nat)
        + " insertions(+), "@ + decimal(stats.deletions as nat) + " deletions(-)\n"@
}

/// The number beside `line`, padded on the left to the width of the
/// numeral of `longest_line`.
pub open spec fn line_number_text(line: LineView, longest_line: u32) -> Seq<char> {
    padded(decimal(line.shown_number() as nat), decimal(longest_line as nat).len())
}

/// A row of the diff on display as the two labels drawn side by side: the
/// two parts of a header, or the number and the text of a line.
pub open spec fn shown_row(row: RowView, longest_line: u32) -> (LabelView, LabelView) {
    match row {
        RowView::Heading(header) => header_labels(header),
        RowView::Body(line) => (
            LabelView {
                text: line_number_text(line, longest_line),
                color: Color::Gray,
                monospace: true,
            },
            line_label(line),
        ),
    }
}

/// The views of a sequence of pairs of labels.
pub open spec fn pair_views(pairs: Seq<(Label, Label)>) -> Seq<(LabelView, LabelView)> {
    pairs.map_values(|p: (Label, Label)| (p.0@, p.1@))
}

/// What the area of the diff shows.
#[derive(Debug, PartialEq, Eq)]
pub enum DiffArea {
    /// Nothing: no project is open, or the selection names no diff.
    Empty,
    /// A notice in place of a diff without lines.
    NoContent(Label),
    /// The rows of the diff, each as two labels side by side.
    Rows(Vec<(Label, Label)>),
}

impl AppData {
    /// The path of a chosen directory as the text under which the project
    /// is kept. A path that is not text opens no project.
    pub fn path_text(path: Option<&str>) -> (text: Result<String, AppDataCreationError>)
        ensures
            match path {
                Some(p) => text matches Ok(t) && t@ == p@,
                None => text == Err::<String, AppDataCreationError>(AppDataCreationError::Parsing),
            },
    {
        match path {
            Some(p) => Ok(p.to_owned()),
            None => Err(AppDataCreationError::Parsing),
        }
    }

    /// Opens the project at `project_path` from the outcome of the access to
    /// its repository. The first diff is on display.
    ///
    /// Fails exactly when retrieval of the diffs does: when the access
    /// failed or gave what cannot be read as text.
    pub fn new(
        project_path: String,
        accessed: Result<Vec<RawFileDelta>, DiffParsingError>,
    ) -> (data: Result<AppData, AppDataCreationError>)
        ensures
            match data {
                Ok(data) => {
                    &&& retrievable(accessed)
                    &&& data.project_path == project_path
                    &&& retrieved(accessed, Ok((data.diffs, data.stats)))
                    &&& data.selected_diff_index == 0
                },
                Err(error) => !retrievable(accessed) && error == AppDataCreationError::Parsing,
            },
    {
        match get_diffs(accessed) {
            Ok((diffs, stats)) => Ok(
                AppData { project_path, diffs, stats, selected_diff_index: 0 },
            ),
            Err(_) => Err(AppDataCreationError::Parsing),
        }
    }

    /// Replaces diffs and statistics by those of a new access to the
    /// repository and puts the first diff on display.
    ///
    /// Where retrieval fails, because the access failed or gave what
    /// cannot be read as text, the error is returned and nothing changes.
    pub fn refresh(&mut self, accessed: Result<Vec<RawFileDelta>, DiffParsingError>) -> (done:
        Result<(), DiffParsingError>)
        ensures
            final(self).project_path == old(self).project_path,
            match done {
                Ok(_) => {
                    &&& retrievable(accessed)
                    &&& retrieved(accessed, Ok((final(self).diffs, final(self).stats)))
                    &&& final(self).selected_diff_index == 0
                },
                Err(_) => !retrievable(accessed) && *final(self) == *old(self),
            },
    {
        match get_diffs(accessed) {
            Ok((diffs, stats)) => {
                self.diffs = diffs;
                self.stats = stats;
                self.selected_diff_index = 0;
                Ok(())
            },
            Err(error) => Err(error),
        }
    }

    /// The diff on display, if the selection names one.
    pub fn get_selected_diff(&self) -> (diff: Option<&Diff>)
        ensures
            match diff {
                Some(d) => self.selected_diff_index < self.diffs.len() && *d
                    == self.diffs[self.selected_diff_index as int],
                None => self.selected_diff_index >= self.diffs.len(),
            },
    {
        if self.selected_diff_index < self.diffs.len() {
            Some(&self.diffs[self.selected_diff_index])
        } else {
            None
        }
    }

    /// Puts the diff with the given index on display.
    pub fn select_diff(&mut self, index: usize)
        ensures
            final(self).selected_diff_index == index,
            final(self).project_path == old(self).project_path,
            final(self).diffs == old(self).diffs,
            final(self).stats == old(self).stats,
    {
        self.selected_diff_index = index;
    }

    /// The entries of the list of files: the name of each file with a
    /// diff, in order, and whether it is the one on display.
    pub fn file_entries(&self) -> (entries: Vec<(String, bool)>)
        ensures
            entries.len() == self.diffs.len(),
            forall|i: int|
                0 <= i < entries.len() ==> (#[trigger] entries[i]).0@ == self.diffs[i].file_name@
                    && entries[i].1 == (i == self.selected_diff_index),
    {
        let mut entries: Vec<(String, bool)> = Vec::new();
        let mut i: usize = 0;
        while i < self.diffs.len()
            invariant
                i <= self.diffs.len(),
                entries.len() == i,
                forall|k: int|
                    0 <= k < i ==> (#[trigger] entries[k]).0@ == self.diffs[k].file_name@
                        && entries[k].1 == (k == self.selected_diff_index),
            decreases self.diffs.len() - i,
        {
            entries.push((self.diffs[i].file_name.clone(), i == self.selected_diff_index));
            i += 1;
        }
        entries
    }

    /// The path of the project, in white.
    pub fn heading(&self) -> (label: Label)
        ensures
            label@ == (LabelView {
                text: self.project_path@,
                color: Color::White,
                monospace: false,
            }),
    {
        Label { text: self.project_path.clone(), color: Color::White, monospace: false }
    }

    /// The statistics in one line of white text.
    pub fn get_stats_richtext(&self) -> (label: Label)
        ensures
            label@ == (LabelView {
                text: stats_line(self.stats),
                color: Color::White,
                monospace: false,
            }),
    {
        let mut text = decimal_string(self.stats.files_changed);
        text.append(" file(s) changed, ");
        text.append(decimal_string(self.stats.insertions).as_str());
        text.append(" insertions(+), ");
        text.append(decimal_string(self.stats.deletions).as_str());
        text.append(" deletions(-)\n");
        Label { text, color: Color::White, monospace: false }
    }
}

/// The whole state of the viewer.
#[derive(Debug, PartialEq, Eq)]
pub struct MyApp {
    /// The open project, if one is open.
    pub app_data: Option<AppData>,
    /// Whether the error dialog is up.
    pub show_err_dialog: bool,
    /// What the error dialog says.
    pub error_information: String,
}

impl Default for MyApp {
    /// No project is open and no error is shown.
    fn default() -> (app: MyApp)
        ensures
            app.app_data is None,
            !app.show_err_dialog,
            app.error_information@.len() == 0,
    {
        MyApp { app_data: None, show_err_dialog: false, error_information: String::new() }
    }
}

impl MyApp {
    /// Takes in the outcome of opening a project: the project replaces the
    /// one that was open, and a failure raises the error dialog, leaving
    /// the open project as it was.
    pub fn opened(&mut self, outcome: Result<AppData, AppDataCreationError>)
        ensures
            match outcome {
                Ok(data) => {
                    &&& final(self).app_data == Some(data)
                    &&& final(self).show_err_dialog == old(self).show_err_dialog
                    &&& final(self).error_information == old(self).error_information
                },
                Err(_) => {
                    &&& final(self).app_data == old(self).app_data
                    &&& final(self).show_err_dialog
                    &&& final(self).error_information@ == "Parsing failed!"@
                },
            },
    {
        match outcome {
            Ok(data) => {
                self.app_data = Some(data);
            },
            Err(error) => match error {
                AppDataCreationError::Parsing => {
                    self.show_error("Parsing failed!".to_owned());
                },
            },
        }
    }

    /// Takes in the outcome of a new access to the repository of the open
    /// project: see [`AppData::refresh`]. A failure raises the error dialog.
    /// Without an open project nothing changes.
    pub fn refreshed(&mut self, accessed: Result<Vec<RawFileDelta>, DiffParsingError>)
        ensures
            match old(self).app_data {
                None => *final(self) == *old(self),
                Some(before) => if retrievable(accessed) {
                    &&& final(self).app_data matches Some(after)
                    &&& after.project_path == before.project_path
                    &&& retrieved(accessed, Ok((after.diffs, after.stats)))
                    &&& after.selected_diff_index == 0
                    &&& final(self).show_err_dialog == old(self).show_err_dialog
                    &&& final(self).error_information == old(self).error_information
                } else {
                    &&& final(self).app_data == Some(before)
                    &&& final(self).show_err_dialog
                    &&& final(self).error_information@ == "Refresh failed!"@
                },
            },
    {
        let mut failed = false;
        if let Some(app_data) = &mut self.app_data {
            if app_data.refresh(accessed).is_err() {
                failed = true;
            }
        }
        if failed {
            self.show_error("Refresh failed!".to_owned());
        }
    }

    /// Puts the diff with the given index on display, if a project is open.
    pub fn file_selected(&mut self, index: usize)
        ensures
            final(self).show_err_dialog == old(self).show_err_dialog,
            final(self).error_information == old(self).error_information,
            match old(self).app_data {
                Some(before) => {
                    &&& final(self).app_data matches Some(after)
                    &&& after.selected_diff_index == index
                    &&& after.project_path == before.project_path
                    &&& after.diffs == before.diffs
                    &&& after.stats == before.stats
                },
                None => final(self).app_data is None,
            },
    {
        if let Some(app_data) = &mut self.app_data {
            app_data.select_diff(index);
        }
    }

    /// Whether the list of files and the diff are drawn: not for an open
    /// project without changes.
    pub fn draws_areas(&self) -> (yes: bool)
        ensures
            yes == !(self.app_data matches Some(data) && data.diffs.len() == 0),
    {
        match &self.app_data {
            Some(data) => data.diffs.len() != 0,
            None => true,
        }
    }

    /// What the area of the diff shows: nothing without a diff on display,
    /// a notice for a diff without lines, and otherwise every line with its
    /// number, each preceded by the headers that anchor it. The numbers are
    /// as wide as the largest of them.
    pub fn diff_area(&self) -> (area: DiffArea)
        ensures
            match self.app_data {
                Some(data) => if data.selected_diff_index >= data.diffs.len() {
                    area is Empty
                } else {
                    let diff = data.diffs[data.selected_diff_index as int];
                    if diff.lines.len() == 0 {
                        area matches DiffArea::NoContent(label) && label@ == (LabelView {
                            text: "No content"@,
                            color: Color::Gray,
                            monospace: false,
                        })
                    } else {
                        area matches DiffArea::Rows(pairs) && exists|longest_line: u32|
                            is_largest_shown(diff@.lines, longest_line) && pair_views(pairs@)
                                == rows(diff@.lines, diff@.headers).map_values(
                                |r: RowView| shown_row(r, longest_line),
                            )
                    }
                },
                None => area is Empty,
            },
    {
        let Some(data) = &self.app_data else {
            return DiffArea::Empty;
        };
        let Some(diff) = data.get_selected_diff() else {
            return DiffArea::Empty;
        };
        if diff.lines.len() == 0 {
            return DiffArea::NoContent(
                Label { text: "No content".to_owned(), color: Color::Gray, monospace: false },
            );
        }
        let longest_line = diff.largest_shown_number();
        let all = rows_of(&diff.lines, &diff.headers);
        let ghost views = rows(diff@.lines, diff@.headers);
        let mut pairs: Vec<(Label, Label)> = Vec::new();
        let mut k: usize = 0;
        while k < all.len()
            invariant
                k <= all.len(),
                pairs.len() == k,
                row_views(all@) == views,
                forall|n: int|
                    0 <= n < k ==> (#[trigger] pair_views(pairs@)[n]) == shown_row(
                        views[n],
                        longest_line,
                    ),
            decreases all.len() - k,
        {
            let ghost before = pair_views(pairs@);
            let row = all[k];
            assert(views[k as int] == row@);
            match row {
                Row::Heading(header) => {
                    pairs.push(header.to_labels());
                },
                Row::Body(line) => {
                    pairs.push((self.get_line_no_richtext(line, longest_line), line.to_richtext()));
                },
            }
            assert(forall|n: int| 0 <= n < k ==> #[trigger] pair_views(pairs@)[n] == before[n]);
            assert(pair_views(pairs@)[k as int] == shown_row(row@, longest_line));
            k += 1;
        }
        assert(pair_views(pairs@) =~= views.map_values(|r: RowView| shown_row(r, longest_line)));
        DiffArea::Rows(pairs)
    }

    /// The number beside `line` in gray monospace text, padded on the left
    /// to the width of the numeral of `longest_line`.
    pub fn get_line_no_richtext(&self, line: &Line, longest_line: u32) -> (label: Label)
        ensures
            label@ == (LabelView {
                text: line_number_text(line@, longest_line),
                color: Color::Gray,
                monospace: true,
            }),
    {
        let number = decimal_string(line.shown_number() as u128);
        let width: usize = decimal_string(longest_line as u128).as_str().unicode_len();
        Label { text: pad_left(number.as_str(), width), color: Color::Gray, monospace: true }
    }

    /// The largest line number shown beside any line of `diff`, and 0 if it
    /// has no lines.
    pub fn get_longest_line(&self, diff: Diff) -> (longest_line: u32)
        ensures
            is_largest_shown(diff@.lines, longest_line),
    {
        diff.largest_shown_number()
    }

    /// Raises the error dialog with the given words.
    pub fn show_error(&mut self, information: String)
        ensures
            final(self).error_information == information,
            final(self).show_err_dialog,
            final(self).app_data == old(self).app_data,
    {
        self.error_information = information;
        self.show_err_dialog = true;
    }

    /// Closes the error dialog and forgets its words.
    pub fn error_closed(&mut self)
        ensures
            final(self).error_information@.len() == 0,
            !final(self).show_err_dialog,
            final(self).app_data == old(self).app_data,
    {
        self.error_information = String::new();
        self.show_err_dialog = false;
    }
}

} // verus!
