use contrast::git::{Diff, Header, Line, Origin, Stats};
use contrast::rows::Kind;
use contrast::state::AppData;
use contrast::style::{Color, Label};
use contrast::ui::{
    CodeWidget, DiffAreaWidget, LayoutHandler, LineNumberWidget, LineNumbersWidget, OriginsWidget,
    ProjectAreaWidget, Section, StatsWidget,
};

fn mono(text: &str, color: Color) -> Label {
    Label { text: text.to_string(), color, monospace: true }
}

fn plain(text: &str, color: Color) -> Label {
    Label { text: text.to_string(), color, monospace: false }
}

fn section(text: &str, kind: Kind) -> Section {
    Section { text: text.to_string(), kind }
}

fn sample_lines() -> Vec<Line> {
    vec![
        Line {
            origin: Origin::Context,
            old_line_number: Some(9),
            new_line_number: Some(9),
            content: "    let a = 1;".to_string(),
        },
        Line {
            origin: Origin::Deletion,
            old_line_number: Some(10),
            new_line_number: None,
            content: "    let b = 2;".to_string(),
        },
        Line {
            origin: Origin::Addition,
            old_line_number: None,
            new_line_number: Some(10),
            content: "    let b = 3;".to_string(),
        },
    ]
}

fn sample_headers() -> Vec<Header> {
    vec![Header { anchor_line: 9, content: "@@ -9,4 +9,4 @@ fn main() {".to_string() }]
}

#[test]
fn line_number_widget_pads_its_number() {
    let widget = LineNumberWidget::new(sample_lines().remove(1), 4);
    assert_eq!(widget.max_digits, 4);
    assert_eq!(widget.line, sample_lines()[1]);
    assert_eq!(widget.label(), mono("  10", Color::Gray));
    let narrow = LineNumberWidget::new(sample_lines().remove(1), 1);
    assert_eq!(narrow.label(), mono("10", Color::Gray));
}

#[test]
fn line_numbers_leave_a_blank_beside_headers() {
    let widget = LineNumbersWidget::new(3, sample_lines(), sample_headers());
    assert_eq!(widget.longest_line, 3);
    assert_eq!(
        widget.cells(),
        vec![
            None,
            Some(mono("  9", Color::Gray)),
            Some(mono(" 10", Color::Gray)),
            Some(mono(" 10", Color::Gray)),
        ]
    );
}

#[test]
fn origins_show_the_marker_in_the_colour_of_the_origin() {
    let widget = OriginsWidget::new(sample_lines(), sample_headers());
    assert_eq!(
        widget.cells(),
        vec![
            None,
            Some(mono(" ", Color::White)),
            Some(mono("-", Color::Red)),
            Some(mono("+", Color::Green)),
        ]
    );
}

#[test]
fn code_widget_gives_text_and_positions() {
    let widget = CodeWidget::new(sample_lines(), sample_headers());
    let (text, handler) = widget.content();
    assert_eq!(
        text,
        "@@ -9,4 +9,4 @@ fn main() {\n    let a = 1;\n    let b = 2;\n    let b = 3;\n"
    );
    assert_eq!(handler, LayoutHandler::new(vec![0], vec![3], vec![2], vec![1]));
}

#[test]
fn code_widget_of_nothing_is_empty() {
    let (text, handler) = CodeWidget::new(vec![], sample_headers()).content();
    assert_eq!(text, "");
    assert_eq!(handler, LayoutHandler::new(vec![], vec![], vec![], vec![]));
}

#[test]
fn layout_handler_knows_its_positions() {
    let handler = LayoutHandler::new(vec![0, 5], vec![3], vec![2], vec![1, 4]);
    assert!(handler.is_header(0) && handler.is_header(5) && !handler.is_header(1));
    assert!(handler.is_insertion(3) && !handler.is_insertion(0));
    assert!(handler.is_deletion(2) && !handler.is_deletion(3));
    assert!(handler.is_neutral(1) && handler.is_neutral(4) && !handler.is_neutral(6));
}

#[test]
fn layout_job_formats_each_line_by_its_position() {
    let (text, handler) = CodeWidget::new(sample_lines(), sample_headers()).content();
    assert_eq!(
        handler.layout_job(&text),
        vec![
            section("@@ -9,4 +9,4 @@", Kind::Header),
            section(" ", Kind::Neutral),
            section("fn main() {", Kind::Neutral),
            section("\n", Kind::Neutral),
            section("    let a = 1;\n", Kind::Neutral),
            section("    let b = 2;\n", Kind::Deletion),
            section("    let b = 3;\n", Kind::Insertion),
        ]
    );
}

#[test]
fn layout_job_skips_lines_without_a_position() {
    let handler = LayoutHandler::new(vec![], vec![1], vec![], vec![]);
    assert_eq!(handler.layout_job("a\nb\nc"), vec![section("b\n", Kind::Insertion)]);
    assert_eq!(handler.layout_job(""), vec![]);
}

#[test]
fn layout_job_lays_a_line_out_once_for_each_of_its_kinds() {
    let handler = LayoutHandler::new(vec![0], vec![0], vec![0], vec![0]);
    assert_eq!(
        handler.layout_job("x y"),
        vec![
            section("x y", Kind::Header),
            section(" ", Kind::Neutral),
            section("", Kind::Neutral),
            section("\n", Kind::Neutral),
            section("x y\n", Kind::Insertion),
            section("x y\n", Kind::Deletion),
            section("x y\n", Kind::Neutral),
        ]
    );
}

#[test]
fn stats_widget_uses_singular_and_plural() {
    let labels = StatsWidget::new(Stats { files_changed: 1, insertions: 1, deletions: 1 }).labels();
    assert_eq!(labels.0, plain("1 file changed,", Color::White));
    assert_eq!(labels.1, plain("1 insertion(+),", Color::Green));
    assert_eq!(labels.2, plain("1 deletion(-)", Color::Red));
    let labels =
        StatsWidget::new(Stats { files_changed: 0, insertions: 12, deletions: 2 }).labels();
    assert_eq!(labels.0, plain("0 files changed,", Color::White));
    assert_eq!(labels.1, plain("12 insertions(+),", Color::Green));
    assert_eq!(labels.2, plain("2 deletions(-)", Color::Red));
}

#[test]
fn project_area_shows_path_and_stats() {
    let data = AppData::new("/work/project".to_string(), Ok(vec![])).unwrap();
    let widget = ProjectAreaWidget::new(data);
    assert_eq!(widget.heading(), plain("/work/project", Color::White));
    assert_eq!(
        widget.stats(),
        StatsWidget::new(Stats { files_changed: 0, insertions: 0, deletions: 0 })
    );
}

#[test]
fn diff_area_widget_of_a_diff_without_lines() {
    let widget = DiffAreaWidget::new(Diff {
        file_name: "logo.png".to_string(),
        lines: vec![],
        headers: vec![],
    });
    assert_eq!(widget.columns(), None);
    assert_eq!(DiffAreaWidget::no_content(), plain("No content", Color::Gray));
}

#[test]
fn diff_area_widget_gives_three_columns() {
    let widget = DiffAreaWidget::new(Diff {
        file_name: "src/main.rs".to_string(),
        lines: sample_lines(),
        headers: sample_headers(),
    });
    let (numbers, origins, code) = widget.columns().unwrap();
    assert_eq!(numbers, LineNumbersWidget::new(2, sample_lines(), sample_headers()));
    assert_eq!(origins, OriginsWidget::new(sample_lines(), sample_headers()));
    assert_eq!(code, CodeWidget::new(sample_lines(), sample_headers()));
}
