//! What the level gauge shows: the bar and the row of labels under it as
//! lines of styled text, and the texts around them. Laying the lines out
//! and drawing them on a terminal is left to the caller.
use vstd::prelude::*;
use ratatui::style::{Color, Style};
use ratatui::text::{Line, Span};
use crate::constants::{BAR_BORDER_WIDTH, MIN_DB, MIN_DB_LEVEL};
use crate::text::{
    decimal, level_text, push_decimal, push_digits, push_level, push_text, round_to_decibels,
    whole_decibels,
};

verus! {

/// The number of level units between the floor and full scale, which the
/// gauge spans.
pub const LEVEL_RANGE: u32 = 60000;

/// The number of whole decibels that the gauge spans.
pub const DB_RANGE: i32 = 60;

/// A colour of the gauge.
#[derive(Debug, Clone, Copy, PartialEq, Eq)]
pub enum BarColor {
    Green,
    Yellow,
    Red,
    White,
}

/// One cell of the gauge: what it shows and in which colour.
#[derive(Debug, Clone, Copy, PartialEq, Eq)]
pub struct StyledText {
    pub text: &'static str,
    pub color: BarColor,
}

impl StyledText {
    /// The characters and the colour of the cell.
    pub open spec fn shown(self) -> (Seq<char>, BarColor) {
        (self.text@, self.color)
    }
}

/// A line of styled text of the terminal library.
#[verifier::external_type_specification]
#[verifier::external_body]
pub struct ExLine<'a>(Line<'a>);

/// The spans of a line in their order, each as its characters and its
/// foreground colour.
pub uninterp spec fn line_spans(line: Line<'static>) -> Seq<(Seq<char>, BarColor)>;

/// `Line::from` makes a line of the given spans in their order,
/// `Span::styled` makes a span of a text and a style, and `Style::fg` sets
/// the foreground colour of a style: the line has one span for each cell,
/// with the cell's text and colour.
#[verifier::external_body]
fn styled_line(cells: &Vec<StyledText>) -> (line: Line<'static>)
    ensures
        line_spans(line) == cells@.map_values(|cell: StyledText| cell.shown()),
{
    let spans: Vec<Span<'static>> = cells.iter().map(|cell| {
        let color = match cell.color {
            BarColor::Green => Color::Green,
            BarColor::Yellow => Color::Yellow,
            BarColor::Red => Color::Red,
            BarColor::White => Color::White,
        };
        Span::styled(cell.text, Style::default().fg(color))
    }).collect();
    Line::from(spans)
}

/// What the polling side hands to the renderer in each tick.
#[derive(Debug, Clone)]
pub struct UiState {
    pub device_name: String,
    pub current_db: Vec<i32>,
    pub display_db: Vec<i32>,
    pub threshold_db: i32,
    pub status: String,
}

/// The first third of the gauge is green, the second yellow, the rest red.
pub open spec fn zone_color(i: int, width: int) -> BarColor {
    if i < width / 3 {
        BarColor::Green
    } else if i < 2 * width / 3 {
        BarColor::Yellow
    } else {
        BarColor::Red
    }
}

/// How far a level reaches into the gauge, in level units above the floor:
/// nothing at or below the floor, the whole range at or above full scale.
pub open spec fn gauge_position(level: int) -> int {
    if level <= MIN_DB_LEVEL {
        0
    } else if level >= MIN_DB_LEVEL + LEVEL_RANGE {
        LEVEL_RANGE as int
    } else {
        level - MIN_DB_LEVEL
    }
}

/// The number of cells of a bar of `width` cells that are wholly filled.
pub open spec fn filled_cells(width: int, position: int) -> int {
    position * width / (LEVEL_RANGE as int)
}

/// What is filled beyond the whole cells, in level units times cells: the
/// next cell is filled by this part of `LEVEL_RANGE`.
pub open spec fn partial_fill(width: int, position: int) -> int {
    position * width % (LEVEL_RANGE as int)
}

/// The glyph of a cell of which `eighths` eighths are filled.
pub open spec fn partial_glyph(eighths: int) -> Seq<char> {
    if eighths <= 1 {
        "░"@
    } else if eighths <= 3 {
        "▒"@
    } else if eighths <= 5 {
        "▓"@
    } else {
        "█"@
    }
}

/// The glyph of cell `i` of the bar: full below the filled part, a shade
/// for the cell that is filled in part, and empty beyond.
pub open spec fn bar_glyph(i: int, width: int, position: int) -> Seq<char> {
    if i < filled_cells(width, position) {
        "█"@
    } else if i == filled_cells(width, position) && partial_fill(width, position) > 0 {
        partial_glyph(partial_fill(width, position) * 8 / (LEVEL_RANGE as int))
    } else {
        "░"@
    }
}

/// The bar of a gauge of `width` cells for a level that reaches `position`
/// level units into the range of the gauge.
pub open spec fn gradient_bar(width: nat, position: int) -> Seq<(Seq<char>, BarColor)> {
    Seq::new(width, |i: int| (bar_glyph(i, width as int, position), zone_color(i, width as int)))
}

/// The cell of the label row in which the threshold is marked: the
/// threshold's place between -60 dB and 0 dB, taken on the cells from the
/// first to the last and rounded to the nearest cell.
pub open spec fn marker_cell(width: int, threshold_db: int) -> int {
    let above_floor = if threshold_db <= MIN_DB {
        0
    } else if threshold_db >= 0 {
        DB_RANGE as int
    } else {
        threshold_db - MIN_DB
    };
    (2 * above_floor * (width - 1) + DB_RANGE) / (2 * DB_RANGE)
}

/// The text of cell `i` of the label row: the marker of the threshold in
/// its cell, and elsewhere the labels of the floor, of one and of two
/// thirds of the width, and of full scale, each in its cell.
pub open spec fn label_text(i: int, width: int, threshold_db: int) -> Seq<char> {
    if i == marker_cell(width, threshold_db) {
        "▲"@
    } else if i == 0 {
        "-60"@
    } else if i == width - 1 {
        "0"@
    } else if i == width / 3 {
        "-40"@
    } else if i == 2 * width / 3 {
        "-20"@
    } else {
        " "@
    }
}

/// The colour of cell `i` of the label row: white for the marker, else the
/// colour of the bar above it.
pub open spec fn label_color(i: int, width: int, threshold_db: int) -> BarColor {
    if i == marker_cell(width, threshold_db) {
        BarColor::White
    } else {
        zone_color(i, width)
    }
}

/// The row of labels under a gauge of `width` cells.
pub open spec fn db_labels(width: nat, threshold_db: int) -> Seq<(Seq<char>, BarColor)> {
    Seq::new(
        width,
        |i: int|
            (label_text(i, width as int, threshold_db), label_color(i, width as int, threshold_db)),
    )
}

/// The colour of the zone in which cell `i` of `width` lies.
fn color_of_zone(i: usize, width: usize) -> (color: BarColor)
    ensures
        color == zone_color(i as int, width as int),
{
    let third = width / 3;
    let two_thirds = ((2 * (width as u128)) / 3) as usize;
    if i < third {
        BarColor::Green
    } else if i < two_thirds {
        BarColor::Yellow
    } else {
        BarColor::Red
    }
}

/// How far a displayed level reaches into the gauge.
pub fn level_position(display_db: i32) -> (position: u32)
    ensures
        position == gauge_position(display_db as int),
{
    if display_db <= MIN_DB_LEVEL {
        0
    } else if display_db >= 0 {
        LEVEL_RANGE
    } else {
        (display_db - MIN_DB_LEVEL) as u32
    }
}

/// The width of the bar inside a frame of `frame_width` columns.
pub fn bar_width(frame_width: usize) -> (width: usize)
    ensures
        width == (if frame_width >= BAR_BORDER_WIDTH {
            frame_width - BAR_BORDER_WIDTH
        } else {
            0
        }),
{
    if frame_width >= BAR_BORDER_WIDTH {
        frame_width - BAR_BORDER_WIDTH
    } else {
        0
    }
}

/// Makes the cells of the bar of a gauge.
pub fn gradient_cells(width: usize, position: u32) -> (cells: Vec<StyledText>)
    ensures
        cells@.map_values(|cell: StyledText| cell.shown()) == gradient_bar(
            width as nat,
            position as int,
        ),
{
    assert(0 <= position * width <= 0xffff_ffff * 0xffff_ffff_ffff_ffff) by (nonlinear_arith)
        requires
            0 <= position <= 0xffff_ffff,
            0 <= width <= 0xffff_ffff_ffff_ffff,
    ;
    let reach: u128 = (position as u128) * (width as u128);
    let filled: u128 = reach / (LEVEL_RANGE as u128);
    let partial: u128 = reach % (LEVEL_RANGE as u128);
    let eighths: u128 = partial * 8 / (LEVEL_RANGE as u128);
    let shade = if eighths <= 1 {
        "░"
    } else if eighths <= 3 {
        "▒"
    } else if eighths <= 5 {
        "▓"
    } else {
        "█"
    };
    let mut cells: Vec<StyledText> = Vec::new();
    let mut i: usize = 0;
    while i < width
        invariant
            i <= width,
            cells@.len() == i,
            filled == filled_cells(width as int, position as int),
            partial == partial_fill(width as int, position as int),
            shade@ == partial_glyph(partial * 8 / (LEVEL_RANGE as int)),
            forall|j: int|
                0 <= j < i ==> (#[trigger] cells@[j]).shown() == gradient_bar(
                    width as nat,
                    position as int,
                )[j],
        decreases width - i,
    {
        let text = if (i as u128) < filled {
            "█"
        } else if (i as u128) == filled && partial > 0 {
            shade
        } else {
            "░"
        };
        cells.push(StyledText { text, color: color_of_zone(i, width) });
        i = i + 1;
    }
    proof {
        assert(cells@.map_values(|cell: StyledText| cell.shown()) =~= gradient_bar(
            width as nat,
            position as int,
        ));
    }
    cells
}

/// Makes the bar of a gauge of `width` cells for a level that reaches
/// `position` level units into the range of the gauge.
pub fn create_gradient_bar(width: usize, position: u32) -> (line: Line<'static>)
    ensures
        line_spans(line) == gradient_bar(width as nat, position as int),
{
    let cells = gradient_cells(width, position);
    styled_line(&cells)
}

/// Makes the cells of the row of labels under a gauge.
pub fn label_cells(width: usize, threshold_db: i32) -> (cells: Vec<StyledText>)
    ensures
        cells@.map_values(|cell: StyledText| cell.shown()) == db_labels(
            width as nat,
            threshold_db as int,
        ),
{
    let mut cells: Vec<StyledText> = Vec::new();
    if width == 0 {
        proof {
            assert(cells@.map_values(|cell: StyledText| cell.shown()) =~= db_labels(
                width as nat,
                threshold_db as int,
            ));
        }
        return cells;
    }
    let above_floor: u128 = if threshold_db <= MIN_DB {
        0
    } else if threshold_db >= 0 {
        60
    } else {
        (threshold_db - MIN_DB) as u128
    };
    assert(0 <= 2 * above_floor * (width - 1) <= 120 * 0xffff_ffff_ffff_ffff) by (nonlinear_arith)
        requires
            0 <= above_floor <= 60,
            1 <= width <= 0xffff_ffff_ffff_ffff,
    ;
    let marker: u128 = (2 * above_floor * ((width - 1) as u128) + 60) / 120;
    let third = width / 3;
    let two_thirds = ((2 * (width as u128)) / 3) as usize;
    let mut i: usize = 0;
    while i < width
        invariant
            i <= width,
            width > 0,
            cells@.len() == i,
            marker == marker_cell(width as int, threshold_db as int),
            third == width / 3,
            two_thirds == 2 * width / 3,
            forall|j: int|
                0 <= j < i ==> (#[trigger] cells@[j]).shown() == db_labels(
                    width as nat,
                    threshold_db as int,
                )[j],
        decreases width - i,
    {
        let cell = if (i as u128) == marker {
            StyledText { text: "▲", color: BarColor::White }
        } else {
            let text = if i == 0 {
                "-60"
            } else if i == width - 1 {
                "0"
            } else if i == third {
                "-40"
            } else if i == two_thirds {
                "-20"
            } else {
                " "
            };
            StyledText { text, color: color_of_zone(i, width) }
        };
        cells.push(cell);
        i = i + 1;
    }
    proof {
        assert(cells@.map_values(|cell: StyledText| cell.shown()) =~= db_labels(
            width as nat,
            threshold_db as int,
        ));
    }
    cells
}

/// Makes the row of labels under a gauge of `width` cells, with the marker
/// of the threshold.
pub fn create_db_labels(width: usize, threshold_db: i32) -> (line: Line<'static>)
    ensures
        line_spans(line) == db_labels(width as nat, threshold_db as int),
{
    let cells = label_cells(width, threshold_db);
    styled_line(&cells)
}

/// `count` times the horizontal rule.
pub open spec fn rule(count: nat) -> Seq<char>
    decreases count,
{
    if count == 0 {
        Seq::empty()
    } else {
        rule((count - 1) as nat) + "─"@
    }
}

/// The two lines that show the threshold: its value in whole decibels,
/// and under it a rule as wide as the bar inside `frame_width` columns.
pub open spec fn threshold_lines(threshold_db: int, frame_width: int) -> Seq<char> {
    "Threshold: "@ + decimal(threshold_db) + " dB\n"@ + rule(
        (if frame_width >= BAR_BORDER_WIDTH {
            frame_width - BAR_BORDER_WIDTH
        } else {
            0
        }) as nat,
    )
}

/// The title of the gauge: the displayed level, and the level of the
/// latest buffer as it was measured.
pub open spec fn gauge_title_text(display_db: int, current_db: int) -> Seq<char> {
    "Current dB: "@ + level_text(display_db) + " (Raw: "@ + level_text(current_db) + ")"@
}

/// The line that reports the level of a channel.
pub open spec fn report_line_text(channel: int, level: int) -> Seq<char> {
    "Channel "@ + decimal(channel) + ": "@ + level_text(level) + " dB"@
}

/// Writes the two lines that show the threshold.
pub fn threshold_text(threshold_db: i32, frame_width: usize) -> (text: String)
    ensures
        text@ == threshold_lines(threshold_db as int, frame_width as int),
{
    let mut text = "Threshold: ".to_owned();
    push_decimal(&mut text, threshold_db as i64);
    push_text(&mut text, " dB\n");
    let ghost head = text@;
    let width = bar_width(frame_width);
    let mut i: usize = 0;
    while i < width
        invariant
            i <= width,
            text@ == head + rule(i as nat),
        decreases width - i,
    {
        push_text(&mut text, "─");
        i = i + 1;
        proof {
            assert(text@ =~= head + rule(i as nat));
        }
    }
    text
}

/// Writes the title of the gauge.
pub fn gauge_title(display_db: i32, current_db: i32) -> (text: String)
    ensures
        text@ == gauge_title_text(display_db as int, current_db as int),
{
    let mut text = "Current dB: ".to_owned();
    push_level(&mut text, display_db);
    push_text(&mut text, " (Raw: ");
    push_level(&mut text, current_db);
    push_text(&mut text, ")");
    text
}

/// Writes the line that reports the level of a channel.
pub fn report_line(channel: usize, level: i32) -> (text: String)
    ensures
        text@ == report_line_text(channel as int, level as int),
{
    let mut text = "Channel ".to_owned();
    push_digits(&mut text, channel as u64);
    push_text(&mut text, ": ");
    push_level(&mut text, level);
    push_text(&mut text, " dB");
    text
}

/// Writes the level of a channel as a bare number of whole decibels.
pub fn quiet_line(level: i32) -> (text: String)
    ensures
        text@ == decimal(whole_decibels(level as int)),
{
    let mut text = String::new();
    push_decimal(&mut text, round_to_decibels(level) as i64);
    proof {
        assert(text@ =~= decimal(whole_decibels(level as int)));
    }
    text
}

} // verus!
