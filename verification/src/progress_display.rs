//! What a transfer shows of its progress on the error stream: nothing, a
//! line for each snapshot, or a block of lines that is redrawn in place.
//!
//! Nothing here writes. Each operation returns the text that is to be
//! written, control sequences and line ends included.

use vstd::prelude::*;
use vstd::string::*;
use crate::arith::{div_round_half_even, mul_div, mul_div_capped, round_half_even};
use crate::human_bytes::{
    fixed1, fixed2, format_bytes, format_bytes_spec, format_duration_spec,
    format_transfer_rate, format_transfer_rate_spec, lemma_fixed1_plain,
    lemma_format_bytes_plain, lemma_format_duration_plain, lemma_format_transfer_rate_plain,
    push_bytes, push_duration, push_fixed1, push_fixed2, push_transfer_rate, Fraction,
    BYTES_LIMIT,
};
use crate::progress_stats::ProgressStats;
use crate::text::{
    char_count, left_aligned, lemma_line_occurrences, lemma_occurrences_concat,
    lemma_repeated_plain, minus, occurrences, plain, push_left_aligned, push_repeated,
    push_right_aligned, repeated, right_aligned,
};

verus! {

/// The columns of a terminal of which nothing is known.
pub const DEFAULT_COLUMNS: usize = 80;

/// The left end of the bar.
pub const BAR_LEFT: char = '\u{251D}';

/// The head of the filled part of a bar that is not yet full.
pub const BAR_HEAD: char = '\u{252D}';

/// A filled cell of the bar.
pub const BAR_FILLED: char = '\u{2501}';

/// A cell of the bar that is not filled.
pub const BAR_EMPTY: char = '\u{254C}';

/// The right end of a bar that is not yet full.
pub const BAR_RIGHT: char = '\u{2524}';

/// The right end of a full bar.
pub const BAR_RIGHT_FULL: char = '\u{2525}';

/// The point in a transfer at which progress is shown.
#[derive(Clone, Copy, Debug, PartialEq, Eq, Structural)]
pub enum Phase {
    /// Before the first byte is read.
    Init,
    /// While bytes are moved.
    Progress,
    /// After the stream has ended.
    Exit,
}

/// The hundredths of a second in `nanos` nanoseconds, rounded to the
/// nearest, a tie to the even one.
pub open spec fn hundredths_of_seconds(nanos: nat) -> nat {
    round_half_even(nanos, 10_000_000)
}

/// How a log line starts: the bytes moved, and with an expected size that
/// size and the percentage done.
pub open spec fn log_total(stats: ProgressStats) -> Seq<char> {
    let total = right_aligned(format_bytes_spec(stats.bytes_processed as nat), 10);
    match stats.progress_percentage_spec() {
        Some(part) => "TOTAL: "@ + total + " / "@ + format_bytes_spec(part.denominator as nat)
            + " ("@ + fixed2(part.percent(100)) + "%)"@,
        None => "TOTAL: "@ + total,
    }
}

/// The line that a log shows for a snapshot: the total, the seconds since
/// the start with two fractional digits, and the rate.
pub open spec fn log_line(stats: ProgressStats, now: u64) -> Seq<char> {
    log_total(stats) + ", ELAPSED: "@ + fixed2(hundredths_of_seconds(stats.elapsed_spec(now)))
        + "s, RATE: "@ + format_transfer_rate_spec(stats.transfer_rate_spec(now) as nat)
        + seq!['\n']
}

/// What stands in front of the bar: the bytes moved and the rate.
pub open spec fn pre_bar(stats: ProgressStats, now: u64) -> Seq<char> {
    right_aligned(format_bytes_spec(stats.bytes_processed as nat), 10) + " @"@ + left_aligned(
        format_transfer_rate_spec(stats.transfer_rate_spec(now) as nat),
        12,
    ) + " "@
}

/// The cells of the bar on a terminal of `term_width` columns: what the
/// text in front of the bar, the expected size behind it and a margin of
/// four leave, and none on a terminal too narrow for them.
pub open spec fn bar_width(term_width: nat, pre_len: nat, post_len: nat) -> nat {
    minus(minus(minus(term_width, pre_len), post_len), 4)
}

/// The cells of a bar of `cells` cells that are filled when `bytes` of
/// `size` bytes are done: their part of the cells, rounded down, and no
/// more than all.
pub open spec fn filled_cells(bytes: nat, size: nat, cells: nat) -> nat {
    let part = mul_div(bytes, cells, size);
    if part < cells {
        part
    } else {
        cells
    }
}

/// The cells that the filled part of a bar that is not yet full takes, its
/// head included: the filled cells, and one where none is filled.
pub open spec fn head_cells(filled: nat) -> nat {
    if filled == 0 {
        1
    } else {
        filled
    }
}

/// The bar, between its two ends. Below the expected size the filled part
/// ends in the head, which stands in the last filled cell, and in the first
/// cell where none is filled; the cells behind it are not filled. From the
/// expected size on all cells are filled and the bar has its full end. A
/// bar that is not yet full shows its head even where it has no cell.
pub open spec fn bar(bytes: nat, size: nat, cells: nat) -> Seq<char> {
    let filled = filled_cells(bytes, size, cells);
    if bytes < size {
        seq![BAR_LEFT] + repeated(BAR_FILLED, minus(filled, 1)) + seq![BAR_HEAD] + repeated(
            BAR_EMPTY,
            minus(cells, head_cells(filled)),
        ) + seq![BAR_RIGHT]
    } else {
        seq![BAR_LEFT] + repeated(BAR_FILLED, cells) + seq![BAR_RIGHT_FULL]
    }
}

/// The nanoseconds to the estimated end that are shown: none where the
/// estimate lies in the past, or where there is none.
pub open spec fn shown_time_remaining(stats: ProgressStats, now: u64) -> nat {
    match stats.time_remaining_spec(now) {
        Some(nanos) if nanos > 0 => nanos as nat,
        _ => 0,
    }
}

/// The cells of the bar that shows a snapshot on a terminal of `term_width`
/// columns.
pub open spec fn bar_cells(stats: ProgressStats, now: u64, size: u128, term_width: usize) -> nat {
    bar_width(
        term_width as nat,
        pre_bar(stats, now).len(),
        format_bytes_spec(size as nat).len(),
    )
}

/// The first line with an expected size: the bytes moved, the rate, the
/// bar and the size.
pub open spec fn bar_line(stats: ProgressStats, now: u64, size: u128, term_width: usize) -> Seq<
    char,
> {
    pre_bar(stats, now) + bar(
        stats.bytes_processed as nat,
        size as nat,
        bar_cells(stats, now, size, term_width),
    ) + " "@ + format_bytes_spec(size as nat) + seq!['\n']
}

/// The column under the end of the filled part of the bar.
pub open spec fn filled_column(stats: ProgressStats, now: u64, size: u128, term_width: usize)
    -> nat {
    pre_bar(stats, now).len() + filled_cells(
        stats.bytes_processed as nat,
        size as nat,
        bar_cells(stats, now, size, term_width),
    )
}

/// The percentage as it stands under the bar, with one fractional digit.
pub open spec fn percent_label(part: Fraction) -> Seq<char> {
    fixed1(part.percent(10)) + "%"@
}

/// The second line with an expected size: the percentage, its middle under
/// the column `column`.
pub open spec fn percent_line(part: Fraction, column: nat) -> Seq<char> {
    repeated(' ', minus(column, percent_label(part).len() / 2)) + percent_label(part) + seq!['\n']
}

/// The third line with an expected size: the average rate and the time to
/// the estimated end.
pub open spec fn eta_line(stats: ProgressStats, now: u64) -> Seq<char> {
    format_transfer_rate_spec(stats.average_transfer_rate_spec(now) as nat) + " ETA "@
        + format_duration_spec(shown_time_remaining(stats, now)) + seq!['\n']
}

/// The first line without an expected size: the bytes moved and the rate.
pub open spec fn count_line(stats: ProgressStats, now: u64) -> Seq<char> {
    format_bytes_spec(stats.bytes_processed as nat) + " @"@ + format_transfer_rate_spec(
        stats.transfer_rate_spec(now) as nat,
    ) + seq!['\n']
}

/// The second line without an expected size: the average rate.
pub open spec fn average_line(stats: ProgressStats, now: u64) -> Seq<char> {
    format_transfer_rate_spec(stats.average_transfer_rate_spec(now) as nat) + seq!['\n']
}

/// The block of lines that shows a snapshot on a terminal of `term_width`
/// columns. With an expected size it has three lines: the bytes moved, the
/// rate, the bar and the size; the percentage under the end of the filled
/// part; the average rate and the time to the estimated end. Without one it
/// has two: the bytes moved and the rate; the average rate.
pub open spec fn frame(stats: ProgressStats, now: u64, term_width: usize) -> Seq<char> {
    match stats.progress_percentage_spec() {
        Some(part) => bar_line(stats, now, part.denominator, term_width) + percent_line(
            part,
            filled_column(stats, now, part.denominator, term_width),
        ) + eta_line(stats, now),
        None => count_line(stats, now) + average_line(stats, now),
    }
}

/// The number of lines of the block that shows a snapshot.
pub open spec fn frame_lines(stats: ProgressStats) -> nat {
    if stats.known_size() is Some {
        3
    } else {
        2
    }
}

/// What takes the cursor up one line and clears that line.
pub open spec fn erase_line() -> Seq<char> {
    "\x1B[1A\x1B[2K"@
}

/// What erases the last `lines` lines.
pub open spec fn erase_lines(lines: nat) -> Seq<char>
    decreases lines,
{
    if lines == 0 {
        Seq::<char>::empty()
    } else {
        erase_lines((lines - 1) as nat) + erase_line()
    }
}

/// The columns to draw on: the width that was asked for, else the width
/// that was found, else `DEFAULT_COLUMNS`.
pub open spec fn resolve_width_spec(asked: Option<usize>, found: Option<usize>) -> usize {
    match asked {
        Some(width) => width,
        None => match found {
            Some(width) => width,
            None => DEFAULT_COLUMNS,
        },
    }
}

/// The columns to draw on: the width that was asked for, else the width
/// that was found, else `DEFAULT_COLUMNS`.
pub fn resolve_width(asked: Option<usize>, found: Option<usize>) -> (width: usize)
    ensures
        width == resolve_width_spec(asked, found),
{
    match asked {
        Some(width) => width,
        None => match found {
            Some(width) => width,
            None => DEFAULT_COLUMNS,
        },
    }
}

/// Appends what erases the last `lines` lines.
pub fn push_erase_lines(out: &mut String, lines: usize)
    ensures
        final(out)@ == old(out)@ + erase_lines(lines as nat),
{
    let mut i: usize = 0;
    assert(old(out)@ + erase_lines(0) =~= old(out)@);
    while i < lines
        invariant
            i <= lines,
            out@ == old(out)@ + erase_lines(i as nat),
        decreases lines - i,
    {
        out.append("\x1B[1A\x1B[2K");
        i = i + 1;
        assert(out@ =~= old(out)@ + erase_lines(i as nat));
    }
}

/// Appends the start of a log line.
fn push_log_total(out: &mut String, stats: &ProgressStats)
    requires
        stats.counts_showable(),
    ensures
        final(out)@ == old(out)@ + log_total(*stats),
{
    let total = format_bytes(stats.bytes_processed);
    out.append("TOTAL: ");
    push_right_aligned(out, &total, 10);
    match stats.progress_percentage() {
        Some(part) => {
            out.append(" / ");
            push_bytes(out, part.denominator);
            out.append(" (");
            push_fixed2(out, part.percent_hundredths());
            out.append("%)");
            assert(final(out)@ =~= old(out)@ + log_total(*stats));
        },
        None => {
            assert(final(out)@ =~= old(out)@ + log_total(*stats));
        },
    }
}

/// Appends the line that a log shows for a snapshot.
fn push_log_line(out: &mut String, stats: &ProgressStats, now: u64)
    requires
        stats.counts_showable(),
        stats.transfer_rate_spec(now) < BYTES_LIMIT,
    ensures
        final(out)@ == old(out)@ + log_line(*stats, now),
{
    push_log_total(out, stats);
    out.append(", ELAPSED: ");
    push_fixed2(out, div_round_half_even(stats.elapsed(now) as u128, 10_000_000));
    out.append("s, RATE: ");
    push_transfer_rate(out, stats.transfer_rate(now));
    out.push('\n');
    assert(final(out)@ =~= old(out)@ + log_line(*stats, now));
}

/// Appends the bar of `cells` cells for `bytes` of `size` bytes; returns
/// the number of filled cells.
fn push_bar(out: &mut String, bytes: u128, size: u128, cells: usize) -> (filled: usize)
    requires
        size > 0,
    ensures
        final(out)@ == old(out)@ + bar(bytes as nat, size as nat, cells as nat),
        filled == filled_cells(bytes as nat, size as nat, cells as nat),
        filled <= cells,
{
    let part = mul_div_capped(bytes, cells as u64, size);
    let filled = if part < cells as u128 {
        part as usize
    } else {
        cells
    };
    out.push(BAR_LEFT);
    if bytes < size {
        let head: usize = if filled == 0 {
            1
        } else {
            filled
        };
        push_repeated(out, BAR_FILLED, head - 1);
        out.push(BAR_HEAD);
        push_repeated(out, BAR_EMPTY, cells.saturating_sub(head));
        out.push(BAR_RIGHT);
    } else {
        push_repeated(out, BAR_FILLED, cells);
        out.push(BAR_RIGHT_FULL);
    }
    assert(final(out)@ =~= old(out)@ + bar(bytes as nat, size as nat, cells as nat));
    filled
}

/// What is in front of the bar: the bytes moved and the rate.
fn pre_bar_text(stats: &ProgressStats, now: u64) -> (pre: String)
    requires
        stats.bytes_processed < BYTES_LIMIT,
        stats.transfer_rate_spec(now) < BYTES_LIMIT,
    ensures
        pre@ == pre_bar(*stats, now),
{
    let total = format_bytes(stats.bytes_processed);
    let rate = format_transfer_rate(stats.transfer_rate(now));
    let mut pre = String::new();
    push_right_aligned(&mut pre, &total, 10);
    pre.append(" @");
    push_left_aligned(&mut pre, &rate, 12);
    pre.append(" ");
    assert(pre@ =~= pre_bar(*stats, now));
    pre
}

/// Appends the line with the bar; returns the column under the end of its
/// filled part.
fn push_bar_line(out: &mut String, stats: &ProgressStats, now: u64, size: u128, term_width: usize)
    -> (column: usize)
    requires
        stats.bytes_processed < BYTES_LIMIT,
        0 < size < BYTES_LIMIT,
        stats.transfer_rate_spec(now) < BYTES_LIMIT,
    ensures
        final(out)@ == old(out)@ + bar_line(*stats, now, size, term_width),
        column == filled_column(*stats, now, size, term_width),
{
    let pre = pre_bar_text(stats, now);
    let post = format_bytes(size);
    let pre_len = char_count(&pre);
    let cells = term_width.saturating_sub(pre_len).saturating_sub(char_count(&post)).saturating_sub(
        4,
    );
    out.append(pre.as_str());
    let filled = push_bar(out, stats.bytes_processed, size, cells);
    out.append(" ");
    out.append(post.as_str());
    out.push('\n');
    assert(final(out)@ =~= old(out)@ + bar_line(*stats, now, size, term_width));
    pre_len + filled
}

/// Appends the line with the percentage.
fn push_percent_line(out: &mut String, part: Fraction, column: usize)
    requires
        part.showable(),
    ensures
        final(out)@ == old(out)@ + percent_line(part, column as nat),
{
    let mut label = String::new();
    push_fixed1(&mut label, part.percent_tenths());
    label.append("%");
    assert(label@ =~= percent_label(part));
    push_repeated(out, ' ', column.saturating_sub(char_count(&label) / 2));
    out.append(label.as_str());
    out.push('\n');
    assert(final(out)@ =~= old(out)@ + percent_line(part, column as nat));
}

/// Appends the line with the average rate and the time to the end.
fn push_eta_line(out: &mut String, stats: &ProgressStats, now: u64)
    requires
        stats.average_transfer_rate_spec(now) < BYTES_LIMIT,
    ensures
        final(out)@ == old(out)@ + eta_line(*stats, now),
{
    push_transfer_rate(out, stats.average_transfer_rate(now));
    out.append(" ETA ");
    let remaining = match stats.time_remaining(now) {
        Some(nanos) => if nanos > 0 {
            nanos as u64
        } else {
            0
        },
        None => 0,
    };
    push_duration(out, remaining);
    out.push('\n');
    assert(final(out)@ =~= old(out)@ + eta_line(*stats, now));
}

/// Appends the two lines that show a snapshot without an expected size.
fn push_plain_lines(out: &mut String, stats: &ProgressStats, now: u64)
    requires
        stats.bytes_processed < BYTES_LIMIT,
        stats.transfer_rate_spec(now) < BYTES_LIMIT,
        stats.average_transfer_rate_spec(now) < BYTES_LIMIT,
    ensures
        final(out)@ == old(out)@ + count_line(*stats, now) + average_line(*stats, now),
{
    push_bytes(out, stats.bytes_processed);
    out.append(" @");
    push_transfer_rate(out, stats.transfer_rate(now));
    out.push('\n');
    assert(out@ =~= old(out)@ + count_line(*stats, now));
    push_transfer_rate(out, stats.average_transfer_rate(now));
    out.push('\n');
    assert(final(out)@ =~= old(out)@ + count_line(*stats, now) + average_line(*stats, now));
}

/// Appends the block of lines that shows a snapshot on a terminal of
/// `term_width` columns.
fn push_frame(out: &mut String, stats: &ProgressStats, now: u64, term_width: usize)
    requires
        stats.counts_showable(),
        stats.transfer_rate_spec(now) < BYTES_LIMIT,
        stats.average_transfer_rate_spec(now) < BYTES_LIMIT,
    ensures
        final(out)@ == old(out)@ + frame(*stats, now, term_width),
{
    match stats.progress_percentage() {
        Some(part) => {
            let column = push_bar_line(out, stats, now, part.denominator, term_width);
            push_percent_line(out, part, column);
            push_eta_line(out, stats, now);
            assert(final(out)@ =~= old(out)@ + frame(*stats, now, term_width));
        },
        None => {
            push_plain_lines(out, stats, now);
            assert(final(out)@ =~= old(out)@ + frame(*stats, now, term_width));
        },
    }
}

/// The columns of the terminal of this process, by `term_size::dimensions`,
/// which asks the operating system: on unix for the standard output, the
/// standard input and the error stream, in that order, and on Windows for
/// the console of the standard output. `None` where none of them is a
/// terminal, where the system reports no columns or rows, and on a system
/// that the crate does not know. Nothing is claimed of the number.
#[verifier::external_body]
fn terminal_columns() -> (columns: Option<usize>) {
    match term_size::dimensions() {
        Some((columns, _)) => Some(columns),
        None => None,
    }
}

/// What shows the progress of a transfer. Each operation returns the text
/// to write to the error stream for one snapshot, taken at the time `now`.
pub trait ProgressDisplay: Sized {
    /// Whether the snapshot can be shown at this point: the counts and
    /// rates that the text holds are below `BYTES_LIMIT`.
    spec fn can_show(&self, phase: Phase, progress_stats: ProgressStats, now: u64) -> bool;

    /// Whether `text` is what is written for the snapshot at this point.
    /// It is one text, unless the width of the terminal enters into it.
    spec fn may_show(
        &self,
        phase: Phase,
        progress_stats: ProgressStats,
        now: u64,
        text: Seq<char>,
    ) -> bool;

    /// The display after it has shown the snapshot at this point.
    spec fn after(&self, phase: Phase, progress_stats: ProgressStats) -> Self;

    /// Whether the snapshot can be shown at this point.
    fn ready(&self, phase: Phase, progress_stats: &ProgressStats, now: u64) -> (ready: bool)
        ensures
            ready == self.can_show(phase, *progress_stats, now),
    ;

    /// Shows the snapshot before the first byte is read.
    fn init_display(&mut self, progress_stats: ProgressStats, now: u64) -> (text: String)
        requires
            old(self).can_show(Phase::Init, progress_stats, now),
        ensures
            old(self).may_show(Phase::Init, progress_stats, now, text@),
            *final(self) == old(self).after(Phase::Init, progress_stats),
    ;

    /// Shows a snapshot while bytes are moved.
    fn display_progress(&mut self, progress_stats: ProgressStats, now: u64) -> (text: String)
        requires
            old(self).can_show(Phase::Progress, progress_stats, now),
        ensures
            old(self).may_show(Phase::Progress, progress_stats, now, text@),
            *final(self) == old(self).after(Phase::Progress, progress_stats),
    ;

    /// Shows the last snapshot, after the stream has ended.
    fn exit_display(&mut self, progress_stats: ProgressStats, now: u64) -> (text: String)
        requires
            old(self).can_show(Phase::Exit, progress_stats, now),
        ensures
            old(self).may_show(Phase::Exit, progress_stats, now, text@),
            *final(self) == old(self).after(Phase::Exit, progress_stats),
    ;
}

/// Shows each snapshot as a line of its own, and nothing at the start and
/// at the end.
#[derive(Clone, Copy, Debug, PartialEq, Eq)]
pub struct LogDisplay;

impl LogDisplay {
    /// What a log writes at this point: a line for a snapshot while bytes
    /// are moved, and nothing at the start and at the end.
    pub open spec fn text(phase: Phase, progress_stats: ProgressStats, now: u64) -> Seq<char> {
        if phase is Progress {
            log_line(progress_stats, now)
        } else {
            Seq::<char>::empty()
        }
    }
}

impl ProgressDisplay for LogDisplay {
    open spec fn can_show(&self, phase: Phase, progress_stats: ProgressStats, now: u64) -> bool {
        phase is Progress ==> progress_stats.counts_showable() && progress_stats.transfer_rate_spec(
            now,
        ) < BYTES_LIMIT
    }

    open spec fn may_show(
        &self,
        phase: Phase,
        progress_stats: ProgressStats,
        now: u64,
        text: Seq<char>,
    ) -> bool {
        text == LogDisplay::text(phase, progress_stats, now)
    }

    open spec fn after(&self, phase: Phase, progress_stats: ProgressStats) -> Self {
        *self
    }

    fn ready(&self, phase: Phase, progress_stats: &ProgressStats, now: u64) -> (ready: bool) {
        match phase {
            Phase::Progress => progress_stats.has_showable_counts() && progress_stats.transfer_rate(
                now,
            ) < BYTES_LIMIT,
            _ => true,
        }
    }

    fn init_display(&mut self, progress_stats: ProgressStats, now: u64) -> (text: String) {
        String::new()
    }

    fn display_progress(&mut self, progress_stats: ProgressStats, now: u64) -> (text: String) {
        let mut text = String::new();
        push_log_line(&mut text, &progress_stats, now);
        assert(text@ =~= log_line(progress_stats, now));
        text
    }

    fn exit_display(&mut self, progress_stats: ProgressStats, now: u64) -> (text: String) {
        String::new()
    }
}

/// Shows each snapshot as a block of lines on a terminal, and draws each
/// block over the one before it.
#[derive(Clone, Copy, Debug, PartialEq, Eq)]
pub struct InteractiveDisplay {
    /// The width to draw on, where one was asked for; else the terminal is
    /// asked at each draw.
    pub width: Option<usize>,
    /// The lines that the last draw wrote.
    pub lines_drawn: usize,
}

impl InteractiveDisplay {
    /// What is written for a snapshot on a terminal of `term_width`
    /// columns: at the start the block of lines; later what erases the
    /// lines that the last draw wrote, and then the block.
    pub open spec fn text_at(
        self,
        phase: Phase,
        progress_stats: ProgressStats,
        now: u64,
        term_width: usize,
    ) -> Seq<char> {
        erase_lines(
            if phase is Init {
                0
            } else {
                self.lines_drawn as nat
            },
        ) + frame(progress_stats, now, term_width)
    }

    /// A display that has drawn nothing yet.
    pub fn new(width: Option<usize>) -> (display: Self)
        ensures
            display.width == width,
            display.lines_drawn == 0,
    {
        Self { width, lines_drawn: 0 }
    }

    /// The columns to draw on now: the width that was asked for, else the
    /// width of the terminal, else `DEFAULT_COLUMNS`. The terminal is asked
    /// only where no width was asked for.
    pub fn terminal_width(&self) -> (term_width: usize)
        ensures
            exists|found: Option<usize>|
                term_width == #[trigger] resolve_width_spec(self.width, found),
            self.width matches Some(width) ==> term_width == width,
    {
        let found = match self.width {
            Some(_) => None,
            None => terminal_columns(),
        };
        let term_width = resolve_width(self.width, found);
        assert(term_width == resolve_width_spec(self.width, found));
        term_width
    }

    /// The block of lines that shows a snapshot on a terminal of
    /// `term_width` columns.
    pub fn frame_at(progress_stats: &ProgressStats, now: u64, term_width: usize) -> (text: String)
        requires
            progress_stats.counts_showable(),
            progress_stats.transfer_rate_spec(now) < BYTES_LIMIT,
            progress_stats.average_transfer_rate_spec(now) < BYTES_LIMIT,
        ensures
            text@ == frame(*progress_stats, now, term_width),
    {
        let mut text = String::new();
        push_frame(&mut text, progress_stats, now, term_width);
        assert(text@ =~= frame(*progress_stats, now, term_width));
        text
    }

    /// The block of lines that shows a snapshot on the terminal as it is
    /// now.
    pub fn display(&self, progress_stats: &ProgressStats, now: u64) -> (text: String)
        requires
            self.can_show(Phase::Progress, *progress_stats, now),
        ensures
            exists|found: Option<usize>|
                text@ == frame(
                    *progress_stats,
                    now,
                    #[trigger] resolve_width_spec(self.width, found),
                ),
            self.width matches Some(width) ==> text@ == frame(*progress_stats, now, width),
    {
        let term_width = self.terminal_width();
        Self::frame_at(progress_stats, now, term_width)
    }

    /// Draws the block of lines for a snapshot, over the block before it
    /// unless this is the first.
    fn draw(&mut self, phase: Phase, progress_stats: &ProgressStats, now: u64) -> (text: String)
        requires
            old(self).can_show(phase, *progress_stats, now),
        ensures
            old(self).may_show(phase, *progress_stats, now, text@),
            *final(self) == old(self).after(phase, *progress_stats),
    {
        let term_width = self.terminal_width();
        let mut text = String::new();
        match phase {
            Phase::Init => {},
            _ => {
                push_erase_lines(&mut text, self.lines_drawn);
            },
        }
        push_frame(&mut text, progress_stats, now, term_width);
        self.lines_drawn = match progress_stats.size() {
            Some(_) => 3,
            None => 2,
        };
        assert(text@ =~= old(self).text_at(phase, *progress_stats, now, term_width));
        text
    }
}

impl ProgressDisplay for InteractiveDisplay {
    open spec fn can_show(&self, phase: Phase, progress_stats: ProgressStats, now: u64) -> bool {
        &&& progress_stats.counts_showable()
        &&& progress_stats.transfer_rate_spec(now) < BYTES_LIMIT
        &&& progress_stats.average_transfer_rate_spec(now) < BYTES_LIMIT
    }

    open spec fn may_show(
        &self,
        phase: Phase,
        progress_stats: ProgressStats,
        now: u64,
        text: Seq<char>,
    ) -> bool {
        exists|found: Option<usize>|
            text == self.text_at(
                phase,
                progress_stats,
                now,
                #[trigger] resolve_width_spec(self.width, found),
            )
    }

    open spec fn after(&self, phase: Phase, progress_stats: ProgressStats) -> Self {
        InteractiveDisplay { width: self.width, lines_drawn: frame_lines(progress_stats) as usize }
    }

    fn ready(&self, phase: Phase, progress_stats: &ProgressStats, now: u64) -> (ready: bool) {
        progress_stats.has_showable_counts() && progress_stats.transfer_rate(now) < BYTES_LIMIT
            && progress_stats.average_transfer_rate(now) < BYTES_LIMIT
    }

    fn init_display(&mut self, progress_stats: ProgressStats, now: u64) -> (text: String) {
        self.draw(Phase::Init, &progress_stats, now)
    }

    fn display_progress(&mut self, progress_stats: ProgressStats, now: u64) -> (text: String) {
        self.draw(Phase::Progress, &progress_stats, now)
    }

    fn exit_display(&mut self, progress_stats: ProgressStats, now: u64) -> (text: String) {
        self.draw(Phase::Exit, &progress_stats, now)
    }
}

/// How the progress of a transfer is shown.
#[derive(Clone, Copy, Debug, PartialEq, Eq)]
pub enum ProgressDisplayer {
    /// Not at all.
    Silent,
    /// As a line for each snapshot.
    Log(LogDisplay),
    /// As a block of lines that is redrawn in place.
    Interactive(InteractiveDisplay),
}

impl ProgressDisplay for ProgressDisplayer {
    open spec fn can_show(&self, phase: Phase, progress_stats: ProgressStats, now: u64) -> bool {
        match self {
            ProgressDisplayer::Silent => true,
            ProgressDisplayer::Log(ld) => ld.can_show(phase, progress_stats, now),
            ProgressDisplayer::Interactive(id) => id.can_show(phase, progress_stats, now),
        }
    }

    open spec fn may_show(
        &self,
        phase: Phase,
        progress_stats: ProgressStats,
        now: u64,
        text: Seq<char>,
    ) -> bool {
        match self {
            ProgressDisplayer::Silent => text == Seq::<char>::empty(),
            ProgressDisplayer::Log(ld) => ld.may_show(phase, progress_stats, now, text),
            ProgressDisplayer::Interactive(id) => id.may_show(phase, progress_stats, now, text),
        }
    }

    open spec fn after(&self, phase: Phase, progress_stats: ProgressStats) -> Self {
        match self {
            ProgressDisplayer::Silent => ProgressDisplayer::Silent,
            ProgressDisplayer::Log(ld) => ProgressDisplayer::Log(ld.after(phase, progress_stats)),
            ProgressDisplayer::Interactive(id) => ProgressDisplayer::Interactive(
                id.after(phase, progress_stats),
            ),
        }
    }

    fn ready(&self, phase: Phase, progress_stats: &ProgressStats, now: u64) -> (ready: bool) {
        match self {
            ProgressDisplayer::Silent => true,
            ProgressDisplayer::Log(ld) => ld.ready(phase, progress_stats, now),
            ProgressDisplayer::Interactive(id) => id.ready(phase, progress_stats, now),
        }
    }

    fn init_display(&mut self, progress_stats: ProgressStats, now: u64) -> (text: String) {
        match self {
            ProgressDisplayer::Silent => String::new(),
            ProgressDisplayer::Log(ld) => ld.init_display(progress_stats, now),
            ProgressDisplayer::Interactive(id) => id.init_display(progress_stats, now),
        }
    }

    fn display_progress(&mut self, progress_stats: ProgressStats, now: u64) -> (text: String) {
        match self {
            ProgressDisplayer::Silent => String::new(),
            ProgressDisplayer::Log(ld) => ld.display_progress(progress_stats, now),
            ProgressDisplayer::Interactive(id) => id.display_progress(progress_stats, now),
        }
    }

    fn exit_display(&mut self, progress_stats: ProgressStats, now: u64) -> (text: String) {
        match self {
            ProgressDisplayer::Silent => String::new(),
            ProgressDisplayer::Log(ld) => ld.exit_display(progress_stats, now),
            ProgressDisplayer::Interactive(id) => id.exit_display(progress_stats, now),
        }
    }
}

/// The way of showing progress that a caller asks for.
#[derive(Clone, Copy, Debug, PartialEq, Eq, PartialOrd, Ord)]
pub enum OutputOption {
    /// As a block of lines where the error stream is a terminal, else not
    /// at all.
    Auto,
    /// Not at all.
    Silent,
    /// As a line for each snapshot.
    Log,
    /// As a block of lines that is redrawn in place.
    Interactive,
}

impl OutputOption {
    /// The display that the option stands for, given whether the error
    /// stream is a terminal, and the width to draw on where one was asked
    /// for.
    pub open spec fn displayer_spec(self, terminal: bool, width: Option<usize>)
        -> ProgressDisplayer {
        match self {
            OutputOption::Auto => if terminal {
                ProgressDisplayer::Interactive(InteractiveDisplay { width, lines_drawn: 0 })
            } else {
                ProgressDisplayer::Silent
            },
            OutputOption::Silent => ProgressDisplayer::Silent,
            OutputOption::Log => ProgressDisplayer::Log(LogDisplay),
            OutputOption::Interactive => ProgressDisplayer::Interactive(
                InteractiveDisplay { width, lines_drawn: 0 },
            ),
        }
    }

    /// The display that the option stands for.
    pub fn displayer(self, terminal: bool, width: Option<usize>) -> (displayer: ProgressDisplayer)
        ensures
            displayer == self.displayer_spec(terminal, width),
    {
        match self {
            OutputOption::Auto => if terminal {
                ProgressDisplayer::Interactive(InteractiveDisplay::new(width))
            } else {
                ProgressDisplayer::Silent
            },
            OutputOption::Silent => ProgressDisplayer::Silent,
            OutputOption::Log => ProgressDisplayer::Log(LogDisplay),
            OutputOption::Interactive => ProgressDisplayer::Interactive(
                InteractiveDisplay::new(width),
            ),
        }
    }
}

/// A bar of at least one cell has exactly its cells between its two ends.
/// Below the expected size they are, from the left, the filled cells before
/// the head, the head, and the cells that are not filled; from the expected
/// size on all of them are filled.
pub proof fn lemma_bar_cells(bytes: nat, size: nat, cells: nat)
    requires
        cells >= 1,
    ensures
        bar(bytes, size, cells).len() == cells + 2,
        bar(bytes, size, cells)[0] == BAR_LEFT,
        bar(bytes, size, cells)[cells as int + 1] == if bytes < size {
            BAR_RIGHT
        } else {
            BAR_RIGHT_FULL
        },
        filled_cells(bytes, size, cells) <= cells,
        forall|i: int|
            1 <= i <= cells ==> #[trigger] bar(bytes, size, cells)[i] == if bytes >= size || i
                < head_cells(filled_cells(bytes, size, cells)) {
                BAR_FILLED
            } else if i == head_cells(filled_cells(bytes, size, cells)) {
                BAR_HEAD
            } else {
                BAR_EMPTY
            },
{
}

/// On a terminal that leaves the bar a cell, the line with the bar is one
/// column short of the width of the terminal, its line feed not counted.
pub proof fn lemma_bar_line_width(stats: ProgressStats, now: u64, size: u128, term_width: usize)
    requires
        term_width >= pre_bar(stats, now).len() + format_bytes_spec(size as nat).len() + 5,
    ensures
        bar_cells(stats, now, size, term_width) == term_width - pre_bar(stats, now).len()
            - format_bytes_spec(size as nat).len() - 4,
        bar_line(stats, now, size, term_width).len() == term_width,
        bar_line(stats, now, size, term_width).last() == '\n',
{
    reveal_strlit(" ");
    lemma_bar_cells(
        stats.bytes_processed as nat,
        size as nat,
        bar_cells(stats, now, size, term_width),
    );
}

/// What stands in front of the bar holds no control character.
proof fn lemma_pre_bar_plain(stats: ProgressStats, now: u64)
    ensures
        plain(pre_bar(stats, now)),
{
    let total = format_bytes_spec(stats.bytes_processed as nat);
    let rate = format_transfer_rate_spec(stats.transfer_rate_spec(now) as nat);
    reveal_strlit(" @");
    reveal_strlit(" ");
    lemma_format_bytes_plain(stats.bytes_processed as nat);
    lemma_format_transfer_rate_plain(stats.transfer_rate_spec(now) as nat);
    lemma_repeated_plain(' ', minus(10, total.len()));
    lemma_repeated_plain(' ', minus(12, rate.len()));
    assert(plain(right_aligned(total, 10)));
    assert(plain(left_aligned(rate, 12)));
}

/// The bar holds no control character.
proof fn lemma_bar_plain(bytes: nat, size: nat, cells: nat)
    ensures
        plain(bar(bytes, size, cells)),
{
    let filled = filled_cells(bytes, size, cells);
    lemma_repeated_plain(BAR_EMPTY, minus(cells, head_cells(filled)));
    lemma_repeated_plain(BAR_FILLED, minus(filled, 1));
    lemma_repeated_plain(BAR_FILLED, cells);
}

/// The line with the bar holds one line feed, at its end, and no escape.
proof fn lemma_bar_line_occurrences(stats: ProgressStats, now: u64, size: u128, term_width: usize)
    ensures
        occurrences(bar_line(stats, now, size, term_width), '\n') == 1,
        occurrences(bar_line(stats, now, size, term_width), '\x1B') == 0,
{
    let content = pre_bar(stats, now) + bar(
        stats.bytes_processed as nat,
        size as nat,
        bar_cells(stats, now, size, term_width),
    ) + " "@ + format_bytes_spec(size as nat);
    reveal_strlit(" ");
    lemma_pre_bar_plain(stats, now);
    lemma_bar_plain(
        stats.bytes_processed as nat,
        size as nat,
        bar_cells(stats, now, size, term_width),
    );
    lemma_format_bytes_plain(size as nat);
    assert(plain(content));
    lemma_line_occurrences(content);
}

/// The line with the percentage holds one line feed, at its end, and no
/// escape.
proof fn lemma_percent_line_occurrences(part: Fraction, column: nat)
    ensures
        occurrences(percent_line(part, column), '\n') == 1,
        occurrences(percent_line(part, column), '\x1B') == 0,
{
    let label = percent_label(part);
    let content = repeated(' ', minus(column, label.len() / 2)) + label;
    reveal_strlit("%");
    lemma_fixed1_plain(part.percent(10));
    lemma_repeated_plain(' ', minus(column, label.len() / 2));
    assert(plain(content));
    lemma_line_occurrences(content);
}

/// The line with the time to the end holds one line feed, at its end, and
/// no escape.
proof fn lemma_eta_line_occurrences(stats: ProgressStats, now: u64)
    ensures
        occurrences(eta_line(stats, now), '\n') == 1,
        occurrences(eta_line(stats, now), '\x1B') == 0,
{
    let content = format_transfer_rate_spec(stats.average_transfer_rate_spec(now) as nat)
        + " ETA "@ + format_duration_spec(shown_time_remaining(stats, now));
    reveal_strlit(" ETA ");
    lemma_format_transfer_rate_plain(stats.average_transfer_rate_spec(now) as nat);
    lemma_format_duration_plain(shown_time_remaining(stats, now));
    assert(plain(content));
    lemma_line_occurrences(content);
}

/// The lines without an expected size hold one line feed each, at their
/// ends, and no escape.
proof fn lemma_plain_lines_occurrences(stats: ProgressStats, now: u64)
    ensures
        occurrences(count_line(stats, now), '\n') == 1,
        occurrences(count_line(stats, now), '\x1B') == 0,
        occurrences(average_line(stats, now), '\n') == 1,
        occurrences(average_line(stats, now), '\x1B') == 0,
{
    let count = format_bytes_spec(stats.bytes_processed as nat) + " @"@
        + format_transfer_rate_spec(stats.transfer_rate_spec(now) as nat);
    let average = format_transfer_rate_spec(stats.average_transfer_rate_spec(now) as nat);
    reveal_strlit(" @");
    lemma_format_bytes_plain(stats.bytes_processed as nat);
    lemma_format_transfer_rate_plain(stats.transfer_rate_spec(now) as nat);
    lemma_format_transfer_rate_plain(stats.average_transfer_rate_spec(now) as nat);
    assert(plain(count));
    lemma_line_occurrences(count);
    lemma_line_occurrences(average);
}

/// A block of lines has as many line feeds as `frame_lines` says, and no
/// escape: with an expected size it is three lines, without one two, and
/// no control sequence is in it.
pub proof fn lemma_frame_lines(stats: ProgressStats, now: u64, term_width: usize)
    ensures
        occurrences(frame(stats, now, term_width), '\n') == frame_lines(stats),
        occurrences(frame(stats, now, term_width), '\x1B') == 0,
{
    match stats.progress_percentage_spec() {
        Some(part) => {
            let size = part.denominator;
            let first = bar_line(stats, now, size, term_width);
            let second = percent_line(part, filled_column(stats, now, size, term_width));
            let third = eta_line(stats, now);
            lemma_bar_line_occurrences(stats, now, size, term_width);
            lemma_percent_line_occurrences(part, filled_column(stats, now, size, term_width));
            lemma_eta_line_occurrences(stats, now);
            lemma_occurrences_concat(first, second, '\n');
            lemma_occurrences_concat(first + second, third, '\n');
            lemma_occurrences_concat(first, second, '\x1B');
            lemma_occurrences_concat(first + second, third, '\x1B');
        },
        None => {
            lemma_plain_lines_occurrences(stats, now);
            lemma_occurrences_concat(count_line(stats, now), average_line(stats, now), '\n');
            lemma_occurrences_concat(count_line(stats, now), average_line(stats, now), '\x1B');
        },
    }
}

/// What erases `lines` lines holds two escapes for each, one for each of
/// the two control sequences that erase a line, and no line feed.
pub proof fn lemma_erase_lines_occurrences(lines: nat)
    ensures
        occurrences(erase_lines(lines), '\x1B') == 2 * lines,
        occurrences(erase_lines(lines), '\n') == 0,
    decreases lines,
{
    if lines > 0 {
        lemma_erase_lines_occurrences((lines - 1) as nat);
        lemma_occurrences_concat(erase_lines((lines - 1) as nat), erase_line(), '\x1B');
        lemma_occurrences_concat(erase_lines((lines - 1) as nat), erase_line(), '\n');
        reveal_strlit("\x1B[1A\x1B[2K");
        reveal_with_fuel(occurrences, 9);
        assert(erase_line() =~= seq!['\x1B', '[', '1', 'A', '\x1B', '[', '2', 'K']);
        assert(occurrences(seq!['\x1B', '[', '1', 'A', '\x1B', '[', '2', 'K'], '\x1B') == 2);
        assert(occurrences(seq!['\x1B', '[', '1', 'A', '\x1B', '[', '2', 'K'], '\n') == 0);
    }
}

/// A redraw erases what the draw before it wrote: whatever was drawn, on a
/// terminal of whatever width, the next draw that is not the first starts
/// with as many erasures as that block has lines, and they are all the
/// erasures in it.
pub proof fn lemma_redraw_erases_last_draw(
    display: InteractiveDisplay,
    drawn: Phase,
    before: ProgressStats,
    before_now: u64,
    before_width: usize,
    redraw: Phase,
    stats: ProgressStats,
    now: u64,
    term_width: usize,
)
    requires
        !(redraw is Init),
    ensures
        ({
            let lines = occurrences(frame(before, before_now, before_width), '\n');
            let text = display.after(drawn, before).text_at(redraw, stats, now, term_width);
            &&& display.after(drawn, before).lines_drawn == lines
            &&& text == erase_lines(lines) + frame(stats, now, term_width)
            &&& occurrences(text, '\x1B') == 2 * lines
        }),
{
    let lines = occurrences(frame(before, before_now, before_width), '\n');
    lemma_frame_lines(before, before_now, before_width);
    lemma_frame_lines(stats, now, term_width);
    lemma_erase_lines_occurrences(lines);
    lemma_occurrences_concat(erase_lines(lines), frame(stats, now, term_width), '\x1B');
}

/// The first draw erases nothing: its text is the block of lines alone.
pub proof fn lemma_first_draw_erases_nothing(
    display: InteractiveDisplay,
    stats: ProgressStats,
    now: u64,
    term_width: usize,
)
    ensures
        display.text_at(Phase::Init, stats, now, term_width) == frame(stats, now, term_width),
        occurrences(display.text_at(Phase::Init, stats, now, term_width), '\x1B') == 0,
{
    lemma_frame_lines(stats, now, term_width);
    assert(erase_lines(0) + frame(stats, now, term_width) =~= frame(stats, now, term_width));
}

} // verus!
