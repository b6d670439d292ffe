use pview::human_bytes::{format_duration, format_percentage, format_transfer_rate, Fraction};
use pview::progress_display::{
    resolve_width, InteractiveDisplay, LogDisplay, OutputOption, Phase, ProgressDisplay,
    ProgressDisplayer,
};
use pview::progress_stats::ProgressStats;

const SECOND: u64 = 1_000_000_000;
const ERASE: &str = "\x1B[1A\x1B[2K";

fn stats() -> ProgressStats {
    ProgressStats {
        bytes_processed: 3 * 1024 * 1024,
        expected_size: Some(12 * 1024 * 1024),
        start_time: 0,
        last_display: 2 * SECOND,
        bytes_processed_since_last_display: 1024 * 1024,
    }
}

fn unknown() -> ProgressStats {
    ProgressStats { expected_size: None, ..stats() }
}

fn known_frame() -> String {
    let mut frame = String::new();
    frame.push_str("   3.00MiB @1.00MiB/s    ");
    frame.push('\u{251D}');
    frame.push_str(&"\u{2501}".repeat(9));
    frame.push('\u{252D}');
    frame.push_str(&"\u{254C}".repeat(33));
    frame.push('\u{2524}');
    frame.push_str(" 12.00MiB\n");
    frame.push_str(&" ".repeat(33));
    frame.push_str("25.0%\n");
    frame.push_str("1.00MiB/s ETA 00:00:08\n");
    frame
}

#[test]
fn format_transfer_rate_appends_per_second() {
    assert_eq!(format_transfer_rate(0), "0B/s");
    assert_eq!(format_transfer_rate(1400), "1.37KiB/s");
}

#[test]
fn format_duration_is_hours_minutes_seconds() {
    assert_eq!(format_duration(0), "00:00:00");
    assert_eq!(format_duration(999_999_999), "00:00:00");
    assert_eq!(format_duration(SECOND), "00:00:01");
    assert_eq!(format_duration(59 * SECOND), "00:00:59");
    assert_eq!(format_duration(60 * SECOND), "00:01:00");
    assert_eq!(format_duration(3599 * SECOND), "00:59:59");
    assert_eq!(format_duration(3600 * SECOND), "01:00:00");
    assert_eq!(format_duration((9 * 3600 + 5 * 60 + 7) * SECOND), "09:05:07");
    assert_eq!(format_duration((123 * 3600 + 45 * 60 + 6) * SECOND), "123:45:06");
    assert_eq!(format_duration(u64::MAX), "5124095:34:33");
}

#[test]
fn format_percentage_keeps_its_width() {
    let of = |numerator: u128, denominator: u128| {
        format_percentage(Fraction { numerator, denominator })
    };
    assert_eq!(of(0, 1), "0.00%");
    assert_eq!(of(1, 20), "5.00%");
    assert_eq!(of(1234, 100000), "1.23%");
    assert_eq!(of(99, 1000), "9.90%");
    assert_eq!(of(1, 10), "10.0%");
    assert_eq!(of(1, 4), "25.0%");
    assert_eq!(of(1, 3), "33.3%");
    assert_eq!(of(2, 3), "66.7%");
    assert_eq!(of(1, 1), "100.0%");
    assert_eq!(of(5, 2), "250.0%");
    // below ten percent, rounded up to it
    assert_eq!(of(99999, 1000000), "10.00%");
    // ties go to the even digit
    assert_eq!(of(125, 100000), "0.12%");
    assert_eq!(of(135, 100000), "0.14%");
    assert_eq!(of(1225, 10000), "12.2%");
    assert_eq!(of(1235, 10000), "12.4%");
}

#[test]
fn resolve_width_prefers_what_was_asked_for() {
    assert_eq!(resolve_width(Some(120), Some(100)), 120);
    assert_eq!(resolve_width(Some(120), None), 120);
    assert_eq!(resolve_width(None, Some(100)), 100);
    assert_eq!(resolve_width(None, None), 80);
}

#[test]
fn terminal_width_is_the_override() {
    assert_eq!(InteractiveDisplay::new(Some(132)).terminal_width(), 132);
    assert_eq!(InteractiveDisplay::new(Some(0)).terminal_width(), 0);
}

#[test]
fn log_shows_a_line_with_the_total() {
    let mut log = LogDisplay;
    assert_eq!(
        log.display_progress(stats(), 3 * SECOND),
        "TOTAL:    3.00MiB / 12.00MiB (25.00%), ELAPSED: 3.00s, RATE: 1.00MiB/s\n"
    );
}

#[test]
fn log_shows_a_line_without_a_total() {
    let mut log = LogDisplay;
    assert_eq!(
        log.display_progress(unknown(), 3 * SECOND + 456_000_000),
        "TOTAL:    3.00MiB, ELAPSED: 3.46s, RATE: 703.30KiB/s\n"
    );
    let zero = ProgressStats { expected_size: Some(0), ..stats() };
    assert_eq!(
        log.display_progress(zero, 3 * SECOND),
        "TOTAL:    3.00MiB, ELAPSED: 3.00s, RATE: 1.00MiB/s\n"
    );
}

#[test]
fn log_is_silent_at_both_ends() {
    let mut log = LogDisplay;
    assert_eq!(log.init_display(stats(), 0), "");
    assert_eq!(log.exit_display(stats(), 3 * SECOND), "");
    let huge = ProgressStats { bytes_processed: u128::MAX, ..stats() };
    assert!(log.ready(Phase::Init, &huge, 0));
    assert!(log.ready(Phase::Exit, &huge, 0));
    assert!(!log.ready(Phase::Progress, &huge, 0));
    assert!(log.ready(Phase::Progress, &stats(), 3 * SECOND));
}

#[test]
fn silent_shows_nothing() {
    let mut silent = ProgressDisplayer::Silent;
    assert_eq!(silent.init_display(stats(), 0), "");
    assert_eq!(silent.display_progress(stats(), 3 * SECOND), "");
    assert_eq!(silent.exit_display(stats(), 3 * SECOND), "");
    let huge = ProgressStats { bytes_processed: u128::MAX, ..stats() };
    assert!(silent.ready(Phase::Progress, &huge, 0));
    assert_eq!(silent, ProgressDisplayer::Silent);
}

#[test]
fn interactive_frame_with_a_size_has_three_lines() {
    assert_eq!(InteractiveDisplay::frame_at(&stats(), 3 * SECOND, 80), known_frame());
    let display = InteractiveDisplay::new(Some(80));
    assert_eq!(display.display(&stats(), 3 * SECOND), known_frame());
}

#[test]
fn interactive_frame_without_a_size_has_two_lines() {
    assert_eq!(
        InteractiveDisplay::frame_at(&unknown(), 3 * SECOND, 80),
        "3.00MiB @1.00MiB/s\n1.00MiB/s\n"
    );
}

#[test]
fn interactive_bar_at_nothing_has_only_its_head() {
    let zero = ProgressStats {
        bytes_processed: 0,
        bytes_processed_since_last_display: 0,
        ..stats()
    };
    let mut frame = String::new();
    frame.push_str("        0B @0B/s         \u{251D}\u{252D}");
    frame.push_str(&"\u{254C}".repeat(42));
    frame.push_str("\u{2524} 12.00MiB\n");
    frame.push_str(&" ".repeat(23));
    frame.push_str("0.0%\n0B/s ETA 00:00:00\n");
    assert_eq!(InteractiveDisplay::frame_at(&zero, 3 * SECOND, 80), frame);
}

#[test]
fn interactive_bar_at_the_size_is_full() {
    let full = ProgressStats { bytes_processed: 12 * 1024 * 1024, ..stats() };
    let mut frame = String::new();
    frame.push_str("  12.00MiB @1.00MiB/s    \u{251D}");
    frame.push_str(&"\u{2501}".repeat(43));
    frame.push_str("\u{2525} 12.00MiB\n");
    frame.push_str(&" ".repeat(25 + 43 - 3));
    frame.push_str("100.0%\n4.00MiB/s ETA 00:00:00\n");
    assert_eq!(InteractiveDisplay::frame_at(&full, 3 * SECOND, 80), frame);
    // past the size the bar stays full
    let over = ProgressStats { bytes_processed: 24 * 1024 * 1024, ..stats() };
    let mut frame = String::new();
    frame.push_str("  24.00MiB @1.00MiB/s    \u{251D}");
    frame.push_str(&"\u{2501}".repeat(43));
    frame.push_str("\u{2525} 12.00MiB\n");
    frame.push_str(&" ".repeat(25 + 43 - 3));
    frame.push_str("200.0%\n8.00MiB/s ETA 00:00:00\n");
    assert_eq!(InteractiveDisplay::frame_at(&over, 3 * SECOND, 80), frame);
}

#[test]
fn interactive_bar_with_little_done_has_only_its_head() {
    let little = ProgressStats { bytes_processed: 1, bytes_processed_since_last_display: 1, ..stats() };
    let mut frame = String::new();
    frame.push_str("        1B @1B/s         \u{251D}\u{252D}");
    frame.push_str(&"\u{254C}".repeat(42));
    frame.push_str("\u{2524} 12.00MiB\n");
    frame.push_str(&" ".repeat(23));
    // 12 MiB less one byte at a byte a second, from the last display at 2 s
    frame.push_str("0.0%\n0B/s ETA 3495:15:10\n");
    assert_eq!(InteractiveDisplay::frame_at(&little, 3 * SECOND, 80), frame);
}

#[test]
fn interactive_bar_has_its_cells_whatever_is_done() {
    for done in 0..=1000u128 {
        let stats = ProgressStats {
            bytes_processed: done,
            expected_size: Some(1000),
            start_time: 0,
            last_display: 0,
            bytes_processed_since_last_display: 0,
        };
        // 25 columns before the bar, "1000B" behind it, a margin of 4
        let frame = InteractiveDisplay::frame_at(&stats, 0, 80);
        let line = frame.lines().next().unwrap();
        let cells = line.matches(['\u{2501}', '\u{252D}', '\u{254C}']).count();
        assert_eq!(cells, 46, "{}", done);
        assert_eq!(line.chars().count(), 79, "{}", done);
        let filled = (done * 46 / 1000) as usize;
        if done < 1000 {
            assert_eq!(line.matches('\u{2501}').count(), filled.max(1) - 1);
            assert_eq!(line.matches('\u{252D}').count(), 1);
        } else {
            assert_eq!(line.matches('\u{2501}').count(), 46);
            assert_eq!(line.matches('\u{252D}').count(), 0);
        }
    }
}

#[test]
fn interactive_bar_on_a_narrow_terminal_is_its_head() {
    // 37 columns leave the bar no cell, 38 leave it one: the head
    for width in [0usize, 10, 37, 38] {
        let mut frame = String::new();
        frame.push_str("   3.00MiB @1.00MiB/s    \u{251D}\u{252D}\u{2524} 12.00MiB\n");
        frame.push_str(&" ".repeat(23));
        frame.push_str("25.0%\n1.00MiB/s ETA 00:00:08\n");
        assert_eq!(InteractiveDisplay::frame_at(&stats(), 3 * SECOND, width), frame);
    }
    let mut frame = String::new();
    frame.push_str("   3.00MiB @1.00MiB/s    \u{251D}\u{252D}\u{254C}\u{2524} 12.00MiB\n");
    frame.push_str(&" ".repeat(23));
    frame.push_str("25.0%\n1.00MiB/s ETA 00:00:08\n");
    assert_eq!(InteractiveDisplay::frame_at(&stats(), 3 * SECOND, 39), frame);
}

#[test]
fn interactive_first_draw_erases_nothing() {
    let mut display = InteractiveDisplay::new(Some(80));
    assert_eq!(display.init_display(stats(), 3 * SECOND), known_frame());
    assert_eq!(display.lines_drawn, 3);
}

#[test]
fn interactive_redraw_erases_the_lines_of_the_last_draw() {
    let mut display = InteractiveDisplay::new(Some(80));
    let first = display.init_display(stats(), 3 * SECOND);
    assert_eq!(first.matches('\n').count(), 3);
    let second = display.display_progress(unknown(), 3 * SECOND);
    assert_eq!(second, format!("{}{}", ERASE.repeat(3), "3.00MiB @1.00MiB/s\n1.00MiB/s\n"));
    assert_eq!(second.matches(ERASE).count(), 3);
    assert_eq!(second.matches('\n').count(), 2);
    let third = display.display_progress(stats(), 3 * SECOND);
    assert_eq!(third, format!("{}{}", ERASE.repeat(2), known_frame()));
    assert_eq!(third.matches(ERASE).count(), 2);
    let last = display.exit_display(stats(), 3 * SECOND);
    assert_eq!(last, format!("{}{}", ERASE.repeat(3), known_frame()));
}

#[test]
fn interactive_redraw_without_a_draw_erases_nothing() {
    let mut display = InteractiveDisplay::new(Some(80));
    assert_eq!(display.display_progress(stats(), 3 * SECOND), known_frame());
}

#[test]
fn interactive_needs_showable_rates() {
    let display = InteractiveDisplay::new(None);
    assert!(display.ready(Phase::Progress, &stats(), 3 * SECOND));
    let fast = ProgressStats {
        bytes_processed: 1 << 89,
        expected_size: None,
        start_time: 0,
        last_display: 0,
        bytes_processed_since_last_display: 1 << 89,
    };
    assert!(!display.ready(Phase::Progress, &fast, 1));
    assert!(display.ready(Phase::Progress, &fast, SECOND));
    let log = LogDisplay;
    let split = ProgressStats { bytes_processed_since_last_display: 0, ..fast };
    assert!(log.ready(Phase::Progress, &split, 1));
    assert!(!display.ready(Phase::Progress, &split, 1));
}

#[test]
fn displayer_passes_on_to_its_kind() {
    let mut log = ProgressDisplayer::Log(LogDisplay);
    assert_eq!(log.init_display(stats(), 0), "");
    assert_eq!(
        log.display_progress(stats(), 3 * SECOND),
        "TOTAL:    3.00MiB / 12.00MiB (25.00%), ELAPSED: 3.00s, RATE: 1.00MiB/s\n"
    );
    assert_eq!(log.exit_display(stats(), 0), "");
    let mut interactive = ProgressDisplayer::Interactive(InteractiveDisplay::new(Some(80)));
    assert_eq!(interactive.init_display(stats(), 3 * SECOND), known_frame());
    assert_eq!(
        interactive.display_progress(stats(), 3 * SECOND),
        format!("{}{}", ERASE.repeat(3), known_frame())
    );
    assert_eq!(
        interactive.exit_display(unknown(), 3 * SECOND),
        format!("{}{}", ERASE.repeat(3), "3.00MiB @1.00MiB/s\n1.00MiB/s\n")
    );
    assert_eq!(
        interactive,
        ProgressDisplayer::Interactive(InteractiveDisplay { width: Some(80), lines_drawn: 2 })
    );
}

#[test]
fn output_option_chooses_the_display() {
    let interactive = ProgressDisplayer::Interactive(InteractiveDisplay::new(Some(100)));
    assert_eq!(OutputOption::Auto.displayer(true, Some(100)), interactive);
    assert_eq!(OutputOption::Auto.displayer(false, Some(100)), ProgressDisplayer::Silent);
    assert_eq!(OutputOption::Silent.displayer(true, None), ProgressDisplayer::Silent);
    assert_eq!(OutputOption::Log.displayer(false, None), ProgressDisplayer::Log(LogDisplay));
    assert_eq!(OutputOption::Interactive.displayer(false, Some(100)), interactive);
    assert_eq!(OutputOption::Interactive.displayer(true, Some(100)), interactive);
}

#[test]
fn format_percentage_agrees_with_floating_point_on_binary_fractions() {
    for numerator in 0..4096u128 {
        let scaled = numerator as f64 / 1024.0 * 100.0;
        let expected = if scaled < 10.0 {
            format!("{:.2}%", scaled)
        } else {
            format!("{:.1}%", scaled)
        };
        assert_eq!(
            format_percentage(Fraction { numerator, denominator: 1024 }),
            expected,
            "{}",
            numerator
        );
    }
}

#[test]
fn interactive_bar_fills_as_floating_point_does_on_binary_fractions() {
    for width in [38usize, 39, 50, 80, 131] {
        for done in 1..64u128 {
            let stats = ProgressStats {
                bytes_processed: done,
                expected_size: Some(64),
                start_time: 0,
                last_display: 0,
                bytes_processed_since_last_display: 0,
            };
            // "      1B @0B/s         " and "64B" leave width - 32 cells
            let cells = width - 25 - 3 - 4;
            let filled = ((done as f64 / 64.0) * cells as f64) as usize;
            let frame = InteractiveDisplay::frame_at(&stats, 0, width);
            let line = frame.lines().next().unwrap();
            assert_eq!(line.matches('\u{2501}').count(), filled.saturating_sub(1));
            assert_eq!(line.matches('\u{254C}').count(), cells - filled.max(1));
            assert_eq!(line.matches('\u{252D}').count(), 1);
            let label = format!("{:.1}%", done as f64 / 64.0 * 100.0);
            let second = frame.lines().nth(1).unwrap();
            assert_eq!(second, format!("{}{}", " ".repeat(25 + filled - label.len() / 2), label));
        }
    }
}

#[test]
fn terminal_width_without_an_override_is_found_or_eighty() {
    let width = InteractiveDisplay::new(None).terminal_width();
    assert!(width >= 1);
}
