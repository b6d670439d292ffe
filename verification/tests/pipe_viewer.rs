use std::io::{Read, Write};

use pview::pipe_viewer::{Action, DriverState, Event, PipeViewer, TransferError};
use pview::progress_display::{InteractiveDisplay, LogDisplay, Phase, ProgressDisplayer};
use pview::progress_stats::ProgressStats;

const SECOND: u64 = 1_000_000_000;
const ERASE: &str = "\x1B[1A\x1B[2K";

/// Copies `input` to `output` as the viewer says, one tick of the clock for
/// each event; returns what was shown, step by step.
fn copy(viewer: &mut PipeViewer, mut input: &[u8], output: &mut Vec<u8>, clock: &mut u64, tick: u64) -> Vec<String> {
    let mut shown = Vec::new();
    let mut action = Action::Read;
    loop {
        *clock += tick;
        let event = match action {
            Action::Read => match input.read(viewer.buffer_mut()) {
                Ok(0) => Event::EndOfInput,
                Ok(count) => Event::Read(count),
                Err(_) => Event::ReadFailed,
            },
            Action::Write => match output.write_all(viewer.chunk()) {
                Ok(()) => Event::Written,
                Err(_) => Event::WriteFailed,
            },
            Action::Stop => return shown,
        };
        assert!(viewer.admits(event, *clock));
        let step = viewer.process(event, *clock);
        shown.push(step.text);
        action = step.action;
    }
}

fn interactive() -> ProgressDisplayer {
    ProgressDisplayer::Interactive(InteractiveDisplay::new(Some(80)))
}

#[test]
fn copies_ten_bytes_through_a_buffer_of_four() {
    let input: Vec<u8> = (1..=10).collect();
    let mut output = Vec::new();
    let mut clock = 0;
    let mut viewer = PipeViewer::new(4, None, u64::MAX, interactive(), clock);
    assert_eq!(viewer.state(), DriverState::Idle);
    assert!(viewer.ready(Phase::Init, clock));
    let first = viewer.init_display(clock);
    assert_eq!(first, "0B @0B/s\n0B/s\n");
    assert_eq!(viewer.state(), DriverState::Running);

    let shown = copy(&mut viewer, &input, &mut output, &mut clock, SECOND);
    assert_eq!(output, input);
    // three reads and their writes, and the read that finds the end
    assert_eq!(shown.len(), 7);
    assert!(shown.iter().all(|text| text.is_empty()));
    assert_eq!(viewer.state(), DriverState::Draining);
    assert_eq!(viewer.failure(), None);
    assert_eq!(
        viewer.snapshot(),
        ProgressStats {
            bytes_processed: 10,
            expected_size: None,
            start_time: 0,
            last_display: 0,
            bytes_processed_since_last_display: 10,
        }
    );

    assert!(viewer.ready(Phase::Exit, clock));
    let last = viewer.exit_display(10 * SECOND);
    assert_eq!(last, format!("{}{}", ERASE.repeat(2), "10B @1B/s\n1B/s\n"));
    assert_eq!(viewer.state(), DriverState::Done);
    assert_eq!(viewer.snapshot().bytes_processed, 10);
}

#[test]
fn copies_nothing_and_still_shows_both_ends() {
    let mut output = Vec::new();
    let mut clock = 0;
    let mut viewer = PipeViewer::new(4, Some(0), u64::MAX, interactive(), clock);
    let first = viewer.init_display(clock);
    assert_eq!(first, "0B @0B/s\n0B/s\n");
    let shown = copy(&mut viewer, &[], &mut output, &mut clock, SECOND);
    assert_eq!(shown, vec![String::new()]);
    assert!(output.is_empty());
    assert_eq!(viewer.state(), DriverState::Draining);
    let last = viewer.exit_display(clock);
    assert_eq!(last, format!("{}{}", ERASE.repeat(2), "0B @0B/s\n0B/s\n"));
    assert_eq!(viewer.snapshot().bytes_processed, 0);
    assert_eq!(viewer.state(), DriverState::Done);
}

#[test]
fn shows_progress_when_the_interval_has_passed() {
    let input = [7u8; 10];
    let mut output = Vec::new();
    let mut clock = 0;
    let log = ProgressDisplayer::Log(LogDisplay);
    // a step each second: every read but the first comes more than 1.5 s
    // after the last display
    let mut viewer = PipeViewer::new(4, Some(10), 3 * SECOND / 2, log, clock);
    assert_eq!(viewer.init_display(clock), "");
    let shown = copy(&mut viewer, &input, &mut output, &mut clock, SECOND);
    assert_eq!(output, input);
    assert_eq!(
        shown,
        vec![
            String::new(),
            String::new(),
            "TOTAL:         8B / 10B (80.00%), ELAPSED: 3.00s, RATE: 2B/s\n".to_string(),
            String::new(),
            "TOTAL:        10B / 10B (100.00%), ELAPSED: 5.00s, RATE: 1B/s\n".to_string(),
            String::new(),
            String::new(),
        ]
    );
    assert_eq!(
        viewer.snapshot(),
        ProgressStats {
            bytes_processed: 10,
            expected_size: Some(10),
            start_time: 0,
            last_display: 5 * SECOND,
            bytes_processed_since_last_display: 0,
        }
    );
    assert_eq!(viewer.exit_display(clock), "");
}

#[test]
fn interval_must_be_exceeded() {
    let mut viewer = PipeViewer::new(4, None, SECOND, ProgressDisplayer::Log(LogDisplay), 0);
    viewer.init_display(0);
    let step = viewer.process(Event::Read(4), SECOND);
    assert_eq!(step.text, "");
    assert_eq!(step.action, Action::Write);
    assert_eq!(viewer.process(Event::Written, SECOND).action, Action::Read);
    let step = viewer.process(Event::Read(2), SECOND + 1);
    assert_eq!(step.text, "TOTAL:         6B, ELAPSED: 1.00s, RATE: 5B/s\n");
    assert_eq!(viewer.snapshot().last_display, SECOND + 1);
    assert_eq!(viewer.snapshot().bytes_processed_since_last_display, 0);
}

#[test]
fn counts_go_on_over_several_sources() {
    let mut output = Vec::new();
    let mut clock = 0;
    let mut viewer = PipeViewer::new(8, None, u64::MAX, interactive(), clock);
    viewer.init_display(clock);
    copy(&mut viewer, b"first", &mut output, &mut clock, 1);
    assert_eq!(viewer.state(), DriverState::Draining);
    viewer.resume();
    assert_eq!(viewer.state(), DriverState::Running);
    copy(&mut viewer, b" and second", &mut output, &mut clock, 1);
    assert_eq!(output, b"first and second");
    assert_eq!(viewer.snapshot().bytes_processed, 16);
    assert_eq!(viewer.snapshot().start_time, 0);
    let last = viewer.exit_display(16 * SECOND);
    assert_eq!(last, format!("{}{}", ERASE.repeat(2), "16B @1B/s\n1B/s\n"));
}

#[test]
fn a_failed_read_ends_the_copy() {
    let mut viewer = PipeViewer::new(4, None, u64::MAX, ProgressDisplayer::Silent, 0);
    viewer.init_display(0);
    assert_eq!(viewer.process(Event::Read(3), 1).action, Action::Write);
    assert_eq!(viewer.process(Event::Written, 2).action, Action::Read);
    let step = viewer.process(Event::ReadFailed, 3);
    assert_eq!(step.action, Action::Stop);
    assert_eq!(step.text, "");
    assert_eq!(viewer.state(), DriverState::Draining);
    assert_eq!(viewer.failure(), Some(TransferError::ReadError));
    assert_eq!(viewer.exit_display(4), "");
    assert_eq!(viewer.state(), DriverState::Done);
    assert_eq!(viewer.snapshot().bytes_processed, 3);
}

#[test]
fn a_failed_write_ends_the_copy() {
    let mut viewer = PipeViewer::new(4, None, u64::MAX, interactive(), 0);
    viewer.init_display(0);
    assert_eq!(viewer.process(Event::Read(3), SECOND).action, Action::Write);
    assert_eq!(viewer.chunk().len(), 3);
    let step = viewer.process(Event::WriteFailed, 2 * SECOND);
    assert_eq!(step.action, Action::Stop);
    assert_eq!(viewer.state(), DriverState::Draining);
    assert_eq!(viewer.failure(), Some(TransferError::WriteError));
    assert_eq!(viewer.chunk().len(), 0);
    // the last snapshot still holds what was read
    let last = viewer.exit_display(3 * SECOND);
    assert_eq!(last, format!("{}{}", ERASE.repeat(2), "3B @1B/s\n1B/s\n"));
}

#[test]
fn admits_what_fits_the_state() {
    let mut viewer = PipeViewer::new(4, None, u64::MAX, ProgressDisplayer::Silent, 0);
    assert!(!viewer.admits(Event::Read(1), 0));
    viewer.init_display(0);
    assert!(viewer.admits(Event::Read(1), 0));
    assert!(viewer.admits(Event::Read(4), 0));
    assert!(!viewer.admits(Event::Read(0), 0));
    assert!(!viewer.admits(Event::Read(5), 0));
    assert!(!viewer.admits(Event::Written, 0));
    assert!(!viewer.admits(Event::WriteFailed, 0));
    assert!(viewer.admits(Event::EndOfInput, 0));
    assert!(viewer.admits(Event::ReadFailed, 0));
    viewer.process(Event::Read(4), 0);
    assert!(!viewer.admits(Event::Read(1), 0));
    assert!(!viewer.admits(Event::EndOfInput, 0));
    assert!(viewer.admits(Event::Written, 0));
    assert!(viewer.admits(Event::WriteFailed, 0));
    viewer.process(Event::Written, 0);
    viewer.process(Event::EndOfInput, 0);
    assert!(!viewer.admits(Event::Read(1), 0));
    assert!(!viewer.admits(Event::EndOfInput, 0));
}

#[test]
fn in_step_is_what_fits_the_state() {
    let mut viewer = PipeViewer::new(4, None, 0, ProgressDisplayer::Log(LogDisplay), 0);
    assert!(!viewer.in_step(Event::Read(1)));
    viewer.init_display(0);
    assert!(viewer.in_step(Event::Read(4)));
    assert!(!viewer.in_step(Event::Read(5)));
    assert!(!viewer.in_step(Event::Read(0)));
    assert!(!viewer.in_step(Event::Written));
    assert!(viewer.in_step(Event::EndOfInput));
    viewer.process(Event::Read(4), 0);
    assert!(viewer.in_step(Event::Written));
    assert!(viewer.in_step(Event::WriteFailed));
    assert!(!viewer.in_step(Event::ReadFailed));
}

#[test]
fn admits_no_read_that_cannot_be_shown() {
    // 2^89 bytes a nanosecond is more than a log can show
    let mut viewer = PipeViewer::new(4, Some(1 << 90), 0, ProgressDisplayer::Log(LogDisplay), 0);
    assert!(viewer.ready(Phase::Init, 0));
    viewer.init_display(0);
    // not due yet: nothing is shown, so the read can be taken
    assert!(viewer.admits(Event::Read(4), 0));
    assert!(!viewer.admits(Event::Read(4), 1));
    assert!(viewer.in_step(Event::Read(4)));
    assert!(!viewer.ready(Phase::Progress, 1));
    let mut viewer = PipeViewer::new(4, Some(1 << 90), 0, interactive(), 0);
    assert!(!viewer.ready(Phase::Init, 0));
    assert_eq!(viewer.buffer_mut().len(), 4);
}

#[test]
fn display_shows_without_counting_anew() {
    let mut viewer = PipeViewer::new(4, Some(8), u64::MAX, ProgressDisplayer::Log(LogDisplay), 0);
    viewer.init_display(0);
    viewer.process(Event::Read(4), SECOND);
    assert_eq!(
        viewer.display(2 * SECOND),
        "TOTAL:         4B / 8B (50.00%), ELAPSED: 2.00s, RATE: 2B/s\n"
    );
    assert_eq!(viewer.snapshot().last_display, 0);
    assert_eq!(viewer.snapshot().bytes_processed_since_last_display, 4);
}

#[test]
fn buffer_holds_what_was_read() {
    let mut viewer = PipeViewer::new(4, None, u64::MAX, ProgressDisplayer::Silent, 0);
    viewer.init_display(0);
    assert_eq!(viewer.buffer_mut().to_vec(), vec![0u8; 4]);
    viewer.buffer_mut()[..3].copy_from_slice(b"abc");
    viewer.process(Event::Read(3), 0);
    assert_eq!(viewer.chunk(), b"abc");
    viewer.process(Event::Written, 0);
    assert_eq!(viewer.chunk(), b"");
}
