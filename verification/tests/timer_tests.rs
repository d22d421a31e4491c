use sendme_egui::comms::{Event, MessageOut};
use sendme_egui::timer::{TimedInput, TimerCommands, TimerInput, TimerTask, TICK_PERIOD_MS};

fn start(now: u64) -> TimedInput {
    TimedInput { input: TimerInput::Command(TimerCommands::Start), now }
}

fn reset(now: u64) -> TimedInput {
    TimedInput { input: TimerInput::Command(TimerCommands::Reset), now }
}

fn tick(now: u64) -> TimedInput {
    TimedInput { input: TimerInput::Tick, now }
}

fn started(now: u64) -> TimerTask {
    TimerTask { running: true, start: now }
}

#[test]
fn a_new_timer_is_stopped() {
    assert_eq!(TimerTask::new(), TimerTask { running: false, start: 0 });
    assert_eq!(TICK_PERIOD_MS, 1000);
}

#[test]
fn a_new_timer_is_silent_until_it_is_started() {
    let mut timer = TimerTask::new();
    let mut mess = MessageOut::new();
    timer.run(&vec![tick(1000), tick(2000), tick(3000)], &mut mess);
    assert_eq!(mess.len(), 0);
    assert!(!timer.running);
    timer.run(&vec![start(3500), tick(4000), tick(5600)], &mut mess);
    assert_eq!(mess.take(), vec![Event::Tick(0), Event::Tick(2)]);
}

#[test]
fn a_tick_reports_whole_seconds() {
    let mut timer = started(1000);
    let mut mess = MessageOut::new();
    timer.step(tick(1000), &mut mess);
    timer.step(tick(1999), &mut mess);
    timer.step(tick(2000), &mut mess);
    timer.step(tick(62_500), &mut mess);
    assert_eq!(mess.take(), vec![Event::Tick(0), Event::Tick(0), Event::Tick(1), Event::Tick(61)]);
}

#[test]
fn a_clock_behind_the_start_reads_zero() {
    let mut timer = started(5000);
    let mut mess = MessageOut::new();
    timer.step(tick(10), &mut mess);
    assert_eq!(mess.take(), vec![Event::Tick(0)]);
}

#[test]
fn start_counts_from_the_moment_it_is_handled() {
    let mut timer = started(0);
    let mut mess = MessageOut::new();
    timer.step(start(10_000), &mut mess);
    assert_eq!(timer, TimerTask { running: true, start: 10_000 });
    timer.step(tick(13_000), &mut mess);
    assert_eq!(mess.take(), vec![Event::Tick(3)]);
}

#[test]
fn reset_stops_the_timer_and_says_so() {
    let mut timer = started(0);
    let mut mess = MessageOut::new();
    timer.step(reset(500), &mut mess);
    assert!(!timer.running);
    timer.step(tick(1000), &mut mess);
    timer.step(tick(2000), &mut mess);
    assert_eq!(mess.take(), vec![Event::StopTick]);
}

#[test]
fn every_reset_is_reported_once() {
    let steps = vec![
        tick(1000),
        reset(1500),
        reset(1600),
        tick(2000),
        start(2500),
        tick(3500),
        reset(3600),
        tick(4000),
        start(5000),
        start(6000),
        tick(7000),
        reset(7001),
    ];
    let mut timer = started(0);
    let mut mess = MessageOut::new();
    timer.run(&steps, &mut mess);
    let events = mess.take();
    let stops = events.iter().filter(|e| **e == Event::StopTick).count();
    assert_eq!(stops, 4);
    assert_eq!(
        events,
        vec![
            Event::Tick(1),
            Event::StopTick,
            Event::StopTick,
            Event::Tick(1),
            Event::StopTick,
            Event::Tick(1),
            Event::StopTick,
        ]
    );
    assert_eq!(timer, TimerTask { running: false, start: 6000 });
}

#[test]
fn no_tick_between_reset_and_start() {
    let mut timer = started(0);
    let mut mess = MessageOut::new();
    timer.run(&vec![reset(10), tick(1000), tick(2000), tick(3000)], &mut mess);
    assert_eq!(mess.take(), vec![Event::StopTick]);
    timer.run(&vec![start(3500), tick(4500)], &mut mess);
    assert_eq!(mess.take(), vec![Event::Tick(1)]);
}

#[test]
fn run_over_nothing_changes_nothing() {
    let mut timer = started(7);
    let mut mess = MessageOut::new();
    timer.run(&vec![], &mut mess);
    assert_eq!(timer, started(7));
    assert_eq!(mess.len(), 0);
}
