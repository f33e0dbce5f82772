use airquamon::{Canvas, Command, Data, Display, Phase, Step, Theme2};

/// A stand-in for the panel and its bus: it records the operations, keeps
/// the frame it was sent and the frame it shows, and fails the operation
/// at a chosen position.
struct FakePanel {
    issued: Vec<Command>,
    fail_at: Option<usize>,
    sent: Vec<u8>,
    shown: Vec<u8>,
}

impl FakePanel {
    fn new(fail_at: Option<usize>) -> FakePanel {
        FakePanel { issued: Vec::new(), fail_at, sent: Vec::new(), shown: vec![7; 3] }
    }

    fn perform(&mut self, command: Command, bw: &[u8], chromatic: &[u8]) -> bool {
        let failed = self.fail_at == Some(self.issued.len());
        self.issued.push(command);
        if failed {
            return false;
        }
        match command {
            Command::TransferFrame => self.sent = [bw, chromatic].concat(),
            Command::Present => self.shown = self.sent.clone(),
            _ => {}
        }
        true
    }
}

fn run(display: &mut Display<Theme2>, panel: &mut FakePanel, data: Data) -> Step {
    let mut command = display.begin(data);
    loop {
        let ok = panel.perform(command, display.bw_buffer(), display.chromatic_buffer());
        match display.advance(ok) {
            Step::Issue(next) => command = next,
            done => return done,
        }
    }
}

#[test]
fn full_cycle_issues_every_operation_in_order() {
    let mut display = Display::new(Canvas::new(), Theme2::new());
    let mut panel = FakePanel::new(None);
    assert_eq!(display.phase(), Phase::Idle);
    assert_eq!(run(&mut display, &mut panel, Data::new(459, 2059, 5742)), Step::Finished);
    assert_eq!(
        panel.issued,
        vec![Command::Wake, Command::WaitUntilIdle, Command::TransferFrame, Command::Present, Command::Sleep]
    );
    assert_eq!(display.phase(), Phase::Idle);
    assert_eq!(panel.shown.len(), 2 * 4736);
    assert_eq!(panel.shown, [display.bw_buffer(), display.chromatic_buffer()].concat());
}

#[test]
fn bus_failure_during_transfer_leaves_panel_unchanged() {
    let mut display = Display::new(Canvas::new(), Theme2::new());
    let mut panel = FakePanel::new(Some(2));
    assert_eq!(run(&mut display, &mut panel, Data::new(900, 2059, 5742)), Step::BusFailed);
    assert_eq!(panel.issued, vec![Command::Wake, Command::WaitUntilIdle, Command::TransferFrame]);
    assert!(!panel.issued.contains(&Command::Present));
    assert_eq!(panel.shown, vec![7; 3]);
    assert_eq!(display.phase(), Phase::Idle);
}

#[test]
fn failed_cycle_can_be_retried() {
    let mut display = Display::new(Canvas::new(), Theme2::new());
    let mut panel = FakePanel::new(Some(0));
    assert_eq!(run(&mut display, &mut panel, Data::new(459, 2059, 5742)), Step::BusFailed);
    assert_eq!(panel.issued, vec![Command::Wake]);
    panel.fail_at = None;
    panel.issued.clear();
    assert_eq!(run(&mut display, &mut panel, Data::new(459, 2059, 5742)), Step::Finished);
    assert_eq!(panel.issued.len(), 5);
    assert_eq!(panel.shown.len(), 2 * 4736);
}

#[test]
fn failure_at_sleep_comes_after_present() {
    let mut display = Display::new(Canvas::new(), Theme2::new());
    let mut panel = FakePanel::new(Some(4));
    assert_eq!(run(&mut display, &mut panel, Data::new(459, 2059, 5742)), Step::BusFailed);
    assert_eq!(panel.issued.len(), 5);
    assert_eq!(panel.shown.len(), 2 * 4736);
}

#[test]
fn session_checks_theme_range() {
    let display = Display::new(Canvas::new(), Theme2::new());
    assert!(display.accepts(&Data::new(459, 2059, 5742)));
    assert!(!display.accepts(&Data::new(10000, 2059, 5742)));
}

use airquamon::acquire::{Acquisition, Outcome, SensorAction, Stage};

#[test]
fn acquisition_polls_until_ready_then_reads_and_stops() {
    let (mut a, first) = Acquisition::start();
    assert_eq!(first, SensorAction::Wake);
    let mut actions = vec![first];
    let outcomes = [
        Outcome::Succeeded,
        Outcome::Succeeded,
        Outcome::Succeeded,
        Outcome::Succeeded,
        Outcome::NotReady,
        Outcome::Succeeded,
        Outcome::NotReady,
        Outcome::Succeeded,
        Outcome::Succeeded,
        Outcome::Succeeded,
        Outcome::Succeeded,
    ];
    for o in outcomes {
        actions.push(a.advance(o));
    }
    assert_eq!(
        actions,
        vec![
            SensorAction::Wake,
            SensorAction::Reinit,
            SensorAction::StartPeriodic,
            SensorAction::Delay(5000),
            SensorAction::PollReady,
            SensorAction::Delay(100),
            SensorAction::PollReady,
            SensorAction::Delay(100),
            SensorAction::PollReady,
            SensorAction::ReadMeasurement,
            SensorAction::StopPeriodic,
            SensorAction::Finish,
        ]
    );
    assert_eq!(a.stage(), Stage::Done);
}

#[test]
fn acquisition_aborts_on_failed_command() {
    let (mut a, _) = Acquisition::start();
    assert_eq!(a.advance(Outcome::Succeeded), SensorAction::Reinit);
    assert_eq!(a.advance(Outcome::Failed), SensorAction::Abort);
    assert_eq!(a.stage(), Stage::Failed);
    assert_eq!(a.advance(Outcome::Succeeded), SensorAction::Abort);
}

#[test]
fn two_cycles_with_the_same_reading_send_identical_planes() {
    let mut display = Display::new(Canvas::new(), Theme2::new());
    let mut panel = FakePanel::new(None);
    let d = Data::new(900, 2059, 5742);
    assert_eq!(run(&mut display, &mut panel, Data::new(400, -530, 1990)), Step::Finished);
    assert_eq!(run(&mut display, &mut panel, d), Step::Finished);
    let first = panel.sent.clone();
    assert_eq!(run(&mut display, &mut panel, d), Step::Finished);
    assert_eq!(panel.sent, first);
    assert_eq!(first.len(), 2 * 4736);
}
