use blinkenpad::blinken::{BlinkenPad, FaultKind, PadLoopback, PluginArea, PluginError, Region, Violation};
use blinkenpad::launchpad::{Frame, PadArea, PadColour, PadLocation};
use blinkenpad::midi::DriverError;

/// A surface that hands out queued press batches and keeps every write.
struct FakePad {
    batches: Vec<Vec<PadLocation>>,
    writes: Vec<Frame>,
    fail_writes: bool,
    fail_reads: bool,
}

impl FakePad {
    fn new(batches: Vec<Vec<PadLocation>>) -> FakePad {
        FakePad { batches, writes: Vec::new(), fail_writes: false, fail_reads: false }
    }
}

impl PadArea for FakePad {
    fn process_out(&mut self) -> Result<Vec<PadLocation>, DriverError> {
        if self.fail_reads {
            return Err(DriverError { message: "read".to_string() });
        }
        if self.batches.is_empty() {
            Ok(Vec::new())
        } else {
            Ok(self.batches.remove(0))
        }
    }

    fn process_in(&mut self, set_values: Frame) -> Result<(), DriverError> {
        if self.fail_writes {
            return Err(DriverError { message: "write".to_string() });
        }
        self.writes.push(set_values);
        Ok(())
    }
}

/// The plugins used below: a loopback, a fixed picture, one that breaks
/// its contract, and one that fails.
enum TestPlugin {
    Loopback(PadLoopback),
    Fixed(Frame, Vec<Vec<PadLocation>>),
    FailingInput,
    FailingOutput,
}

impl PluginArea for TestPlugin {
    fn process_input(&mut self, tick: u32, set_values: &Vec<PadLocation>) -> Result<(), PluginError> {
        match self {
            TestPlugin::Loopback(l) => l.process_input(tick, set_values),
            TestPlugin::Fixed(_, seen) => {
                seen.push(set_values.clone());
                Ok(())
            }
            TestPlugin::FailingInput => Err(PluginError { message: "input".to_string() }),
            TestPlugin::FailingOutput => Ok(()),
        }
    }

    fn process_output(&mut self, tick: u32) -> Result<Frame, PluginError> {
        match self {
            TestPlugin::Loopback(l) => l.process_output(tick),
            TestPlugin::Fixed(f, _) => Ok(f.clone()),
            TestPlugin::FailingInput => Ok(vec![(PadLocation::OnPad(0, 0), PadColour::new(1, 1))]),
            TestPlugin::FailingOutput => Err(PluginError { message: "output".to_string() }),
        }
    }
}

fn fixed(frame: Frame) -> TestPlugin {
    TestPlugin::Fixed(frame, Vec::new())
}

#[test]
fn a_press_lights_exactly_one_cell_after_clear() {
    let mut b = BlinkenPad::new(FakePad::new(vec![vec![PadLocation::OnPad(1, 1)]]));
    b.add_plugin(0, 0, 4, 4, TestPlugin::Loopback(PadLoopback::new()));
    b.clear_pad().unwrap();
    assert_eq!(b.pad().writes.len(), 1);
    assert_eq!(b.pad().writes[0].len(), 80);
    assert_eq!(b.process_all().unwrap(), false);
    assert_eq!(b.pad().writes.len(), 2);
    assert_eq!(b.pad().writes[1], vec![(PadLocation::OnPad(1, 1), PadColour::new(3, 0))]);
}

#[test]
fn the_later_plugin_wins_a_shared_cell() {
    let mut b = BlinkenPad::new(FakePad::new(Vec::new()));
    b.add_plugin(0, 0, 4, 4, fixed(vec![(PadLocation::OnPad(0, 0), PadColour::new(3, 0))]));
    b.add_plugin(0, 0, 2, 2, fixed(vec![(PadLocation::OnPad(0, 0), PadColour::new(0, 3))]));
    b.clear_pad().unwrap();
    b.process_all().unwrap();
    let written = &b.pad().writes[1];
    let last = written.iter().rev().find(|(l, _)| *l == PadLocation::OnPad(0, 0)).unwrap();
    assert_eq!(last.1, PadColour::new(0, 3));
    assert_eq!(b.known_colour(&PadLocation::OnPad(0, 0)), Some(PadColour::new(0, 3)));
}

#[test]
fn a_contract_violation_drops_only_that_plugin() {
    let mut b = BlinkenPad::new(FakePad::new(Vec::new()));
    b.add_plugin(0, 0, 2, 2, fixed(vec![(PadLocation::OnPad(5, 0), PadColour::new(3, 3))]));
    b.add_plugin(4, 4, 2, 2, fixed(vec![(PadLocation::OnPad(1, 1), PadColour::new(2, 1))]));
    b.clear_pad().unwrap();
    assert_eq!(b.process_all().unwrap(), false);
    assert_eq!(b.pad().writes[1], vec![(PadLocation::OnPad(5, 5), PadColour::new(2, 1))]);
    let report = b.last_tick();
    assert_eq!(report.tick, 1);
    match &report.outputs[0] {
        Err(fault) => {
            assert_eq!(fault.plugin, 0);
            assert_eq!(fault.tick, 1);
            assert_eq!(fault.region, Region { x: 0, y: 0, width: 2, height: 2 });
            assert!(matches!(fault.kind, FaultKind::Violation(Violation::OutOfBounds)));
        }
        Ok(_) => panic!("the violation was not reported"),
    }
    assert!(report.outputs[1].is_ok());
}

#[test]
fn failing_plugins_lose_their_contribution_only() {
    let mut b = BlinkenPad::new(FakePad::new(Vec::new()));
    b.add_plugin(0, 0, 2, 2, TestPlugin::FailingInput);
    b.add_plugin(2, 0, 2, 2, TestPlugin::FailingOutput);
    b.add_plugin(4, 0, 2, 2, fixed(vec![(PadLocation::OnPad(0, 0), PadColour::new(1, 0))]));
    b.clear_pad().unwrap();
    assert_eq!(b.process_all().unwrap(), false);
    assert_eq!(b.pad().writes[1], vec![(PadLocation::OnPad(4, 0), PadColour::new(1, 0))]);
    let report = b.last_tick();
    assert!(matches!(&report.outputs[0], Err(f) if matches!(f.kind, FaultKind::InputFailed(_))));
    assert!(matches!(&report.outputs[1], Err(f) if matches!(f.kind, FaultKind::OutputFailed(_))));
    assert_eq!(report.proposed, vec![(PadLocation::OnPad(4, 0), PadColour::new(1, 0))]);
}

#[test]
fn presses_go_only_to_the_rectangle_holding_them() {
    let mut b = BlinkenPad::new(FakePad::new(vec![vec![PadLocation::OnPad(5, 5), PadLocation::Letters(2)]]));
    b.add_plugin(4, 4, 4, 4, fixed(Vec::new()));
    b.add_plugin(0, 0, 4, 4, fixed(Vec::new()));
    b.process_all().unwrap();
    b.cleanup();
    let report = b.last_tick();
    assert_eq!(report.presses, vec![PadLocation::OnPad(5, 5), PadLocation::Letters(2)]);
}

#[test]
fn plugins_see_local_batches() {
    let mut b = BlinkenPad::new(FakePad::new(vec![vec![PadLocation::OnPad(5, 5)]]));
    b.add_plugin(4, 4, 4, 4, TestPlugin::Loopback(PadLoopback::new()));
    b.add_plugin(0, 0, 4, 4, TestPlugin::Loopback(PadLoopback::new()));
    b.clear_pad().unwrap();
    b.process_all().unwrap();
    // The first plugin saw (1, 1) and echoes it at (5, 5); the second saw nothing.
    assert_eq!(b.last_tick().outputs[0].as_ref().unwrap(), &vec![(PadLocation::OnPad(5, 5), PadColour::new(3, 0))]);
    assert_eq!(b.last_tick().outputs[1].as_ref().unwrap(), &Vec::new());
}

#[test]
fn unchanged_lights_are_not_sent_again() {
    let mut b = BlinkenPad::new(FakePad::new(Vec::new()));
    b.add_plugin(0, 0, 8, 8, fixed(vec![(PadLocation::OnPad(2, 2), PadColour::new(1, 2))]));
    b.clear_pad().unwrap();
    b.process_all().unwrap();
    b.process_all().unwrap();
    assert_eq!(b.pad().writes.len(), 2);
    assert_eq!(b.last_tick().written, Vec::new());
    assert_eq!(b.ticks(), 2);
}

#[test]
fn the_last_number_asks_to_stop() {
    let mut b: BlinkenPad<FakePad, TestPlugin> =
        BlinkenPad::new(FakePad::new(vec![vec![PadLocation::Numbers(6)], vec![PadLocation::Numbers(7)]]));
    assert_eq!(b.process_all().unwrap(), false);
    assert_eq!(b.process_all().unwrap(), true);
    assert!(b.last_tick().shutdown);
}

#[test]
fn the_mirror_is_forgotten_every_period() {
    let mut b = BlinkenPad::new(FakePad::new(Vec::new()));
    b.add_plugin(0, 0, 8, 8, fixed(vec![(PadLocation::OnPad(7, 7), PadColour::new(3, 3))]));
    b.set_refresh_period(3);
    b.clear_pad().unwrap();
    for _ in 0..3 {
        b.process_all().unwrap();
    }
    assert_eq!(b.pad().writes.len(), 2);
    assert_eq!(b.known_colour(&PadLocation::OnPad(7, 7)), None);
    b.process_all().unwrap();
    assert_eq!(b.pad().writes.len(), 3);
    assert_eq!(b.pad().writes[2], vec![(PadLocation::OnPad(7, 7), PadColour::new(3, 3))]);
}

#[test]
fn the_default_period_repaints_on_tick_fifty() {
    let mut b = BlinkenPad::new(FakePad::new(Vec::new()));
    b.add_plugin(0, 0, 1, 1, fixed(vec![(PadLocation::OnPad(0, 0), PadColour::new(2, 2))]));
    b.clear_pad().unwrap();
    for _ in 0..50 {
        b.process_all().unwrap();
    }
    assert_eq!(b.pad().writes.len(), 2);
    b.process_all().unwrap();
    assert_eq!(b.pad().writes.len(), 3);
}

#[test]
fn a_failed_write_leaves_the_mirror_alone() {
    let mut b = BlinkenPad::new(FakePad::new(Vec::new()));
    b.add_plugin(0, 0, 8, 8, fixed(vec![(PadLocation::OnPad(3, 3), PadColour::new(1, 3))]));
    b.clear_pad().unwrap();
    let mut failing = BlinkenPad::new(FakePad { batches: Vec::new(), writes: Vec::new(), fail_writes: true, fail_reads: false });
    failing.add_plugin(0, 0, 8, 8, fixed(vec![(PadLocation::OnPad(3, 3), PadColour::new(1, 3))]));
    assert!(failing.clear_pad().is_err());
    assert_eq!(failing.known_colour(&PadLocation::OnPad(0, 0)), None);
    assert_eq!(failing.process_all().unwrap_err().message, "write");
    assert_eq!(failing.known_colour(&PadLocation::OnPad(3, 3)), None);
    assert_eq!(failing.ticks(), 1);
    b.process_all().unwrap();
    assert_eq!(b.known_colour(&PadLocation::OnPad(3, 3)), Some(PadColour::new(1, 3)));
}

#[test]
fn a_failed_read_ends_the_tick() {
    let mut b: BlinkenPad<FakePad, TestPlugin> =
        BlinkenPad::new(FakePad { batches: Vec::new(), writes: Vec::new(), fail_writes: false, fail_reads: true });
    assert_eq!(b.process_all().unwrap_err().message, "read");
    assert_eq!(b.ticks(), 1);
    assert!(b.pad().writes.is_empty());
}

#[test]
fn clear_marks_every_cell_off() {
    let mut b: BlinkenPad<FakePad, TestPlugin> = BlinkenPad::new(FakePad::new(Vec::new()));
    assert_eq!(b.known_colour(&PadLocation::Letters(3)), None);
    b.clear_pad().unwrap();
    assert_eq!(b.known_colour(&PadLocation::Letters(3)), Some(PadColour::new(0, 0)));
    assert_eq!(b.known_colour(&PadLocation::Numbers(0)), Some(PadColour::new(0, 0)));
    assert_eq!(b.known_colour(&PadLocation::OnPad(6, 1)), Some(PadColour::new(0, 0)));
}

#[test]
fn a_later_plugin_painting_off_keeps_the_cell_off() {
    let mut b = BlinkenPad::new(FakePad::new(Vec::new()));
    b.add_plugin(0, 0, 4, 4, fixed(vec![(PadLocation::OnPad(0, 0), PadColour::new(3, 0))]));
    b.add_plugin(0, 0, 4, 4, fixed(vec![(PadLocation::OnPad(0, 0), PadColour::new(0, 0))]));
    b.clear_pad().unwrap();
    for _ in 0..3 {
        b.process_all().unwrap();
        assert_eq!(b.last_tick().written, Vec::new());
        assert_eq!(b.known_colour(&PadLocation::OnPad(0, 0)), Some(PadColour::new(0, 0)));
    }
    assert_eq!(b.pad().writes.len(), 1);
}

#[test]
fn only_the_later_light_of_a_shared_cell_is_sent() {
    let mut b = BlinkenPad::new(FakePad::new(Vec::new()));
    b.add_plugin(0, 0, 4, 4, fixed(vec![(PadLocation::OnPad(1, 0), PadColour::new(3, 0))]));
    b.add_plugin(0, 0, 4, 4, fixed(vec![(PadLocation::OnPad(1, 0), PadColour::new(0, 3))]));
    b.clear_pad().unwrap();
    b.process_all().unwrap();
    assert_eq!(b.pad().writes[1], vec![(PadLocation::OnPad(1, 0), PadColour::new(0, 3))]);
    assert_eq!(
        b.last_tick().proposed,
        vec![(PadLocation::OnPad(1, 0), PadColour::new(3, 0)), (PadLocation::OnPad(1, 0), PadColour::new(0, 3))]
    );
}
