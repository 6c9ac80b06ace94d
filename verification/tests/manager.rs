use gdevice::command::{SECTOR_ARGUMENT, SECTOR_OUT_OF_RANGE};
use gdevice::{
    failures, Command, CommandError, CommandResult, Config, Delivery, DeviceRegistry, GDevice,
    GDeviceManager, GDeviceModel, GDeviceModelRef, GDeviceRef, ModelInfo, RgbColor, Speed,
    Transport,
};
use std::cell::RefCell;
use std::rc::Rc;

/// What the devices of a test were asked, in order: the device's label and the command.
type Log = Rc<RefCell<Vec<(String, Command)>>>;

struct MockDevice {
    label: String,
    fails: bool,
    log: Log,
}

impl GDevice for MockDevice {
    fn get_debug_info(&self) -> String {
        format!("mock {}", self.label)
    }

    fn send_command(&mut self, cmd: Command) -> CommandResult<()> {
        self.log.borrow_mut().push((self.label.clone(), cmd));
        if self.fails {
            Err(CommandError::Usb(format!("sending to {}", self.label), rusb::Error::Pipe))
        } else {
            Ok(())
        }
    }
}

/// One attached unit of the mock bus: vendor, product, and whether it fails.
struct Unit {
    vendor: u16,
    product: u16,
    fails: bool,
}

struct MockModel {
    name: &'static str,
    vendor: u16,
    product: u16,
    sectors: u8,
    log: Log,
}

impl GDeviceModel<Vec<Unit>> for MockModel {
    fn find(&self, bus: &Vec<Unit>) -> Vec<GDeviceRef> {
        let mut found: Vec<GDeviceRef> = Vec::new();
        for (at, unit) in bus.iter().enumerate() {
            if unit.vendor == self.vendor && unit.product == self.product {
                found.push(Box::new(MockDevice {
                    label: format!("{}@{}", self.name, at),
                    fails: unit.fails,
                    log: self.log.clone(),
                }));
            }
        }
        found
    }

    fn get_sectors(&self) -> u8 {
        self.sectors
    }

    fn get_default_color(&self) -> RgbColor {
        RgbColor(0, 169, 224)
    }

    fn get_name(&self) -> &'static str {
        self.name
    }
}

fn unit(product: u16) -> Unit {
    Unit { vendor: 0x046d, product, fails: false }
}

fn failing(product: u16) -> Unit {
    Unit { vendor: 0x046d, product, fails: true }
}

fn keyboard(log: &Log) -> GDeviceModelRef<Vec<Unit>> {
    Box::new(MockModel { name: "G213", vendor: 0x046d, product: 0xc336, sectors: 5, log: log.clone() })
}

fn mouse(log: &Log) -> GDeviceModelRef<Vec<Unit>> {
    Box::new(MockModel { name: "G203", vendor: 0x046d, product: 0xc084, sectors: 1, log: log.clone() })
}

fn new_log() -> Log {
    Rc::new(RefCell::new(Vec::new()))
}

fn manager_on(
    bus: Vec<Unit>,
    log: &Log,
    config: Config,
) -> (GDeviceManager<&'static str>, Vec<Delivery>) {
    GDeviceManager::try_new(
        Transport::Listed("context", bus),
        vec![keyboard(log), mouse(log)],
        config,
    )
    .unwrap()
}

fn sent(log: &Log) -> Vec<(String, Command)> {
    log.borrow().clone()
}

fn usb_failure(label: &str) -> CommandError {
    CommandError::Usb(format!("sending to {}", label), rusb::Error::Pipe)
}

fn sector_error() -> CommandError {
    CommandError::InvalidArgument(SECTOR_ARGUMENT, SECTOR_OUT_OF_RANGE.to_string())
}

fn blue() -> Command {
    Command::ColorSector(RgbColor(0, 0, 255), None)
}

#[test]
fn without_a_context_there_is_no_manager() {
    let log = new_log();
    let made = GDeviceManager::<()>::try_new(
        Transport::<(), Vec<Unit>>::Unavailable(rusb::Error::Other),
        vec![keyboard(&log)],
        Config::new(),
    );
    match made {
        Err(e) => assert_eq!(
            e,
            CommandError::Usb("creating USB context".to_string(), rusb::Error::Other)
        ),
        Ok(_) => panic!("a manager without a context"),
    }
    assert!(sent(&log).is_empty());
}

#[test]
fn without_the_list_of_devices_there_is_no_manager() {
    let log = new_log();
    let made = GDeviceManager::<()>::try_new(
        Transport::<(), Vec<Unit>>::Unlisted(rusb::Error::Access),
        vec![keyboard(&log)],
        Config::new(),
    );
    match made {
        Err(e) => assert_eq!(
            e,
            CommandError::Usb("listing USB devices".to_string(), rusb::Error::Access)
        ),
        Ok(_) => panic!("a manager without a list of devices"),
    }
    assert!(sent(&log).is_empty());
}

#[test]
fn a_model_without_devices_is_no_error() {
    let log = new_log();
    let (manager, report) = manager_on(vec![], &log, Config::new());
    assert!(report.is_empty());
    assert_eq!(manager.devices().len(), 2);
    assert_eq!(manager.devices().device_count(0), 0);
    assert_eq!(manager.devices().device_count(1), 0);
    assert!(manager.debug_info().is_empty());
}

#[test]
fn each_model_claims_its_own_devices() {
    let log = new_log();
    let bus = vec![unit(0xc336), unit(0xc084), unit(0x0001), unit(0xc336), unit(0xc336)];
    let (manager, report) = manager_on(bus, &log, Config::new());
    assert!(report.is_empty());
    let registry = manager.devices();
    assert_eq!(registry.len(), 2);
    assert_eq!(registry.info(0).name, "G213");
    assert_eq!(registry.info(0).sectors, 5);
    assert_eq!(registry.info(0).default_color, RgbColor(0, 169, 224));
    assert_eq!(registry.info(1).name, "G203");
    assert_eq!(registry.info(1).sectors, 1);
    assert_eq!(registry.device_count(0), 3);
    assert_eq!(registry.device_count(1), 1);
    assert_eq!(
        manager.debug_info(),
        vec!["mock G213@0", "mock G213@3", "mock G213@4", "mock G203@1"]
    );
}

#[test]
fn a_broadcast_attempts_every_device_once() {
    let log = new_log();
    let bus = vec![unit(0xc336), unit(0xc084), unit(0xc336), unit(0xc084), unit(0xc084)];
    let (mut manager, _) = manager_on(bus, &log, Config::new());
    let report = manager.send_command(blue());
    assert_eq!(report.len(), 2 + 3);
    assert_eq!(
        sent(&log),
        vec![
            ("G213@0".to_string(), blue()),
            ("G213@2".to_string(), blue()),
            ("G203@1".to_string(), blue()),
            ("G203@3".to_string(), blue()),
            ("G203@4".to_string(), blue()),
        ]
    );
    let expected: Vec<Delivery> = [("G213", 0), ("G213", 1), ("G203", 0), ("G203", 1), ("G203", 2)]
        .iter()
        .map(|(model, device)| Delivery {
            model: model.to_string(),
            device: *device,
            command: blue(),
            outcome: Ok(()),
        })
        .collect();
    assert_eq!(report, expected);
}

#[test]
fn a_broadcast_attempts_every_device_however_many_fail() {
    let log = new_log();
    let bus = vec![failing(0xc336), failing(0xc084), failing(0xc336), unit(0xc084)];
    let (mut manager, _) = manager_on(bus, &log, Config::new());
    let report = manager.send_command(blue());
    assert_eq!(report.len(), 4);
    assert_eq!(sent(&log).len(), 4);
    assert_eq!(report.iter().filter(|d| d.outcome.is_err()).count(), 3);
}

#[test]
fn one_failing_device_keeps_nothing_from_the_others() {
    let log = new_log();
    let bus = vec![unit(0xc336), failing(0xc336), unit(0xc336), unit(0xc084)];
    let (mut manager, _) = manager_on(bus, &log, Config::new());
    let cmd = Command::Breathe(RgbColor(1, 2, 3), Speed::from(500));
    let report = manager.send_command(cmd);
    assert_eq!(
        sent(&log),
        vec![
            ("G213@0".to_string(), cmd),
            ("G213@1".to_string(), cmd),
            ("G213@2".to_string(), cmd),
            ("G203@3".to_string(), cmd),
        ]
    );
    let outcomes: Vec<CommandResult<()>> = report.into_iter().map(|d| d.outcome).collect();
    assert_eq!(outcomes, vec![Ok(()), Err(usb_failure("G213@1")), Ok(()), Ok(())]);
    assert_eq!(manager.config().commands_for("G213"), vec![cmd]);
    assert_eq!(manager.config().commands_for("G203"), vec![cmd]);
}

#[test]
fn a_broadcast_is_saved_for_every_model() {
    let log = new_log();
    let (mut manager, _) = manager_on(vec![unit(0xc336)], &log, Config::new());
    manager.send_command(blue());
    assert_eq!(manager.config().commands_for("G213"), vec![blue()]);
    let cycle = Command::Cycle(Speed::from(42));
    manager.send_command(cycle);
    assert_eq!(manager.config().commands_for("G213"), vec![cycle]);
    assert_eq!(manager.config().commands_for("G213").last(), Some(&cycle));
    // the model without devices has it saved as well
    assert_eq!(manager.config().commands_for("G203"), vec![cycle]);
    assert_eq!(manager.config().commands_for("other"), vec![]);
}

#[test]
fn a_broadcast_leaves_the_commands_of_unknown_models() {
    let log = new_log();
    let mut config = Config::new();
    config.save_command("G910", Command::Cycle(Speed::from(3)));
    let (mut manager, _) = manager_on(vec![unit(0xc336)], &log, config);
    manager.send_command(blue());
    assert_eq!(manager.config().commands_for("G910"), vec![Command::Cycle(Speed::from(3))]);
    assert_eq!(manager.config().commands_for("G213"), vec![blue()]);
}

#[test]
fn a_sector_beyond_the_last_reaches_no_device_of_the_model() {
    let log = new_log();
    let bus = vec![unit(0xc336), unit(0xc084), unit(0xc336)];
    let (mut manager, _) = manager_on(bus, &log, Config::new());
    // the keyboard has sectors 0 to 4, the mouse only sector 0
    let cmd = Command::ColorSector(RgbColor(9, 9, 9), Some(1));
    let report = manager.send_command(cmd);
    assert_eq!(sent(&log), vec![("G213@0".to_string(), cmd), ("G213@2".to_string(), cmd)]);
    assert_eq!(
        report,
        vec![
            Delivery { model: "G213".to_string(), device: 0, command: cmd, outcome: Ok(()) },
            Delivery { model: "G213".to_string(), device: 1, command: cmd, outcome: Ok(()) },
            Delivery {
                model: "G203".to_string(),
                device: 0,
                command: cmd,
                outcome: Err(sector_error()),
            },
        ]
    );
}

#[test]
fn a_sector_equal_to_the_count_performs_no_transfer() {
    let log = new_log();
    let bus = vec![unit(0xc336), failing(0xc336), unit(0xc084)];
    let (mut manager, _) = manager_on(bus, &log, Config::new());
    let cmd = Command::ColorSector(RgbColor(9, 9, 9), Some(5));
    let report = manager.send_command(cmd);
    assert!(sent(&log).is_empty());
    assert_eq!(report.len(), 3);
    for delivery in &report {
        assert_eq!(delivery.outcome, Err(sector_error()));
        assert_eq!(delivery.command, cmd);
    }
    // the last sector of the keyboard is still in range
    let cmd = Command::ColorSector(RgbColor(9, 9, 9), Some(4));
    manager.send_command(cmd);
    assert_eq!(sent(&log), vec![("G213@0".to_string(), cmd), ("G213@1".to_string(), cmd)]);
}

#[test]
fn making_a_manager_replays_the_snapshot() {
    let log = new_log();
    let mut config = Config::new();
    config.save_command("G213", blue());
    config.set_commands(
        "G203",
        vec![Command::Cycle(Speed::from(1)), Command::Breathe(RgbColor(1, 1, 1), Speed::from(2))],
    );
    let bus = vec![unit(0xc084), unit(0xc336), unit(0xc084)];
    let (manager, report) = manager_on(bus, &log, config);
    assert_eq!(
        sent(&log),
        vec![
            ("G213@1".to_string(), blue()),
            ("G203@0".to_string(), Command::Cycle(Speed::from(1))),
            ("G203@2".to_string(), Command::Cycle(Speed::from(1))),
            ("G203@0".to_string(), Command::Breathe(RgbColor(1, 1, 1), Speed::from(2))),
            ("G203@2".to_string(), Command::Breathe(RgbColor(1, 1, 1), Speed::from(2))),
        ]
    );
    assert_eq!(report.len(), 5);
    assert_eq!(report[3].model, "G203");
    assert_eq!(report[3].device, 0);
    assert_eq!(report[4].device, 1);
    assert_eq!(manager.config().commands_for("G213"), vec![blue()]);
}

#[test]
fn a_failure_in_the_first_replay_is_reported_not_raised() {
    let log = new_log();
    let mut config = Config::new();
    config.save_command("G213", blue());
    let bus = vec![failing(0xc336), unit(0xc336)];
    let (manager, report) = manager_on(bus, &log, config);
    assert_eq!(report.len(), 2);
    assert_eq!(report[0].outcome, Err(usb_failure("G213@0")));
    assert_eq!(report[1].outcome, Ok(()));
    assert_eq!(manager.devices().device_count(0), 2);
}

#[test]
fn send_replays_without_changing_the_snapshot() {
    let log = new_log();
    let (mut manager, _) = manager_on(vec![unit(0xc336), unit(0xc336)], &log, Config::new());
    manager.send_command(blue());
    log.borrow_mut().clear();
    let report = manager.send();
    assert_eq!(sent(&log), vec![("G213@0".to_string(), blue()), ("G213@1".to_string(), blue())]);
    assert_eq!(report.len(), 2);
    assert_eq!(manager.config().commands_for("G213"), vec![blue()]);
    assert_eq!(manager.config().commands_for("G203"), vec![blue()]);
}

#[test]
fn refresh_replays_what_was_saved_on_the_same_devices() {
    let log = new_log();
    let bus = vec![unit(0xc336), unit(0xc084), unit(0xc336)];
    let (mut manager, _) = manager_on(bus, &log, Config::new());
    let before = manager.debug_info();

    let mut stored = Config::new();
    stored.save_command("G213", Command::Cycle(Speed::from(77)));
    let report = manager.refresh(stored);

    assert_eq!(
        sent(&log),
        vec![
            ("G213@0".to_string(), Command::Cycle(Speed::from(77))),
            ("G213@2".to_string(), Command::Cycle(Speed::from(77))),
        ]
    );
    assert_eq!(report.len(), 2);
    assert_eq!(manager.debug_info(), before);
    assert_eq!(manager.devices().len(), 2);
    assert_eq!(manager.devices().device_count(0), 2);
    assert_eq!(manager.devices().device_count(1), 1);
    assert_eq!(manager.config().commands_for("G213"), vec![Command::Cycle(Speed::from(77))]);
}

#[test]
fn refresh_drops_the_old_snapshot_whole() {
    let log = new_log();
    let (mut manager, _) = manager_on(vec![unit(0xc336), unit(0xc084)], &log, Config::new());
    manager.send_command(blue());
    log.borrow_mut().clear();

    let mut stored = Config::new();
    stored.save_command("G203", Command::Cycle(Speed::from(5)));
    let report = manager.refresh(stored);

    assert_eq!(sent(&log), vec![("G203@1".to_string(), Command::Cycle(Speed::from(5)))]);
    assert_eq!(report.len(), 1);
    assert_eq!(manager.config().commands_for("G213"), vec![]);
    assert_eq!(manager.config().commands_for("G203"), vec![Command::Cycle(Speed::from(5))]);
}

#[test]
fn a_replayed_command_that_does_not_fit_is_reported() {
    let log = new_log();
    let mut config = Config::new();
    config.save_command("G203", Command::ColorSector(RgbColor(1, 1, 1), Some(3)));
    let (_, report) = manager_on(vec![unit(0xc084)], &log, config);
    assert!(sent(&log).is_empty());
    assert_eq!(report.len(), 1);
    assert_eq!(report[0].outcome, Err(sector_error()));
}

#[test]
fn of_two_models_of_one_name_the_first_stays_with_the_devices_of_the_second() {
    let log = new_log();
    let first: GDeviceModelRef<Vec<Unit>> = Box::new(MockModel {
        name: "G213",
        vendor: 0x046d,
        product: 0xc336,
        sectors: 5,
        log: log.clone(),
    });
    let second: GDeviceModelRef<Vec<Unit>> = Box::new(MockModel {
        name: "G213",
        vendor: 0x046d,
        product: 0xc084,
        sectors: 9,
        log: log.clone(),
    });
    let bus = vec![unit(0xc336), unit(0xc084), unit(0xc084)];
    let registry = GDeviceManager::<()>::find_devices(vec![first, mouse(&log), second], &bus);
    assert_eq!(registry.len(), 2);
    assert_eq!(registry.info(0).name, "G213");
    assert_eq!(registry.info(0).sectors, 5);
    assert_eq!(registry.device_count(0), 2);
    assert_eq!(registry.info(1).name, "G203");
    assert_eq!(registry.device_count(1), 2);
    assert_eq!(
        registry.debug_info(),
        vec!["mock G213@1", "mock G213@2", "mock G203@1", "mock G203@2"]
    );
}

#[test]
fn a_registry_is_filled_model_by_model() {
    let log = new_log();
    let device = |label: &str| -> GDeviceRef {
        Box::new(MockDevice { label: label.to_string(), fails: false, log: log.clone() })
    };
    let info = |name: &str, sectors: u8| ModelInfo {
        name: name.to_string(),
        sectors,
        default_color: RgbColor(0, 0, 0),
    };
    let mut registry = DeviceRegistry::new();
    assert_eq!(registry.len(), 0);
    registry.register(info("a", 1), vec![device("a0")]);
    registry.register(info("b", 2), vec![]);
    registry.register(info("c", 3), vec![device("c0"), device("c1")]);
    assert_eq!(registry.len(), 3);
    assert_eq!(registry.device_count(0), 1);
    assert_eq!(registry.device_count(1), 0);
    assert_eq!(registry.device_count(2), 2);
    registry.register(info("b", 7), vec![device("b0")]);
    assert_eq!(registry.len(), 3);
    assert_eq!(registry.info(1).sectors, 2);
    assert_eq!(registry.device_count(1), 1);

    let cmd = Command::Cycle(Speed::from(1));
    let report = registry.deliver_to_model(2, cmd);
    assert_eq!(sent(&log), vec![("c0".to_string(), cmd), ("c1".to_string(), cmd)]);
    assert_eq!(report.len(), 2);
    assert_eq!(report[1].model, "c");
    assert_eq!(report[1].device, 1);

    let (mut manager, first) = GDeviceManager::new((), registry, Config::new());
    assert!(first.is_empty());
    log.borrow_mut().clear();
    let report = manager.send_command(cmd);
    assert_eq!(report.len(), 4);
    assert_eq!(
        sent(&log).into_iter().map(|(label, _)| label).collect::<Vec<String>>(),
        vec!["a0", "b0", "c0", "c1"]
    );
}

#[test]
fn a_manager_without_models_sends_nothing() {
    let log = new_log();
    let mut config = Config::new();
    config.save_command("G213", blue());
    let (mut manager, report) = GDeviceManager::try_new(
        Transport::Listed((), vec![unit(0xc336)]),
        Vec::<GDeviceModelRef<Vec<Unit>>>::new(),
        config,
    )
    .unwrap();
    assert!(report.is_empty());
    assert_eq!(manager.devices().len(), 0);
    assert!(manager.send_command(Command::Cycle(Speed::from(1))).is_empty());
    assert!(manager.send().is_empty());
    assert!(sent(&log).is_empty());
    // nothing is saved where there is no model
    assert_eq!(manager.config().commands_for("G213"), vec![blue()]);
    assert_eq!(manager.config().models(), vec!["G213"]);
}

#[test]
fn replaying_after_a_broadcast_repeats_the_broadcast() {
    let log = new_log();
    let bus = vec![unit(0xc084), failing(0xc336), unit(0xc336)];
    let (mut manager, _) = manager_on(bus, &log, Config::new());
    let cmd = Command::ColorSector(RgbColor(4, 5, 6), Some(0));
    let broadcast = manager.send_command(cmd);
    let first = sent(&log);
    log.borrow_mut().clear();
    let replay = manager.send();
    assert_eq!(sent(&log), first);
    assert_eq!(replay, broadcast);
}

#[test]
fn a_model_is_told_by_its_name_alone() {
    let one = ModelInfo { name: "G213".to_string(), sectors: 5, default_color: RgbColor(1, 2, 3) };
    let same = ModelInfo { name: "G213".to_string(), sectors: 9, default_color: RgbColor(0, 0, 0) };
    let other = ModelInfo { name: "G203".to_string(), sectors: 5, default_color: RgbColor(1, 2, 3) };
    assert!(one == same);
    assert!(one != other);
    assert!(same != other);
}

#[test]
fn the_failed_deliveries_are_picked_in_order() {
    let log = new_log();
    let bus = vec![failing(0xc336), unit(0xc336), failing(0xc084), unit(0xc084), failing(0xc084)];
    let (mut manager, _) = manager_on(bus, &log, Config::new());
    let report = manager.send_command(blue());
    // the keyboards come first: 0 and 1; then the mice: 2, 3 and 4
    assert_eq!(failures(&report), vec![0, 2, 4]);
    assert_eq!(failures(&Vec::new()), Vec::<usize>::new());
    let rejected = manager.send_command(Command::ColorSector(RgbColor(0, 0, 0), Some(200)));
    assert_eq!(failures(&rejected), vec![0, 1, 2, 3, 4]);
    let (mut healthy, _) = manager_on(vec![unit(0xc336), unit(0xc084)], &log, Config::new());
    assert!(failures(&healthy.send_command(blue())).is_empty());
}
