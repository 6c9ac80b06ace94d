use gdevice::command::{
    CREATING_CONTEXT, LISTING_DEVICES, SECTOR_ARGUMENT, SECTOR_OUT_OF_RANGE,
};
use gdevice::{Command, CommandError, Config, RgbColor, Speed};

fn red() -> RgbColor {
    RgbColor(255, 0, 0)
}

#[test]
fn a_command_without_a_sector_passes_every_model() {
    for sectors in [0u8, 1, 5, 255] {
        assert_eq!(Command::ColorSector(red(), None).check_sectors(sectors), Ok(()));
        assert_eq!(Command::Breathe(red(), Speed::from(100)).check_sectors(sectors), Ok(()));
        assert_eq!(Command::Cycle(Speed::from(100)).check_sectors(sectors), Ok(()));
    }
}

#[test]
fn a_sector_below_the_count_passes() {
    assert_eq!(Command::ColorSector(red(), Some(0)).check_sectors(5), Ok(()));
    assert_eq!(Command::ColorSector(red(), Some(4)).check_sectors(5), Ok(()));
    assert_eq!(Command::ColorSector(red(), Some(254)).check_sectors(255), Ok(()));
}

#[test]
fn a_sector_at_or_above_the_count_is_an_invalid_argument() {
    let expected = CommandError::InvalidArgument(
        "sector",
        "the model has no sector of this index".to_string(),
    );
    assert_eq!(Command::ColorSector(red(), Some(5)).check_sectors(5), Err(expected));
    for (index, sectors) in [(6u8, 5u8), (255, 5), (0, 0), (255, 255)] {
        match Command::ColorSector(red(), Some(index)).check_sectors(sectors) {
            Err(CommandError::InvalidArgument(arg, msg)) => {
                assert_eq!(arg, SECTOR_ARGUMENT);
                assert_eq!(msg, SECTOR_OUT_OF_RANGE);
            }
            other => panic!("unexpected: {:?}", other),
        }
    }
}

#[test]
fn a_usb_error_carries_its_context_and_code() {
    assert_eq!(
        CommandError::usb("listing USB devices", rusb::Error::NoDevice),
        CommandError::Usb("listing USB devices".to_string(), rusb::Error::NoDevice)
    );
    assert_eq!(CREATING_CONTEXT, "creating USB context");
    assert_eq!(LISTING_DEVICES, "listing USB devices");
}

#[test]
fn an_empty_snapshot_has_no_commands() {
    let config = Config::new();
    assert_eq!(config.commands_for("G213"), vec![]);
    assert_eq!(config.commands_for(""), vec![]);
}

#[test]
fn a_saved_command_supersedes_the_one_before() {
    let mut config = Config::new();
    config.save_command("G213", Command::Cycle(Speed::from(1)));
    assert_eq!(config.commands_for("G213"), vec![Command::Cycle(Speed::from(1))]);
    config.save_command("G213", Command::ColorSector(red(), Some(2)));
    assert_eq!(config.commands_for("G213"), vec![Command::ColorSector(red(), Some(2))]);
}

#[test]
fn models_keep_their_own_commands() {
    let mut config = Config::new();
    config.save_command("G213", Command::Cycle(Speed::from(1)));
    config.save_command("G203", Command::Breathe(red(), Speed::from(7)));
    config.save_command("G213", Command::Cycle(Speed::from(2)));
    assert_eq!(config.commands_for("G213"), vec![Command::Cycle(Speed::from(2))]);
    assert_eq!(config.commands_for("G203"), vec![Command::Breathe(red(), Speed::from(7))]);
    assert_eq!(config.commands_for("g213"), vec![]);
}

#[test]
fn set_commands_keeps_the_order_given() {
    let mut config = Config::new();
    let layered = vec![
        Command::ColorSector(red(), None),
        Command::ColorSector(RgbColor(0, 0, 255), Some(1)),
        Command::Breathe(red(), Speed::from(3)),
    ];
    config.set_commands("G213", layered.clone());
    assert_eq!(config.commands_for("G213"), layered);
    config.set_commands("G213", vec![]);
    assert_eq!(config.commands_for("G213"), vec![]);
    config.save_command("G213", Command::Cycle(Speed::from(9)));
    assert_eq!(config.commands_for("G213"), vec![Command::Cycle(Speed::from(9))]);
}

#[test]
fn models_are_listed_once_each() {
    let mut config = Config::new();
    assert!(config.models().is_empty());
    config.save_command("G213", Command::Cycle(Speed::from(1)));
    config.save_command("G203", Command::Cycle(Speed::from(2)));
    config.save_command("G213", Command::Cycle(Speed::from(3)));
    config.set_commands("G910", vec![]);
    assert_eq!(config.models(), vec!["G213", "G203", "G910"]);
}
