//! Devices and the model families they belong to.

use crate::color::RgbColor;
use crate::command::{Command, CommandResult};
use vstd::prelude::*;

verus! {

/// One attached unit that takes lighting commands.
///
/// What a unit answers is its own affair: the methods promise nothing, and
/// the library's contracts hold whatever they return.
pub trait GDevice {
    /// Where the unit sits and what it calls itself, for diagnostics.
    fn get_debug_info(&self) -> String;

    /// Encodes the command and transfers it to the unit.
    fn send_command(&mut self, cmd: Command) -> CommandResult<()>;
}

/// A device of whatever model.
pub type GDeviceRef = Box<dyn GDevice>;

/// A family of devices that share one protocol. `B` is the list of attached
/// devices that the transport hands out.
pub trait GDeviceModel<B> {
    /// Opens every device of the list that belongs to the family. None found
    /// is an empty result, not a failure.
    fn find(&self, bus: &B) -> Vec<GDeviceRef>;

    /// How many sectors a device of the family has.
    fn get_sectors(&self) -> u8;

    /// The color that a device of the family shows when nothing else was asked.
    fn get_default_color(&self) -> RgbColor;

    /// The name of the family, by which it is told from the others.
    fn get_name(&self) -> &'static str;
}

/// A model of whatever family.
pub type GDeviceModelRef<B> = Box<dyn GDeviceModel<B>>;

} // verus!
