//! Lighting commands and the errors of sending them.

use crate::color::RgbColor;
use crate::speed::Speed;
use vstd::prelude::*;

verus! {

/// `rusb::Error`, the code of a failure of the USB transport. Nothing is
/// claimed of it: a code is carried from where it came up to the caller.
#[verifier::external_type_specification]
#[verifier::external_body]
pub struct ExUsbError(rusb::Error);

/// A lighting effect, independent of any device.
#[derive(Clone, Copy, Debug, PartialEq, Eq)]
pub enum Command {
    /// One color, for the sector of the given index or for all sectors.
    ColorSector(RgbColor, Option<u8>),
    /// One color that fades in and out.
    Breathe(RgbColor, Speed),
    /// A walk through all colors.
    Cycle(Speed),
}

/// Why a command did not reach a device.
#[derive(Debug, PartialEq)]
pub enum CommandError {
    /// The transport failed: what was being done, and the transport's code.
    Usb(String, rusb::Error),
    /// A parameter of the command does not fit the device: its name, and why.
    InvalidArgument(&'static str, String),
}

/// What sending a command gives: a value, or why it did not go.
pub type CommandResult<T> = Result<T, CommandError>;

/// The argument that a sector error names.
pub const SECTOR_ARGUMENT: &'static str = "sector";

/// The reason that a sector error gives.
pub const SECTOR_OUT_OF_RANGE: &'static str = "the model has no sector of this index";

/// The context of the error that says that no USB context could be had.
pub const CREATING_CONTEXT: &'static str = "creating USB context";

/// The context of the error that says that the attached devices could not be listed.
pub const LISTING_DEVICES: &'static str = "listing USB devices";

/// What a [`CommandError`] says, with its texts as sequences of characters.
pub enum CommandErrorView {
    Usb(Seq<char>, rusb::Error),
    InvalidArgument(Seq<char>, Seq<char>),
}

impl View for CommandError {
    type V = CommandErrorView;

    open spec fn view(&self) -> CommandErrorView {
        match *self {
            CommandError::Usb(context, err) => CommandErrorView::Usb(context@, err),
            CommandError::InvalidArgument(arg, msg) => CommandErrorView::InvalidArgument(
                arg@,
                msg@,
            ),
        }
    }
}

impl CommandError {
    /// The error of a command that names a sector which the model does not have.
    pub open spec fn sector_out_of_range() -> CommandErrorView {
        CommandErrorView::InvalidArgument(SECTOR_ARGUMENT@, SECTOR_OUT_OF_RANGE@)
    }

    /// A transport failure, with a word on what was being done when it came.
    pub fn usb(context: &str, err: rusb::Error) -> (e: CommandError)
        ensures
            e@ == CommandErrorView::Usb(context@, err),
    {
        CommandError::Usb(context.to_owned(), err)
    }
}

impl Command {
    /// The sector that the command names, if it names one.
    pub open spec fn sector(self) -> Option<u8> {
        match self {
            Command::ColorSector(_, sector) => sector,
            _ => None,
        }
    }

    /// Whether a device with `sectors` sectors can take the command: a sector
    /// that it names must exist.
    pub open spec fn fits(self, sectors: u8) -> bool {
        self.sector() matches Some(index) ==> index < sectors
    }

    /// Holds the command against a model's number of sectors, before anything
    /// is sent: a command that names a sector beyond the last is an invalid
    /// argument, every other command passes.
    pub fn check_sectors(&self, sectors: u8) -> (r: CommandResult<()>)
        ensures
            r is Ok <==> self.fits(sectors),
            r is Err ==> r->Err_0@ == CommandError::sector_out_of_range(),
    {
        match self {
            Command::ColorSector(_, Some(index)) => {
                if *index < sectors {
                    Ok(())
                } else {
                    Err(
                        CommandError::InvalidArgument(
                            SECTOR_ARGUMENT,
                            SECTOR_OUT_OF_RANGE.to_owned(),
                        ),
                    )
                }
            },
            _ => Ok(()),
        }
    }
}

} // verus!
