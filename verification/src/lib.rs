//! Lighting control for USB devices that come in model families.
//!
//! A [`GDeviceManager`] owns the devices that the known models found on the
//! bus, each under its model. It broadcasts a [`Command`] to all of them,
//! keeps the command last sent as the model's saved command in a [`Config`],
//! and replays what is saved. One device that fails never keeps a command
//! from another: every attempt ends up as a [`Delivery`] in the report that
//! the call returns.
//!
//! Which device is asked what, and in which order, is fixed by the spec
//! functions of [`dispatch`]; the contracts of the manager are stated over
//! them. What a device answers is the device's affair, and so is what a model
//! finds on the bus: [`GDevice`] and [`GDeviceModel`] promise nothing, and all
//! contracts hold whatever they return.
//!
//! Reading the USB bus and storing the saved commands is left to the caller.

pub mod color;
pub mod command;
pub mod config;
pub mod device;
pub mod dispatch;
pub mod hex_codec;
pub mod manager;
pub mod registry;
pub mod speed;

pub use crate::color::RgbColor;
pub use crate::command::{Command, CommandError, CommandResult};
pub use crate::config::Config;
pub use crate::device::{GDevice, GDeviceModel, GDeviceModelRef, GDeviceRef};
pub use crate::dispatch::{failures, Delivery};
pub use crate::hex_codec::HexError;
pub use crate::manager::{GDeviceManager, Transport};
pub use crate::registry::{DeviceRegistry, ModelInfo};
pub use crate::speed::Speed;
