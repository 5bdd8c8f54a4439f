pub mod dbus_event;

pub use dbus_event::{DbusEvent, PlaybackStatus, TimedDbusEvent, Timestamp};
