//! The state listeners of a desktop status panel, as rules without effects.
//!
//! The panel shows the battery, the wireless network, the Bluetooth adapter
//! and the workspaces and focused window of the window manager. Each of these
//! has a listener that turns what its source reports into snapshots and
//! hands them to the panel. This library holds what the listeners decide:
//! how the text and bytes of a source are read into a snapshot, when a
//! snapshot is emitted, when a poll is due, and what follows when a source
//! fails. Running a command, reading a file or a socket, sleeping and sending
//! are left to the caller, which performs what it is told and reports what
//! came of it.
//!
//! - [`text`]: white space, lines, delimiters and numbers in text.
//! - [`decode`]: from the bytes of a command's output to text and to the
//!   numbers in JSON.
//! - [`snapshot`]: snapshots and the suppression of unchanged ones.
//! - [`timing`]: the debounce of device events and the periodic wake-ups.
//! - [`lifecycle`]: connecting, reading, retrying and giving up.
//! - [`battery_listener`], [`wifi_listener`], [`bluetooth_listener`],
//!   [`hyprland_listener`]: the four sources.
//! - [`panel`]: what the panel shows for a snapshot.
//! - [`views`]: views that the contracts share.

pub mod battery_listener;
pub mod bluetooth_listener;
pub mod decode;
pub mod hyprland_listener;
pub mod lifecycle;
pub mod panel;
pub mod snapshot;
pub mod text;
pub mod timing;
pub mod views;
pub mod wifi_listener;
