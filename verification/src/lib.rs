//! Verified core of the Paneru window manager: menu bar labels, mouse event
//! decisions, launch-agent service descriptions and the clean-up of Paneru
//! entries from the Control Center preferences.

pub mod text;
pub mod control_center;
pub mod menubar;
pub mod mouse;
pub mod service;
