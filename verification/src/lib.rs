use vstd::prelude::*;

pub mod app_state;
pub mod command;
pub mod dashboard;
pub mod fan;
pub mod hwmon;
pub mod places;
pub mod power_profile;
pub mod storage;
pub mod text;
pub mod tray;
