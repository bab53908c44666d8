use vstd::prelude::*;

pub mod boot;
pub mod chanfs;
pub mod free_rtos;
pub mod fs;
pub mod http;
pub mod lwip;
pub mod ids;
pub mod kinds;
pub mod log;
pub mod marlin;
pub mod tasks;
pub mod text;

verus! {
}
