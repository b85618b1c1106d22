//! Driver core for Intel igb-family Gigabit Ethernet controllers.

pub mod bringup;
pub mod descriptor;
pub mod dma;
pub mod err;
pub mod igb;
pub mod phy;
pub mod program;
pub mod regs;
pub mod ring;
