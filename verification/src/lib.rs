//! Verified core of the VM Foundry QEMU manager: parsing of QEMU and host
//! tool output, bridge policy, size parsing, and the management workspace
//! model.

pub mod text;
pub mod qemu_system;
pub mod create_wizard;
pub mod management;
pub mod layout;
pub mod main_menu;
