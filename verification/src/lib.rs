//! Boots a UEFI executable in QEMU: the configuration, the emulator's
//! command line, the layout of the boot volume and the launch protocol.

pub mod config;
pub mod document;
pub mod esp;
pub mod launch;
pub mod load;
pub mod paths;

pub use config::Config;
pub use load::ConfigError;
pub use config::Profile;
pub use paths::is_test;
