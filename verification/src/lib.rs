//! layoutswap: named monitor layouts for Windows, and the PowerShell scripts that switch
//! to them. The library holds the rules: names and folders, summaries, steps, the script
//! text and its progress lines, the lock, the switch's decisions, verify, and the config.

pub mod text;
pub mod error;
pub mod script;
pub mod hardware;
pub mod config;
pub mod session;
pub mod catalog;
