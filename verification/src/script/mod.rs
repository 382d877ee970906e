//! The PowerShell scripts the library writes: their templates and rendering, the
//! progress lines they print, the lock they hold, and the results of running them.

pub mod lock;
pub mod progress;
pub mod render;
pub mod templates;
pub mod run;
pub mod slots;
