pub mod bench;
pub mod decimal;
pub mod extract;
pub mod format;
pub mod run;
pub mod stats;
pub mod util;
