pub mod actions;
pub mod clock;
pub mod favor;
pub mod log_laws;
pub mod log_line;
pub mod log_state;
pub mod number;
pub mod order;
pub mod overview;
pub mod paths;
pub mod state;
pub mod tags;
pub mod tail;
pub mod text;
pub mod vendor;
