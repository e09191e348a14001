pub mod protocol;

pub mod state;
