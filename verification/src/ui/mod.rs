pub mod parse;
pub mod app_state;
pub mod labels;
pub mod host_view;
