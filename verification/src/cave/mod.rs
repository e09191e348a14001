pub mod shop;
pub mod cave_levels;
