pub mod check;
pub mod classify;
pub mod data;
pub mod duration_format;
pub mod error;
pub mod import;
pub mod joiner;
pub mod matrix;
pub mod options;
pub mod params;
pub mod phenet;
pub mod sample;
pub mod select;
pub mod sym_matrix;
pub mod text;
pub mod threads;
pub mod train;
pub mod var_stats;
pub mod vars;
pub mod wootz;
