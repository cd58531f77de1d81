pub mod ball_data;
pub mod sources;
