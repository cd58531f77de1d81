pub mod ai_handler;
pub mod mode_game;
pub mod mode_manual;
pub mod types;
