pub mod clock;
pub mod communication;
pub mod data_handler;
pub mod game_logic;
pub mod helpers;
pub mod metrics;
pub mod replay;
pub mod robot_communication;
pub mod ssl;
pub mod ssl_communication;
pub mod text;
pub mod types;
pub mod utils;
