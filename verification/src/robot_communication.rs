pub mod robot_sender;
