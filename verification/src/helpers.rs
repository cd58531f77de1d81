pub mod best_angle_to_goal;
pub mod robot_data;
