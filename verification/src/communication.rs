pub mod gc_sender;
pub mod loki;
pub mod robot_sender;
pub mod robot_wifi_handler;
pub mod ssl_gc_handler;

use vstd::prelude::*;

verus! {

/// The latest packets received from one robot: telemetry `T`, sensor data
/// `S` and debug data `D`, each arriving on its own.
pub struct RobotData<T, S, D> {
    pub robot_telemetry: Option<T>,
    pub robot_sensor: Option<S>,
    pub robot_debug: Option<D>,
}

impl<T, S, D> RobotData<T, S, D> {
    /// Nothing received.
    pub fn new() -> (r: Self)
        ensures
            (r.robot_telemetry is None),
            (r.robot_sensor is None),
            (r.robot_debug is None),
    {
        RobotData { robot_telemetry: None, robot_sensor: None, robot_debug: None }
    }

    /// Takes out everything received, leaving nothing behind.
    pub fn take(&mut self) -> (r: Self)
        ensures
            r.robot_telemetry == old(self).robot_telemetry,
            r.robot_sensor == old(self).robot_sensor,
            r.robot_debug == old(self).robot_debug,
            (final(self).robot_telemetry is None),
            (final(self).robot_sensor is None),
            (final(self).robot_debug is None),
    {
        RobotData {
            robot_telemetry: self.robot_telemetry.take(),
            robot_sensor: self.robot_sensor.take(),
            robot_debug: self.robot_debug.take(),
        }
    }

    /// Keeps the packets of a tick: each kind that arrived replaces the
    /// buffered one; a kind that did not arrive keeps its last value.
    pub fn retain_latest(&mut self, received: Self)
        ensures
            final(self).robot_telemetry == if received.robot_telemetry is Some {
                received.robot_telemetry
            } else {
                old(self).robot_telemetry
            },
            final(self).robot_sensor == if received.robot_sensor is Some {
                received.robot_sensor
            } else {
                old(self).robot_sensor
            },
            final(self).robot_debug == if received.robot_debug is Some {
                received.robot_debug
            } else {
                old(self).robot_debug
            },
    {
        let RobotData { robot_telemetry, robot_sensor, robot_debug } = received;
        if robot_telemetry.is_some() {
            self.robot_telemetry = robot_telemetry;
        }
        if robot_sensor.is_some() {
            self.robot_sensor = robot_sensor;
        }
        if robot_debug.is_some() {
            self.robot_debug = robot_debug;
        }
    }
}

} // verus!
