# CrashPilot

CrashPilot is the controller of a RoboCup Small Size League team: it reads
SSL-Vision, the referee and robot feedback, decides what every robot does,
and sends the commands out. This crate holds its logic as a library verified
with Verus, and a thin program around it.

- `src/` is the verified library: the referee state machine and restart
  handling (`game_logic/types.rs`), the game, manual and test modes and the
  application of AI commands (`game_logic/`), ball selection and robot
  message assembly (`data_handler/`, `helpers/`), the robot send checks,
  the game-controller framing and registration, the Loki batching and the
  robot link (`communication/`), the Prometheus metrics text (`metrics.rs`)
  and the replay index and controls (`replay.rs`).
- `app/` is the program: configuration, sockets and the control loop, and the
  floating-point geometry that turns the library's decisions into commands.
- `tests/` exercises the library on concrete values.
