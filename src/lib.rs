//! Host-side engine of an interactive 2D incompressible fluid simulator.
//!
//! The GPU kernels run elsewhere; this crate holds the logic that the host
//! decides: the seed grid, the ping-pong slot assignment, the order of the
//! dispatches within a tick, the performance rings and the view state.
pub mod clock;
pub mod grid;
pub mod perf;
pub mod state;
pub mod view;
