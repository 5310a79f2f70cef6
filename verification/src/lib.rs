//! Cooperative cancellation for loops that repeat one unit of work.
//!
//! A [`Cancellable`] unit supplies a single step. The loop around it is a
//! small state machine, [`DriverState`]: it keeps running while the step
//! asks to continue, and it stops for good when the step asks to break,
//! when the step fails, or, in the cancellable mode, when it finds the
//! shared flag of a [`Canceller`] cleared at the boundary between two
//! steps. A step under way is never interrupted.
//!
//! [`drive`] is the loop that nothing can cancel and
//! [`drive_unless_cancelled`] the one that reads the flag. Both run for a
//! bounded number of iterations at a time and say exactly which steps they
//! took; the module [`trace`] states what holds of whole runs.

pub mod canceller;
pub mod driver;
pub mod loops;
pub mod signal;
pub mod trace;
pub mod unit;

pub use crate::canceller::Canceller;
pub use crate::loops::drive;
pub use crate::loops::drive_unless_cancelled;
pub use crate::driver::DriverState;
pub use crate::signal::LoopState;
pub use crate::unit::Cancellable;
