//! Motion control library for a two-motor polar-coordinate plotter arm.
//!
//! A host streams `MOVE <theta> <rho>;` commands over a serial link; the
//! device plans a smooth trajectory through the queued target points and
//! drives two stepper motors in lockstep.  This crate holds the verified
//! core of that device:
//!
//! * [`coordinate`] — polar points and the path metric,
//! * [`motion_controller`] — the look-ahead trajectory planner,
//! * [`arm`] — absolute motor step positions and the step-count mapping,
//! * [`stepper_pair`] — the dual-motor pulse interleaving schedule,
//! * [`control_buffer`] / [`command`] — serial line accumulation,
//! * [`protocol`] — the text command grammar.
//!
//! All physical quantities (angles, radii, distances, speeds) are carried
//! as fixed-point integers with six decimal places: a value of
//! `1_500_000` micro-units stands for `1.5` units.  The helpers in
//! [`fixed`] define the rounding conventions once, and every contract in
//! the crate is stated over that exact integer arithmetic.

pub mod arm;
pub mod command;
pub mod control_buffer;
pub mod coordinate;
pub mod fixed;
pub mod motion_controller;
pub mod motion_frame;
pub mod protocol;
pub mod stepper_pair;
pub mod text;
