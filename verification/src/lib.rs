//! A deterministic, fixed-point movement core for a kinematic character:
//! wish-direction acceleration with separate ground and air rates, speed caps,
//! friction, gravity, a jump state machine and position resolution against a
//! collision service.

pub mod fixed;
pub mod input;
pub mod integrator;
pub mod jump;
pub mod resolver;
pub mod settings;
pub mod state;
pub mod tick;
pub mod vec3;
