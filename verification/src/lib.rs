//! Shaders, programs and uniforms for a WebGL front end, with their rules
//! proved.
//!
//! * [`manager`] keeps compiled shaders and linked programs in two slabs and
//!   shares a shader among programs by a usage counter; [`accounts`] states
//!   what those counters mean and proves that they stay right; [`protocol`]
//!   holds the requests and commands that pass between the manager and
//!   whoever drives the graphics context; [`shader`] holds the objects and the
//!   reports of the context; [`store`] is the door to the `slab` crate.
//! * [`vector`] has the vectors, matrices and the quaternion, lane arithmetic
//!   and the axes of a rotation. Lanes are single-precision numbers held as
//!   bit patterns: [`single`] says what a pattern means and how numbers are
//!   rounded, [`arithmetic`] and [`division`] compute with patterns, and
//!   [`rounding`] proves that rounding picks a nearest pattern.
//! * [`layout`] declares which host type may be handed to the context under
//!   which uniform shape and proves that each such view keeps size and
//!   alignment; [`uniform`] turns host values into uniform values.
pub mod accounts;
pub mod arithmetic;
pub mod division;
pub mod layout;
pub mod manager;
pub mod protocol;
pub mod rounding;
pub mod shader;
pub mod single;
pub mod store;
pub mod uniform;
pub mod vector;
