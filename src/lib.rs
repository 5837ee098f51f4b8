//! Pose estimation for a differential-drive robot by Monte Carlo
//! localization, in fixed point: positions in micrometres, headings in
//! microradians, likelihoods and weights as integers.

pub mod intake;
pub mod particle_filter;
pub mod pose;
mod random;
pub mod resample;
pub mod sensor_model;
pub mod state_machine;
