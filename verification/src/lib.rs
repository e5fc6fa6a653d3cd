//! Which hardware can serve a machine-learning model, how fast, and at what
//! cost.
//!
//! The core is the estimator of [`estimate`]: from the parameter count of a
//! model and the figures of an accelerator it tells whether the weights fit
//! at a quantization, and how fast the model decodes and prefills. Around it
//! stand the device catalog ([`hardware`]), the inference of a model's size
//! from its name ([`model`]), and the rankings of cloud offerings and local
//! devices by what a million output tokens cost ([`ranking`]).
//!
//! Every quantity is an integer in a fixed unit, so that each figure the
//! library reports is an exact statement about its inputs:
//!
//! | quantity            | unit                              |
//! |---------------------|-----------------------------------|
//! | memory capacity     | megabytes (10^6 bytes)            |
//! | memory bandwidth    | megabytes per second              |
//! | compute throughput  | gigaflops (FP16)                  |
//! | efficiency          | parts per million of the peak     |
//! | token throughput    | thousandths of a token per second |
//! | money               | millionths of a dollar            |
//! | latency             | microseconds                      |
//!
//! Quotients are rounded down. A figure that does not fit is reported as the
//! largest value of its type, and so is a quotient by zero.

pub mod api;
pub mod browser;
pub mod cloud;
pub mod display;
pub mod error;
pub mod estimate;
pub mod hardware;
pub mod model;
pub mod order;
pub mod provider;
pub mod query;
pub mod ranking;
pub mod reference;
pub mod select;
pub mod snippet;
pub mod sync;
pub mod text;
pub mod web;
