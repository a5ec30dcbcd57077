//! Evolution of simple foraging agents: a feedforward neural network drives
//! each agent, a genetic algorithm breeds the next generation, and a
//! discrete-time simulation on a unit torus glues perception, motion and
//! reproduction together.
//!
//! All scalar quantities (positions, angles, speeds, genes) are fixed-point
//! values: an `i64` holding `x * FX_ONE` stands for the real number `x`.

pub mod fx;
pub mod trig;
pub mod rng;
pub mod chromosome;
pub mod network;
pub mod ga;
pub mod geom;
pub mod food;
pub mod eye;
pub mod config;
pub mod animal;
pub mod world;
pub mod animal_individual;
pub mod simulation;
