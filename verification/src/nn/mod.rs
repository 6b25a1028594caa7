//! The feed-forward neural network built on the algebra engine:
//! activation and cost strategies, layers, and the training loop.

pub mod activations;
pub mod cost;
pub mod feedforward;
