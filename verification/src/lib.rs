//! A feed-forward multilayer perceptron trained by online backpropagation.
//!
//! The crate owns the network's data, its shape rules and every decision of
//! inference and training: which neuron is evaluated next and against which
//! inputs, which weights an error signal is propagated through, when the
//! parameters may change, which class wins, and when training stops. The
//! arithmetic on reals is left to the caller: a real crosses the interface as
//! the 64-bit binary encoding of a double-precision number, and each pass asks
//! for one scalar at a time.
pub mod error;
pub mod scalar;
pub mod neuron;
pub mod series;
pub mod network;
pub mod forward;
pub mod backward;
pub mod update;
pub mod trainer;
pub mod arithmetic;
