//! A quantum state-vector simulator with exact amplitudes, transactional
//! state transitions with rollback, and an event publisher.
pub mod amplitude;
pub mod gates;
pub mod state;
pub mod circuit;
pub mod engine;
pub mod transition;
pub mod event_bus;
pub mod error;
pub mod achievements;
pub mod animations;
pub mod bridge;
pub mod command;

pub use amplitude::Amplitude;
pub use gates::{Gate, Hadamard, CNOT};
pub use state::{QuantumState, QuantumError, MAX_QUBITS, MAX_SCALE};
pub use circuit::{Circuit, CircuitBuilder};
pub use engine::{Backend, Engine, GpuBackend, dispatch_pairs};
pub use transition::{
    BinaryState, QuantumStateData, StateError, StateUpdate, TransitionPhase, TransitionRule,
    TransitionType, TransitionValidator, DEFAULT_HISTORY_CAPACITY,
};
pub use event_bus::{EventBus, EventFilter, EventMetrics, Priority, StateEvent};
pub use error::{format_error, QTermError};
pub use bridge::StateBridge;
pub use command::parse_command;
