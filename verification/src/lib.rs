//! Decisions of a container's init process, from the first call after the fork to the
//! execution of the payload.
//!
//! The process is a state machine: it names the call to make next and takes the answer to it.
//! Nothing here makes a call of its own to the kernel.

pub mod abi;
pub mod answers;
pub mod asked;
pub mod call;
pub mod causes;
pub mod context;
pub mod coverage;
pub mod ending;
pub mod environment;
pub mod envs;
pub mod error;
pub mod files;
pub mod guarantees;
pub mod io_priority;
pub mod laws;
pub mod made;
pub mod order;
pub mod path;
pub mod plan;
pub mod procedures;
pub mod process;
pub mod run;
pub mod scheduler;
pub mod stage;
pub mod stages;
pub mod steps;
pub mod text;
