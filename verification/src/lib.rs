//! A self-organising band ensemble: the integer and structural logic of the
//! ensemble (instrument roles, spectral templates, phase classification,
//! the bounded variance history, median selection and agent bookkeeping),
//! each with its contract.

pub mod role;
pub mod phase;
pub mod hodge;
pub mod roster;
