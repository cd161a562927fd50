use vstd::prelude::*;

verus! {

/// The instrumental role a local agent plays in the ensemble.
#[derive(Debug, Clone, Copy, PartialEq, Eq, Structural)]
pub enum InstrumentRole {
    /// Percussion / time-keeper
    Drums,
    /// Low-end harmonic foundation
    Bass,
    /// Chordal / melodic mid-range
    Keys,
    /// Brass / wind soloists
    Horns,
    /// Sustained texture layer
    Pads,
}

/// The four-component spectral template of a role, each component counted
/// in halves: a component of 2 stands for 1.0, 1 for 0.5 and 0 for 0.0.
///
/// Each of the four soloing roles owns one axis of the spectrum; the pad
/// layer spreads evenly over all four.
pub open spec fn spectral_halves_of(role: InstrumentRole) -> Seq<u8> {
    match role {
        InstrumentRole::Drums => seq![2u8, 0u8, 0u8, 0u8],
        InstrumentRole::Bass => seq![0u8, 2u8, 0u8, 0u8],
        InstrumentRole::Keys => seq![0u8, 0u8, 2u8, 0u8],
        InstrumentRole::Horns => seq![0u8, 0u8, 0u8, 2u8],
        InstrumentRole::Pads => seq![1u8, 1u8, 1u8, 1u8],
    }
}

impl InstrumentRole {
    /// The spectral state an agent of this role starts with, in halves
    /// (see `spectral_halves_of`).
    pub fn spectral_halves(&self) -> (s: [u8; 4])
        ensures
            s@ == spectral_halves_of(*self),
    {
        let s: [u8; 4] = match self {
            InstrumentRole::Drums => [2, 0, 0, 0],
            InstrumentRole::Bass => [0, 2, 0, 0],
            InstrumentRole::Keys => [0, 0, 2, 0],
            InstrumentRole::Horns => [0, 0, 0, 2],
            InstrumentRole::Pads => [1, 1, 1, 1],
        };
        assert(s@ =~= spectral_halves_of(*self));
        s
    }
}

} // verus!
