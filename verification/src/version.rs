use vstd::prelude::*;

verus! {

/// A PES release whose EDIT savefile this crate reads.
#[derive(Debug, Clone, Copy, PartialEq, Eq, Structural, Hash)]
pub enum PesVersion {
    /// Pro Evolution Soccer 2015.
    Pes15,
    /// Pro Evolution Soccer 2016.
    Pes16,
    /// Pro Evolution Soccer 2017.
    Pes17,
    /// PES 2018.
    Pes18,
    /// PES 2019.
    Pes19,
    /// eFootball PES 2020.
    Pes20,
    /// eFootball PES 2021.
    Pes21,
}

} // verus!
