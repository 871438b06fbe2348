use vstd::prelude::*;

verus! {

/// Why an operation on the grid did not produce a value.
#[derive(Debug, Clone, Copy, PartialEq, Eq, Structural)]
pub enum Error {
    /// The operation failed and no more specific reason applies.
    Failed,
    /// An argument was outside of its acceptable range.
    Domain,
    /// Latitude or longitude was outside of its acceptable range.
    LatLngDomain,
    /// A resolution was outside of its acceptable range.
    ResDomain,
    /// A cell index was not valid.
    CellInvalid,
    /// A directed edge index was not valid.
    DirectedEdgeInvalid,
    /// An undirected edge index was not valid.
    UndirectedEdgeInvalid,
    /// A vertex index was not valid.
    VertexInvalid,
    /// Pentagon distortion was met.
    Pentagon,
    /// The arguments held a duplicate.
    DuplicateInput,
    /// Two cells were not neighbours.
    NotNeighbors,
    /// Two cells had incompatible resolutions.
    ResMismatch,
    /// A necessary allocation failed.
    Memory,
    /// The memory provided was not large enough.
    MemoryBounds,
    /// A mode or flags argument was not valid.
    OptionInvalid,
}

impl Error {
    /// The stable numeric code of the error, 1 through 15.
    pub open spec fn spec_code(self) -> int {
        match self {
            Error::Failed => 1,
            Error::Domain => 2,
            Error::LatLngDomain => 3,
            Error::ResDomain => 4,
            Error::CellInvalid => 5,
            Error::DirectedEdgeInvalid => 6,
            Error::UndirectedEdgeInvalid => 7,
            Error::VertexInvalid => 8,
            Error::Pentagon => 9,
            Error::DuplicateInput => 10,
            Error::NotNeighbors => 11,
            Error::ResMismatch => 12,
            Error::Memory => 13,
            Error::MemoryBounds => 14,
            Error::OptionInvalid => 15,
        }
    }

    /// The stable numeric code of the error.
    pub fn code(self) -> (c: u32)
        ensures
            c == self.spec_code(),
            1 <= c <= 15,
    {
        match self {
            Error::Failed => 1,
            Error::Domain => 2,
            Error::LatLngDomain => 3,
            Error::ResDomain => 4,
            Error::CellInvalid => 5,
            Error::DirectedEdgeInvalid => 6,
            Error::UndirectedEdgeInvalid => 7,
            Error::VertexInvalid => 8,
            Error::Pentagon => 9,
            Error::DuplicateInput => 10,
            Error::NotNeighbors => 11,
            Error::ResMismatch => 12,
            Error::Memory => 13,
            Error::MemoryBounds => 14,
            Error::OptionInvalid => 15,
        }
    }
}

} // verus!
