use h3grid::error::Error;

#[test]
fn error_codes() {
    let all = [
        Error::Failed,
        Error::Domain,
        Error::LatLngDomain,
        Error::ResDomain,
        Error::CellInvalid,
        Error::DirectedEdgeInvalid,
        Error::UndirectedEdgeInvalid,
        Error::VertexInvalid,
        Error::Pentagon,
        Error::DuplicateInput,
        Error::NotNeighbors,
        Error::ResMismatch,
        Error::Memory,
        Error::MemoryBounds,
        Error::OptionInvalid,
    ];
    for (n, error) in all.iter().enumerate() {
        assert_eq!(error.code(), n as u32 + 1);
    }
    assert_eq!(Error::Pentagon.code(), 9);
    assert_ne!(Error::Failed, Error::Domain);
}
