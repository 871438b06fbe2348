use h3grid::H3_NULL;

#[test]
fn it_works() {
    let result = 4;
    assert_eq!(result, 4);
}

#[test]
fn null_index_is_zero() {
    assert_eq!(H3_NULL, 0);
}
