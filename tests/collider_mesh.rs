use jamming_chipper::mesh::triangles;

#[test]
fn index_runs_of_three_make_triangles() {
    assert_eq!(triangles(&vec![]), Vec::<[u32; 3]>::new());
    assert_eq!(triangles(&vec![0, 1, 2, 2, 1, 3]), vec![[0, 1, 2], [2, 1, 3]]);
}
