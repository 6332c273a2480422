use micro3d::graphics::{
    grid_vertex_count, line_list_indices, partition_by_pipeline, pipeline_for, Pipeline, PrimitiveTopology,
};

#[test]
fn line_lists_use_the_line_pipeline() {
    assert_eq!(pipeline_for(PrimitiveTopology::LineList), Pipeline::Lines);
    assert_eq!(pipeline_for(PrimitiveTopology::TriangleList), Pipeline::Triangles);
    assert_eq!(pipeline_for(PrimitiveTopology::LineStrip), Pipeline::Triangles);
    assert_eq!(pipeline_for(PrimitiveTopology::PointList), Pipeline::Triangles);
    assert_eq!(pipeline_for(PrimitiveTopology::TriangleStrip), Pipeline::Triangles);
}

#[test]
fn grid_of_fifty_cells() {
    let n = grid_vertex_count(50);
    assert_eq!(n, 204);
    let indices = line_list_indices(n);
    assert_eq!(indices.len(), 204);
    assert_eq!(&indices[..4], &[0, 1, 2, 3]);
    assert_eq!(indices[203], 203);
}

#[test]
fn line_list_of_odd_count_pairs_last_vertex() {
    assert_eq!(line_list_indices(3), vec![0, 1, 2, 3]);
    assert!(line_list_indices(0).is_empty());
}

#[test]
fn indices_wrap_past_sixteen_bits() {
    let indices = line_list_indices(65538);
    assert_eq!(indices[65535], 65535);
    assert_eq!(indices[65536], 0);
    assert_eq!(indices[65537], 1);
}

#[test]
fn meshes_split_by_pipeline_in_order() {
    let (triangles, lines) = partition_by_pipeline(&[
        PrimitiveTopology::LineList,
        PrimitiveTopology::TriangleList,
        PrimitiveTopology::LineList,
        PrimitiveTopology::TriangleStrip,
    ]);
    assert_eq!(triangles, vec![1, 3]);
    assert_eq!(lines, vec![0, 2]);
    let (triangles, lines) = partition_by_pipeline(&[]);
    assert!(triangles.is_empty() && lines.is_empty());
}
