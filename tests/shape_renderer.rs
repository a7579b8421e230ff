use pi_scene_cull::mesh::{EShader, Mesh, VertexAttribute};
use pi_scene_cull::shape_renderer::ShapeRenderer;

#[test]
fn new_renderer_is_idle() {
    let r: ShapeRenderer<u32, u64> = ShapeRenderer::new();
    assert_eq!(r.shader, EShader::Colored);
    assert!(!r.is_drawing);
    assert_eq!(r.draw_calls, 0);
    assert_eq!(r.elements_per_vertex, 6);
    assert!(r.meshes.is_empty());
    assert_eq!(r.pipeline_key(), None);
    assert_eq!(r.attributes, vec![VertexAttribute::position_2(), VertexAttribute::color()]);
    assert_eq!(r.last_texture_key, None);
    assert_eq!(r.vertices_length, 0);
    assert_eq!(r.indices_length, 0);
    assert_eq!(r.vertex_index(), 0);
}

#[test]
fn begin_resets_draw_calls() {
    let mut r: ShapeRenderer<u32, u64> = ShapeRenderer::new();
    r.draw_calls = 3;
    r.begin(17);
    assert_eq!(r.draw_calls, 0);
    assert!(r.is_drawing);
    assert_eq!(r.pipeline_key(), Some(17));
}

#[test]
fn vertices_go_to_current_mesh() {
    let mut r: ShapeRenderer<u32, u64> = ShapeRenderer::new();
    for _ in 0..2 {
        let mut m = Mesh::with_max_vertices(4);
        m.init(EShader::Colored);
        r.meshes.push(m);
    }
    r.begin(1);
    r.vertex(1, 2, 3, 4, 5, 6);
    r.vertex(7, 8, 9, 10, 11, 12);
    let v = r.meshes[0].get_vertices();
    assert_eq!(&v[..12], &[1, 2, 3, 4, 5, 6, 7, 8, 9, 10, 11, 12]);
    assert_eq!(v[12], 0);
    assert!(r.meshes[1].get_vertices().iter().all(|w| *w == 0));
}
