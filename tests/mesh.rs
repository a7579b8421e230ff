use pi_scene_cull::mesh::{EBufferUpload, ESpineError, EShader, EVertexAttribute, Mesh, VertexAttribute, MAX_VERTICES};

fn words(n: u32, start: u32) -> Vec<u32> {
    (0..n).map(|i| start + i).collect()
}

#[test]
fn layouts_have_their_strides() {
    assert_eq!(VertexAttribute::elements(&vec![VertexAttribute::position_2(), VertexAttribute::color()]), 6);
    assert_eq!(VertexAttribute::elements(&vec![]), 0);
    assert_eq!(VertexAttribute::position_3().num_elements, 3);
    assert_eq!(VertexAttribute::texcoords().name, EVertexAttribute::Textcoords);
    assert_eq!(VertexAttribute::color2().num_elements, 4);
    let mut m: Mesh<u32> = Mesh::new();
    assert_eq!(m.element_per_vertex(), 0);
    m.init(EShader::Colored);
    assert_eq!(m.element_per_vertex(), 6);
    assert_eq!(m.get_vertex_size_in_floats(), 6);
    m.init(EShader::ColoredTextured);
    assert_eq!(m.element_per_vertex(), 8);
    assert_eq!(m.get_attributes().len(), 3);
    m.init(EShader::TwoColoredTextured);
    assert_eq!(m.element_per_vertex(), 12);
    assert_eq!(m.get_attributes()[3], VertexAttribute::color2());
}

#[test]
fn init_sizes_storage_from_budget() {
    let mut m: Mesh<u32> = Mesh::new();
    assert!(m.init(EShader::Colored));
    assert_eq!(m.get_vertices().len(), MAX_VERTICES as usize * 6);
    assert_eq!(m.max_indices(), MAX_VERTICES * 3);
    assert_eq!(m.max_vertices(), MAX_VERTICES);
    assert!(m.get_vertices().iter().all(|w| *w == 0));
}

#[test]
fn init_reports_material_change() {
    let mut m: Mesh<u32> = Mesh::with_max_vertices(4);
    assert!(m.init(EShader::Colored));
    assert!(!m.init(EShader::Colored));
    assert!(m.init(EShader::ColoredTextured));
}

#[test]
fn set_vertices_at_capacity() {
    let mut m: Mesh<u32> = Mesh::with_max_vertices(2);
    m.init(EShader::Colored);
    let data = words(12, 100);
    assert_eq!(m.set_vertices(&data), Ok(EBufferUpload::Create));
    assert_eq!(m.get_vertices(), &data);
    assert_eq!(m.num_vertices(), 2);
    m.attach_vertices_buffer(1);
    let too_long = words(13, 500);
    assert_eq!(m.set_vertices(&too_long), Err(ESpineError::CapacityExceeded));
    assert_eq!(m.get_vertices(), &data);
    assert_eq!(m.num_vertices(), 2);
    assert_eq!(m.get_vertices_buffer(), &Some(1));
}

#[test]
fn set_vertices_keeps_tail() {
    let mut m: Mesh<u32> = Mesh::with_max_vertices(2);
    m.init(EShader::Colored);
    m.set_vertices(&words(12, 1)).unwrap();
    m.set_vertices(&words(6, 50)).unwrap();
    assert_eq!(m.num_vertices(), 1);
    let v = m.get_vertices();
    assert_eq!(&v[..6], &words(6, 50)[..]);
    assert_eq!(&v[6..], &words(6, 7)[..]);
}

#[test]
fn set_vertices_twice_reuses_buffer() {
    let mut m: Mesh<u32> = Mesh::with_max_vertices(3);
    m.init(EShader::Colored);
    assert_eq!(m.set_vertices(&words(6, 0)), Ok(EBufferUpload::Create));
    m.attach_vertices_buffer(42);
    assert_eq!(m.set_vertices(&words(12, 9)), Ok(EBufferUpload::Write));
    assert_eq!(m.get_vertices_buffer(), &Some(42));
    assert_eq!(m.num_vertices(), 2);
}

#[test]
fn set_indices_at_capacity() {
    let mut m: Mesh<u32> = Mesh::with_max_vertices(2);
    m.init(EShader::Colored);
    let data: Vec<u16> = vec![0, 1, 2, 2, 3, 0];
    assert_eq!(m.set_indices(&data), Ok(EBufferUpload::Create));
    assert_eq!(m.num_indices(), 6);
    m.attach_indices_buffer(8);
    assert_eq!(m.set_indices(&[5, 6, 7]), Ok(EBufferUpload::Write));
    assert_eq!(m.get_indices(), &vec![5, 6, 7, 2, 3, 0]);
    assert_eq!(m.set_indices(&[0; 7]), Err(ESpineError::CapacityExceeded));
    assert_eq!(m.num_indices(), 3);
    assert_eq!(m.get_indices_buffer(), &Some(8));
}

#[test]
fn init_smaller_stride_keeps_storage() {
    let mut m: Mesh<u32> = Mesh::with_max_vertices(2);
    m.init(EShader::TwoColoredTextured);
    m.set_vertices(&words(24, 1)).unwrap();
    m.attach_vertices_buffer(3);
    m.set_indices(&[1, 2, 3]).unwrap();
    m.attach_indices_buffer(4);
    assert!(m.init(EShader::Colored));
    assert_eq!(m.get_vertices().len(), 24);
    assert_eq!(m.get_vertices(), &words(24, 1));
    assert_eq!(m.get_vertices_buffer(), &Some(3));
    assert_eq!(m.get_indices_buffer(), &Some(4));
    assert_eq!(m.num_vertices(), 0);
    assert_eq!(m.num_indices(), 0);
    assert_eq!(m.max_vertices(), 4);
}

#[test]
fn init_larger_stride_reallocates() {
    let mut m: Mesh<u32> = Mesh::with_max_vertices(2);
    m.init(EShader::Colored);
    m.set_vertices(&words(12, 1)).unwrap();
    m.attach_vertices_buffer(3);
    m.set_indices(&[1, 2, 3]).unwrap();
    m.attach_indices_buffer(4);
    m.init(EShader::TwoColoredTextured);
    assert_eq!(m.get_vertices(), &vec![0; 24]);
    assert_eq!(m.get_indices(), &vec![0; 6]);
    assert_eq!(m.get_vertices_buffer(), &None);
    assert_eq!(m.get_indices_buffer(), &None);
    assert_eq!(m.num_vertices(), 0);
    assert_eq!(m.num_indices(), 0);
    assert_eq!(m.set_vertices(&words(24, 0)), Ok(EBufferUpload::Create));
}

#[test]
fn lengths_and_in_place_writes() {
    let mut m: Mesh<u32> = Mesh::with_max_vertices(2);
    m.init(EShader::Colored);
    m.get_vertices_mut()[3] = 77;
    m.set_vertex_word(4, 88);
    m.set_vertices_length(12);
    assert_eq!(m.num_vertices(), 2);
    assert_eq!(m.get_vertices()[3], 77);
    assert_eq!(m.get_vertices()[4], 88);
    m.get_indices_mut()[0] = 9;
    m.set_indices_length(6);
    assert_eq!(m.num_indices(), 6);
    assert_eq!(m.get_indices()[0], 9);
}

#[test]
fn storage_bytes_are_uploaded_words() {
    let mut m: Mesh<u32> = Mesh::with_max_vertices(1);
    m.init(EShader::Colored);
    m.set_vertices(&[0x0102_0304, 0xA0B0_C0D0]).unwrap();
    let bytes = m.vertex_bytes();
    assert_eq!(bytes.len(), 24);
    assert_eq!(&bytes[..4], &0x0102_0304u32.to_ne_bytes());
    assert_eq!(&bytes[4..8], &0xA0B0_C0D0u32.to_ne_bytes());
    m.set_indices(&[0x0506, 7]).unwrap();
    let bytes = m.index_bytes();
    assert_eq!(bytes.len(), 6);
    assert_eq!(&bytes[..2], &0x0506u16.to_ne_bytes());
}
