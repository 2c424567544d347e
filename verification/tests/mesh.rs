use egui_sdl2_canvas::{Disposition, Mesh, TextureId};

#[derive(Clone, Copy, Debug, PartialEq)]
struct Vertex {
    pos: [f32; 2],
    uv: [f32; 2],
    color: [u8; 4],
}

fn corner(x: f32, y: f32) -> Vertex {
    Vertex { pos: [x, y], uv: [x / 10.0, y / 10.0], color: [255, 255, 255, 255] }
}

fn quad() -> Vec<Vertex> {
    vec![corner(0.0, 0.0), corner(10.0, 0.0), corner(10.0, 10.0), corner(0.0, 10.0)]
}

#[test]
fn quad_is_drawn() {
    let mesh = Mesh {
        indices: vec![0, 1, 2, 0, 2, 3],
        vertices: quad(),
        texture_id: Some(TextureId::Managed(0)),
    };
    assert_eq!(mesh.classify(), Disposition::Drawn);
}

#[test]
fn mesh_without_vertices_is_empty() {
    let mesh: Mesh<Vertex> = Mesh { indices: vec![0, 1, 2], vertices: Vec::new(), texture_id: None };
    assert_eq!(mesh.classify(), Disposition::Empty);
}

#[test]
fn mesh_without_indices_is_empty() {
    let mesh = Mesh { indices: Vec::new(), vertices: quad(), texture_id: None };
    assert_eq!(mesh.classify(), Disposition::Empty);
}

#[test]
fn index_count_not_in_threes_is_malformed() {
    let mesh = Mesh { indices: vec![0, 1, 2, 3], vertices: quad(), texture_id: None };
    assert_eq!(mesh.classify(), Disposition::Malformed);
}

#[test]
fn index_beyond_the_vertices_is_malformed() {
    let mesh = Mesh { indices: vec![0, 1, 4], vertices: quad(), texture_id: None };
    assert_eq!(mesh.classify(), Disposition::Malformed);
    let last = Mesh { indices: vec![0, 1, 3], vertices: quad(), texture_id: None };
    assert_eq!(last.classify(), Disposition::Drawn);
}

#[test]
fn native_indices_keep_order_and_winding() {
    let mesh = Mesh { indices: vec![0, 2, 1, 3, 1, 2], vertices: quad(), texture_id: None };
    assert_eq!(mesh.native_indices(), Some(vec![0, 2, 1, 3, 1, 2]));
    let none: Mesh<Vertex> = Mesh { indices: Vec::new(), vertices: Vec::new(), texture_id: None };
    assert_eq!(none.native_indices(), Some(Vec::new()));
}

#[test]
fn index_beyond_signed_range_has_no_native_form() {
    let edge = Mesh { indices: vec![0, 2147483647, 1], vertices: quad(), texture_id: None };
    assert_eq!(edge.native_indices(), Some(vec![0, 2147483647, 1]));
    let beyond = Mesh { indices: vec![0, 2147483648, 1], vertices: quad(), texture_id: None };
    assert_eq!(beyond.native_indices(), None);
    assert_eq!(beyond.classify(), Disposition::Malformed);
}
