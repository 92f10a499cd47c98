use hopf::obj::{line_indices, Obj};
use hopf::vertex::Vertex;

fn v(x: f32, y: f32, z: f32) -> Vertex {
    Vertex { x: x.to_bits(), y: y.to_bits(), z: z.to_bits() }
}

#[test]
fn obj_indices_start_at_one() {
    let mut obj = Obj::new();
    let a = v(1.0, 0.0, 0.0);
    let b = v(0.0, 1.0, 0.0);
    assert_eq!(obj.add_vertex(&a), 1);
    assert_eq!(obj.add_vertex(&b), 2);
    assert_eq!(obj.add_vertex(&a), 1);
    assert_eq!(obj.vertex_buffer(), &vec![a, b]);
}

#[test]
fn push_quads_replaces_same_name() {
    let mut obj = Obj::new();
    obj.push_quads("o object_0".to_string(), vec![[1, 2, 3, 4]]);
    obj.push_quads("o object_1".to_string(), vec![[5, 6, 7, 8]]);
    obj.push_quads("o object_0".to_string(), vec![[4, 3, 2, 1]]);
    let objects = obj.object_list();
    assert_eq!(objects.len(), 2);
    assert_eq!(objects[0], ("o object_0".to_string(), vec![[4, 3, 2, 1]]));
    assert_eq!(objects[1], ("o object_1".to_string(), vec![[5, 6, 7, 8]]));
}

#[test]
fn quad_strip_between_loops() {
    let mut obj = Obj::new();
    let prev = vec![v(0.0, 0.0, 0.0), v(0.0, 1.0, 0.0), v(0.0, 2.0, 0.0)];
    let curr = vec![v(1.0, 0.0, 0.0), v(1.0, 1.0, 0.0), v(1.0, 2.0, 0.0)];
    let quads = obj.quad_strip(&prev, &curr);
    assert_eq!(quads, vec![[1, 2, 3, 4], [2, 5, 6, 3]]);
    assert_eq!(obj.vertex_buffer().len(), 6);
    let next = vec![v(2.0, 0.0, 0.0), v(2.0, 1.0, 0.0), v(2.0, 2.0, 0.0)];
    let quads = obj.quad_strip(&curr, &next);
    assert_eq!(quads, vec![[4, 3, 7, 8], [3, 6, 9, 7]]);
}

#[test]
fn line_indices_close_the_loop() {
    assert_eq!(line_indices(1, 3), vec![1, 2, 3, 1]);
    assert_eq!(line_indices(4, 2), vec![4, 5, 4]);
    assert_eq!(line_indices(7, 0), vec![7]);
}
