use menger_stl::elapsed_since;
use menger_stl::error::StlError;
use menger_stl::lattice::{GridTriangle, GridVector};
use menger_stl::menger_sponge::{
    generate_generic_sponge, MengerSponge, MengerSpongeComponent, ScalarTable,
};
use menger_stl::stl::{decode_binary, Scalar, Triangle, Vector, STL};

fn scalar_of(v: f64) -> Scalar {
    Scalar { bits: (v as f32).to_bits(), text: format!("{}", v) }
}

fn axis_table(corner: f64, width: f64, order: u32) -> Vec<Scalar> {
    let steps = 3u64.pow(order);
    let step = width / steps as f64;
    (0..=steps).map(|k| scalar_of(corner + k as f64 * step)).collect()
}

fn table_for(corner: [f64; 3], width: f64, order: u32) -> ScalarTable {
    ScalarTable {
        xs: axis_table(corner[0], width, order),
        ys: axis_table(corner[1], width, order),
        zs: axis_table(corner[2], width, order),
        neg: scalar_of(-1.0),
        zero: scalar_of(0.0),
        pos: scalar_of(1.0),
    }
}

fn origin_grid() -> GridVector {
    GridVector { x: 0, y: 0, z: 0 }
}

fn count_solids(c: &MengerSpongeComponent) -> u64 {
    match c {
        MengerSpongeComponent::Empty => 0,
        MengerSpongeComponent::Solid => 1,
        MengerSpongeComponent::Sponge(node) => {
            node.components.iter().map(count_solids).sum()
        }
    }
}

fn normal_f64(t: &GridTriangle) -> [f64; 3] {
    [t.normal.x as f64, t.normal.y as f64, t.normal.z as f64]
}

#[test]
fn order_zero_emits_one_full_cube() {
    let root = generate_generic_sponge(0);
    let tris = root.to_triangles(origin_grid(), 0);
    assert_eq!(tris.len(), 12);
    let mut per_direction = [0usize; 6];
    for t in &tris {
        let n = normal_f64(t);
        let magnitude = (n[0] * n[0] + n[1] * n[1] + n[2] * n[2]).sqrt();
        assert!((magnitude - 1.0).abs() < 1e-9);
        let dir = match (t.normal.x, t.normal.y, t.normal.z) {
            (1, 0, 0) => 0,
            (-1, 0, 0) => 1,
            (0, 1, 0) => 2,
            (0, -1, 0) => 3,
            (0, 0, 1) => 4,
            (0, 0, -1) => 5,
            _ => panic!("normal is not a unit axis vector"),
        };
        per_direction[dir] += 1;
    }
    assert_eq!(per_direction, [2, 2, 2, 2, 2, 2]);
}

#[test]
fn solid_leaf_count_is_twenty_to_the_order() {
    assert_eq!(count_solids(&generate_generic_sponge(0)), 1);
    assert_eq!(count_solids(&generate_generic_sponge(1)), 20);
    assert_eq!(count_solids(&generate_generic_sponge(2)), 400);
    assert_eq!(count_solids(&generate_generic_sponge(3)), 8000);
}

#[test]
fn spongeify_multiplies_solids_by_twenty() {
    let mut sponge = MengerSponge::new(origin_grid(), 0);
    assert_eq!(
        sponge.components.iter().map(count_solids).sum::<u64>(),
        20
    );
    sponge.spongeify();
    assert_eq!(
        sponge.components.iter().map(count_solids).sum::<u64>(),
        400
    );
}

#[test]
fn culled_emission_stays_below_naive_bound() {
    let t0 = generate_generic_sponge(0).to_triangles(origin_grid(), 0).len();
    assert_eq!(t0, 12);
    let t1 = generate_generic_sponge(1).to_triangles(origin_grid(), 0).len();
    assert!(t1 < 12 * 20);
    let t2 = generate_generic_sponge(2).to_triangles(origin_grid(), 0).len();
    assert!(t2 < 12 * 400);
}

#[test]
fn binary_round_trip_recovers_count_and_coordinates() {
    let root = generate_generic_sponge(1);
    let table = table_for([0.0, 0.0, 0.0], 9.0, 1);
    let stl = root.to_stl(origin_grid(), 0, String::from("sponge"), &table);
    let bytes = stl.to_binary().unwrap();
    assert_eq!(bytes.len(), 84 + 50 * stl.triangles.len());
    let decoded = decode_binary(&bytes).unwrap();
    assert_eq!(decoded.len(), stl.triangles.len());
    for (raw, t) in decoded.iter().zip(stl.triangles.iter()) {
        assert_eq!(raw.normal.x, t.normal.x.bits);
        assert_eq!(raw.normal.y, t.normal.y.bits);
        assert_eq!(raw.normal.z, t.normal.z.bits);
        assert_eq!(raw.a.x, t.a.x.bits);
        assert_eq!(raw.a.y, t.a.y.bits);
        assert_eq!(raw.a.z, t.a.z.bits);
        assert_eq!(raw.b.x, t.b.x.bits);
        assert_eq!(raw.b.y, t.b.y.bits);
        assert_eq!(raw.b.z, t.b.z.bits);
        assert_eq!(raw.c.x, t.c.x.bits);
        assert_eq!(raw.c.y, t.c.y.bits);
        assert_eq!(raw.c.z, t.c.z.bits);
    }
}

#[test]
fn ascii_facet_count_matches_triangle_count() {
    let root = generate_generic_sponge(1);
    let table = table_for([0.0, 0.0, 0.0], 9.0, 1);
    let stl = root.to_stl(origin_grid(), 0, String::from("sponge"), &table);
    let text = stl.to_ascii();
    let occurrences = text.matches("facet normal").count();
    assert_eq!(occurrences, stl.triangles.len());
}

#[test]
fn order_two_generation_is_deterministic() {
    let make = || {
        let root = generate_generic_sponge(2);
        let table = table_for([0.0, 0.0, 0.0], 10.0, 2);
        root.to_stl(origin_grid(), 0, String::from("my_sponge"), &table)
    };
    let a = make();
    let b = make();
    assert_eq!(a.to_binary().unwrap(), b.to_binary().unwrap());
    assert_eq!(a.to_ascii(), b.to_ascii());
}

#[test]
fn order_one_corner_cell_emits_three_faces() {
    // corner (0,0,0), width 9, order 1: the root node holds 20 solid cells of
    // sub-cube size 3; the cell at grid index 0 sits on the -X, -Y and -Z
    // boundary layers at once, so it emits exactly 3 faces = 6 triangles.
    let root = generate_generic_sponge(1);
    let node = match &root {
        MengerSpongeComponent::Sponge(node) => node,
        _ => panic!("order 1 must be a subdivided node"),
    };
    let solid_cells = node
        .components
        .iter()
        .filter(|c| matches!(c, MengerSpongeComponent::Solid))
        .count();
    assert_eq!(solid_cells, 20);

    let tris = root.to_triangles(origin_grid(), 0);
    // Cells emit in index order, so cell 0's triangles come first.
    let cell0: Vec<&GridTriangle> = tris
        .iter()
        .filter(|t| {
            [t.a, t.b, t.c]
                .iter()
                .all(|p| p.x <= 1 && p.y <= 1 && p.z <= 1)
        })
        .collect();
    assert_eq!(cell0.len(), 6);
    let mut negative_axis_normals = [0usize; 3];
    for t in &cell0 {
        let n = normal_f64(t);
        let magnitude = (n[0] * n[0] + n[1] * n[1] + n[2] * n[2]).sqrt();
        assert!((magnitude - 1.0).abs() < 1e-9);
        match (t.normal.x, t.normal.y, t.normal.z) {
            (-1, 0, 0) => negative_axis_normals[0] += 1,
            (0, -1, 0) => negative_axis_normals[1] += 1,
            (0, 0, -1) => negative_axis_normals[2] += 1,
            _ => panic!("corner cell emitted a face that is not on -X/-Y/-Z"),
        }
        // With width 9 the cell spans coordinates 0.0 to 3.0.
        let table = table_for([0.0, 0.0, 0.0], 9.0, 1);
        for p in [t.a, t.b, t.c] {
            let x = f32::from_bits(table.xs[p.x as usize].bits);
            assert!((0.0..=3.0).contains(&x));
        }
    }
    assert_eq!(negative_axis_normals, [2, 2, 2]);
}

#[test]
fn degenerate_triangle_is_rejected() {
    let a = GridVector { x: 0, y: 0, z: 0 };
    let b = GridVector { x: 1, y: 1, z: 1 };
    let c = GridVector { x: 2, y: 2, z: 2 };
    match GridTriangle::new(a, b, c, 0) {
        Err(StlError::DegenerateGeometry) => {}
        _ => panic!("collinear vertices must be rejected as degenerate"),
    }
    match GridTriangle::new(a, a, a, 0) {
        Err(StlError::DegenerateGeometry) => {}
        _ => panic!("repeated vertices must be rejected as degenerate"),
    }
}

#[test]
fn proper_triangle_derives_its_normal() {
    let a = GridVector { x: 0, y: 0, z: 0 };
    let b = GridVector { x: 1, y: 0, z: 0 };
    let c = GridVector { x: 0, y: 0, z: 1 };
    let t = GridTriangle::new(a, b, c, 0).unwrap();
    // side_a = b - a = (1,0,0), side_b = c - b = (-1,0,1): cross = (0,-1,0).
    assert_eq!((t.normal.x, t.normal.y, t.normal.z), (0, -1, 0));
}

#[test]
fn ascii_grammar_is_exact() {
    let v = |x: &str, bits: u32| Scalar { bits, text: String::from(x) };
    let vector = |x: &str, y: &str, z: &str| Vector {
        x: v(x, 0),
        y: v(y, 0),
        z: v(z, 0),
    };
    let t = Triangle::init(
        vector("0", "0", "0"),
        vector("1", "0", "0"),
        vector("0", "0", "1"),
        vector("0", "-1", "0"),
    );
    let mut stl = STL::init(String::from("my_sponge"));
    stl.push_triangle(t);
    let expected = "solid my_sponge\n\
facet normal 0 -1 0\n\
\x20 outer loop\n\
\x20   vertex 0 0 0\n\
\x20   vertex 1 0 0\n\
\x20   vertex 0 0 1\n\
\x20 endloop\nendfacet\n\
\n\
endsolid my_sponge\n";
    assert_eq!(stl.to_ascii(), expected);
}

#[test]
fn binary_layout_is_exact() {
    let s = |bits: u32| Scalar { bits, text: String::new() };
    let vec3 = |x: u32, y: u32, z: u32| Vector { x: s(x), y: s(y), z: s(z) };
    let t = Triangle::init(
        vec3(1, 2, 3),
        vec3(4, 5, 6),
        vec3(7, 8, 9),
        vec3(0xAABBCCDD, 0, 0x01020304),
    );
    let mut stl = STL::init(String::from("m"));
    stl.push_triangle(t);
    let bytes = stl.to_binary().unwrap();
    assert_eq!(bytes.len(), 134);
    assert!(bytes[..80].iter().all(|&b| b == 0));
    assert_eq!(&bytes[80..84], &[1, 0, 0, 0]);
    assert_eq!(&bytes[84..88], &[0xDD, 0xCC, 0xBB, 0xAA]);
    assert_eq!(&bytes[88..92], &[0, 0, 0, 0]);
    assert_eq!(&bytes[92..96], &[4, 3, 2, 1]);
    assert_eq!(&bytes[96..100], &[1, 0, 0, 0]);
    assert_eq!(&bytes[132..134], &[0, 0]);
}

#[test]
fn empty_mesh_serialises_to_bare_frames() {
    let stl = STL::init(String::from("hollow"));
    let bytes = stl.to_binary().unwrap();
    assert_eq!(bytes.len(), 84);
    assert_eq!(&bytes[80..84], &[0, 0, 0, 0]);
    assert_eq!(stl.to_ascii(), "solid hollow\nendsolid hollow\n");
}

#[test]
fn elapsed_since_subtracts_clock_readings() {
    assert_eq!(elapsed_since(100, 350), 250);
    assert_eq!(elapsed_since(42, 42), 0);
}
