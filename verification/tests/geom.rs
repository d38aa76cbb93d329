use engine::geom::aabb::Aabb;
use engine::geom::mesh::{Buffer, Builder, Data};
use engine::geom::stat::{StaticBuilder, StaticData};
use engine::geom::octree::Octree;
use engine::geom::util::{triangulate, triangulate_all};
use engine::geom::Triangle;
use engine::math::Vector3;

fn tri(
    a: (i64, i64, i64),
    b: (i64, i64, i64),
    c: (i64, i64, i64),
) -> Triangle<Vector3> {
    Triangle::new(
        Vector3(a.0, a.1, a.2),
        Vector3(b.0, b.1, b.2),
        Vector3(c.0, c.1, c.2),
    )
}

#[test]
fn aabb_containing_round_trip() {
    let points = vec![
        Vector3(0, 0, 0),
        Vector3(2, 0, 0),
        Vector3(0, 4, 0),
        Vector3(-6, 0, 8),
        Vector3(1, 1, 1),
    ];
    let aabb = Aabb::containing(&points);
    for p in points.iter() {
        assert!(aabb.contains(*p));
    }
    assert!(aabb.contains_any(&points));
}

#[test]
fn aabb_containing_exact() {
    // mean center, largest absolute deviation as half-extent
    let points = vec![Vector3(0, 0, 0), Vector3(2, 8, -4)];
    let aabb = Aabb::containing(&points);
    assert_eq!(aabb.center(), Vector3(1, 4, -2));
    assert_eq!(aabb.half_extents(), Vector3(1, 4, 2));
    // the mean truncates towards zero
    let skewed = vec![Vector3(0, 0, 0), Vector3(3, -3, 0)];
    let sk = Aabb::containing(&skewed);
    assert_eq!(sk.center(), Vector3(1, -1, 0));
    assert_eq!(sk.half_extents(), Vector3(2, 2, 0));
    // no points: a degenerate box at the origin
    let empty: Vec<Vector3> = Vec::new();
    let e = Aabb::containing(&empty);
    assert_eq!(e.center(), Vector3(0, 0, 0));
    assert_eq!(e.half_extents(), Vector3(0, 0, 0));
}

#[test]
fn aabb_contains_and_grow() {
    let aabb = Aabb::new(Vector3(0, 0, 0), Vector3(2, 2, 2));
    assert!(aabb.contains(Vector3(2, -2, 1)));
    assert!(!aabb.contains(Vector3(3, 0, 0)));
    let grown = aabb.grow(Vector3(5, 0, 0));
    assert!(grown.contains(Vector3(5, 0, 0)));
    assert!(grown.contains(Vector3(2, -2, 1)));
    assert_eq!(grown.center(), Vector3(0, 0, 0));
    assert_eq!(grown.half_extents(), Vector3(5, 2, 2));
}

#[test]
fn aabb_subdivide_octants() {
    let aabb = Aabb::new(Vector3(0, 0, 0), Vector3(4, 4, 4));
    let kids = aabb.subdivide();
    assert_eq!(kids.len(), 8);
    for kid in kids.iter() {
        assert_eq!(kid.half_extents(), Vector3(2, 2, 2));
    }
    // front-top-left first, as (x low, y high, z high)
    assert_eq!(kids[0].center(), Vector3(-2, 2, 2));
    assert_eq!(kids[1].center(), Vector3(2, 2, 2));
    assert_eq!(kids[6].center(), Vector3(-2, -2, -2));
    assert_eq!(kids[7].center(), Vector3(2, -2, -2));
    // every point of the parent lies in some child
    let p = Vector3(1, -3, 4);
    assert!(aabb.contains(p));
    assert!(kids.iter().any(|k| k.contains(p)));
    // an odd half-extent still leaves no gap in the middle
    let odd = Aabb::new(Vector3(0, 0, 0), Vector3(3, 3, 3));
    let okids = odd.subdivide();
    for kid in okids.iter() {
        assert_eq!(kid.half_extents(), Vector3(2, 2, 2));
    }
    let mid = Vector3(0, 0, 0);
    assert!(okids.iter().any(|k| k.contains(mid)));
}

#[test]
fn quarter_extents_round_up() {
    let aabb = Aabb::new(Vector3(0, 0, 0), Vector3(5, 4, 1));
    assert_eq!(aabb.quarter_extents(), Vector3(3, 2, 1));
}

#[test]
fn octree_small_build_is_leaf() {
    let tris = vec![
        tri((0, 0, 0), (2, 0, 0), (0, 2, 0)),
        tri((0, 0, 2), (2, 0, 2), (0, 2, 2)),
    ];
    let tree = Octree::build(tris.clone());
    // far below the default leaf threshold: one leaf holding everything
    match &tree {
        Octree::Leaf { triangles, .. } => {
            assert_eq!(triangles.len(), 2);
            assert!(triangles.contains(&tris[0]));
            assert!(triangles.contains(&tris[1]));
        },
        Octree::Node { .. } => panic!("a small build must stay a leaf"),
    }
    assert!(tree.contains(tris[0]));
    assert!(tree.contains(tris[1]));
}

fn collect_leaf_triangles(tree: &Octree, out: &mut Vec<Triangle<Vector3>>) {
    match tree {
        Octree::Leaf { triangles, .. } => out.extend(triangles.iter().cloned()),
        Octree::Node { subtrees, .. } => {
            for sub in subtrees.iter() {
                collect_leaf_triangles(sub, out);
            }
        },
    }
}

#[test]
fn octree_split_keeps_every_triangle() {
    let mut tris = Vec::new();
    for i in 0..10i64 {
        tris.push(tri((i, 0, 0), (i + 1, 0, 0), (i, 1, 0)));
    }
    let points: Vec<Vector3> = tris
        .iter()
        .flat_map(|t| t.points().iter().cloned().collect::<Vec<_>>())
        .collect();
    let aabb = Aabb::containing(&points);
    let tree = Octree::build_advanced(tris.clone(), aabb, 3, 2);
    // the root had to split: 10 triangles with a threshold of 2
    match &tree {
        Octree::Node { subtrees, .. } => assert_eq!(subtrees.len(), 8),
        Octree::Leaf { .. } => panic!("the root must split"),
    }
    let mut seen = Vec::new();
    collect_leaf_triangles(&tree, &mut seen);
    for t in tris.iter() {
        assert!(seen.contains(t));
    }
    assert_eq!(tree.aabb().center(), aabb.center());
}

#[test]
fn octree_depth_exhaustion_stops() {
    let tris = vec![
        tri((0, 0, 0), (1, 0, 0), (0, 1, 0)),
        tri((0, 0, 0), (1, 0, 0), (0, 1, 0)),
        tri((0, 0, 0), (1, 0, 0), (0, 1, 0)),
    ];
    let points = vec![Vector3(0, 0, 0), Vector3(1, 0, 0), Vector3(0, 1, 0)];
    let aabb = Aabb::containing(&points);
    // identical triangles can never fall below the threshold; only the
    // depth budget stops the recursion
    let tree = Octree::build_advanced(tris, aabb, 2, 1);
    assert!(depth_of(&tree) <= 2);
}

fn depth_of(tree: &Octree) -> usize {
    match tree {
        Octree::Leaf { .. } => 0,
        Octree::Node { subtrees, .. } => 1 + subtrees.iter().map(depth_of).max().unwrap(),
    }
}

#[test]
fn triangulate_fan() {
    let face: Vec<usize> = vec![10, 11, 12, 13, 14];
    let all = triangulate_all(&face);
    assert_eq!(all, vec![vec![10, 11, 12], vec![10, 12, 13], vec![10, 13, 14]]);

    let mut it = triangulate(face);
    assert_eq!(it.next(), Some(vec![10, 11, 12]));
    assert_eq!(it.next(), Some(vec![10, 12, 13]));
    assert_eq!(it.next(), Some(vec![10, 13, 14]));
    assert_eq!(it.next(), None);
    assert_eq!(it.next(), None);

    // a triangle passes through unchanged
    let three: Vec<usize> = vec![7, 8, 9];
    let mut it = triangulate(three);
    assert_eq!(it.next(), Some(vec![7, 8, 9]));
    assert_eq!(it.next(), None);
}

#[test]
fn builder_accumulates_and_builds() {
    let mut builder: Builder<u16, (i64, i64)> = Builder::new();
    builder.feed_vertices(vec![(0, 0), (1, 0)]);
    builder.feed_indices(vec![0, 1]);
    builder.feed_indices(vec![1, 0]);
    let data = builder.build();
    assert_eq!(data.data.len(), 1);
    assert_eq!(data.data[0].indices, vec![0, 1, 1, 0]);
    assert_eq!(data.data[0].vertices, vec![(0, 0), (1, 0)]);
    assert_eq!(data.buffers().len(), 1);
}

#[test]
fn buffer_and_data_construction() {
    let buffer: Buffer<u32, i64> = Buffer::new(vec![0, 1, 2], vec![5, 6, 7]);
    assert_eq!(buffer.indices, vec![0, 1, 2]);
    assert_eq!(buffer.vertices, vec![5, 6, 7]);
    let empty: Buffer<u32, i64> = Buffer::empty();
    assert!(empty.indices.is_empty() && empty.vertices.is_empty());
    let data: Data<u32, i64> = Data::new(vec![buffer]);
    assert_eq!(data.buffers().len(), 1);
    let none: Data<u32, i64> = Data::empty();
    assert_eq!(none.buffers().len(), 0);
}

#[test]
fn static_builder_matches_builder() {
    let mut builder: StaticBuilder<u32, i64> = StaticBuilder::new();
    builder.feed_vertices(vec![7, 8]);
    builder.feed_indices(vec![0, 1, 0]);
    let data = builder.build();
    assert_eq!(data.data.len(), 1);
    assert_eq!(data.data[0].indices, vec![0, 1, 0]);
    assert_eq!(data.data[0].vertices, vec![7, 8]);
    let empty: StaticData<u32, i64> = StaticData::empty();
    assert_eq!(empty.buffers().len(), 0);
}
