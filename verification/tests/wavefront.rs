use engine::geom::formats::Format;
use engine::geom::mesh::Builder;
use engine::geom::wavefront::{parse_face_indices, parse_line, Error, Statement, Wavefront, SCALE};
use engine::math::Vector3;

#[test]
fn two_triangles_scenario() {
    let text = b"v 0 0 0\nv 1 0 0\nv 0 1 0\nv 1 1 0\nf 1 2 3\nf 2 4 3\n";
    let data = Wavefront::load(text).unwrap();
    assert_eq!(data.data.len(), 1);
    let buffer = &data.data[0];
    // 4 distinct vertices, 2 triangles emitted unchanged
    assert_eq!(buffer.vertices.len(), 4);
    assert_eq!(buffer.indices.len(), 6);
    assert_eq!(buffer.indices, vec![0, 1, 2, 1, 3, 2]);
    assert_eq!(buffer.vertices[0].position, Vector3(0, 0, 0));
    assert_eq!(buffer.vertices[1].position, Vector3(SCALE, 0, 0));
    assert_eq!(buffer.vertices[2].position, Vector3(0, SCALE, 0));
    assert_eq!(buffer.vertices[3].position, Vector3(SCALE, SCALE, 0));
    for v in buffer.vertices.iter() {
        assert_eq!(v.normal, None);
        assert_eq!(v.uv, None);
    }
}

#[test]
fn quad_triangulates_into_two_fans() {
    let text = b"v 0 0 0\nv 1 0 0\nv 1 1 0\nv 0 1 0\nf 1 2 3 4\n";
    let data = Wavefront::load(text).unwrap();
    let buffer = &data.data[0];
    assert_eq!(buffer.vertices.len(), 4);
    assert_eq!(buffer.indices, vec![0, 1, 2, 0, 2, 3]);
}

#[test]
fn shared_keys_deduplicate() {
    // both faces reference the same three positions: 3 distinct keys
    let text = b"v 0 0 0\nv 1 0 0\nv 0 1 0\nf 1 2 3\nf 3 2 1\n";
    let data = Wavefront::load(text).unwrap();
    let buffer = &data.data[0];
    assert_eq!(buffer.vertices.len(), 3);
    assert_eq!(buffer.indices, vec![0, 1, 2, 2, 1, 0]);
}

#[test]
fn sentinel_resolves_to_none() {
    let text =
        b"v 0 0 0\nv 1 0 0\nv 0 1 0\nvn 0 0 1\nvt 0.5 0.25\nf 1//1 2/1/1 3//\n";
    let data = Wavefront::load(text).unwrap();
    let buffer = &data.data[0];
    assert_eq!(buffer.vertices.len(), 3);
    // key (0, 0, -1): normal looked up, uv absent
    assert_eq!(buffer.vertices[0].normal, Some(Vector3(0, 0, SCALE)));
    assert_eq!(buffer.vertices[0].uv, None);
    // key (1, 0, 0): both attributes present
    assert_eq!(buffer.vertices[1].normal, Some(Vector3(0, 0, SCALE)));
    assert_eq!(buffer.vertices[1].uv, Some((SCALE / 2, SCALE / 4)));
    // key (2, -1, -1): both absent
    assert_eq!(buffer.vertices[2].normal, None);
    assert_eq!(buffer.vertices[2].uv, None);
}

#[test]
fn fractional_and_signed_scalars() {
    let text = b"v -1.5 +0.25 2.\nv .5 0.0000019 3\nf 1 2 1\n";
    let data = Wavefront::load(text).unwrap();
    let buffer = &data.data[0];
    assert_eq!(buffer.vertices[0].position, Vector3(-1_500_000, 250_000, 2_000_000));
    // the seventh fractional digit is dropped
    assert_eq!(buffer.vertices[1].position, Vector3(500_000, 1, 3_000_000));
}

#[test]
fn homogeneous_coordinate_is_read_and_ignored() {
    let text = b"v 1 2 3 0.5\nv 4 5 6\nf 1 2 1\n";
    let data = Wavefront::load(text).unwrap();
    assert_eq!(data.data[0].vertices[0].position, Vector3(SCALE, 2 * SCALE, 3 * SCALE));
}

#[test]
fn comments_blank_lines_objects_and_smoothing() {
    let text = b"# a comment line\n\no model\no\ns off\ns 1\nv 0 0 0\nv 1 0 0\nv 0 1 0\nf 1 2 3\n";
    let data = Wavefront::load(text).unwrap();
    assert_eq!(data.data[0].vertices.len(), 3);
}

#[test]
fn unknown_keyword_is_a_parse_error() {
    let text = b"v 0 0 0\nvp 1 2\n";
    assert_eq!(Wavefront::load(text).unwrap_err(), Error::Parse);
}

#[test]
fn malformed_number_is_a_parse_error() {
    assert_eq!(Wavefront::load(b"v 1 2 3.4.5\n").unwrap_err(), Error::Parse);
    assert_eq!(Wavefront::load(b"v 1 2\n").unwrap_err(), Error::Parse);
    assert_eq!(Wavefront::load(b"v a b c\n").unwrap_err(), Error::Parse);
    assert_eq!(Wavefront::load(b"s maybe\n").unwrap_err(), Error::Parse);
    assert_eq!(Wavefront::load(b"o name extra\n").unwrap_err(), Error::Parse);
    assert_eq!(Wavefront::load(b"f 1/2/3/4\n").unwrap_err(), Error::Parse);
}

#[test]
fn out_of_range_index_is_a_lookup_error() {
    let text = b"v 0 0 0\nv 1 0 0\nv 0 1 0\nf 1 2 5\n";
    assert_eq!(Wavefront::load(text).unwrap_err(), Error::Lookup);
    // a face normal index past the parsed normals also fails
    let text = b"v 0 0 0\nv 1 0 0\nv 0 1 0\nf 1//9 2 3\n";
    assert_eq!(Wavefront::load(text).unwrap_err(), Error::Lookup);
}

#[test]
fn short_face_is_a_degenerate_error() {
    let text = b"v 0 0 0\nv 1 0 0\nf 1 2\n";
    assert_eq!(Wavefront::load(text).unwrap_err(), Error::Degenerate);
}

#[test]
fn parse_error_comes_before_lookup_error() {
    let text = b"q broken\nv 0 0 0\nf 9 9 9\n";
    assert_eq!(Wavefront::load(text).unwrap_err(), Error::Parse);
}

#[test]
fn face_corner_sub_fields() {
    assert_eq!(parse_face_indices(b"1/2/3"), Ok((0, 2, 1)));
    assert_eq!(parse_face_indices(b"7"), Ok((6, -1, -1)));
    assert_eq!(parse_face_indices(b"1//3"), Ok((0, 2, -1)));
    assert_eq!(parse_face_indices(b"1/2"), Ok((0, -1, 1)));
    assert_eq!(parse_face_indices(b"/2/"), Ok((-1, -1, 1)));
    // a present negative index is kept as is
    assert_eq!(parse_face_indices(b"-3"), Ok((-3, -1, -1)));
    assert_eq!(parse_face_indices(b"1/2/3/4"), Err(Error::Parse));
    assert_eq!(parse_face_indices(b"x"), Err(Error::Parse));
}

#[test]
fn parse_line_statements() {
    match parse_line(b"v 1 2 3").unwrap() {
        Statement::Vertex(x, y, z, w) => {
            assert_eq!((x, y, z), (SCALE, 2 * SCALE, 3 * SCALE));
            assert_eq!(w, None);
        },
        _ => panic!("expected a position record"),
    }
    match parse_line(b"vn 0 0 1").unwrap() {
        Statement::VertexNormal(x, y, z) => assert_eq!((x, y, z), (0, 0, SCALE)),
        _ => panic!("expected a normal record"),
    }
    match parse_line(b"vt 0.5 0.5").unwrap() {
        Statement::VertexTextureCoords(u, v) => assert_eq!((u, v), (SCALE / 2, SCALE / 2)),
        _ => panic!("expected a texture record"),
    }
    match parse_line(b"f 1 2 3").unwrap() {
        Statement::Face(cs) => assert_eq!(cs, vec![(0, -1, -1), (1, -1, -1), (2, -1, -1)]),
        _ => panic!("expected a face record"),
    }
    match parse_line(b"o cube").unwrap() {
        Statement::Object(Some(name)) => assert_eq!(name, b"cube".to_vec()),
        _ => panic!("expected an object name"),
    }
    match parse_line(b"s on").unwrap() {
        Statement::SmoothShading(enabled) => assert!(enabled),
        _ => panic!("expected a smoothing toggle"),
    }
    match parse_line(b"# note").unwrap() {
        Statement::Empty => {},
        _ => panic!("expected an ignored line"),
    }
    assert!(parse_line(b"curve 1 2").is_err());
}

#[test]
fn load_with_builder_appends() {
    let mut builder: Builder<usize, engine::geom::wavefront::Vertex> = Builder::new();
    let text = b"v 0 0 0\nv 1 0 0\nv 0 1 0\nf 1 2 3\n";
    Wavefront::load_with_builder(text, &mut builder).unwrap();
    let data = builder.build();
    assert_eq!(data.data[0].indices, vec![0, 1, 2]);
    assert_eq!(data.data[0].vertices.len(), 3);
}

#[test]
fn format_trait_loads() {
    let text = b"v 0 0 0\nv 1 0 0\nv 0 1 0\nf 1 2 3\n";
    let data = <Wavefront as Format>::load(text).unwrap();
    assert_eq!(data.data[0].vertices.len(), 3);
    let from_vertex: Vector3 = data.data[0].vertices[0].into();
    assert_eq!(from_vertex, Vector3(0, 0, 0));
}

#[test]
fn crlf_input_parses() {
    let text = b"v 0 0 0\r\nv 1 0 0\r\nv 0 1 0\r\nf 1 2 3\r\n";
    let data = Wavefront::load(text).unwrap();
    assert_eq!(data.data[0].vertices.len(), 3);
}
