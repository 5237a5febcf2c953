use obj_mesh::{
    build_mesh, classify_format, load_obj, load_obj_from_bytes, MeshData, ObjLoadError, ObjLoader,
    KIND_P, KIND_PN, KIND_PT, KIND_PTN,
};

fn bits(x: f32) -> u32 {
    x.to_bits()
}

fn row(x: f32, y: f32, z: f32) -> (u32, u32, u32) {
    (x.to_bits(), y.to_bits(), z.to_bits())
}

const FULL_TRIANGLE: &[u8] = b"v 0.0 0.0 0.0\nv 1.0 0.0 0.0\nv 0.0 1.0 0.0\nvt 0.0 0.0\nvt 0.25 0.5\nvt 1.0 1.0\nvn 0.0 0.0 1.0\nf 1/1/1 2/2/1 3/3/1\n";

#[test]
fn classify_all_fully_textured_is_three() {
    assert_eq!(classify_format(&vec![KIND_PTN, KIND_PTN, KIND_PTN]), 3);
}

#[test]
fn classify_empty_defaults_to_three() {
    assert_eq!(classify_format(&vec![]), 3);
}

#[test]
fn classify_any_position_only_forces_one() {
    assert_eq!(classify_format(&vec![KIND_PTN, KIND_P, KIND_PN]), 1);
    assert_eq!(classify_format(&vec![KIND_P]), 1);
}

#[test]
fn classify_normals_without_textures_is_two() {
    assert_eq!(classify_format(&vec![KIND_PN]), 2);
    assert_eq!(classify_format(&vec![KIND_PN, KIND_PTN]), 2);
}

#[test]
fn classify_texture_without_normal_leaves_tier_unchanged() {
    // A position-and-texture polygon never lowers the tier; the re-projection
    // then rejects such a file (see position_texture_only_file_fails).
    assert_eq!(classify_format(&vec![KIND_PT]), 3);
    assert_eq!(classify_format(&vec![KIND_PT, KIND_PN]), 2);
}

#[test]
fn single_triangle_full_data() {
    let mesh = load_obj(FULL_TRIANGLE).unwrap();
    assert_eq!(mesh.positions.len(), 3);
    assert_eq!(mesh.normals.len(), 3);
    assert_eq!(mesh.uvs.len(), 3);
    assert_eq!(mesh.indices, vec![0u32, 1, 2]);

    assert_eq!(mesh.positions[0], row(0.0, 0.0, 0.0));
    assert_eq!(mesh.positions[1], row(1.0, 0.0, 0.0));
    assert_eq!(mesh.positions[2], row(0.0, 1.0, 0.0));

    assert_eq!(mesh.normals[0], row(0.0, 0.0, 1.0));
    assert_eq!(mesh.normals[1], row(0.0, 0.0, 1.0));
    assert_eq!(mesh.normals[2], row(0.0, 0.0, 1.0));

    // The vertical flip: v-coordinates {0.0, 0.5, 1.0} come out {1.0, 0.5, 0.0};
    // u and w pass through unchanged.
    assert_eq!(mesh.uvs[0], row(0.0, 1.0, 0.0));
    assert_eq!(mesh.uvs[1], row(0.25, 0.5, 0.0));
    assert_eq!(mesh.uvs[2], row(1.0, 0.0, 0.0));
}

#[test]
fn flip_is_not_identity() {
    let input = b"v 0 0 0\nv 1 0 0\nv 0 1 0\nvt 0.5 0.25\nvn 0 0 1\nf 1/1/1 2/1/1 3/1/1\n";
    let mesh = load_obj(input).unwrap();
    assert_eq!(mesh.uvs[0].0, bits(0.5));
    assert_eq!(mesh.uvs[0].1, bits(0.75));
}

#[test]
fn mixed_position_only_and_textured_drops_to_tier_one() {
    let input = b"v 0 0 0\nv 1 0 0\nv 0 1 0\nv 0 0 1\nv 1 0 1\nv 0 1 1\nvt 0.5 0.5\nvn 0 0 1\nf 1 2 3\nf 4/1/1 5/1/1 6/1/1\n";
    let mesh = load_obj(input).unwrap();
    // The position-only shape keeps every raw position record.
    assert_eq!(mesh.positions.len(), 6);
    assert_eq!(mesh.normals.len(), 6);
    assert_eq!(mesh.uvs.len(), 6);
    assert_eq!(mesh.indices, vec![0u32, 1, 2, 3, 4, 5]);
    // Normals and texture coordinates are zeroed even for the face that had
    // richer source data.
    for i in 0..6 {
        assert_eq!(mesh.normals[i], (0, 0, 0));
        assert_eq!(mesh.uvs[i], (0, 0, 0));
    }
    assert_eq!(mesh.positions[4], row(1.0, 0.0, 1.0));
}

#[test]
fn normals_pass_through_at_tier_two() {
    let input = b"v 0 0 0\nv 1 0 0\nv 0 1 0\nvn 0.5 0.25 0.125\nf 1//1 2//1 3//1\n";
    let mesh = load_obj(input).unwrap();
    assert_eq!(mesh.positions.len(), 3);
    assert_eq!(mesh.indices, vec![0u32, 1, 2]);
    for i in 0..3 {
        assert_eq!(mesh.normals[i], row(0.5, 0.25, 0.125));
        assert_eq!(mesh.uvs[i], (0, 0, 0));
    }
}

#[test]
fn empty_input_yields_empty_buffers() {
    let mesh = load_obj(b"").unwrap();
    assert_eq!(mesh.positions.len(), 0);
    assert_eq!(mesh.normals.len(), 0);
    assert_eq!(mesh.uvs.len(), 0);
    assert_eq!(mesh.indices.len(), 0);

    let mesh = load_obj(b"# a comment and nothing else\n").unwrap();
    assert_eq!(mesh.positions.len(), 0);
    assert_eq!(mesh.indices.len(), 0);
}

#[test]
fn malformed_input_fails_with_parse_error() {
    // A position record with too few components.
    let err = load_obj(b"v 1.0 2.0\n").unwrap_err();
    assert!(matches!(err, ObjLoadError::Gltf(_)));

    // A face referencing positions that do not exist.
    let err = load_obj(b"f 1 2 3\n").unwrap_err();
    assert!(matches!(err, ObjLoadError::Gltf(_)));

    // A truncated statement.
    let err = load_obj(b"v 1.0 2.0 3.0\nf\n").unwrap_err();
    assert!(matches!(err, ObjLoadError::Gltf(_)));
}

#[test]
fn malformed_input_leaves_mesh_untouched() {
    let mut mesh = MeshData::new();
    assert!(load_obj_from_bytes(FULL_TRIANGLE, &mut mesh).is_ok());
    let saved = mesh.positions.clone();
    let r = load_obj_from_bytes(b"v 1.0\n", &mut mesh);
    assert!(r.is_err());
    assert_eq!(mesh.positions, saved);
}

#[test]
fn untriangulated_face_fails() {
    let input = b"v 0 0 0\nv 1 0 0\nv 1 1 0\nv 0 1 0\nvt 0 0\nvn 0 0 1\nf 1/1/1 2/1/1 3/1/1 4/1/1\n";
    let err = load_obj(input).unwrap_err();
    assert!(matches!(err, ObjLoadError::Gltf(_)));
}

#[test]
fn position_texture_only_file_fails() {
    // Position-and-texture polygons leave the tier at 3, and the
    // fully-textured re-projection then rejects them for their missing
    // normals: the deliberate gap in the classifier's fold.
    let input = b"v 0 0 0\nv 1 0 0\nv 0 1 0\nvt 0.5 0.5\nf 1/1 2/1 3/1\n";
    let err = load_obj(input).unwrap_err();
    assert!(matches!(err, ObjLoadError::Gltf(_)));
}

#[test]
fn conversion_is_idempotent() {
    let a = load_obj(FULL_TRIANGLE).unwrap();
    let b = load_obj(FULL_TRIANGLE).unwrap();
    assert_eq!(a.positions, b.positions);
    assert_eq!(a.normals, b.normals);
    assert_eq!(a.uvs, b.uvs);
    assert_eq!(a.indices, b.indices);
}

#[test]
fn conversion_overwrites_prior_content() {
    let mut mesh = MeshData::new();
    assert!(load_obj_from_bytes(FULL_TRIANGLE, &mut mesh).is_ok());
    let tier2 = b"v 0 0 0\nv 1 0 0\nv 0 1 0\nvn 1 0 0\nf 1//1 2//1 3//1\n";
    assert!(load_obj_from_bytes(tier2, &mut mesh).is_ok());
    let fresh = load_obj(tier2).unwrap();
    assert_eq!(mesh.positions, fresh.positions);
    assert_eq!(mesh.normals, fresh.normals);
    assert_eq!(mesh.uvs, fresh.uvs);
    assert_eq!(mesh.indices, fresh.indices);
}

#[test]
fn buffer_lengths_agree_and_indices_form_triangles() {
    let inputs: Vec<&[u8]> = vec![
        &b""[..],
        FULL_TRIANGLE,
        b"v 0 0 0\nv 1 0 0\nv 0 1 0\nvn 0 0 1\nf 1//1 2//1 3//1\n",
        b"v 0 0 0\nv 1 0 0\nv 0 1 0\nv 0 0 1\nf 1 2 3\nf 2 3 4\n",
    ];
    for input in inputs {
        let mesh = load_obj(input).unwrap();
        assert_eq!(mesh.normals.len(), mesh.positions.len());
        assert_eq!(mesh.uvs.len(), mesh.positions.len());
        assert_eq!(mesh.indices.len() % 3, 0);
        for &ix in &mesh.indices {
            assert!((ix as usize) < mesh.positions.len());
        }
    }
}

#[test]
fn unknown_vertex_format_guard() {
    let mut mesh = MeshData::new();
    let r = build_mesh(FULL_TRIANGLE, 0, &mut mesh);
    assert!(matches!(r, Err(ObjLoadError::UnknownVertexFormat)));
    let r = build_mesh(FULL_TRIANGLE, 4, &mut mesh);
    assert!(matches!(r, Err(ObjLoadError::UnknownVertexFormat)));
    assert_eq!(mesh.positions.len(), 0);
    assert_eq!(mesh.indices.len(), 0);
}

#[test]
fn build_mesh_at_explicit_tiers() {
    // The same fully-textured file re-projected at each tier.
    let mut mesh = MeshData::new();
    assert!(build_mesh(FULL_TRIANGLE, 1, &mut mesh).is_ok());
    assert_eq!(mesh.positions.len(), 3);
    assert_eq!(mesh.normals, vec![(0, 0, 0); 3]);
    assert_eq!(mesh.uvs, vec![(0, 0, 0); 3]);

    assert!(build_mesh(FULL_TRIANGLE, 2, &mut mesh).is_ok());
    assert_eq!(mesh.normals, vec![row(0.0, 0.0, 1.0); 3]);
    assert_eq!(mesh.uvs, vec![(0, 0, 0); 3]);

    assert!(build_mesh(FULL_TRIANGLE, 3, &mut mesh).is_ok());
    assert_eq!(mesh.uvs[0], row(0.0, 1.0, 0.0));
}

#[test]
fn loader_entry_point_converts() {
    let loader = ObjLoader;
    let mesh = loader.load(FULL_TRIANGLE).unwrap();
    assert_eq!(mesh.indices, vec![0u32, 1, 2]);
    assert!(matches!(loader.load(b"v 1.0\n"), Err(ObjLoadError::Gltf(_))));
}

#[test]
fn unsupported_statements_are_rejected() {
    // Statements of the OBJ grammar the parser has no support for must come
    // back as parse failures, whatever else the file holds.
    let inputs: Vec<&[u8]> = vec![
        b"curv 1 2\n",
        b"v 1 0 0\nend\n",
        b"cstype bezier\n",
        b"cstype rat bspline\n",
        b"deg 3\n",
        b"sp 1",
        b"shadow_obj shadow.obj\n",
        b"v 0 0 0\nv 1 0 0\nv 0 1 0\nf 1 2 3\nlod 50\n",
        b"  \t con 1 2\n",
    ];
    for input in inputs {
        assert!(matches!(load_obj(input), Err(ObjLoadError::Gltf(_))));
    }
}

#[test]
fn unsupported_keyword_as_argument_is_fine() {
    // Only a logical line's first token is a statement: an object named
    // like an unsupported statement parses.
    let mesh = load_obj(b"o end\n").unwrap();
    assert_eq!(mesh.positions.len(), 0);

    // A commented-out statement is no statement.
    let mesh = load_obj(b"# curv 1 2\nv 1 2 3\n").unwrap();
    assert_eq!(mesh.indices.len(), 0);
}

#[test]
fn continuation_carries_the_statement() {
    // A blank line ending in a backslash takes its statement from the next
    // physical line.
    assert!(matches!(load_obj(b" \\\ncurv 1 2\n"), Err(ObjLoadError::Gltf(_))));

    // A face spread over two physical lines still parses as one statement,
    // and its arguments may look like statements.
    let input = b"v 0 0 0\nv 1 0 0\nv 0 1 0\nf 1 2 \\\n3\n";
    let mesh = load_obj(input).unwrap();
    assert_eq!(mesh.indices, vec![0u32, 1, 2]);
}

#[test]
fn nan_texture_coordinate_flips_to_canonical_nan() {
    let input = b"v 0 0 0\nv 1 0 0\nv 0 1 0\nvt 0 nan\nvn 0 0 1\nf 1/1/1 2/1/1 3/1/1\n";
    let mesh = load_obj(input).unwrap();
    assert_eq!(mesh.uvs[0].0, bits(0.0));
    assert_eq!(mesh.uvs[0].1, 0x7FC0_0000);
}

#[test]
fn loader_extensions() {
    let loader = ObjLoader;
    assert_eq!(loader.extensions(), vec!["obj"]);
}
