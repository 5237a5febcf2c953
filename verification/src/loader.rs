//! The conversion core: classify the vertex capability tier common to every
//! polygon of an OBJ file, then build the four mesh buffers at that tier.

use vstd::prelude::*;

use crate::mesh::{
    set_mesh_indices, set_normal_data, set_position_data, set_uv_data, zero_rows, zero_seq,
    MeshData,
};
use crate::obj_api::{
    flip_bits, flip_rows, load_tier1, load_tier2, load_tier3, load_tier3_flips, load_tier3_uvs,
    parse_polygon_kinds, raw_kinds, tier1_model, tier2_model, tier3_model,
    unsupported_statement_error, KIND_P, KIND_PN, KIND_PTN,
};
use crate::prescan::{prescan_ok, scan_statements};

verus! {

/// Loads OBJ byte buffers into [`MeshData`]; the host engine dispatches files
/// with the `obj` extension here.
pub struct ObjLoader;

/// A failed conversion.
#[derive(Debug)]
pub enum ObjLoadError {
    /// The obj crate rejected the byte buffer as malformed.
    Gltf(obj::ObjError),
    /// The classifier produced a tier outside {1, 2, 3}; unreachable through
    /// [`load_obj_from_bytes`], but the builder guards against it explicitly.
    UnknownVertexFormat,
}

/// The tier a single polygon caps the file at: a position-only polygon allows
/// tier 1 at most, a position-and-normal polygon tier 2 at most, and any other
/// polygon leaves the tier unconstrained.
pub open spec fn tier_cap(kind: u8) -> int {
    if kind == KIND_P {
        1int
    } else if kind == KIND_PN {
        2int
    } else {
        3int
    }
}

/// The capability tier of a whole file: the minimum of every polygon's cap,
/// starting from 3 (the most complete shape) on an empty file.
pub open spec fn tier_spec(kinds: Seq<u8>) -> int
    decreases kinds.len(),
{
    if kinds.len() == 0 {
        3int
    } else {
        let rest = tier_spec(kinds.drop_last());
        let cap = tier_cap(kinds.last());
        if cap < rest {
            cap
        } else {
            rest
        }
    }
}

/// The tier is decided by which polygon kinds occur, not where: 1 as soon as
/// any position-only polygon occurs, else 2 as soon as any
/// position-and-normal polygon occurs, else 3. In particular the scanning
/// order never matters.
pub proof fn lemma_tier_characterization(kinds: Seq<u8>)
    ensures
        tier_spec(kinds) == (if kinds.contains(KIND_P) {
            1int
        } else if kinds.contains(KIND_PN) {
            2int
        } else {
            3int
        }),
    decreases kinds.len(),
{
    if kinds.len() == 0 {
    } else {
        let prefix = kinds.drop_last();
        lemma_tier_characterization(prefix);
        assert forall|x: u8| #[trigger] prefix.contains(x) implies kinds.contains(x) by {
            let i = choose|i: int| 0 <= i < prefix.len() && prefix[i] == x;
            assert(kinds[i] == x);
        };
        assert(kinds[kinds.len() - 1] == kinds.last());
        assert(kinds.contains(kinds.last()));
        assert forall|x: u8| #[trigger] kinds.contains(x) && kinds.last() != x
            implies prefix.contains(x) by {
            let i = choose|i: int| 0 <= i < kinds.len() && kinds[i] == x;
            assert(prefix[i] == x);
        };
    }
}

/// The Format Classifier: scan all polygon kind tags once and return the
/// weakest capability tier they admit, 3 for an empty list.
pub fn classify_format(kinds: &Vec<u8>) -> (tier: u8)
    ensures
        tier as int == tier_spec(kinds@),
        1 <= tier <= 3,
{
    let mut pnt: u8 = 3;
    let mut i: usize = 0;
    proof {
        assert(kinds@.take(0) =~= Seq::<u8>::empty());
    }
    while i < kinds.len()
        invariant
            i <= kinds.len(),
            pnt as int == tier_spec(kinds@.take(i as int)),
            1 <= pnt <= 3,
        decreases kinds.len() - i,
    {
        let k = kinds[i];
        if k == KIND_P {
            if pnt > 1 {
                pnt = 1;
            }
        } else if k == KIND_PN {
            if pnt > 2 {
                pnt = 2;
            }
        }
        i = i + 1;
        proof {
            assert(kinds@.take(i as int).drop_last() =~= kinds@.take(i as int - 1));
            assert(kinds@.take(i as int).last() == kinds@[i as int - 1]);
        }
    }
    proof {
        assert(kinds@.take(kinds@.len() as int) =~= kinds@);
    }
    pnt
}

/// The tier of a parsed byte buffer: the classifier's result on its polygon
/// kind tags. Meaningful only when `raw_kinds(b)` is `Some`.
pub open spec fn bytes_tier(b: Seq<u8>) -> int {
    tier_spec(raw_kinds(b)->0)
}

/// When a conversion of `b` succeeds: the parse succeeds, and the typed
/// re-projection at the classified tier succeeds.
pub open spec fn conversion_ok(b: Seq<u8>) -> bool {
    &&& raw_kinds(b) is Some
    &&& bytes_tier(b) == 1 ==> tier1_model(b) is Some
    &&& bytes_tier(b) == 2 ==> tier2_model(b) is Some
    &&& bytes_tier(b) == 3 ==> tier3_model(b) is Some
}

/// The position buffer a successful conversion of `b` carries.
pub open spec fn built_positions(b: Seq<u8>) -> Seq<(u32, u32, u32)> {
    if bytes_tier(b) == 1 {
        (tier1_model(b)->0).0
    } else if bytes_tier(b) == 2 {
        (tier2_model(b)->0).0
    } else {
        (tier3_model(b)->0).0
    }
}

/// The normal buffer a successful conversion of `b` carries: the source
/// normals at tier 2 and 3, zero rows at tier 1.
pub open spec fn built_normals(b: Seq<u8>) -> Seq<(u32, u32, u32)> {
    if bytes_tier(b) == 1 {
        zero_seq(built_positions(b).len())
    } else if bytes_tier(b) == 2 {
        (tier2_model(b)->0).1
    } else {
        (tier3_model(b)->0).1
    }
}

/// The texture-coordinate buffer a successful conversion of `b` carries: the
/// source rows with the vertical flip at tier 3, zero rows below.
pub open spec fn built_uvs(b: Seq<u8>) -> Seq<(u32, u32, u32)> {
    if bytes_tier(b) == 3 {
        flip_rows((tier3_model(b)->0).2)
    } else {
        zero_seq(built_positions(b).len())
    }
}

/// The triangle index buffer a successful conversion of `b` carries,
/// verbatim from the typed re-projection.
pub open spec fn built_indices(b: Seq<u8>) -> Seq<u32> {
    if bytes_tier(b) == 1 {
        (tier1_model(b)->0).1
    } else if bytes_tier(b) == 2 {
        (tier2_model(b)->0).2
    } else {
        (tier3_model(b)->0).3
    }
}

/// `m` holds exactly the buffers a successful conversion of `b` produces.
pub open spec fn is_conversion_of(m: MeshData, b: Seq<u8>) -> bool {
    &&& m.positions@ == built_positions(b)
    &&& m.normals@ == built_normals(b)
    &&& m.uvs@ == built_uvs(b)
    &&& m.indices@ == built_indices(b)
}

/// Apply the texture-coordinate flip to the source rows: each row keeps its
/// first and third component and takes its flipped second component from
/// `flips`.
fn flip_uv_rows(rows: &Vec<(u32, u32, u32)>, flips: &Vec<u32>) -> (r: Vec<(u32, u32, u32)>)
    requires
        flips@.len() == rows@.len(),
        forall|i: int| 0 <= i < rows@.len() ==> flips@[i] == flip_bits(rows@[i].1),
    ensures
        r@ == flip_rows(rows@),
{
    let mut r: Vec<(u32, u32, u32)> = Vec::new();
    let mut i: usize = 0;
    proof {
        assert(r@ =~= flip_rows(rows@).take(0));
    }
    while i < rows.len()
        invariant
            i <= rows@.len(),
            flips@.len() == rows@.len(),
            forall|j: int| 0 <= j < rows@.len() ==> flips@[j] == flip_bits(rows@[j].1),
            r@ == flip_rows(rows@).take(i as int),
        decreases rows@.len() - i,
    {
        let row = rows[i];
        r.push((row.0, flips[i], row.2));
        i = i + 1;
        proof {
            assert(r@ =~= flip_rows(rows@).take(i as int));
        }
    }
    proof {
        assert(flip_rows(rows@).take(rows@.len() as int) =~= flip_rows(rows@));
    }
    r
}

/// The Mesh Builder: re-project the byte buffer at tier `pnt` and write the
/// four buffers into `mesh`, overwriting its prior content. Any tier outside
/// {1, 2, 3} is refused as [`ObjLoadError::UnknownVertexFormat`]; a tier whose
/// re-projection the obj crate refuses propagates as [`ObjLoadError::Gltf`],
/// leaving the mesh untouched.
pub fn build_mesh(bytes: &[u8], pnt: u8, mesh: &mut MeshData) -> (r: Result<(), ObjLoadError>)
    requires
        prescan_ok(bytes@),
    ensures
        pnt == 1 ==> (r is Ok <==> tier1_model(bytes@) is Some),
        pnt == 2 ==> (r is Ok <==> tier2_model(bytes@) is Some),
        pnt == 3 ==> (r is Ok <==> tier3_model(bytes@) is Some),
        !(1 <= pnt <= 3) ==> (r matches Err(e) && e is UnknownVertexFormat),
        (1 <= pnt <= 3 && r is Err) ==> r->Err_0 is Gltf,
        r is Err ==> *final(mesh) == *old(mesh),
        (r is Ok && pnt == 1) ==> {
            let m = tier1_model(bytes@)->0;
            &&& final(mesh).positions@ == m.0
            &&& final(mesh).normals@ == zero_seq(m.0.len())
            &&& final(mesh).uvs@ == zero_seq(m.0.len())
            &&& final(mesh).indices@ == m.1
        },
        (r is Ok && pnt == 2) ==> {
            let m = tier2_model(bytes@)->0;
            &&& final(mesh).positions@ == m.0
            &&& final(mesh).normals@ == m.1
            &&& final(mesh).uvs@ == zero_seq(m.0.len())
            &&& final(mesh).indices@ == m.2
        },
        (r is Ok && pnt == 3) ==> {
            let m = tier3_model(bytes@)->0;
            &&& final(mesh).positions@ == m.0
            &&& final(mesh).normals@ == m.1
            &&& final(mesh).uvs@ == flip_rows(m.2)
            &&& final(mesh).indices@ == m.3
        },
        r is Ok ==> final(mesh).wf(),
        (pnt == 3 && (raw_kinds(bytes@) matches Some(ks) && ks.len() == 0)) ==> (r is Ok
            && final(mesh).positions@.len() == 0 && final(mesh).normals@.len() == 0
            && final(mesh).uvs@.len() == 0 && final(mesh).indices@.len() == 0),
{
    match pnt {
        1u8 => {
            let (positions, indices) = match load_tier1(bytes) {
                Ok(m) => m,
                Err(e) => { return Err(ObjLoadError::Gltf(e)) },
            };
            let n = positions.len();
            set_position_data(mesh, positions);
            set_normal_data(mesh, zero_rows(n));
            set_uv_data(mesh, zero_rows(n));
            set_mesh_indices(mesh, indices);
            Ok(())
        },
        2u8 => {
            let (positions, normals, indices) = match load_tier2(bytes) {
                Ok(m) => m,
                Err(e) => { return Err(ObjLoadError::Gltf(e)) },
            };
            let n = positions.len();
            set_position_data(mesh, positions);
            set_normal_data(mesh, normals);
            set_uv_data(mesh, zero_rows(n));
            set_mesh_indices(mesh, indices);
            Ok(())
        },
        3u8 => {
            let (positions, normals, indices) = match load_tier3(bytes) {
                Ok(m) => m,
                Err(e) => { return Err(ObjLoadError::Gltf(e)) },
            };
            let uvs_src = match load_tier3_uvs(bytes) {
                Ok(u) => u,
                Err(e) => { return Err(ObjLoadError::Gltf(e)) },
            };
            let flips = match load_tier3_flips(bytes) {
                Ok(c) => c,
                Err(e) => { return Err(ObjLoadError::Gltf(e)) },
            };
            let uvs = flip_uv_rows(&uvs_src, &flips);
            set_position_data(mesh, positions);
            set_normal_data(mesh, normals);
            set_uv_data(mesh, uvs);
            set_mesh_indices(mesh, indices);
            Ok(())
        },
        _ => Err(ObjLoadError::UnknownVertexFormat),
    }
}

/// The whole conversion: refuse a buffer holding statements the parser
/// aborts on, parse the rest, classify the tier, and write the four buffers
/// into `mesh`. Succeeds exactly when the scan passes and the obj crate
/// accepts the buffer at the classified tier; every failure is
/// [`ObjLoadError::Gltf`] and leaves the mesh untouched. An accepted buffer
/// without polygons yields empty buffers.
pub fn load_obj_from_bytes(bytes: &[u8], mesh: &mut MeshData) -> (r: Result<(), ObjLoadError>)
    ensures
        r is Ok <==> prescan_ok(bytes@) && conversion_ok(bytes@),
        r is Ok ==> is_conversion_of(*final(mesh), bytes@),
        r is Ok ==> final(mesh).wf(),
        r is Err ==> r->Err_0 is Gltf && *final(mesh) == *old(mesh),
        (prescan_ok(bytes@) && (raw_kinds(bytes@) matches Some(ks) && ks.len() == 0)) ==> (r is Ok
            && final(mesh).positions@.len() == 0 && final(mesh).indices@.len() == 0),
{
    if !scan_statements(bytes) {
        return Err(ObjLoadError::Gltf(unsupported_statement_error()));
    }
    let kinds = match parse_polygon_kinds(bytes) {
        Ok(ks) => ks,
        Err(e) => { return Err(ObjLoadError::Gltf(e)) },
    };
    let pnt = classify_format(&kinds);
    build_mesh(bytes, pnt, mesh)
}

/// The compute part of a load request: convert the byte buffer into a fresh
/// mesh. On failure no mesh is produced at all.
pub fn load_obj(bytes: &[u8]) -> (r: Result<MeshData, ObjLoadError>)
    ensures
        r is Ok <==> prescan_ok(bytes@) && conversion_ok(bytes@),
        r matches Ok(m) ==> is_conversion_of(m, bytes@) && m.wf(),
        r is Err ==> r->Err_0 is Gltf,
{
    let mut mesh = MeshData::new();
    match load_obj_from_bytes(bytes, &mut mesh) {
        Ok(()) => Ok(mesh),
        Err(e) => Err(e),
    }
}

impl ObjLoader {
    /// Convert one asset's byte buffer; the engine-facing entry point.
    pub fn load(&self, bytes: &[u8]) -> (r: Result<MeshData, ObjLoadError>)
        ensures
            r is Ok <==> prescan_ok(bytes@) && conversion_ok(bytes@),
            r matches Ok(m) ==> is_conversion_of(m, bytes@) && m.wf(),
            r is Err ==> r->Err_0 is Gltf,
    {
        load_obj(bytes)
    }

    /// The file extensions this loader handles.
    pub fn extensions(&self) -> (r: Vec<&'static str>)
        ensures
            r@.len() == 1,
            r@[0]@ == "obj"@,
    {
        let mut v: Vec<&'static str> = Vec::new();
        v.push("obj");
        v
    }
}

/// The classifier is a commutative reduction: two files whose polygon kind
/// tags are rearrangements of one another classify to the same tier.
pub proof fn lemma_tier_order_independent(s: Seq<u8>, t: Seq<u8>)
    requires
        s.to_multiset() == t.to_multiset(),
    ensures
        tier_spec(s) == tier_spec(t),
{
    lemma_tier_characterization(s);
    lemma_tier_characterization(t);
    vstd::seq_lib::to_multiset_contains(s, KIND_P);
    vstd::seq_lib::to_multiset_contains(t, KIND_P);
    vstd::seq_lib::to_multiset_contains(s, KIND_PN);
    vstd::seq_lib::to_multiset_contains(t, KIND_PN);
}

/// Converting the same byte buffer twice yields identical buffers: every
/// buffer of a successful conversion is a function of the bytes alone.
pub proof fn lemma_conversion_deterministic(b: Seq<u8>, m1: MeshData, m2: MeshData)
    requires
        is_conversion_of(m1, b),
        is_conversion_of(m2, b),
    ensures
        m1.positions@ == m2.positions@,
        m1.normals@ == m2.normals@,
        m1.uvs@ == m2.uvs@,
        m1.indices@ == m2.indices@,
{
}

/// When every polygon carries position, normal and texture data, the tier is
/// 3 and the texture-coordinate buffer is the file's rows with the second
/// component of each replaced by its complement, elementwise.
pub proof fn lemma_fully_textured(b: Seq<u8>)
    requires
        raw_kinds(b) is Some,
        forall|i: int| 0 <= i < (raw_kinds(b)->0).len() ==> (raw_kinds(b)->0)[i] == KIND_PTN,
    ensures
        bytes_tier(b) == 3,
        built_uvs(b).len() == (tier3_model(b)->0).2.len(),
        forall|i: int|
            0 <= i < built_uvs(b).len() ==> built_uvs(b)[i] == (
                (tier3_model(b)->0).2[i].0,
                flip_bits((tier3_model(b)->0).2[i].1),
                (tier3_model(b)->0).2[i].2,
            ),
{
    let ks = raw_kinds(b)->0;
    lemma_tier_characterization(ks);
    if ks.contains(KIND_P) {
        let i = choose|i: int| 0 <= i < ks.len() && ks[i] == KIND_P;
        assert(false);
    }
    if ks.contains(KIND_PN) {
        let i = choose|i: int| 0 <= i < ks.len() && ks[i] == KIND_PN;
        assert(false);
    }
}

/// One position-only polygon forces tier 1 however many richer polygons the
/// file also holds, and the normal and texture-coordinate buffers are all
/// zero rows.
pub proof fn lemma_position_only_dominates(b: Seq<u8>, witness: int)
    requires
        raw_kinds(b) is Some,
        0 <= witness < (raw_kinds(b)->0).len(),
        (raw_kinds(b)->0)[witness] == KIND_P,
    ensures
        bytes_tier(b) == 1,
        built_normals(b) == zero_seq(built_positions(b).len()),
        built_uvs(b) == zero_seq(built_positions(b).len()),
{
    let ks = raw_kinds(b)->0;
    assert(ks.contains(KIND_P)) by {
        assert(ks[witness] == KIND_P);
    };
    lemma_tier_characterization(ks);
}

/// A file of position-and-normal polygons alone sits at tier 2: the normal
/// buffer passes the source normals through, the texture-coordinate buffer is
/// all zero rows.
pub proof fn lemma_normals_without_textures(b: Seq<u8>)
    requires
        raw_kinds(b) is Some,
        (raw_kinds(b)->0).len() > 0,
        forall|i: int| 0 <= i < (raw_kinds(b)->0).len() ==> (raw_kinds(b)->0)[i] == KIND_PN,
    ensures
        bytes_tier(b) == 2,
        built_normals(b) == (tier2_model(b)->0).1,
        built_uvs(b) == zero_seq(built_positions(b).len()),
{
    let ks = raw_kinds(b)->0;
    lemma_tier_characterization(ks);
    if ks.contains(KIND_P) {
        let i = choose|i: int| 0 <= i < ks.len() && ks[i] == KIND_P;
        assert(false);
    }
    assert(ks.contains(KIND_PN)) by {
        assert(ks[0] == KIND_PN);
    };
}

} // verus!
