//! Trusted interface to the obj crate, which parses OBJ text and resolves it
//! into typed vertex lists with a flat triangle-list index buffer.
//!
//! Everything the obj crate computes is deterministic in the input bytes, so
//! each call's outcome is given an uninterpreted name over those bytes; the
//! wrappers' contracts speak only of those names, and the verified conversion
//! is proved from them.
//!
//! The parser aborts the process on the OBJ statements it has not
//! implemented, so every wrapper that hands it bytes requires
//! [`prescan_ok`]: the verified scan that refuses those statements first.

use vstd::prelude::*;

use crate::prescan::prescan_ok;

verus! {

#[verifier::external_type_specification]
#[verifier::external_body]
pub struct ExObjError(obj::ObjError);

/// Tag for a polygon whose vertex references carry position data only.
pub const KIND_P: u8 = 1;

/// Tag for a polygon whose vertex references carry position and texture data.
pub const KIND_PT: u8 = 2;

/// Tag for a polygon whose vertex references carry position and normal data.
pub const KIND_PN: u8 = 3;

/// Tag for a polygon whose vertex references carry position, texture and
/// normal data.
pub const KIND_PTN: u8 = 4;

/// What obj::raw::parse_obj makes of the bytes: `None` when it rejects them,
/// otherwise the attribute-combination tag of each polygon record, in file
/// order.
pub uninterp spec fn raw_kinds(bytes: Seq<u8>) -> Option<Seq<u8>>;

/// What obj::load_obj makes of the bytes at the position-only vertex shape:
/// `None` when it fails, otherwise the position rows (as component bit
/// patterns) and the triangle-corner index list.
pub uninterp spec fn tier1_model(bytes: Seq<u8>) -> Option<(Seq<(u32, u32, u32)>, Seq<u32>)>;

/// What obj::load_obj makes of the bytes at the position-and-normal vertex
/// shape: `None` when it fails, otherwise the position rows, the normal rows
/// and the triangle-corner index list.
pub uninterp spec fn tier2_model(bytes: Seq<u8>) -> Option<
    (Seq<(u32, u32, u32)>, Seq<(u32, u32, u32)>, Seq<u32>),
>;

/// What obj::load_obj makes of the bytes at the fully-textured vertex shape:
/// `None` when it fails, otherwise the position rows, the normal rows, the
/// texture-coordinate rows exactly as the file gives them, and the
/// triangle-corner index list.
pub uninterp spec fn tier3_model(bytes: Seq<u8>) -> Option<
    (Seq<(u32, u32, u32)>, Seq<(u32, u32, u32)>, Seq<(u32, u32, u32)>, Seq<u32>),
>;

/// The bit pattern of one minus the single-precision value whose bit pattern
/// is `v`, with a difference that is not a number taken to the canonical
/// quiet-NaN pattern so that one bit pattern answers each input: the
/// texture-coordinate flip between the OBJ convention (origin bottom-left)
/// and the renderer convention (origin top-left).
pub uninterp spec fn flip_bits(v: u32) -> u32;

/// A texture-coordinate row with the flip applied: the second component of
/// each row is replaced by its complement, the others pass through.
pub open spec fn flip_rows(s: Seq<(u32, u32, u32)>) -> Seq<(u32, u32, u32)> {
    Seq::new(s.len(), |i: int| (s[i].0, flip_bits(s[i].1), s[i].2))
}

/// Relies on obj::raw::parse_obj: it parses the OBJ text into raw records and
/// fails exactly on malformed input. This wrapper keeps of the result only
/// each polygon's attribute-combination tag, one `KIND_*` value per polygon,
/// in file order.
#[verifier::external_body]
pub(crate) fn parse_polygon_kinds(bytes: &[u8]) -> (r: Result<Vec<u8>, obj::ObjError>)
    requires
        prescan_ok(bytes@),
    ensures
        r is Ok <==> raw_kinds(bytes@) is Some,
        r matches Ok(ks) ==> ks@ == raw_kinds(bytes@)->0,
{
    let raw = obj::raw::parse_obj(bytes)?;
    Ok(raw.polygons.iter().map(|p| match p {
        obj::raw::object::Polygon::P(_) => KIND_P,
        obj::raw::object::Polygon::PT(_) => KIND_PT,
        obj::raw::object::Polygon::PN(_) => KIND_PN,
        obj::raw::object::Polygon::PTN(_) => KIND_PTN,
    }).collect())
}

/// Relies on obj::load_obj at the position-only shape (obj::Position): the
/// vertex buffer holds every raw position record and the index buffer the
/// resolved triangle corners, three per face, each a valid offset into the
/// vertex buffer.
#[verifier::external_body]
pub(crate) fn load_tier1(bytes: &[u8]) -> (r: Result<
    (Vec<(u32, u32, u32)>, Vec<u32>),
    obj::ObjError,
>)
    requires
        prescan_ok(bytes@),
    ensures
        r is Ok <==> tier1_model(bytes@) is Some,
        r matches Ok(m) ==> {
            &&& m.0@ == (tier1_model(bytes@)->0).0
            &&& m.1@ == (tier1_model(bytes@)->0).1
            &&& m.1@.len() % 3 == 0
            &&& forall|i: int| 0 <= i < m.1@.len() ==> (m.1@[i] as int) < m.0@.len()
        },
{
    let o: obj::Obj<obj::Position, u32> = obj::load_obj(bytes)?;
    let positions = o.vertices.iter().map(
        |v| (v.position[0].to_bits(), v.position[1].to_bits(), v.position[2].to_bits()),
    ).collect();
    Ok((positions, o.indices))
}

/// Relies on obj::load_obj at the position-and-normal shape (obj::Vertex):
/// the vertex buffer holds one entry per distinct position/normal reference
/// pair and the index buffer the resolved triangle corners, three per face,
/// each a valid offset into the vertex buffer.
#[verifier::external_body]
pub(crate) fn load_tier2(bytes: &[u8]) -> (r: Result<
    (Vec<(u32, u32, u32)>, Vec<(u32, u32, u32)>, Vec<u32>),
    obj::ObjError,
>)
    requires
        prescan_ok(bytes@),
    ensures
        r is Ok <==> tier2_model(bytes@) is Some,
        r matches Ok(m) ==> {
            &&& m.0@ == (tier2_model(bytes@)->0).0
            &&& m.1@ == (tier2_model(bytes@)->0).1
            &&& m.2@ == (tier2_model(bytes@)->0).2
            &&& m.1@.len() == m.0@.len()
            &&& m.2@.len() % 3 == 0
            &&& forall|i: int| 0 <= i < m.2@.len() ==> (m.2@[i] as int) < m.0@.len()
        },
{
    let o: obj::Obj<obj::Vertex, u32> = obj::load_obj(bytes)?;
    let positions = o.vertices.iter().map(
        |v| (v.position[0].to_bits(), v.position[1].to_bits(), v.position[2].to_bits()),
    ).collect();
    let normals = o.vertices.iter().map(
        |v| (v.normal[0].to_bits(), v.normal[1].to_bits(), v.normal[2].to_bits()),
    ).collect();
    Ok((positions, normals, o.indices))
}

/// Relies on obj::load_obj at the fully-textured shape (obj::TexturedVertex):
/// the vertex buffer holds one entry per distinct position/texture/normal
/// reference triple and the index buffer the resolved triangle corners, three
/// per face, each a valid offset into the vertex buffer. With raw records
/// that hold no polygons at all it returns empty buffers. The
/// texture-coordinate rows of the same vertices come from [`load_tier3_uvs`].
#[verifier::external_body]
pub(crate) fn load_tier3(bytes: &[u8]) -> (r: Result<
    (Vec<(u32, u32, u32)>, Vec<(u32, u32, u32)>, Vec<u32>),
    obj::ObjError,
>)
    requires
        prescan_ok(bytes@),
    ensures
        r is Ok <==> tier3_model(bytes@) is Some,
        r matches Ok(m) ==> {
            &&& m.0@ == (tier3_model(bytes@)->0).0
            &&& m.1@ == (tier3_model(bytes@)->0).1
            &&& m.2@ == (tier3_model(bytes@)->0).3
            &&& m.1@.len() == m.0@.len()
            &&& m.2@.len() % 3 == 0
            &&& forall|i: int| 0 <= i < m.2@.len() ==> (m.2@[i] as int) < m.0@.len()
        },
        r is Ok <== (raw_kinds(bytes@) matches Some(ks) && ks.len() == 0),
        r matches Ok(m) ==> ((raw_kinds(bytes@) matches Some(ks) && ks.len() == 0) ==> (m.0@.len()
            == 0 && m.2@.len() == 0)),
{
    let o: obj::Obj<obj::TexturedVertex, u32> = obj::load_obj(bytes)?;
    let positions = o.vertices.iter().map(
        |v| (v.position[0].to_bits(), v.position[1].to_bits(), v.position[2].to_bits()),
    ).collect();
    let normals = o.vertices.iter().map(
        |v| (v.normal[0].to_bits(), v.normal[1].to_bits(), v.normal[2].to_bits()),
    ).collect();
    Ok((positions, normals, o.indices))
}

/// Relies on obj::load_obj at the fully-textured shape (obj::TexturedVertex),
/// as [`load_tier3`]: returns the file's texture-coordinate rows, one per
/// vertex, exactly as the file gives them.
#[verifier::external_body]
pub(crate) fn load_tier3_uvs(bytes: &[u8]) -> (r: Result<Vec<(u32, u32, u32)>, obj::ObjError>)
    requires
        prescan_ok(bytes@),
    ensures
        r is Ok <==> tier3_model(bytes@) is Some,
        r matches Ok(u) ==> {
            &&& u@ == (tier3_model(bytes@)->0).2
            &&& u@.len() == (tier3_model(bytes@)->0).0.len()
        },
{
    let o: obj::Obj<obj::TexturedVertex, u32> = obj::load_obj(bytes)?;
    Ok(o.vertices.iter().map(
        |v| (v.texture[0].to_bits(), v.texture[1].to_bits(), v.texture[2].to_bits()),
    ).collect())
}

/// Relies on obj::load_obj at the fully-textured shape (obj::TexturedVertex),
/// as [`load_tier3`], and on num_traits::one together with single-precision
/// subtraction, which verified code cannot perform on bit patterns: returns
/// one minus each vertex's second texture component, a difference that is
/// not a number canonicalized to the quiet-NaN pattern so that equal bytes
/// give equal bits on every machine.
#[verifier::external_body]
pub(crate) fn load_tier3_flips(bytes: &[u8]) -> (r: Result<Vec<u32>, obj::ObjError>)
    requires
        prescan_ok(bytes@),
    ensures
        r is Ok <==> tier3_model(bytes@) is Some,
        r matches Ok(c) ==> {
            &&& c@.len() == (tier3_model(bytes@)->0).2.len()
            &&& forall|i: int|
                0 <= i < c@.len() ==> c@[i] == flip_bits((tier3_model(bytes@)->0).2[i].1)
        },
{
    let o: obj::Obj<obj::TexturedVertex, u32> = obj::load_obj(bytes)?;
    Ok(o.vertices.iter().map(|v| {
        // The dead branch only pins one()'s type to the texture component's,
        // a type this crate has no name of its own for.
        let one = if true { num_traits::one() } else { v.texture[1] };
        let y = one - v.texture[1];
        if y != y { 0x7FC0_0000 } else { y.to_bits() }
    }).collect())
}

/// Relies on obj::LoadError::new: builds the diagnostic this library answers
/// a statement with that the obj crate's parser would abort on.
#[verifier::external_body]
#[allow(deprecated)]
pub(crate) fn unsupported_statement_error() -> obj::ObjError {
    obj::ObjError::Load(obj::LoadError::new(
        obj::LoadErrorKind::UnexpectedStatement,
        "Statement not supported by the parser",
    ))
}

} // verus!
