use vstd::prelude::*;

use crate::faces::{split_face_stream, stream_face, stream_fits};

verus! {

/// A tessellation engine handed back data that breaks the cell contract.
#[derive(Clone, Copy, Debug, PartialEq, Eq)]
pub enum TopologyError {
    /// The engine's cell index differs from the index of the generating point.
    IdMismatch { expected: usize, found: usize },
    /// The per-face counts and the concatenated face stream disagree.
    FaceStreamMismatch,
    /// A flat coordinate array whose length is not a multiple of three.
    RaggedCoordinates,
    /// The number of face normals differs from the number of faces.
    NormalCountMismatch { faces: usize, normals: usize },
    /// A face refers to a vertex that the cell does not have.
    FaceIndexOutOfRange,
    /// The traversal ended before every point had its cell.
    MissingCell,
    /// A result set does not hold one cell per generating point.
    CellCountMismatch { expected: usize, found: usize },
    /// A cell id outside `0..n`.
    IdOutOfRange { id: i32 },
    /// Two cells carry the same id.
    DuplicateId { id: i32 },
}

/// One convex Voronoi cell in the form shared by both engines.
///
/// `P` is the engine's 3-vector type and `S` its volume type: the record's
/// topology does not depend on them. Vertices and the centroid are offsets
/// from `position`; `faces[f]` is the vertex-index cycle of face `f` and
/// `face_normals[f]` its outward normal.
#[derive(Debug)]
pub struct VCellRaw<P, S> {
    pub id: i32,
    pub vs: Vec<P>,
    pub faces: Vec<Vec<i32>>,
    pub volume: S,
    pub position: P,
    pub centroid: P,
    pub face_normals: Vec<P>,
}

/// The faces of a cell as sequences of vertex indices.
pub open spec fn cycles_of(faces: Seq<Vec<i32>>) -> Seq<Seq<i32>> {
    faces.map_values(|f: Vec<i32>| f@)
}

/// Every vertex index of every face lies in `0..n_vertices`.
pub open spec fn cycles_in_range(cycles: Seq<Seq<i32>>, n_vertices: int) -> bool {
    forall|f: int, v: int|
        0 <= f < cycles.len() && 0 <= v < cycles[f].len() ==> 0 <= #[trigger] cycles[f][v]
            < n_vertices
}

/// Engine-side vertex indices that name a vertex of the cell and fit an `i32`.
pub open spec fn indices_fit(faces: Seq<Vec<usize>>, n_vertices: int) -> bool {
    forall|f: int, v: int|
        0 <= f < faces.len() && 0 <= v < faces[f]@.len() ==> {
            &&& #[trigger] faces[f]@[v] < n_vertices
            &&& faces[f]@[v] <= i32::MAX
        }
}

/// The faces that the face stream of a cell describes.
pub open spec fn stream_cycles(orders: Seq<i32>, stream: Seq<i32>) -> Seq<Seq<i32>> {
    Seq::new(orders.len(), |f: int| stream_face(orders, stream, f))
}

impl<P, S> VCellRaw<P, S> {
    /// One normal per face, and every face index names a vertex.
    pub open spec fn wf(&self) -> bool {
        &&& self.face_normals.len() == self.faces.len()
        &&& cycles_in_range(cycles_of(self.faces@), self.vs.len() as int)
    }
}

/// Checks that every vertex index of every face lies in `0..n_vertices`.
pub fn check_face_indices(faces: &Vec<Vec<i32>>, n_vertices: usize) -> (ok: bool)
    ensures
        ok == cycles_in_range(cycles_of(faces@), n_vertices as int),
{
    let mut f: usize = 0;
    while f < faces.len()
        invariant
            f <= faces.len(),
            cycles_in_range(cycles_of(faces@).take(f as int), n_vertices as int),
        decreases faces.len() - f,
    {
        let face = &faces[f];
        let mut v: usize = 0;
        while v < face.len()
            invariant
                f < faces.len(),
                face == faces[f as int],
                v <= face.len(),
                forall|w: int| 0 <= w < v ==> 0 <= #[trigger] face@[w] < n_vertices,
            decreases face.len() - v,
        {
            let x = face[v];
            if x < 0 || x as usize >= n_vertices {
                assert(cycles_of(faces@)[f as int][v as int] == x);
                return false;
            }
            v = v + 1;
        }
        assert(cycles_of(faces@)[f as int] == face@);
        f = f + 1;
    }
    assert(cycles_of(faces@).take(faces.len() as int) =~= cycles_of(faces@));
    true
}

/// Turns the engine's `usize` vertex indices into the record's `i32` ones,
/// refusing any index that does not name one of `n_vertices` vertices.
fn convert_face_lists(faces: &Vec<Vec<usize>>, n_vertices: usize) -> (r: Result<
    Vec<Vec<i32>>,
    TopologyError,
>)
    ensures
        r is Ok <==> indices_fit(faces@, n_vertices as int),
        r matches Err(e) ==> e == TopologyError::FaceIndexOutOfRange,
        r matches Ok(out) ==> {
            &&& out.len() == faces.len()
            &&& forall|f: int|
                0 <= f < out.len() ==> (#[trigger] out[f])@.len() == faces[f]@.len()
                    && forall|v: int|
                    0 <= v < out[f]@.len() ==> #[trigger] out[f]@[v] == faces[f]@[v] as i32
        },
{
    let mut out: Vec<Vec<i32>> = Vec::new();
    let mut f: usize = 0;
    while f < faces.len()
        invariant
            f <= faces.len(),
            out.len() == f,
            forall|g: int, v: int|
                0 <= g < f && 0 <= v < faces[g]@.len() ==> {
                    &&& #[trigger] faces[g]@[v] < n_vertices
                    &&& faces[g]@[v] <= i32::MAX
                },
            forall|g: int|
                0 <= g < f ==> (#[trigger] out[g])@.len() == faces[g]@.len() && forall|v: int|
                    0 <= v < out[g]@.len() ==> #[trigger] out[g]@[v] == faces[g]@[v] as i32,
        decreases faces.len() - f,
    {
        let face = &faces[f];
        let mut cycle: Vec<i32> = Vec::new();
        let mut v: usize = 0;
        while v < face.len()
            invariant
                f < faces.len(),
                face == faces[f as int],
                v <= face.len(),
                cycle.len() == v,
                forall|w: int|
                    0 <= w < v ==> #[trigger] face@[w] < n_vertices && face@[w] <= i32::MAX,
                forall|w: int| 0 <= w < v ==> #[trigger] cycle@[w] == face@[w] as i32,
            decreases face.len() - v,
        {
            let x = face[v];
            if x >= n_vertices || x > i32::MAX as usize {
                return Err(TopologyError::FaceIndexOutOfRange);
            }
            cycle.push(x as i32);
            v = v + 1;
        }
        out.push(cycle);
        f = f + 1;
    }
    Ok(out)
}

/// Builds the record of the cell of point `expected_id` from an engine that
/// lists each face as a cycle of vertex indices. The engine's own index for
/// the cell must equal `expected_id`, there must be one normal per face, and
/// every face index must name a vertex.
pub fn cell_from_face_lists<P, S>(
    expected_id: usize,
    engine_idx: usize,
    vs: Vec<P>,
    faces: &Vec<Vec<usize>>,
    face_normals: Vec<P>,
    volume: S,
    position: P,
    centroid: P,
) -> (r: Result<VCellRaw<P, S>, TopologyError>)
    requires
        expected_id <= i32::MAX,
    ensures
        r is Ok <==> engine_idx == expected_id && face_normals.len() == faces.len()
            && indices_fit(faces@, vs.len() as int),
        engine_idx != expected_id ==> r == Err::<VCellRaw<P, S>, TopologyError>(
            TopologyError::IdMismatch { expected: expected_id, found: engine_idx },
        ),
        engine_idx == expected_id && face_normals.len() != faces.len() ==> r == Err::<
            VCellRaw<P, S>,
            TopologyError,
        >(TopologyError::NormalCountMismatch { faces: faces.len(), normals: face_normals.len() }),
        engine_idx == expected_id && face_normals.len() == faces.len() && !indices_fit(
            faces@,
            vs.len() as int,
        ) ==> r == Err::<VCellRaw<P, S>, TopologyError>(TopologyError::FaceIndexOutOfRange),
        r matches Ok(c) ==> {
            &&& c.wf()
            &&& c.id == expected_id
            &&& c.vs@ == vs@
            &&& c.face_normals@ == face_normals@
            &&& c.volume == volume
            &&& c.position == position
            &&& c.centroid == centroid
            &&& c.faces.len() == faces.len()
            &&& forall|f: int|
                0 <= f < faces.len() ==> (#[trigger] c.faces[f])@.len() == faces[f]@.len()
                    && forall|v: int|
                    0 <= v < faces[f]@.len() ==> #[trigger] c.faces[f]@[v] == faces[f]@[v] as i32
        },
{
    if engine_idx != expected_id {
        return Err(TopologyError::IdMismatch { expected: expected_id, found: engine_idx });
    }
    if face_normals.len() != faces.len() {
        return Err(
            TopologyError::NormalCountMismatch { faces: faces.len(), normals: face_normals.len() },
        );
    }
    let converted = convert_face_lists(faces, vs.len());
    match converted {
        Err(e) => Err(e),
        Ok(cycles) => {
            let c = VCellRaw {
                id: expected_id as i32,
                vs,
                faces: cycles,
                volume,
                position,
                centroid,
                face_normals,
            };
            assert forall|f: int, v: int|
                0 <= f < cycles_of(c.faces@).len() && 0 <= v < cycles_of(c.faces@)[f].len()
                implies 0 <= #[trigger] cycles_of(c.faces@)[f][v] < c.vs.len() by {
                assert(cycles_of(c.faces@)[f] == c.faces[f]@);
                assert(c.faces[f]@[v] == faces[f]@[v] as i32);
                assert(faces[f]@[v] < c.vs.len());
            }
            Ok(c)
        },
    }
}

/// Builds the record of a cell from an engine that reports per-face vertex
/// counts and one concatenated face stream (see `split_face_stream`). There
/// must be one normal per face, and every face index must name a vertex.
pub fn cell_from_face_stream<P, S>(
    id: i32,
    vs: Vec<P>,
    orders: &Vec<i32>,
    stream: &Vec<i32>,
    face_normals: Vec<P>,
    volume: S,
    position: P,
    centroid: P,
) -> (r: Result<VCellRaw<P, S>, TopologyError>)
    ensures
        r is Ok <==> stream_fits(orders@, stream.len() as int) && face_normals.len()
            == orders.len() && cycles_in_range(stream_cycles(orders@, stream@), vs.len() as int),
        !stream_fits(orders@, stream.len() as int) ==> r == Err::<VCellRaw<P, S>, TopologyError>(
            TopologyError::FaceStreamMismatch,
        ),
        stream_fits(orders@, stream.len() as int) && face_normals.len() != orders.len() ==> r
            == Err::<VCellRaw<P, S>, TopologyError>(
            TopologyError::NormalCountMismatch { faces: orders.len(), normals: face_normals.len() },
        ),
        stream_fits(orders@, stream.len() as int) && face_normals.len() == orders.len()
            && !cycles_in_range(stream_cycles(orders@, stream@), vs.len() as int) ==> r == Err::<
            VCellRaw<P, S>,
            TopologyError,
        >(TopologyError::FaceIndexOutOfRange),
        r matches Ok(c) ==> {
            &&& c.wf()
            &&& c.id == id
            &&& c.vs@ == vs@
            &&& cycles_of(c.faces@) == stream_cycles(orders@, stream@)
            &&& c.face_normals@ == face_normals@
            &&& c.volume == volume
            &&& c.position == position
            &&& c.centroid == centroid
        },
{
    let split = split_face_stream(orders, stream);
    match split {
        Err(e) => Err(e),
        Ok(faces) => {
            assert(cycles_of(faces@) =~= stream_cycles(orders@, stream@));
            if face_normals.len() != faces.len() {
                return Err(
                    TopologyError::NormalCountMismatch {
                        faces: faces.len(),
                        normals: face_normals.len(),
                    },
                );
            }
            if !check_face_indices(&faces, vs.len()) {
                return Err(TopologyError::FaceIndexOutOfRange);
            }
            Ok(VCellRaw { id, vs, faces, volume, position, centroid, face_normals })
        },
    }
}

} // verus!
