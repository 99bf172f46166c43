use vstd::prelude::*;

use crate::cell::TopologyError;

verus! {

/// Offset in the concatenated face stream at which the record of face `f`
/// starts. Each record is one leading entry followed by `orders[f]` vertex
/// indices.
pub open spec fn face_start(orders: Seq<i32>, f: int) -> int
    decreases f,
{
    if f <= 0 {
        0
    } else {
        face_start(orders, f - 1) + orders[f - 1] + 1
    }
}

/// The per-face counts describe a stream of exactly `stream_len` entries.
pub open spec fn stream_fits(orders: Seq<i32>, stream_len: int) -> bool {
    &&& forall|f: int| 0 <= f < orders.len() ==> orders[f] >= 0
    &&& face_start(orders, orders.len() as int) == stream_len
}

/// The vertex-index cycle of face `f` read out of the stream.
pub open spec fn stream_face(orders: Seq<i32>, stream: Seq<i32>, f: int) -> Seq<i32> {
    stream.subrange(face_start(orders, f) + 1, face_start(orders, f + 1))
}

proof fn lemma_face_start_grows(orders: Seq<i32>, f: int, g: int)
    requires
        0 <= f <= g <= orders.len(),
        forall|h: int| f <= h < g ==> orders[h] >= 0,
    ensures
        face_start(orders, g) >= face_start(orders, f) + (g - f),
    decreases g - f,
{
    if g > f {
        lemma_face_start_grows(orders, f, g - 1);
    }
}

/// Cuts the concatenated face stream of a cell into one vertex-index cycle
/// per face. `orders[f]` is the number of vertices of face `f`; its record in
/// the stream is a leading entry followed by those vertex indices. Fails
/// when a count is negative or when the counts do not use up the stream
/// exactly.
pub fn split_face_stream(orders: &Vec<i32>, stream: &Vec<i32>) -> (r: Result<
    Vec<Vec<i32>>,
    TopologyError,
>)
    ensures
        r is Ok <==> stream_fits(orders@, stream.len() as int),
        r matches Err(e) ==> e == TopologyError::FaceStreamMismatch,
        r matches Ok(faces) ==> {
            &&& faces.len() == orders.len()
            &&& forall|f: int|
                0 <= f < faces.len() ==> (#[trigger] faces[f])@ == stream_face(
                    orders@,
                    stream@,
                    f,
                )
        },
{
    let mut faces: Vec<Vec<i32>> = Vec::new();
    let mut cursor: usize = 0;
    let mut f: usize = 0;
    while f < orders.len()
        invariant
            f <= orders.len(),
            cursor == face_start(orders@, f as int),
            cursor <= stream.len(),
            forall|g: int| 0 <= g < f ==> orders[g] >= 0,
            faces.len() == f,
            forall|g: int|
                0 <= g < f ==> (#[trigger] faces[g])@ == stream_face(orders@, stream@, g),
        decreases orders.len() - f,
    {
        let ord = orders[f];
        if ord < 0 {
            return Err(TopologyError::FaceStreamMismatch);
        }
        let ord = ord as usize;
        if stream.len() - cursor <= ord {
            proof {
                if forall|h: int| 0 <= h < orders.len() ==> orders[h] >= 0 {
                    lemma_face_start_grows(orders@, f + 1, orders.len() as int);
                }
            }
            return Err(TopologyError::FaceStreamMismatch);
        }
        let mut face: Vec<i32> = Vec::new();
        let mut z: usize = 0;
        while z < ord
            invariant
                z <= ord,
                cursor + ord < stream.len(),
                face@ =~= stream@.subrange(cursor + 1, cursor + 1 + z),
            decreases ord - z,
        {
            face.push(stream[cursor + 1 + z]);
            z = z + 1;
        }
        faces.push(face);
        cursor = cursor + 1 + ord;
        f = f + 1;
    }
    if cursor != stream.len() {
        return Err(TopologyError::FaceStreamMismatch);
    }
    Ok(faces)
}

/// Groups a flat coordinate array into consecutive triples. Fails when the
/// length is not a multiple of three.
pub fn group_triples<T: Copy>(flat: &Vec<T>) -> (r: Result<Vec<(T, T, T)>, TopologyError>)
    ensures
        r is Err <==> flat.len() % 3 != 0,
        r matches Err(e) ==> e == TopologyError::RaggedCoordinates,
        r matches Ok(v) ==> {
            &&& 3 * v.len() == flat.len()
            &&& forall|t: int|
                0 <= t < v.len() ==> #[trigger] v[t] == (
                    flat[3 * t],
                    flat[3 * t + 1],
                    flat[3 * t + 2],
                )
        },
{
    if flat.len() % 3 != 0 {
        return Err(TopologyError::RaggedCoordinates);
    }
    let mut v: Vec<(T, T, T)> = Vec::new();
    let mut base: usize = 0;
    while flat.len() - base >= 3
        invariant
            flat.len() % 3 == 0,
            base == 3 * v.len(),
            base <= flat.len(),
            forall|t: int|
                0 <= t < v.len() ==> #[trigger] v[t] == (
                    flat[3 * t],
                    flat[3 * t + 1],
                    flat[3 * t + 2],
                ),
        decreases flat.len() - base,
    {
        v.push((flat[base], flat[base + 1], flat[base + 2]));
        base = base + 3;
    }
    Ok(v)
}

} // verus!
