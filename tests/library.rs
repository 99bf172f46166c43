use voro_check::cell::{cell_from_face_lists, cell_from_face_stream, TopologyError, VCellRaw};
use voro_check::faces::{group_triples, split_face_stream};
use voro_check::grid::{boundary_mask, check_container_grid, shell_cells, GenerationError, GridIndex, SHELL_MARGIN};
use voro_check::ids::check_cell_ids;
use voro_check::validate::{order_by_id, validate, Tolerance, ValidationError};

type Cell = VCellRaw<[f64; 3], f64>;

fn cell(id: i32, position: [f64; 3], volume: f64, centroid: [f64; 3]) -> Cell {
    VCellRaw {
        id,
        vs: vec![],
        faces: vec![],
        volume,
        position,
        centroid,
        face_normals: vec![],
    }
}

fn dist(a: [f64; 3], b: [f64; 3]) -> f64 {
    ((a[0] - b[0]).powi(2) + (a[1] - b[1]).powi(2) + (a[2] - b[2]).powi(2)).sqrt()
}

fn close(a: &Cell, b: &Cell) -> Option<Tolerance> {
    if (a.volume - b.volume).abs() >= 1e-3 {
        Some(Tolerance::Volume)
    } else if dist(a.position, b.position) >= 1e-5 {
        Some(Tolerance::Position)
    } else if dist(a.centroid, b.centroid) >= 1e-3 {
        Some(Tolerance::Centroid)
    } else {
        None
    }
}

fn grid_cloud(n: i32) -> Vec<Cell> {
    let mut v = vec![];
    for id in 0..n {
        let p = [(id % 3) as f64, ((id / 3) % 3) as f64, (id / 9) as f64];
        v.push(cell(id, p, 1000.0 / n as f64, [0.0, 0.0, 0.0]));
    }
    v
}

#[test]
fn shell_cells_three_cube_keeps_all() {
    let cells = shell_cells(3, 3, 3, SHELL_MARGIN).unwrap();
    assert_eq!(cells.len(), 27);
    assert_eq!(cells[0], GridIndex { i: 0, j: 0, k: 0, on_boundary: true });
    assert_eq!(cells[1], GridIndex { i: 0, j: 0, k: 1, on_boundary: true });
    assert_eq!(cells[13], GridIndex { i: 1, j: 1, k: 1, on_boundary: false });
    assert_eq!(cells[26], GridIndex { i: 2, j: 2, k: 2, on_boundary: true });
    let inner = cells.iter().filter(|g| !g.on_boundary).count();
    assert_eq!(inner, 1);
}

#[test]
fn shell_cells_skip_deep_core() {
    assert_eq!(shell_cells(5, 5, 5, 2).unwrap().len(), 124);
    assert_eq!(shell_cells(6, 6, 6, 2).unwrap().len(), 216 - 8);
    let cells = shell_cells(6, 6, 6, 2).unwrap();
    assert!(!cells.contains(&GridIndex { i: 2, j: 3, k: 2, on_boundary: false }));
    assert!(cells.contains(&GridIndex { i: 1, j: 3, k: 2, on_boundary: false }));
    assert_eq!(shell_cells(6, 6, 6, 0).unwrap().len(), 0);
    assert_eq!(shell_cells(6, 6, 6, 3).unwrap().len(), 216);
}

#[test]
fn shell_cells_thin_axis_keeps_everything() {
    assert_eq!(shell_cells(4, 10, 10, 2).unwrap().len(), 400);
}

#[test]
fn shell_cells_empty_axis_fails() {
    assert_eq!(shell_cells(0, 3, 3, 2), Err(GenerationError::EmptyAxis));
    assert_eq!(shell_cells(3, 3, 0, 2), Err(GenerationError::EmptyAxis));
}

#[test]
fn boundary_flag_means_outer_index() {
    let (nx, ny, nz) = (4, 5, 6);
    let cells = shell_cells(nx, ny, nz, 1).unwrap();
    for g in &cells {
        let outer = g.i == 0 || g.i == nx - 1 || g.j == 0 || g.j == ny - 1 || g.k == 0 || g.k == nz - 1;
        assert_eq!(g.on_boundary, outer);
        assert!(g.i < nx && g.j < ny && g.k < nz);
    }
}

#[test]
fn mask_aligns_with_cells() {
    let cells = shell_cells(3, 3, 3, 2).unwrap();
    let mask = boundary_mask(&cells);
    assert_eq!(mask.len(), cells.len());
    assert!(!mask[13]);
    assert_eq!(mask.iter().filter(|b| **b).count(), 26);
}

#[test]
fn split_face_stream_reads_records() {
    let orders = vec![3, 4];
    let stream = vec![3, 0, 1, 2, 4, 2, 1, 3, 0];
    let faces = split_face_stream(&orders, &stream).unwrap();
    assert_eq!(faces, vec![vec![0, 1, 2], vec![2, 1, 3, 0]]);
}

#[test]
fn split_face_stream_detects_desync() {
    assert_eq!(
        split_face_stream(&vec![3], &vec![3, 0, 1, 2, 9]),
        Err(TopologyError::FaceStreamMismatch)
    );
    assert_eq!(
        split_face_stream(&vec![3, 3], &vec![3, 0, 1, 2, 3, 0]),
        Err(TopologyError::FaceStreamMismatch)
    );
    assert_eq!(
        split_face_stream(&vec![-1], &vec![]),
        Err(TopologyError::FaceStreamMismatch)
    );
    assert_eq!(split_face_stream(&vec![], &vec![]), Ok(vec![]));
}

#[test]
fn group_triples_groups() {
    let v = group_triples(&vec![1.0, 2.0, 3.0, 4.0, 5.0, 6.0]).unwrap();
    assert_eq!(v, vec![(1.0, 2.0, 3.0), (4.0, 5.0, 6.0)]);
    assert_eq!(group_triples(&vec![1, 2, 3, 4]), Err(TopologyError::RaggedCoordinates));
}

#[test]
fn face_lists_build_a_record() {
    let vs = vec![[0.0; 3], [1.0, 0.0, 0.0], [0.0, 1.0, 0.0], [0.0, 0.0, 1.0]];
    let faces: Vec<Vec<usize>> = vec![vec![0, 2, 1], vec![0, 1, 3], vec![0, 3, 2], vec![1, 2, 3]];
    let normals = vec![[0.0, 0.0, -1.0], [0.0, -1.0, 0.0], [-1.0, 0.0, 0.0], [1.0, 1.0, 1.0]];
    let c = cell_from_face_lists(7, 7, vs.clone(), &faces, normals.clone(), 1.0 / 6.0, [5.0; 3], [0.25; 3])
        .unwrap();
    assert_eq!(c.id, 7);
    assert_eq!(c.faces[3], vec![1, 2, 3]);
    assert_eq!(c.face_normals.len(), c.faces.len());
    assert_eq!(
        cell_from_face_lists(7, 8, vs.clone(), &faces, normals.clone(), 1.0, [0.0; 3], [0.0; 3]).err(),
        Some(TopologyError::IdMismatch { expected: 7, found: 8 })
    );
    assert_eq!(
        cell_from_face_lists(7, 7, vs.clone(), &faces, vec![[0.0; 3]], 1.0, [0.0; 3], [0.0; 3]).err(),
        Some(TopologyError::NormalCountMismatch { faces: 4, normals: 1 })
    );
    let bad: Vec<Vec<usize>> = vec![vec![0, 4, 1], vec![0, 1, 3], vec![0, 3, 2], vec![1, 2, 3]];
    assert_eq!(
        cell_from_face_lists(7, 7, vs, &bad, normals, 1.0, [0.0; 3], [0.0; 3]).err(),
        Some(TopologyError::FaceIndexOutOfRange)
    );
}

#[test]
fn face_stream_builds_a_record() {
    let vs = vec![[0.0; 3], [1.0, 0.0, 0.0], [0.0, 1.0, 0.0], [0.0, 0.0, 1.0]];
    let orders = vec![3, 3, 3, 3];
    let stream = vec![3, 0, 2, 1, 3, 0, 1, 3, 3, 0, 3, 2, 3, 1, 2, 3];
    let normals = vec![[0.0; 3]; 4];
    let c = cell_from_face_stream(2, vs.clone(), &orders, &stream, normals.clone(), 0.5, [1.0; 3], [0.0; 3])
        .unwrap();
    assert_eq!(c.id, 2);
    assert_eq!(c.faces, vec![vec![0, 2, 1], vec![0, 1, 3], vec![0, 3, 2], vec![1, 2, 3]]);
    assert_eq!(c.volume, 0.5);
    let bad_stream = vec![3, 0, 2, 1, 3, 0, 1, 3, 3, 0, 3, 2, 3, 1, 2, 4];
    assert_eq!(
        cell_from_face_stream(2, vs.clone(), &orders, &bad_stream, normals.clone(), 0.5, [1.0; 3], [0.0; 3])
            .err(),
        Some(TopologyError::FaceIndexOutOfRange)
    );
    assert_eq!(
        cell_from_face_stream(2, vs.clone(), &orders, &stream[1..].to_vec(), normals, 0.5, [1.0; 3], [0.0; 3])
            .err(),
        Some(TopologyError::FaceStreamMismatch)
    );
    assert_eq!(
        cell_from_face_stream(2, vs, &orders, &stream, vec![[0.0; 3]; 3], 0.5, [1.0; 3], [0.0; 3]).err(),
        Some(TopologyError::NormalCountMismatch { faces: 4, normals: 3 })
    );
}

#[test]
fn ids_must_form_a_permutation() {
    let ok = vec![cell(2, [0.0; 3], 1.0, [0.0; 3]), cell(0, [0.0; 3], 1.0, [0.0; 3]), cell(1, [0.0; 3], 1.0, [0.0; 3])];
    assert_eq!(check_cell_ids(&ok, 3), Ok(()));
    assert_eq!(
        check_cell_ids(&ok, 4),
        Err(TopologyError::CellCountMismatch { expected: 4, found: 3 })
    );
    let dup = vec![cell(1, [0.0; 3], 1.0, [0.0; 3]), cell(1, [0.0; 3], 1.0, [0.0; 3])];
    assert_eq!(check_cell_ids(&dup, 2), Err(TopologyError::DuplicateId { id: 1 }));
    let out = vec![cell(0, [0.0; 3], 1.0, [0.0; 3]), cell(2, [0.0; 3], 1.0, [0.0; 3])];
    assert_eq!(check_cell_ids(&out, 2), Err(TopologyError::IdOutOfRange { id: 2 }));
    let neg = vec![cell(-1, [0.0; 3], 1.0, [0.0; 3])];
    assert_eq!(check_cell_ids(&neg, 1), Err(TopologyError::IdOutOfRange { id: -1 }));
}

#[test]
fn order_by_id_sorts() {
    let cells = vec![cell(5, [0.0; 3], 1.0, [0.0; 3]), cell(1, [0.0; 3], 1.0, [0.0; 3]), cell(3, [0.0; 3], 1.0, [0.0; 3])];
    assert_eq!(order_by_id(&cells), vec![1, 2, 0]);
}

#[test]
fn validate_accepts_shuffled_agreeing_sets() {
    let a = grid_cloud(27);
    let mut b = grid_cloud(27);
    b.reverse();
    assert_eq!(validate(&a, &b, close), Ok(()));
    let total: f64 = a.iter().map(|c| c.volume).sum();
    assert!((total - 1000.0).abs() < 1e-2);
    assert_eq!(check_cell_ids(&a, 27), Ok(()));
    assert_eq!(check_cell_ids(&b, 27), Ok(()));
}

#[test]
fn validate_reports_moved_point() {
    let a = grid_cloud(27);
    let mut b = grid_cloud(27);
    b[4].position[0] += 1.0;
    assert_eq!(
        validate(&a, &b, close),
        Err(ValidationError::OutOfTolerance { id: 4, which: Tolerance::Position })
    );
}

#[test]
fn validate_reports_volume_and_centroid() {
    let a = grid_cloud(4);
    let mut b = grid_cloud(4);
    b[2].volume += 0.01;
    b[1].centroid[2] = 0.5;
    assert_eq!(
        validate(&a, &b, close),
        Err(ValidationError::OutOfTolerance { id: 1, which: Tolerance::Centroid })
    );
    b[1].centroid[2] = 0.0;
    assert_eq!(
        validate(&a, &b, close),
        Err(ValidationError::OutOfTolerance { id: 2, which: Tolerance::Volume })
    );
}

#[test]
fn validate_reports_length_and_id_mismatch() {
    let a = grid_cloud(3);
    let b = grid_cloud(2);
    assert_eq!(
        validate(&a, &b, close),
        Err(ValidationError::LengthMismatch { a_len: 3, b_len: 2 })
    );
    let mut c = grid_cloud(3);
    c[1].id = 9;
    assert_eq!(
        validate(&a, &c, close),
        Err(ValidationError::IdMismatch { a_id: 1, b_id: 2 })
    );
}

#[test]
fn empty_inputs_validate() {
    let a: Vec<Cell> = vec![];
    let b: Vec<Cell> = vec![];
    assert_eq!(check_cell_ids(&a, 0), Ok(()));
    assert_eq!(validate(&a, &b, close), Ok(()));
}

#[test]
fn container_grid_must_be_positive() {

    assert_eq!(check_container_grid(3, 4, 5), Ok(()));
    assert_eq!(check_container_grid(0, 4, 5), Err(GenerationError::EmptyContainerGrid));
    assert_eq!(check_container_grid(3, -1, 5), Err(GenerationError::EmptyContainerGrid));
}
