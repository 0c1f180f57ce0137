use diomedes::avbd::{
    ang_index, constraint_record, final_parity, gpu_contact_ends, lin_index, readback_buffer,
    AvbdPush, ConstraintKind, ConstraintRecord, Dispatch, Kernel, Snapshot, SolverReadback,
    SolverStep,
    AvbdCompute, CONSTRAINT_BALL_SOCKET, CONSTRAINT_ROD, CONSTRAINT_ROPE, CONSTRAINT_SPRING,
    GPU_CONTAINER,
};
use diomedes::broadphase::{dense_pair, broad_sweep_dense, workgroups, Pair};
use diomedes::contacts::{contact_csr, warm_start_sources, ContactEnds, CONTAINER};
use diomedes::epa::{
    edge_in_face, grow_faces, horizon_edges, initial_faces, kept_faces, oriented_face, push_face,
    FaceIdx, MAX_FACES,
};
use diomedes::gjk::Simplex;
use diomedes::narrowphase::{
    both_spheres, collision_path, contact_slot, decode_contacts, decode_pairs, write_contact, BroadDispatch,
    CollisionPath, NarrowPhaseCompute, ComputePush, ContactReadback, ContactSlot, GpuPair,
    NarrowDispatch, CUBE, SPHERE, TETRAHEDRON,
};

fn ends(a: usize, b: usize) -> ContactEnds {
    ContactEnds { a, b }
}

#[test]
fn constraint_names_cover_all_kinds() {
    let names = [
        ConstraintKind::Spring,
        ConstraintKind::Rod,
        ConstraintKind::BallSocket,
        ConstraintKind::Rope,
    ]
    .map(|kind| kind.name());
    assert_eq!(names, ["spring", "rod", "ball and socket", "rope"]);
}

#[test]
fn constraint_records_keep_shader_layout_and_kinds() {
    let kinds = [
        ConstraintKind::Spring,
        ConstraintKind::Rod,
        ConstraintKind::BallSocket,
        ConstraintKind::Rope,
    ];
    let records: Vec<ConstraintRecord> =
        kinds.iter().map(|kind| constraint_record(*kind, 0, 1)).collect();
    assert_eq!(
        records.iter().map(|record| record.kind).collect::<Vec<_>>(),
        [CONSTRAINT_SPRING, CONSTRAINT_ROD, CONSTRAINT_BALL_SOCKET, CONSTRAINT_ROPE]
    );
    assert!(records.iter().all(|record| record.a == 0 && record.b == 1));
}

#[test]
fn constraint_codes_are_distinct() {
    let codes = [
        ConstraintKind::Spring.gpu_code(),
        ConstraintKind::Rod.gpu_code(),
        ConstraintKind::BallSocket.gpu_code(),
        ConstraintKind::Rope.gpu_code(),
    ];
    assert_eq!(codes, [0, 1, 2, 3]);
}

#[test]
fn constraint_record_narrows_body_indices() {
    let r = constraint_record(ConstraintKind::Rope, 7, 42);
    assert_eq!(r, ConstraintRecord { a: 7, b: 42, kind: CONSTRAINT_ROPE });
}

#[test]
fn contact_ends_map_container_to_gpu_sentinel() {
    assert_eq!(gpu_contact_ends(ends(3, CONTAINER)), (3, GPU_CONTAINER));
    assert_eq!(gpu_contact_ends(ends(3, 5)), (3, 5));
}

#[test]
fn scratch_slots_split_linear_and_angular() {
    assert_eq!(lin_index(2, 5), 2);
    assert_eq!(ang_index(2, 5), 7);
    let n = 4u32;
    let mut slots: Vec<usize> = Vec::new();
    for i in 0..n {
        slots.push(lin_index(i, n));
        slots.push(ang_index(i, n));
    }
    slots.sort();
    assert_eq!(slots, (0..8).collect::<Vec<usize>>());
}

#[test]
fn csr_lists_contacts_under_both_bodies() {
    let contacts = [ends(0, 1), ends(1, CONTAINER), ends(2, 0), ends(1, 1)];
    let (offsets, indices) = contact_csr(3, &contacts);
    assert_eq!(offsets, vec![0, 2, 6, 7]);
    assert_eq!(indices, vec![0, 2, 0, 1, 3, 3, 2]);
    for (k, c) in contacts.iter().enumerate() {
        let list_a = &indices[offsets[c.a] as usize..offsets[c.a + 1] as usize];
        assert!(list_a.contains(&(k as u32)));
        if c.b != CONTAINER {
            let list_b = &indices[offsets[c.b] as usize..offsets[c.b + 1] as usize];
            assert!(list_b.contains(&(k as u32)));
        }
    }
}

#[test]
fn csr_of_no_contacts_is_empty() {
    let (offsets, indices) = contact_csr(2, &[]);
    assert_eq!(offsets, vec![0, 0, 0]);
    assert!(indices.is_empty());
}

#[test]
fn warm_start_takes_last_previous_contact_once() {
    let previous = [ends(0, 1), ends(1, 2), ends(0, 1)];
    let next = [ends(1, 2), ends(0, 1), ends(0, 1), ends(3, 4)];
    let sources = warm_start_sources(&previous, &next);
    assert_eq!(sources, vec![Some(1), Some(2), None, None]);
}

#[test]
fn warm_start_sources_are_distinct_and_match_ends() {
    let previous = [ends(0, 1), ends(2, CONTAINER), ends(1, 0), ends(0, 1)];
    let next = [ends(0, 1), ends(1, 0), ends(0, 1), ends(2, CONTAINER), ends(1, 0)];
    let sources = warm_start_sources(&previous, &next);
    let taken: Vec<usize> = sources.iter().flatten().copied().collect();
    let mut unique = taken.clone();
    unique.sort();
    unique.dedup();
    assert_eq!(unique.len(), taken.len());
    for (k, s) in sources.iter().enumerate() {
        if let Some(j) = s {
            assert_eq!(previous[*j], next[k]);
        }
    }
    assert_eq!(sources, vec![Some(3), Some(2), None, Some(1), None]);
}

#[test]
fn parity_and_readback_follow_the_last_sweep() {
    assert_eq!(final_parity(1), 0);
    assert_eq!(final_parity(4), 1);
    assert_eq!(readback_buffer(0), 1);
    assert_eq!(readback_buffer(1), 1);
    assert_eq!(readback_buffer(2), 0);
    assert_eq!(readback_buffer(3), 1);
}

fn all_dispatches(step: &SolverStep) -> Vec<Dispatch> {
    (0..step.dispatch_count()).map(|k| step.dispatch_at(k)).collect()
}

fn push(parity: u32) -> AvbdPush {
    AvbdPush { body_count: 65, contact_count: 0, constraint_count: 2, parity }
}

#[test]
fn step_schedule_alternates_parities() {
    let mut state = AvbdCompute::new(100, 10);
    let step = state.submit(65, 0, 2, 0, 2).expect("dispatches for bodies");
    assert_eq!(
        step.seeds,
        vec![
            (Snapshot::Positions, 0),
            (Snapshot::Rotations, 0),
            (Snapshot::Positions, 1),
            (Snapshot::Rotations, 1),
        ]
    );
    assert_eq!(
        all_dispatches(&step),
        vec![
            Dispatch { kernel: Kernel::Init, push: push(0), groups: 2 },
            Dispatch { kernel: Kernel::Primal, push: push(0), groups: 2 },
            Dispatch { kernel: Kernel::Dual, push: push(0), groups: 1 },
            Dispatch { kernel: Kernel::Primal, push: push(1), groups: 2 },
            Dispatch { kernel: Kernel::Dual, push: push(1), groups: 1 },
            Dispatch { kernel: Kernel::Recover, push: push(1), groups: 2 },
        ]
    );
}

#[test]
fn recovery_reads_the_buffer_of_the_last_primal_sweep() {
    let mut state = AvbdCompute::new(100, 100);
    for iterations in 1..6u32 {
        let step = state.submit(10, 10, 0, 20, iterations).expect("dispatches for bodies");
        let s = all_dispatches(&step);
        let last_primal = s[s.len() - 3];
        let recover = s[s.len() - 1];
        assert_eq!(last_primal.kernel, Kernel::Primal);
        assert_eq!(recover.kernel, Kernel::Recover);
        assert_eq!(recover.push.parity, last_primal.push.parity);
        assert_eq!(readback_buffer(iterations), 1 - last_primal.push.parity as usize);
        assert_eq!(
            state.read(),
            Some(SolverReadback { buffer: 1 - last_primal.push.parity as usize, bodies: 10, contacts: 10 })
        );
    }
}

#[test]
fn solver_state_submits_and_reads_back() {
    let mut state = AvbdCompute::new(8, 16);
    assert_eq!(state.read(), None);
    assert!(state.submit(0, 0, 0, 0, 3).is_none());
    assert_eq!(state.read(), None);
    let s = state.submit(4, 3, 1, 6, 3).expect("dispatches for bodies");
    assert_eq!(s.dispatch_count(), 8);
    assert_eq!(s.counts, AvbdPush { body_count: 4, contact_count: 3, constraint_count: 1, parity: 0 });
    assert_eq!(
        state.read(),
        Some(SolverReadback { buffer: 1, bodies: 4, contacts: 3 })
    );
    state.submit(4, 3, 1, 6, 2);
    assert_eq!(
        state.read(),
        Some(SolverReadback { buffer: 0, bodies: 4, contacts: 3 })
    );
}

#[test]
fn workgroups_round_up() {
    assert_eq!(workgroups(0), 0);
    assert_eq!(workgroups(1), 1);
    assert_eq!(workgroups(64), 1);
    assert_eq!(workgroups(65), 2);
    assert_eq!(workgroups(128), 2);
}

#[test]
fn dense_pairs_cover_each_unordered_pair_once() {
    let n = 5u32;
    let mut seen: Vec<(u32, u32)> = Vec::new();
    for t in 0..n * n + 3 {
        if let Some(p) = dense_pair(t, n) {
            assert!(p.a < p.b);
            assert_eq!(p.a * n + p.b, t);
            seen.push((p.a, p.b));
        }
    }
    assert_eq!(seen.len(), 10);
    seen.sort();
    seen.dedup();
    assert_eq!(seen.len(), 10);
    assert_eq!(dense_pair(7, 5), Some(Pair { a: 1, b: 2 }));
    assert_eq!(dense_pair(6, 5), None);
    assert_eq!(dense_pair(25, 5), None);
}

#[test]
fn dense_sweep_counts_all_and_keeps_the_first() {
    let n = 3u32;
    let mut overlap = vec![true; 9];
    overlap[2] = false;
    let (pairs, count) = broad_sweep_dense(&overlap, n, 8);
    assert_eq!(count, 2);
    assert_eq!(pairs, vec![Pair { a: 0, b: 1 }, Pair { a: 1, b: 2 }]);
    let all = vec![true; 9];
    let (pairs, count) = broad_sweep_dense(&all, n, 2);
    assert_eq!(count, 3);
    assert_eq!(pairs, vec![Pair { a: 0, b: 1 }, Pair { a: 0, b: 2 }]);
}

#[test]
fn shape_tags_select_the_collision_path() {
    assert_eq!(collision_path(CUBE, CUBE), CollisionPath::CubeManifold);
    assert_eq!(collision_path(SPHERE, SPHERE), CollisionPath::SpherePair);
    assert_eq!(collision_path(SPHERE, CUBE), CollisionPath::GjkEpa);
    assert_eq!(collision_path(TETRAHEDRON, TETRAHEDRON), CollisionPath::GjkEpa);
    assert!(both_spheres(SPHERE, SPHERE));
    assert!(!both_spheres(SPHERE, CUBE));
}

#[test]
fn contact_slots_are_four_per_pair() {
    assert_eq!(contact_slot(0, 0), 0);
    assert_eq!(contact_slot(0, 3), 3);
    assert_eq!(contact_slot(1, 0), 4);
    assert_eq!(contact_slot(5, 2), 22);
}

#[test]
fn decoding_keeps_the_valid_slots_in_order() {
    let empty = ContactSlot { valid: 0, a: 0, b: 0, payload: 0i64 };
    let mut raw = vec![empty; 8];
    write_contact(&mut raw[1], Pair { a: 2, b: 5 }, 10);
    write_contact(&mut raw[6], Pair { a: 0, b: 1 }, 20);
    let out = decode_contacts(&raw);
    assert_eq!(out.len(), 2);
    assert_eq!((out[0].a, out[0].b, out[0].payload), (2, 5, 10));
    assert_eq!((out[1].a, out[1].b, out[1].payload), (0, 1, 20));
    assert!(decode_contacts(&vec![empty; 4]).is_empty());
}

#[test]
fn collision_state_alternates_contact_buffers() {
    let mut state = NarrowPhaseCompute::new(16, 32);
    assert_eq!(state.read(), None);
    assert_eq!(state.submit(4, &[]), None);
    assert_eq!(state.read(), None);
    let pairs = [GpuPair { a: 0, b: 1 }, GpuPair { a: 0, b: 2 }, GpuPair { a: 2, b: 3 }];
    let d1 = state.submit(4, &pairs).expect("pairs to collide");
    assert_eq!(d1, NarrowDispatch { buffer: 1, clear_slots: 12, pair_count: 3, groups: 1 });
    assert_eq!(state.read(), Some(ContactReadback { buffer: 1, slots: 12 }));
    let d2 = state.submit_narrow(30).expect("pairs to collide");
    assert_eq!(d2, NarrowDispatch { buffer: 0, clear_slots: 120, pair_count: 30, groups: 1 });
    assert_ne!(d1.buffer, d2.buffer);
    assert_eq!(state.read(), Some(ContactReadback { buffer: 0, slots: 120 }));
}

#[test]
fn broad_phase_dispatch_sizes() {
    let state = NarrowPhaseCompute::new(200, 10);
    assert_eq!(state.submit_broad(0), None);
    assert_eq!(
        state.submit_broad(100),
        Some(BroadDispatch {
            aabb_groups: 2,
            sweep_groups: 157,
            push: ComputePush { pair_count: 0, body_count: 100, max_pairs: 10, sort_len: 10000 },
        })
    );
}

#[test]
fn pair_buffer_bytes_decode_to_pairs() {
    let bytes = [1, 0, 0, 0, 2, 0, 0, 0, 0, 1, 0, 0, 7, 0, 0, 0, 9, 9];
    assert_eq!(decode_pairs(&bytes), vec![GpuPair { a: 1, b: 2 }, GpuPair { a: 256, b: 7 }]);
    assert!(decode_pairs(&[1, 2, 3, 4]).is_empty());
}

#[test]
fn initial_tetrahedron_faces() {
    let faces = initial_faces();
    assert_eq!(faces[0], FaceIdx { a: 0, b: 1, c: 2 });
    assert_eq!(faces[3], FaceIdx { a: 1, b: 3, c: 2 });
    assert_eq!(oriented_face(1, 2, 3, true), FaceIdx { a: 3, b: 2, c: 1 });
    assert_eq!(oriented_face(1, 2, 3, false), FaceIdx { a: 1, b: 2, c: 3 });
}

#[test]
fn edges_match_in_either_direction() {
    let f = FaceIdx { a: 0, b: 1, c: 2 };
    assert!(edge_in_face((0, 1), &f));
    assert!(edge_in_face((1, 0), &f));
    assert!(edge_in_face((2, 0), &f));
    assert!(!edge_in_face((0, 3), &f));
}

#[test]
fn horizon_of_two_visible_faces() {
    let faces = initial_faces();
    let visible = [true, true, false, false];
    let horizon = horizon_edges(&faces, &visible);
    assert_eq!(horizon, vec![(1, 2), (2, 0), (0, 3), (3, 1)]);
    let kept = kept_faces(&faces, &visible);
    assert_eq!(kept, vec![faces[2], faces[3]]);
}

#[test]
fn face_table_stops_at_capacity() {
    let mut faces: Vec<FaceIdx> = Vec::new();
    let f = FaceIdx { a: 0, b: 1, c: 2 };
    for _ in 0..MAX_FACES {
        assert!(push_face(&mut faces, f));
    }
    assert!(!push_face(&mut faces, f));
    assert_eq!(faces.len(), MAX_FACES);
}

#[test]
fn simplex_pushes_newest_first_and_removes() {
    let mut s = Simplex::new(0u32);
    s.push_front(1);
    s.push_front(2);
    s.push_front(3);
    assert_eq!(s.len, 3);
    assert_eq!(s.points[..3], [3, 2, 1]);
    s.remove(1);
    assert_eq!(s.len, 2);
    assert_eq!(s.points[..2], [3, 1]);
    s.swap(0, 1);
    assert_eq!(s.points[..2], [1, 3]);
    s.truncate(1);
    assert_eq!(s.len, 1);
    assert_eq!(s.points[0], 1);
}

#[test]
fn polytope_grows_over_the_horizon() {
    let faces = initial_faces();
    let visible = [true, true, false, false];
    let horizon = horizon_edges(&faces, &visible);
    let mut grown = kept_faces(&faces, &visible);
    grow_faces(&mut grown, &horizon, 4, &[false, true, false, false], &[false, false, true, false]);
    assert_eq!(
        grown,
        vec![
            faces[2],
            faces[3],
            FaceIdx { a: 4, b: 1, c: 2 },
            FaceIdx { a: 3, b: 0, c: 4 },
            FaceIdx { a: 4, b: 3, c: 1 },
        ]
    );
}

#[test]
fn growing_stops_at_the_face_table_capacity() {
    let f = FaceIdx { a: 0, b: 1, c: 2 };
    let mut faces = vec![f; MAX_FACES - 1];
    grow_faces(&mut faces, &[(1, 2), (2, 0)], 9, &[false, false], &[false, false]);
    assert_eq!(faces.len(), MAX_FACES);
    assert_eq!(faces[MAX_FACES - 1], FaceIdx { a: 9, b: 1, c: 2 });
}

#[test]
fn contact_lists_are_increasing_without_self_contacts() {
    let contacts = [ends(2, 0), ends(0, CONTAINER), ends(1, 2), ends(0, 1), ends(2, CONTAINER)];
    let (offsets, indices) = contact_csr(3, &contacts);
    assert_eq!(offsets, vec![0, 3, 5, 8]);
    assert_eq!(*offsets.last().unwrap() as usize, 5 + 3);
    for i in 0..3 {
        let list = &indices[offsets[i] as usize..offsets[i + 1] as usize];
        assert!(list.windows(2).all(|w| w[0] < w[1]));
        let expected: Vec<u32> = (0..contacts.len())
            .filter(|&k| contacts[k].a == i || contacts[k].b == i)
            .map(|k| k as u32)
            .collect();
        assert_eq!(list, &expected[..]);
    }
}
