//! The block solver's GPU side, as far as it is integers: the scratch buffer
//! layout, the constraint and contact records' indices and kinds, and the
//! per-step dispatch schedule with its alternating position buffers.
//!
//! Iteration `k` of the primal sweep reads the snapshot from buffer `k % 2`
//! and writes the new state to buffer `1 - k % 2`; the dual sweep and the
//! velocity recovery read the buffer the primal sweep of their parity wrote.

use vstd::prelude::*;
use crate::broadphase::{div_ceil_spec, WORKGROUP_SIZE};
use crate::contacts::{ContactEnds, CONTAINER};

verus! {

/// The container as the second body of a GPU contact record.
pub const GPU_CONTAINER: u32 = u32::MAX;

/// Constraint kind codes of the GPU constraint record.
pub const CONSTRAINT_SPRING: u32 = 0;
pub const CONSTRAINT_ROD: u32 = 1;
pub const CONSTRAINT_BALL_SOCKET: u32 = 2;
pub const CONSTRAINT_ROPE: u32 = 3;

/// Slot of body `i`'s linear part in the split scratch buffers (`[lin; n]`
/// then `[ang; n]`).
pub fn lin_index(i: u32, n: u32) -> (r: usize)
    ensures
        r == i,
{
    i as usize
}

/// Slot of body `i`'s angular part in the split scratch buffers.
pub fn ang_index(i: u32, n: u32) -> (r: usize)
    requires
        n + i <= u32::MAX,
    ensures
        r == n + i,
{
    (n + i) as usize
}

/// The split scratch layout gives every body's linear and angular parts
/// their own slots: all `2n` slots are distinct and below `2n`.
pub proof fn law_scratch_slots_disjoint(n: int, i: int, j: int)
    requires
        0 <= i < n,
        0 <= j < n,
    ensures
        0 <= i < 2 * n,
        n <= n + j < 2 * n,
        i != n + j,
        i != j ==> n + i != n + j,
{
}

/// The four kinds of conservative constraint.
#[derive(Clone, Copy, Debug, PartialEq, Eq, Structural)]
pub enum ConstraintKind {
    Spring,
    Rod,
    BallSocket,
    Rope,
}

impl ConstraintKind {
    /// The kind's code in the GPU constraint record.
    pub open spec fn code_spec(self) -> u32 {
        match self {
            ConstraintKind::Spring => CONSTRAINT_SPRING,
            ConstraintKind::Rod => CONSTRAINT_ROD,
            ConstraintKind::BallSocket => CONSTRAINT_BALL_SOCKET,
            ConstraintKind::Rope => CONSTRAINT_ROPE,
        }
    }

    /// The kind's code in the GPU constraint record.
    pub fn gpu_code(&self) -> (c: u32)
        ensures
            c == self.code_spec(),
    {
        match self {
            ConstraintKind::Spring => CONSTRAINT_SPRING,
            ConstraintKind::Rod => CONSTRAINT_ROD,
            ConstraintKind::BallSocket => CONSTRAINT_BALL_SOCKET,
            ConstraintKind::Rope => CONSTRAINT_ROPE,
        }
    }

    /// The kind's display name.
    pub fn name(&self) -> (s: &'static str)
        ensures
            match *self {
                ConstraintKind::Spring => s@ == "spring"@,
                ConstraintKind::Rod => s@ == "rod"@,
                ConstraintKind::BallSocket => s@ == "ball and socket"@,
                ConstraintKind::Rope => s@ == "rope"@,
            },
    {
        match self {
            ConstraintKind::Spring => "spring",
            ConstraintKind::Rod => "rod",
            ConstraintKind::BallSocket => "ball and socket",
            ConstraintKind::Rope => "rope",
        }
    }
}

/// Distinct kinds get distinct GPU codes, so the kernel can tell them apart.
pub proof fn law_constraint_codes_distinct(x: ConstraintKind, y: ConstraintKind)
    ensures
        x.code_spec() == y.code_spec() <==> x == y,
        x.code_spec() <= CONSTRAINT_ROPE,
{
}

/// The integer part of a GPU constraint record: body indices and kind code.
#[derive(Clone, Copy, Debug, PartialEq, Eq, Structural)]
pub struct ConstraintRecord {
    pub a: u32,
    pub b: u32,
    pub kind: u32,
}

/// The integer part of the GPU record of a constraint between bodies
/// `body_a` and `body_b` (indices are narrowed to 32 bits, as the kernel
/// reads them).
pub fn constraint_record(kind: ConstraintKind, body_a: usize, body_b: usize) -> (r: ConstraintRecord)
    ensures
        r.a == body_a as u32,
        r.b == body_b as u32,
        r.kind == kind.code_spec(),
{
    ConstraintRecord { a: body_a as u32, b: body_b as u32, kind: kind.gpu_code() }
}

/// The GPU record's body indices of a contact: the container sentinel maps
/// to [`GPU_CONTAINER`], other indices are narrowed to 32 bits.
pub fn gpu_contact_ends(e: ContactEnds) -> (r: (u32, u32))
    ensures
        r.0 == e.a as u32,
        r.1 == if e.b == CONTAINER {
            GPU_CONTAINER
        } else {
            e.b as u32
        },
{
    (e.a as u32, if e.b == CONTAINER {
        GPU_CONTAINER
    } else {
        e.b as u32
    })
}

/// The four kernels of one solver step.
#[derive(Clone, Copy, Debug, PartialEq, Eq, Structural)]
pub enum Kernel {
    Init,
    Primal,
    Dual,
    Recover,
}

/// The integer push constants of a solver dispatch: the step's body,
/// contact and constraint counts, and the parity of the sweep. (The float
/// constants, time step and tuning, travel beside them unchanged.)
#[derive(Clone, Copy, Debug, PartialEq, Eq, Structural)]
pub struct AvbdPush {
    pub body_count: u32,
    pub contact_count: u32,
    pub constraint_count: u32,
    pub parity: u32,
}

/// `counts` pushed with parity `parity`.
pub open spec fn with_parity(counts: AvbdPush, parity: u32) -> AvbdPush {
    AvbdPush { parity, ..counts }
}

/// One kernel dispatch: the kernel, the constants pushed with it, and its
/// workgroup count.
#[derive(Clone, Copy, Debug, PartialEq, Eq, Structural)]
pub struct Dispatch {
    pub kernel: Kernel,
    pub push: AvbdPush,
    pub groups: u32,
}

/// The buffer (0 or 1) a kernel pushed with `parity` reads its snapshot from.
pub open spec fn snapshot_buffer(parity: u32) -> u32 {
    if parity == 0 {
        0
    } else {
        1
    }
}

/// The buffer (0 or 1) the primal sweep of `parity` writes, which the dual
/// sweep and the recovery of that parity read.
pub open spec fn written_buffer(parity: u32) -> u32 {
    if parity == 0 {
        1
    } else {
        0
    }
}

/// The parity of the last of `iterations` sweeps, as pushed with the
/// recovery kernel.
pub fn final_parity(iterations: u32) -> (p: u32)
    requires
        iterations >= 1,
    ensures
        p == (iterations - 1) % 2,
{
    (iterations - 1) % 2
}

/// The buffer holding a finished step's positions and orientations: the
/// one the last primal sweep wrote (none ran for zero iterations, where
/// the readback falls on buffer 1).
pub fn readback_buffer(iterations: u32) -> (b: usize)
    ensures
        iterations >= 1 ==> b == written_buffer(((iterations - 1) % 2) as u32),
        iterations == 0 ==> b == 1,
{
    let parity = if iterations == 0 {
        0
    } else {
        (iterations - 1) % 2
    };
    1 - parity as usize
}

pub open spec fn max1(x: int) -> int {
    if x < 1 {
        1
    } else {
        x
    }
}

/// Workgroups of a kernel over `count` items: `ceil(count / 64)`, taken as
/// a 32-bit count, and at least one.
pub open spec fn groups_for(count: int) -> u32 {
    max1((div_ceil_spec(count, WORKGROUP_SIZE as int) as u32) as int) as u32
}

fn groups_for_exec(count: usize) -> (g: u32)
    ensures
        g == groups_for(count as int),
{
    let q: usize = count / 64 + if count % 64 == 0 {
        0
    } else {
        1
    };
    assert(q == (count + 64 - 1) / 64);
    let g = q as u32;
    if g < 1 {
        1
    } else {
        g
    }
}

/// Every item gets a thread and no workgroup is wasted: the workgroups of
/// a kernel over `count` items (while their number fits 32 bits) are the
/// fewest 64-thread groups covering all items, and at least one.
pub proof fn law_groups_cover_items(count: int)
    requires
        0 <= count <= 64 * u32::MAX,
    ensures
        groups_for(count) >= 1,
        groups_for(count) * 64 >= count,
        count > 0 ==> (groups_for(count) - 1) * 64 < count,
        count == 0 ==> groups_for(count) == 1,
{
    let q = (count + 63) / 64;
    assert(0 <= q <= u32::MAX);
    assert(q * 64 >= count && (count > 0 ==> (q - 1) * 64 < count));
}

/// The dispatches of one solver step, in recording order: the init kernel
/// with parity 0, then per iteration a primal and a dual sweep with the
/// iteration's parity, then the recovery with the final parity; every push
/// carries the step's counts.
pub open spec fn step_schedule(body_groups: u32, contact_groups: u32, counts: AvbdPush, iterations: u32) -> Seq<
    Dispatch,
> {
    seq![Dispatch { kernel: Kernel::Init, push: with_parity(counts, 0), groups: body_groups }]
        + Seq::new(
        2 * iterations as nat,
        |s: int|
            if s % 2 == 0 {
                Dispatch {
                    kernel: Kernel::Primal,
                    push: with_parity(counts, ((s / 2) % 2) as u32),
                    groups: body_groups,
                }
            } else {
                Dispatch {
                    kernel: Kernel::Dual,
                    push: with_parity(counts, ((s / 2) % 2) as u32),
                    groups: contact_groups,
                }
            },
    ) + seq![
        Dispatch {
            kernel: Kernel::Recover,
            push: with_parity(counts, ((iterations - 1) % 2) as u32),
            groups: body_groups,
        },
    ]
}

/// A snapshot buffer pair: positions or rotations.
#[derive(Clone, Copy, Debug, PartialEq, Eq, Structural)]
pub enum Snapshot {
    Positions,
    Rotations,
}

/// One submitted solver step: the snapshot buffers seeded with the
/// submitted state before any dispatch, in order, and the dispatch
/// schedule (see [`SolverStep::schedule`]).
pub struct SolverStep {
    pub seeds: Vec<(Snapshot, usize)>,
    pub counts: AvbdPush,
    pub iterations: u32,
    pub body_groups: u32,
    pub contact_groups: u32,
}

impl SolverStep {
    /// The step's dispatches in recording order.
    pub open spec fn schedule(&self) -> Seq<Dispatch> {
        step_schedule(self.body_groups, self.contact_groups, self.counts, self.iterations)
    }

    /// The number of dispatches: init, two per iteration, recovery.
    pub fn dispatch_count(&self) -> (c: u64)
        ensures
            c == self.schedule().len(),
    {
        2 * self.iterations as u64 + 2
    }

    /// Dispatch `k` of the step.
    pub fn dispatch_at(&self, k: u64) -> (d: Dispatch)
        requires
            self.iterations >= 1,
            k < self.schedule().len(),
        ensures
            d == self.schedule()[k as int],
    {
        let last = 2 * self.iterations as u64 + 1;
        if k == 0 {
            Dispatch { kernel: Kernel::Init, push: AvbdPush { parity: 0, ..self.counts }, groups: self.body_groups }
        } else if k == last {
            Dispatch {
                kernel: Kernel::Recover,
                push: AvbdPush { parity: final_parity(self.iterations), ..self.counts },
                groups: self.body_groups,
            }
        } else {
            let s = k - 1;
            let parity = ((s / 2) % 2) as u32;
            assert(self.schedule()[k as int] == Seq::new(
                2 * self.iterations as nat,
                |s: int|
                    if s % 2 == 0 {
                        Dispatch {
                            kernel: Kernel::Primal,
                            push: with_parity(self.counts, ((s / 2) % 2) as u32),
                            groups: self.body_groups,
                        }
                    } else {
                        Dispatch {
                            kernel: Kernel::Dual,
                            push: with_parity(self.counts, ((s / 2) % 2) as u32),
                            groups: self.contact_groups,
                        }
                    },
            )[s as int]);
            if s % 2 == 0 {
                Dispatch { kernel: Kernel::Primal, push: AvbdPush { parity, ..self.counts }, groups: self.body_groups }
            } else {
                Dispatch { kernel: Kernel::Dual, push: AvbdPush { parity, ..self.counts }, groups: self.contact_groups }
            }
        }
    }
}

/// The snapshot seeding of a step: positions then rotations into buffer
/// 0, then both again into buffer 1, so that bodies the primal sweep does
/// not write (static ones) read the same state on either parity.
pub open spec fn seed_order() -> Seq<(Snapshot, usize)> {
    seq![(Snapshot::Positions, 0usize), (Snapshot::Rotations, 0usize), (Snapshot::Positions, 1usize), (Snapshot::Rotations, 1usize)]
}

/// The recovery and the readback both use the state the last primal sweep
/// wrote: the recovery's snapshot parity is the last sweep's, so it reads the
/// buffer that sweep wrote, which is the readback buffer.
pub proof fn law_readback_is_last_written(body_groups: u32, contact_groups: u32, counts: AvbdPush, iterations: u32)
    requires
        iterations >= 1,
    ensures
        ({
            let s = step_schedule(body_groups, contact_groups, counts, iterations);
            let last_primal = s[s.len() - 3];
            let recover = s.last();
            &&& last_primal.kernel == Kernel::Primal
            &&& recover.kernel == Kernel::Recover
            &&& recover.push.parity == last_primal.push.parity
            &&& last_primal.push.parity == (iterations - 1) % 2
            &&& written_buffer(recover.push.parity) == written_buffer(last_primal.push.parity)
        }),
        written_buffer(((iterations - 1) % 2) as u32) == 1 - (iterations - 1) % 2,
{
    let s = step_schedule(body_groups, contact_groups, counts, iterations);
    let q = 2 * (iterations - 1);
    assert(q / 2 == iterations - 1 && q % 2 == 0);
    assert(s[s.len() - 3] == s[1 + q]);
}

/// Consecutive primal sweeps alternate buffers: each reads the buffer the
/// previous one wrote.
pub proof fn law_sweeps_alternate(body_groups: u32, contact_groups: u32, counts: AvbdPush, iterations: u32, k: int)
    requires
        iterations >= 1,
        1 <= k < iterations,
    ensures
        ({
            let s = step_schedule(body_groups, contact_groups, counts, iterations);
            &&& s[1 + 2 * k].kernel == Kernel::Primal
            &&& s[1 + 2 * (k - 1)].kernel == Kernel::Primal
            &&& snapshot_buffer(s[1 + 2 * k].push.parity) == written_buffer(s[1 + 2 * (k - 1)].push.parity)
        }),
{
    let q = 2 * k;
    let p = 2 * (k - 1);
    assert(q / 2 == k && q % 2 == 0);
    assert(p / 2 == k - 1 && p % 2 == 0);
}

/// The host side of the solver kernels: buffer capacities and the sizes of
/// the last submitted step, which its readback uses.
pub struct AvbdCompute {
    max_bodies: usize,
    max_contacts: usize,
    last_n: usize,
    last_m: usize,
    last_iterations: u32,
}

/// What a finished step's readback reads: the position/orientation buffer
/// and the body and contact counts.
#[derive(Clone, Copy, Debug, PartialEq, Eq, Structural)]
pub struct SolverReadback {
    pub buffer: usize,
    pub bodies: usize,
    pub contacts: usize,
}

impl AvbdCompute {
    pub closed spec fn max_bodies(&self) -> nat {
        self.max_bodies as nat
    }

    pub closed spec fn max_contacts(&self) -> nat {
        self.max_contacts as nat
    }

    /// Capacity of the compressed contact index buffer: two per contact.
    pub closed spec fn max_indices(&self) -> nat {
        2 * self.max_contacts as nat
    }

    pub closed spec fn last_bodies(&self) -> nat {
        self.last_n as nat
    }

    pub closed spec fn last_contacts(&self) -> nat {
        self.last_m as nat
    }

    pub closed spec fn last_iterations(&self) -> u32 {
        self.last_iterations
    }

    /// The sizes are machine sizes.
    pub proof fn lemma_sizes(&self)
        ensures
            self.max_bodies() <= usize::MAX,
            self.max_contacts() <= usize::MAX,
            self.last_bodies() <= usize::MAX,
            self.last_contacts() <= usize::MAX,
            self.max_indices() == 2 * self.max_contacts(),
    {
    }

    /// What reading back the last step gives: nothing without bodies, else
    /// the buffer of the final state and the step's sizes.
    pub open spec fn readback_of(&self) -> Option<SolverReadback> {
        if self.last_bodies() == 0 {
            None
        } else {
            Some(
                SolverReadback {
                    buffer: if self.last_iterations() == 0 {
                        1
                    } else {
                        written_buffer(((self.last_iterations() - 1) % 2) as u32) as usize
                    },
                    bodies: self.last_bodies() as usize,
                    contacts: self.last_contacts() as usize,
                },
            )
        }
    }

    /// Fresh state for buffers of `max_bodies` bodies and `max_contacts`
    /// contacts (and constraints).
    pub fn new(max_bodies: usize, max_contacts: usize) -> (s: Self)
        requires
            2 * max_contacts <= usize::MAX,
        ensures
            s.max_bodies() == max_bodies,
            s.max_contacts() == max_contacts,
            s.last_bodies() == 0,
            s.last_contacts() == 0,
            s.last_iterations() == 0,
    {
        AvbdCompute { max_bodies, max_contacts, last_n: 0, last_m: 0, last_iterations: 0 }
    }

    /// Submit one step over `body_count` bodies, `contact_count` contacts,
    /// `constraint_count` constraints and `index_count` compressed contact
    /// indices: nothing is done without bodies; otherwise both snapshot
    /// buffers are seeded and the step's dispatches follow.
    pub fn submit(
        &mut self,
        body_count: usize,
        contact_count: usize,
        constraint_count: usize,
        index_count: usize,
        iterations: u32,
    ) -> (s: Option<SolverStep>)
        requires
            body_count <= old(self).max_bodies(),
            contact_count <= old(self).max_contacts(),
            constraint_count <= old(self).max_contacts(),
            index_count <= old(self).max_indices(),
            body_count > 0 ==> iterations >= 1,
        ensures
            final(self).max_bodies() == old(self).max_bodies(),
            final(self).max_contacts() == old(self).max_contacts(),
            final(self).last_bodies() == body_count,
            final(self).last_contacts() == contact_count,
            final(self).last_iterations() == iterations,
            body_count == 0 ==> s is None,
            body_count > 0 ==> (s matches Some(step) && {
                &&& step.seeds@ == seed_order()
                &&& step.counts == (AvbdPush {
                    body_count: body_count as u32,
                    contact_count: contact_count as u32,
                    constraint_count: constraint_count as u32,
                    parity: 0,
                })
                &&& step.iterations == iterations
                &&& step.body_groups == groups_for(body_count as int)
                &&& step.contact_groups == groups_for(contact_count as int)
            }),
    {
        self.last_n = body_count;
        self.last_m = contact_count;
        self.last_iterations = iterations;
        if body_count == 0 {
            return None;
        }
        let mut seeds: Vec<(Snapshot, usize)> = Vec::new();
        seeds.push((Snapshot::Positions, 0));
        seeds.push((Snapshot::Rotations, 0));
        seeds.push((Snapshot::Positions, 1));
        seeds.push((Snapshot::Rotations, 1));
        assert(seeds@ =~= seed_order());
        Some(
            SolverStep {
                seeds,
                counts: AvbdPush {
                    body_count: body_count as u32,
                    contact_count: contact_count as u32,
                    constraint_count: constraint_count as u32,
                    parity: 0,
                },
                iterations,
                body_groups: groups_for_exec(body_count),
                contact_groups: groups_for_exec(contact_count),
            },
        )
    }

    /// What to read back after the last step: nothing without bodies, else
    /// the buffer of the final state and the step's sizes.
    pub fn read(&self) -> (r: Option<SolverReadback>)
        ensures
            r == self.readback_of(),
    {
        if self.last_n == 0 {
            None
        } else {
            Some(
                SolverReadback {
                    buffer: readback_buffer(self.last_iterations),
                    bodies: self.last_n,
                    contacts: self.last_m,
                },
            )
        }
    }
}

/// After a step over `n > 0` bodies and `m` contacts with at least one
/// iteration, reading back gives the buffer the step's last primal sweep
/// wrote (the one its recovery read), with `n` bodies and `m` contacts.
pub proof fn law_read_after_submit(after: AvbdCompute, step: SolverStep, n: usize, m: usize, iterations: u32)
    requires
        n > 0,
        iterations >= 1,
        after.last_bodies() == n,
        after.last_contacts() == m,
        after.last_iterations() == iterations,
        step.iterations == iterations,
    ensures
        ({
            let s = step.schedule();
            &&& s[s.len() - 3].kernel == Kernel::Primal
            &&& s.last().kernel == Kernel::Recover
            &&& after.readback_of() == Some(
                SolverReadback {
                    buffer: written_buffer(s[s.len() - 3].push.parity) as usize,
                    bodies: n,
                    contacts: m,
                },
            )
        }),
{
    law_readback_is_last_written(step.body_groups, step.contact_groups, step.counts, iterations);
}

} // verus!
