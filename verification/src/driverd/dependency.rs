//! Driver dependency graph, resource budgets and the health model.

use vstd::prelude::*;
use super::protocol::{DriverId, DriverState};

verus! {

#[derive(Clone, Copy, Debug, PartialEq, Eq, Structural)]
pub struct DriverDependency {
    pub driver: DriverId,
    pub requires: DriverId,
}

#[derive(Clone, Copy, Debug, PartialEq, Eq, Structural)]
pub struct ResourceOwnership {
    pub driver: DriverId,
    pub mmio_bytes: u64,
    pub io_bytes: u64,
    pub dma_bytes: u64,
    pub interrupt_count: u16,
}

impl ResourceOwnership {
    /// A grant is within a budget of the same driver, resource by resource.
    pub fn within(self, budget: ResourceOwnership) -> (r: bool)
        ensures
            r == (self.driver == budget.driver && self.mmio_bytes <= budget.mmio_bytes && self.io_bytes <= budget.io_bytes
                && self.dma_bytes <= budget.dma_bytes && self.interrupt_count <= budget.interrupt_count),
    {
        self.driver == budget.driver && self.mmio_bytes <= budget.mmio_bytes && self.io_bytes <= budget.io_bytes
            && self.dma_bytes <= budget.dma_bytes && self.interrupt_count <= budget.interrupt_count
    }
}

#[derive(Clone, Copy, Debug, PartialEq, Eq, Structural)]
pub enum DependencyError {
    SelfDependency,
    Cycle,
    MissingDependency,
    ResourceExceeded,
}

pub open spec fn edge_of(o: Option<DriverDependency>, d: DriverId) -> bool {
    o matches Some(e) && e.driver == d
}

/// What `d` depends on: the target of its first edge among the first `len`.
pub open spec fn first_requirement(edges: Seq<Option<DriverDependency>>, len: int, d: DriverId) -> Option<DriverId> {
    if exists|i: int| 0 <= i < len && edge_of(#[trigger] edges[i], d) {
        let i = choose|i: int| 0 <= i < len && edge_of(#[trigger] edges[i], d)
            && forall|j: int| 0 <= j < i ==> !edge_of(#[trigger] edges[j], d);
        Some(edges[i]->Some_0.requires)
    } else {
        None
    }
}

/// The driver reached from `x` after `n` dependency steps, if the chain is that long.
#[verifier::opaque]
pub open spec fn walk(edges: Seq<Option<DriverDependency>>, len: int, x: DriverId, n: nat) -> Option<DriverId>
    decreases n,
{
    if n == 0 {
        Some(x)
    } else {
        match walk(edges, len, x, (n - 1) as nat) {
            Some(y) => first_requirement(edges, len, y),
            None => None,
        }
    }
}

pub proof fn lemma_walk_zero(edges: Seq<Option<DriverDependency>>, len: int, x: DriverId)
    ensures
        walk(edges, len, x, 0) == Some(x),
{
    reveal(walk);
}

pub proof fn lemma_walk_step(edges: Seq<Option<DriverDependency>>, len: int, x: DriverId, n: nat)
    ensures
        walk(edges, len, x, n + 1) == match walk(edges, len, x, n) {
            Some(y) => first_requirement(edges, len, y),
            None => None,
        },
{
    reveal(walk);
}

pub proof fn lemma_walk_ends(edges: Seq<Option<DriverDependency>>, len: int, x: DriverId, a: nat, b: nat)
    requires
        a <= b,
        walk(edges, len, x, a) is None,
    ensures
        walk(edges, len, x, b) is None,
    decreases b - a,
{
    if a < b {
        lemma_walk_ends(edges, len, x, a, (b - 1) as nat);
        lemma_walk_step(edges, len, x, (b - 1) as nat);
    }
}

/// Once the chain from `x` stops after `steps` without meeting `target`, it
/// never meets it, and it is not running after `n` steps.
pub proof fn lemma_chain_stops(edges: Seq<Option<DriverDependency>>, len: int, x: DriverId, target: DriverId, steps: nat, n: nat)
    requires
        steps < n,
        walk(edges, len, x, steps + 1) is None,
        forall|s: nat| 1 <= s <= steps ==> #[trigger] walk(edges, len, x, s) != Some(target),
    ensures
        forall|s: nat| 1 <= s <= n ==> #[trigger] walk(edges, len, x, s) != Some(target),
        walk(edges, len, x, n) is None,
{
    assert forall|s: nat| 1 <= s <= n implies #[trigger] walk(edges, len, x, s) != Some(target) by {
        if s > steps {
            lemma_walk_ends(edges, len, x, steps + 1, s);
        }
    }
    lemma_walk_ends(edges, len, x, steps + 1, n);
}

/// Bounded dependency table that refuses self-dependencies and any edge
/// whose target leads back to its source within `N` steps.
pub struct DependencyGraph<const N: usize> {
    edges: [Option<DriverDependency>; N],
    len: usize,
}

impl<const N: usize> DependencyGraph<N> {
    pub closed spec fn spec_edges(&self) -> Seq<Option<DriverDependency>> {
        self.edges@
    }

    pub closed spec fn spec_len(&self) -> int {
        self.len as int
    }

    /// The used prefix fits in the table.
    pub closed spec fn wf(&self) -> bool {
        self.len <= N
    }

    /// Following first edges from `x` returns to `target` within `n` steps.
    pub open spec fn reaches(&self, x: DriverId, target: DriverId, n: nat) -> bool {
        exists|s: nat| 1 <= s <= n && #[trigger] walk(self.spec_edges(), self.spec_len(), x, s) == Some(target)
    }

    pub fn new() -> (g: Self)
        ensures
            g.wf(),
            g.spec_len() == 0,
    {
        Self { edges: [None; N], len: 0 }
    }

    pub fn len(&self) -> (r: usize)
        ensures
            r == self.spec_len(),
    {
        self.len
    }

    fn requirement(&self, driver: DriverId) -> (r: Option<DriverId>)
        requires
            self.wf(),
        ensures
            r == first_requirement(self.spec_edges(), self.spec_len(), driver),
    {
        let mut i: usize = 0;
        while i < self.len
            invariant
                self.len <= N,
                self.edges@.len() == N,
                i <= self.len,
                forall|j: int| 0 <= j < i ==> !edge_of(#[trigger] self.edges@[j], driver),
            decreases self.len - i,
        {
            if let Some(edge) = self.edges[i] {
                if edge.driver == driver {
                    assert(edge_of(self.edges@[i as int], driver));
                    return Some(edge.requires);
                }
            }
            i += 1;
        }
        None
    }

    /// Adds `dependency.driver -> dependency.requires` unless it is a
    /// self-dependency, or the chain of first edges from its target comes back
    /// to its source (or is still going) after `N` steps.
    pub fn add(&mut self, dependency: DriverDependency) -> (r: Result<(), DependencyError>)
        requires
            old(self).wf(),
        ensures
            final(self).wf(),
            r == if dependency.driver == dependency.requires {
                Err(DependencyError::SelfDependency)
            } else if old(self).reaches(dependency.requires, dependency.driver, N as nat)
                || (N > 0 && walk(old(self).spec_edges(), old(self).spec_len(), dependency.requires, N as nat) is Some) {
                Err(DependencyError::Cycle)
            } else if old(self).spec_len() == N {
                Err(DependencyError::MissingDependency)
            } else {
                Ok(())
            },
            r is Ok ==> final(self).spec_len() == old(self).spec_len() + 1
                && final(self).spec_edges() == old(self).spec_edges().update(old(self).spec_len(), Some(dependency)),
            r is Err ==> *final(self) == *old(self),
    {
        if dependency.driver == dependency.requires {
            return Err(DependencyError::SelfDependency);
        }
        let ghost edges = self.edges@;
        let ghost len = self.len as int;
        let mut cursor = dependency.requires;
        let mut steps: usize = 0;
        proof { lemma_walk_zero(edges, len, dependency.requires); }
        loop
            invariant
                self.wf(),
                edges == self.edges@,
                len == self.len,
                *self == *old(self),
                dependency.driver != dependency.requires,
                steps < N || (N == 0 && steps == 0),
                walk(edges, len, dependency.requires, steps as nat) == Some(cursor),
                forall|s: nat| 1 <= s <= steps ==> #[trigger] walk(edges, len, dependency.requires, s) != Some(dependency.driver),
        ensures
            *self == *old(self),
            edges == self.edges@,
            len == self.len,
            !old(self).reaches(dependency.requires, dependency.driver, N as nat),
            !(N > 0 && walk(edges, len, dependency.requires, N as nat) is Some),
        decreases N - steps,
        {
            let next = match self.requirement(cursor) {
                Some(n) => n,
                None => {
                    proof {
                        lemma_walk_step(edges, len, dependency.requires, steps as nat);
                        if N > steps {
                            lemma_chain_stops(edges, len, dependency.requires, dependency.driver, steps as nat, N as nat);
                        }
                    }
                    break;
                },
            };
            proof { lemma_walk_step(edges, len, dependency.requires, steps as nat); }
            if next == dependency.driver {
                assert(old(self).reaches(dependency.requires, dependency.driver, N as nat));
                return Err(DependencyError::Cycle);
            }
            cursor = next;
            steps += 1;
            if steps >= N {
                return Err(DependencyError::Cycle);
            }
        }
        if self.len == N {
            return Err(DependencyError::MissingDependency);
        }
        self.edges.set(self.len, Some(dependency));
        self.len = self.len + 1;
        Ok(())
    }

    pub fn dependency_of(&self, driver: DriverId) -> (r: Option<DriverId>)
        requires
            self.wf(),
        ensures
            r == first_requirement(self.spec_edges(), self.spec_len(), driver),
    {
        self.requirement(driver)
    }
}

#[derive(Clone, Copy, Debug, PartialEq, Eq, Structural)]
pub struct DriverHealth {
    pub driver: DriverId,
    pub state: DriverState,
    pub consecutive_failures: u16,
    pub restart_count: u16,
    pub heartbeat_budget: u32,
}

impl DriverHealth {
    pub fn new(driver: DriverId) -> (h: Self)
        ensures
            h == (DriverHealth { driver, state: DriverState::Discovered, consecutive_failures: 0, restart_count: 0, heartbeat_budget: 0 }),
    {
        Self { driver, state: DriverState::Discovered, consecutive_failures: 0, restart_count: 0, heartbeat_budget: 0 }
    }

    pub fn record_success(self) -> (h: Self)
        ensures
            h == (DriverHealth { state: DriverState::Running, consecutive_failures: 0, ..self }),
    {
        Self { state: DriverState::Running, consecutive_failures: 0, ..self }
    }

    pub fn record_failure(self) -> (h: Self)
        ensures
            h == (DriverHealth { state: DriverState::Failed, consecutive_failures: self.consecutive_failures.saturating_add(1), ..self }),
    {
        Self { state: DriverState::Failed, consecutive_failures: self.consecutive_failures.saturating_add(1), ..self }
    }

    pub fn can_restart(self, max_restarts: u16) -> (r: bool)
        ensures
            r == (self.restart_count < max_restarts),
    {
        self.restart_count < max_restarts
    }

    pub fn restarted(self) -> (h: Self)
        ensures
            h == (DriverHealth { state: DriverState::Starting, restart_count: self.restart_count.saturating_add(1), consecutive_failures: 0, ..self }),
    {
        Self { state: DriverState::Starting, restart_count: self.restart_count.saturating_add(1), consecutive_failures: 0, ..self }
    }
}

} // verus!
