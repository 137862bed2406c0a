use vstd::prelude::*;

verus! {

/// The named systems of a turn pass.
#[derive(Clone, Copy, Debug, PartialEq, Eq, Structural)]
pub enum SystemId {
    MapIndexing,
    Visibility,
    GlobalTurn,
    MonsterAi,
    Movement,
    MeleeCombat,
    Wait,
    PickUp,
    UseItem,
    Drop,
    Damage,
    Particle,
}

#[derive(Clone, Copy, Debug, PartialEq, Eq, Structural)]
pub enum ScheduleError {
    /// The system is registered already.
    Duplicate(SystemId),
    /// A system it must run after has not been registered.
    UnknownDependency(SystemId),
}

/// A dependency graph of systems, kept in registration order. A system may only be
/// registered after every system it runs after, so registration order is a
/// topological order and a pass runs the systems in it.
pub struct SysRunner {
    pub systems: Vec<SystemId>,
    /// `deps[i]` holds the positions of the systems that system `i` runs after.
    pub deps: Vec<Vec<usize>>,
}

pub open spec fn rank(s: SystemId) -> int {
    match s {
        SystemId::MapIndexing => 0,
        SystemId::Visibility => 1,
        SystemId::GlobalTurn => 2,
        SystemId::MonsterAi => 3,
        SystemId::Movement => 4,
        SystemId::MeleeCombat => 5,
        SystemId::Wait => 6,
        SystemId::PickUp => 7,
        SystemId::UseItem => 8,
        SystemId::Drop => 9,
        SystemId::Damage => 10,
        SystemId::Particle => 11,
    }
}

proof fn lemma_rank(s: Seq<SystemId>, i: int)
    requires
        s == seq![
            SystemId::MapIndexing, SystemId::Visibility, SystemId::GlobalTurn, SystemId::MonsterAi,
            SystemId::Movement, SystemId::MeleeCombat, SystemId::Wait, SystemId::PickUp,
            SystemId::UseItem, SystemId::Drop, SystemId::Damage, SystemId::Particle,
        ],
        0 <= i < 12,
    ensures
        rank(s[i]) == i,
{
    if i == 0 {} else if i == 1 {} else if i == 2 {} else if i == 3 {}
    else if i == 4 {} else if i == 5 {} else if i == 6 {} else if i == 7 {}
    else if i == 8 {} else if i == 9 {} else if i == 10 {} else {}
}

impl SysRunner {
    /// Each system once, and every dependency registered before its dependent.
    pub open spec fn wf(&self) -> bool {
        &&& self.systems@.len() == self.deps@.len()
        &&& self.systems@.no_duplicates()
        &&& forall|i: int, k: int| 0 <= i < self.deps@.len() && 0 <= k < self.deps@[i]@.len()
            ==> #[trigger] self.deps@[i]@[k] < i
    }

    /// `b` is declared to run after `a`.
    pub open spec fn runs_after(&self, b: SystemId, a: SystemId) -> bool {
        exists|i: int, k: int| 0 <= i < self.deps@.len() && 0 <= k < self.deps@[i]@.len()
            && self.systems@[i] == b && #[trigger] self.deps@[i]@[k] < self.systems@.len()
            && self.systems@[self.deps@[i]@[k] as int] == a
    }

    /// A system declared to run after another is placed after it in the pass order,
    /// so it runs once the other has finished and sees everything it wrote.
    pub proof fn lemma_dependency_runs_first(&self, b: SystemId, a: SystemId)
        requires
            self.wf(),
            self.runs_after(b, a),
        ensures
            forall|i: int, j: int| 0 <= i < self.systems@.len() && 0 <= j < self.systems@.len()
                && self.systems@[i] == b && self.systems@[j] == a ==> j < i,
    {
        let (i0, k0) = choose|i: int, k: int| 0 <= i < self.deps@.len() && 0 <= k < self.deps@[i]@.len()
            && self.systems@[i] == b && #[trigger] self.deps@[i]@[k] < self.systems@.len()
            && self.systems@[self.deps@[i]@[k] as int] == a;
        let d = self.deps@[i0]@[k0] as int;
        assert(d < i0);
        assert forall|i: int, j: int| 0 <= i < self.systems@.len() && 0 <= j < self.systems@.len()
            && self.systems@[i] == b && self.systems@[j] == a implies j < i by {
            if i != i0 {
                assert(self.systems@[i] != self.systems@[i0]);
            }
            if j != d {
                assert(self.systems@[j] != self.systems@[d]);
            }
        }
    }

    pub fn empty() -> (r: SysRunner)
        ensures
            r.wf(),
            r.systems@.len() == 0,
    {
        SysRunner { systems: Vec::new(), deps: Vec::new() }
    }

    pub fn position(&self, s: SystemId) -> (r: Option<usize>)
        ensures
            r matches Some(p) ==> p < self.systems@.len() && self.systems@[p as int] == s,
            r is None ==> !self.systems@.contains(s),
    {
        let mut i: usize = 0;
        while i < self.systems.len()
            invariant
                i <= self.systems@.len(),
                forall|j: int| 0 <= j < i ==> self.systems@[j] != s,
            decreases self.systems@.len() - i,
        {
            if self.systems[i] == s {
                return Some(i);
            }
            i += 1;
        }
        None
    }

    /// Registers `system` to run after each of `after`. Fails, changing nothing, when
    /// `system` is registered already or one of `after` is not.
    pub fn with(&mut self, system: SystemId, after: &Vec<SystemId>) -> (r: Result<(), ScheduleError>)
        requires
            old(self).wf(),
        ensures
            final(self).wf(),
            r is Ok <==> (!old(self).systems@.contains(system)
                && forall|k: int| 0 <= k < after@.len() ==> old(self).systems@.contains(#[trigger] after@[k])),
            r matches Err(ScheduleError::Duplicate(s)) ==> s == system && old(self).systems@.contains(system),
            r matches Err(ScheduleError::UnknownDependency(s)) ==> after@.contains(s) && !old(self).systems@.contains(s),
            r is Ok ==> final(self).systems@ == old(self).systems@.push(system),
            r is Ok ==> forall|a: SystemId| after@.contains(a) ==> #[trigger] final(self).runs_after(system, a),
            r is Err ==> final(self).systems@ == old(self).systems@ && final(self).deps@ == old(self).deps@,
    {
        if let Some(_) = self.position(system) {
            return Err(ScheduleError::Duplicate(system));
        }
        let mut deps: Vec<usize> = Vec::new();
        let mut k: usize = 0;
        while k < after.len()
            invariant
                k <= after@.len(),
                self.wf(),
                self.systems@ == old(self).systems@,
                self.deps@ == old(self).deps@,
                !self.systems@.contains(system),
                deps@.len() == k,
                forall|j: int| 0 <= j < k ==> #[trigger] deps@[j] < self.systems@.len()
                    && self.systems@[deps@[j] as int] == after@[j],
            decreases after@.len() - k,
        {
            match self.position(after[k]) {
                Some(p) => deps.push(p),
                None => {
                    assert(after@.contains(after@[k as int]));
                    return Err(ScheduleError::UnknownDependency(after[k]));
                },
            }
            k += 1;
        }
        let ghost n = self.systems@.len();
        self.systems.push(system);
        self.deps.push(deps);
        proof {
            assert forall|a: int, b: int| 0 <= a < self.systems@.len() && 0 <= b < self.systems@.len() && a != b
                implies self.systems@[a] != self.systems@[b] by {
                if a == n {
                    assert(self.systems@[b] == old(self).systems@[b]);
                    if old(self).systems@[b] == system {
                        assert(old(self).systems@.contains(system));
                    }
                } else if b == n {
                    assert(self.systems@[a] == old(self).systems@[a]);
                    if old(self).systems@[a] == system {
                        assert(old(self).systems@.contains(system));
                    }
                }
            }
            assert forall|j: int| 0 <= j < after@.len() implies old(self).systems@.contains(#[trigger] after@[j]) by {
                assert(old(self).systems@[deps@[j] as int] == after@[j]);
            }
            assert forall|x: SystemId| after@.contains(x) implies #[trigger] self.runs_after(system, x) by {
                let j = choose|j: int| 0 <= j < after@.len() && after@[j] == x;
                assert(self.deps@[n as int]@[j] < self.systems@.len());
            }
        }
        Ok(())
    }

    /// The pass used every turn: indexing first; visibility, global-turn bookkeeping
    /// and AI after it; movement, melee, waiting, pick-up, item use and drop after AI;
    /// damage after melee and item use; particles after damage.
    pub fn new() -> (r: SysRunner)
        ensures
            r.wf(),
            r.systems@ == seq![
                SystemId::MapIndexing, SystemId::Visibility, SystemId::GlobalTurn, SystemId::MonsterAi,
                SystemId::Movement, SystemId::MeleeCombat, SystemId::Wait, SystemId::PickUp,
                SystemId::UseItem, SystemId::Drop, SystemId::Damage, SystemId::Particle,
            ],
            r.runs_after(SystemId::Visibility, SystemId::MapIndexing),
            r.runs_after(SystemId::GlobalTurn, SystemId::MapIndexing),
            r.runs_after(SystemId::MonsterAi, SystemId::MapIndexing),
            r.runs_after(SystemId::Movement, SystemId::MonsterAi),
            r.runs_after(SystemId::MeleeCombat, SystemId::MonsterAi),
            r.runs_after(SystemId::Wait, SystemId::MonsterAi),
            r.runs_after(SystemId::PickUp, SystemId::MonsterAi),
            r.runs_after(SystemId::UseItem, SystemId::MonsterAi),
            r.runs_after(SystemId::Drop, SystemId::MonsterAi),
            r.runs_after(SystemId::Damage, SystemId::MeleeCombat),
            r.runs_after(SystemId::Damage, SystemId::UseItem),
            r.runs_after(SystemId::Particle, SystemId::Damage),
    {
        let systems = vec![
            SystemId::MapIndexing, SystemId::Visibility, SystemId::GlobalTurn, SystemId::MonsterAi,
            SystemId::Movement, SystemId::MeleeCombat, SystemId::Wait, SystemId::PickUp,
            SystemId::UseItem, SystemId::Drop, SystemId::Damage, SystemId::Particle,
        ];
        let deps = vec![
            vec![], vec![0], vec![0], vec![0],
            vec![3], vec![3], vec![3], vec![3],
            vec![3], vec![3], vec![5, 8], vec![10],
        ];
        let r = SysRunner { systems, deps };
        proof {
            assert forall|a: int, b: int| 0 <= a < 12 && 0 <= b < 12 && a != b
                implies r.systems@[a] != r.systems@[b] by {
                lemma_rank(r.systems@, a);
                lemma_rank(r.systems@, b);
            }
            assert forall|i: int, k: int| 0 <= i < 12 && 0 <= k < r.deps@[i]@.len()
                implies #[trigger] r.deps@[i]@[k] < i by {
                if i == 0 {} else if i == 1 {} else if i == 2 {} else if i == 3 {}
                else if i == 4 {} else if i == 5 {} else if i == 6 {} else if i == 7 {}
                else if i == 8 {} else if i == 9 {} else if i == 10 {} else {}
            }
            assert(r.deps@[1]@[0] == 0);
            assert(r.deps@[2]@[0] == 0);
            assert(r.deps@[3]@[0] == 0);
            assert(r.deps@[4]@[0] == 3);
            assert(r.deps@[5]@[0] == 3);
            assert(r.deps@[6]@[0] == 3);
            assert(r.deps@[7]@[0] == 3);
            assert(r.deps@[8]@[0] == 3);
            assert(r.deps@[9]@[0] == 3);
            assert(r.deps@[10]@[0] == 5);
            assert(r.deps@[10]@[1] == 8);
            assert(r.deps@[11]@[0] == 10);
        }
        r
    }
}

} // verus!
