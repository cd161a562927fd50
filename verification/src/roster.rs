use vstd::prelude::*;

verus! {

/// The bookkeeping state of an ensemble, as plain values.
pub struct RosterView {
    /// The ids of the agents present, in the order they joined
    pub ids: Seq<u64>,
    /// The id the next spawned agent receives
    pub next_id: nat,
    /// The number of ticks elapsed
    pub tick_count: nat,
}

impl RosterView {
    /// Ids strictly increase in joining order (so no two agents share an
    /// id), every id present was handed out before `next_id`, and both
    /// counters fit in a `u64`.
    pub open spec fn well_formed(self) -> bool {
        &&& self.next_id <= u64::MAX
        &&& self.tick_count <= u64::MAX
        &&& forall|i: int, j: int| 0 <= i < j < self.ids.len() ==> self.ids[i] < self.ids[j]
        &&& forall|i: int| 0 <= i < self.ids.len() ==> self.ids[i] < self.next_id
    }
}

/// `i` is the first position of `id` in `ids`.
pub open spec fn is_first_index(ids: Seq<u64>, id: u64, i: int) -> bool {
    &&& 0 <= i < ids.len()
    &&& ids[i] == id
    &&& forall|j: int| 0 <= j < i ==> ids[j] != id
}

/// The roster after an agent joins: it receives `next_id`, which then
/// advances by one.
pub open spec fn spawn_spec(v: RosterView) -> RosterView {
    RosterView {
        ids: v.ids.push(v.next_id as u64),
        next_id: v.next_id + 1,
        tick_count: v.tick_count,
    }
}

/// The position at which the agent `id` leaves, if it is present: its first
/// position.
pub open spec fn removal_position(v: RosterView, id: u64) -> Option<int> {
    if v.ids.contains(id) {
        Some(choose|i: int| is_first_index(v.ids, id, i))
    } else {
        None
    }
}

/// The roster after the agent `id` is asked to leave: the agent at its
/// first position leaves; an absent id changes nothing.
pub open spec fn remove_spec(v: RosterView, id: u64) -> RosterView {
    match removal_position(v, id) {
        Some(i) => RosterView {
            ids: v.ids.remove(i),
            next_id: v.next_id,
            tick_count: v.tick_count,
        },
        None => v,
    }
}

/// Who is in the ensemble and how long it has played: the agents' ids in
/// joining order, the next id to hand out, and the tick count.
#[derive(Debug)]
pub struct Roster {
    ids: Vec<u64>,
    next_id: u64,
    tick_count: u64,
}

impl View for Roster {
    type V = RosterView;

    closed spec fn view(&self) -> RosterView {
        RosterView { ids: self.ids@, next_id: self.next_id as nat, tick_count: self.tick_count as nat }
    }
}

impl Clone for Roster {
    fn clone(&self) -> (r: Self)
        ensures
            r@ == self@,
    {
        proof {
            use_type_invariant(self);
        }
        let ids = self.ids.clone();
        assert(ids@ =~= self.ids@);
        Roster { ids, next_id: self.next_id, tick_count: self.tick_count }
    }
}

impl Roster {
    #[verifier::type_invariant]
    closed spec fn inv(self) -> bool {
        self@.well_formed()
    }

    /// An empty roster: no agents, ids start at 0, no ticks yet.
    pub fn new() -> (r: Self)
        ensures
            r@.ids == Seq::<u64>::empty(),
            r@.next_id == 0,
            r@.tick_count == 0,
            r@.well_formed(),
    {
        Roster { ids: Vec::new(), next_id: 0, tick_count: 0 }
    }

    /// Every roster is well formed.
    pub fn check_well_formed(&self)
        ensures
            self@.well_formed(),
    {
        proof {
            use_type_invariant(self);
        }
    }

    /// Add a new agent and return its assigned id.
    ///
    /// Ids are handed out in order from 0; handing out `u64::MAX` would
    /// overflow the counter, so it is never reached.
    pub fn spawn_agent(&mut self) -> (id: u64)
        requires
            old(self)@.next_id < u64::MAX,
        ensures
            id == old(self)@.next_id,
            final(self)@ == spawn_spec(old(self)@),
            final(self)@.well_formed(),
            !old(self)@.ids.contains(id),
            final(self)@.ids == old(self)@.ids.push(id),
            final(self)@.next_id == old(self)@.next_id + 1,
            final(self)@.tick_count == old(self)@.tick_count,
    {
        proof {
            use_type_invariant(&*self);
        }
        let id = self.next_id;
        let ghost v = self@;
        assert(RosterView { next_id: v.next_id + 1, ..v }.well_formed());
        self.next_id = id + 1;
        let mut ids: Vec<u64> = Vec::new();
        std::mem::swap(&mut ids, &mut self.ids);
        ids.push(id);
        assert(spawn_spec(v).well_formed()) by {
            assert(spawn_spec(v).ids == ids@);
        }
        self.ids = ids;
        id
    }

    /// Remove the agent `id`. Returns the position it held, or `None`
    /// (changing nothing) if no agent has that id.
    pub fn remove_agent(&mut self, id: u64) -> (pos: Option<usize>)
        ensures
            match pos {
                Some(p) => removal_position(old(self)@, id) == Some(p as int),
                None => removal_position(old(self)@, id) is None,
            },
            final(self)@ == remove_spec(old(self)@, id),
            final(self)@.well_formed(),
            pos is Some <==> old(self)@.ids.contains(id),
            pos is None ==> final(self)@ == old(self)@,
            pos matches Some(p) ==> {
                &&& p < old(self)@.ids.len()
                &&& old(self)@.ids[p as int] == id
                &&& final(self)@.ids == old(self)@.ids.remove(p as int)
            },
            forall|x: u64| #[trigger] final(self)@.ids.contains(x) <==> (old(self)@.ids.contains(x) && x != id),
            final(self)@.next_id == old(self)@.next_id,
            final(self)@.tick_count == old(self)@.tick_count,
    {
        proof {
            use_type_invariant(&*self);
        }
        proof {
            lemma_remove_keeps_others(self@, id);
        }
        let n = self.ids.len();
        let mut i: usize = 0;
        while i < n
            invariant
                n == self.ids@.len(),
                i <= n,
                forall|j: int| 0 <= j < i ==> self.ids@[j] != id,
            ensures
                i <= n,
                forall|j: int| 0 <= j < i ==> self.ids@[j] != id,
                i < n ==> self.ids@[i as int] == id,
            decreases n - i,
        {
            if self.ids[i] == id {
                break;
            }
            i = i + 1;
        }
        let ghost v = self@;
        if i < n {
            proof {
                assert(is_first_index(v.ids, id, i as int));
                assert(v.ids.contains(id));
                let c = choose|k: int| is_first_index(v.ids, id, k);
                assert(c == i as int) by {
                    if c < i as int {
                    } else if c > i as int {
                        assert(v.ids[i as int] != id);
                    }
                }
            }
            let mut ids: Vec<u64> = Vec::new();
            std::mem::swap(&mut ids, &mut self.ids);
            ids.remove(i);
            proof {
                let r = RosterView { ids: ids@, ..v };
                assert(r.well_formed()) by {
                    assert forall|a: int, b: int| 0 <= a < b < r.ids.len() implies r.ids[a]
                        < r.ids[b] by {
                        let a0 = if a < i { a } else { a + 1 };
                        let b0 = if b < i { b } else { b + 1 };
                        assert(r.ids[a] == v.ids[a0]);
                        assert(r.ids[b] == v.ids[b0]);
                    }
                    assert forall|a: int| 0 <= a < r.ids.len() implies r.ids[a] < r.next_id by {
                        let a0 = if a < i { a } else { a + 1 };
                        assert(r.ids[a] == v.ids[a0]);
                    }
                }
            }
            self.ids = ids;
            Some(i)
        } else {
            proof {
                assert(!v.ids.contains(id)) by {
                    if v.ids.contains(id) {
                        let k = choose|k: int| 0 <= k < v.ids.len() && v.ids[k] == id;
                        assert(k < i as int);
                    }
                }
            }
            None
        }
    }

    /// Count one more tick and return the new count.
    ///
    /// The count never passes `u64::MAX`.
    pub fn record_tick(&mut self) -> (count: u64)
        requires
            old(self)@.tick_count < u64::MAX,
        ensures
            count == old(self)@.tick_count + 1,
            final(self)@ == (RosterView { tick_count: old(self)@.tick_count + 1, ..old(self)@ }),
            final(self)@.well_formed(),
    {
        proof {
            use_type_invariant(&*self);
        }
        self.tick_count = self.tick_count + 1;
        self.tick_count
    }

    /// The number of agents present.
    pub fn len(&self) -> (n: usize)
        ensures
            n == self@.ids.len(),
    {
        self.ids.len()
    }

    /// Whether no agent is present.
    pub fn is_empty(&self) -> (b: bool)
        ensures
            b == (self@.ids.len() == 0),
    {
        self.ids.len() == 0
    }

    /// The ids of the agents present, in joining order.
    pub fn ids(&self) -> (ids: &Vec<u64>)
        ensures
            ids@ == self@.ids,
    {
        &self.ids
    }

    /// The id the next spawned agent will receive.
    pub fn next_id(&self) -> (id: u64)
        ensures
            id == self@.next_id,
    {
        self.next_id
    }

    /// The number of ticks elapsed.
    pub fn tick_count(&self) -> (t: u64)
        ensures
            t == self@.tick_count,
    {
        self.tick_count
    }
}

/// Spawning an agent and then removing it by the id it received undoes the
/// spawn: the agent is found at the end, and the ids are back to
/// what they were (only the id counter has moved on).
pub proof fn lemma_spawn_then_remove(v: RosterView)
    requires
        v.well_formed(),
    ensures
        removal_position(spawn_spec(v), v.next_id as u64) == Some(v.ids.len() as int),
        remove_spec(spawn_spec(v), v.next_id as u64) == (RosterView {
            next_id: v.next_id + 1,
            ..v
        }),
{
    let s = spawn_spec(v);
    let id = v.next_id as u64;
    let n = v.ids.len() as int;
    assert(s.ids[n] == id);
    assert(is_first_index(s.ids, id, n)) by {
        assert forall|j: int| 0 <= j < n implies s.ids[j] != id by {
            assert(s.ids[j] == v.ids[j]);
        }
    }
    assert(s.ids.contains(id));
    let c = choose|k: int| is_first_index(s.ids, id, k);
    assert(c == n) by {
        if c < n {
            assert(s.ids[c] == v.ids[c]);
        }
    }
    assert(s.ids.remove(n) =~= v.ids);
}

/// Removing an id leaves no agent with that id, and removes exactly one
/// agent when the id was present (none otherwise); the roster stays well
/// formed.
pub proof fn lemma_remove_clears_id(v: RosterView, id: u64)
    requires
        v.well_formed(),
    ensures
        !remove_spec(v, id).ids.contains(id),
        remove_spec(v, id).ids.len() == if v.ids.contains(id) {
            v.ids.len() - 1
        } else {
            v.ids.len() as int
        },
        remove_spec(v, id).well_formed(),
{
    if v.ids.contains(id) {
        let i = choose|k: int| is_first_index(v.ids, id, k);
        let k0 = choose|k: int| 0 <= k < v.ids.len() && v.ids[k] == id;
        assert(is_first_index(v.ids, id, i)) by {
            if !is_first_index(v.ids, id, k0) {
                let m = choose|j: int| 0 <= j < k0 && v.ids[j] == id;
                assert(is_first_index(v.ids, id, m)) by {
                    assert forall|j: int| 0 <= j < m implies v.ids[j] != id by {
                        assert(v.ids[j] < v.ids[m]);
                    }
                }
            }
        }
        let r = remove_spec(v, id);
        assert forall|a: int| 0 <= a < r.ids.len() implies r.ids[a] != id by {
            let a0 = if a < i { a } else { a + 1 };
            assert(r.ids[a] == v.ids[a0]);
            if a0 < i {
                assert(v.ids[a0] < v.ids[i]);
            } else {
                assert(v.ids[i] < v.ids[a0]);
            }
        }
        assert forall|a: int, b: int| 0 <= a < b < r.ids.len() implies r.ids[a] < r.ids[b] by {
            let a0 = if a < i { a } else { a + 1 };
            let b0 = if b < i { b } else { b + 1 };
            assert(r.ids[a] == v.ids[a0]);
            assert(r.ids[b] == v.ids[b0]);
        }
        assert forall|a: int| 0 <= a < r.ids.len() implies r.ids[a] < r.next_id by {
            let a0 = if a < i { a } else { a + 1 };
            assert(r.ids[a] == v.ids[a0]);
        }
    }
}

/// Ids are never handed out twice: the id the next spawn hands out is not
/// held by any agent present, nor by one that was just removed.
pub proof fn lemma_ids_not_reused(v: RosterView, id: u64)
    requires
        v.well_formed(),
        v.ids.contains(id),
    ensures
        remove_spec(v, id).next_id != id,
        !v.ids.contains(v.next_id as u64),
{
    let k = choose|k: int| 0 <= k < v.ids.len() && v.ids[k] == id;
    assert(v.ids[k] < v.next_id);
    if v.ids.contains(v.next_id as u64) {
        let m = choose|m: int| 0 <= m < v.ids.len() && v.ids[m] == v.next_id as u64;
        assert(v.ids[m] < v.next_id);
    }
}

/// When `id` is present, its removal position holds `id` and is its only
/// position.
proof fn lemma_removal_position_present(v: RosterView, id: u64) -> (i: int)
    requires
        v.well_formed(),
        v.ids.contains(id),
    ensures
        removal_position(v, id) == Some(i),
        0 <= i < v.ids.len(),
        v.ids[i] == id,
        forall|j: int| 0 <= j < v.ids.len() && j != i ==> v.ids[j] != id,
{
    let k0 = choose|k: int| 0 <= k < v.ids.len() && v.ids[k] == id;
    assert(is_first_index(v.ids, id, k0)) by {
        assert forall|j: int| 0 <= j < k0 implies v.ids[j] != id by {
            assert(v.ids[j] < v.ids[k0]);
        }
    }
    let i = choose|k: int| is_first_index(v.ids, id, k);
    assert forall|j: int| 0 <= j < v.ids.len() && j != i implies v.ids[j] != id by {
        if j < i {
            assert(v.ids[j] < v.ids[i]);
        } else {
            assert(v.ids[i] < v.ids[j]);
        }
    }
    i
}

/// Asking an id that no agent holds to leave changes nothing at all: the
/// ids, their order, the id counter and the tick count stay as they were.
pub proof fn lemma_remove_absent_unchanged(v: RosterView, id: u64)
    requires
        v.well_formed(),
        !v.ids.contains(id),
    ensures
        removal_position(v, id) is None,
        remove_spec(v, id) == v,
        remove_spec(v, id).ids == v.ids,
{
}

/// Removing `id` keeps every other agent, under its own id and in its own
/// order, and drops exactly the agent with that id: an id is present
/// afterwards exactly when it was present before and is not `id`. The id
/// counter and the tick count do not change. When `id` was present, the
/// reported position is where it stood, and the agents before that
/// position keep their positions while those after it move down by one.
pub proof fn lemma_remove_keeps_others(v: RosterView, id: u64)
    requires
        v.well_formed(),
    ensures
        forall|x: u64| #[trigger] remove_spec(v, id).ids.contains(x) <==> (v.ids.contains(x) && x != id),
        remove_spec(v, id).next_id == v.next_id,
        remove_spec(v, id).tick_count == v.tick_count,
        remove_spec(v, id).well_formed(),
        removal_position(v, id) is Some <==> v.ids.contains(id),
        removal_position(v, id) is None ==> remove_spec(v, id) == v,
        removal_position(v, id) matches Some(i) ==> {
            &&& 0 <= i < v.ids.len()
            &&& v.ids[i] == id
            &&& remove_spec(v, id).ids.len() == v.ids.len() - 1
            &&& forall|j: int| 0 <= j < i ==> remove_spec(v, id).ids[j] == v.ids[j]
            &&& forall|j: int| i <= j < v.ids.len() - 1 ==> remove_spec(v, id).ids[j] == v.ids[j + 1]
        },
{
    lemma_remove_clears_id(v, id);
    if v.ids.contains(id) {
        let i = lemma_removal_position_present(v, id);
        let r = remove_spec(v, id);
        assert forall|x: u64| #[trigger] r.ids.contains(x) <==> (v.ids.contains(x) && x != id) by {
            if r.ids.contains(x) {
                let a = choose|a: int| 0 <= a < r.ids.len() && r.ids[a] == x;
                let a0 = if a < i { a } else { a + 1 };
                assert(r.ids[a] == v.ids[a0]);
            }
            if v.ids.contains(x) && x != id {
                let k = choose|k: int| 0 <= k < v.ids.len() && v.ids[k] == x;
                let k1 = if k < i { k } else { k - 1 };
                assert(r.ids[k1] == x);
            }
        }
    }
}

/// A spawn appends one agent, holding the old value of the id counter, at
/// the end; every agent already present keeps its id and position; the id
/// counter moves up by one and the tick count does not change.
pub proof fn lemma_spawn_appends(v: RosterView)
    requires
        v.well_formed(),
        v.next_id < u64::MAX,
    ensures
        spawn_spec(v).ids.len() == v.ids.len() + 1,
        forall|j: int| 0 <= j < v.ids.len() ==> spawn_spec(v).ids[j] == v.ids[j],
        spawn_spec(v).ids[v.ids.len() as int] == v.next_id,
        !v.ids.contains(v.next_id as u64),
        spawn_spec(v).next_id == v.next_id + 1,
        spawn_spec(v).tick_count == v.tick_count,
        spawn_spec(v).well_formed(),
{
    if v.ids.contains(v.next_id as u64) {
        let m = choose|m: int| 0 <= m < v.ids.len() && v.ids[m] == v.next_id as u64;
        assert(v.ids[m] < v.next_id);
    }
}

} // verus!
