//! The choice of the vCPU that a schedulable entity runs on.
use vstd::prelude::*;

use crate::bitmask::BitMask;

verus! {

/// What the selection of a vCPU needs to know of a schedulable entity.
#[derive(Debug)]
pub struct SchedState {
    /// The vCPUs that the entity may run on.
    pub affinity: BitMask,
    /// The vCPU that the entity ran on last, if it ran before.
    pub vcpu: Option<u32>,
}

/// Whether a vCPU can be looked up: it has a bit in the affinity mask, and where the mask
/// allows it, it is one of the `num_vcpus` that there are.
pub open spec fn is_known(vcpu: Option<u32>, affinity: Seq<bool>, num_vcpus: u32) -> bool {
    vcpu matches Some(v) ==> v < affinity.len() && (affinity[v as int] ==> v < num_vcpus)
}

/// Whether the entity may run on the vCPU, where one is given.
pub open spec fn is_allowed(vcpu: Option<u32>, affinity: Seq<bool>) -> bool {
    vcpu matches Some(v) && affinity[v as int]
}

/// Whether vCPU `i` has status `want` in `mask` and is in the affinity mask.
pub open spec fn is_match(i: int, mask: Seq<bool>, want: bool, affinity: Seq<bool>) -> bool {
    0 <= i < mask.len() && mask[i] == want && affinity[i]
}

/// Whether any vCPU with status `want` in `mask` is in the affinity mask.
pub open spec fn has_match(mask: Seq<bool>, want: bool, affinity: Seq<bool>) -> bool {
    exists|i: int| is_match(i, mask, want, affinity)
}

/// Whether `vcpu` is the first with status `want` in `mask` that is in the affinity mask.
pub open spec fn is_first_match(
    vcpu: u32,
    mask: Seq<bool>,
    want: bool,
    affinity: Seq<bool>,
) -> bool {
    &&& is_match(vcpu as int, mask, want, affinity)
    &&& forall|i: int| i < vcpu ==> !is_match(i, mask, want, affinity)
}

/// The value that a counter at `next` has after `k` increments; it wraps around.
pub open spec fn counter_after(next: u32, k: nat) -> int {
    (next + k) % 0x1_0000_0000
}

/// The vCPU whose turn it is after `k` increments of a counter at `next`.
pub open spec fn turn(next: u32, k: nat, num_vcpus: u32) -> int {
    counter_after(next, k) % (num_vcpus as int)
}

/// Whether the turn after `k` increments is the first of a vCPU in the affinity mask.
pub open spec fn is_first_turn(next: u32, k: nat, num_vcpus: u32, affinity: Seq<bool>) -> bool {
    &&& affinity[turn(next, k, num_vcpus)]
    &&& forall|j: nat| j < k ==> !affinity[#[trigger] turn(next, j, num_vcpus)]
}

/// Whether a counter at `next` gives the turn to `vcpu` and is left at `next_after`.
pub open spec fn takes_turn(
    next: u32,
    num_vcpus: u32,
    affinity: Seq<bool>,
    vcpu: u32,
    next_after: u32,
) -> bool {
    exists|k: nat|
        {
            &&& #[trigger] is_first_turn(next, k, num_vcpus, affinity)
            &&& vcpu == turn(next, k, num_vcpus)
            &&& next_after == counter_after(next, k + 1)
        }
}

/// The counter by which vCPUs are picked in turn.
#[derive(Debug)]
pub struct RoundRobin {
    next: u32,
}

impl View for RoundRobin {
    type V = u32;

    closed spec fn view(&self) -> u32 {
        self.next
    }
}

/// Every vCPU gets its turn within two rounds, even where the counter wraps around.
proof fn lemma_turn_comes(next: u32, num_vcpus: u32, vcpu: int) -> (k: nat)
    requires
        0 <= vcpu < num_vcpus,
    ensures
        turn(next, k, num_vcpus) == vcpu,
        k < 2 * num_vcpus,
{
    let n = num_vcpus as int;
    let r = next as int % n;
    let d = if r <= vcpu {
        vcpu - r
    } else {
        vcpu - r + n
    };
    vstd::arithmetic::div_mod::lemma_fundamental_div_mod(next as int, n);
    let q = next as int / n;
    assert(n * q == q * n && (q + 1) * n == q * n + n) by (nonlinear_arith);
    if next + d < 0x1_0000_0000 {
        let k = d as nat;
        if r <= vcpu {
            vstd::arithmetic::div_mod::lemma_fundamental_div_mod_converse(next + d, n, q, vcpu);
        } else {
            vstd::arithmetic::div_mod::lemma_fundamental_div_mod_converse(
                next + d,
                n,
                q + 1,
                vcpu,
            );
        }
        assert(counter_after(next, k) == next + d);
        k
    } else {
        let k = (0x1_0000_0000 - next + vcpu) as nat;
        assert(counter_after(next, k) == vcpu);
        vstd::arithmetic::div_mod::lemma_small_mod(vcpu as nat, n as nat);
        k
    }
}

impl RoundRobin {
    /// A counter that starts with the first vCPU.
    pub fn new() -> (counter: Self)
        ensures
            counter@ == 0,
    {
        RoundRobin { next: 0 }
    }

    /// Gives the turn to the next vCPU that is in the affinity mask.
    pub fn pick(&mut self, num_vcpus: u32, affinity: &BitMask) -> (vcpu: u32)
        requires
            num_vcpus <= affinity@.len(),
            exists|i: int| 0 <= i < num_vcpus && #[trigger] affinity@[i],
        ensures
            takes_turn(old(self)@, num_vcpus, affinity@, vcpu, final(self)@),
            vcpu < num_vcpus,
            affinity@[vcpu as int],
    {
        let ghost start = self.next;
        let ghost mut k: nat = 0;
        let ghost target = choose|i: int| 0 <= i < num_vcpus && #[trigger] affinity@[i];
        let ghost bound = lemma_turn_comes(start, num_vcpus, target);
        loop
            invariant
                num_vcpus > 0,
                num_vcpus <= affinity@.len(),
                self.next == counter_after(start, k),
                forall|j: nat| j < k ==> !affinity@[#[trigger] turn(start, j, num_vcpus)],
                k <= bound,
                affinity@[turn(start, bound, num_vcpus)],
                start == old(self)@,
            decreases bound - k,
        {
            let current = self.next;
            self.next = current.wrapping_add(1);
            let vcpu = current % num_vcpus;
            assert(vcpu == turn(start, k, num_vcpus));
            assert(self.next == counter_after(start, k + 1));
            if affinity.get(vcpu as usize) {
                assert(is_first_turn(start, k, num_vcpus, affinity@));
                return vcpu;
            }
            proof {
                k = k + 1;
            }
        }
    }
}

/// Decides which vCPU a schedulable entity should run on.
///
/// vCPU assignment respects the affinity mask of the entity. Beyond that, these are preferred:
///
/// 1. idle vCPUs, which are busy looking for entities to schedule;
/// 2. active vCPUs, which are not sleeping;
/// 3. the last vCPU that the entity ran on;
/// 4. the current vCPU, which makes the selection.
///
/// If none of these is in the affinity mask, the vCPUs of the mask take turns, so that work
/// spreads evenly.
#[derive(Debug)]
pub struct VcpuSelector {
    idle_vcpu_mask: BitMask,
    sleep_vcpu_mask: BitMask,
    num_vcpus: u32,
}

/// Whether, among vCPUs with the given statuses, an entity that ran on `last` and is
/// scheduled by `this` is sent to `vcpu`, while the turn counter goes from `next` to
/// `next_after`.
pub open spec fn selects(
    idle: Seq<bool>,
    sleeping: Seq<bool>,
    num_vcpus: u32,
    affinity: Seq<bool>,
    last: Option<u32>,
    this: Option<u32>,
    next: u32,
    vcpu: u32,
    next_after: u32,
) -> bool {
    if is_allowed(this, affinity) && idle[this.unwrap() as int] {
        vcpu == this.unwrap() && next_after == next
    } else if is_allowed(last, affinity) && idle[last.unwrap() as int] {
        vcpu == last.unwrap() && next_after == next
    } else if has_match(idle, true, affinity) {
        is_first_match(vcpu, idle, true, affinity) && next_after == next
    } else if is_allowed(last, affinity) && !sleeping[last.unwrap() as int] {
        vcpu == last.unwrap() && next_after == next
    } else if has_match(sleeping, false, affinity) {
        is_first_match(vcpu, sleeping, false, affinity) && next_after == next
    } else if is_allowed(last, affinity) {
        vcpu == last.unwrap() && next_after == next
    } else if is_allowed(this, affinity) {
        vcpu == this.unwrap() && next_after == next
    } else {
        takes_turn(next, num_vcpus, affinity, vcpu, next_after)
    }
}

/// The first of the listed vCPUs that is in the affinity mask.
fn find_allowed(list: &Vec<usize>, affinity: &BitMask) -> (found: Option<usize>)
    requires
        forall|k: int| 0 <= k < list@.len() ==> #[trigger] list@[k] < affinity@.len(),
    ensures
        match found {
            Some(i) => exists|k: int|
                {
                    &&& 0 <= k < list@.len()
                    &&& #[trigger] list@[k] == i
                    &&& affinity@[i as int]
                    &&& forall|l: int| 0 <= l < k ==> !affinity@[#[trigger] list@[l] as int]
                },
            None => forall|k: int|
                0 <= k < list@.len() ==> !affinity@[#[trigger] list@[k] as int],
        },
{
    let mut k: usize = 0;
    while k < list.len()
        invariant
            k <= list@.len(),
            forall|l: int| 0 <= l < list@.len() ==> #[trigger] list@[l] < affinity@.len(),
            forall|l: int| 0 <= l < k ==> !affinity@[#[trigger] list@[l] as int],
        decreases list@.len() - k,
    {
        if affinity.get(list[k]) {
            return Some(list[k]);
        }
        k = k + 1;
    }
    None
}

impl VcpuSelector {
    /// For each vCPU, whether it is idle.
    pub closed spec fn idle(&self) -> Seq<bool> {
        self.idle_vcpu_mask@
    }

    /// For each vCPU, whether it is sleeping.
    pub closed spec fn sleeping(&self) -> Seq<bool> {
        self.sleep_vcpu_mask@
    }

    /// The number of vCPUs.
    pub closed spec fn spec_num_vcpus(&self) -> u32 {
        self.num_vcpus
    }

    /// Both statuses are known of every vCPU.
    pub open spec fn wf(&self) -> bool {
        &&& self.idle().len() == self.spec_num_vcpus()
        &&& self.sleeping().len() == self.spec_num_vcpus()
    }

    /// A selector among `num_vcpus` vCPUs, none of which is idle or sleeping.
    pub fn new(num_vcpus: u32) -> (selector: Self)
        ensures
            selector.wf(),
            selector.spec_num_vcpus() == num_vcpus,
            selector.idle() == Seq::new(num_vcpus as nat, |i: int| false),
            selector.sleeping() == Seq::new(num_vcpus as nat, |i: int| false),
    {
        VcpuSelector {
            idle_vcpu_mask: BitMask::new_empty(num_vcpus as usize),
            sleep_vcpu_mask: BitMask::new_empty(num_vcpus as usize),
            num_vcpus,
        }
    }

    /// Notes whether a vCPU is idle, that is, busy looking for entities to schedule.
    pub fn notify_idle_status(&mut self, vcpu: u32, is_idle: bool)
        requires
            old(self).wf(),
            vcpu < old(self).spec_num_vcpus(),
        ensures
            final(self).wf(),
            final(self).spec_num_vcpus() == old(self).spec_num_vcpus(),
            final(self).idle() == old(self).idle().update(vcpu as int, is_idle),
            final(self).sleeping() == old(self).sleeping(),
    {
        self.idle_vcpu_mask.set(vcpu as usize, is_idle);
    }

    /// Notes whether a vCPU is sleeping.
    pub fn notify_sleep_status(&mut self, vcpu: u32, is_sleep: bool)
        requires
            old(self).wf(),
            vcpu < old(self).spec_num_vcpus(),
        ensures
            final(self).wf(),
            final(self).spec_num_vcpus() == old(self).spec_num_vcpus(),
            final(self).idle() == old(self).idle(),
            final(self).sleeping() == old(self).sleeping().update(vcpu as int, is_sleep),
    {
        self.sleep_vcpu_mask.set(vcpu as usize, is_sleep);
    }

    /// Selects the vCPU for an entity, given its state.
    ///
    /// If the current thread is used as a vCPU, then the vCPU number should be provided.
    pub fn select_vcpu(
        &self,
        sched_state: &SchedState,
        has_this_vcpu: Option<u32>,
        turns: &mut RoundRobin,
    ) -> (vcpu: u32)
        requires
            self.wf(),
            self.spec_num_vcpus() <= sched_state.affinity@.len(),
            exists|i: int|
                0 <= i < self.spec_num_vcpus() && #[trigger] sched_state.affinity@[i],
            is_known(has_this_vcpu, sched_state.affinity@, self.spec_num_vcpus()),
            is_known(sched_state.vcpu, sched_state.affinity@, self.spec_num_vcpus()),
        ensures
            selects(
                self.idle(),
                self.sleeping(),
                self.spec_num_vcpus(),
                sched_state.affinity@,
                sched_state.vcpu,
                has_this_vcpu,
                old(turns)@,
                vcpu,
                final(turns)@,
            ),
    {
        let affinity = &sched_state.affinity;
        // Whether this vCPU is in the affinity mask
        let this_vcpu: Option<u32> = match has_this_vcpu {
            Some(v) => if affinity.get(v as usize) {
                Some(v)
            } else {
                None
            },
            None => None,
        };
        // Whether the last vCPU is in the affinity mask
        let last_vcpu: Option<u32> = match sched_state.vcpu {
            Some(v) => if affinity.get(v as usize) {
                Some(v)
            } else {
                None
            },
            None => None,
        };

        // 1. This vCPU, if it is idle
        if let Some(v) = this_vcpu {
            if self.idle_vcpu_mask.get(v as usize) {
                return v;
            }
        }
        // 2. The last vCPU that the entity ran on, if it is idle
        if let Some(v) = last_vcpu {
            if self.idle_vcpu_mask.get(v as usize) {
                return v;
            }
        }
        // 3. Any idle vCPU
        if let Some(v) = self.find_by_status(&self.idle_vcpu_mask, true, affinity) {
            return v;
        }
        // 4. The last vCPU that the entity ran on, if it is active (not sleeping)
        if let Some(v) = last_vcpu {
            if !self.sleep_vcpu_mask.get(v as usize) {
                return v;
            }
        }
        // 5. Any active (not sleeping) vCPU
        if let Some(v) = self.find_by_status(&self.sleep_vcpu_mask, false, affinity) {
            return v;
        }
        // 6. The last vCPU that the entity ran on, whether it is active or not
        if let Some(v) = last_vcpu {
            return v;
        }
        // 7. This vCPU, whether it is active or not
        if let Some(v) = this_vcpu {
            return v;
        }
        // 8. Any vCPU that is in the affinity mask, in turn
        turns.pick(self.num_vcpus, affinity)
    }

    /// The first vCPU with status `want` in `mask` that is in the affinity mask.
    fn find_by_status(&self, mask: &BitMask, want: bool, affinity: &BitMask) -> (found: Option<
        u32,
    >)
        requires
            mask@.len() == self.spec_num_vcpus(),
            mask@.len() <= affinity@.len(),
        ensures
            found matches Some(v) ==> is_first_match(v, mask@, want, affinity@),
            found is None ==> !has_match(mask@, want, affinity@),
    {
        let list = if want {
            mask.iter_ones()
        } else {
            mask.iter_zeroes()
        };
        proof {
            assert forall|i: int| is_match(i, mask@, want, affinity@) implies
                #[trigger] crate::bitmask::lists_index(list@, i) by {
                assert(mask@[i] == want);
            }
        }
        match find_allowed(&list, affinity) {
            Some(i) => {
                proof {
                    assert forall|j: int| j < i implies !is_match(j, mask@, want, affinity@) by {
                        if is_match(j, mask@, want, affinity@) {
                            assert(crate::bitmask::lists_index(list@, j));
                        }
                    }
                }
                Some(i as u32)
            },
            None => {
                proof {
                    assert forall|j: int| !is_match(j, mask@, want, affinity@) by {
                        if is_match(j, mask@, want, affinity@) {
                            assert(crate::bitmask::lists_index(list@, j));
                        }
                    }
                }
                None
            },
        }
    }
}

/// A selected vCPU is one of those that there are, and in the affinity mask.
pub proof fn lemma_selection_respects_affinity(
    idle: Seq<bool>,
    sleeping: Seq<bool>,
    num_vcpus: u32,
    affinity: Seq<bool>,
    last: Option<u32>,
    this: Option<u32>,
    next: u32,
    vcpu: u32,
    next_after: u32,
)
    requires
        idle.len() == num_vcpus,
        sleeping.len() == num_vcpus,
        num_vcpus > 0,
        is_known(last, affinity, num_vcpus),
        is_known(this, affinity, num_vcpus),
        selects(idle, sleeping, num_vcpus, affinity, last, this, next, vcpu, next_after),
    ensures
        vcpu < num_vcpus,
        affinity[vcpu as int],
{
}

/// Where an idle vCPU is in the affinity mask, the selected vCPU is idle. Where none is, but
/// an active one is, the selected vCPU is active.
pub proof fn lemma_selection_prefers_idle_and_active(
    idle: Seq<bool>,
    sleeping: Seq<bool>,
    num_vcpus: u32,
    affinity: Seq<bool>,
    last: Option<u32>,
    this: Option<u32>,
    next: u32,
    vcpu: u32,
    next_after: u32,
)
    requires
        idle.len() == num_vcpus,
        sleeping.len() == num_vcpus,
        num_vcpus > 0,
        is_known(last, affinity, num_vcpus),
        is_known(this, affinity, num_vcpus),
        selects(idle, sleeping, num_vcpus, affinity, last, this, next, vcpu, next_after),
    ensures
        has_match(idle, true, affinity) ==> idle[vcpu as int],
        !has_match(idle, true, affinity) && has_match(sleeping, false, affinity)
            ==> !sleeping[vcpu as int],
{
    if is_allowed(this, affinity) && idle[this.unwrap() as int] {
        assert(is_match(this.unwrap() as int, idle, true, affinity));
    } else if is_allowed(last, affinity) && idle[last.unwrap() as int] {
        assert(is_match(last.unwrap() as int, idle, true, affinity));
    }
}

/// An entity stays on the vCPU that it ran on last, where it still may run there, unless it
/// is drawn to an idle vCPU or from a sleeping to an active one.
pub proof fn lemma_selection_keeps_last_vcpu(
    idle: Seq<bool>,
    sleeping: Seq<bool>,
    num_vcpus: u32,
    affinity: Seq<bool>,
    last: u32,
    this: Option<u32>,
    next: u32,
    vcpu: u32,
    next_after: u32,
)
    requires
        idle.len() == num_vcpus,
        sleeping.len() == num_vcpus,
        is_known(Some(last), affinity, num_vcpus),
        is_known(this, affinity, num_vcpus),
        affinity[last as int],
        selects(idle, sleeping, num_vcpus, affinity, Some(last), this, next, vcpu, next_after),
    ensures
        vcpu == last || (idle[vcpu as int] && (!idle[last as int] || this == Some(vcpu))) || (
        sleeping[last as int] && !sleeping[vcpu as int]),
{
}

/// The vCPUs take turns only where no vCPU of the affinity mask is idle or active, the entity
/// has not run on one of them last, and the vCPU that makes the selection is not one of them.
pub proof fn lemma_turns_are_a_last_resort(
    idle: Seq<bool>,
    sleeping: Seq<bool>,
    num_vcpus: u32,
    affinity: Seq<bool>,
    last: Option<u32>,
    this: Option<u32>,
    next: u32,
    vcpu: u32,
    next_after: u32,
)
    requires
        selects(idle, sleeping, num_vcpus, affinity, last, this, next, vcpu, next_after),
        ({
            ||| has_match(idle, true, affinity)
            ||| has_match(sleeping, false, affinity)
            ||| is_allowed(last, affinity)
            ||| is_allowed(this, affinity)
        }),
    ensures
        next_after == next,
{
}

/// A turn is determined by the counter and the affinity mask.
pub proof fn lemma_turn_is_determined(
    next: u32,
    num_vcpus: u32,
    affinity: Seq<bool>,
    a: (u32, u32),
    b: (u32, u32),
)
    requires
        takes_turn(next, num_vcpus, affinity, a.0, a.1),
        takes_turn(next, num_vcpus, affinity, b.0, b.1),
    ensures
        a == b,
{
    let j = choose|k: nat|
        {
            &&& #[trigger] is_first_turn(next, k, num_vcpus, affinity)
            &&& a.0 == turn(next, k, num_vcpus)
            &&& a.1 == counter_after(next, k + 1)
        };
    let k = choose|k: nat|
        {
            &&& #[trigger] is_first_turn(next, k, num_vcpus, affinity)
            &&& b.0 == turn(next, k, num_vcpus)
            &&& b.1 == counter_after(next, k + 1)
        };
    if j < k {
        assert(!affinity[turn(next, j, num_vcpus)]);
    } else if k < j {
        assert(!affinity[turn(next, k, num_vcpus)]);
    }
}

/// A selection is determined by the statuses, the entity's state, the vCPU that makes it
/// and the turn counter.
pub proof fn lemma_selection_is_determined(
    idle: Seq<bool>,
    sleeping: Seq<bool>,
    num_vcpus: u32,
    affinity: Seq<bool>,
    last: Option<u32>,
    this: Option<u32>,
    next: u32,
    a: (u32, u32),
    b: (u32, u32),
)
    requires
        selects(idle, sleeping, num_vcpus, affinity, last, this, next, a.0, a.1),
        selects(idle, sleeping, num_vcpus, affinity, last, this, next, b.0, b.1),
    ensures
        a == b,
{
    if takes_turn(next, num_vcpus, affinity, a.0, a.1) && takes_turn(
        next,
        num_vcpus,
        affinity,
        b.0,
        b.1,
    ) {
        lemma_turn_is_determined(next, num_vcpus, affinity, a, b);
    }
}

/// As long as the counter does not wrap around, the vCPUs of the affinity mask take turns in
/// cyclic order: after `vcpu`, the turn goes to the first vCPU of the mask among those that
/// follow `vcpu`, where the first vCPU follows the last.
pub proof fn lemma_turns_are_cyclic(
    next: u32,
    num_vcpus: u32,
    affinity: Seq<bool>,
    vcpu: u32,
    next_after: u32,
    vcpu2: u32,
    next_after2: u32,
) -> (gap: nat)
    requires
        vcpu < num_vcpus <= affinity.len(),
        takes_turn(next, num_vcpus, affinity, vcpu, next_after),
        takes_turn(next_after, num_vcpus, affinity, vcpu2, next_after2),
        next < next_after < next_after2,
    ensures
        gap < num_vcpus,
        vcpu2 == (vcpu + 1 + gap) % (num_vcpus as int),
        forall|j: nat| j < gap ==> !affinity[#[trigger] ((vcpu + 1 + j) % (num_vcpus as int))],
{
    let n = num_vcpus as int;
    lemma_turn_without_wrap(next, num_vcpus, affinity, vcpu, next_after);
    lemma_turn_without_wrap(next_after, num_vcpus, affinity, vcpu2, next_after2);
    let gap = (next_after2 - 1 - next_after) as nat;
    assert forall|j: nat| #[trigger] ((vcpu + 1 + j) % n) == (next_after + j) % n by {
        vstd::arithmetic::div_mod::lemma_add_mod_noop_right(
            1 + j as int,
            next_after - 1,
            n,
        );
    }
    if gap >= n {
        // The turn would have come back to `vcpu` itself.
        let x = next_after - 1 + n;
        vstd::arithmetic::div_mod::lemma_mod_add_multiples_vanish(next_after - 1, n);
        assert(x % n == vcpu as int);
    }
    assert((vcpu + 1 + gap) % n == (next_after + gap) % n);
    assert forall|j: nat| j < gap implies !affinity[#[trigger] ((vcpu + 1 + j) % n)] by {
        assert(!affinity[(next_after + j) % n]);
    }
    gap
}

/// Work spreads: as long as the counter does not wrap around, two turns in a row do not go
/// to the same vCPU where the affinity mask has another.
pub proof fn lemma_turns_spread(
    next: u32,
    num_vcpus: u32,
    affinity: Seq<bool>,
    vcpu: u32,
    next_after: u32,
    vcpu2: u32,
    next_after2: u32,
    other: u32,
)
    requires
        vcpu < num_vcpus <= affinity.len(),
        takes_turn(next, num_vcpus, affinity, vcpu, next_after),
        takes_turn(next_after, num_vcpus, affinity, vcpu2, next_after2),
        next < next_after < next_after2,
        other < num_vcpus,
        other != vcpu,
        affinity[other as int],
    ensures
        vcpu2 != vcpu,
{
    let n = num_vcpus as int;
    let gap = lemma_turns_are_cyclic(
        next,
        num_vcpus,
        affinity,
        vcpu,
        next_after,
        vcpu2,
        next_after2,
    );
    if vcpu + 1 + gap < n {
        vstd::arithmetic::div_mod::lemma_small_mod((vcpu + 1 + gap) as nat, n as nat);
    } else {
        vstd::arithmetic::div_mod::lemma_fundamental_div_mod_converse(
            vcpu + 1 + gap,
            n,
            1,
            vcpu + 1 + gap - n,
        );
    }
    if vcpu2 == vcpu {
        assert(gap == n - 1);
        let j = if other > vcpu {
            (other - vcpu - 1) as nat
        } else {
            (other + n - vcpu - 1) as nat
        };
        if other > vcpu {
            vstd::arithmetic::div_mod::lemma_small_mod(other as nat, n as nat);
        } else {
            vstd::arithmetic::div_mod::lemma_fundamental_div_mod_converse(
                other + n,
                n,
                1,
                other as int,
            );
        }
        assert((vcpu + 1 + j) % n == other as int);
    }
}

/// The number of counter values from `from` up to, but without, `to` that give the turn to a
/// vCPU of the affinity mask.
spec fn hits(num_vcpus: u32, affinity: Seq<bool>, from: int, to: int) -> int
    decreases to - from,
{
    if to <= from {
        0
    } else {
        hits(num_vcpus, affinity, from, to - 1) + (if affinity[(to - 1) % (num_vcpus as int)] {
            1int
        } else {
            0
        })
    }
}

proof fn lemma_hits_split(num_vcpus: u32, affinity: Seq<bool>, from: int, mid: int, to: int)
    requires
        from <= mid <= to,
    ensures
        hits(num_vcpus, affinity, from, to) == hits(num_vcpus, affinity, from, mid) + hits(
            num_vcpus,
            affinity,
            mid,
            to,
        ),
        hits(num_vcpus, affinity, mid, to) >= 0,
    decreases to - mid,
{
    if mid < to {
        lemma_hits_split(num_vcpus, affinity, from, mid, to - 1);
    }
}

/// Any round of the counter gives the turn to each vCPU of the affinity mask.
proof fn lemma_hits_of_a_round(num_vcpus: u32, affinity: Seq<bool>, from: int)
    requires
        0 < num_vcpus <= affinity.len(),
        0 <= from,
    ensures
        hits(num_vcpus, affinity, from, from + num_vcpus) == crate::bitmask::count_ones(
            affinity.take(num_vcpus as int),
        ),
    decreases from,
{
    let n = num_vcpus as int;
    if from == 0 {
        lemma_hits_of_a_prefix(num_vcpus, affinity, n);
    } else {
        let before = from - 1;
        lemma_hits_of_a_round(num_vcpus, affinity, before);
        lemma_hits_split(num_vcpus, affinity, before, from, before + n);
        lemma_hits_split(num_vcpus, affinity, before, from, from);
        vstd::arithmetic::div_mod::lemma_mod_add_multiples_vanish(before, n);
        assert(hits(num_vcpus, affinity, before, before) == 0);
        assert(hits(num_vcpus, affinity, from, from + n) == hits(
            num_vcpus,
            affinity,
            from,
            from + n - 1,
        ) + (if affinity[(from + n - 1) % n] {
            1int
        } else {
            0
        }));
    }
}

proof fn lemma_hits_of_a_prefix(num_vcpus: u32, affinity: Seq<bool>, to: int)
    requires
        0 <= to <= num_vcpus <= affinity.len(),
    ensures
        hits(num_vcpus, affinity, 0, to) == crate::bitmask::count_ones(affinity.take(to)),
    decreases to,
{
    reveal(Seq::filter);
    if to > 0 {
        lemma_hits_of_a_prefix(num_vcpus, affinity, to - 1);
        vstd::arithmetic::div_mod::lemma_small_mod((to - 1) as nat, num_vcpus as nat);
        assert(affinity.take(to).drop_last() =~= affinity.take(to - 1));
    }
}

/// Where the counter does not wrap around, it is left just behind the first value that gives
/// the turn to a vCPU of the affinity mask.
proof fn lemma_turn_without_wrap(
    next: u32,
    num_vcpus: u32,
    affinity: Seq<bool>,
    vcpu: u32,
    next_after: u32,
)
    requires
        0 < num_vcpus <= affinity.len(),
        takes_turn(next, num_vcpus, affinity, vcpu, next_after),
        next < next_after,
    ensures
        vcpu == (next_after - 1) % (num_vcpus as int),
        affinity[vcpu as int],
        forall|x: int|
            next <= x < next_after - 1 ==> !affinity[#[trigger] (x % (num_vcpus as int))],
        hits(num_vcpus, affinity, next as int, next_after as int) == 1,
{
    let n = num_vcpus as int;
    let k = choose|k: nat|
        {
            &&& #[trigger] is_first_turn(next, k, num_vcpus, affinity)
            &&& vcpu == turn(next, k, num_vcpus)
            &&& next_after == counter_after(next, k + 1)
        };
    assert(counter_after(next, k) == next_after - 1);
    // The counter has not passed the value at which it is left before.
    if next + k + 1 != next_after {
        let j = (next_after - 1 - next) as nat;
        assert(counter_after(next, j) == next_after - 1);
        assert(turn(next, j, num_vcpus) == turn(next, k, num_vcpus));
        assert(j < k);
    }
    assert forall|x: int| next <= x < next_after - 1 implies !affinity[#[trigger] (x % n)] by {
        let j = (x - next) as nat;
        assert(counter_after(next, j) == x);
        assert(!affinity[turn(next, j, num_vcpus)]);
    }
    lemma_no_hits(num_vcpus, affinity, next as int, next_after - 1);
}

proof fn lemma_no_hits(num_vcpus: u32, affinity: Seq<bool>, from: int, to: int)
    requires
        from <= to,
        forall|x: int| from <= x < to ==> !affinity[#[trigger] (x % (num_vcpus as int))],
    ensures
        hits(num_vcpus, affinity, from, to) == 0,
    decreases to - from,
{
    if from < to {
        lemma_no_hits(num_vcpus, affinity, from, to - 1);
        assert(!affinity[(to - 1) % (num_vcpus as int)]);
    }
}

/// Whether these turns are taken one after the other, and the counter, which is at
/// `counters[i]` before the `i`-th of them, does not wrap around.
pub open spec fn are_turns(
    num_vcpus: u32,
    affinity: Seq<bool>,
    counters: Seq<u32>,
    picks: Seq<u32>,
) -> bool {
    &&& counters.len() == picks.len() + 1
    &&& forall|i: int|
        #![trigger picks[i]]
        0 <= i < picks.len() ==> takes_turn(
            counters[i],
            num_vcpus,
            affinity,
            picks[i],
            counters[i + 1],
        ) && counters[i] < counters[i + 1]
}

/// Between the first turn and the `i`-th, the counter has stood at a vCPU of the affinity mask
/// just once for each turn.
proof fn lemma_turns_are_hits(
    num_vcpus: u32,
    affinity: Seq<bool>,
    counters: Seq<u32>,
    picks: Seq<u32>,
    i: int,
)
    requires
        0 < num_vcpus <= affinity.len(),
        are_turns(num_vcpus, affinity, counters, picks),
        0 <= i <= picks.len(),
    ensures
        counters[0] + i <= counters[i],
        hits(num_vcpus, affinity, counters[0] as int, counters[i] as int) == i,
        forall|x: int|
            counters[0] <= x < counters[i] && affinity[#[trigger] (x % (num_vcpus as int))]
                ==> exists|j: int|
                0 <= j < i && #[trigger] picks[j] == x % (num_vcpus as int) && counters[j + 1]
                    == x + 1,
    decreases i,
{
    if i > 0 {
        let n = num_vcpus as int;
        lemma_turns_are_hits(num_vcpus, affinity, counters, picks, i - 1);
        let last = picks[i - 1];
        lemma_turn_without_wrap(counters[i - 1], num_vcpus, affinity, last, counters[i]);
        lemma_hits_split(
            num_vcpus,
            affinity,
            counters[0] as int,
            counters[i - 1] as int,
            counters[i] as int,
        );
        assert forall|x: int|
            counters[0] <= x < counters[i] && affinity[#[trigger] (x % n)] implies exists|j: int|
            0 <= j < i && #[trigger] picks[j] == x % n && counters[j + 1] == x + 1 by {
            if x >= counters[i - 1] {
                assert(x == counters[i] - 1);
                assert(picks[i - 1] == x % n);
            } else {
                let j = choose|j: int|
                    0 <= j < i - 1 && #[trigger] picks[j] == x % n && counters[j + 1] == x + 1;
                assert(picks[j] == x % n);
            }
        }
    }
}

proof fn lemma_turn_counters_ascend(
    num_vcpus: u32,
    affinity: Seq<bool>,
    counters: Seq<u32>,
    picks: Seq<u32>,
    i: int,
    j: int,
)
    requires
        are_turns(num_vcpus, affinity, counters, picks),
        0 <= i <= j < counters.len(),
    ensures
        counters[i] <= counters[j],
        i < j ==> counters[i] < counters[j],
    decreases j - i,
{
    if i < j {
        lemma_turn_counters_ascend(num_vcpus, affinity, counters, picks, i, j - 1);
        let last = picks[j - 1];
        assert(counters[j - 1] < counters[j]);
    }
}

/// Work spreads evenly: as long as the counter does not wrap around, as many turns in a row as
/// the affinity mask has vCPUs go to each of these vCPUs exactly once.
pub proof fn lemma_turns_reach_each_vcpu_once(
    num_vcpus: u32,
    affinity: Seq<bool>,
    counters: Seq<u32>,
    picks: Seq<u32>,
)
    requires
        0 < num_vcpus <= affinity.len(),
        are_turns(num_vcpus, affinity, counters, picks),
        picks.len() == crate::bitmask::count_ones(affinity.take(num_vcpus as int)),
    ensures
        picks.no_duplicates(),
        forall|v: u32| picks.contains(v) <==> v < num_vcpus && affinity[v as int],
{
    let n = num_vcpus as int;
    let k = picks.len() as int;
    let start = counters[0] as int;
    let end = counters[k] as int;
    lemma_turns_are_hits(num_vcpus, affinity, counters, picks, k);
    lemma_hits_of_a_round(num_vcpus, affinity, start);
    assert forall|i: int| 0 <= i < k implies #[trigger] picks[i] == (counters[i + 1] - 1) % n
        && picks[i] < n && affinity[picks[i] as int] by {
        lemma_turn_without_wrap(
            counters[i],
            num_vcpus,
            affinity,
            picks[i],
            counters[i + 1],
        );
    }
    // All turns fall into one round.
    if end > start + n {
        let last = picks[k - 1];
        lemma_turn_without_wrap(counters[k - 1], num_vcpus, affinity, last, counters[k]);
        lemma_hits_split(num_vcpus, affinity, start, start + n, end - 1);
        assert(hits(num_vcpus, affinity, start, end) == hits(num_vcpus, affinity, start, end - 1)
            + 1);
    }
    assert forall|i: int, j: int| 0 <= i < k && 0 <= j < k && i != j implies picks[i]
        != picks[j] by {
        let (a, b) = if i < j {
            (i, j)
        } else {
            (j, i)
        };
        lemma_turn_counters_ascend(num_vcpus, affinity, counters, picks, 0, a);
        lemma_turn_counters_ascend(num_vcpus, affinity, counters, picks, a, a + 1);
        lemma_turn_counters_ascend(num_vcpus, affinity, counters, picks, a + 1, b + 1);
        lemma_turn_counters_ascend(num_vcpus, affinity, counters, picks, b + 1, k);
        let x = counters[a + 1] - 1;
        let y = counters[b + 1] - 1;
        assert(0 < y - x < n);
        assert(picks[a] == x % n && picks[b] == y % n);
        lemma_residues_differ(x, y, n);
    }
    assert forall|v: u32| v < num_vcpus && affinity[v as int] implies picks.contains(v) by {
        let x = lemma_residue_in_round(start, n, v as int);
        if x >= end {
            lemma_hits_split(num_vcpus, affinity, start, end, start + n);
            lemma_hits_split(num_vcpus, affinity, end, x, start + n);
            lemma_hits_split(num_vcpus, affinity, x, x + 1, start + n);
            lemma_hits_split(num_vcpus, affinity, end, end, x);
            assert(hits(num_vcpus, affinity, x, x) == 0);
            assert(hits(num_vcpus, affinity, x, x + 1) == 1);
            assert(false);
        }
        assert(affinity[x % n]);
        let j = choose|j: int|
            0 <= j < k && #[trigger] picks[j] == x % n && counters[j + 1] == x + 1;
        assert(picks[j] == v);
    }
}

proof fn lemma_residues_differ(x: int, y: int, n: int)
    requires
        0 < y - x < n,
    ensures
        x % n != y % n,
{
    vstd::arithmetic::div_mod::lemma_fundamental_div_mod(x, n);
    vstd::arithmetic::div_mod::lemma_fundamental_div_mod(y, n);
    let p = x / n;
    let q = y / n;
    if x % n == y % n {
        assert(n * q - n * p == n * (q - p)) by (nonlinear_arith);
        assert(n * (q - p) >= n || n * (q - p) <= 0) by (nonlinear_arith)
            requires
                n > 0,
        ;
    }
}

proof fn lemma_residue_in_round(start: int, n: int, v: int) -> (x: int)
    requires
        0 <= v < n,
        0 <= start,
    ensures
        start <= x < start + n,
        x % n == v,
{
    vstd::arithmetic::div_mod::lemma_fundamental_div_mod(start, n);
    let q = start / n;
    let r = start % n;
    assert(n * q == q * n && (q + 1) * n == q * n + n) by (nonlinear_arith);
    if r <= v {
        let x = start + v - r;
        vstd::arithmetic::div_mod::lemma_fundamental_div_mod_converse(x, n, q, v);
        x
    } else {
        let x = start + v - r + n;
        vstd::arithmetic::div_mod::lemma_fundamental_div_mod_converse(x, n, q + 1, v);
        x
    }
}

/// The same of selections: where no vCPU of the affinity mask is idle or active, and neither
/// the last nor the current vCPU is given, as many selections in a row as the mask has vCPUs
/// give each of these vCPUs exactly once, as long as the counter does not wrap around.
pub proof fn lemma_selections_reach_each_vcpu_once(
    idle: Seq<bool>,
    sleeping: Seq<bool>,
    num_vcpus: u32,
    affinity: Seq<bool>,
    counters: Seq<u32>,
    picks: Seq<u32>,
)
    requires
        0 < num_vcpus <= affinity.len(),
        !has_match(idle, true, affinity),
        !has_match(sleeping, false, affinity),
        picks.len() == crate::bitmask::count_ones(affinity.take(num_vcpus as int)),
        counters.len() == picks.len() + 1,
        forall|i: int|
            #![trigger picks[i]]
            0 <= i < picks.len() ==> selects(
                idle,
                sleeping,
                num_vcpus,
                affinity,
                None,
                None,
                counters[i],
                picks[i],
                counters[i + 1],
            ) && counters[i] < counters[i + 1],
    ensures
        picks.no_duplicates(),
        forall|v: u32| picks.contains(v) <==> v < num_vcpus && affinity[v as int],
{
    lemma_turns_reach_each_vcpu_once(num_vcpus, affinity, counters, picks);
}

/// The vCPU that makes the selection is selected where it is idle and in the affinity mask,
/// whatever vCPU the entity ran on last.
pub proof fn lemma_this_vcpu_is_selected_if_idle(
    selector: &VcpuSelector,
    sched_state: &SchedState,
    this: Option<u32>,
    turns: &mut RoundRobin,
    vcpu: u32,
)
    requires
        selector.wf(),
        selector.spec_num_vcpus() <= sched_state.affinity@.len(),
        call_ensures(VcpuSelector::select_vcpu, (selector, sched_state, this, turns), vcpu),
        this is Some,
        sched_state.affinity@[this->0 as int],
        selector.idle()[this->0 as int],
    ensures
        vcpu == this->0,
        final(turns)@ == old(turns)@,
{
}

/// The vCPU that the entity ran on last is selected where it is idle and in the affinity mask,
/// unless the one that makes the selection is too.
pub proof fn lemma_last_vcpu_is_selected_if_idle(
    selector: &VcpuSelector,
    sched_state: &SchedState,
    this: Option<u32>,
    turns: &mut RoundRobin,
    vcpu: u32,
)
    requires
        selector.wf(),
        selector.spec_num_vcpus() <= sched_state.affinity@.len(),
        call_ensures(VcpuSelector::select_vcpu, (selector, sched_state, this, turns), vcpu),
        sched_state.vcpu is Some,
        sched_state.affinity@[sched_state.vcpu->0 as int],
        selector.idle()[sched_state.vcpu->0 as int],
        this is Some ==> !sched_state.affinity@[this->0 as int]
            || !selector.idle()[this->0 as int],
    ensures
        vcpu == sched_state.vcpu->0,
        final(turns)@ == old(turns)@,
{
}

/// Where neither the vCPU that makes the selection nor the last one is idle and in the affinity
/// mask, but another vCPU is, the first of these is selected.
pub proof fn lemma_first_idle_vcpu_is_selected(
    selector: &VcpuSelector,
    sched_state: &SchedState,
    this: Option<u32>,
    turns: &mut RoundRobin,
    vcpu: u32,
    other: int,
)
    requires
        selector.wf(),
        selector.spec_num_vcpus() <= sched_state.affinity@.len(),
        call_ensures(VcpuSelector::select_vcpu, (selector, sched_state, this, turns), vcpu),
        this is Some ==> !sched_state.affinity@[this->0 as int]
            || !selector.idle()[this->0 as int],
        sched_state.vcpu is Some ==> !sched_state.affinity@[sched_state.vcpu->0 as int]
            || !selector.idle()[sched_state.vcpu->0 as int],
        0 <= other < selector.spec_num_vcpus(),
        sched_state.affinity@[other],
        selector.idle()[other],
    ensures
        vcpu <= other,
        vcpu < selector.spec_num_vcpus(),
        sched_state.affinity@[vcpu as int],
        selector.idle()[vcpu as int],
        final(turns)@ == old(turns)@,
{
    assert(is_match(other, selector.idle(), true, sched_state.affinity@));
}

/// Where no vCPU of the affinity mask is idle, the vCPU that the entity ran on last is selected
/// if it is in the mask and active.
pub proof fn lemma_last_vcpu_is_selected_if_active(
    selector: &VcpuSelector,
    sched_state: &SchedState,
    this: Option<u32>,
    turns: &mut RoundRobin,
    vcpu: u32,
)
    requires
        selector.wf(),
        selector.spec_num_vcpus() <= sched_state.affinity@.len(),
        call_ensures(VcpuSelector::select_vcpu, (selector, sched_state, this, turns), vcpu),
        forall|i: int|
            0 <= i < selector.spec_num_vcpus() && sched_state.affinity@[i] ==> !(
            #[trigger] selector.idle()[i]),
        this is Some ==> this->0 < sched_state.affinity@.len(),
        this is Some && sched_state.affinity@[this->0 as int] ==> this->0
            < selector.spec_num_vcpus(),
        sched_state.vcpu is Some,
        sched_state.vcpu->0 < selector.spec_num_vcpus(),
        sched_state.affinity@[sched_state.vcpu->0 as int],
        !selector.sleeping()[sched_state.vcpu->0 as int],
    ensures
        vcpu == sched_state.vcpu->0,
        final(turns)@ == old(turns)@,
{
}

/// Where no vCPU of the affinity mask is idle and the last one is not in the mask or not
/// active, but another vCPU is both, the first of these is selected.
pub proof fn lemma_first_active_vcpu_is_selected(
    selector: &VcpuSelector,
    sched_state: &SchedState,
    this: Option<u32>,
    turns: &mut RoundRobin,
    vcpu: u32,
    other: int,
)
    requires
        selector.wf(),
        selector.spec_num_vcpus() <= sched_state.affinity@.len(),
        call_ensures(VcpuSelector::select_vcpu, (selector, sched_state, this, turns), vcpu),
        forall|i: int|
            0 <= i < selector.spec_num_vcpus() && sched_state.affinity@[i] ==> !(
            #[trigger] selector.idle()[i]),
        this is Some ==> this->0 < sched_state.affinity@.len(),
        this is Some && sched_state.affinity@[this->0 as int] ==> this->0
            < selector.spec_num_vcpus(),
        sched_state.vcpu is Some ==> sched_state.vcpu->0 < sched_state.affinity@.len(),
        sched_state.vcpu is Some && sched_state.affinity@[sched_state.vcpu->0 as int]
            ==> sched_state.vcpu->0 < selector.spec_num_vcpus(),
        sched_state.vcpu is Some ==> !sched_state.affinity@[sched_state.vcpu->0 as int]
            || selector.sleeping()[sched_state.vcpu->0 as int],
        0 <= other < selector.spec_num_vcpus(),
        sched_state.affinity@[other],
        !selector.sleeping()[other],
    ensures
        vcpu <= other,
        vcpu < selector.spec_num_vcpus(),
        sched_state.affinity@[vcpu as int],
        !selector.sleeping()[vcpu as int],
        final(turns)@ == old(turns)@,
{
    assert(is_match(other, selector.sleeping(), false, sched_state.affinity@));
}

/// Where all vCPUs of the affinity mask are sleeping and none is idle, the vCPU that the entity
/// ran on last is selected if it is in the mask.
pub proof fn lemma_last_vcpu_is_selected_if_all_sleep(
    selector: &VcpuSelector,
    sched_state: &SchedState,
    this: Option<u32>,
    turns: &mut RoundRobin,
    vcpu: u32,
)
    requires
        selector.wf(),
        selector.spec_num_vcpus() <= sched_state.affinity@.len(),
        call_ensures(VcpuSelector::select_vcpu, (selector, sched_state, this, turns), vcpu),
        forall|i: int|
            0 <= i < selector.spec_num_vcpus() && sched_state.affinity@[i] ==> !(
            #[trigger] selector.idle()[i]),
        forall|i: int|
            0 <= i < selector.spec_num_vcpus() && sched_state.affinity@[i] ==> (
            #[trigger] selector.sleeping()[i]),
        this is Some ==> this->0 < sched_state.affinity@.len(),
        this is Some && sched_state.affinity@[this->0 as int] ==> this->0
            < selector.spec_num_vcpus(),
        sched_state.vcpu is Some,
        sched_state.vcpu->0 < selector.spec_num_vcpus(),
        sched_state.affinity@[sched_state.vcpu->0 as int],
    ensures
        vcpu == sched_state.vcpu->0,
        final(turns)@ == old(turns)@,
{
}

/// Where all vCPUs of the affinity mask are sleeping, none is idle and the last one is not in
/// the mask, the vCPU that makes the selection is selected if it is in the mask.
pub proof fn lemma_this_vcpu_is_selected_if_all_sleep(
    selector: &VcpuSelector,
    sched_state: &SchedState,
    this: Option<u32>,
    turns: &mut RoundRobin,
    vcpu: u32,
)
    requires
        selector.wf(),
        selector.spec_num_vcpus() <= sched_state.affinity@.len(),
        call_ensures(VcpuSelector::select_vcpu, (selector, sched_state, this, turns), vcpu),
        forall|i: int|
            0 <= i < selector.spec_num_vcpus() && sched_state.affinity@[i] ==> !(
            #[trigger] selector.idle()[i]),
        forall|i: int|
            0 <= i < selector.spec_num_vcpus() && sched_state.affinity@[i] ==> (
            #[trigger] selector.sleeping()[i]),
        sched_state.vcpu is Some ==> !sched_state.affinity@[sched_state.vcpu->0 as int],
        this is Some,
        this->0 < selector.spec_num_vcpus(),
        sched_state.affinity@[this->0 as int],
    ensures
        vcpu == this->0,
        final(turns)@ == old(turns)@,
{
}

/// Where all vCPUs of the affinity mask are sleeping, none is idle, and neither the last one nor
/// the one that makes the selection is in the mask, the vCPUs of the mask take turns.
pub proof fn lemma_vcpus_take_turns_if_all_sleep(
    selector: &VcpuSelector,
    sched_state: &SchedState,
    this: Option<u32>,
    turns: &mut RoundRobin,
    vcpu: u32,
    other_turns: &mut RoundRobin,
    picked: u32,
)
    requires
        selector.wf(),
        selector.spec_num_vcpus() <= sched_state.affinity@.len(),
        call_ensures(VcpuSelector::select_vcpu, (selector, sched_state, this, turns), vcpu),
        forall|i: int|
            0 <= i < selector.spec_num_vcpus() && sched_state.affinity@[i] ==> !(
            #[trigger] selector.idle()[i]),
        forall|i: int|
            0 <= i < selector.spec_num_vcpus() && sched_state.affinity@[i] ==> (
            #[trigger] selector.sleeping()[i]),
        sched_state.vcpu is Some ==> !sched_state.affinity@[sched_state.vcpu->0 as int],
        this is Some ==> !sched_state.affinity@[this->0 as int],
        call_ensures(
            RoundRobin::pick,
            (other_turns, selector.spec_num_vcpus(), &sched_state.affinity),
            picked,
        ),
        *old(other_turns) == *old(turns),
    ensures
        vcpu == picked,
        final(turns)@ == final(other_turns)@,
{
    lemma_turn_is_determined(
        old(turns)@,
        selector.spec_num_vcpus(),
        sched_state.affinity@,
        (vcpu, final(turns)@),
        (picked, final(other_turns)@),
    );
}

/// The counter that gives vCPUs their turns starts with the first vCPU.
pub proof fn lemma_first_turn_goes_to_the_first_vcpu(
    turns: &mut RoundRobin,
    num_vcpus: u32,
    affinity: &BitMask,
    vcpu: u32,
    other: int,
)
    requires
        call_ensures(RoundRobin::new, (), *old(turns)),
        call_ensures(RoundRobin::pick, (turns, num_vcpus, affinity), vcpu),
        0 <= other < num_vcpus <= affinity@.len(),
        affinity@[other],
    ensures
        vcpu <= other,
        affinity@[vcpu as int],
        final(turns)@ == vcpu + 1,
{
    let next = old(turns)@;
    let k = choose|k: nat|
        {
            &&& #[trigger] is_first_turn(next, k, num_vcpus, affinity@)
            &&& vcpu == turn(next, k, num_vcpus)
            &&& final(turns)@ == counter_after(next, k + 1)
        };
    vstd::arithmetic::div_mod::lemma_small_mod(other as nat, num_vcpus as nat);
    assert(counter_after(next, other as nat) == other);
    assert(turn(next, other as nat, num_vcpus) == other);
    assert(k <= other);
    vstd::arithmetic::div_mod::lemma_small_mod(k, num_vcpus as nat);
    assert(counter_after(next, k) == k);
}

/// A turn goes to the vCPU that the counter stands for, if it is in the affinity mask, and the
/// counter moves on by one; where it is not in the mask, the turn is that of the next vCPU. The
/// counter goes from its greatest value to 0.
pub proof fn lemma_turns_pass_over_vcpus_outside_the_mask(
    turns: &mut RoundRobin,
    num_vcpus: u32,
    affinity: &BitMask,
    vcpu: u32,
    moved: &mut RoundRobin,
    vcpu_moved: u32,
)
    requires
        0 < num_vcpus <= affinity@.len(),
        call_ensures(RoundRobin::pick, (turns, num_vcpus, affinity), vcpu),
        old(moved)@ == if old(turns)@ == 0xffff_ffff {
            0
        } else {
            old(turns)@ + 1
        },
        call_ensures(RoundRobin::pick, (moved, num_vcpus, affinity), vcpu_moved),
    ensures
        affinity@[old(turns)@ as int % num_vcpus as int] ==> vcpu == old(turns)@ as int
            % num_vcpus as int && final(turns)@ == old(moved)@,
        !affinity@[old(turns)@ as int % num_vcpus as int] ==> vcpu == vcpu_moved && final(turns)@
            == final(moved)@,
{
    let next = old(turns)@;
    let next2 = old(moved)@;
    let k = choose|k: nat|
        {
            &&& #[trigger] is_first_turn(next, k, num_vcpus, affinity@)
            &&& vcpu == turn(next, k, num_vcpus)
            &&& final(turns)@ == counter_after(next, k + 1)
        };
    assert(turn(next, 0, num_vcpus) == next as int % num_vcpus as int);
    assert forall|j: nat| #[trigger] turn(next2, j, num_vcpus) == turn(next, j + 1, num_vcpus)
        && counter_after(next2, j) == counter_after(next, j + 1) by {
        assert(counter_after(next2, j) == counter_after(next, j + 1));
    }
    if k > 0 {
        let k2 = (k - 1) as nat;
        assert(turn(next2, k2, num_vcpus) == turn(next, k, num_vcpus));
        assert(counter_after(next2, k) == counter_after(next, k + 1)) by {
            assert(turn(next2, k, num_vcpus) == turn(next, k + 1, num_vcpus));
        }
        assert(is_first_turn(next2, k2, num_vcpus, affinity@));
        assert(takes_turn(next2, num_vcpus, affinity@, vcpu, final(turns)@));
        lemma_turn_is_determined(
            next2,
            num_vcpus,
            affinity@,
            (vcpu, final(turns)@),
            (vcpu_moved, final(moved)@),
        );
    }
}

/// A new selector knows of no idle and of no sleeping vCPU, so all count as active.
pub proof fn lemma_new_selector_finds_all_vcpus_active(
    num_vcpus: u32,
    selector: &VcpuSelector,
    sched_state: &SchedState,
    this: Option<u32>,
    turns: &mut RoundRobin,
    vcpu: u32,
    other: int,
)
    requires
        call_ensures(VcpuSelector::new, (num_vcpus,), *selector),
        num_vcpus <= sched_state.affinity@.len(),
        is_known(this, sched_state.affinity@, num_vcpus),
        is_known(sched_state.vcpu, sched_state.affinity@, num_vcpus),
        0 <= other < num_vcpus,
        sched_state.affinity@[other],
        call_ensures(VcpuSelector::select_vcpu, (selector, sched_state, this, turns), vcpu),
    ensures
        vcpu < num_vcpus,
        sched_state.affinity@[vcpu as int],
        sched_state.vcpu is Some && sched_state.affinity@[sched_state.vcpu->0 as int] ==> vcpu
            == sched_state.vcpu->0,
        sched_state.vcpu is None || !sched_state.affinity@[sched_state.vcpu->0 as int] ==> vcpu
            <= other,
        final(turns)@ == old(turns)@,
{
    assert(!has_match(selector.idle(), true, sched_state.affinity@));
    assert(is_match(other, selector.sleeping(), false, sched_state.affinity@));
}

/// A selector keeps what it was told of each vCPU last, and takes it only for this vCPU.
pub proof fn lemma_statuses_are_kept_per_vcpu(
    selector: &mut VcpuSelector,
    vcpu: u32,
    status: bool,
    other: int,
)
    requires
        old(selector).wf(),
        vcpu < old(selector).spec_num_vcpus(),
        0 <= other < old(selector).spec_num_vcpus(),
    ensures
        call_ensures(VcpuSelector::notify_idle_status, (selector, vcpu, status), ()) ==> {
            &&& final(selector).wf()
            &&& final(selector).spec_num_vcpus() == old(selector).spec_num_vcpus()
            &&& final(selector).idle()[vcpu as int] == status
            &&& other != vcpu ==> final(selector).idle()[other] == old(selector).idle()[other]
            &&& final(selector).sleeping()[other] == old(selector).sleeping()[other]
        },
        call_ensures(VcpuSelector::notify_sleep_status, (selector, vcpu, status), ()) ==> {
            &&& final(selector).wf()
            &&& final(selector).spec_num_vcpus() == old(selector).spec_num_vcpus()
            &&& final(selector).sleeping()[vcpu as int] == status
            &&& other != vcpu ==> final(selector).sleeping()[other] == old(
                selector).sleeping()[other]
            &&& final(selector).idle()[other] == old(selector).idle()[other]
        },
{
}

/// An idle vCPU that makes a selection keeps the entity, if it may run there.
pub proof fn lemma_idle_vcpu_selects_itself(
    selector: &mut VcpuSelector,
    this: u32,
    after: &VcpuSelector,
    sched_state: &SchedState,
    turns: &mut RoundRobin,
    vcpu: u32,
)
    requires
        old(selector).wf(),
        this < old(selector).spec_num_vcpus() <= sched_state.affinity@.len(),
        call_ensures(VcpuSelector::notify_idle_status, (selector, this, true), ()),
        *after == *final(selector),
        sched_state.affinity@[this as int],
        call_ensures(VcpuSelector::select_vcpu, (after, sched_state, Some(this), turns), vcpu),
    ensures
        vcpu == this,
{
}

} // verus!
