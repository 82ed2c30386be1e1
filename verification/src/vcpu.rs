//! Virtual CPUs (vCPUs).
use vstd::prelude::*;

verus! {

/// The number that stands for no vCPU.
pub const NONE_VCPU: u32 = u32::MAX;

/// The total number of vCPUs, which is 1 unless it is set otherwise.
///
/// The number can be set once, and only before anything else of the runtime is used. It is
/// settled from then on.
#[derive(Debug)]
pub struct TotalVcpus {
    total: u32,
    is_settled: bool,
}

impl TotalVcpus {
    /// The number of vCPUs.
    pub closed spec fn total(&self) -> u32 {
        self.total
    }

    /// Whether the number can no longer change.
    pub closed spec fn is_settled(&self) -> bool {
        self.is_settled
    }

    /// The default number, not yet settled.
    pub fn new() -> (total: Self)
        ensures
            total.total() == 1,
            !total.is_settled(),
    {
        TotalVcpus { total: 1, is_settled: false }
    }
}

/// The vCPU that a thread serves as, if it serves as one.
#[derive(Debug)]
pub struct CurrentVcpu {
    id: u32,
}

impl View for CurrentVcpu {
    type V = Option<u32>;

    closed spec fn view(&self) -> Option<u32> {
        if self.id == NONE_VCPU {
            None
        } else {
            Some(self.id)
        }
    }
}

impl CurrentVcpu {
    /// A thread that serves as no vCPU.
    pub fn new() -> (current: Self)
        ensures
            current@ == None::<u32>,
    {
        CurrentVcpu { id: NONE_VCPU }
    }

    /// The vCPU ID of the thread.
    pub(crate) fn id(&self) -> (id: Option<u32>)
        ensures
            id == self@,
    {
        if self.id == NONE_VCPU {
            None
        } else {
            Some(self.id)
        }
    }
}

/// Whether `after` is what becomes of `before` where the number is set to `total_vcpus`.
pub open spec fn total_is_set(before: TotalVcpus, total_vcpus: u32, after: TotalVcpus) -> bool {
    &&& after.is_settled()
    &&& after.total() == (if before.is_settled() {
        before.total()
    } else {
        total_vcpus
    })
}

/// Sets the total number of vCPUs.
///
/// This takes effect only the first time, and only before anything else of the runtime is
/// used. Otherwise it has no effect.
pub fn set_total(vcpus: &mut TotalVcpus, total_vcpus: u32)
    ensures
        total_is_set(*old(vcpus), total_vcpus, *final(vcpus)),
{
    if !vcpus.is_settled {
        vcpus.total = total_vcpus;
        vcpus.is_settled = true;
    }
}

/// The total number of vCPUs, which is settled by asking for it.
pub fn get_total(vcpus: &mut TotalVcpus) -> (total: u32)
    ensures
        total == old(vcpus).total(),
        final(vcpus).total() == old(vcpus).total(),
        final(vcpus).is_settled(),
{
    vcpus.is_settled = true;
    vcpus.total
}

/// The vCPU ID of a thread, or `None` if the thread is not serving as a vCPU.
///
/// To ask is to use the runtime, which settles the total number of vCPUs.
pub fn get_current(vcpus: &mut TotalVcpus, current: &CurrentVcpu) -> (id: Option<u32>)
    ensures
        id == current@,
        final(vcpus).total() == old(vcpus).total(),
        final(vcpus).is_settled(),
{
    vcpus.is_settled = true;
    current.id()
}

/// Makes a thread serve as a vCPU; `NONE_VCPU` is no vCPU.
pub fn set_current(current: &mut CurrentVcpu, current_vcpu: u32)
    ensures
        final(current)@ == (if current_vcpu == NONE_VCPU {
            None
        } else {
            Some(current_vcpu)
        }),
{
    current.id = current_vcpu;
}

/// Makes a thread serve as no vCPU.
pub fn clear_current(current: &mut CurrentVcpu)
    ensures
        final(current)@ == None::<u32>,
{
    current.id = NONE_VCPU;
}

/// There is one vCPU, unless the number is set.
pub proof fn lemma_total_is_one_by_default(vcpus: &mut TotalVcpus, total: u32)
    requires
        call_ensures(TotalVcpus::new, (), *old(vcpus)),
        call_ensures(get_total, (vcpus,), total),
    ensures
        total == 1,
{
}

/// The number that is set first, before anything else is done, is the number from then on.
pub proof fn lemma_first_total_is_kept(
    vcpus: &mut TotalVcpus,
    first: u32,
    after: &mut TotalVcpus,
    second: u32,
    later: &mut TotalVcpus,
    total: u32,
)
    requires
        call_ensures(TotalVcpus::new, (), *old(vcpus)),
        call_ensures(set_total, (vcpus, first), ()),
        *old(after) == *final(vcpus),
        call_ensures(set_total, (after, second), ()),
        *old(later) == *final(after),
        call_ensures(get_total, (later,), total),
    ensures
        total == first,
{
}

/// Once the number has been asked for, or the current vCPU, it cannot be set any more: who
/// asks again gets the same number.
pub proof fn lemma_used_total_is_kept(
    vcpus: &mut TotalVcpus,
    total: u32,
    current: &CurrentVcpu,
    id: Option<u32>,
    after: &mut TotalVcpus,
    other: u32,
    later: &mut TotalVcpus,
    total_later: u32,
)
    requires
        call_ensures(get_total, (vcpus,), total) || (call_ensures(
            get_current,
            (vcpus, current),
            id,
        ) && total == old(vcpus).total()),
        *old(after) == *final(vcpus),
        call_ensures(set_total, (after, other), ()),
        *old(later) == *final(after),
        call_ensures(get_total, (later,), total_later),
    ensures
        total_later == total,
{
}

/// A thread that was made to serve as a vCPU serves as this vCPU, and not as another.
pub proof fn lemma_current_vcpu_is_the_one_set(
    current: &mut CurrentVcpu,
    vcpu: u32,
    after: &CurrentVcpu,
    vcpus: &mut TotalVcpus,
    id: Option<u32>,
)
    requires
        call_ensures(set_current, (current, vcpu), ()),
        *after == *final(current),
        call_ensures(get_current, (vcpus, after), id),
    ensures
        vcpu < 0xffff_ffff ==> id == Some(vcpu),
        vcpu == 0xffff_ffff ==> id is None,
{
}

/// A thread serves as no vCPU before it was made to, and after this was taken back.
pub proof fn lemma_cleared_thread_has_no_vcpu(
    fresh: &CurrentVcpu,
    current: &mut CurrentVcpu,
    cleared: &CurrentVcpu,
    vcpus: &mut TotalVcpus,
    id: Option<u32>,
)
    requires
        call_ensures(CurrentVcpu::new, (), *fresh),
        call_ensures(clear_current, (current,), ()),
        *cleared == *final(current),
        call_ensures(get_current, (vcpus, fresh), id) || call_ensures(
            get_current,
            (vcpus, cleared),
            id,
        ),
    ensures
        id is None,
{
}

} // verus!
