//! CPU scheduling of the payload.

use crate::abi::sched_attr_size;
use crate::context::{LinuxSchedulerFlag, LinuxSchedulerPolicy, Scheduler};
use vstd::prelude::*;

verus! {

/// The argument of `sched_setattr(2)`.
#[derive(Debug, Clone, Copy, PartialEq, Eq, Structural)]
pub struct SchedAttr {
    pub size: u32,
    pub sched_policy: u32,
    pub sched_flags: u64,
    pub sched_nice: i32,
    pub sched_priority: u32,
    pub sched_runtime: u64,
    pub sched_deadline: u64,
    pub sched_period: u64,
    pub sched_util_min: u32,
    pub sched_util_max: u32,
}

impl LinuxSchedulerPolicy {
    /// The number of the policy in the kernel's interface.
    pub open spec fn number(self) -> u32 {
        match self {
            LinuxSchedulerPolicy::SchedOther => 0,
            LinuxSchedulerPolicy::SchedFifo => 1,
            LinuxSchedulerPolicy::SchedRr => 2,
            LinuxSchedulerPolicy::SchedBatch => 3,
            LinuxSchedulerPolicy::SchedIso => 4,
            LinuxSchedulerPolicy::SchedIdle => 5,
            LinuxSchedulerPolicy::SchedDeadline => 6,
        }
    }
}

impl LinuxSchedulerFlag {
    /// The bit of the flag in the kernel's interface.
    pub open spec fn bit(self) -> u64 {
        match self {
            LinuxSchedulerFlag::SchedResetOnFork => 0x01,
            LinuxSchedulerFlag::SchedFlagReclaim => 0x02,
            LinuxSchedulerFlag::SchedFlagDLOverrun => 0x04,
            LinuxSchedulerFlag::SchedFlagKeepPolicy => 0x08,
            LinuxSchedulerFlag::SchedFlagKeepParams => 0x10,
            LinuxSchedulerFlag::SchedFlagUtilClampMin => 0x20,
            LinuxSchedulerFlag::SchedFlagUtilClampMax => 0x40,
        }
    }
}

/// The bits of all flags of a list.
pub open spec fn flag_bits(flags: Seq<LinuxSchedulerFlag>) -> u64
    decreases flags.len(),
{
    if flags.len() == 0 {
        0
    } else {
        flag_bits(flags.drop_last()) | flags.last().bit()
    }
}

/// What a field holds where the configuration may leave it out.
pub open spec fn or_zero(field: Option<u64>) -> u64 {
    match field {
        Some(value) => value,
        None => 0,
    }
}

/// A static priority as the unsigned number that the kernel's interface has for it.
pub open spec fn unsigned_priority(priority: Option<i32>) -> u32 {
    match priority {
        Some(value) => if value >= 0 {
            value as u32
        } else {
            (value + 0x1_0000_0000) as u32
        },
        None => 0,
    }
}

/// The attributes that a scheduler asks for.
pub open spec fn scheduler_attr(scheduler: Scheduler) -> SchedAttr {
    SchedAttr {
        size: 56,
        sched_policy: scheduler.policy.number(),
        sched_flags: match scheduler.flags {
            Some(flags) => flag_bits(flags@),
            None => 0,
        },
        sched_nice: match scheduler.nice {
            Some(nice) => nice,
            None => 0,
        },
        sched_priority: unsigned_priority(scheduler.priority),
        sched_runtime: or_zero(scheduler.runtime),
        sched_deadline: or_zero(scheduler.deadline),
        sched_period: or_zero(scheduler.period),
        sched_util_min: 0,
        sched_util_max: 0,
    }
}

/// The attributes to set, if the configuration has a scheduler.
pub open spec fn spec_setup_scheduler(scheduler: Option<Scheduler>) -> Option<SchedAttr> {
    match scheduler {
        Some(scheduler) => Some(scheduler_attr(scheduler)),
        None => None,
    }
}

fn policy_number(policy: LinuxSchedulerPolicy) -> (number: u32)
    ensures
        number == policy.number(),
{
    match policy {
        LinuxSchedulerPolicy::SchedOther => 0,
        LinuxSchedulerPolicy::SchedFifo => 1,
        LinuxSchedulerPolicy::SchedRr => 2,
        LinuxSchedulerPolicy::SchedBatch => 3,
        LinuxSchedulerPolicy::SchedIso => 4,
        LinuxSchedulerPolicy::SchedIdle => 5,
        LinuxSchedulerPolicy::SchedDeadline => 6,
    }
}

fn flags_value(flags: &Vec<LinuxSchedulerFlag>) -> (value: u64)
    ensures
        value == flag_bits(flags@),
{
    let mut value: u64 = 0;
    let mut i: usize = 0;
    while i < flags.len()
        invariant
            i <= flags@.len(),
            value == flag_bits(flags@.take(i as int)),
        decreases flags@.len() - i,
    {
        assert(flags@.take(i + 1).drop_last() =~= flags@.take(i as int));
        match flags[i] {
            LinuxSchedulerFlag::SchedResetOnFork => value = value | 0x01,
            LinuxSchedulerFlag::SchedFlagReclaim => value = value | 0x02,
            LinuxSchedulerFlag::SchedFlagDLOverrun => value = value | 0x04,
            LinuxSchedulerFlag::SchedFlagKeepPolicy => value = value | 0x08,
            LinuxSchedulerFlag::SchedFlagKeepParams => value = value | 0x10,
            LinuxSchedulerFlag::SchedFlagUtilClampMin => value = value | 0x20,
            LinuxSchedulerFlag::SchedFlagUtilClampMax => value = value | 0x40,
        }
        i += 1;
    }
    assert(flags@.take(i as int) =~= flags@);
    value
}

/// The attributes to hand to `sched_setattr(2)`, if the configuration has a scheduler.
pub fn setup_scheduler(scheduler: &Option<Scheduler>) -> (attr: Option<SchedAttr>)
    ensures
        attr == spec_setup_scheduler(*scheduler),
{
    match scheduler {
        Some(sc) => {
            let sched_flags: u64 = match &sc.flags {
                Some(flags) => flags_value(flags),
                None => 0,
            };
            let priority: i32 = sc.priority.unwrap_or(0);
            assert(priority < 0 ==> priority as u32 == priority + 0x1_0000_0000) by (bit_vector);
            Some(
                SchedAttr {
                    size: sched_attr_size(),
                    sched_policy: policy_number(sc.policy),
                    sched_flags,
                    sched_nice: sc.nice.unwrap_or(0),
                    sched_priority: priority as u32,
                    sched_runtime: sc.runtime.unwrap_or(0),
                    sched_deadline: sc.deadline.unwrap_or(0),
                    sched_period: sc.period.unwrap_or(0),
                    sched_util_min: 0,
                    sched_util_max: 0,
                },
            )
        },
        None => None,
    }
}

/// A flag bit is set in the attributes if and only if the flag is in the list, however
/// often and in whatever order the flags are listed.
pub proof fn law_flag_bits(flags: Seq<LinuxSchedulerFlag>, flag: LinuxSchedulerFlag)
    ensures
        (flag_bits(flags) & flag.bit() != 0) <==> flags.contains(flag),
    decreases flags.len(),
{
    let bit = flag.bit();
    if flags.len() == 0 {
        assert(0u64 & bit == 0) by (bit_vector);
    } else {
        let rest = flags.drop_last();
        law_flag_bits(rest, flag);
        let before = flag_bits(rest);
        let last = flags.last().bit();
        assert((before | last) & bit == (before & bit) | (last & bit)) by (bit_vector);
        assert(last & bit != 0 <==> last == bit) by {
            lemma_distinct_bits(flags.last(), flag);
        }
        assert(forall|a: u64, b: u64| (#[trigger] (a | b) == 0) <==> (a == 0 && b == 0))
            by (bit_vector);
        if flags.contains(flag) {
            let i = choose|i: int| 0 <= i < flags.len() && flags[i] == flag;
            if i < rest.len() {
                assert(rest[i] == flag);
            }
        }
        if rest.contains(flag) {
            let i = choose|i: int| 0 <= i < rest.len() && rest[i] == flag;
            assert(flags[i] == flag);
        }
        assert(flags[flags.len() - 1] == flags.last());
    }
}

/// No bit is set but those of the flags.
pub proof fn law_no_other_bits(flags: Seq<LinuxSchedulerFlag>)
    ensures
        flag_bits(flags) & !0x7fu64 == 0,
    decreases flags.len(),
{
    if flags.len() == 0 {
        assert(0u64 & !0x7fu64 == 0) by (bit_vector);
    } else {
        law_no_other_bits(flags.drop_last());
        let before = flag_bits(flags.drop_last());
        let bit = flags.last().bit();
        assert(before & !0x7fu64 == 0 && bit <= 0x7f ==> (before | bit) & !0x7fu64 == 0)
            by (bit_vector);
    }
}

/// The flags that a scheduler lists.
pub open spec fn listed_flags(scheduler: Scheduler) -> Seq<LinuxSchedulerFlag> {
    match scheduler.flags {
        Some(flags) => flags@,
        None => seq![],
    }
}

/// Two schedulers that differ only in how often and in which order they list the same flags
/// ask for the same attributes.
pub proof fn law_attributes_go_by_the_set_of_flags(a: Scheduler, b: Scheduler)
    requires
        a.policy == b.policy,
        a.nice == b.nice,
        a.priority == b.priority,
        a.runtime == b.runtime,
        a.deadline == b.deadline,
        a.period == b.period,
        forall|flag: LinuxSchedulerFlag| #[trigger]
            listed_flags(a).contains(flag) <==> listed_flags(b).contains(flag),
    ensures
        scheduler_attr(a) == scheduler_attr(b),
{
    let x = flag_bits(listed_flags(a));
    let y = flag_bits(listed_flags(b));
    lemma_same_bit(a, b, LinuxSchedulerFlag::SchedResetOnFork);
    lemma_same_bit(a, b, LinuxSchedulerFlag::SchedFlagReclaim);
    lemma_same_bit(a, b, LinuxSchedulerFlag::SchedFlagDLOverrun);
    lemma_same_bit(a, b, LinuxSchedulerFlag::SchedFlagKeepPolicy);
    lemma_same_bit(a, b, LinuxSchedulerFlag::SchedFlagKeepParams);
    lemma_same_bit(a, b, LinuxSchedulerFlag::SchedFlagUtilClampMin);
    lemma_same_bit(a, b, LinuxSchedulerFlag::SchedFlagUtilClampMax);
    law_no_other_bits(listed_flags(a));
    law_no_other_bits(listed_flags(b));
    assert(x == y) by (bit_vector)
        requires
            x & !0x7fu64 == 0,
            y & !0x7fu64 == 0,
            (x & 0x01 != 0) == (y & 0x01 != 0),
            (x & 0x02 != 0) == (y & 0x02 != 0),
            (x & 0x04 != 0) == (y & 0x04 != 0),
            (x & 0x08 != 0) == (y & 0x08 != 0),
            (x & 0x10 != 0) == (y & 0x10 != 0),
            (x & 0x20 != 0) == (y & 0x20 != 0),
            (x & 0x40 != 0) == (y & 0x40 != 0),
    ;
}

proof fn lemma_same_bit(a: Scheduler, b: Scheduler, flag: LinuxSchedulerFlag)
    requires
        listed_flags(a).contains(flag) <==> listed_flags(b).contains(flag),
    ensures
        (flag_bits(listed_flags(a)) & flag.bit() != 0) == (flag_bits(listed_flags(b)) & flag.bit()
            != 0),
{
    law_flag_bits(listed_flags(a), flag);
    law_flag_bits(listed_flags(b), flag);
}

proof fn lemma_distinct_bits(a: LinuxSchedulerFlag, b: LinuxSchedulerFlag)
    ensures
        (a.bit() & b.bit() != 0) <==> a == b,
        (a.bit() == b.bit()) <==> a == b,
{
    let x = a.bit();
    let y = b.bit();
    assert((x == 1 || x == 2 || x == 4 || x == 8 || x == 16 || x == 32 || x == 64) && (y == 1 || y
        == 2 || y == 4 || y == 8 || y == 16 || y == 32 || y == 64) ==> ((x & y != 0) <==> x == y))
        by (bit_vector);
}

} // verus!
