use container_init::context::{LinuxSchedulerFlag, LinuxSchedulerPolicy, Scheduler};
use container_init::envs::Envs;
use container_init::path::FsPath;
use container_init::scheduler::{setup_scheduler, SchedAttr};

fn scheduler(policy: LinuxSchedulerPolicy, flags: Option<Vec<LinuxSchedulerFlag>>) -> Scheduler {
    Scheduler {
        policy,
        nice: None,
        priority: None,
        flags,
        runtime: None,
        deadline: None,
        period: None,
    }
}

#[test]
fn join_appends_a_relative_path() {
    let base = FsPath::new("/proc/sys");
    assert_eq!(base.join(&FsPath::new("net/ipv4")), FsPath::new("/proc/sys/net/ipv4"));
    assert_eq!(
        FsPath::new("/proc/").join(&FsPath::new("sys")),
        FsPath::new("/proc/sys")
    );
    assert_eq!(FsPath::new("").join(&FsPath::new("sys")), FsPath::new("sys"));
}

#[test]
fn join_with_an_absolute_path_gives_that_path() {
    assert_eq!(FsPath::new("/proc").join(&FsPath::new("/etc")), FsPath::new("/etc"));
}

#[test]
fn absolute_paths_start_at_the_root() {
    assert!(FsPath::new("/").is_absolute());
    assert!(!FsPath::new("etc").is_absolute());
    assert!(!FsPath::new("").is_absolute());
    assert!(FsPath::new("").is_empty());
    assert!(!FsPath::new(".").is_empty());
}

#[test]
fn a_variable_has_one_value() {
    let mut envs = Envs::new();
    assert!(!envs.contains_key("A"));
    envs.insert("A".to_string(), "1".to_string());
    envs.insert("B".to_string(), "2".to_string());
    envs.insert("A".to_string(), "3".to_string());
    assert!(envs.contains_key("A"));
    assert_eq!(envs.get("A"), Some(&"3".to_string()));
    assert_eq!(envs.get("B"), Some(&"2".to_string()));
    assert_eq!(envs.get("C"), None);
    assert_eq!(envs.vars().len(), 2);
    assert_eq!(envs.copy(), envs);
}

#[test]
fn no_scheduler_asks_for_nothing() {
    assert_eq!(setup_scheduler(&None), None);
}

#[test]
fn every_policy_has_its_number() {
    for (policy, number) in [
        (LinuxSchedulerPolicy::SchedOther, 0),
        (LinuxSchedulerPolicy::SchedFifo, 1),
        (LinuxSchedulerPolicy::SchedRr, 2),
        (LinuxSchedulerPolicy::SchedBatch, 3),
        (LinuxSchedulerPolicy::SchedIso, 4),
        (LinuxSchedulerPolicy::SchedIdle, 5),
        (LinuxSchedulerPolicy::SchedDeadline, 6),
    ] {
        let attr = setup_scheduler(&Some(scheduler(policy, None))).unwrap();
        assert_eq!(
            attr,
            SchedAttr {
                size: std::mem::size_of::<nc::sched_attr_t>() as u32,
                sched_policy: number,
                sched_flags: 0,
                sched_nice: 0,
                sched_priority: 0,
                sched_runtime: 0,
                sched_deadline: 0,
                sched_period: 0,
                sched_util_min: 0,
                sched_util_max: 0,
            }
        );
        assert_eq!(attr.size, 56);
    }
}

#[test]
fn flags_add_up_in_any_order() {
    let value = |flags: Vec<LinuxSchedulerFlag>| {
        setup_scheduler(&Some(scheduler(LinuxSchedulerPolicy::SchedOther, Some(flags))))
            .unwrap()
            .sched_flags
    };
    assert_eq!(value(vec![]), 0);
    for (flag, bit) in [
        (LinuxSchedulerFlag::SchedResetOnFork, 0x01),
        (LinuxSchedulerFlag::SchedFlagReclaim, 0x02),
        (LinuxSchedulerFlag::SchedFlagDLOverrun, 0x04),
        (LinuxSchedulerFlag::SchedFlagKeepPolicy, 0x08),
        (LinuxSchedulerFlag::SchedFlagKeepParams, 0x10),
        (LinuxSchedulerFlag::SchedFlagUtilClampMin, 0x20),
        (LinuxSchedulerFlag::SchedFlagUtilClampMax, 0x40),
    ] {
        assert_eq!(value(vec![flag]), bit);
        assert_eq!(value(vec![flag, flag]), bit);
    }
    assert_eq!(
        value(vec![
            LinuxSchedulerFlag::SchedFlagUtilClampMax,
            LinuxSchedulerFlag::SchedResetOnFork,
            LinuxSchedulerFlag::SchedFlagReclaim,
        ]),
        0x43
    );
}

#[test]
fn numbers_of_the_scheduler_are_handed_on() {
    let attr = setup_scheduler(&Some(Scheduler {
        policy: LinuxSchedulerPolicy::SchedDeadline,
        nice: Some(-20),
        priority: Some(-1),
        flags: None,
        runtime: Some(10),
        deadline: Some(u64::MAX),
        period: Some(30),
    }))
    .unwrap();
    assert_eq!(attr.sched_nice, -20);
    assert_eq!(attr.sched_priority, u32::MAX);
    assert_eq!(attr.sched_runtime, 10);
    assert_eq!(attr.sched_deadline, u64::MAX);
    assert_eq!(attr.sched_period, 30);
}
