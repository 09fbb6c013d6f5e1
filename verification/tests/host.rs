use memonitor::cpu::{distinct_names, memory_stats, Host};
use memonitor::{
    init, list_all_devices, BackendHandle, Context, DeviceHandle, DeviceKind, MemoryStats,
};
use std::sync::Arc;

fn strings(names: &[&str]) -> Vec<String> {
    names.iter().map(|n| n.to_string()).collect()
}

#[test]
fn distinct_names_keeps_first_occurrences() {
    assert_eq!(
        distinct_names(strings(&["a", "b", "a", "c", "b", "a"])),
        strings(&["a", "b", "c"])
    );
}

#[test]
fn distinct_names_of_equal_cores_is_one() {
    assert_eq!(
        distinct_names(strings(&["Model X", "Model X", "Model X", "Model X"])),
        strings(&["Model X"])
    );
}

#[test]
fn distinct_names_of_nothing_is_nothing() {
    assert_eq!(distinct_names(Vec::new()), Vec::<String>::new());
}

#[test]
fn distinct_names_keeps_the_empty_name() {
    assert_eq!(distinct_names(strings(&["", "x", ""])), strings(&["", "x"]));
}

#[test]
fn assemble_makes_one_device_per_model() {
    let system = sysinfo::System::new();
    let (host, cpus) = Host::assemble(system, strings(&["P", "E", "P", "E", "E"]), 8192);
    assert_eq!(host.name(), "Host");
    assert_eq!(cpus.len(), 2);
    assert_eq!(cpus[0].name(), "P");
    assert_eq!(cpus[1].name(), "E");
    for cpu in cpus.iter() {
        assert_eq!(cpu.kind(), DeviceKind::CPU);
        assert_eq!(cpu.backend_name(), "Host");
        assert_eq!(cpu.current_memory_stats().total, 8192);
    }
}

#[test]
fn assemble_without_cores_has_no_devices() {
    let (host, cpus) = Host::assemble(sysinfo::System::new(), Vec::new(), 1);
    assert_eq!(host.name(), "Host");
    assert!(cpus.is_empty());
}

#[test]
fn host_devices_have_distinct_names_and_one_total() {
    let (host, cpus) = Host::init();
    assert_eq!(host.name(), "Host");
    for i in 0..cpus.len() {
        for j in (i + 1)..cpus.len() {
            assert_ne!(cpus[i].name(), cpus[j].name());
        }
        assert_eq!(
            cpus[i].current_memory_stats().total,
            cpus[0].current_memory_stats().total
        );
    }
}

#[test]
fn host_total_is_constant_across_queries() {
    let mut context = Context::default();
    init(&mut context);
    for device in list_all_devices(&context).iter() {
        let first = device.current_memory_stats();
        let second = device.current_memory_stats();
        let third = device.current_memory_stats();
        assert_eq!(first.total, second.total);
        assert_eq!(second.total, third.total);
    }
}

#[test]
fn host_stats_are_read_from_the_system() {
    let (_host, cpus) = Host::assemble(sysinfo::System::new(), strings(&["only"]), 0);
    let stats = cpus[0].current_memory_stats();
    assert_eq!(stats.total, 0);
    if sysinfo::IS_SUPPORTED_SYSTEM {
        assert!(stats.available > 0 || stats.used > 0);
    }
}

#[test]
fn devices_of_one_host_can_be_asked_from_shared_handles() {
    let (_host, cpus) = Host::assemble(sysinfo::System::new(), strings(&["a", "b"]), 77);
    let cpus = Arc::new(cpus);
    let again = Arc::clone(&cpus);
    for _ in 0..8 {
        assert_eq!(cpus[0].current_memory_stats().total, 77);
        assert_eq!(again[1].current_memory_stats().total, 77);
    }
}

#[test]
fn host_devices_are_the_distinct_core_brands() {
    let mut system = sysinfo::System::new();
    system.refresh_cpu();
    let brands: Vec<String> = system
        .cpus()
        .iter()
        .map(|core| core.brand().to_string())
        .collect();
    let cores = brands.len();
    let expected = distinct_names(brands);
    let (_host, cpus) = Host::init();
    let names: Vec<String> = cpus.iter().map(|cpu| cpu.name().to_string()).collect();
    assert_eq!(names, expected);
    if cores > 0 {
        assert!(!names.is_empty());
    }
}

#[test]
fn host_stats_hold_what_the_system_reports() {
    assert_eq!(
        memory_stats(1000, 400, 600),
        MemoryStats {
            total: 1000,
            available: 400,
            used: 600
        }
    );
    assert_eq!(
        memory_stats(0, 7, 9),
        MemoryStats {
            total: 0,
            available: 7,
            used: 9
        }
    );
}

#[test]
fn one_model_makes_one_device() {
    let (_host, cpus) = Host::assemble(
        sysinfo::System::new(),
        strings(&["Model X", "Model X", "Model X"]),
        16,
    );
    assert_eq!(cpus.len(), 1);
    assert_eq!(cpus[0].name(), "Model X");
}

#[test]
fn host_total_is_what_the_system_reports() {
    let mut system = sysinfo::System::new();
    system.refresh_memory();
    let total = system.total_memory() as usize;
    let (_host, cpus) = Host::init();
    for cpu in cpus.iter() {
        let stats = cpu.current_memory_stats();
        assert_eq!(stats.total, total);
        if sysinfo::IS_SUPPORTED_SYSTEM {
            assert!(stats.total > 0);
            assert!(stats.available > 0);
            assert!(stats.available <= stats.total);
            assert!(stats.used <= stats.total);
        }
    }
}
