use memonitor::native::{NativeKind, Probe, Properties};
use memonitor::{
    list_all_devices, list_backends, BackendHandle, Context, DeviceHandle, DeviceKind, GPUKind,
    MemoryStats, VULKAN_NAME,
};

struct Session;

impl BackendHandle for Session {
    fn name(&self) -> &str {
        VULKAN_NAME
    }
}

struct Card {
    name: String,
    kind: DeviceKind,
    memory: usize,
    budget: usize,
    usage: usize,
}

impl DeviceHandle for Card {
    fn name(&self) -> &str {
        &self.name
    }

    fn kind(&self) -> DeviceKind {
        self.kind
    }

    fn backend_name(&self) -> &str {
        VULKAN_NAME
    }

    fn current_memory_stats(&self) -> MemoryStats {
        memonitor::vulkan::memory_stats(self.memory, self.budget, self.usage)
    }
}

fn session() -> Option<(Session, Vec<Card>)> {
    let listing = vec![
        Probe::Found(Properties {
            name: "card zero".to_string(),
            kind: NativeKind::DiscreteGPU,
            total_memory: 8000,
        }),
        Probe::Found(Properties {
            name: "no memory".to_string(),
            kind: NativeKind::VirtualGPU,
            total_memory: 0,
        }),
        Probe::Found(Properties {
            name: "card two".to_string(),
            kind: NativeKind::IntegratedGPU,
            total_memory: 2000,
        }),
    ];
    let infos = memonitor::vulkan::discover(0, Some(listing))?;
    let cards = infos
        .into_iter()
        .map(|info| Card {
            name: info.name,
            kind: memonitor::vulkan::device_kind(info.kind),
            memory: info.memory,
            budget: info.memory / 2,
            usage: info.memory / 4,
        })
        .collect();
    Some((Session, cards))
}

#[test]
fn vulkan() {
    let mut context = Context::default();
    context.init_with(session, || None::<(Session, Vec<Card>)>);

    let guard = list_backends(&context);
    let vulkan = guard.iter().find(|b| b.name() == "Vulkan").unwrap();
    let devices = list_all_devices(&context);
    let mut seen = Vec::new();
    for id in vulkan.device_ids().iter() {
        let device = &devices[*id];
        let stats = device.current_memory_stats();
        println!(
            "Device found: {} - Memory stats: {} bytes used out of {}",
            device.name(),
            stats.used,
            stats.total
        );
        assert_eq!(device.backend_id(), vulkan.id());
        assert_eq!(device.backend_name(), "Vulkan");
        seen.push((device.name().to_string(), device.kind(), stats));
    }
    assert_eq!(
        seen,
        vec![
            (
                "card zero".to_string(),
                DeviceKind::GPU(GPUKind::Discrete),
                MemoryStats {
                    total: 8000,
                    available: 2000,
                    used: 6000
                }
            ),
            (
                "card two".to_string(),
                DeviceKind::GPU(GPUKind::Integrated),
                MemoryStats {
                    total: 2000,
                    available: 500,
                    used: 1500
                }
            ),
        ]
    );
}

fn session_without_memory() -> Option<(Session, Vec<Card>)> {
    let listing = vec![Probe::Found(Properties {
        name: "no memory".to_string(),
        kind: NativeKind::DiscreteGPU,
        total_memory: 0,
    })];
    let infos = memonitor::vulkan::discover(0, Some(listing))?;
    let cards = infos
        .into_iter()
        .map(|info| Card {
            name: info.name,
            kind: memonitor::vulkan::device_kind(info.kind),
            memory: info.memory,
            budget: 0,
            usage: 0,
        })
        .collect();
    Some((Session, cards))
}

#[test]
fn a_session_without_usable_devices_registers_nothing() {
    let mut context = Context::default();
    assert!(context.init_with(session_without_memory, || None::<(Session, Vec<Card>)>));
    let backends = list_backends(&context);
    assert_eq!(backends.len(), 1);
    assert_eq!(backends[0].name(), "Host");
    assert!(backends.iter().all(|b| b.name() != "Vulkan"));
}
