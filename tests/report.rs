use host_report::device::DeviceType;
use host_report::ranking::Adapter;
use host_report::report::{
    build_report, cpu_name, fact_or, graphics_components, storage_components, used_space,
    DiskFacts, HostFacts, ReportError, SystemInfo, UNKNOWN_CPU, UNKNOWN_HOST_NAME,
};

fn adapter(name: &str, vendor: &str, vram: u64, device_type: DeviceType) -> Adapter {
    Adapter {
        name: name.to_string(),
        vendor: vendor.to_string(),
        vram,
        device_type,
    }
}

fn disk(name: &str, total_space: u64, available_space: u64) -> DiskFacts {
    DiskFacts {
        name: name.to_string(),
        file_system: "ext4".to_string(),
        total_space,
        available_space,
    }
}

fn full_facts() -> HostFacts {
    HostFacts {
        cpu_brands: vec!["Ryzen 9".to_string(), "Ryzen 9".to_string()],
        total_memory: 17_179_869_184,
        host_name: Some("workstation".to_string()),
        os_name: Some("Linux".to_string()),
        os_version: Some("Linux 24.04 Ubuntu".to_string()),
        kernel_version: Some("6.8.0".to_string()),
        architecture: "x86_64".to_string(),
        disks: vec![disk("sda1", 1000, 400), disk("sdb1", 0, 0)],
    }
}

fn adapters() -> Vec<Adapter> {
    vec![
        adapter("Intel UHD", "0x8086", 0, DeviceType::IntegratedGpu),
        adapter("RTX 4090", "0x10de", 24, DeviceType::DiscreteGpu),
        adapter("RTX 3060", "0x10de", 12, DeviceType::DiscreteGpu),
    ]
}

fn graphics_names(info: &SystemInfo) -> Vec<String> {
    info.graphic_components.iter().map(|g| g.name.clone()).collect()
}

#[test]
fn empty_cpu_list_gives_unknown_cpu() {
    assert_eq!(cpu_name(&Vec::new()), "Unknown CPU");
    assert_eq!(UNKNOWN_CPU, "Unknown CPU");
    let mut facts = full_facts();
    facts.cpu_brands = Vec::new();
    let info = build_report(facts, adapters()).unwrap();
    assert_eq!(info.cpu_name, "Unknown CPU");
}

#[test]
fn first_cpu_brand_is_the_name() {
    let brands = vec!["first".to_string(), "second".to_string()];
    assert_eq!(cpu_name(&brands), "first");
}

#[test]
fn missing_host_name_only_changes_host_name() {
    let mut facts = full_facts();
    facts.host_name = None;
    let info = build_report(facts, adapters()).unwrap();
    assert_eq!(info.host_name, "Unknown Host Name");
    assert_eq!(UNKNOWN_HOST_NAME, "Unknown Host Name");
    assert_eq!(info.cpu_name, "Ryzen 9");
    assert_eq!(info.os_name, "Linux");
    assert_eq!(info.os_version, "Linux 24.04 Ubuntu");
    assert_eq!(info.os_kernel_version, "6.8.0");
    assert_eq!(info.os_architecture, "x86_64");
    assert_eq!(info.total_memory, 17_179_869_184);
}

#[test]
fn all_missing_facts_get_placeholders() {
    let facts = HostFacts {
        cpu_brands: Vec::new(),
        total_memory: 0,
        host_name: None,
        os_name: None,
        os_version: None,
        kernel_version: None,
        architecture: "aarch64".to_string(),
        disks: Vec::new(),
    };
    let info = build_report(facts, adapters()).unwrap();
    assert_eq!(info.cpu_name, "Unknown CPU");
    assert_eq!(info.host_name, "Unknown Host Name");
    assert_eq!(info.os_name, "Unknown OS");
    assert_eq!(info.os_version, "Unknown OS Version");
    assert_eq!(info.os_kernel_version, "Unknown Kernel Version");
    assert_eq!(info.os_architecture, "aarch64");
    assert!(info.storage_components.is_empty());
}

#[test]
fn report_ranks_graphics_components() {
    let info = build_report(full_facts(), adapters()).unwrap();
    assert_eq!(graphics_names(&info), vec!["RTX 4090", "RTX 3060", "Intel UHD"]);
    let primary = info.primary_graphics();
    assert_eq!(primary.name, "RTX 4090");
    assert_eq!(primary.vendor, "0x10de");
    assert_eq!(primary.vram, 24);
}

#[test]
fn no_adapter_fails_the_report() {
    let r = build_report(full_facts(), Vec::new());
    assert!(matches!(r, Err(ReportError::NoAdapterFound)));
}

#[test]
fn storage_components_keep_every_volume() {
    let info = build_report(full_facts(), adapters()).unwrap();
    assert_eq!(info.storage_components.len(), 2);
    let a = &info.storage_components[0];
    assert_eq!(a.name, "sda1");
    assert_eq!(a.file_system, "ext4");
    assert_eq!(a.total_space, 1000);
    assert_eq!(a.used_space, 600);
    let b = &info.storage_components[1];
    assert_eq!(b.name, "sdb1");
    assert_eq!(b.total_space, 0);
    assert_eq!(b.used_space, 0);
}

#[test]
fn storage_components_map_one_to_one() {
    let out = storage_components(vec![disk("x", 10, 3), disk("x", 10, 3), disk("y", 5, 9)]);
    assert_eq!(out.len(), 3);
    assert_eq!(out[0].used_space, 7);
    assert_eq!(out[1].name, "x");
    assert_eq!(out[2].name, "y");
    assert_eq!(out[2].used_space, 0);
}

#[test]
fn used_space_is_capacity_less_available() {
    assert_eq!(used_space(100, 40), 60);
    assert_eq!(used_space(100, 100), 0);
    assert_eq!(used_space(100, 140), 0);
    assert_eq!(used_space(u64::MAX, 0), u64::MAX);
}

#[test]
fn fallback_only_when_missing() {
    assert_eq!(fact_or(Some("value".to_string()), "fallback"), "value");
    assert_eq!(fact_or(Some(String::new()), "fallback"), "");
    assert_eq!(fact_or(None, "fallback"), "fallback");
}

#[test]
fn graphics_components_keep_order_and_fields() {
    let out = graphics_components(adapters());
    assert_eq!(out.len(), 3);
    assert_eq!(out[0].name, "Intel UHD");
    assert_eq!(out[0].vendor, "0x8086");
    assert_eq!(out[1].vram, 24);
    assert_eq!(out[2].name, "RTX 3060");
}

#[test]
fn total_memory_in_gib() {
    let info = build_report(full_facts(), adapters()).unwrap();
    assert_eq!(info.total_memory_gib(), 16);
}

#[test]
fn building_twice_gives_the_same_report() {
    let first = build_report(full_facts(), adapters()).unwrap();
    let mut later = full_facts();
    later.disks[0].available_space = 100;
    let second = build_report(later, adapters()).unwrap();
    assert_eq!(first.cpu_name, second.cpu_name);
    assert_eq!(first.total_memory, second.total_memory);
    assert_eq!(first.host_name, second.host_name);
    assert_eq!(first.os_name, second.os_name);
    assert_eq!(first.os_version, second.os_version);
    assert_eq!(first.os_kernel_version, second.os_kernel_version);
    assert_eq!(first.os_architecture, second.os_architecture);
    assert_eq!(graphics_names(&first), graphics_names(&second));
    assert_eq!(first.storage_components.len(), second.storage_components.len());
    for (a, b) in first.storage_components.iter().zip(second.storage_components.iter()) {
        assert_eq!(a.name, b.name);
        assert_eq!(a.file_system, b.file_system);
        assert_eq!(a.total_space, b.total_space);
    }
    assert_eq!(second.storage_components[0].used_space, 900);
}
