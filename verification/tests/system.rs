use genesys::system_info::{CPUInfo, GPUInfo, MemoryInfo, SystemInfo};

#[test]
fn percentage_is_the_used_share_rounded_down() {
    assert_eq!(SystemInfo::calculate_memory_percentage(8, 16), 50);
    assert_eq!(SystemInfo::calculate_memory_percentage(1, 3), 33);
    assert_eq!(SystemInfo::calculate_memory_percentage(0, 7), 0);
    assert_eq!(SystemInfo::calculate_memory_percentage(7, 7), 100);
    assert_eq!(
        SystemInfo::calculate_memory_percentage(u64::MAX - 1, u64::MAX),
        99
    );
}

#[test]
fn a_used_reading_above_the_total_reports_its_over_share() {
    assert_eq!(SystemInfo::calculate_memory_percentage(200, 100), 200);
    assert_eq!(SystemInfo::calculate_memory_percentage(3, 2), 150);
    let info = MemoryInfo::from_raw(4 * 1024 * 1024, 2 * 1024 * 1024);
    assert_eq!(info.percentage, 200);
}

#[test]
fn a_share_beyond_the_integer_range_saturates() {
    assert_eq!(
        SystemInfo::calculate_memory_percentage(u64::MAX, 1),
        u64::MAX
    );
}

#[test]
fn raw_byte_counts_become_megabytes_and_percent() {
    let info = MemoryInfo::from_raw(2 * 1024 * 1024, 4 * 1024 * 1024);
    assert_eq!(info.used, 2);
    assert_eq!(info.total, 4);
    assert_eq!(info.percentage, 50);
}

#[test]
fn the_snapshot_keeps_the_collaborator_readings() {
    let memory = MemoryInfo::from_raw(1024 * 1024, 8 * 1024 * 1024);
    let gpu_memory = MemoryInfo::from_raw(3 * 1024 * 1024, 4 * 1024 * 1024);
    let info = SystemInfo::get_system_info(
        CPUInfo { name: String::from("sixteen cores"), usage: 42 },
        GPUInfo {
            name: String::from("one big die"),
            usage: 7,
            temperature: 55,
            memory: gpu_memory,
        },
        memory,
    );
    assert_eq!(info.cpu.usage, 42);
    assert_eq!(info.gpu.temperature, 55);
    assert_eq!(info.gpu.memory.percentage, 75);
    assert_eq!(info.memory.percentage, 12);
}
