use std::path::PathBuf;

use memory_admission::providers::{
    cgroup_v2_relative_path, parse_cgroup_current, parse_cgroup_file_cache_bytes,
    parse_cgroup_limit, parse_meminfo_line, parse_memtotal_kib, parse_proc_meminfo_stats,
    sysinfo_stats_from, CgroupV2Provider, ProcMeminfoProvider,
};
use memory_admission::{MemoryStats, ProviderError};

fn used_fraction(stats: MemoryStats) -> f64 {
    if stats.total_bytes == 0 {
        0.0
    } else {
        1.0 - (stats.available_bytes as f64 / stats.total_bytes as f64)
    }
}

fn parse_proc_meminfo(contents: &str) -> Result<f64, ProviderError> {
    Ok(used_fraction(parse_proc_meminfo_stats(contents)?))
}

fn source_message(e: ProviderError) -> String {
    match e {
        ProviderError::Source(m) => m,
        ProviderError::Unsupported => panic!("expected a source error"),
    }
}

#[test]
fn parses_typical_proc_meminfo() {
    let contents = "MemTotal:       65536000 kB\nMemFree:         1024000 kB\nMemAvailable:   13107200 kB\n";
    let used = parse_proc_meminfo(contents).unwrap();
    assert!((used - 0.80).abs() < 0.01);
}

#[test]
fn errors_when_available_exceeds_total() {
    let contents = "MemTotal: 1000 kB\nMemAvailable: 2000 kB\n";
    assert!(parse_proc_meminfo(contents).is_err());
}

#[test]
fn errors_when_total_zero() {
    let contents = "MemTotal: 0 kB\nMemAvailable: 0 kB\n";
    assert!(parse_proc_meminfo(contents).is_err());
}

#[test]
fn errors_when_field_missing() {
    let contents = "MemTotal: 1000 kB\n";
    assert!(parse_proc_meminfo(contents).is_err());
}

#[test]
fn parses_cgroup_file_cache() {
    let contents = "anon 1024\nfile 4096\nkernel 512\n";
    assert_eq!(parse_cgroup_file_cache_bytes(contents), 4096);
}

#[test]
fn parses_memtotal_for_cgroup_fallback() {
    let contents = "MemFree: 100 kB\nMemTotal: 2048 kB\n";
    assert_eq!(parse_memtotal_kib(contents), Some(2048));
}

#[test]
fn meminfo_stats_are_reported_in_bytes() {
    let contents = "MemTotal: 1000 kB\nMemAvailable: 250 kB\nBuffers: 10 kB\nCached: 30 kB\n";
    let stats = parse_proc_meminfo_stats(contents).unwrap();
    assert_eq!(
        stats,
        MemoryStats {
            total_bytes: 1_024_000,
            available_bytes: 256_000,
            page_cache_bytes: 40_960,
        }
    );
}

#[test]
fn meminfo_last_line_of_a_key_counts() {
    let contents = "MemTotal: 1000 kB\nMemTotal: 4000 kB\nMemAvailable: 1 kB\n";
    let stats = parse_proc_meminfo_stats(contents).unwrap();
    assert_eq!(stats.total_bytes, 4_096_000);
    assert_eq!(stats.page_cache_bytes, 0);
}

#[test]
fn meminfo_crlf_and_missing_final_newline() {
    let contents = "MemTotal: 8 kB\r\nMemAvailable: 4 kB";
    let stats = parse_proc_meminfo_stats(contents).unwrap();
    assert_eq!(stats.total_bytes, 8192);
    assert_eq!(stats.available_bytes, 4096);
}

#[test]
fn meminfo_error_messages() {
    assert_eq!(
        source_message(parse_proc_meminfo_stats("MemAvailable: 1 kB\n").unwrap_err()),
        "MemTotal not found"
    );
    assert_eq!(
        source_message(parse_proc_meminfo_stats("MemTotal: 1 kB\n").unwrap_err()),
        "MemAvailable not found"
    );
    assert_eq!(
        source_message(parse_proc_meminfo_stats("MemTotal: 0 kB\nMemAvailable: 0 kB\n").unwrap_err()),
        "MemTotal must be > 0"
    );
    assert_eq!(
        source_message(
            parse_proc_meminfo_stats("MemTotal: 1000 kB\nMemAvailable: 2000 kB\n").unwrap_err()
        ),
        "MemAvailable cannot exceed MemTotal"
    );
}

#[test]
fn meminfo_saturates_huge_figures() {
    let contents = "MemTotal: 18446744073709551615 kB\nMemAvailable: 18446744073709551615 kB\n";
    let stats = parse_proc_meminfo_stats(contents).unwrap();
    assert_eq!(stats.total_bytes, u64::MAX);
    assert_eq!(stats.available_bytes, u64::MAX);
}

#[test]
fn meminfo_line_values() {
    assert_eq!(parse_meminfo_line("MemTotal:  2048 kB", "MemTotal"), Some(2048));
    assert_eq!(parse_meminfo_line("  MemTotal  :+7", "MemTotal"), Some(7));
    assert_eq!(parse_meminfo_line("MemTotal 2048 kB", "MemTotal"), None);
    assert_eq!(parse_meminfo_line("MemFree: 2048 kB", "MemTotal"), None);
    assert_eq!(parse_meminfo_line("MemTotal:", "MemTotal"), None);
    assert_eq!(parse_meminfo_line("MemTotal: -1 kB", "MemTotal"), None);
    assert_eq!(parse_meminfo_line("MemTotal: 18446744073709551616", "MemTotal"), None);
    assert_eq!(parse_meminfo_line("MemTotal:\u{a0}12\u{3000}kB", "MemTotal"), Some(12));
}

#[test]
fn memtotal_first_line_counts() {
    assert_eq!(parse_memtotal_kib("MemTotal: 1 kB\nMemTotal: 2 kB\n"), Some(1));
    assert_eq!(parse_memtotal_kib("MemFree: 1 kB\n"), None);
    assert_eq!(parse_memtotal_kib(""), None);
}

#[test]
fn cgroup_file_cache_defaults_to_zero() {
    assert_eq!(parse_cgroup_file_cache_bytes("anon 1\nfile_mapped 5\n"), 0);
    assert_eq!(parse_cgroup_file_cache_bytes("file x\nfile  9 \n"), 9);
}

#[test]
fn cgroup_path_from_proc_self_cgroup() {
    assert_eq!(
        cgroup_v2_relative_path("0::/user.slice/app.scope\n"),
        Some("user.slice/app.scope".to_string())
    );
    assert_eq!(
        cgroup_v2_relative_path("12:memory:/legacy\n0::/\n"),
        Some(String::new())
    );
    assert_eq!(cgroup_v2_relative_path("12:memory:/legacy\n"), None);
}

#[test]
fn cgroup_limits_and_current() {
    assert_eq!(parse_cgroup_limit("max\n"), None);
    assert_eq!(parse_cgroup_limit("  \n"), None);
    assert_eq!(parse_cgroup_limit("1073741824\n"), Some(1_073_741_824));
    assert_eq!(parse_cgroup_limit("lots\n"), None);
    assert_eq!(parse_cgroup_current("4096\n"), Some(4096));
    assert_eq!(parse_cgroup_current(""), None);
}

#[test]
fn cgroup_stats_prefer_high_then_max_then_host() {
    let p = CgroupV2Provider::from_parts(PathBuf::from("/sys/fs/cgroup/x"), Some("MemTotal: 4 kB\n"));
    assert_eq!(p.fallback_total(), 4096);
    assert_eq!(
        p.stats_from(Some(100), Some(1000), Some(5000), 7),
        Ok(MemoryStats {
            total_bytes: 1000,
            available_bytes: 900,
            page_cache_bytes: 7,
        })
    );
    assert_eq!(p.stats_from(Some(100), None, Some(5000), 0).unwrap().total_bytes, 5000);
    assert_eq!(p.stats_from(Some(100), Some(0), Some(5000), 0).unwrap().total_bytes, 4096);
    assert_eq!(p.stats_from(Some(9000), None, None, 0).unwrap().available_bytes, 0);
    assert_eq!(
        p.stats_from(None, Some(1000), None, 0),
        Err(ProviderError::Source("cgroup memory.current unreadable".to_string()))
    );
    let no_host = CgroupV2Provider::from_parts(PathBuf::from("/sys/fs/cgroup"), None);
    assert_eq!(no_host.fallback_total(), 0);
    assert!(no_host.stats_from(Some(1), None, None, 0).is_err());
}

#[test]
fn sysinfo_stats_clamp_available() {
    assert_eq!(
        sysinfo_stats_from(100, 150),
        Ok(MemoryStats {
            total_bytes: 100,
            available_bytes: 100,
            page_cache_bytes: 0,
        })
    );
    assert_eq!(
        sysinfo_stats_from(0, 5),
        Err(ProviderError::Source("sysinfo reports total_memory = 0".to_string()))
    );
}

#[test]
fn provider_error_messages() {
    assert_eq!(ProviderError::new("boom".to_string()), ProviderError::Source("boom".to_string()));
    assert_eq!(ProviderError::new("boom".to_string()).message(), "boom");
    assert_eq!(
        ProviderError::Unsupported.message(),
        "memory provider does not support this operation"
    );
    assert_eq!(ProcMeminfoProvider::PATH, "/proc/meminfo");
}

#[test]
fn sysinfo_stats_of_this_host() {
    let mut system = sysinfo::System::new();
    system.refresh_memory();
    if let Ok(stats) = memory_admission::providers::sysinfo_stats(&system) {
        assert!(stats.total_bytes > 0);
        assert!(stats.available_bytes <= stats.total_bytes);
        assert_eq!(stats.page_cache_bytes, 0);
    }
}

#[test]
fn cgroup_path_line_endings() {
    assert_eq!(cgroup_v2_relative_path("0::/a\r\n"), Some("a".to_string()));
    assert_eq!(cgroup_v2_relative_path("0::/a\r"), Some("a\r".to_string()));
    assert_eq!(cgroup_v2_relative_path("0:://a/b\n"), Some("a/b".to_string()));
}
