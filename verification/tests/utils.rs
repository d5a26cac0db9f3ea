use rxdp::num_cpus;
use rxdp::object::{pin_path, pinned_map_flags};

#[test]
fn test_one_cpu() {
    assert_eq!(num_cpus("0").unwrap(), 1);
    assert_eq!(num_cpus("0\n").unwrap(), 1);
    assert_eq!(num_cpus(" \t0 \r\n").unwrap(), 1);
}

#[test]
fn test_range_of_cpus() {
    assert_eq!(num_cpus("0-7\n").unwrap(), 8);
    assert_eq!(num_cpus("0-1").unwrap(), 2);
    assert_eq!(num_cpus("0-127\n").unwrap(), 128);
    assert_eq!(num_cpus("2-5").unwrap(), 4);
    assert_eq!(num_cpus("5-5").unwrap(), 1);
    assert_eq!(num_cpus("  0-3  ").unwrap(), 4);
    assert_eq!(num_cpus("\u{a0}0-3\u{3000}").unwrap(), 4);
    assert_eq!(num_cpus("+1-+3").unwrap(), 3);
    assert_eq!(num_cpus("007-010").unwrap(), 4);
    assert_eq!(num_cpus("0-4294967294").unwrap(), 4294967295);
}

#[test]
fn test_a_bound_that_is_no_number_counts_as_zero() {
    assert_eq!(num_cpus("a-3").unwrap(), 4);
    assert_eq!(num_cpus("-3").unwrap(), 4);
    assert_eq!(num_cpus("1 -3").unwrap(), 4);
    assert_eq!(num_cpus("4294967296-3").unwrap(), 4);
    assert_eq!(num_cpus("+-3").unwrap(), 4);
    assert_eq!(num_cpus("1.5-3").unwrap(), 4);
}

#[test]
fn test_lists_that_tell_no_number() {
    for contents in [
        "", " ", "\n", "1", "7", "00", "0 0", "0,1", "0-0", "3-0", "3-a", "3-", "-", "0-3-7",
        "0--3", "1-2-", "-1-2", "7-3", "0-4294967296", "0- 3", "0-3x", "zero", "0\u{0}",
    ] {
        let e = num_cpus(contents).err().unwrap();
        let d = e.description();
        assert!(d.starts_with("Unable to determine number of cpus: "), "{:?}: {}", contents, d);
    }
}

#[test]
fn test_pin_path() {
    assert_eq!(pin_path(None, "lru_hash"), "/sys/fs/bpf/lru_hash");
    assert_eq!(pin_path(Some("/sys/fs/bpf"), "lru_hash"), "/sys/fs/bpf/lru_hash");
    assert_eq!(pin_path(Some("/sys/fs/bpf/"), "lru_hash"), "/sys/fs/bpf/lru_hash");
    assert_eq!(pin_path(Some("/sys/fs/bpf/x///"), "m"), "/sys/fs/bpf/x/m");
    assert_eq!(pin_path(Some("/"), "m"), "/m");
    assert_eq!(pin_path(Some("///"), "m"), "/m");
    assert_eq!(pin_path(Some(""), "m"), "/m");
    assert_eq!(pin_path(Some("/tmp/\u{e9}t\u{e9}/"), "m"), "/tmp/\u{e9}t\u{e9}/m");
    assert_eq!(pin_path(Some("rel/dir"), ""), "rel/dir/");
    assert_eq!(pin_path(Some("/a/ /"), "m"), "/a/ /m");
}

#[test]
fn test_flags_of_a_pinned_device_map() {
    assert_eq!(pinned_map_flags(14, true, 0), Some(0x80));
    assert_eq!(pinned_map_flags(14, true, 0x3), Some(0x83));
    assert_eq!(pinned_map_flags(14, true, 0x80), Some(0x80));
    assert_eq!(pinned_map_flags(14, true, u32::MAX), Some(u32::MAX));
    assert_eq!(pinned_map_flags(14, false, 0x3), None);
    assert_eq!(pinned_map_flags(1, true, 0x3), None);
    assert_eq!(pinned_map_flags(25, true, 0x3), None);
    assert_eq!(pinned_map_flags(0, false, 0), None);
}
