use rxdp::MapType;

#[test]
fn test_from_u32() {
    for i in 0..27 {
        assert_eq!(i, MapType::from(i) as u32);
    }
}

#[test]
fn test_unknown_kind_is_unspec() {
    assert_eq!(MapType::from(28), MapType::Unspec);
    assert_eq!(MapType::from(u32::MAX), MapType::Unspec);
    assert_eq!(MapType::from(27), MapType::RingBuffer);
}

#[test]
fn test_code_is_the_kernel_number() {
    for i in 0..28u32 {
        assert_eq!(MapType::from(i).code(), i);
    }
    assert_eq!(MapType::Hash.code(), 1);
    assert_eq!(MapType::DevMap.code(), 14);
}

#[test]
fn test_array_like_kinds() {
    let arrays = [
        MapType::Array,
        MapType::PerCPUArray,
        MapType::ArrayOfMaps,
        MapType::ProgArray,
        MapType::PerfEventArray,
    ];
    for i in 0..28u32 {
        let t = MapType::from(i);
        assert_eq!(t.is_array(), arrays.contains(&t));
    }
}

#[test]
fn test_per_cpu_kinds() {
    let per_cpu = [MapType::PerCPUHash, MapType::PerCPUArray, MapType::LRUPerCPUHash];
    for i in 0..28u32 {
        let t = MapType::from(i);
        assert_eq!(t.is_per_cpu(), per_cpu.contains(&t));
    }
}

#[test]
fn test_reference_holding_kinds() {
    for i in 0..28u32 {
        let t = MapType::from(i);
        assert_eq!(t.holds_references(), t == MapType::DevMap);
    }
}
