use rxdp::map_batch::{lookup_batch_prealloc, populate_batch_result, BatchResultInternal};
use rxdp::percpu_map::{align, decode_per_cpu, encode_per_cpu};
use rxdp::{ByteAligned, EventType, KeyValue, MapFlags, MapValue, Outcome, PerfEvent};

#[test]
fn test_align_rounds_up_to_eight() {
    assert_eq!(align(0), 0);
    assert_eq!(align(1), 8);
    assert_eq!(align(2), 8);
    assert_eq!(align(4), 8);
    assert_eq!(align(7), 8);
    assert_eq!(align(8), 8);
    assert_eq!(align(9), 16);
    assert_eq!(align(16), 16);
    assert_eq!(align(17), 24);
    assert_eq!(align(u32::MAX - 7), 4294967288);
}

#[test]
fn test_value_goes_to_every_cpu() {
    assert_eq!(encode_per_cpu(100u32, 0), Vec::<u8>::new());
    assert_eq!(encode_per_cpu(100u32, 1), vec![100, 0, 0, 0, 0, 0, 0, 0]);
    assert_eq!(
        encode_per_cpu(0x0201u16, 3),
        vec![1, 2, 0, 0, 0, 0, 0, 0, 1, 2, 0, 0, 0, 0, 0, 0, 1, 2, 0, 0, 0, 0, 0, 0]
    );
    assert_eq!(encode_per_cpu(1u128, 2).len(), 32);
    assert_eq!(encode_per_cpu(-1i64, 2), vec![255u8; 16]);
    assert_eq!(encode_per_cpu(-1i32, 2), [255u8, 255, 255, 255, 0, 0, 0, 0].repeat(2));
}

#[test]
fn test_values_come_back_in_the_order_of_the_cpus() {
    let flat = vec![1, 0, 0, 0, 0, 0, 0, 0, 2, 0, 0, 0, 0, 0, 0, 0, 3, 1, 0, 0, 0, 0, 0, 0];
    assert_eq!(decode_per_cpu::<u32>(&flat, 8), vec![1, 2, 259]);
    assert_eq!(decode_per_cpu::<u8>(&flat, 8), vec![1, 2, 3]);
    assert_eq!(decode_per_cpu::<i64>(&flat, 8), vec![1, 2, 259]);
    assert_eq!(decode_per_cpu::<u64>(&[], 8), Vec::<u64>::new());
    // Bytes after the last whole slot do not count.
    assert_eq!(decode_per_cpu::<u32>(&flat[..23], 8), vec![1, 2]);
    assert_eq!(decode_per_cpu::<u32>(&flat[..7], 8), Vec::<u32>::new());
    let mut wide = vec![0u8; 32];
    wide[0] = 9;
    wide[31] = 1;
    assert_eq!(decode_per_cpu::<u128>(&wide, 16), vec![9, 1u128 << 120]);
}

#[test]
fn test_what_is_written_for_every_cpu_is_read_for_every_cpu() {
    for cpus in [1usize, 2, 4, 64, 255] {
        assert_eq!(decode_per_cpu::<u8>(&encode_per_cpu(100u8, cpus), 8), vec![100u8; cpus]);
        assert_eq!(decode_per_cpu::<u16>(&encode_per_cpu(100u16, cpus), 8), vec![100u16; cpus]);
        assert_eq!(decode_per_cpu::<u32>(&encode_per_cpu(100u32, cpus), 8), vec![100u32; cpus]);
        assert_eq!(decode_per_cpu::<u64>(&encode_per_cpu(100u64, cpus), 8), vec![100u64; cpus]);
        assert_eq!(decode_per_cpu::<u128>(&encode_per_cpu(100u128, cpus), 16), vec![100u128; cpus]);
        assert_eq!(decode_per_cpu::<i32>(&encode_per_cpu(-100i32, cpus), 8), vec![-100i32; cpus]);
        assert_eq!(encode_per_cpu(100u8, cpus).len() % 8, 0);
        assert_eq!(encode_per_cpu(100u128, cpus).len() % 16, 0);
        assert_eq!(encode_per_cpu(100u128, cpus).len(), cpus * 16);
        assert_eq!(encode_per_cpu(u32::MAX, cpus).len(), cpus * u32::MAX.align().len());
    }
}

#[test]
fn test_batch_is_read_from_the_kernels_answer() {
    let ok = Outcome { rc: 0, errno: 0 };
    assert_eq!(
        lookup_batch_prealloc(ok, 7, 3).unwrap(),
        BatchResultInternal { next_key: Some(7), num_items: 3 }
    );
    assert_eq!(
        lookup_batch_prealloc(Outcome { rc: -1, errno: 2 }, 7, 3).unwrap(),
        BatchResultInternal { next_key: None, num_items: 3 }
    );
    assert_eq!(
        lookup_batch_prealloc(Outcome { rc: -1, errno: 22 }, 7, 0).unwrap(),
        BatchResultInternal { next_key: None, num_items: 0 }
    );
    assert_eq!(
        lookup_batch_prealloc(Outcome { rc: -5, errno: 22 }, 7, 2).unwrap(),
        BatchResultInternal { next_key: None, num_items: 2 }
    );
    // What a call that went through has left in the error number ends nothing.
    assert_eq!(
        lookup_batch_prealloc(Outcome { rc: 0, errno: 2 }, 7, 1).unwrap(),
        BatchResultInternal { next_key: Some(7), num_items: 1 }
    );
    assert_eq!(
        lookup_batch_prealloc(Outcome { rc: 3, errno: 22 }, 0, 0).unwrap(),
        BatchResultInternal { next_key: Some(0), num_items: 0 }
    );
    let e = lookup_batch_prealloc(Outcome { rc: -1, errno: 28 }, 7, 3).err().unwrap();
    assert_eq!(e.code(), 28);
    assert_eq!(e.description(), "Error looking up batch of elements: No space left on device");
    let e = lookup_batch_prealloc(Outcome { rc: -1, errno: 9 }, 7, 3).err().unwrap();
    assert_eq!(e.code(), 9);
    let e = lookup_batch_prealloc(Outcome { rc: -1, errno: 524 }, 7, 3).err().unwrap();
    assert_eq!(e.code(), 95);
    let e = lookup_batch_prealloc(Outcome { rc: -1, errno: 0 }, 7, 3).err().unwrap();
    assert_eq!(e.code(), 0);
}

#[test]
fn test_batch_items_come_last_first() {
    let mut result: Vec<KeyValue<u32, MapValue<u8>>> =
        vec![KeyValue { key: 99, value: MapValue::Single(9) }];
    let mut keys: Vec<u32> = vec![1, 2, 3, 4, 5];
    let mut vals: Vec<u8> = vec![10, 20, 30, 40, 50];
    populate_batch_result(3, &mut result, &mut keys, &mut vals);
    let got: Vec<(u32, u8)> =
        result.into_iter().map(|kv| (kv.key, kv.value.into_single())).collect();
    assert_eq!(got, vec![(99, 9), (3, 30), (2, 20), (1, 10)]);
    assert_eq!(keys, vec![4, 5]);
    assert!(vals.is_empty());

    let mut result: Vec<KeyValue<u32, MapValue<u8>>> = Vec::new();
    let mut keys: Vec<u32> = vec![1, 2];
    let mut vals: Vec<u8> = vec![10, 20];
    populate_batch_result(0, &mut result, &mut keys, &mut vals);
    assert!(result.is_empty());
    assert_eq!(keys, vec![1, 2]);
    assert!(vals.is_empty());
}

#[test]
fn test_per_cpu_batch_items_come_last_first() {
    let mut result: Vec<KeyValue<u32, MapValue<u16>>> = Vec::new();
    let mut keys: Vec<u32> = vec![1, 2, 3];
    let mut vals: Vec<u8> = vec![0u8; 3 * 2 * 8];
    for i in 0..6 {
        vals[i * 8] = i as u8;
        vals[i * 8 + 1] = 1;
    }
    rxdp::percpu_map::populate_batch_result(2, &mut result, &mut keys, &mut vals, 8, 2);
    let got: Vec<(u32, Vec<u16>)> =
        result.into_iter().map(|kv| (kv.key, kv.value.into_vec())).collect();
    assert_eq!(got, vec![(2, vec![258, 259]), (1, vec![256, 257])]);
    assert_eq!(keys, vec![3]);
    assert_eq!(vals.len(), 32);
}

#[test]
fn test_map_value_conversions() {
    assert_eq!(MapValue::Multi(vec![1u32]).into_vec(), vec![1u32]);
    assert_eq!(MapValue::Single(1u32).into_vec(), vec![1u32]);
    assert_eq!(MapValue::Multi(vec![1u32, 2u32]).into_single(), 1u32);
    assert_eq!(MapValue::Single(1u32).into_single(), 1u32);
    assert_eq!(MapValue::Multi(vec![4u8, 5, 6]).into_vec(), vec![4, 5, 6]);
    assert_eq!(MapValue::Multi(Vec::<u8>::new()).into_vec(), Vec::<u8>::new());
    assert_eq!(MapValue::Multi(vec![7u8]).into_single(), 7);
}

#[test]
fn test_flag_numbers() {
    assert_eq!(MapFlags::BpfAny.bits(), 0);
    assert_eq!(MapFlags::BpfNoExist.bits(), 1);
    assert_eq!(MapFlags::BpfExist.bits(), 2);
}

#[test]
fn test_perf_events() {
    let e = PerfEvent::sample(3, 77u32);
    assert_eq!(e.cpu, 3);
    assert!(matches!(e.event, EventType::Sample(77)));
    let e: PerfEvent<u32> = PerfEvent::lost(1, 12);
    assert_eq!(e.cpu, 1);
    assert!(matches!(e.event, EventType::Lost(12)));
}
