use rustmeter::compressed_task_id;
use rustmeter::elf_map::try_extract_short_name;
use rustmeter::elf_map::FirmwareAddressMap;
use rustmeter::emitter::TraceEmitter;
use rustmeter::protocol::EventPayload;
use rustmeter::registry::ExecutorRegistry;
use rustmeter::registry::NumericRegistry;
use rustmeter::strfmt::dec_string;
use rustmeter::strfmt::hex_string;

#[test]
fn test_compressed_task_id() {
    // The two alignment bits are shifted out and the upper half is folded
    // into the lower half.
    assert_eq!(compressed_task_id(0x0000_0004), 1);
    assert_eq!(compressed_task_id(0x2000_0000), 0x0800);
    assert_eq!(compressed_task_id(0x2000_0004), 0x0801);
    assert_eq!(compressed_task_id(0xFFFF_FFFF), (0x3FFF_FFFFu32 ^ 0x3FFF) as u16);
}

#[test]
fn test_dec_and_hex_strings() {
    assert_eq!(dec_string(0), "0");
    assert_eq!(dec_string(1234), "1234");
    assert_eq!(dec_string(u64::MAX), "18446744073709551615");
    assert_eq!(hex_string(0), "0");
    assert_eq!(hex_string(0xDEADBEEF), "DEADBEEF");
    assert_eq!(hex_string(0x10), "10");
}

#[test]
fn test_symbol_lookup_and_pool_trimming() {
    let map = FirmwareAddressMap::new_from_symbols(vec![
        (0x1000, "blinker::blink_task::POOL::h1234".to_string()),
        (0x2000, "main".to_string()),
    ]);
    assert_eq!(map.get_symbol_name(0x1000), Some("blinker::blink_task".to_string()));
    assert_eq!(map.get_symbol_name(0x2000), Some("main".to_string()));
    assert_eq!(map.get_symbol_name(0x3000), None);
}

#[test]
fn test_try_extract_short_name() {
    assert_eq!(try_extract_short_name(&"a::b::POOL::h9".to_string()), "a::b");
    assert_eq!(try_extract_short_name(&"plain".to_string()), "plain");
    assert_eq!(try_extract_short_name(&"".to_string()), "");
}

#[test]
fn test_executor_registry() {
    let mut registry = ExecutorRegistry::new();
    // First executor claims slot 0, the second slot 1; lookups are stable.
    assert_eq!(registry.lookup_or_register(0x1111), Some(0));
    assert_eq!(registry.lookup_or_register(0x2222), Some(1));
    assert_eq!(registry.lookup_or_register(0x1111), Some(0));
    // Eight distinct executors fill the registry; a ninth has no slot.
    for k in 2..8u32 {
        assert_eq!(registry.lookup_or_register(0x3000 + k), Some(k as u8));
    }
    assert_eq!(registry.lookup_or_register(0x9999), None);
}

#[test]
fn test_numeric_registry() {
    let mut registry = NumericRegistry::new();
    // IDs count up from 1; 0 stays reserved for "unallocated".
    assert_eq!(registry.allocate_new_id(), 1);
    assert_eq!(registry.allocate_new_id(), 2);
    assert_eq!(registry.allocate_new_id(), 3);
}

#[test]
fn test_emitter_data_loss_bookkeeping() {
    let mut emitter = TraceEmitter::new();
    assert!(emitter.take_data_loss_record(5).is_none());

    // Two refused writes, then a successful one: the synthetic data-loss
    // record goes first and carries the count.
    emitter.note_transport_full();
    emitter.note_transport_full();
    let (bytes, count) = emitter.take_data_loss_record(100).unwrap();
    assert_eq!(count, 2);
    assert!(!bytes.is_empty());
    assert!(emitter.take_data_loss_record(100).is_none());

    // If the synthetic record is refused too, the count is restored.
    emitter.note_transport_full();
    let (_bytes, count) = emitter.take_data_loss_record(200).unwrap();
    emitter.restore_dropped(count);
    let (_bytes, count) = emitter.take_data_loss_record(300).unwrap();
    assert_eq!(count, 1);
}

#[test]
fn test_emitter_records_decode() {
    // Records made by the emitter decode back through the host decoder.
    let mut emitter = TraceEmitter::new();
    let record = emitter.make_record(&EventPayload::EmbassyTaskReady { task_id: 7 }, 250);
    let mut decoder = rustmeter::decoder::TraceDataDecoder::new();
    decoder.feed(&record);
    let items = decoder.decode();
    assert_eq!(items.len(), 1);
    assert_eq!(items[0].timestamp(), 250);
    assert_eq!(items[0].payload(), &EventPayload::EmbassyTaskReady { task_id: 7 });
}
