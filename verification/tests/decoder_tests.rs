use rustmeter::decoder::TraceDataDecoder;
use rustmeter::protocol::EventPayload;
use rustmeter::protocol::MonitorValuePayload;
use rustmeter::protocol::MonitorValueType;
use rustmeter::protocol::TypeDefinitionPayload;
use rustmeter::time_delta::TimeDelta;
use rustmeter::tracing::write_tracing_event;

fn sample_items() -> Vec<EventPayload> {
    vec![
        EventPayload::EmbassyTaskReady { task_id: 42 },
        EventPayload::EmbassyExecutorPollStart { executor_id: 3 },
        EventPayload::TypeDefinition(TypeDefinitionPayload::ValueMonitor {
            value_id: 1,
            type_id: 0u32.get_monitor_value_type_id(),
            name: "test_monitor".to_string(),
        }),
        EventPayload::MonitorValue {
            value_id: 1,
            value: MonitorValuePayload::U32(123456),
        },
        EventPayload::EmbassyTaskExecEndCore0 { executor_id: 5 },
        EventPayload::EmbassyTaskExecBeginCore0 { task_id: 7, executor_id: 2 },
        EventPayload::DataLossEvent { dropped_events: 17 },
    ]
}

#[test]
pub fn test_trace_data_decoder_empty() {
    let mut decoder = TraceDataDecoder::new();
    let decoded_items = decoder.decode();
    assert_eq!(decoded_items.len(), 0);
}

#[test]
fn test_trace_data_decoder() {
    // One event at a time: each feed yields exactly that event back.
    let mut decoder = TraceDataDecoder::new();
    for item in sample_items() {
        let data = write_tracing_event(TimeDelta::new(10), &item);
        decoder.feed(&data);

        let decoded_items = decoder.decode();
        assert_eq!(decoded_items.len(), 1);
        let decoded_item = &decoded_items[0];

        assert_eq!(decoded_item.payload(), &item);
    }

    // All events at once, in one buffer.
    let mut decoder = TraceDataDecoder::new();
    let items = sample_items();
    for item in &items {
        let data = write_tracing_event(TimeDelta::new(10), item);
        decoder.feed(&data);
    }

    let decoded_items = decoder.decode();
    assert_eq!(decoded_items.len(), items.len());

    for (decoded_item, original_item) in decoded_items.iter().zip(items.iter()) {
        assert_eq!(decoded_item.payload(), original_item);
    }
}

#[test]
fn test_trace_data_decoder_timestamps_accumulate() {
    let mut decoder = TraceDataDecoder::new();
    decoder.feed(&write_tracing_event(
        TimeDelta::new(100),
        &EventPayload::EmbassyTaskReady { task_id: 1 },
    ));
    decoder.feed(&write_tracing_event(
        TimeDelta::new(250),
        &EventPayload::EmbassyTaskReady { task_id: 2 },
    ));
    let items = decoder.decode();
    assert_eq!(items.len(), 2);
    assert_eq!(items[0].timestamp(), 100);
    assert_eq!(items[1].timestamp(), 350);
    assert_eq!(decoder.last_timestamp_us(), 350);
}

#[test]
fn test_trace_data_decoder_truncated_record_waits() {
    // Feed only the first half of a record: nothing decodes, nothing is
    // lost; the rest completes it.
    let data = write_tracing_event(
        TimeDelta::new(5),
        &EventPayload::EmbassyTaskReady { task_id: 515 },
    );
    let mut decoder = TraceDataDecoder::new();
    decoder.feed(&data[0..2]);
    assert_eq!(decoder.decode().len(), 0);
    decoder.feed(&data[2..]);
    let items = decoder.decode();
    assert_eq!(items.len(), 1);
    assert_eq!(
        items[0].payload(),
        &EventPayload::EmbassyTaskReady { task_id: 515 }
    );
    assert_eq!(decoder.corrupt_bytes_skipped(), 0);
}

#[test]
fn test_trace_data_decoder_resync_after_corrupt_byte() {
    // An unknown event kind advances the cursor byte by byte; the bytes it
    // swallows may mis-parse once, but the stream realigns and later
    // records come out clean.
    let mut decoder = TraceDataDecoder::new();
    decoder.feed(&[0x00u8, 0x05, 31 << 3]);
    assert_eq!(decoder.decode().len(), 0);
    assert_eq!(decoder.corrupt_bytes_skipped(), 1);

    for _ in 0..5 {
        decoder.feed(&write_tracing_event(
            TimeDelta::new(7),
            &EventPayload::MonitorEndCore0,
        ));
    }
    let items = decoder.decode();
    assert_eq!(items.len(), 5);
    for item in &items[1..] {
        assert_eq!(item.payload(), &EventPayload::MonitorEndCore0);
    }
    assert_eq!(decoder.corrupt_bytes_skipped(), 1);
}

#[test]
fn test_wrapping_clock_delta() {
    // The emitter clock wraps from 0xFFFF_F000 to 0x0000_1000: the delta on
    // the wire is 0x2000 and the decoder advances by it without any error.
    let mut emitter = rustmeter::emitter::TraceEmitter::new();
    emitter.make_record(&EventPayload::MonitorEndCore0, 0xFFFF_F000);
    let record = emitter.make_record(&EventPayload::MonitorEndCore0, 0x0000_1000);

    let mut reader = rustmeter::buffer::BufferReader::new(&record);
    let delta = TimeDelta::read_bytes(&mut reader).unwrap();
    assert_eq!(delta.get_delta_us(), 0x2000);

    let mut decoder = TraceDataDecoder::new();
    decoder.feed(&record);
    let items = decoder.decode();
    assert_eq!(items.len(), 1);
    assert_eq!(items[0].timestamp(), 0x2000);
    assert_eq!(decoder.corrupt_bytes_skipped(), 0);
}
