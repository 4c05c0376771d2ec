use rustmeter::buffer::BufferReader;
use rustmeter::buffer::BufferWriter;
use rustmeter::protocol::EventPayload;
use rustmeter::protocol::MonitorTypeDirectory;
use rustmeter::protocol::MonitorValuePayload;
use rustmeter::protocol::MonitorValueType;
use rustmeter::protocol::TypeDefinitionPayload;
use rustmeter::protocol::DecodeError;
use rustmeter::time_delta::TimeDelta;
use rustmeter::tracing::read_tracing_event;
use rustmeter::tracing::write_tracing_event;

#[test]
fn test_monitor_value_payload_write_and_read() {
    let values: std::vec::Vec<MonitorValuePayload> = vec![
        42u8.to_payload(),
        65535u16.to_payload(),
        4294967295u32.to_payload(),
        18446744073709551615u64.to_payload(),
        (-42i8).to_payload(),
        (-32768i16).to_payload(),
        (-2147483648i32).to_payload(),
        (-9223372036854775808i64).to_payload(),
    ];

    for value in values {
        // Write the value to a buffer
        let mut writer = BufferWriter::new();
        value.write_bytes(&mut writer);
        let data = writer.as_slice();

        // Read the value back from the buffer
        let mut reader = BufferReader::new(&data);
        let type_id = value.type_id();
        let read_value = MonitorValuePayload::from_bytes(type_id, &mut reader).unwrap();

        assert_eq!(value, read_value);
    }
}

#[test]
fn test_type_definition_read_and_write() {
    let typedefs = vec![
        TypeDefinitionPayload::EmbassyTaskCreated {
            task_id: 0x12345678,
            executor_id_long: 0x9ABCDEF0,
            executor_id_short: 5,
        },
        TypeDefinitionPayload::EmbassyTaskEnded {
            task_id: 0x87654321,
            executor_id_long: 0x0FEDCBA9,
            executor_id_short: 3,
        },
        TypeDefinitionPayload::FunctionMonitor {
            monitor_id: 42,
            fn_address: 0xDEADBEEF,
        },
        TypeDefinitionPayload::ScopeMonitor {
            monitor_id: 7,
            name: "TestScope".to_string(),
        },
        TypeDefinitionPayload::ValueMonitor {
            value_id: 13,
            type_id: 2,
            name: "TestValue".to_string(),
        },
    ];

    for typedef in typedefs {
        // Write typedef to bytes
        let mut writer = BufferWriter::new();
        typedef.write_bytes(&mut writer);
        let bytes = writer.as_slice();

        // Read typedef from bytes
        let mut reader = BufferReader::new(bytes);
        let parsed_typedef = TypeDefinitionPayload::from_bytes(&mut reader).unwrap();

        assert_eq!(typedef, parsed_typedef);
    }
}

#[test]
fn test_event_payload_write_and_read() {
    let events = vec![
        EventPayload::EmbassyTaskReady { task_id: 42 },
        EventPayload::EmbassyTaskExecBeginCore0 { task_id: 43, executor_id: 1 },
        EventPayload::EmbassyTaskExecBeginCore1 { task_id: 44, executor_id: 2 },
        EventPayload::EmbassyTaskExecEndCore0 { executor_id: 1 },
        EventPayload::EmbassyTaskExecEndCore1 { executor_id: 2 },
        EventPayload::EmbassyExecutorPollStart { executor_id: 3 },
        EventPayload::EmbassyExecutorIdle { executor_id: 4 },
        EventPayload::MonitorStartCore0 { monitor_id: 5 },
        EventPayload::MonitorStartCore1 { monitor_id: 6 },
        EventPayload::MonitorEndCore0,
        EventPayload::MonitorEndCore1,
        EventPayload::MonitorValue {
            value_id: 7,
            value: MonitorValuePayload::U32(123456),
        },
        EventPayload::TypeDefinition(TypeDefinitionPayload::ScopeMonitor {
            monitor_id: 8,
            name: "test_scope".to_string(),
        }),
        EventPayload::DataLossEvent { dropped_events: 17 },
    ];

    // Register the one value monitor the sample list uses, so its sample
    // can be read back.
    let mut types = MonitorTypeDirectory::new();
    types.register(7, 123456u32.get_monitor_value_type_id());

    for event in events {
        // Write the event to bytes
        let mut writer = BufferWriter::new();
        event.write_bytes(&mut writer);
        let bytes = writer.as_slice();

        // Read the event back from bytes
        let mut reader = BufferReader::new(bytes);
        let header = reader.read_byte().unwrap();
        let read_event = EventPayload::from_bytes(header, &mut reader, &types).unwrap();

        assert_eq!(event, read_event);
    }
}

#[test]
fn test_tracing_event_write_and_read() {
    let events = vec![
        EventPayload::EmbassyTaskReady { task_id: 1234 },
        EventPayload::EmbassyExecutorPollStart { executor_id: 5 },
        EventPayload::TypeDefinition(TypeDefinitionPayload::FunctionMonitor {
            monitor_id: 42,
            fn_address: 0xDEADBEEF,
        }),
        EventPayload::TypeDefinition(TypeDefinitionPayload::ScopeMonitor {
            monitor_id: 7,
            name: "TestScope".to_string(),
        }),
        EventPayload::MonitorValue {
            value_id: 1,
            value: MonitorValuePayload::U16(65535),
        },
    ];

    let mut types = MonitorTypeDirectory::new();
    types.register(1, 0u16.get_monitor_value_type_id());

    let mut clock: u32 = 0;
    for event in events {
        // Write event
        clock += 1000;
        let timestamp = TimeDelta::new(clock);
        let data = write_tracing_event(timestamp, &event);

        // Read event
        let mut buffer = BufferReader::new(&data);
        let (read_timestamp, read_event) =
            read_tracing_event(&mut buffer, &types).expect("Failed to read tracing event");

        assert_eq!(timestamp, read_timestamp);
        assert_eq!(event, read_event);
    }
}

#[test]
fn test_unknown_event_kind() {
    // Event kind 31 is not part of the protocol.
    let bytes = [(31u8 << 3), 0, 0];
    let mut reader = BufferReader::new(&bytes);
    let header = reader.read_byte().unwrap();
    let types = MonitorTypeDirectory::new();
    assert_eq!(
        EventPayload::from_bytes(header, &mut reader, &types),
        Err(DecodeError::UnknownEventKind)
    );
}

#[test]
fn test_unknown_monitor_value() {
    // A value sample for a monitor that never registered its type.
    let event = EventPayload::MonitorValue {
        value_id: 9,
        value: MonitorValuePayload::U8(1),
    };
    let mut writer = BufferWriter::new();
    event.write_bytes(&mut writer);
    let bytes = writer.as_slice();
    let mut reader = BufferReader::new(bytes);
    let header = reader.read_byte().unwrap();
    let types = MonitorTypeDirectory::new();
    assert_eq!(
        EventPayload::from_bytes(header, &mut reader, &types),
        Err(DecodeError::UnknownMonitor)
    );
}

#[test]
fn test_truncated_event() {
    // A task-ready event needs two payload bytes.
    let bytes = [0u8, 42];
    let mut reader = BufferReader::new(&bytes);
    let header = reader.read_byte().unwrap();
    let types = MonitorTypeDirectory::new();
    assert_eq!(
        EventPayload::from_bytes(header, &mut reader, &types),
        Err(DecodeError::TruncatedInput)
    );
}

#[test]
fn test_corrupt_executor_short_id() {
    // A task-creation record whose short executor ID does not fit 3 bits.
    let mut bytes = vec![0u8];
    bytes.extend_from_slice(&0x12345678u32.to_le_bytes());
    bytes.extend_from_slice(&0x9ABCDEF0u32.to_le_bytes());
    bytes.push(8);
    let mut reader = BufferReader::new(&bytes);
    assert_eq!(
        TypeDefinitionPayload::from_bytes(&mut reader),
        Err(DecodeError::CorruptFrame)
    );
}

#[test]
fn test_unknown_typedef_kind() {
    let bytes = [9u8, 0, 0];
    let mut reader = BufferReader::new(&bytes);
    assert_eq!(
        TypeDefinitionPayload::from_bytes(&mut reader),
        Err(DecodeError::UnknownTypeDefinition)
    );
}

#[test]
fn test_unknown_value_type_tag() {
    let bytes = [1u8, 2, 3];
    let mut reader = BufferReader::new(&bytes);
    assert_eq!(
        MonitorValuePayload::from_bytes(8, &mut reader),
        Err(DecodeError::UnknownValueType)
    );
}
