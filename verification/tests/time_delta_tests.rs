use rustmeter::buffer::BufferReader;
use rustmeter::buffer::BufferWriter;
use rustmeter::time_delta::TimeDelta;

#[test]
fn test_time_delta_read_and_write_exponents() {
    // Simply test all exponents from 0 to 32
    for exponent in 0..=32 {
        let delta = (2u64.pow(exponent) - 1) as u32; // u64 because 2^32 doesn't fit in u32
        let time_delta = TimeDelta::new(delta);

        // Write to buffer
        let mut writer = BufferWriter::new();
        time_delta.write_bytes(&mut writer);
        let written_bytes = writer.as_slice();

        if exponent <= 15 {
            // Single format (2 bytes)
            assert_eq!(written_bytes.len(), 2, "Expected 2 bytes for delta {}", delta);
        } else {
            // Extended format (4 bytes)
            assert_eq!(written_bytes.len(), 4, "Expected 4 bytes for delta {}", delta);
        }

        // Read from buffer
        let mut reader = BufferReader::new(written_bytes);
        let read_time_delta = TimeDelta::read_bytes(&mut reader).expect("Failed to read TimeDelta");

        // 2^31 - 1 capping check
        let expected_delta = delta.min(2u32.pow(31) - 1);

        assert_eq!(
            expected_delta,
            read_time_delta.get_delta_us(),
            "Mismatch for delta {}",
            delta
        );
    }
}

#[test]
fn test_time_delta_read_and_write_specials() {
    let deltas = [
        (0u32, 2),
        (1u32, 2),
        (2u32.pow(15) - 1, 2),
        (2u32.pow(15), 4),
        (2u32.pow(15) + 1, 4),
        (2u32.pow(16), 4),
        (2u32.pow(31) - 1, 4),
        (2u32.pow(31), 4),
    ];

    for (delta, byte_size) in &deltas {
        let time_delta = TimeDelta::new(*delta);

        // Write to buffer
        let mut writer = BufferWriter::new();
        time_delta.write_bytes(&mut writer);
        let written_bytes = writer.as_slice();

        assert_eq!(
            written_bytes.len(),
            *byte_size,
            "Expected {} bytes for delta {}",
            byte_size,
            delta
        );

        // Read from buffer
        let mut reader = BufferReader::new(written_bytes);
        let read_time_delta = TimeDelta::read_bytes(&mut reader).expect("Failed to read TimeDelta");

        // 2^31 - 1 capping check
        let expected_delta = (*delta).min(2u32.pow(31) - 1);

        assert_eq!(
            expected_delta,
            read_time_delta.get_delta_us(),
            "Mismatch for delta {}",
            delta
        );
    }
}

#[test]
fn test_time_delta_is_extended() {
    assert!(!TimeDelta::new(0).is_extended());
    assert!(!TimeDelta::new(0x7FFF).is_extended());
    assert!(TimeDelta::new(0x8000).is_extended());
    assert!(TimeDelta::new(u32::MAX).is_extended());
}

#[test]
fn test_time_delta_truncated_input() {
    // A single byte of a short-format delta is not enough.
    let data = [0x12u8];
    let mut reader = BufferReader::new(&data);
    assert!(TimeDelta::read_bytes(&mut reader).is_none());

    // Three bytes of an extended-format delta are not enough.
    let data = [0x80u8, 0x00, 0x10];
    let mut reader = BufferReader::new(&data);
    assert!(TimeDelta::read_bytes(&mut reader).is_none());
}
