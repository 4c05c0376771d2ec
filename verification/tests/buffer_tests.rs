use rustmeter::buffer::BufferReader;
use rustmeter::buffer::BufferWriter;

#[test]
fn test_buffer_writer() {
    let mut writer = BufferWriter::new();
    writer.write_byte(0x12);
    writer.write_bytes(&[0x34, 0x56, 0x78]);

    let written = writer.as_slice();
    assert_eq!(written, &[0x12, 0x34, 0x56, 0x78]);
}

#[test]
fn test_buffer_reader() {
    let data = [0x9A, 0xBC, 0xDE, 0xF0];
    let mut reader = BufferReader::new(&data);

    assert_eq!(reader.read_byte(), Some(0x9A));
    assert_eq!(reader.read_bytes(2), Some(&[0xBC, 0xDE][..]));
    assert_eq!(reader.read_byte(), Some(0xF0));
    assert_eq!(reader.read_byte(), None);
}

#[test]
fn test_buffer_reader_position() {
    let data = [1u8, 2, 3];
    let mut reader = BufferReader::new(&data);
    assert_eq!(reader.get_position(), 0);
    reader.read_byte();
    assert_eq!(reader.get_position(), 1);
    assert_eq!(reader.read_bytes(5), None);
    assert_eq!(reader.get_position(), 1);
}
