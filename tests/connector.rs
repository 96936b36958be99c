use umsbb::connector::{create_buffer, UMSBBBuffer};
use umsbb::error::UMSBBError;

#[test]
fn test_buffer_creation() {
    let buffer = create_buffer(16).unwrap();
    assert!(buffer.is_empty());
}

#[test]
fn test_write_read() {
    let mut buffer = create_buffer(16).unwrap();

    let test_data = b"Hello, UMSBB!";
    buffer.write(test_data).unwrap();

    let read_data = buffer.read().unwrap().unwrap();
    assert_eq!(read_data, test_data);
}

#[test]
fn test_string_operations() {
    let mut buffer = create_buffer(16).unwrap();

    let test_message = "Hello, World!";
    buffer.write_string(test_message).unwrap();

    let read_message = buffer.read_string().unwrap().unwrap();
    assert_eq!(read_message, test_message);
}

#[test]
fn test_statistics() {
    let mut buffer = create_buffer(16).unwrap();

    buffer.write_string("Test message 1").unwrap();
    buffer.write_string("Test message 2").unwrap();

    let stats = buffer.get_stats();
    assert_eq!(stats.total_messages, 2);
    assert_eq!(stats.pending_messages, 2);
}

#[test]
fn test_invalid_size() {
    assert!(create_buffer(0).is_err());
    assert!(create_buffer(65).is_err());
}

#[test]
fn test_large_message() {
    let mut buffer = create_buffer(16).unwrap();
    let large_data = vec![0u8; 65537]; // Larger than 64KB

    assert!(buffer.write(&large_data).is_err());
}

#[test]
fn invalid_sizes_give_invalid_params() {
    assert_eq!(UMSBBBuffer::new(0).err(), Some(UMSBBError::InvalidParams));
    assert_eq!(UMSBBBuffer::new(65).err(), Some(UMSBBError::InvalidParams));
    assert!(UMSBBBuffer::new(1).is_ok());
    assert!(UMSBBBuffer::new(64).is_ok());
}

#[test]
fn oversized_payload_gives_invalid_params() {
    let mut buffer = create_buffer(16).unwrap();
    assert_eq!(buffer.write(&vec![7u8; 65537]), Err(UMSBBError::InvalidParams));
    assert_eq!(buffer.write(&vec![7u8; 65536]), Ok(()));
    assert_eq!(buffer.pending_count(), 1);
}

#[test]
fn read_on_empty_buffer_is_none() {
    let mut buffer = create_buffer(1).unwrap();
    assert_eq!(buffer.read(), Ok(None));
    assert_eq!(buffer.read_string(), Ok(None));
}

#[test]
fn non_utf8_message_is_corrupted_data() {
    let mut buffer = create_buffer(1).unwrap();
    buffer.write(&[0xff, 0xfe, 0x41]).unwrap();
    assert_eq!(buffer.read_string(), Err(UMSBBError::CorruptedData));
    assert!(buffer.is_empty());
}

#[test]
fn stats_count_bytes_and_segments() {
    let mut buffer = create_buffer(4).unwrap();
    buffer.write(&[1, 2, 3]).unwrap();
    buffer.write_string("héllo").unwrap();
    let stats = buffer.get_stats();
    assert_eq!(stats.total_messages, 2);
    assert_eq!(stats.total_bytes, 9);
    assert_eq!(stats.pending_messages, 2);
    assert_eq!(stats.active_segments, 4);
    assert_eq!(buffer.read_string().unwrap(), Some("\u{1}\u{2}\u{3}".to_string()));
    assert_eq!(buffer.read_string().unwrap(), Some("héllo".to_string()));
    assert_eq!(buffer.get_stats().total_messages, 2);
    assert_eq!(buffer.pending_count(), 0);
}

#[test]
fn destroyed_buffer_refuses_everything() {
    let mut buffer = create_buffer(2).unwrap();
    buffer.write(&[1, 2, 3]).unwrap();
    buffer.write(&[4]).unwrap();
    assert_eq!(buffer.destroy(), Ok(2));
    assert_eq!(buffer.write(&[5]), Err(UMSBBError::InvalidHandle));
    assert_eq!(buffer.write(&vec![0u8; 70000]), Err(UMSBBError::InvalidHandle));
    assert_eq!(buffer.read(), Err(UMSBBError::InvalidHandle));
    assert_eq!(buffer.read_string(), Err(UMSBBError::InvalidHandle));
    assert_eq!(buffer.destroy(), Err(UMSBBError::InvalidHandle));
    assert_eq!(buffer.pending_count(), 0);
}

#[test]
fn error_texts() {
    assert_eq!(UMSBBError::Success.as_str(), "Success");
    assert_eq!(UMSBBError::InvalidParams.as_str(), "Invalid parameters");
    assert_eq!(UMSBBError::BufferFull.as_str(), "Buffer is full");
    assert_eq!(UMSBBError::BufferEmpty.as_str(), "Buffer is empty");
    assert_eq!(UMSBBError::InvalidHandle.as_str(), "Invalid buffer handle");
    assert_eq!(UMSBBError::MemoryAllocation.as_str(), "Memory allocation failed");
    assert_eq!(UMSBBError::CorruptedData.as_str(), "Corrupted data detected");
}
