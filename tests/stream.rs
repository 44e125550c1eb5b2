use shell::error::ShellError;
use shell::stream::{after_poll, after_wait, Polled, ReadStep, ReceiverReader, SenderWriter};
use std::sync::mpsc::channel;

#[test]
fn bytes_arrive_in_order_then_broken_pipe() {
    let (tx, rx) = channel::<u8>();
    let mut writer = SenderWriter::new(tx);
    assert_eq!(writer.write(&[1, 2, 3]).unwrap(), 3);
    drop(writer);
    let mut reader = ReceiverReader::new(rx);
    let mut buf = [0u8; 1];
    for expected in [1u8, 2, 3] {
        assert_eq!(reader.read(&mut buf).unwrap(), 1);
        assert_eq!(buf[0], expected);
    }
    assert!(matches!(reader.read(&mut buf), Err(ShellError::BrokenPipe)));
}

#[test]
fn read_returns_short_count_of_waiting_bytes() {
    let (tx, rx) = channel::<u8>();
    let mut writer = SenderWriter::new(tx);
    writer.write(&[7, 8, 9]).unwrap();
    let mut reader = ReceiverReader::new(rx);
    let mut buf = [0u8; 8];
    assert_eq!(reader.read(&mut buf).unwrap(), 3);
    assert_eq!(&buf[..3], &[7, 8, 9]);
    assert_eq!(&buf[3..], &[0, 0, 0, 0, 0]);
    writer.write(&[10]).unwrap();
    assert_eq!(reader.read(&mut buf).unwrap(), 1);
    assert_eq!(buf[0], 10);
}

#[test]
fn read_fills_at_most_the_buffer() {
    let (tx, rx) = channel::<u8>();
    let mut writer = SenderWriter::new(tx);
    writer.write(&[1, 2, 3, 4, 5]).unwrap();
    let mut reader = ReceiverReader::new(rx);
    let mut buf = [0u8; 2];
    assert_eq!(reader.read(&mut buf).unwrap(), 2);
    assert_eq!(buf, [1, 2]);
    assert_eq!(reader.read(&mut buf).unwrap(), 2);
    assert_eq!(buf, [3, 4]);
    assert_eq!(reader.read(&mut buf).unwrap(), 1);
    assert_eq!(buf[0], 5);
}

#[test]
fn disconnect_after_bytes_is_reported_by_next_read() {
    let (tx, rx) = channel::<u8>();
    let mut writer = SenderWriter::new(tx);
    writer.write(&[4, 5]).unwrap();
    drop(writer);
    let mut reader = ReceiverReader::new(rx);
    let mut buf = [0u8; 8];
    assert_eq!(reader.read(&mut buf).unwrap(), 2);
    assert_eq!(&buf[..2], &[4, 5]);
    assert!(matches!(reader.read(&mut buf), Err(ShellError::BrokenPipe)));
}

#[test]
fn empty_buffer_reads_nothing() {
    let (_tx, rx) = channel::<u8>();
    let mut reader = ReceiverReader::new(rx);
    let mut buf: [u8; 0] = [];
    assert_eq!(reader.read(&mut buf).unwrap(), 0);
}

#[test]
fn write_after_reader_is_gone_is_broken_pipe() {
    let (tx, rx) = channel::<u8>();
    drop(rx);
    let mut writer = SenderWriter::new(tx);
    assert!(matches!(writer.write(&[1]), Err(ShellError::BrokenPipe)));
    assert_eq!(writer.write(&[]).unwrap(), 0);
    assert!(writer.flush().is_ok());
}

#[test]
fn read_decisions() {
    assert!(matches!(after_poll(Polled::Byte(7), 0), ReadStep::Store(7)));
    assert!(matches!(after_poll(Polled::Byte(7), 3), ReadStep::Store(7)));
    assert!(matches!(after_poll(Polled::Empty, 0), ReadStep::Wait));
    assert!(matches!(after_poll(Polled::Empty, 2), ReadStep::Done));
    assert!(matches!(after_poll(Polled::Disconnected, 0), ReadStep::Fail));
    assert!(matches!(after_poll(Polled::Disconnected, 1), ReadStep::Done));
    assert!(matches!(after_wait(Some(9)), ReadStep::Store(9)));
    assert!(matches!(after_wait(None), ReadStep::Fail));
}
