use nrun::tail::{pump_available, relay_available, Pump, PumpAction, CHUNK_SIZE};
use std::io::Cursor;

#[test]
fn pump_relays_chunks_and_finishes_with_total() {
    let mut pump = Pump::new();
    assert_eq!(pump.next(5), PumpAction::Write(5));
    assert_eq!(pump.next(CHUNK_SIZE), PumpAction::Write(CHUNK_SIZE));
    assert_eq!(pump.next(0), PumpAction::Finish(5 + CHUNK_SIZE as u64));
    assert_eq!(pump.total, 5 + CHUNK_SIZE as u64);
}

#[test]
fn pump_finishes_at_once_at_eof() {
    let mut pump = Pump::new();
    assert_eq!(pump.next(0), PumpAction::Finish(0));
}

#[test]
fn pump_refuses_over_long_reads_and_overflow() {
    let mut pump = Pump::new();
    assert_eq!(pump.next(CHUNK_SIZE + 1), PumpAction::TooLong);
    assert_eq!(pump.total, 0);
    let mut full = Pump { total: u64::MAX - 3 };
    assert_eq!(full.next(4), PumpAction::Overflow);
    assert_eq!(full.next(3), PumpAction::Write(3));
    assert_eq!(full.total, u64::MAX);
}

#[test]
fn pump_fits_guards_the_total() {
    let pump = Pump { total: u64::MAX - 3 };
    assert!(pump.fits(3));
    assert!(!pump.fits(4));
}

#[test]
fn pumps_all_available_bytes_from_cursor() {
    let mut reader = Cursor::new(b"hello".to_vec());
    let mut out: Vec<u8> = Vec::new();
    assert_eq!(pump_available(&mut reader, &mut out).unwrap(), 5);
    assert_eq!(out, b"hello");
}

#[test]
fn returns_zero_at_eof() {
    let mut reader = Cursor::new(Vec::new());
    let mut out: Vec<u8> = Vec::new();
    assert_eq!(pump_available(&mut reader, &mut out).unwrap(), 0);
    assert!(out.is_empty());
}

#[test]
fn pumps_more_than_one_chunk() {
    let data: Vec<u8> = (0..20000u32).map(|i| (i % 251) as u8).collect();
    let mut reader = Cursor::new(data.clone());
    let mut out: Vec<u8> = Vec::new();
    assert_eq!(pump_available(&mut reader, &mut out).unwrap(), 20000);
    assert_eq!(out, data);
}

struct FailingReader {
    chunks: Vec<Vec<u8>>,
}

impl std::io::Read for FailingReader {
    fn read(&mut self, buf: &mut [u8]) -> std::io::Result<usize> {
        if self.chunks.is_empty() {
            return Err(std::io::Error::new(std::io::ErrorKind::Interrupted, "stop"));
        }
        let c = self.chunks.remove(0);
        buf[..c.len()].copy_from_slice(&c);
        Ok(c.len())
    }
}

struct RecordingWriter {
    data: Vec<u8>,
    flushes: usize,
    fail_flush: bool,
}

impl std::io::Write for RecordingWriter {
    fn write(&mut self, buf: &[u8]) -> std::io::Result<usize> {
        self.data.extend_from_slice(buf);
        Ok(buf.len())
    }
    fn flush(&mut self) -> std::io::Result<()> {
        self.flushes += 1;
        if self.fail_flush {
            Err(std::io::Error::new(std::io::ErrorKind::Other, "flush"))
        } else {
            Ok(())
        }
    }
}

#[test]
fn read_error_is_returned_without_flush() {
    let mut reader = FailingReader { chunks: vec![b"ab".to_vec()] };
    let mut w = RecordingWriter { data: Vec::new(), flushes: 0, fail_flush: false };
    let err = pump_available(&mut reader, &mut w).unwrap_err();
    assert_eq!(err.kind(), std::io::ErrorKind::Interrupted);
    assert_eq!(w.data, b"ab");
    assert_eq!(w.flushes, 0);
}

#[test]
fn flush_error_is_returned() {
    let mut reader = Cursor::new(b"xyz".to_vec());
    let mut w = RecordingWriter { data: Vec::new(), flushes: 0, fail_flush: true };
    let (r, _steps) = relay_available(&mut reader, &mut w);
    assert_eq!(r.unwrap_err().kind(), std::io::ErrorKind::Other);
    assert_eq!(w.data, b"xyz");
    assert_eq!(w.flushes, 1);
}

struct OverReportingReader;

impl std::io::Read for OverReportingReader {
    fn read(&mut self, buf: &mut [u8]) -> std::io::Result<usize> {
        Ok(buf.len() + 1)
    }
}

#[test]
fn over_reporting_read_is_an_error_not_a_panic() {
    let mut w = RecordingWriter { data: Vec::new(), flushes: 0, fail_flush: false };
    assert!(pump_available(&mut OverReportingReader, &mut w).is_err());
    assert!(w.data.is_empty());
}
