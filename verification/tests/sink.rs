//! Tests of the streaming entry points: the sink receives exactly the bytes
//! of the in-memory serialization, and a failing sink propagates its error.

use std::io;

use avif_serialize::{serialize, serialize_to_vec, Aviffy};

#[test]
fn serialize_streams_same_bytes_as_to_vec() {
    let color = [1u8, 2, 3, 4];
    let alpha = [9u8, 8];
    let mut sink: Vec<u8> = Vec::new();
    serialize(&mut sink, &color, Some(&alpha), 2, 2, 8).unwrap();
    assert_eq!(sink, serialize_to_vec(&color, Some(&alpha), 2, 2, 8));
}

#[test]
fn write_streams_premultiplied_bytes() {
    let color = [1u8, 2, 3, 4];
    let alpha = [9u8, 8];
    let mut config = Aviffy::new();
    config.premultiplied_alpha(true);
    let mut sink: Vec<u8> = Vec::new();
    config
        .write(&mut sink, &color, Some(&alpha), 2, 2, 8)
        .unwrap();
    assert_eq!(
        sink,
        Aviffy::new()
            .premultiplied_alpha(true)
            .to_vec(&color, Some(&alpha), 2, 2, 8)
    );
}

struct FailingSink;

impl io::Write for FailingSink {
    fn write(&mut self, _buf: &[u8]) -> io::Result<usize> {
        Err(io::Error::new(io::ErrorKind::Other, "sink refused"))
    }

    fn flush(&mut self) -> io::Result<()> {
        Ok(())
    }
}

#[test]
fn sink_failure_propagates() {
    let result = serialize(FailingSink, &[1, 2, 3], None, 1, 1, 8);
    assert!(result.is_err());
}
