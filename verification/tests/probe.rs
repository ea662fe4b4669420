use subburn::probe::{probe_duration, HeaderRead, ProbeError};

fn be32(v: &mut Vec<u8>, x: u32) {
    v.extend_from_slice(&x.to_be_bytes());
}

/// A minimal container: an `ftyp` box and a `moov` box holding only the
/// movie header, with the given timescale and duration.
fn container_bytes(timescale: u32, duration: u32) -> Vec<u8> {
    let mut v: Vec<u8> = Vec::new();
    be32(&mut v, 16);
    v.extend_from_slice(b"ftyp");
    v.extend_from_slice(b"isom");
    be32(&mut v, 0);
    be32(&mut v, 116);
    v.extend_from_slice(b"moov");
    be32(&mut v, 108);
    v.extend_from_slice(b"mvhd");
    be32(&mut v, 0); // version 0, no flags
    be32(&mut v, 0); // creation time
    be32(&mut v, 0); // modification time
    be32(&mut v, timescale);
    be32(&mut v, duration);
    be32(&mut v, 0x0001_0000); // rate 1.0
    v.extend_from_slice(&[0u8; 12]); // volume and reserved fields
    be32(&mut v, 0x0001_0000); // unity matrix
    be32(&mut v, 0);
    be32(&mut v, 0);
    be32(&mut v, 0);
    be32(&mut v, 0x0001_0000);
    be32(&mut v, 0);
    be32(&mut v, 0);
    be32(&mut v, 0);
    be32(&mut v, 0x4000_0000);
    v.extend_from_slice(&[0u8; 24]); // pre-defined
    be32(&mut v, 2); // next track id
    v
}

/// The platform layer's header read, as app/ performs it on well-formed
/// bytes: parse the container and report the movie timing as plain values.
fn header_read(bytes: Vec<u8>) -> HeaderRead {
    let len = bytes.len() as u64;
    match mp4::Mp4Reader::read_header(std::io::Cursor::new(bytes), len) {
        Ok(m) => HeaderRead::Timing(m.moov.mvhd.duration, m.moov.mvhd.timescale),
        Err(mp4::Error::BoxNotFound(_)) => HeaderRead::MissingBox,
        Err(_) => HeaderRead::Malformed,
    }
}

#[test]
fn missing_file_is_not_found() {
    assert_eq!(
        probe_duration(HeaderRead::Unreadable).unwrap_err(),
        ProbeError::NotFound
    );
}

#[test]
fn unparsed_header_is_malformed() {
    assert_eq!(
        probe_duration(HeaderRead::Malformed).unwrap_err(),
        ProbeError::MalformedContainer
    );
}

#[test]
fn missing_box_is_unsupported() {
    assert_eq!(
        probe_duration(HeaderRead::MissingBox).unwrap_err(),
        ProbeError::Unsupported
    );
}

#[test]
fn well_formed_container_yields_exact_duration() {
    // A header encoding 12.5 seconds: 12500 units at a timescale of 1000.
    let d = probe_duration(header_read(container_bytes(1000, 12500))).unwrap();
    assert_eq!(d.as_millis(), 12500);
}

#[test]
fn timescale_is_respected() {
    // 90000 units per second, 45000 units: half a second.
    let d = probe_duration(header_read(container_bytes(90000, 45000))).unwrap();
    assert_eq!(d.as_millis(), 500);
}

#[test]
fn garbage_is_malformed() {
    let bytes: Vec<u8> = b"this is not a container".to_vec();
    assert_eq!(
        probe_duration(header_read(bytes)).unwrap_err(),
        ProbeError::MalformedContainer
    );
}

#[test]
fn truncated_container_is_malformed() {
    let mut bytes = container_bytes(1000, 12500);
    bytes.truncate(40);
    assert_eq!(
        probe_duration(header_read(bytes)).unwrap_err(),
        ProbeError::MalformedContainer
    );
}

#[test]
fn header_without_movie_box_is_unsupported() {
    let mut v: Vec<u8> = Vec::new();
    be32(&mut v, 16);
    v.extend_from_slice(b"ftyp");
    v.extend_from_slice(b"isom");
    be32(&mut v, 0);
    assert_eq!(
        probe_duration(header_read(v)).unwrap_err(),
        ProbeError::Unsupported
    );
}

#[test]
fn zero_timescale_is_unsupported() {
    assert_eq!(
        probe_duration(HeaderRead::Timing(12500, 0)).unwrap_err(),
        ProbeError::Unsupported
    );
    assert_eq!(
        probe_duration(header_read(container_bytes(0, 12500))).unwrap_err(),
        ProbeError::Unsupported
    );
}

#[test]
fn overlong_timing_is_unsupported() {
    // The scaled duration would not fit in sixty-four bits.
    assert_eq!(
        probe_duration(HeaderRead::Timing(u64::MAX, 1)).unwrap_err(),
        ProbeError::Unsupported
    );
}
