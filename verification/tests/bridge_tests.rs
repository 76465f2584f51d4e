use sqlx_tls::bridge::bridge_read;
use sqlx_tls::bridge::bridge_write;

#[test]
fn read_with_nothing_available_signals_would_block() {
    let mut chan: Vec<u8> = Vec::new();
    assert!(bridge_read(&mut chan, 16).is_none());
    assert!(chan.is_empty());
}

#[test]
fn write_with_no_credit_signals_would_block() {
    let mut chan: Vec<u8> = Vec::new();
    assert!(bridge_write(&mut chan, b"abc", 0).is_none());
    assert!(chan.is_empty());
}

#[test]
fn read_takes_exactly_what_it_reports() {
    let mut chan: Vec<u8> = b"hello world".to_vec();
    let taken = bridge_read(&mut chan, 5).expect("bytes are available");
    assert_eq!(taken, b"hello".to_vec());
    assert_eq!(chan, b" world".to_vec());
}

#[test]
fn partial_write_reports_the_resume_offset() {
    let mut chan: Vec<u8> = Vec::new();
    let n = bridge_write(&mut chan, b"abcdef", 4).expect("credit is available");
    assert_eq!(n, 4);
    assert_eq!(chan, b"abcd".to_vec());
}

#[test]
fn round_trip_across_would_block_retries_loses_no_byte() {
    let payload: &[u8] = b"SELECT 1";
    let mut chan: Vec<u8> = Vec::new();
    let mut sent: usize = 0;
    let mut blocked = true;
    // Alternate a zero-credit (would-block) cycle with a two-byte credit,
    // resuming each time from the reported offset.
    while sent < payload.len() {
        let credit: usize = if blocked { 0 } else { 2 };
        blocked = !blocked;
        match bridge_write(&mut chan, &payload[sent..], credit) {
            Some(n) => sent += n,
            None => continue,
        }
    }
    let mut received: Vec<u8> = Vec::new();
    loop {
        match bridge_read(&mut chan, 3) {
            Some(chunk) => received.extend(chunk),
            None => break,
        }
    }
    assert_eq!(received, payload.to_vec());
    assert!(chan.is_empty());
}
