//! Packet buffer behavior: allocation, headroom, adjust/trim/prepend,
//! splitting, cloning, tokens, and pools.

use demikernel::demibuffer::{BufferPool, DemiBuffer, DemiBufferToken};

// Test basic allocation, len, adjust, and trim.
#[test]
fn basic() {
    // Create a new (heap-allocated) `DemiBuffer` with a 42 byte data area.
    let mut buf: DemiBuffer = DemiBuffer::new(42);
    assert_eq!(buf.is_heap_allocated(), true);
    assert_eq!(buf.len(), 42);

    // Remove 7 bytes from the beginning of the data area.  Length should now be 35.
    assert_eq!(buf.adjust(7).is_ok(), true);
    assert_eq!(buf.len(), 35);

    // Remove 7 bytes from the end of the data area.  Length should now be 28.
    assert_eq!(buf.trim(7).is_ok(), true);
    assert_eq!(buf.len(), 28);

    // Verify bad requests actually fail.
    assert_eq!(buf.adjust(30).is_err(), true);
    assert_eq!(buf.trim(30).is_err(), true);
    assert_eq!(buf.prepend(30).is_err(), true);
}

#[test]
fn headroom() {
    let mut buf: DemiBuffer = DemiBuffer::new_with_headroom(0, 42);
    assert_eq!(buf.is_heap_allocated(), true);
    assert_eq!(buf.len(), 0);

    // Add 7 bytes to the beginning of the data area.  Length should now be 7.
    assert_eq!(buf.prepend(7).is_ok(), true);
    assert_eq!(buf.len(), 7);

    // Remove 7 bytes from the end of the data area.  Length should now be 0.
    assert_eq!(buf.trim(7).is_ok(), true);
    assert_eq!(buf.len(), 0);

    // Verify bad requests actually fail.
    assert_eq!(buf.adjust(30).is_err(), true);
    assert_eq!(buf.trim(30).is_err(), true);
}

// Test cloning, raw conversion, and zero-size buffers.
#[test]
fn advanced() {
    fn clone_me(buf: DemiBuffer) -> DemiBuffer {
        // Clone and return the buffer.
        buf.clone()
        // `buf` should be dropped here.
    }

    fn convert_to_token(buf: DemiBuffer) -> DemiBufferToken {
        // Convert the buffer into a raw token.
        buf.into_raw()
    }

    // Create a buffer and clone it.
    let fortytwo: DemiBuffer = DemiBuffer::new(42);
    assert_eq!(fortytwo.len(), 42);
    let clone: DemiBuffer = clone_me(fortytwo);
    assert_eq!(clone.len(), 42);

    // Convert a buffer into a raw token and bring it back.
    let token: DemiBufferToken = convert_to_token(clone);
    let reconstituted: DemiBuffer = DemiBuffer::from_raw(token);
    assert_eq!(reconstituted.len(), 42);

    // Create a zero-sized buffer.
    let zero: DemiBuffer = DemiBuffer::new(0);
    assert_eq!(zero.len(), 0);
    // Clone it, and keep the original around.
    let clone: DemiBuffer = zero.clone();
    assert_eq!(clone.len(), 0);
    // Clone the clone, and drop the first clone.
    let another: DemiBuffer = clone_me(clone);
    assert_eq!(another.len(), 0);
}

// Tests split_back (and also allocation from a slice).
#[test]
fn split_back() {
    // Create a new (heap-allocated) `DemiBuffer` by copying a slice of a `String`.
    let str: String = String::from("word one two three four five six seven eight nine");
    let slice: &[u8] = str.as_bytes();
    // `DemiBuffer::from_slice` shouldn't fail, as we passed it a valid slice of an allowable length.
    let mut buf: DemiBuffer = match DemiBuffer::from_slice(slice) {
        Ok(buf) => buf,
        Err(e) => panic!(
            "DemiBuffer::from_slice should return a DemiBuffer for this slice: {}",
            e.cause
        ),
    };

    // The `DemiBuffer` data length should equal the original string length.
    assert_eq!(buf.len(), str.len());

    // The `DemiBuffer` data (content) should match that of the original string.
    assert_eq!(buf.to_bytes().as_slice(), slice);

    // Split this `DemiBuffer` into two.
    // `DemiBuffer::split_back` shouldn't fail, as we passed it a valid offset.
    let mut split_buf: DemiBuffer = match buf.split_back(24) {
        Ok(buf) => buf,
        Err(e) => panic!("DemiBuffer::split_back shouldn't fail for this offset: {}", e.cause),
    };
    assert_eq!(buf.len(), 24);
    assert_eq!(split_buf.len(), 25);

    // Compare contents.
    assert_eq!(buf.to_bytes().as_slice(), &str.as_bytes()[..24]);
    assert_eq!(split_buf.to_bytes().as_slice(), &str.as_bytes()[24..]);

    // Split another `DemiBuffer` off of the already-split-off one.
    // `DemiBuffer::split_back` shouldn't fail, as we passed it a valid offset.
    let another_buf: DemiBuffer = match split_buf.split_back(9) {
        Ok(buf) => buf,
        Err(e) => panic!("DemiBuffer::split_back shouldn't fail for this offset: {}", e.cause),
    };

    assert_eq!(buf.len(), 24);
    assert_eq!(split_buf.len(), 9);
    assert_eq!(another_buf.len(), 16);

    // Compare contents (including the unaffected original to ensure that it is actually unaffected).
    assert_eq!(buf.to_bytes().as_slice(), &str.as_bytes()[..24]);
    assert_eq!(split_buf.to_bytes().as_slice(), &str.as_bytes()[24..33]);
    assert_eq!(another_buf.to_bytes().as_slice(), &str.as_bytes()[33..]);
}

// Test split_off (and also allocation from a slice).
#[test]
fn split_front() {
    // Create a new (heap-allocated) `DemiBuffer` by copying a slice of a `String`.
    let str: String = String::from("word one two three four five six seven eight nine");
    let slice: &[u8] = str.as_bytes();
    // `DemiBuffer::from_slice` shouldn't fail, as we passed it a valid slice of an allowable length.
    let mut buf: DemiBuffer = match DemiBuffer::from_slice(slice) {
        Ok(buf) => buf,
        Err(e) => panic!(
            "DemiBuffer::from_slice should return a DemiBuffer for this slice: {}",
            e.cause
        ),
    };

    // The `DemiBuffer` data length should equal the original string length.
    assert_eq!(buf.len(), str.len());

    // The `DemiBuffer` data (content) should match that of the original string.
    assert_eq!(buf.to_bytes().as_slice(), slice);

    // Split this `DemiBuffer` into two.
    // `DemiBuffer::split_off` shouldn't fail, as we passed it a valid offset.
    let mut split_buf: DemiBuffer = match buf.split_front(24) {
        Ok(buf) => buf,
        Err(e) => panic!("DemiBuffer::split_off shouldn't fail for this offset: {}", e.cause),
    };
    assert_eq!(buf.len(), 25);
    assert_eq!(split_buf.len(), 24);

    // Compare contents.
    assert_eq!(buf.to_bytes().as_slice(), &str.as_bytes()[24..]);
    assert_eq!(split_buf.to_bytes().as_slice(), &str.as_bytes()[..24]);

    // Split another `DemiBuffer` off of the already-split-off one.
    // `DemiBuffer::split_off` shouldn't fail, as we passed it a valid offset.
    let another_buf: DemiBuffer = match split_buf.split_front(9) {
        Ok(buf) => buf,
        Err(e) => panic!("DemiBuffer::split_off shouldn't fail for this offset: {}", e.cause),
    };
    assert_eq!(buf.len(), 25);
    assert_eq!(split_buf.len(), 15);
    assert_eq!(another_buf.len(), 9);

    // Compare contents (including the unaffected original to ensure that it is actually unaffected).
    assert_eq!(buf.to_bytes().as_slice(), &str.as_bytes()[24..]);
    assert_eq!(split_buf.to_bytes().as_slice(), &str.as_bytes()[9..24]);
    assert_eq!(another_buf.to_bytes().as_slice(), &str.as_bytes()[..9]);
}

// A fresh buffer of capacity n has length n and no headroom.
#[test]
fn new_buffer_has_full_length_and_no_headroom() {
    let buf: DemiBuffer = DemiBuffer::new(37);
    assert_eq!(buf.len(), 37);
    assert_eq!(buf.headroom(), 0);
    assert!(buf.is_direct());
}

// A buffer with headroom h accepts prepend(h) and refuses prepend(h + 1).
#[test]
fn headroom_prepend_succeeds_exactly_up_to_headroom() {
    let mut buf: DemiBuffer = DemiBuffer::new_with_headroom(10, 5);
    assert_eq!(buf.len(), 10);
    assert_eq!(buf.headroom(), 5);
    assert!(buf.prepend(5).is_ok());
    assert_eq!(buf.len(), 15);
    assert_eq!(buf.headroom(), 0);

    let mut other: DemiBuffer = DemiBuffer::new_with_headroom(10, 5);
    assert!(other.prepend(6).is_err());
    assert_eq!(other.len(), 10);
}

// Round-trip: for every split point, clone-then-split reassembles the bytes.
#[test]
fn clone_split_round_trip_reassembles_bytes() {
    let payload: Vec<u8> = (0u8..50u8).collect();
    let buf: DemiBuffer = DemiBuffer::from_slice(payload.as_slice()).unwrap();
    for k in 0..=buf.len() {
        let mut front: DemiBuffer = buf.clone();
        let back: DemiBuffer = front.split_back(k).unwrap();
        let mut reassembled: Vec<u8> = front.to_bytes();
        reassembled.extend(back.to_bytes());
        assert_eq!(reassembled, payload);
        // The split views of a non-empty region are indirect.
        if buf.len() > 0 {
            assert!(!back.is_direct());
        }
    }
}

// adjust(k) then prepend(k) is a no-op on the byte sequence.
#[test]
fn adjust_then_prepend_is_noop() {
    let payload: Vec<u8> = (10u8..40u8).collect();
    let mut buf: DemiBuffer = DemiBuffer::from_slice(payload.as_slice()).unwrap();
    for k in [0usize, 1, 7, 30] {
        assert!(buf.adjust(k).is_ok());
        assert!(buf.prepend(k).is_ok());
        assert_eq!(buf.to_bytes(), payload);
    }
}

// A slice too large for a single buffer is refused.
#[test]
fn from_slice_refuses_oversized_slice() {
    let oversized: Vec<u8> = vec![0u8; 65535];
    let r = DemiBuffer::from_slice(oversized.as_slice());
    assert!(r.is_err());
    assert_eq!(r.unwrap_err().errno, demikernel::fail::EINVAL);

    let largest: Vec<u8> = vec![7u8; 65534];
    assert!(DemiBuffer::from_slice(largest.as_slice()).is_ok());
}

// Buffers drawn from a pool remember their pool; the pool drains and refills.
#[test]
fn pool_provenance_and_exhaustion() {
    let mut pool: BufferPool = BufferPool::new(11, 128);
    pool.populate(2);
    let a: DemiBuffer = DemiBuffer::new_in_pool(&mut pool).unwrap();
    let b: DemiBuffer = DemiBuffer::new_in_pool(&mut pool).unwrap();
    assert!(DemiBuffer::new_in_pool(&mut pool).is_none());
    assert_eq!(a.len(), 128);
    assert!(a.is_from_pool(&pool));
    assert!(b.is_from_pool(&pool));
    let other_pool: BufferPool = BufferPool::new(12, 128);
    assert!(!a.is_from_pool(&other_pool));
    let heap_buf: DemiBuffer = DemiBuffer::new(16);
    assert!(!heap_buf.is_from_pool(&pool));
}

// Writing through the window changes exactly the addressed byte.
#[test]
fn write_byte_updates_payload() {
    let mut buf: DemiBuffer = DemiBuffer::from_slice(&[1u8, 2, 3, 4]).unwrap();
    buf.write_byte(2, 9);
    assert_eq!(buf.to_bytes(), vec![1u8, 2, 9, 4]);
}

// prepend_slice writes a header in front of the payload.
#[test]
fn prepend_slice_attaches_header() {
    let mut buf: DemiBuffer = DemiBuffer::from_slice_with_headroom(&[4u8, 5, 6], 3).unwrap();
    assert!(buf.prepend_slice(&[1u8, 2, 3]).is_ok());
    assert_eq!(buf.to_bytes(), vec![1u8, 2, 3, 4, 5, 6]);
    let mut cramped: DemiBuffer = DemiBuffer::from_slice(&[4u8, 5, 6]).unwrap();
    assert!(cramped.prepend_slice(&[1u8, 2, 3]).is_err());
}
