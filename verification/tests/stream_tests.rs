use trng_core::config::FileConfig;
use trng_core::mock_rng::MockRng;
use trng_core::sources::FileSource;
use trng_core::two_source_xor::TwoSourceRng;

fn file_cfg(loop_: Option<bool>) -> FileConfig {
    FileConfig {
        id: "seed".to_string(),
        path: "/var/lib/entropy/pool".to_string(),
        loop_,
        enabled: true,
        buffer_mebibytes: None,
    }
}

#[test]
fn test_mock_rng_wraps_around() {
    let mut rng = MockRng::new(b"abcde".to_vec());
    // reading L + k bytes yields the stream, then its first k bytes again
    let bytes = rng.read_bytes(7).unwrap();
    assert_eq!(bytes, b"abcdeab");
    // the cursor ends at k, so the next read continues there
    let next = rng.read_bytes(3).unwrap();
    assert_eq!(next, b"cde");
}

#[test]
fn test_mock_rng_many_rounds() {
    let mut rng = MockRng::new(b"xy".to_vec());
    let bytes = rng.read_bytes(5).unwrap();
    assert_eq!(bytes, b"xyxyx");
}

#[test]
fn test_file_source_looping_read() {
    // loop=true over a file of length 5: reading L+2 sequentially yields
    // the file's own first 2 bytes appended after its full content
    let image = b"12345".to_vec();
    let mut src = FileSource::new(file_cfg(Some(true)));
    let bytes = src.read_from(&image, 7, 1000);
    assert_eq!(bytes, b"1234512");
    assert_eq!(src.offset, 2);
}

#[test]
fn test_file_source_non_looping_stops_at_eof() {
    // loop=false: reading past end-of-file returns fewer bytes, no error
    let image = b"12345".to_vec();
    let mut src = FileSource::new(file_cfg(Some(false)));
    let bytes = src.read_from(&image, 9, 1000);
    assert_eq!(bytes, b"12345");
    assert_eq!(src.offset, 5);
    // a further read yields nothing more, and still does not fail
    let more = src.read_from(&image, 4, 1000);
    assert_eq!(more, b"");
}

#[test]
fn test_file_source_zero_timeout_reads_no_file_bytes() {
    // timeout 0: only buffered bytes come back, the cursor does not move
    let image = b"12345".to_vec();
    let mut src = FileSource::new(file_cfg(Some(true)));
    let bytes = src.read_from(&image, 4, 0);
    assert_eq!(bytes, b"");
    assert_eq!(src.offset, 0);
    // returned leftovers are buffered and served even with timeout 0
    src.return_leftover(b"zz".to_vec());
    let bytes = src.read_from(&image, 4, 0);
    assert_eq!(bytes, b"zz");
    assert_eq!(src.offset, 0);
}

#[test]
fn test_file_source_replenishes_below_half_capacity() {
    let mut src = FileSource::new(FileConfig { buffer_mebibytes: Some(1), ..file_cfg(Some(true)) });
    let max = 1024 * 1024;
    // empty: below half, top up to capacity
    assert_eq!(src.needs_replenish(), Some(max));
    // just below half: still topped up
    src.absorb_replenished(vec![0u8; max / 2 - 1]);
    assert_eq!(src.needs_replenish(), Some(max / 2 + 1));
    // at half or above: left alone
    src.absorb_replenished(vec![0u8; 1]);
    assert_eq!(src.needs_replenish(), None);
}

#[test]
fn test_two_source_xor_is_deterministic() {
    // fixed stub sources: identical states give identical combined output
    let mut a = TwoSourceRng::new(b"abcdef".to_vec(), b"123".to_vec());
    let mut b = TwoSourceRng::new(b"abcdef".to_vec(), b"123".to_vec());
    let out_a = a.read_bytes(8).unwrap();
    let out_b = b.read_bytes(8).unwrap();
    assert_eq!(out_a, out_b);
    assert_eq!(out_a.len(), 8);
    // and the bytes are the XOR of the two looping streams
    let s1 = b"abcdefab";
    let s2 = b"12312312";
    let expect: Vec<u8> = s1.iter().zip(s2.iter()).map(|(x, y)| x ^ y).collect();
    assert_eq!(out_a, expect);
    // repeating with the same state repeats the output
    let mut c = TwoSourceRng::new(b"abcdef".to_vec(), b"123".to_vec());
    assert_eq!(c.read_bytes(8).unwrap(), out_a);
}
