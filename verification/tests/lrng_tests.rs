use trng_core::config::LrngConfig;
use trng_core::error::Error;
use trng_core::lrng::{classify_fill_result, error_from_errno, FillStep, EINTR_CODE};
use trng_core::sources::{LrngSource, ReadAction};

#[test]
fn test_error_from_errno() {
    assert_eq!(error_from_errno(5), Error::OsError(5));
    assert_eq!(error_from_errno(0), Error::ErrnoNotPositive);
    assert_eq!(error_from_errno(-7), Error::ErrnoNotPositive);
}

#[test]
fn test_classify_fill_result() {
    assert_eq!(classify_fill_result(16, 0, 16), FillStep::Advance(16));
    assert_eq!(classify_fill_result(4, 0, 16), FillStep::Advance(4));
    assert_eq!(
        classify_fill_result(-1, EINTR_CODE as i64, 16),
        FillStep::Retry
    );
    assert_eq!(
        classify_fill_result(-1, 5, 16),
        FillStep::Fail(Error::OsError(5))
    );
    assert_eq!(
        classify_fill_result(-1, 0, 16),
        FillStep::Fail(Error::ErrnoNotPositive)
    );
    // zero bytes or more than asked: impossible for the primitive
    assert_eq!(classify_fill_result(0, 0, 16), FillStep::Fail(Error::Unexpected));
    assert_eq!(classify_fill_result(32, 0, 16), FillStep::Fail(Error::Unexpected));
    assert_eq!(classify_fill_result(-2, 0, 16), FillStep::Fail(Error::Unexpected));
}

#[test]
fn test_unbuffered_source_never_replenishes() {
    let src = LrngSource::new(LrngConfig {
        id: "plain".to_string(),
        enabled: true,
        buffer_mebibytes: None,
    });
    assert_eq!(src.replenish_request(), None);
}

#[test]
fn test_buffered_source_replenishes_in_chunks() {
    let mut src = LrngSource::new(LrngConfig {
        id: "buffered".to_string(),
        enabled: true,
        buffer_mebibytes: Some(1),
    });
    // empty buffer: top up, one bounded chunk at a time
    assert_eq!(src.replenish_request(), Some(65536));
    // nearly full: only the shortfall is asked for
    src.absorb_replenished(vec![0u8; 1024 * 1024 - 10]);
    assert_eq!(src.replenish_request(), Some(10));
    src.absorb_replenished(vec![0u8; 10]);
    assert_eq!(src.replenish_request(), None);
}

#[test]
fn test_zero_timeout_returns_only_buffered_bytes() {
    let mut src = LrngSource::new(LrngConfig {
        id: "plain".to_string(),
        enabled: true,
        buffer_mebibytes: None,
    });
    let (bytes, action) = src.begin_read(8, 0);
    assert_eq!(bytes, Vec::<u8>::new());
    assert_eq!(action, ReadAction::Done);
    // with buffered bytes, a zero-timeout read still serves them
    src.return_leftover(vec![1, 2, 3]);
    let (bytes, action) = src.begin_read(8, 0);
    assert_eq!(bytes, vec![1, 2, 3]);
    assert_eq!(action, ReadAction::Done);
}

#[test]
fn test_nonzero_timeout_orders_the_shortfall() {
    let mut src = LrngSource::new(LrngConfig {
        id: "plain".to_string(),
        enabled: true,
        buffer_mebibytes: None,
    });
    src.return_leftover(vec![1, 2, 3]);
    let (bytes, action) = src.begin_read(8, 250);
    assert_eq!(bytes, vec![1, 2, 3]);
    assert_eq!(action, ReadAction::Generate(5));
}

#[test]
fn test_error_messages() {
    assert_eq!(Error::ErrnoNotPositive.message(), "No positive errno set");
    assert_eq!(Error::Unexpected.message(), "Unexpected error occurred");
    assert_eq!(Error::OsError(3).message(), "OS error");
    assert_eq!(Error::from(17u32), Error::OsError(17));
}
