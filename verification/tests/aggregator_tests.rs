use trng_core::aggregator::{collect_results, combine_xor, Aggregator, EntropySource};
use trng_core::config::{CombineMode, FileConfig, FlattenedConfig, LrngConfig};
use trng_core::error::Error;
use trng_core::service::{read_reply, SourceXorAggregator};
use trng_core::sources::{complete_read, GenOutcome, ReadAction};

fn lrng_cfg(id: &str) -> LrngConfig {
    LrngConfig { id: id.to_string(), enabled: true, buffer_mebibytes: None }
}

fn flat(lrng: Vec<LrngConfig>, file: Vec<FileConfig>) -> FlattenedConfig {
    FlattenedConfig { combine: CombineMode::Xor, lrng_sources: lrng, file_sources: file }
}

fn two_source_aggregator() -> Aggregator {
    Aggregator::from_config(flat(vec![lrng_cfg("rng0"), lrng_cfg("rng1")], vec![]))
}

#[test]
fn test_combination_of_uneven_yields() {
    // two sources yield 10 and 7 bytes: the output is exactly 7 bytes,
    // the XOR of the first 7 bytes of each, and the longer source gets
    // its last 3 bytes back
    let mut agg = two_source_aggregator();
    let plans = agg.begin_read(10, 50).unwrap();
    assert_eq!(plans.len(), 2);
    assert!(plans.iter().all(|p| p.0.is_empty() && p.1 == ReadAction::Generate(10)));

    let yield0: Vec<u8> = (1..=10).collect();
    let yield1: Vec<u8> = (101..=107).collect();
    let out = agg
        .finish_read(
            vec![vec![], vec![]],
            vec![GenOutcome::Produced(yield0.clone()), GenOutcome::Produced(yield1.clone())],
        )
        .unwrap();
    let expect: Vec<u8> = (0..7).map(|i| yield0[i] ^ yield1[i]).collect();
    assert_eq!(out, expect);

    // the unused tail went back to source 0: a zero-timeout read drains it
    let plans = agg.begin_read(10, 0).unwrap();
    assert_eq!(plans[0].0, vec![8, 9, 10]);
    assert_eq!(plans[0].1, ReadAction::Done);
    assert_eq!(plans[1].0, Vec::<u8>::new());
    assert_eq!(plans[1].1, ReadAction::Done);

    // stats counted the one successful combination
    let (bytes, requests) = agg.get_stats();
    assert_eq!(bytes, 7);
    assert_eq!(requests, 1);
}

#[test]
fn test_failure_propagation() {
    // one failing source aborts the whole read with exactly its error
    let mut agg = two_source_aggregator();
    agg.begin_read(4, 50).unwrap();
    let res = agg.finish_read(
        vec![vec![], vec![]],
        vec![
            GenOutcome::Produced(vec![1, 2, 3, 4]),
            GenOutcome::Failed(Error::OsError(5)),
        ],
    );
    assert_eq!(res, Err(Error::OsError(5)));
    let (bytes, requests) = agg.get_stats();
    assert_eq!((bytes, requests), (0, 0));
}

#[test]
fn test_first_failure_wins() {
    let res = collect_results(
        vec![vec![], vec![], vec![]],
        vec![
            GenOutcome::TimedOut,
            GenOutcome::Failed(Error::Unexpected),
            GenOutcome::Failed(Error::OsError(9)),
        ],
    );
    assert_eq!(res.unwrap_err(), Error::Unexpected);
}

#[test]
fn test_zero_sources_fail_every_read() {
    let mut agg = Aggregator::from_config(flat(vec![], vec![]));
    assert_eq!(agg.begin_read(16, 100).unwrap_err(), Error::Unexpected);
    assert_eq!(agg.begin_read(0, 0).unwrap_err(), Error::Unexpected);
}

#[test]
fn test_zero_timeout_never_generates() {
    let mut agg = two_source_aggregator();
    let plans = agg.begin_read(32, 0).unwrap();
    assert!(plans.iter().all(|p| p.1 == ReadAction::Done));
}

#[test]
fn test_timed_out_source_shortens_output() {
    // a timeout is not an error: the combination is just shorter
    let mut agg = two_source_aggregator();
    agg.begin_read(4, 50).unwrap();
    let out = agg
        .finish_read(
            vec![vec![], vec![]],
            vec![GenOutcome::Produced(vec![7, 7, 7, 7]), GenOutcome::TimedOut],
        )
        .unwrap();
    assert_eq!(out, Vec::<u8>::new());
}

#[test]
fn test_combine_xor_exact_bytes() {
    let out = combine_xor(&vec![vec![0xff, 0x0f, 0x01], vec![0xf0, 0x0f], vec![0x01, 0x01]]);
    assert_eq!(out, vec![0xff ^ 0xf0 ^ 0x01, 0x0f ^ 0x0f ^ 0x01]);
}

#[test]
fn test_complete_read_outcomes() {
    let ok = complete_read(vec![1, 2], GenOutcome::Produced(vec![3, 4]));
    assert_eq!(ok.unwrap(), vec![1, 2, 3, 4]);
    let short = complete_read(vec![1, 2], GenOutcome::TimedOut);
    assert_eq!(short.unwrap(), vec![1, 2]);
    let failed = complete_read(vec![1, 2], GenOutcome::Failed(Error::ErrnoNotPositive));
    assert_eq!(failed.unwrap_err(), Error::ErrnoNotPositive);
}

#[test]
fn test_buffer_status_reports_sources() {
    let agg = Aggregator::from_config(flat(
        vec![LrngConfig {
            id: "buffered".to_string(),
            enabled: true,
            buffer_mebibytes: Some(1),
        }],
        vec![],
    ));
    let (id, status) = match &agg.sources[0] {
        EntropySource::Lrng(s) => s.get_buffer_status(),
        EntropySource::File(s) => s.get_buffer_status(),
    };
    assert_eq!(id, "buffered");
    assert_eq!(status, Some((0, 1024 * 1024)));
}

#[test]
fn test_service_reply_codes() {
    let (status, bytes) = read_reply(Ok(vec![9, 8]));
    assert_eq!((status, bytes), (0, vec![9, 8]));
    let (status, bytes) = read_reply(Err(Error::OsError(13)));
    assert_eq!((status, bytes), (-1, vec![]));
    let (status, _) = read_reply(Err(Error::ErrnoNotPositive));
    assert_eq!(status, -2);
    let (status, _) = read_reply(Err(Error::Unexpected));
    assert_eq!(status, -3);
}

#[test]
fn test_service_stats() {
    let service = SourceXorAggregator::new(two_source_aggregator());
    assert_eq!(service.get_stats(), (0, 0));
}
