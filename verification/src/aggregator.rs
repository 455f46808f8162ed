use vstd::prelude::*;
use crate::config::{CombineMode, FlattenedConfig};
use crate::error::Error;
use crate::sources::{
    buffer_size_fits, drain_action, drain_rest, drain_take, FileSource, GenOutcome, LrngSource,
    ReadAction,
};

verus! {

/// One entropy source the aggregator owns: the two kinds behind one
/// three-operation contract (begin a read, take back leftovers, report
/// buffer status).
pub enum EntropySource {
    Lrng(LrngSource),
    File(FileSource),
}

impl EntropySource {
    pub open spec fn wf(&self) -> bool {
        match self {
            EntropySource::Lrng(s) => s.wf(),
            EntropySource::File(s) => s.wf(),
        }
    }

    /// The bytes currently buffered by the source.
    pub open spec fn contents(&self) -> Seq<u8> {
        match self {
            EntropySource::Lrng(s) => s.buffer@,
            EntropySource::File(s) => s.buffer@,
        }
    }

    /// Capacity of the source's buffer.
    pub open spec fn buf_cap(&self) -> nat {
        match self {
            EntropySource::Lrng(s) => s.buffer.cap(),
            EntropySource::File(s) => s.buffer.cap(),
        }
    }

    /// The source's configured id.
    pub open spec fn id_view(&self) -> Seq<char> {
        match self {
            EntropySource::Lrng(s) => s.cfg.id@,
            EntropySource::File(s) => s.cfg.id@,
        }
    }

    /// The source's configured buffer bound, if any.
    pub open spec fn max_size(&self) -> Option<usize> {
        match self {
            EntropySource::Lrng(s) => s.max_buffer_size,
            EntropySource::File(s) => s.max_buffer_size,
        }
    }

    /// `post` is `pre` with at most the buffered bytes changed: same kind,
    /// same descriptor, and, for a file source, same cursor and wraparound
    /// flag.
    pub open spec fn unchanged_but_buffer(pre: EntropySource, post: EntropySource) -> bool {
        match (pre, post) {
            (EntropySource::Lrng(a), EntropySource::Lrng(b)) => a.cfg == b.cfg && a.max_buffer_size
                == b.max_buffer_size,
            (EntropySource::File(a), EntropySource::File(b)) => a.cfg == b.cfg && a.max_buffer_size
                == b.max_buffer_size && a.offset == b.offset && a.loop_on_eof == b.loop_on_eof,
            _ => false,
        }
    }

    /// The buffered bytes never exceed the buffer's capacity.
    pub proof fn lemma_contents_le_cap(&self)
        requires
            self.wf(),
        ensures
            self.contents().len() <= self.buf_cap(),
    {
        match self {
            EntropySource::Lrng(s) => s.buffer.lemma_len_le_cap(),
            EntropySource::File(s) => s.buffer.lemma_len_le_cap(),
        }
    }

    /// Serve a request from the source's buffer: the drain step of a read.
    pub fn begin_read(&mut self, num_bytes: usize, timeout_ms: u64) -> (r: (Vec<u8>, ReadAction))
        requires
            old(self).wf(),
        ensures
            final(self).wf(),
            EntropySource::unchanged_but_buffer(*old(self), *final(self)),
            final(self).buf_cap() == old(self).buf_cap(),
            r.0@ == drain_take(old(self).contents(), num_bytes as int),
            final(self).contents() == drain_rest(old(self).contents(), num_bytes as int),
            r.1 == drain_action(old(self).contents(), num_bytes as int, timeout_ms),
            timeout_ms == 0 ==> r.1 == ReadAction::Done,
            r.0@.len() <= num_bytes,
    {
        match self {
            EntropySource::Lrng(s) => s.begin_read(num_bytes, timeout_ms),
            EntropySource::File(s) => s.begin_read(num_bytes, timeout_ms),
        }
    }

    /// Store surplus bytes from a combination, buffer permitting.
    pub fn return_leftover(&mut self, leftover: Vec<u8>)
        requires
            old(self).wf(),
        ensures
            final(self).wf(),
            EntropySource::unchanged_but_buffer(*old(self), *final(self)),
            final(self).buf_cap() == old(self).buf_cap(),
            final(self).contents() == old(self).contents() + leftover@.take(
                vstd::math::min(
                    leftover@.len() as int,
                    old(self).buf_cap() - old(self).contents().len(),
                ),
            ),
    {
        match self {
            EntropySource::Lrng(s) => s.return_leftover(leftover),
            EntropySource::File(s) => s.return_leftover(leftover),
        }
    }

    /// The source id and, for a buffered source, fill and capacity.
    pub fn get_buffer_status(&self) -> (r: (String, Option<(usize, usize)>))
        requires
            self.wf(),
        ensures
            r.0@ == self.id_view(),
            match self.max_size() {
                Some(m) => r.1 matches Some(st) && st.0 == self.contents().len() && st.1 == m,
                None => r.1 is None,
            },
    {
        match self {
            EntropySource::Lrng(s) => s.get_buffer_status(),
            EntropySource::File(s) => s.get_buffer_status(),
        }
    }
}

/// The full per-source yields: each drained prefix extended by what the
/// source's deferred generation produced (nothing on a timeout; a failed
/// source's entry is immaterial, the request aborts).
pub open spec fn outcome_bytes(partial: Seq<u8>, outcome: GenOutcome) -> Seq<u8> {
    match outcome {
        GenOutcome::Produced(b) => partial + b@,
        GenOutcome::TimedOut => partial,
        GenOutcome::Failed(_) => partial,
    }
}

pub open spec fn results_of(partials: Seq<Vec<u8>>, outcomes: Seq<GenOutcome>) -> Seq<Seq<u8>> {
    Seq::new(partials.len(), |i: int| outcome_bytes(partials[i]@, outcomes[i]))
}

/// The error of the first failed source, in source order, if any.
pub open spec fn first_failure(outcomes: Seq<GenOutcome>) -> Option<Error>
    decreases outcomes.len(),
{
    if outcomes.len() == 0 {
        None
    } else {
        match outcomes[0] {
            GenOutcome::Failed(e) => Some(e),
            _ => first_failure(outcomes.drop_first()),
        }
    }
}

proof fn lemma_first_failure_none(outcomes: Seq<GenOutcome>)
    requires
        forall|k: int| 0 <= k < outcomes.len() ==> !(#[trigger] outcomes[k] is Failed),
    ensures
        first_failure(outcomes) is None,
    decreases outcomes.len(),
{
    if outcomes.len() > 0 {
        lemma_first_failure_none(outcomes.drop_first());
    }
}

proof fn lemma_first_failure_at(outcomes: Seq<GenOutcome>, i: int, e: Error)
    requires
        0 <= i < outcomes.len(),
        forall|k: int| 0 <= k < i ==> !(#[trigger] outcomes[k] is Failed),
        outcomes[i] == GenOutcome::Failed(e),
    ensures
        first_failure(outcomes) == Some(e),
    decreases i,
{
    if i > 0 {
        lemma_first_failure_at(outcomes.drop_first(), i - 1, e);
    }
}

/// The shortest yield among the per-source results: the length of the
/// combined output.
pub open spec fn min_result_len(rs: Seq<Seq<u8>>) -> int
    decreases rs.len(),
{
    if rs.len() == 0 {
        0
    } else if rs.len() == 1 {
        rs[0].len() as int
    } else {
        vstd::math::min(min_result_len(rs.drop_last()), rs.last().len() as int)
    }
}

/// XOR of the bytes at position `j` of the first `k` results.
pub open spec fn xor_prefix(rs: Seq<Seq<u8>>, k: int, j: int) -> u8
    decreases k,
{
    if k <= 0 {
        0u8
    } else {
        xor_prefix(rs, k - 1, j) ^ rs[k - 1][j]
    }
}

/// XOR of the bytes at position `j` across every result.
pub open spec fn xor_at(rs: Seq<Seq<u8>>, j: int) -> u8 {
    xor_prefix(rs, rs.len() as int, j)
}

proof fn lemma_xor_zero_left(y: u8)
    ensures
        (0u8 ^ y) == y,
{
    assert((0u8 ^ y) == y) by (bit_vector);
}

/// The views of a list of byte vectors.
pub open spec fn seq_views(rs: Seq<Vec<u8>>) -> Seq<Seq<u8>> {
    rs.map_values(|v: Vec<u8>| v@)
}

/// Materialize each source's full yield from its drained prefix and its
/// generation outcome, aborting with the first failed source's error:
/// a single failure forbids any combination.
#[verifier::loop_isolation(false)]
pub fn collect_results(partials: Vec<Vec<u8>>, outcomes: Vec<GenOutcome>) -> (r: Result<
    Vec<Vec<u8>>,
    Error,
>)
    requires
        partials@.len() == outcomes@.len(),
    ensures
        first_failure(outcomes@) matches Some(e) ==> r == Err::<Vec<Vec<u8>>, Error>(e),
        first_failure(outcomes@) is None ==> r is Ok,
        r matches Ok(results) ==> results@.len() == partials@.len() && forall|k: int|
            0 <= k < results@.len() ==> (#[trigger] results@[k])@ == results_of(
            partials@,
            outcomes@,
        )[k],
{
    let n = partials.len();
    let ghost rs = results_of(partials@, outcomes@);
    let ghost partials0 = partials@;
    let ghost outcomes0 = outcomes@;
    let mut partials = partials;
    let mut outcomes = outcomes;
    let mut results: Vec<Vec<u8>> = Vec::with_capacity(n);
    let mut i: usize = 0;
    while i < n
        invariant
            i <= n,
            partials@ =~= partials0.skip(i as int),
            outcomes@ =~= outcomes0.skip(i as int),
            results@.len() == i,
            forall|k: int| 0 <= k < i ==> (#[trigger] results@[k])@ == rs[k],
            forall|k: int| 0 <= k < i ==> !(#[trigger] outcomes0[k] is Failed),
        decreases n - i,
    {
        let ghost ps = partials@;
        let ghost os = outcomes@;
        let p = partials.remove(0);
        let oc = outcomes.remove(0);
        proof {
            assert(partials@ =~= partials0.skip(i + 1));
            assert(outcomes@ =~= outcomes0.skip(i + 1));
            assert(os[0] == outcomes0[i as int]);
            assert(ps[0] == partials0[i as int]);
        }
        match oc {
            GenOutcome::Failed(e) => {
                proof {
                    lemma_first_failure_at(outcomes0, i as int, e);
                }
                return Err(e);
            },
            GenOutcome::Produced(b) => {
                let mut v = p;
                let mut b = b;
                v.append(&mut b);
                results.push(v);
            },
            GenOutcome::TimedOut => {
                results.push(p);
            },
        }
        i = i + 1;
    }
    proof {
        lemma_first_failure_none(outcomes0);
    }
    Ok(results)
}

/// Combine the per-source yields by XOR: for each position up to the
/// shortest yield, the output byte is the XOR of that position's bytes
/// across every source; positions beyond the shortest yield are not used.
#[verifier::loop_isolation(false)]
pub fn combine_xor(results: &Vec<Vec<u8>>) -> (out: Vec<u8>)
    requires
        results@.len() > 0,
    ensures
        out@.len() == min_result_len(seq_views(results@)),
        forall|j: int| 0 <= j < out@.len() ==> out@[j] == xor_at(seq_views(results@), j),
        forall|k: int| 0 <= k < results@.len() ==> out@.len() <= (#[trigger] results@[k])@.len(),
{
    let n = results.len();
    let ghost rs = seq_views(results@);
    // the shortest produced length bounds the combination
    let mut m: usize = results[0].len();
    proof {
        assert(rs.take(1).len() == 1);
        assert(rs.take(1)[0] == rs[0]);
    }
    let mut i: usize = 1;
    while i < n
        invariant
            1 <= i <= n,
            forall|k: int| 0 <= k < n ==> (#[trigger] results@[k])@ == rs[k],
            m == min_result_len(rs.take(i as int)),
            forall|k: int| 0 <= k < i ==> m <= (#[trigger] rs[k]).len(),
        decreases n - i,
    {
        let li = results[i].len();
        let new_m = if li < m {
            li
        } else {
            m
        };
        proof {
            assert(rs.take(i + 1).drop_last() =~= rs.take(i as int));
            assert(rs.take(i + 1).last() == rs[i as int]);
        }
        m = new_m;
        i = i + 1;
    }
    proof {
        assert(rs.take(n as int) =~= rs);
    }
    // XOR the per-position bytes of every result over the common length
    let mut out: Vec<u8> = Vec::with_capacity(m);
    let mut j: usize = 0;
    while j < m
        invariant
            j <= m,
            out@.len() == j,
            forall|k: int| 0 <= k < n ==> (#[trigger] results@[k])@ == rs[k],
            forall|k: int| 0 <= k < n ==> m <= (#[trigger] rs[k]).len(),
            forall|jj: int| 0 <= jj < j ==> out@[jj] == xor_at(rs, jj),
        decreases m - j,
    {
        let mut x: u8 = results[0][j];
        proof {
            lemma_xor_zero_left(rs[0][j as int]);
            assert(xor_prefix(rs, 0, j as int) == 0u8);
            assert(xor_prefix(rs, 1, j as int) == xor_prefix(rs, 0, j as int) ^ rs[0][j as int]);
        }
        let mut k: usize = 1;
        while k < n
            invariant
                1 <= k <= n,
                j < m,
                forall|kk: int| 0 <= kk < n ==> (#[trigger] results@[kk])@ == rs[kk],
                forall|kk: int| 0 <= kk < n ==> m <= (#[trigger] rs[kk]).len(),
                x == xor_prefix(rs, k as int, j as int),
            decreases n - k,
        {
            x = x ^ results[k][j];
            k = k + 1;
        }
        out.push(x);
        j = j + 1;
    }
    proof {
        assert forall|k: int| 0 <= k < results@.len() implies out@.len() <= (
        #[trigger] results@[k])@.len() by {
            assert(results@[k]@ == rs[k]);
        }
    }
    out
}

/// Wrapping addition of the running counters, as the hardware does it.
pub open spec fn wrap_add_u64(a: u64, b: u64) -> u64 {
    if a + b > u64::MAX {
        (a + b - 0x1_0000_0000_0000_0000) as u64
    } else {
        (a + b) as u64
    }
}

/// Fan-out/fan-in orchestrator: owns the configured sources, drains each
/// for a request, combines the completed yields by XOR over the shortest
/// produced length, routes every unused tail back to its source of origin,
/// and counts what it served.
pub struct Aggregator {
    pub combine: CombineMode,
    pub sources: Vec<EntropySource>,
    pub bytes_served: u64,
    pub requests_served: u64,
}

impl Aggregator {
    pub open spec fn wf(&self) -> bool {
        forall|i: int| 0 <= i < self.sources@.len() ==> (#[trigger] self.sources@[i]).wf()
    }

    /// Build the aggregator's sources from a flattened configuration:
    /// OS RNG sources first, then file sources, in configuration order.
    #[verifier::loop_isolation(false)]
    pub fn from_config(cfg: FlattenedConfig) -> (agg: Aggregator)
        requires
            forall|i: int| 0 <= i < cfg.lrng_sources@.len() ==> buffer_size_fits(
                (#[trigger] cfg.lrng_sources@[i]).buffer_mebibytes,
            ),
            forall|i: int| 0 <= i < cfg.file_sources@.len() ==> buffer_size_fits(
                (#[trigger] cfg.file_sources@[i]).buffer_mebibytes,
            ),
        ensures
            agg.wf(),
            agg.combine == cfg.combine,
            agg.bytes_served == 0,
            agg.requests_served == 0,
            agg.sources@.len() == cfg.lrng_sources@.len() + cfg.file_sources@.len(),
            forall|i: int| 0 <= i < cfg.lrng_sources@.len() ==> ((#[trigger] agg.sources@[i])
                matches EntropySource::Lrng(s) && s.cfg == cfg.lrng_sources@[i] && s.buffer@
                == Seq::<u8>::empty()),
            forall|i: int| 0 <= i < cfg.file_sources@.len() ==> ((
            #[trigger] agg.sources@[cfg.lrng_sources@.len() + i]) matches EntropySource::File(s)
                && s.cfg == cfg.file_sources@[i] && s.offset == 0 && s.buffer@
                == Seq::<u8>::empty()),
    {
        let mut sources: Vec<EntropySource> = Vec::new();
        let mut lrng_cfgs = cfg.lrng_sources;
        let ghost lrng0 = lrng_cfgs@;
        while lrng_cfgs.len() > 0
            invariant
                sources@.len() + lrng_cfgs@.len() == lrng0.len(),
                lrng_cfgs@ == lrng0.skip(sources@.len() as int),
                forall|i: int| 0 <= i < lrng0.len() ==> buffer_size_fits(
                    (#[trigger] lrng0[i]).buffer_mebibytes,
                ),
                forall|i: int| 0 <= i < sources@.len() ==> ((#[trigger] sources@[i])
                    matches EntropySource::Lrng(s) && s.wf() && s.cfg == lrng0[i] && s.buffer@
                    == Seq::<u8>::empty()),
            decreases lrng_cfgs@.len(),
        {
            let c = lrng_cfgs.remove(0);
            proof {
                assert(lrng_cfgs@ =~= lrng0.skip(sources@.len() as int + 1));
            }
            sources.push(EntropySource::Lrng(LrngSource::new(c)));
        }
        let ghost n_lrng = sources@.len() as int;
        let mut file_cfgs = cfg.file_sources;
        let ghost file0 = file_cfgs@;
        while file_cfgs.len() > 0
            invariant
                n_lrng == lrng0.len(),
                file_cfgs@.len() <= file0.len(),
                sources@.len() == n_lrng + (file0.len() - file_cfgs@.len()),
                file_cfgs@ == file0.skip(sources@.len() - n_lrng),
                forall|i: int| 0 <= i < file0.len() ==> buffer_size_fits(
                    (#[trigger] file0[i]).buffer_mebibytes,
                ),
                forall|i: int| 0 <= i < n_lrng ==> ((#[trigger] sources@[i])
                    matches EntropySource::Lrng(s) && s.wf() && s.cfg == lrng0[i] && s.buffer@
                    == Seq::<u8>::empty()),
                forall|i: int| n_lrng <= i < sources@.len() ==> ((#[trigger] sources@[i])
                    matches EntropySource::File(s) && s.wf() && s.cfg == file0[i - n_lrng] && s.offset
                    == 0 && s.buffer@ == Seq::<u8>::empty()),
            decreases file_cfgs@.len(),
        {
            let c = file_cfgs.remove(0);
            proof {
                assert(file_cfgs@ =~= file0.skip(sources@.len() as int - n_lrng + 1));
            }
            sources.push(EntropySource::File(FileSource::new(c)));
        }
        Aggregator { combine: cfg.combine, sources, bytes_served: 0, requests_served: 0 }
    }

    /// Running totals: bytes served and requests served since construction.
    pub fn get_stats(&self) -> (r: (u64, u64))
        ensures
            r.0 == self.bytes_served,
            r.1 == self.requests_served,
    {
        (self.bytes_served, self.requests_served)
    }

    /// First half of a read request: fail at once if no source is
    /// configured; otherwise drain every source's buffer and report, per
    /// source, the bytes already in hand and what remains to be generated
    /// before the deadline. With a zero timeout no source is asked to
    /// generate anything.
    #[verifier::loop_isolation(false)]
    pub fn begin_read(&mut self, num_bytes: usize, timeout_ms: u64) -> (r: Result<
        Vec<(Vec<u8>, ReadAction)>,
        Error,
    >)
        requires
            old(self).wf(),
        ensures
            final(self).wf(),
            old(self).sources@.len() == 0 ==> r == Err::<Vec<(Vec<u8>, ReadAction)>, Error>(
                Error::Unexpected,
            ) && *final(self) == *old(self),
            old(self).sources@.len() > 0 ==> r is Ok,
            r matches Ok(plans) ==> {
                &&& plans@.len() == old(self).sources@.len()
                &&& final(self).sources@.len() == old(self).sources@.len()
                &&& final(self).combine == old(self).combine
                &&& final(self).bytes_served == old(self).bytes_served
                &&& final(self).requests_served == old(self).requests_served
                &&& forall|i: int| 0 <= i < plans@.len() ==> (#[trigger] plans@[i]).0@
                    == drain_take(old(self).sources@[i].contents(), num_bytes as int)
                &&& forall|i: int| 0 <= i < plans@.len() ==> (#[trigger] plans@[i]).1
                    == drain_action(
                    old(self).sources@[i].contents(),
                    num_bytes as int,
                    timeout_ms,
                )
                &&& forall|i: int| 0 <= i < plans@.len() ==> (#[trigger] final(self).sources@[i]).contents()
                    == drain_rest(old(self).sources@[i].contents(), num_bytes as int)
                &&& forall|i: int| 0 <= i < plans@.len() ==> EntropySource::unchanged_but_buffer(
                    #[trigger] old(self).sources@[i],
                    final(self).sources@[i],
                ) && final(self).sources@[i].buf_cap() == old(self).sources@[i].buf_cap()
                &&& timeout_ms == 0 ==> forall|i: int| 0 <= i < plans@.len() ==> (
                #[trigger] plans@[i]).1 == ReadAction::Done
            },
    {
        let n = self.sources.len();
        if n == 0 {
            return Err(Error::Unexpected);
        }
        let ghost srcs0 = self.sources@;
        let mut plans: Vec<(Vec<u8>, ReadAction)> = Vec::with_capacity(n);
        let mut i: usize = 0;
        while i < n
            invariant
                old(self).wf(),
                srcs0 == old(self).sources@,
                n == srcs0.len(),
                i <= n,
                self.combine == old(self).combine,
                self.bytes_served == old(self).bytes_served,
                self.requests_served == old(self).requests_served,
                self.sources@.len() == n,
                plans@.len() == i,
                forall|k: int| i <= k < n ==> self.sources@[k] == srcs0[k],
                forall|k: int| 0 <= k < i ==> (#[trigger] self.sources@[k]).wf()
                    && EntropySource::unchanged_but_buffer(srcs0[k], self.sources@[k])
                    && self.sources@[k].buf_cap() == srcs0[k].buf_cap()
                    && self.sources@[k].contents() == drain_rest(
                    srcs0[k].contents(),
                    num_bytes as int,
                ),
                forall|k: int| 0 <= k < i ==> (#[trigger] plans@[k]).0@ == drain_take(
                    srcs0[k].contents(),
                    num_bytes as int,
                ) && plans@[k].1 == drain_action(srcs0[k].contents(), num_bytes as int, timeout_ms),
            decreases n - i,
        {
            let ghost svec0 = self.sources@;
            proof {
                assert(old(self).sources@[i as int].wf());
            }
            let mut src = self.sources.remove(i);
            let plan = src.begin_read(num_bytes, timeout_ms);
            self.sources.insert(i, src);
            proof {
                assert(self.sources@ =~= svec0.update(i as int, self.sources@[i as int]));
            }
            plans.push(plan);
            i = i + 1;
        }
        Ok(plans)
    }

    /// Second half of a read request, after every source's deferred work
    /// settled: if any source failed, that error aborts the whole request
    /// (no partial combination). Otherwise the per-source yields are
    /// XOR-combined over the shortest length, each source's unused tail
    /// goes back to its buffer, and the served counters advance.
    #[verifier::loop_isolation(false)]
    pub fn finish_read(&mut self, partials: Vec<Vec<u8>>, outcomes: Vec<GenOutcome>) -> (r: Result<
        Vec<u8>,
        Error,
    >)
        requires
            old(self).wf(),
            old(self).sources@.len() > 0,
            partials@.len() == old(self).sources@.len(),
            outcomes@.len() == old(self).sources@.len(),
        ensures
            final(self).wf(),
            first_failure(outcomes@) matches Some(e) ==> r == Err::<Vec<u8>, Error>(e)
                && *final(self) == *old(self),
            first_failure(outcomes@) is None ==> r is Ok,
            r matches Ok(out) ==> {
                let rs = results_of(partials@, outcomes@);
                let m = min_result_len(rs);
                &&& out@.len() == m
                &&& forall|j: int| 0 <= j < m ==> out@[j] == xor_at(rs, j)
                &&& final(self).sources@.len() == old(self).sources@.len()
                &&& final(self).combine == old(self).combine
                &&& forall|i: int| 0 <= i < rs.len() ==> EntropySource::unchanged_but_buffer(
                    #[trigger] old(self).sources@[i],
                    final(self).sources@[i],
                )
                &&& forall|i: int| 0 <= i < rs.len() ==> (#[trigger] final(self).sources@[i]).contents()
                    == old(self).sources@[i].contents() + rs[i].skip(m).take(
                    vstd::math::min(
                        rs[i].len() - m,
                        old(self).sources@[i].buf_cap() - old(
                            self,
                        ).sources@[i].contents().len(),
                    ),
                )
                &&& final(self).requests_served == wrap_add_u64(old(self).requests_served, 1)
                &&& final(self).bytes_served == wrap_add_u64(old(self).bytes_served, m as u64)
            },
    {
        let n = self.sources.len();
        let ghost rs = results_of(partials@, outcomes@);
        let results = match collect_results(partials, outcomes) {
            Ok(res) => res,
            Err(e) => {
                return Err(e);
            },
        };
        proof {
            assert(seq_views(results@) =~= rs);
        }
        let out = combine_xor(&results);
        let m = out.len();
        // route every unused tail back to its source of origin
        let ghost srcs0 = self.sources@;
        let mut i: usize = 0;
        while i < n
            invariant
                n == srcs0.len(),
                srcs0 == old(self).sources@,
                rs.len() == n,
                i <= n,
                results@.len() == n,
                m == out@.len(),
                forall|k: int| 0 <= k < n ==> (#[trigger] results@[k])@ == rs[k],
                forall|k: int| 0 <= k < n ==> m <= (#[trigger] rs[k]).len(),
                self.combine == old(self).combine,
                self.bytes_served == old(self).bytes_served,
                self.requests_served == old(self).requests_served,
                self.sources@.len() == n,
                forall|k: int| i <= k < n ==> self.sources@[k] == srcs0[k],
                forall|k: int| 0 <= k < i ==> (#[trigger] self.sources@[k]).wf()
                    && EntropySource::unchanged_but_buffer(srcs0[k], self.sources@[k])
                    && self.sources@[k].contents() == srcs0[k].contents() + rs[k].skip(
                    m as int,
                ).take(
                    vstd::math::min(
                        rs[k].len() - m,
                        srcs0[k].buf_cap() - srcs0[k].contents().len(),
                    ),
                ),
            decreases n - i,
        {
            let rlen = results[i].len();
            if rlen > m {
                let mut leftover: Vec<u8> = Vec::with_capacity(rlen - m);
                let mut jj: usize = m;
                while jj < rlen
                    invariant
                        n == results@.len(),
                        i < n,
                        rlen == results@[i as int]@.len(),
                        m <= jj <= rlen,
                        leftover@ == results@[i as int]@.subrange(m as int, jj as int),
                    decreases rlen - jj,
                {
                    let b = results[i][jj];
                    leftover.push(b);
                    proof {
                        assert(leftover@ =~= results@[i as int]@.subrange(m as int, jj + 1));
                    }
                    jj = jj + 1;
                }
                proof {
                    assert(leftover@ =~= rs[i as int].skip(m as int));
                }
                let ghost svec0 = self.sources@;
                proof {
                    assert(old(self).sources@[i as int].wf());
                }
                let mut src = self.sources.remove(i);
                src.return_leftover(leftover);
                self.sources.insert(i, src);
                proof {
                    assert(self.sources@ =~= svec0.update(i as int, self.sources@[i as int]));
                }
            } else {
                proof {
                    srcs0[i as int].lemma_contents_le_cap();
                    let cap_room = srcs0[i as int].buf_cap() - srcs0[i as int].contents().len();
                    assert(rs[i as int].skip(m as int) =~= Seq::<u8>::empty());
                    assert(srcs0[i as int].contents() + rs[i as int].skip(m as int).take(
                        vstd::math::min(rs[i as int].len() - m, cap_room),
                    ) =~= srcs0[i as int].contents());
                }
            }
            i = i + 1;
        }
        // running totals, wrapping as the hardware counters do
        self.requests_served = self.requests_served.wrapping_add(1);
        self.bytes_served = self.bytes_served.wrapping_add(out.len() as u64);
        Ok(out)
    }
}

} // verus!
