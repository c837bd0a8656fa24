//! The metrics sink: the named counters and the gauge the engine reports
//! into. The sink is a value the caller owns; rendering it for scraping is
//! the surrounding program's business.
//!
//! Counters never move backwards: an increment adds one, saturating at the
//! type's maximum.

use vstd::prelude::*;

verus! {

use crate::text::str_eq;

#[derive(Debug)]
pub enum MetricsError {
    /// The surrounding program could not set its recorder up.
    Initialization(String),
}

/// A counter bump: one more, saturating.
pub open spec fn bumped_u64(c: u64) -> u64 {
    if c == u64::MAX {
        c
    } else {
        (c + 1) as u64
    }
}

/// Whether a labelled counter with this label exists.
pub open spec fn has_label(s: Seq<(String, u64)>, key: Seq<char>) -> bool {
    exists|k: int| 0 <= k < s.len() && (#[trigger] s[k]).0@ == key
}

/// The index of the labelled counter with this label.
pub open spec fn label_idx(s: Seq<(String, u64)>, key: Seq<char>) -> int {
    choose|k: int| 0 <= k < s.len() && (#[trigger] s[k]).0@ == key
}

/// The value of the labelled counter with this label; a counter never
/// touched reads zero.
pub open spec fn label_count(s: Seq<(String, u64)>, key: Seq<char>) -> u64 {
    if has_label(s, key) {
        s[label_idx(s, key)].1
    } else {
        0
    }
}

/// No two labelled counters share a label.
pub open spec fn unique_labels(s: Seq<(String, u64)>) -> bool {
    forall|k1: int, k2: int|
        #![trigger s[k1].0, s[k2].0]
        0 <= k1 < s.len() && 0 <= k2 < s.len() && k1 != k2 ==> s[k1].0@ != s[k2].0@
}

pub proof fn lemma_label_idx(s: Seq<(String, u64)>, key: Seq<char>, k: int)
    requires
        unique_labels(s),
        0 <= k < s.len(),
        s[k].0@ == key,
    ensures
        has_label(s, key),
        label_idx(s, key) == k,
{
    assert(has_label(s, key));
    let j = label_idx(s, key);
    if j != k {
        assert(s[j].0@ != s[k].0@);
    }
}

/// Whether a per-status-code counter with this code exists.
pub open spec fn has_code(s: Seq<(u16, u64)>, code: u16) -> bool {
    exists|k: int| 0 <= k < s.len() && (#[trigger] s[k]).0 == code
}

/// The index of the per-status-code counter with this code.
pub open spec fn code_idx(s: Seq<(u16, u64)>, code: u16) -> int {
    choose|k: int| 0 <= k < s.len() && (#[trigger] s[k]).0 == code
}

/// The value of the per-status-code counter with this code; a counter never
/// touched reads zero.
pub open spec fn code_count(s: Seq<(u16, u64)>, code: u16) -> u64 {
    if has_code(s, code) {
        s[code_idx(s, code)].1
    } else {
        0
    }
}

/// No two per-status-code counters share a code.
pub open spec fn unique_codes(s: Seq<(u16, u64)>) -> bool {
    forall|k1: int, k2: int|
        #![trigger s[k1].0, s[k2].0]
        0 <= k1 < s.len() && 0 <= k2 < s.len() && k1 != k2 ==> s[k1].0 != s[k2].0
}

pub proof fn lemma_code_idx(s: Seq<(u16, u64)>, code: u16, k: int)
    requires
        unique_codes(s),
        0 <= k < s.len(),
        s[k].0 == code,
    ensures
        has_code(s, code),
        code_idx(s, code) == k,
{
    assert(has_code(s, code));
    let j = code_idx(s, code);
    if j != k {
        assert(s[j].0 != s[k].0);
    }
}

/// The engine's observations: jobs brought to an end by outcome, HTTP
/// responses by status code, acknowledged Kafka messages, and the number of
/// jobs being processed right now.
pub struct MetricsSink {
    jobs_processed: Vec<(String, u64)>,
    http_requests: Vec<(u16, u64)>,
    kafka_messages: u64,
    current_processing: i64,
}

impl MetricsSink {
    pub closed spec fn jobs_processed_view(&self) -> Seq<(String, u64)> {
        self.jobs_processed@
    }

    pub closed spec fn http_requests_view(&self) -> Seq<(u16, u64)> {
        self.http_requests@
    }

    pub closed spec fn kafka_messages_view(&self) -> u64 {
        self.kafka_messages
    }

    pub closed spec fn current_processing_view(&self) -> i64 {
        self.current_processing
    }

    /// The `jobs_processed_total` counter for one outcome label.
    pub open spec fn spec_jobs_processed(&self, status: Seq<char>) -> u64 {
        label_count(self.jobs_processed_view(), status)
    }

    /// The `jobs_http_requests_total` counter for one status code.
    pub open spec fn spec_http_requests(&self, code: u16) -> u64 {
        code_count(self.http_requests_view(), code)
    }

    pub open spec fn wf(&self) -> bool {
        &&& unique_labels(self.jobs_processed_view())
        &&& unique_codes(self.http_requests_view())
    }

    /// A fresh sink: every counter reads zero and no job is in flight.
    pub fn new() -> (r: MetricsSink)
        ensures
            r.wf(),
            forall|key: Seq<char>| r.spec_jobs_processed(key) == 0,
            forall|code: u16| r.spec_http_requests(code) == 0,
            r.kafka_messages_view() == 0,
            r.current_processing_view() == 0,
    {
        MetricsSink {
            jobs_processed: Vec::new(),
            http_requests: Vec::new(),
            kafka_messages: 0,
            current_processing: 0,
        }
    }

    /// The current value of `jobs_processed_total` for one label.
    pub fn jobs_processed_count(&self, status: &str) -> (r: u64)
        requires
            self.wf(),
        ensures
            r == self.spec_jobs_processed(status@),
    {
        let n = self.jobs_processed.len();
        let mut i: usize = 0;
        while i < n
            invariant
                self.wf(),
                n == self.jobs_processed_view().len(),
                i <= n,
                forall|k: int| 0 <= k < i ==> (#[trigger] self.jobs_processed_view()[k]).0@ != status@,
            decreases n - i,
        {
            if str_eq(self.jobs_processed[i].0.as_str(), status) {
                proof {
                    lemma_label_idx(self.jobs_processed_view(), status@, i as int);
                }
                return self.jobs_processed[i].1;
            }
            i = i + 1;
        }
        0
    }

    /// The current value of `jobs_http_requests_total` for one status code.
    pub fn http_requests_count(&self, status_code: u16) -> (r: u64)
        requires
            self.wf(),
        ensures
            r == self.spec_http_requests(status_code),
    {
        let n = self.http_requests.len();
        let mut i: usize = 0;
        while i < n
            invariant
                self.wf(),
                n == self.http_requests_view().len(),
                i <= n,
                forall|k: int| 0 <= k < i ==> (#[trigger] self.http_requests_view()[k]).0 != status_code,
            decreases n - i,
        {
            if self.http_requests[i].0 == status_code {
                proof {
                    lemma_code_idx(self.http_requests_view(), status_code, i as int);
                }
                return self.http_requests[i].1;
            }
            i = i + 1;
        }
        0
    }

    /// The current value of `jobs_kafka_messages_total`.
    pub fn kafka_messages_count(&self) -> (r: u64)
        ensures
            r == self.kafka_messages_view(),
    {
        self.kafka_messages
    }

    /// The current value of the `current_processing_jobs` gauge.
    pub fn current_processing_jobs(&self) -> (r: i64)
        ensures
            r == self.current_processing_view(),
    {
        self.current_processing
    }
}

/// Bump `jobs_processed_total` for the given outcome label, leaving every
/// other counter and the gauge alone.
pub fn increment_jobs_processed(sink: &mut MetricsSink, status: &str)
    requires
        old(sink).wf(),
    ensures
        final(sink).wf(),
        final(sink).spec_jobs_processed(status@) == bumped_u64(
            old(sink).spec_jobs_processed(status@),
        ),
        forall|key: Seq<char>|
            key != status@ ==> final(sink).spec_jobs_processed(key) == old(
                sink,
            ).spec_jobs_processed(key),
        final(sink).http_requests_view() == old(sink).http_requests_view(),
        final(sink).kafka_messages_view() == old(sink).kafka_messages_view(),
        final(sink).current_processing_view() == old(sink).current_processing_view(),
{
    let ghost pre = sink.jobs_processed@;
    let n = sink.jobs_processed.len();
    let mut i: usize = 0;
    while i < n
        invariant
            sink.wf(),
            sink.jobs_processed@ == pre,
            pre == old(sink).jobs_processed@,
            sink.http_requests@ == old(sink).http_requests@,
            sink.kafka_messages == old(sink).kafka_messages,
            sink.current_processing == old(sink).current_processing,
            n == pre.len(),
            i <= n,
            forall|k: int| 0 <= k < i ==> (#[trigger] pre[k]).0@ != status@,
        decreases n - i,
    {
        if str_eq(sink.jobs_processed[i].0.as_str(), status) {
            proof {
                lemma_label_idx(pre, status@, i as int);
            }
            let label = sink.jobs_processed[i].0.clone();
            let count = sink.jobs_processed[i].1;
            let new_count = if count == u64::MAX {
                count
            } else {
                count + 1
            };
            sink.jobs_processed[i] = (label, new_count);
            proof {
                assert forall|key: Seq<char>| #![auto]
                    has_label(sink.jobs_processed@, key) == has_label(pre, key)
                        && (has_label(pre, key) ==> label_idx(sink.jobs_processed@, key)
                        == label_idx(pre, key)) by {
                    if has_label(pre, key) {
                        let k = label_idx(pre, key);
                        lemma_label_idx(sink.jobs_processed@, key, k);
                    }
                    if has_label(sink.jobs_processed@, key) {
                        let k = label_idx(sink.jobs_processed@, key);
                        lemma_label_idx(pre, key, k);
                    }
                }
            }
            return ;
        }
        i = i + 1;
    }
    let fresh = (status.to_owned(), 1u64);
    sink.jobs_processed.push(fresh);
    proof {
        assert(unique_labels(sink.jobs_processed@));
        lemma_label_idx(sink.jobs_processed@, status@, pre.len() as int);
        assert forall|key: Seq<char>|
            key != status@ implies label_count(sink.jobs_processed@, key) == label_count(
            pre,
            key,
        ) by {
            if has_label(pre, key) {
                let k = label_idx(pre, key);
                lemma_label_idx(sink.jobs_processed@, key, k);
            }
            if has_label(sink.jobs_processed@, key) {
                let k = label_idx(sink.jobs_processed@, key);
                assert(0 <= k < pre.len());
                lemma_label_idx(pre, key, k);
            }
        }
    }
}

/// Bump `jobs_http_requests_total` for the given status code, leaving every
/// other counter and the gauge alone.
pub fn increment_http_requests(sink: &mut MetricsSink, status_code: u16)
    requires
        old(sink).wf(),
    ensures
        final(sink).wf(),
        final(sink).spec_http_requests(status_code) == bumped_u64(
            old(sink).spec_http_requests(status_code),
        ),
        forall|code: u16|
            code != status_code ==> final(sink).spec_http_requests(code) == old(
                sink,
            ).spec_http_requests(code),
        final(sink).jobs_processed_view() == old(sink).jobs_processed_view(),
        final(sink).kafka_messages_view() == old(sink).kafka_messages_view(),
        final(sink).current_processing_view() == old(sink).current_processing_view(),
{
    let ghost pre = sink.http_requests@;
    let n = sink.http_requests.len();
    let mut i: usize = 0;
    while i < n
        invariant
            sink.wf(),
            sink.http_requests@ == pre,
            pre == old(sink).http_requests@,
            sink.jobs_processed@ == old(sink).jobs_processed@,
            sink.kafka_messages == old(sink).kafka_messages,
            sink.current_processing == old(sink).current_processing,
            n == pre.len(),
            i <= n,
            forall|k: int| 0 <= k < i ==> (#[trigger] pre[k]).0 != status_code,
        decreases n - i,
    {
        if sink.http_requests[i].0 == status_code {
            proof {
                lemma_code_idx(pre, status_code, i as int);
            }
            let count = sink.http_requests[i].1;
            let new_count = if count == u64::MAX {
                count
            } else {
                count + 1
            };
            sink.http_requests[i] = (status_code, new_count);
            proof {
                assert forall|code: u16| #![auto]
                    has_code(sink.http_requests@, code) == has_code(pre, code) && (has_code(
                        pre,
                        code,
                    ) ==> code_idx(sink.http_requests@, code) == code_idx(pre, code)) by {
                    if has_code(pre, code) {
                        let k = code_idx(pre, code);
                        lemma_code_idx(sink.http_requests@, code, k);
                    }
                    if has_code(sink.http_requests@, code) {
                        let k = code_idx(sink.http_requests@, code);
                        lemma_code_idx(pre, code, k);
                    }
                }
            }
            return ;
        }
        i = i + 1;
    }
    sink.http_requests.push((status_code, 1u64));
    proof {
        assert(unique_codes(sink.http_requests@));
        lemma_code_idx(sink.http_requests@, status_code, pre.len() as int);
        assert forall|code: u16|
            code != status_code implies code_count(sink.http_requests@, code) == code_count(
            pre,
            code,
        ) by {
            if has_code(pre, code) {
                let k = code_idx(pre, code);
                lemma_code_idx(sink.http_requests@, code, k);
            }
            if has_code(sink.http_requests@, code) {
                let k = code_idx(sink.http_requests@, code);
                assert(0 <= k < pre.len());
                lemma_code_idx(pre, code, k);
            }
        }
    }
}

/// Bump `jobs_kafka_messages_total`, leaving everything else alone.
pub fn increment_kafka_messages(sink: &mut MetricsSink)
    requires
        old(sink).wf(),
    ensures
        final(sink).wf(),
        final(sink).kafka_messages_view() == bumped_u64(old(sink).kafka_messages_view()),
        final(sink).jobs_processed_view() == old(sink).jobs_processed_view(),
        final(sink).http_requests_view() == old(sink).http_requests_view(),
        final(sink).current_processing_view() == old(sink).current_processing_view(),
{
    if sink.kafka_messages < u64::MAX {
        sink.kafka_messages = sink.kafka_messages + 1;
    }
}

/// Set the `current_processing_jobs` gauge, leaving the counters alone.
pub fn set_current_processing_jobs(sink: &mut MetricsSink, count: i64)
    requires
        old(sink).wf(),
    ensures
        final(sink).wf(),
        final(sink).current_processing_view() == count,
        final(sink).jobs_processed_view() == old(sink).jobs_processed_view(),
        final(sink).http_requests_view() == old(sink).http_requests_view(),
        final(sink).kafka_messages_view() == old(sink).kafka_messages_view(),
{
    sink.current_processing = count;
}

/// Raise the `current_processing_jobs` gauge by one, saturating.
pub fn increment_current_processing_jobs(sink: &mut MetricsSink)
    requires
        old(sink).wf(),
    ensures
        final(sink).wf(),
        final(sink).current_processing_view() == (if old(sink).current_processing_view()
            == i64::MAX {
            i64::MAX as int
        } else {
            old(sink).current_processing_view() + 1
        }),
        final(sink).jobs_processed_view() == old(sink).jobs_processed_view(),
        final(sink).http_requests_view() == old(sink).http_requests_view(),
        final(sink).kafka_messages_view() == old(sink).kafka_messages_view(),
{
    if sink.current_processing < i64::MAX {
        sink.current_processing = sink.current_processing + 1;
    }
}

/// Lower the `current_processing_jobs` gauge by one, saturating.
pub fn decrement_current_processing_jobs(sink: &mut MetricsSink)
    requires
        old(sink).wf(),
    ensures
        final(sink).wf(),
        final(sink).current_processing_view() == (if old(sink).current_processing_view()
            == i64::MIN {
            i64::MIN as int
        } else {
            old(sink).current_processing_view() - 1
        }),
        final(sink).jobs_processed_view() == old(sink).jobs_processed_view(),
        final(sink).http_requests_view() == old(sink).http_requests_view(),
        final(sink).kafka_messages_view() == old(sink).kafka_messages_view(),
{
    if sink.current_processing > i64::MIN {
        sink.current_processing = sink.current_processing - 1;
    }
}

} // verus!
