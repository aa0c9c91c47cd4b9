//! Batched execution: an ordered group of requests, run with bounded
//! concurrency, whose results are folded back into input order.
//!
//! Construction is staged: a builder accumulates requests, then a
//! concurrency bound is chosen, then a connection is attached; only the
//! fully staged value can start a run. The run itself is a step machine —
//! the caller admits one request at a time and reports each completion —
//! whose invariant bounds how many admitted requests are still unresolved.

use vstd::prelude::*;

use crate::codec::spec_encoding;
use crate::rest::LcuClient;
use crate::rest::Method;
use crate::rest::PreparedRequest;
use crate::Error;
use crate::SerializeFormat;

verus! {

/// The request shapes a batch can hold; bodies are pre-encoded document
/// values, so one batch can mix bodies of different origins.
pub enum RequestType {
    Delete,
    Get,
    Patch(Option<serde_json::Value>),
    Post(Option<serde_json::Value>),
    Put(Option<serde_json::Value>),
}

impl RequestType {
    /// The HTTP method this request shape uses.
    pub open spec fn spec_method(&self) -> Method {
        match self {
            RequestType::Delete => Method::Delete,
            RequestType::Get => Method::Get,
            RequestType::Patch(_) => Method::Patch,
            RequestType::Post(_) => Method::Post,
            RequestType::Put(_) => Method::Put,
        }
    }

    pub fn method(&self) -> (r: Method)
        ensures
            r == self.spec_method(),
    {
        match self {
            RequestType::Delete => Method::Delete,
            RequestType::Get => Method::Get,
            RequestType::Patch(_) => Method::Patch,
            RequestType::Post(_) => Method::Post,
            RequestType::Put(_) => Method::Put,
        }
    }

    /// The body carried by this request shape, if any.
    pub open spec fn spec_body(&self) -> Option<serde_json::Value> {
        match self {
            RequestType::Delete => None,
            RequestType::Get => None,
            RequestType::Patch(b) => *b,
            RequestType::Post(b) => *b,
            RequestType::Put(b) => *b,
        }
    }

    pub fn body_ref(&self) -> (r: Option<&serde_json::Value>)
        ensures
            r is Some <==> self.spec_body() is Some,
            r matches Some(b) ==> self.spec_body() == Some(*b),
    {
        match self {
            RequestType::Delete => None,
            RequestType::Get => None,
            RequestType::Patch(b) => b.as_ref(),
            RequestType::Post(b) => b.as_ref(),
            RequestType::Put(b) => b.as_ref(),
        }
    }
}

/// One batched request: its shape and its endpoint.
pub struct Request {
    pub request_type: RequestType,
    pub endpoint: String,
}

impl Request {
    /// A batched request of the given shape for the given endpoint.
    pub fn new(request_type: RequestType, endpoint: String) -> (r: Self)
        ensures
            r.request_type == request_type,
            r.endpoint@ == endpoint@,
    {
        Request { request_type, endpoint }
    }

    pub fn delete(endpoint: String) -> (r: Self)
        ensures
            r.request_type == RequestType::Delete,
            r.endpoint@ == endpoint@,
    {
        Self::new(RequestType::Delete, endpoint)
    }

    pub fn get(endpoint: String) -> (r: Self)
        ensures
            r.request_type == RequestType::Get,
            r.endpoint@ == endpoint@,
    {
        Self::new(RequestType::Get, endpoint)
    }

    pub fn patch(endpoint: String, body: Option<serde_json::Value>) -> (r: Self)
        ensures
            r.request_type == RequestType::Patch(body),
            r.endpoint@ == endpoint@,
    {
        Self::new(RequestType::Patch(body), endpoint)
    }

    pub fn put(endpoint: String, body: Option<serde_json::Value>) -> (r: Self)
        ensures
            r.request_type == RequestType::Put(body),
            r.endpoint@ == endpoint@,
    {
        Self::new(RequestType::Put(body), endpoint)
    }

    pub fn post(endpoint: String, body: Option<serde_json::Value>) -> (r: Self)
        ensures
            r.request_type == RequestType::Post(body),
            r.endpoint@ == endpoint@,
    {
        Self::new(RequestType::Post(body), endpoint)
    }
}

/// Start of the staged construction of a batch. The stages come in a fixed
/// order — requests are accumulated, then a concurrency bound is chosen,
/// then a connection is attached — and each stage is a distinct type, so a
/// batch whose stages are incomplete cannot be started at all.
pub struct Builder;

impl Builder {
    pub fn new() -> (r: Self)
        ensures
            r == Builder,
    {
        Builder
    }

    /// Move to the request-accumulation stage. The transport client itself
    /// lives with the caller; it is committed from this point on and is
    /// supplied again when the batch is driven.
    pub fn with_client(self) -> (r: WithClient)
        ensures
            r.spec_requests().len() == 0,
    {
        WithClient { requests: Vec::new() }
    }

    /// Like `with_client`, with room for `capacity` requests reserved.
    pub fn with_client_and_capacity(self, capacity: usize) -> (r: WithClient)
        ensures
            r.spec_requests().len() == 0,
    {
        WithClient { requests: Vec::with_capacity(capacity) }
    }
}

impl Default for Builder {
    fn default() -> (r: Self)
        ensures
            r == Builder,
    {
        Builder
    }
}

/// Request-accumulation stage: requests are appended in the order they will
/// be reported in the results.
pub struct WithClient {
    requests: Vec<Request>,
}

impl WithClient {
    /// The requests accumulated so far, in order.
    pub closed spec fn spec_requests(&self) -> Seq<Request> {
        self.requests@
    }

    /// Append one request and keep building.
    pub fn request(self, request: Request) -> (r: Self)
        ensures
            r.spec_requests() == self.spec_requests().push(request),
    {
        let mut s = self;
        s.requests.push(request);
        s
    }

    /// Append one request in place.
    pub fn add_request(&mut self, request: Request)
        ensures
            final(self).spec_requests() == old(self).spec_requests().push(request),
    {
        self.requests.push(request);
    }

    /// Choose the concurrency bound and move to the next stage. A bound of
    /// zero could never admit a request, so it is a contract violation.
    pub fn with_buffer_size(self, buffer_size: usize) -> (r: WithBufferSize)
        requires
            buffer_size >= 1,
        ensures
            r.spec_requests() == self.spec_requests(),
            r.spec_buffer_size() == buffer_size,
            r.wf(),
    {
        WithBufferSize { requests: self.requests, buffer_size }
    }
}

/// Concurrency-bound stage: the requests and the bound are fixed; only the
/// target connection is still missing.
pub struct WithBufferSize {
    requests: Vec<Request>,
    buffer_size: usize,
}

impl WithBufferSize {
    pub closed spec fn spec_requests(&self) -> Seq<Request> {
        self.requests@
    }

    pub closed spec fn spec_buffer_size(&self) -> nat {
        self.buffer_size as nat
    }

    pub open spec fn wf(&self) -> bool {
        self.spec_buffer_size() >= 1
    }

    /// Attach the target connection; the batch is now fully staged.
    pub fn with_lcu_client(self, lcu_client: &LcuClient) -> (r: WithLcuClient)
        requires
            self.wf(),
        ensures
            r.spec_requests() == self.spec_requests(),
            r.spec_buffer_size() == self.spec_buffer_size(),
            r.spec_client() == *lcu_client,
            r.wf(),
    {
        WithLcuClient {
            requests: self.requests,
            buffer_size: self.buffer_size,
            lcu_client: lcu_client.duplicate(),
        }
    }
}

/// Fully staged batch: requests, concurrency bound and target connection.
/// From here the caller can prepare each request for the wire and drive a
/// [`BatchRun`] to completion.
pub struct WithLcuClient {
    requests: Vec<Request>,
    buffer_size: usize,
    lcu_client: LcuClient,
}

impl WithLcuClient {
    pub closed spec fn spec_requests(&self) -> Seq<Request> {
        self.requests@
    }

    pub closed spec fn spec_buffer_size(&self) -> nat {
        self.buffer_size as nat
    }

    pub closed spec fn spec_client(&self) -> LcuClient {
        self.lcu_client
    }

    pub open spec fn wf(&self) -> bool {
        self.spec_buffer_size() >= 1
    }

    /// How many requests the batch holds.
    pub fn len(&self) -> (r: usize)
        ensures
            r == self.spec_requests().len(),
    {
        self.requests.len()
    }

    /// The transport-ready form of request `index`: its own method and
    /// body, the batch's connection, JSON-coded. Preparation of a batched
    /// request always succeeds.
    pub fn prepare_item(&self, index: usize) -> (r: PreparedRequest)
        requires
            index < self.spec_requests().len(),
        ensures
            r.method == self.spec_requests()[index as int].request_type.spec_method(),
            r.uri@ == self.spec_client().spec_request_uri(
                self.spec_requests()[index as int].endpoint@,
            ),
            r.auth_header matches Some(a) && a@ == self.spec_client().spec_auth_header(),
            r.format == SerializeFormat::Json,
            (r.body is Some <==> self.spec_requests()[
                index as int
            ].request_type.spec_body() is Some),
            (self.spec_requests()[index as int].request_type.spec_body() matches Some(v)
                ==> r.body matches Some(b) && b@ == spec_encoding(v, SerializeFormat::Json)),
    {
        let req = &self.requests[index];
        let method = req.request_type.method();
        let body = req.request_type.body_ref();
        let prepared = self.lcu_client.prepare_request(
            method,
            req.endpoint.as_str(),
            body,
            SerializeFormat::Json,
        );
        match prepared {
            Ok(p) => p,
            Err(_) => vstd::pervasive::unreached(),
        }
    }

    /// Start the run: nothing admitted, nothing resolved, one result slot
    /// per request, the staged concurrency bound in force.
    pub fn start(&self) -> (r: BatchRun)
        requires
            self.wf(),
        ensures
            r.inv(),
            r.spec_len() == self.spec_requests().len(),
            r.spec_bound() == self.spec_buffer_size(),
            r.spec_started() == 0,
            r.spec_completed() == 0,
            forall|i: int| 0 <= i < r.spec_len() ==> r.spec_results()[i] is None,
    {
        BatchRun::new(self.requests.len(), self.buffer_size)
    }
}

/// How many slots of a result table are already resolved.
pub open spec fn resolved_count<T>(s: Seq<Option<T>>) -> nat
    decreases s.len(),
{
    if s.len() == 0 {
        0
    } else {
        resolved_count(s.drop_last()) + if s.last() is Some {
            1nat
        } else {
            0nat
        }
    }
}

proof fn lemma_resolved_le_len<T>(s: Seq<Option<T>>)
    ensures
        resolved_count(s) <= s.len(),
    decreases s.len(),
{
    if s.len() > 0 {
        lemma_resolved_le_len(s.drop_last());
    }
}

proof fn lemma_resolved_full<T>(s: Seq<Option<T>>)
    requires
        resolved_count(s) == s.len(),
    ensures
        forall|i: int| 0 <= i < s.len() ==> s[i] is Some,
    decreases s.len(),
{
    if s.len() > 0 {
        lemma_resolved_le_len(s.drop_last());
        lemma_resolved_full(s.drop_last());
        assert forall|i: int| 0 <= i < s.len() implies s[i] is Some by {
            if i < s.len() - 1 {
                assert(s[i] == s.drop_last()[i]);
            }
        }
    }
}

proof fn lemma_resolved_all_none<T>(s: Seq<Option<T>>)
    requires
        forall|i: int| 0 <= i < s.len() ==> s[i] is None,
    ensures
        resolved_count(s) == 0,
    decreases s.len(),
{
    if s.len() > 0 {
        assert forall|i: int| 0 <= i < s.drop_last().len() implies s.drop_last()[i] is None by {
            assert(s.drop_last()[i] == s[i]);
        }
        lemma_resolved_all_none(s.drop_last());
        assert(s.last() is None);
    }
}

proof fn lemma_resolved_prefix_missing<T>(s: Seq<Option<T>>, started: int, index: int)
    requires
        0 <= index < started <= s.len(),
        s[index] is None,
        forall|j: int| started <= j < s.len() ==> s[j] is None,
    ensures
        resolved_count(s) < started,
    decreases s.len(),
{
    if s.len() > started {
        assert(s.last() is None);
        assert(s.drop_last()[index] == s[index]);
        assert forall|j: int| started <= j < s.drop_last().len() implies s.drop_last()[j]
            is None by {
            assert(s.drop_last()[j] == s[j]);
        }
        lemma_resolved_prefix_missing(s.drop_last(), started, index);
    } else {
        if index == s.len() - 1 {
            lemma_resolved_le_len(s.drop_last());
            assert(s.last() is None);
        } else {
            assert(s.drop_last()[index] == s[index]);
            lemma_resolved_prefix_missing(s.drop_last(), started - 1, index);
        }
    }
}

proof fn lemma_resolved_update<T>(s: Seq<Option<T>>, i: int, v: T)
    requires
        0 <= i < s.len(),
        s[i] is None,
    ensures
        resolved_count(s.update(i, Some(v))) == resolved_count(s) + 1,
    decreases s.len(),
{
    let t = s.update(i, Some(v));
    if i == s.len() - 1 {
        assert(t.drop_last() =~= s.drop_last());
        assert(t.last() is Some);
        assert(s.last() is None);
    } else {
        assert(t.drop_last() =~= s.drop_last().update(i, Some(v)));
        assert(t.last() == s.last());
        lemma_resolved_update(s.drop_last(), i, v);
    }
}

/// The effect one completion has on a result table: slot `i` is resolved
/// with `v`, every other slot is untouched.
pub open spec fn complete_spec<T>(s: Seq<Option<T>>, i: int, v: T) -> Seq<Option<T>> {
    s.update(i, Some(v))
}

/// Failure isolation: resolving slot `j` — with a failure as much as with a
/// success — leaves every other slot's entry exactly as it was.
pub proof fn lemma_complete_isolated<T>(s: Seq<Option<T>>, j: int, v: T, i: int)
    requires
        0 <= j < s.len(),
        0 <= i < s.len(),
        i != j,
    ensures
        complete_spec(s, j, v)[i] == s[i],
{
}

/// Order independence: two completions of distinct slots land in the same
/// result table whichever of them resolves first, so the table the run ends
/// with depends only on which result each input produced, never on
/// completion timing.
pub proof fn lemma_complete_commutes<T>(s: Seq<Option<T>>, i: int, vi: T, j: int, vj: T)
    requires
        0 <= i < s.len(),
        0 <= j < s.len(),
        i != j,
    ensures
        complete_spec(complete_spec(s, i, vi), j, vj) == complete_spec(
            complete_spec(s, j, vj),
            i,
            vi,
        ),
{
    assert(complete_spec(complete_spec(s, i, vi), j, vj) =~= complete_spec(
        complete_spec(s, j, vj),
        i,
        vi,
    ));
}

/// The table a whole schedule of completions leaves behind, applied in
/// schedule order.
pub open spec fn apply_completions<T>(s: Seq<Option<T>>, steps: Seq<(int, T)>) -> Seq<Option<T>>
    decreases steps.len(),
{
    if steps.len() == 0 {
        s
    } else {
        apply_completions(complete_spec(s, steps[0].0, steps[0].1), steps.drop_first())
    }
}

proof fn lemma_apply_len<T>(s: Seq<Option<T>>, steps: Seq<(int, T)>)
    requires
        forall|k: int| 0 <= k < steps.len() ==> 0 <= (#[trigger] steps[k]).0 < s.len(),
    ensures
        apply_completions(s, steps).len() == s.len(),
    decreases steps.len(),
{
    if steps.len() > 0 {
        let t = complete_spec(s, steps[0].0, steps[0].1);
        assert forall|k: int| 0 <= k < steps.drop_first().len() implies 0 <= (
        #[trigger] steps.drop_first()[k]).0 < t.len() by {
            assert(steps.drop_first()[k] == steps[k + 1]);
        }
        lemma_apply_len(t, steps.drop_first());
    }
}

proof fn lemma_apply_slot_untouched<T>(s: Seq<Option<T>>, steps: Seq<(int, T)>, i: int)
    requires
        0 <= i < s.len(),
        forall|k: int| 0 <= k < steps.len() ==> 0 <= (#[trigger] steps[k]).0 < s.len(),
        forall|k: int| 0 <= k < steps.len() ==> (#[trigger] steps[k]).0 != i,
    ensures
        apply_completions(s, steps)[i] == s[i],
    decreases steps.len(),
{
    if steps.len() > 0 {
        let t = complete_spec(s, steps[0].0, steps[0].1);
        assert(t[i] == s[i]);
        assert forall|k: int| 0 <= k < steps.drop_first().len() implies 0 <= (
        #[trigger] steps.drop_first()[k]).0 < t.len() && steps.drop_first()[k].0 != i by {
            assert(steps.drop_first()[k] == steps[k + 1]);
        }
        lemma_apply_slot_untouched(t, steps.drop_first(), i);
    }
}

proof fn lemma_apply_slot_set<T>(s: Seq<Option<T>>, steps: Seq<(int, T)>, i: int, k: int)
    requires
        0 <= i < s.len(),
        forall|m: int| 0 <= m < steps.len() ==> 0 <= (#[trigger] steps[m]).0 < s.len(),
        0 <= k < steps.len(),
        steps[k].0 == i,
        forall|m: int| 0 <= m < steps.len() && m != k ==> (#[trigger] steps[m]).0 != i,
    ensures
        apply_completions(s, steps)[i] == Some(steps[k].1),
    decreases steps.len(),
{
    let t = complete_spec(s, steps[0].0, steps[0].1);
    assert forall|m: int| 0 <= m < steps.drop_first().len() implies 0 <= (
    #[trigger] steps.drop_first()[m]).0 < t.len() by {
        assert(steps.drop_first()[m] == steps[m + 1]);
    }
    if k == 0 {
        assert(t[i] == Some(steps[0].1));
        assert forall|m: int| 0 <= m < steps.drop_first().len() implies (
        #[trigger] steps.drop_first()[m]).0 != i by {
            assert(steps.drop_first()[m] == steps[m + 1]);
        }
        lemma_apply_slot_untouched(t, steps.drop_first(), i);
    } else {
        assert(t[i] == s[i]);
        assert(steps.drop_first()[k - 1] == steps[k]);
        assert forall|m: int| 0 <= m < steps.drop_first().len() && m != k - 1 implies (
        #[trigger] steps.drop_first()[m]).0 != i by {
            assert(steps.drop_first()[m] == steps[m + 1]);
        }
        lemma_apply_slot_set(t, steps.drop_first(), i, k - 1);
    }
}

/// Completion timing is immaterial: two schedules that resolve the same
/// slots with the same outcomes — each slot at most once — leave exactly
/// the same result table, whatever order their completions arrived in.
pub proof fn lemma_apply_completions_order_free<T>(
    s: Seq<Option<T>>,
    steps1: Seq<(int, T)>,
    steps2: Seq<(int, T)>,
)
    requires
        forall|k: int| 0 <= k < steps1.len() ==> 0 <= (#[trigger] steps1[k]).0 < s.len(),
        forall|k: int| 0 <= k < steps2.len() ==> 0 <= (#[trigger] steps2[k]).0 < s.len(),
        forall|k: int, m: int|
            0 <= k < m < steps1.len() ==> (#[trigger] steps1[k]).0 != (#[trigger] steps1[m]).0,
        forall|k: int, m: int|
            0 <= k < m < steps2.len() ==> (#[trigger] steps2[k]).0 != (#[trigger] steps2[m]).0,
        forall|p: (int, T)| steps1.contains(p) <==> steps2.contains(p),
    ensures
        apply_completions(s, steps1) == apply_completions(s, steps2),
{
    lemma_apply_len(s, steps1);
    lemma_apply_len(s, steps2);
    assert forall|i: int|
        0 <= i < s.len() implies apply_completions(s, steps1)[i] == apply_completions(
        s,
        steps2,
    )[i] by {
        if exists|k: int| 0 <= k < steps1.len() && (#[trigger] steps1[k]).0 == i {
            let k1 = choose|k: int| 0 <= k < steps1.len() && (#[trigger] steps1[k]).0 == i;
            assert(steps1.contains(steps1[k1]));
            assert(steps2.contains(steps1[k1]));
            let k2 = choose|k: int| 0 <= k < steps2.len() && steps2[k] == steps1[k1];
            assert forall|m: int|
                0 <= m < steps1.len() && m != k1 implies (#[trigger] steps1[m]).0 != i by {
                if m < k1 {
                    assert(steps1[m].0 != steps1[k1].0);
                }
            }
            assert forall|m: int|
                0 <= m < steps2.len() && m != k2 implies (#[trigger] steps2[m]).0 != i by {
                if m < k2 {
                    assert(steps2[m].0 != steps2[k2].0);
                }
            }
            lemma_apply_slot_set(s, steps1, i, k1);
            lemma_apply_slot_set(s, steps2, i, k2);
        } else {
            assert forall|m: int| 0 <= m < steps2.len() implies (#[trigger] steps2[m]).0
                != i by {
                if steps2[m].0 == i {
                    assert(steps2.contains(steps2[m]));
                    assert(steps1.contains(steps2[m]));
                    let w = choose|k: int| 0 <= k < steps1.len() && steps1[k] == steps2[m];
                    assert(steps1[w].0 == i);
                }
            }
            lemma_apply_slot_untouched(s, steps1, i);
            lemma_apply_slot_untouched(s, steps2, i);
        }
    }
    assert(apply_completions(s, steps1) =~= apply_completions(s, steps2));
}

/// One in-progress batched run: which requests have been admitted, which
/// have resolved, and each input's result in its own slot.
///
/// The caller drives it: `start_next` admits the next request in input
/// order (refused while `bound` admitted requests are still unresolved),
/// and `complete` resolves one admitted request. Results only ever land in
/// the slot of the request they belong to.
pub struct BatchRun {
    bound: usize,
    started: usize,
    completed: usize,
    results: Vec<Option<Result<Option<serde_json::Value>, Error>>>,
}

impl BatchRun {
    /// How many requests the run holds.
    pub closed spec fn spec_len(&self) -> nat {
        self.results@.len()
    }

    /// The concurrency bound the run was started with.
    pub closed spec fn spec_bound(&self) -> nat {
        self.bound as nat
    }

    /// How many requests have been admitted so far.
    pub closed spec fn spec_started(&self) -> nat {
        self.started as nat
    }

    /// How many admitted requests have resolved so far.
    pub closed spec fn spec_completed(&self) -> nat {
        self.completed as nat
    }

    /// The result table: one slot per input, `None` until that input
    /// resolves.
    pub closed spec fn spec_results(&self) -> Seq<
        Option<Result<Option<serde_json::Value>, Error>>,
    > {
        self.results@
    }

    /// How many admitted requests are still unresolved.
    pub open spec fn spec_in_flight(&self) -> int {
        self.spec_started() - self.spec_completed()
    }

    /// The run's invariant. In particular, at no point are more than
    /// `bound` admitted requests still unresolved, and a request that was
    /// never admitted has no result yet.
    pub open spec fn inv(&self) -> bool {
        &&& 1 <= self.spec_bound()
        &&& self.spec_started() <= self.spec_len()
        &&& self.spec_completed() == resolved_count(self.spec_results())
        &&& self.spec_completed() <= self.spec_started()
        &&& self.spec_in_flight() <= self.spec_bound()
        &&& forall|i: int|
            self.spec_started() <= i < self.spec_len() ==> self.spec_results()[i] is None
    }

    /// The unresolved-slot bound, in terms of the result table itself: the
    /// number of admitted requests whose slot is still unresolved never
    /// exceeds the concurrency bound.
    pub proof fn lemma_bounded_in_flight(&self)
        requires
            self.inv(),
        ensures
            self.spec_started() - resolved_count(self.spec_results()) <= self.spec_bound(),
    {
    }

    /// A fresh run over `n` requests with concurrency bound `bound`:
    /// nothing admitted, nothing resolved.
    pub fn new(n: usize, bound: usize) -> (r: BatchRun)
        requires
            bound >= 1,
        ensures
            r.inv(),
            r.spec_len() == n,
            r.spec_bound() == bound,
            r.spec_started() == 0,
            r.spec_completed() == 0,
            forall|i: int| 0 <= i < n ==> r.spec_results()[i] is None,
    {
        let mut results: Vec<Option<Result<Option<serde_json::Value>, Error>>> =
            Vec::with_capacity(n);
        while results.len() < n
            invariant
                results@.len() <= n,
                forall|i: int| 0 <= i < results@.len() ==> results@[i] is None,
            decreases n - results.len(),
        {
            results.push(None);
        }
        proof {
            lemma_resolved_all_none(results@);
        }
        BatchRun { bound, started: 0, completed: 0, results }
    }

    /// Whether the run may admit another request: input remains and fewer
    /// than `bound` admitted requests are unresolved.
    pub fn can_start(&self) -> (r: bool)
        requires
            self.inv(),
        ensures
            r == (self.spec_started() < self.spec_len() && self.spec_in_flight()
                < self.spec_bound()),
    {
        self.started < self.results.len() && self.started - self.completed < self.bound
    }

    /// Admit the next request, in input order; its index is returned.
    pub fn start_next(&mut self) -> (index: usize)
        requires
            old(self).inv(),
            old(self).spec_started() < old(self).spec_len(),
            old(self).spec_in_flight() < old(self).spec_bound(),
        ensures
            final(self).inv(),
            index == old(self).spec_started(),
            final(self).spec_started() == old(self).spec_started() + 1,
            final(self).spec_completed() == old(self).spec_completed(),
            final(self).spec_results() == old(self).spec_results(),
            final(self).spec_bound() == old(self).spec_bound(),
            final(self).spec_len() == old(self).spec_len(),
    {
        let index = self.started;
        let n = self.results.len();
        assert(index < n);
        self.started = index + 1;
        index
    }

    /// Resolve the admitted request `index` with its outcome. Exactly slot
    /// `index` changes; a failure outcome affects no sibling's slot.
    pub fn complete(
        &mut self,
        index: usize,
        outcome: Result<Option<serde_json::Value>, Error>,
    )
        requires
            old(self).inv(),
            index < old(self).spec_started(),
            old(self).spec_results()[index as int] is None,
        ensures
            final(self).inv(),
            final(self).spec_results() == complete_spec(
                old(self).spec_results(),
                index as int,
                outcome,
            ),
            final(self).spec_started() == old(self).spec_started(),
            final(self).spec_completed() == old(self).spec_completed() + 1,
            final(self).spec_bound() == old(self).spec_bound(),
            final(self).spec_len() == old(self).spec_len(),
    {
        proof {
            lemma_resolved_prefix_missing(
                self.results@,
                self.started as int,
                index as int,
            );
            lemma_resolved_update(self.results@, index as int, outcome);
        }
        self.results.set(index, Some(outcome));
        self.completed = self.completed + 1;
    }

    /// Whether every request has resolved.
    pub fn is_done(&self) -> (r: bool)
        requires
            self.inv(),
        ensures
            r == (self.spec_completed() == self.spec_len()),
            r ==> forall|i: int| 0 <= i < self.spec_len() ==> self.spec_results()[i] is Some,
    {
        proof {
            if self.completed == self.results@.len() {
                lemma_resolved_full(self.spec_results());
            }
        }
        self.completed == self.results.len()
    }

    /// The finished run's results, in input order: the i-th element is
    /// exactly the outcome that was reported for the i-th request.
    pub fn into_results(self) -> (r: Vec<Result<Option<serde_json::Value>, Error>>)
        requires
            self.inv(),
            self.spec_completed() == self.spec_len(),
        ensures
            r@.len() == self.spec_len(),
            forall|i: int| 0 <= i < r@.len() ==> self.spec_results()[i] == Some(r@[i]),
    {
        proof {
            lemma_resolved_full(self.spec_results());
        }
        let ghost orig = self.spec_results();
        let mut v = self.results;
        let mut out: Vec<Result<Option<serde_json::Value>, Error>> = Vec::new();
        while v.len() > 0
            invariant
                out@.len() + v@.len() == orig.len(),
                forall|i: int| 0 <= i < out@.len() ==> orig[i] == Some(out@[i]),
                forall|j: int| 0 <= j < v@.len() ==> orig[out@.len() + j] == v@[j],
                forall|j: int| 0 <= j < v@.len() ==> v@[j] is Some,
            decreases v@.len(),
    {
            let x = v.remove(0);
            match x {
                Some(r) => out.push(r),
                None => vstd::pervasive::unreached(),
            }
        }
        out
    }
}

} // verus!
