//! The constrained outcall transport: request construction, the pre-call
//! cost estimate and budget gate, the response-size cap, the normalizing
//! transform that strips headers, and batch assembly. The asynchronous
//! call itself lives outside the library; everything decided before and
//! after it is verified here.

use vstd::prelude::*;

verus! {

use crate::{TransportError, BudgetError};

/// Response-size cap applied when a caller names none.
pub const DEFAULT_MAX_RESPONSE_BYTES: u64 = 500_000;

/// Fixed cost of receiving the ingress message that funds a call.
pub const INGRESS_BASE_CYCLES: u128 = 1_200_000;

/// Cost per byte received in the ingress message.
pub const INGRESS_BYTE_CYCLES: u128 = 2_000;

/// Fixed cost of one outbound HTTP call.
pub const OUTCALL_BASE_CYCLES: u128 = 400_000_000;

/// Cost per byte sent or admitted in response to an outbound call.
pub const OUTCALL_BYTE_CYCLES: u128 = 100_000;

/// Fixed safety margin kept on top of the measured consumption.
pub const SERVICE_FEE_CYCLES: u128 = 100_000_000;

/// One request header.
#[derive(Debug, Clone)]
pub struct HttpHeader {
    pub name: String,
    pub value: String,
}

/// The outcall verbs the channel accepts.
#[derive(Debug, Clone, Copy, PartialEq, Eq, Structural)]
pub enum HttpMethod {
    Get,
    Post,
    Head,
}

/// One assembled outbound request: plain values, ready for the channel.
#[derive(Debug, Clone)]
pub struct HttpRequest {
    pub url: String,
    pub method: HttpMethod,
    pub headers: Vec<HttpHeader>,
    pub body: Vec<u8>,
    pub max_response_bytes: u64,
}

/// One response as the channel hands it back.
#[derive(Debug, Clone)]
pub struct HttpResponse {
    pub status: u64,
    pub headers: Vec<HttpHeader>,
    pub body: Vec<u8>,
}

/// Mathematical image of a response.
pub struct HttpResponseView {
    pub status: u64,
    pub headers: Seq<(Seq<char>, Seq<char>)>,
    pub body: Seq<u8>,
}

impl View for HttpResponse {
    type V = HttpResponseView;

    open spec fn view(&self) -> HttpResponseView {
        HttpResponseView {
            status: self.status,
            headers: self.headers@.map_values(|h: HttpHeader| (h.name@, h.value@)),
            body: self.body@,
        }
    }
}

/// A JSON-RPC-over-HTTP client bound to a response-size cap.
#[derive(Debug, Clone)]
pub struct ICHttpClient {
    pub max_response_bytes: u64,
}

impl ICHttpClient {
    /// A client with the given cap, or the default when none is named.
    pub fn new(max_resp: Option<u64>) -> (r: ICHttpClient)
        ensures
            r.max_response_bytes == (match max_resp {
                Some(v) => v,
                None => DEFAULT_MAX_RESPONSE_BYTES,
            }),
    {
        ICHttpClient {
            max_response_bytes: if let Some(v) = max_resp {
                v
            } else {
                DEFAULT_MAX_RESPONSE_BYTES
            },
        }
    }

    /// Replaces the client's response-size cap.
    pub fn set_max_response_bytes(&mut self, v: u64)
        ensures
            final(self).max_response_bytes == v,
    {
        self.max_response_bytes = v;
    }

    /// The cap one call runs under: the per-call override, or the client's.
    pub fn resolve_max_response_bytes(&self, max_resp: Option<u64>) -> (r: u64)
        ensures
            r == (match max_resp {
                Some(v) => v,
                None => self.max_response_bytes,
            }),
    {
        match max_resp {
            Some(v) => v,
            None => self.max_response_bytes,
        }
    }

    /// Assembles one outbound request: the given verb and body, the fixed
    /// `Content-Type: application/json` header, and the resolved cap.
    pub fn build_request(
        &self,
        url: String,
        method: HttpMethod,
        body: Vec<u8>,
        max_resp: Option<u64>,
    ) -> (r: HttpRequest)
        ensures
            r.url@ == url@,
            r.method == method,
            r.headers@.len() == 1,
            r.headers@[0].name@ == "Content-Type"@,
            r.headers@[0].value@ == "application/json"@,
            r.body@ == body@,
            r.max_response_bytes == (match max_resp {
                Some(v) => v,
                None => self.max_response_bytes,
            }),
    {
        let mut headers: Vec<HttpHeader> = Vec::new();
        headers.push(
            HttpHeader {
                name: "Content-Type".to_owned(),
                value: "application/json".to_owned(),
            },
        );
        let max_response_bytes = self.resolve_max_response_bytes(max_resp);
        HttpRequest { url, method, headers, body, max_response_bytes }
    }

    /// The request a `get` dispatches.
    pub fn get_request(&self, url: String, body: Vec<u8>, max_resp: Option<u64>) -> (r:
        HttpRequest)
        ensures
            r.url@ == url@ && r.method == HttpMethod::Get && r.body@ == body@,
            r.headers@.len() == 1 && r.headers@[0].name@ == "Content-Type"@
                && r.headers@[0].value@ == "application/json"@,
            r.max_response_bytes == (match max_resp {
                Some(v) => v,
                None => self.max_response_bytes,
            }),
    {
        self.build_request(url, HttpMethod::Get, body, max_resp)
    }

    /// The request a `post` dispatches.
    pub fn post_request(&self, url: String, body: Vec<u8>, max_resp: Option<u64>) -> (r:
        HttpRequest)
        ensures
            r.url@ == url@ && r.method == HttpMethod::Post && r.body@ == body@,
            r.headers@.len() == 1 && r.headers@[0].name@ == "Content-Type"@
                && r.headers@[0].value@ == "application/json"@,
            r.max_response_bytes == (match max_resp {
                Some(v) => v,
                None => self.max_response_bytes,
            }),
    {
        self.build_request(url, HttpMethod::Post, body, max_resp)
    }
}

/// The pre-call cost estimate: a fixed ingress cost, a per-byte ingress
/// cost on the request, a fixed outcall cost, a per-byte cost on the
/// request plus the largest admissible response, and the safety margin.
pub open spec fn spec_estimate_cycles(request_len: nat, max_response_bytes: nat) -> nat {
    (INGRESS_BASE_CYCLES as nat) + (INGRESS_BYTE_CYCLES as nat) * request_len
        + (OUTCALL_BASE_CYCLES as nat) + (OUTCALL_BYTE_CYCLES as nat) * (request_len
        + max_response_bytes) + (SERVICE_FEE_CYCLES as nat)
}

/// Computes the pre-call cost estimate.
pub fn estimate_cycles(request_len: usize, max_response_bytes: u64) -> (r: u128)
    ensures
        r == spec_estimate_cycles(request_len as nat, max_response_bytes as nat),
{
    proof {
        assert((INGRESS_BYTE_CYCLES as nat) * (request_len as nat) <= 2_000 * 0xFFFF_FFFF_FFFF_FFFF)
            by (nonlinear_arith)
            requires request_len <= 0xFFFF_FFFF_FFFF_FFFF;
        assert((OUTCALL_BYTE_CYCLES as nat) * ((request_len as nat) + (max_response_bytes as nat))
            <= 100_000 * (2 * 0xFFFF_FFFF_FFFF_FFFF)) by (nonlinear_arith)
            requires
                request_len <= 0xFFFF_FFFF_FFFF_FFFF,
                max_response_bytes <= 0xFFFF_FFFF_FFFF_FFFF,
        ;
    }
    INGRESS_BASE_CYCLES + INGRESS_BYTE_CYCLES * (request_len as u128) + OUTCALL_BASE_CYCLES
        + OUTCALL_BYTE_CYCLES * ((request_len as u128) + (max_response_bytes as u128))
        + SERVICE_FEE_CYCLES
}

/// The cost estimate never falls when the request grows or the response
/// cap rises: it is monotonically non-decreasing in both.
pub proof fn lemma_estimate_monotone(n1: nat, m1: nat, n2: nat, m2: nat)
    requires
        n1 <= n2,
        m1 <= m2,
    ensures
        spec_estimate_cycles(n1, m1) <= spec_estimate_cycles(n2, m2),
{
    assert((INGRESS_BYTE_CYCLES as nat) * n1 <= (INGRESS_BYTE_CYCLES as nat) * n2)
        by (nonlinear_arith)
        requires n1 <= n2;
    assert((OUTCALL_BYTE_CYCLES as nat) * (n1 + m1) <= (OUTCALL_BYTE_CYCLES as nat) * (n2 + m2))
        by (nonlinear_arith)
        requires n1 <= n2 && m1 <= m2;
}

/// Admits or rejects a call before anything is sent: the available budget
/// must cover the estimate. On admission the estimate itself is returned,
/// to be pre-charged.
pub fn admit_call(available: u128, request_len: usize, max_response_bytes: u64) -> (r: Result<
    u128,
    BudgetError,
>)
    ensures
        match r {
            Ok(est) => {
                &&& est == spec_estimate_cycles(request_len as nat, max_response_bytes as nat)
                &&& available >= est
            },
            Err(e) => {
                &&& e == (BudgetError::Insufficient {
                    required: spec_estimate_cycles(
                        request_len as nat,
                        max_response_bytes as nat,
                    ) as u128,
                    available,
                })
                &&& available < spec_estimate_cycles(
                    request_len as nat,
                    max_response_bytes as nat,
                )
            },
        },
{
    let required = estimate_cycles(request_len, max_response_bytes);
    if available < required {
        Err(BudgetError::Insufficient { required, available })
    } else {
        Ok(required)
    }
}

/// The normalizing transform: headers gone, status and body untouched.
pub open spec fn spec_transform(r: HttpResponseView) -> HttpResponseView {
    HttpResponseView { status: r.status, headers: Seq::empty(), body: r.body }
}

/// Strips a response's headers, keeping only status and body, so that two
/// independently executed identical calls observe byte-identical
/// responses whatever volatile headers the upstream server added.
pub fn transform(response: HttpResponse) -> (r: HttpResponse)
    ensures
        r@ == spec_transform(response@),
{
    let res = HttpResponse { status: response.status, headers: Vec::new(), body: response.body };
    proof {
        assert(res@.headers =~= Seq::<(Seq<char>, Seq<char>)>::empty());
        assert(res@ == spec_transform(response@));
    }
    res
}

/// Transforming an already-transformed response changes nothing: the
/// transform is idempotent.
pub proof fn lemma_transform_idempotent(r: HttpResponseView)
    ensures
        spec_transform(spec_transform(r)) == spec_transform(r),
{
}

/// Accepts or rejects a response against the size cap, and settles the
/// pre-charged amount: an oversized response is rejected outright and
/// nothing of the pre-charge is kept, so the caller never pays for data
/// it was not given. An accepted response is normalized and its body
/// returned; the pre-charge is then consumed.
pub fn finalize_response(response: HttpResponse, max_response_bytes: u64, prepaid: u128) -> (r: (
    Result<Vec<u8>, TransportError>,
    u128,
))
    ensures
        response@.body.len() > max_response_bytes ==> {
            &&& r.0 == Result::<Vec<u8>, TransportError>::Err(
                TransportError::ResponseTooLarge {
                    limit: max_response_bytes,
                    actual: response@.body.len() as u64,
                },
            )
            &&& r.1 == 0
        },
        response@.body.len() <= max_response_bytes ==> {
            &&& r.0 matches Ok(b) && b@ == spec_transform(response@).body
            &&& r.1 == prepaid
        },
{
    let body_len = response.body.len();
    if (body_len as u64) > max_response_bytes {
        (
            Err(
                TransportError::ResponseTooLarge {
                    limit: max_response_bytes,
                    actual: body_len as u64,
                },
            ),
            0,
        )
    } else {
        let normalized = transform(response);
        (Ok(normalized.body), prepaid)
    }
}

/// Settles a completed call against its pre-charge: the measured
/// consumption plus the fixed safety margin is kept, capped at the
/// pre-charge, and the excess is refunded. Charge and refund always sum
/// to the pre-charge.
pub fn settle_cycles(prepaid: u128, measured: u128) -> (r: (u128, u128))
    ensures
        r.0 == (if measured + SERVICE_FEE_CYCLES <= prepaid {
            (measured + SERVICE_FEE_CYCLES) as u128
        } else {
            prepaid
        }),
        r.0 + r.1 == prepaid,
{
    if measured <= u128::MAX - SERVICE_FEE_CYCLES && measured + SERVICE_FEE_CYCLES <= prepaid {
        let charged = measured + SERVICE_FEE_CYCLES;
        (charged, prepaid - charged)
    } else {
        (prepaid, 0)
    }
}

/// Queued JSON-RPC call bodies, submitted together as one logical unit to
/// amortize the fixed per-call overhead; each body resolves independently
/// once the batch completes.
pub struct BatchQueue {
    pub calls: Vec<Vec<u8>>,
}

/// The byte framing of a batch: the queued bodies joined by commas inside
/// one JSON array.
pub open spec fn spec_batch_tail(calls: Seq<Seq<u8>>) -> Seq<u8>
    decreases calls.len(),
{
    if calls.len() == 0 {
        Seq::empty()
    } else {
        seq![44u8] + calls.first() + spec_batch_tail(calls.skip(1))
    }
}

pub open spec fn spec_batch_body(calls: Seq<Seq<u8>>) -> Seq<u8> {
    if calls.len() == 0 {
        seq![91u8, 93u8]
    } else {
        seq![91u8] + calls.first() + spec_batch_tail(calls.skip(1)) + seq![93u8]
    }
}

impl BatchQueue {
    /// An empty batch.
    pub fn new() -> (r: BatchQueue)
        ensures
            r.calls@.len() == 0,
    {
        BatchQueue { calls: Vec::new() }
    }

    /// How many calls are queued.
    pub fn len(&self) -> (r: usize)
        ensures
            r == self.calls@.len(),
    {
        self.calls.len()
    }

    /// Queues one serialized call body.
    pub fn push(&mut self, call: Vec<u8>)
        ensures
            final(self).calls@ == old(self).calls@.push(call),
    {
        self.calls.push(call);
    }

    /// The single body that dispatches the whole batch.
    pub fn batch_body(&self) -> (r: Vec<u8>)
        ensures
            r@ == spec_batch_body(self.calls@.map_values(|c: Vec<u8>| c@)),
    {
        let ghost callsv = self.calls@.map_values(|c: Vec<u8>| c@);
        let mut out: Vec<u8> = Vec::new();
        out.push(91);
        if self.calls.len() == 0 {
            out.push(93);
            proof {
                assert(out@ =~= spec_batch_body(callsv));
            }
            return out;
        }
        crate::rlp::append_bytes(&mut out, self.calls[0].as_slice());
        let mut i: usize = 1;
        while i < self.calls.len()
            invariant
                1 <= i <= self.calls@.len(),
                callsv == self.calls@.map_values(|c: Vec<u8>| c@),
                callsv.len() == self.calls@.len(),
                seq![91u8] + callsv.first() + spec_batch_tail(callsv.skip(1)) == out@
                    + spec_batch_tail(callsv.skip(i as int)),
            decreases self.calls@.len() - i,
        {
            out.push(44);
            crate::rlp::append_bytes(&mut out, self.calls[i].as_slice());
            i = i + 1;
            proof {
                let prev = callsv.skip(i - 1);
                assert(prev.first() == callsv[i - 1]);
                assert(prev.skip(1) =~= callsv.skip(i as int));
                assert(spec_batch_tail(prev) == seq![44u8] + callsv[i - 1] + spec_batch_tail(
                    callsv.skip(i as int),
                ));
                assert(seq![91u8] + callsv.first() + spec_batch_tail(callsv.skip(1)) == out@
                    + spec_batch_tail(callsv.skip(i as int)));
            }
        }
        out.push(93);
        proof {
            assert(callsv.skip(i as int) =~= Seq::<Seq<u8>>::empty());
            assert(spec_batch_tail(callsv.skip(i as int)) == Seq::<u8>::empty());
            assert(out@ =~= spec_batch_body(callsv));
        }
        out
    }
}

} // verus!
