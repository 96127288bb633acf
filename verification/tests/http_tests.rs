//! The transport's verified half: cost estimation and the budget gate,
//! the size cap, the normalizing transform, and batch framing.

use ic_web3::http::{
    admit_call, estimate_cycles, finalize_response, transform, BatchQueue, HttpHeader,
    HttpMethod, HttpResponse, ICHttpClient, DEFAULT_MAX_RESPONSE_BYTES,
};
use ic_web3::{BudgetError, TransportError};

#[test]
fn client_defaults_and_overrides_its_cap() {
    let client = ICHttpClient::new(None);
    assert_eq!(client.max_response_bytes, DEFAULT_MAX_RESPONSE_BYTES);
    let client = ICHttpClient::new(Some(1000));
    assert_eq!(client.max_response_bytes, 1000);
    let mut client = ICHttpClient::new(None);
    client.set_max_response_bytes(77);
    assert_eq!(client.max_response_bytes, 77);
}

#[test]
fn requests_carry_the_json_content_type() {
    let client = ICHttpClient::new(None);
    let req = client.post_request("https://example.invalid/rpc".to_owned(), b"{}".to_vec(), None);
    assert_eq!(req.method, HttpMethod::Post);
    assert_eq!(req.headers.len(), 1);
    assert_eq!(req.headers[0].name, "Content-Type");
    assert_eq!(req.headers[0].value, "application/json");
    assert_eq!(req.max_response_bytes, DEFAULT_MAX_RESPONSE_BYTES);

    let req = client.get_request("https://example.invalid/rpc".to_owned(), vec![], Some(9));
    assert_eq!(req.method, HttpMethod::Get);
    assert_eq!(req.max_response_bytes, 9);
}

#[test]
fn estimate_has_exact_known_value() {
    // 1_200_000 + 2_000*100 + 400_000_000 + 100_000*(100 + 1_000)
    // + 100_000_000 = 611_400_000.
    assert_eq!(estimate_cycles(100, 1_000), 611_400_000);
}

#[test]
fn estimate_is_monotone_in_size_and_cap() {
    let base = estimate_cycles(100, 1_000);
    assert!(estimate_cycles(101, 1_000) >= base);
    assert!(estimate_cycles(100, 1_001) >= base);
    assert!(estimate_cycles(5_000, 500_000) >= base);
}

#[test]
fn underfunded_call_is_rejected_before_sending() {
    // Scenario: the available budget is below the computed estimate, so
    // the call is rejected before any outbound request exists.
    let required = estimate_cycles(10, 500_000);
    match admit_call(required - 1, 10, 500_000) {
        Err(BudgetError::Insufficient { required: r, available }) => {
            assert_eq!(r, required);
            assert_eq!(available, required - 1);
        },
        other => panic!("expected a budget rejection, got {other:?}"),
    }
    assert_eq!(admit_call(required, 10, 500_000), Ok(required));
}

#[test]
fn transform_strips_headers_and_nothing_else() {
    let response = HttpResponse {
        status: 200,
        headers: vec![
            HttpHeader { name: "Date".to_owned(), value: "today".to_owned() },
            HttpHeader { name: "X-Request-Id".to_owned(), value: "abc".to_owned() },
        ],
        body: b"{\"ok\":true}".to_vec(),
    };
    let once = transform(response);
    assert_eq!(once.status, 200);
    assert!(once.headers.is_empty());
    assert_eq!(once.body, b"{\"ok\":true}".to_vec());

    // Idempotence: transforming the already-transformed response yields
    // the same result.
    let twice = transform(once.clone());
    assert_eq!(twice.status, once.status);
    assert!(twice.headers.is_empty());
    assert_eq!(twice.body, once.body);
}

#[test]
fn oversized_response_is_rejected_and_not_paid_for() {
    // Scenario: cap 500_000 bytes, response 600_000 bytes. The transport
    // reports a size violation and none of the pre-charge is kept.
    let response = HttpResponse { status: 200, headers: vec![], body: vec![0u8; 600_000] };
    let (result, charged) = finalize_response(response, 500_000, 1_000_000);
    assert_eq!(
        result,
        Err(TransportError::ResponseTooLarge { limit: 500_000, actual: 600_000 })
    );
    assert_eq!(charged, 0);
}

#[test]
fn accepted_response_is_normalized_and_charged() {
    let response = HttpResponse {
        status: 200,
        headers: vec![HttpHeader { name: "Date".to_owned(), value: "today".to_owned() }],
        body: b"result".to_vec(),
    };
    let (result, charged) = finalize_response(response, 500_000, 777);
    assert_eq!(result, Ok(b"result".to_vec()));
    assert_eq!(charged, 777);
}

#[test]
fn settlement_refunds_the_excess_and_keeps_the_margin() {
    // Pre-charged 1_000_000_000, measured 1_000_000: the charge is the
    // measured amount plus the fixed margin, the rest comes back.
    let (charged, refund) = ic_web3::http::settle_cycles(1_000_000_000, 1_000_000);
    assert_eq!(charged, 1_000_000 + 100_000_000);
    assert_eq!(refund, 1_000_000_000 - charged);
    // A measurement at or over the pre-charge consumes it whole.
    let (charged, refund) = ic_web3::http::settle_cycles(1_000, 5_000);
    assert_eq!((charged, refund), (1_000, 0));
}

#[test]
fn batch_frames_queued_calls_as_one_json_array() {
    let mut queue = BatchQueue::new();
    assert_eq!(queue.len(), 0);
    assert_eq!(queue.batch_body(), b"[]".to_vec());

    queue.push(b"{\"id\":1}".to_vec());
    assert_eq!(queue.batch_body(), b"[{\"id\":1}]".to_vec());

    queue.push(b"{\"id\":2}".to_vec());
    queue.push(b"{\"id\":3}".to_vec());
    assert_eq!(queue.len(), 3);
    assert_eq!(queue.batch_body(), b"[{\"id\":1},{\"id\":2},{\"id\":3}]".to_vec());
}
