use slope::hypermedia::{
    ArgusEndpointLease, ArgusEndpointSession, ArgusIpcRequest, EndpointError, HttpBudget,
    HttpLease, HttpsOrigin, HttpsRequest, HypermediaError, TlsTrustAnchor,
    TlsTrustError,
};

const TLS_SHA256_BYTES: usize = 32;

#[test]
fn only_canonical_https_locations_become_requests() {
    let request =
        HttpsRequest::parse_location(b"https://Example.COM/docs/start", HttpBudget::default_budget())
            .expect("HTTPS request");
    assert_eq!(request.origin().host(), b"example.com");
    assert_eq!(request.path(), b"/docs/start");
    assert_eq!(
        HttpsRequest::parse_location(b"http://example.com/", HttpBudget::default_budget()),
        Err(HypermediaError::NotHttps)
    );
    assert!(
        HttpsRequest::parse_location(b"https://example.com:443/", HttpBudget::default_budget())
            .is_err()
    );
}

#[test]
fn tls_anchor_accepts_only_the_broker_pinned_peer_generation() {
    let origin = HttpsOrigin::new(b"example.com").expect("origin");
    let fingerprint = [0x5a; TLS_SHA256_BYTES];
    let anchor = TlsTrustAnchor::from_broker(origin, fingerprint, 7).expect("trust anchor");
    let peer = anchor.permits(origin, fingerprint, 7).expect("pinned peer");
    assert_eq!(peer.origin(), origin);
    assert_eq!(peer.certificate_sha256(), fingerprint);
    assert_eq!(peer.generation(), 7);
    assert_eq!(
        anchor.permits(origin, [0x59; TLS_SHA256_BYTES], 7),
        Err(TlsTrustError::CertificateMismatch)
    );
    assert_eq!(
        anchor.permits(origin, fingerprint, 8),
        Err(TlsTrustError::GenerationMismatch)
    );
}

#[test]
fn tls_anchor_rejects_zero_fingerprint_and_cross_origin_use() {
    let origin = HttpsOrigin::new(b"example.com").expect("origin");
    assert_eq!(
        TlsTrustAnchor::from_broker(origin, [0; TLS_SHA256_BYTES], 1),
        Err(HypermediaError::InvalidLease)
    );
    let other = HttpsOrigin::new(b"other.example").expect("other origin");
    let anchor = TlsTrustAnchor::from_broker(origin, [1; TLS_SHA256_BYTES], 1).expect("anchor");
    assert_eq!(
        anchor.permits(other, [1; TLS_SHA256_BYTES], 1),
        Err(TlsTrustError::OriginMismatch)
    );
}

#[test]
fn lease_cannot_amplify_origin_budget_or_lifetime() {
    let origin = HttpsOrigin::new(b"example.com").expect("origin");
    let request = HttpsRequest::new(origin, b"/", HttpBudget::default_budget()).expect("request");
    let lease =
        HttpLease::from_broker(7, 3, origin, HttpBudget::default_budget(), 10).expect("lease");
    assert_eq!(lease.permits(request, 9), Ok(()));
    assert_eq!(lease.permits(request, 10), Err(HypermediaError::LeaseExpired));

    let other = HttpsRequest::parse_location(b"https://other.example/", HttpBudget::default_budget())
        .expect("other request");
    assert_eq!(lease.permits(other, 1), Err(HypermediaError::LeaseMismatch));
}

#[test]
fn ipc_request_round_trip_is_bound_to_the_exact_lease() {
    let origin = HttpsOrigin::new(b"example.com").expect("origin");
    let request =
        HttpsRequest::new(origin, b"/docs", HttpBudget::default_budget()).expect("request");
    let lease =
        HttpLease::from_broker(9, 4, origin, HttpBudget::default_budget(), 30).expect("lease");
    let wire = lease.to_ipc_request(request, 10, 77).expect("wire request");
    assert_eq!(wire.sequence(), 77);
    assert_eq!(lease.authorize_ipc(&wire, 10), Ok(request));
    let mut forged = wire;
    forged.generation = 5;
    assert_eq!(
        lease.authorize_ipc(&forged, 10),
        Err(HypermediaError::LeaseMismatch)
    );
    assert_eq!(wire.request(), Ok(request));
}

#[test]
fn endpoint_session_binds_mapping_serializes_and_revokes() {
    let origin = HttpsOrigin::new(b"example.com").expect("origin");
    let request =
        HttpsRequest::new(origin, b"/docs", HttpBudget::default_budget()).expect("request");
    let endpoint = ArgusEndpointLease::from_broker(11, 12, 4, 9, 30).expect("endpoint lease");
    let http =
        HttpLease::from_broker(13, 4, origin, HttpBudget::default_budget(), 30).expect("HTTP lease");
    let wire = http.to_ipc_request(request, 10, 1).expect("wire request");
    let mut session = ArgusEndpointSession::new(endpoint);
    let envelope = session.prepare(wire, 10).expect("prepared envelope");
    session.commit(envelope).expect("committed envelope");
    assert_eq!(session.prepare(wire, 10), Err(EndpointError::Busy));
    session.complete(1).expect("completed request");
    let second = http.to_ipc_request(request, 10, 2).expect("second request");
    let envelope = session.prepare(second, 10).expect("second envelope");
    session.commit(envelope).expect("second commit");
    session.revoke();
    assert!(session.is_revoked());
    assert_eq!(session.complete(2), Err(EndpointError::NotInFlight));
    assert_eq!(session.prepare(second, 10), Err(EndpointError::Revoked));

    let mut pending_session = ArgusEndpointSession::new(endpoint);
    let pending = pending_session.prepare(wire, 10).expect("pending envelope");
    pending_session.revoke();
    assert_eq!(pending_session.commit(pending), Err(EndpointError::Revoked));
}

#[test]
fn endpoint_rejects_stale_mapping_and_replay_sequence() {
    let origin = HttpsOrigin::new(b"example.com").expect("origin");
    let request = HttpsRequest::new(origin, b"/", HttpBudget::default_budget()).expect("request");
    let endpoint = ArgusEndpointLease::from_broker(21, 22, 5, 6, 20).expect("endpoint lease");
    let http =
        HttpLease::from_broker(23, 5, origin, HttpBudget::default_budget(), 20).expect("HTTP lease");
    let wire = http.to_ipc_request(request, 1, 1).expect("wire request");
    let mut session = ArgusEndpointSession::new(endpoint);
    let envelope = session.prepare(wire, 1).expect("envelope");
    assert_eq!(session.commit(envelope), Ok(()));
    session.complete(1).expect("complete");
    let wire = http.to_ipc_request(request, 1, 2).expect("wire sequence two");
    let envelope = session.prepare(wire, 1).expect("envelope sequence two");
    assert_eq!(
        session.commit(ArgusIpcRequest { mapping_generation: 99, ..envelope }),
        Err(EndpointError::WrongGeneration)
    );
    session.commit(envelope).expect("commit");
    assert_eq!(session.commit(envelope), Err(EndpointError::Busy));
}

#[test]
fn origins_reject_non_canonical_hosts() {
    assert_eq!(HttpsOrigin::new(b""), Err(HypermediaError::InvalidHost));
    assert_eq!(HttpsOrigin::new(b".example.com"), Err(HypermediaError::InvalidHost));
    assert_eq!(HttpsOrigin::new(b"example..com"), Err(HypermediaError::InvalidHost));
    assert_eq!(HttpsOrigin::new(b"example.com."), Err(HypermediaError::InvalidHost));
    assert_eq!(HttpsOrigin::new(b"-example.com"), Err(HypermediaError::InvalidHost));
    assert_eq!(HttpsOrigin::new(b"example.com-"), Err(HypermediaError::InvalidHost));
    assert_eq!(HttpsOrigin::new(b"exa_mple.com"), Err(HypermediaError::InvalidHost));
    assert_eq!(HttpsOrigin::new(&[b'a'; 49]), Err(HypermediaError::InvalidHost));
    assert!(HttpsOrigin::new(&[b'a'; 48]).is_ok());
    assert_eq!(
        HttpsOrigin::new(b"A-B.Example").unwrap(),
        HttpsOrigin::new(b"a-b.example").unwrap()
    );
}

#[test]
fn requests_reject_bad_paths_and_budgets() {
    let origin = HttpsOrigin::new(b"example.com").unwrap();
    let budget = HttpBudget::default_budget();
    assert_eq!(HttpsRequest::new(origin, b"docs", budget), Err(HypermediaError::InvalidPath));
    assert_eq!(HttpsRequest::new(origin, b"/a#b", budget), Err(HypermediaError::InvalidPath));
    assert_eq!(HttpsRequest::new(origin, b"/a b", budget), Err(HypermediaError::InvalidPath));
    let broken = HttpBudget { yield_every_segments: 0, ..budget };
    assert_eq!(HttpsRequest::new(origin, b"docs", broken), Err(HypermediaError::InvalidBudget));
    let root = HttpsRequest::parse_location(b"https://example.com", budget).unwrap();
    assert_eq!(root.path(), b"/");
    assert_eq!(root.budget(), budget);
    assert!(!HttpBudget { max_segments: 33, ..budget }.is_valid());
    let wider = HttpBudget { request_bytes: 2048, ..budget };
    let lease = HttpLease::from_broker(1, 1, origin, budget, 5).unwrap();
    let greedy = HttpsRequest::new(origin, b"/", wider).unwrap();
    assert_eq!(lease.permits(greedy, 0), Err(HypermediaError::LeaseMismatch));
    assert_eq!(lease.generation(), 1);
    assert_eq!(lease.expiry_epoch(), 5);
    assert_eq!(HttpLease::from_broker(0, 1, origin, budget, 5), Err(HypermediaError::InvalidLease));
}

#[test]
fn endpoint_lease_validity_and_sequence_wrap() {
    assert_eq!(ArgusEndpointLease::from_broker(0, 1, 1, 1, 1), Err(EndpointError::InvalidLease));
    let lease = ArgusEndpointLease::from_broker(1, 2, 3, 4, 10).unwrap();
    assert!(lease.valid_for(9));
    assert!(!lease.valid_for(10));
    let session = ArgusEndpointSession::new(lease);
    assert_eq!(session.lease(), lease);
    assert!(!session.is_revoked());
}
