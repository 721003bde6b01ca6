use devrouter::proxy::{
    response_to_caller, rewrite_for_backend, Error, InboundRequest, ResponseParts, Scheme,
};

fn request() -> InboundRequest {
    InboundRequest {
        method: b"POST".to_vec(),
        path: b"/submit".to_vec(),
        query: Some(b"v=2".to_vec()),
        headers: vec![
            (b"A".to_vec(), b"1".to_vec()),
            (b"B".to_vec(), b"2".to_vec()),
        ],
    }
}

#[test]
fn rewrite_preserves_everything_but_authority_and_scheme() {
    let out = rewrite_for_backend(request(), b"localhost:3000".to_vec());
    assert_eq!(out.scheme, Scheme::Http);
    assert_eq!(out.authority, b"localhost:3000".to_vec());
    assert_eq!(out.method, b"POST".to_vec());
    assert_eq!(out.path, b"/submit".to_vec());
    assert_eq!(out.query, Some(b"v=2".to_vec()));
    assert_eq!(
        out.headers,
        vec![(b"A".to_vec(), b"1".to_vec()), (b"B".to_vec(), b"2".to_vec())]
    );
}

#[test]
fn backend_response_passes_through_unmodified() {
    let backend = ResponseParts {
        status: 201,
        headers: vec![(b"Content-Type".to_vec(), b"text/plain".to_vec())],
    };
    let r = response_to_caller(Ok(backend.clone()));
    assert_eq!(r, backend);
}

#[test]
fn transport_failure_becomes_a_bare_server_error() {
    let r = response_to_caller(Err(Error::Reqwest(b"connect refused".to_vec())));
    assert_eq!(r.status, 500);
    assert!(r.headers.is_empty());
}

#[test]
fn every_error_class_maps_to_internal_server_error() {
    let errors = vec![
        Error::Http(b"h".to_vec()),
        Error::InvalidUriParts(b"u".to_vec()),
        Error::Reqwest(b"r".to_vec()),
        Error::Tungstenite(b"t".to_vec()),
        Error::Url(b"p".to_vec()),
    ];
    for e in errors {
        assert_eq!(e.response_status(), 500);
    }
}
