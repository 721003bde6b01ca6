use devrouter::router::{decide, route_peeked, slice_starts_with, ParseStatus, Route, RoutingTable};

fn table() -> RoutingTable {
    RoutingTable {
        routes: vec![Route { prefix: b"/api".to_vec(), dest: b"127.0.0.1:3001".to_vec() }],
        default_dest: b"127.0.0.1:3000".to_vec(),
    }
}

#[test]
fn api_prefix_routes_to_api_backend() {
    let t = table();
    let buf = b"GET /api/hello HTTP/1.1\r\nHost: localhost\r\n\r\n";
    let (dest, status) = route_peeked(&t, buf);
    assert_eq!(dest, b"127.0.0.1:3001".to_vec());
    assert_eq!(status, ParseStatus::Complete);
}

#[test]
fn other_path_routes_to_default_backend() {
    let t = table();
    let buf = b"GET /index.html HTTP/1.1\r\nHost: localhost\r\n\r\n";
    let (dest, status) = route_peeked(&t, buf);
    assert_eq!(dest, b"127.0.0.1:3000".to_vec());
    assert_eq!(status, ParseStatus::Complete);
}

#[test]
fn short_peek_routes_to_default() {
    let t = table();
    let (dest, status) = route_peeked(&t, b"GE");
    assert_eq!(dest, b"127.0.0.1:3000".to_vec());
    assert_eq!(status, ParseStatus::Incomplete);
}

#[test]
fn empty_peek_routes_to_default() {
    let t = table();
    let (dest, status) = route_peeked(&t, b"");
    assert_eq!(dest, b"127.0.0.1:3000".to_vec());
    assert_eq!(status, ParseStatus::Incomplete);
}

#[test]
fn malformed_peek_routes_to_default() {
    let t = table();
    let (dest, status) = route_peeked(&t, &[0u8, 1u8, 2u8, 3u8]);
    assert_eq!(dest, b"127.0.0.1:3000".to_vec());
    assert_eq!(status, ParseStatus::Invalid);
}

#[test]
fn partial_request_line_with_path_still_routes() {
    let t = table();
    // The headers never arrive, but the request target is already there.
    let buf = b"GET /api/x HTTP/1.1\r\nHos";
    let (dest, status) = route_peeked(&t, buf);
    assert_eq!(dest, b"127.0.0.1:3001".to_vec());
    assert_eq!(status, ParseStatus::Incomplete);
}

#[test]
fn table_driven_prefixes_first_match_wins() {
    let t = RoutingTable {
        routes: vec![
            Route { prefix: b"/api".to_vec(), dest: b"10.0.0.1:1".to_vec() },
            Route { prefix: b"/ws".to_vec(), dest: b"10.0.0.2:2".to_vec() },
        ],
        default_dest: b"10.0.0.3:3".to_vec(),
    };
    let cases: Vec<(&[u8], &[u8])> = vec![
        (b"/api/hello", b"10.0.0.1:1"),
        (b"/api", b"10.0.0.1:1"),
        (b"/ws/chat", b"10.0.0.2:2"),
        (b"/apix", b"10.0.0.1:1"),
        (b"/index.html", b"10.0.0.3:3"),
        (b"/", b"10.0.0.3:3"),
        (b"/ap", b"10.0.0.3:3"),
    ];
    for (path, want) in cases {
        let dest = decide(&t, &Some(path.to_vec()));
        assert_eq!(dest, want.to_vec());
    }
}

#[test]
fn no_path_routes_to_default() {
    let t = table();
    assert_eq!(decide(&t, &None), b"127.0.0.1:3000".to_vec());
}

#[test]
fn starts_with_edges() {
    assert!(slice_starts_with(b"/api", b""));
    assert!(slice_starts_with(b"/api", b"/api"));
    assert!(!slice_starts_with(b"/ap", b"/api"));
    assert!(!slice_starts_with(b"/aqi", b"/ap"));
}

#[test]
fn concurrent_style_connections_are_independent() {
    let t = table();
    let bufs: Vec<&[u8]> = vec![
        b"GET /api/a HTTP/1.1\r\n\r\n",
        b"GET /b HTTP/1.1\r\n\r\n",
        b"GET /api/c HTTP/1.1\r\n\r\n",
        b"GE",
    ];
    let wants: Vec<&[u8]> =
        vec![b"127.0.0.1:3001", b"127.0.0.1:3000", b"127.0.0.1:3001", b"127.0.0.1:3000"];
    // Decisions depend only on the table and each connection's own bytes:
    // repeating them in any order gives the same destinations.
    for _round in 0..3 {
        for (buf, want) in bufs.iter().zip(wants.iter()) {
            let (dest, _) = route_peeked(&t, buf);
            assert_eq!(dest, want.to_vec());
        }
    }
}
