use http::HeaderMap;
use netty::error::{bare, found, Cause, Error, Kind, Reason};
use netty::h3::exchange::{Action, Context, Event, Exchange};
use netty::h3::length::{consume_length, content_length, short};
use netty::h3::request::{prepare, validate_request, Method, RequestHead};

fn headers(fields: &[(&'static str, &str)]) -> HeaderMap {
    let mut map = HeaderMap::new();
    for (name, value) in fields {
        map.append(*name, value.parse().unwrap());
    }
    map
}

fn request(method: Method, size: u64, fields: &[(&'static str, &str)]) -> RequestHead {
    RequestHead {
        method,
        scheme: true,
        authority: Some(b"localhost".to_vec()),
        protocol: false,
        datagram: false,
        end_stream: size == 0,
        size: Some(size),
        headers: headers(fields),
    }
}

fn reason(error: Error) -> Reason {
    match error.cause {
        Cause::Found(reason) => reason,
        other => panic!("unexpected cause {other:?}"),
    }
}

const CLOSED: Error = Error {
    kind: Kind::Closed,
    cause: Cause::Absent,
};

const CONTEXT: Context = Context {
    published: None,
    connection: CLOSED,
};

#[test]
fn request_content_length_matches_method_and_body() {
    let cases = [
        (Method::Get, 0, None),
        (Method::Head, 0, None),
        (Method::Delete, 0, None),
        (Method::Options, 0, None),
        (Method::Trace, 0, None),
        // POST, PUT and PATCH
        (Method::Other, 0, Some("0")),
        (Method::Get, 4, Some("4")),
        (Method::Other, u64::MAX, Some("18446744073709551615")),
    ];
    for (method, size, length) in cases {
        let mut head = request(method, size, &[]);
        assert_eq!(prepare(&mut head), Ok(Some(size)));
        assert_eq!(
            head.headers.get("content-length").map(|v| v.to_str().unwrap()),
            length,
            "{method:?}"
        );
    }
    let mut explicit = request(Method::Get, 0, &[("content-length", "0")]);
    assert_eq!(prepare(&mut explicit), Ok(Some(0)));
    assert_eq!(explicit.headers["content-length"], "0");
    let mut connect = request(Method::Connect, 0, &[]);
    assert_eq!(prepare(&mut connect), Ok(None));
    assert!(connect.headers.is_empty());
    let mut unknown = request(Method::Other, 0, &[]);
    unknown.size = None;
    assert_eq!(prepare(&mut unknown), Ok(None));
    assert!(unknown.headers.is_empty());
}

#[test]
fn connection_headers_are_stripped_before_sending() {
    for (te, kept) in [("gzip", None), ("trailers", Some("trailers"))] {
        let mut head = request(
            Method::Get,
            0,
            &[
                ("connection", "keep-alive, x-hop"),
                ("keep-alive", "timeout=5"),
                ("proxy-connection", "keep-alive"),
                ("upgrade", "websocket"),
                ("transfer-encoding", "chunked"),
                ("x-hop", "removed"),
                ("x-end-to-end", "kept"),
                ("te", te),
            ],
        );
        prepare(&mut head).unwrap();
        for name in [
            "connection",
            "keep-alive",
            "proxy-connection",
            "upgrade",
            "transfer-encoding",
            "x-hop",
        ] {
            assert!(!head.headers.contains_key(name), "{name}");
        }
        assert_eq!(head.headers["x-end-to-end"], "kept");
        assert_eq!(head.headers.get("te").map(|v| v.to_str().unwrap()), kept);
    }
}

#[test]
fn every_connection_value_names_fields_in_any_case() {
    let mut map = headers(&[
        ("connection", "X-One ,\tx-two"),
        ("connection", ",,not a name, X-THREE"),
        ("x-one", "1"),
        ("x-one", "1b"),
        ("x-two", "2"),
        ("x-three", "3"),
        ("x-four", "4"),
        ("te", "Trailers"),
        ("te", "TRAILERS"),
    ]);
    netty::h3::request::strip_connection_headers(&mut map);
    assert_eq!(map.len(), 3);
    assert_eq!(map["x-four"], "4");
    assert_eq!(map.get_all("te").iter().count(), 2);
    let before = map.clone();
    netty::h3::request::strip_connection_headers(&mut map);
    assert_eq!(map, before);
    let mut mixed = headers(&[("te", "trailers"), ("te", "deflate")]);
    netty::h3::request::strip_connection_headers(&mut mixed);
    assert!(mixed.is_empty());
}

#[test]
fn content_lengths_are_read_from_lists() {
    let read = |values: &[&str]| {
        let mut map = HeaderMap::new();
        for value in values {
            map.append("content-length", value.parse().unwrap());
        }
        content_length(&map)
    };
    assert_eq!(read(&[]), Ok(None));
    assert_eq!(read(&["4"]), Ok(Some(4)));
    assert_eq!(read(&["4, 4\t,4", "4"]), Ok(Some(4)));
    assert_eq!(read(&["18446744073709551615"]), Ok(Some(u64::MAX)));
    assert_eq!(reason(read(&["18446744073709551616"]).unwrap_err()), Reason::LengthOverflow);
    assert_eq!(reason(read(&["invalid"]).unwrap_err()), Reason::InvalidLength);
    assert_eq!(reason(read(&["+4"]).unwrap_err()), Reason::InvalidLength);
    assert_eq!(reason(read(&["4,"]).unwrap_err()), Reason::InvalidLength);
    assert_eq!(reason(read(&[""]).unwrap_err()), Reason::InvalidLength);
    assert_eq!(reason(read(&["1, 2"]).unwrap_err()), Reason::ConflictingLength);
    assert_eq!(reason(read(&["1", "2"]).unwrap_err()), Reason::ConflictingLength);
    let mut opaque = HeaderMap::new();
    opaque.insert(
        "content-length",
        http::HeaderValue::from_bytes(b"4\xff").unwrap(),
    );
    assert_eq!(
        content_length(&opaque),
        Err(found(Kind::Http3, Reason::UnreadableLength))
    );
}

#[test]
fn lengths_are_consumed_exactly() {
    let mut remaining = Some(5);
    assert_eq!(consume_length(&mut remaining, 2), Ok(()));
    assert_eq!(remaining, Some(3));
    assert!(short(remaining));
    assert_eq!(consume_length(&mut remaining, 4), Err(Reason::BodyTooLong));
    assert_eq!(remaining, Some(3));
    assert_eq!(consume_length(&mut remaining, 3), Ok(()));
    assert!(!short(remaining));
    let mut unknown = None;
    assert_eq!(consume_length(&mut unknown, usize::MAX), Ok(()));
    assert!(!short(unknown));
}

#[test]
fn invalid_requests_are_refused() {
    let check = |head: &RequestHead| validate_request(head).map_err(reason);
    assert_eq!(check(&request(Method::Get, 0, &[])), Ok(()));
    let mut protocol = request(Method::Get, 0, &[]);
    protocol.protocol = true;
    assert_eq!(check(&protocol), Err(Reason::ProtocolWithoutConnect));
    let mut relative = request(Method::Get, 0, &[]);
    relative.scheme = false;
    assert_eq!(check(&relative), Err(Reason::MissingSchemeOrAuthority));
    relative.method = Method::Connect;
    assert_eq!(check(&relative), Ok(()));
    relative.protocol = true;
    assert_eq!(check(&relative), Err(Reason::MissingSchemeOrAuthority));
    let mut nowhere = request(Method::Connect, 0, &[]);
    nowhere.authority = None;
    assert_eq!(check(&nowhere), Err(Reason::MissingSchemeOrAuthority));
    assert_eq!(
        check(&request(Method::Get, 0, &[("host", "localhost")])),
        Ok(())
    );
    assert_eq!(
        check(&request(Method::Get, 0, &[("host", "Localhost")])),
        Err(Reason::HostConflict)
    );
    assert_eq!(
        check(&request(Method::Other, 0, &[("content-length", "x")])),
        Err(Reason::InvalidLength)
    );
}

#[test]
fn conflicting_host_returns_the_request_unchanged() {
    let mut head = request(Method::Get, 0, &[("host", "other"), ("connection", "close")]);
    let before = head.headers.clone();
    let (_, action) = Exchange::start(&mut head, false, CONTEXT);
    assert_eq!(
        action,
        Action::Reject(found(Kind::InvalidRequest, Reason::HostConflict))
    );
    assert_eq!(head.headers, before);
}

#[test]
fn extended_connect_requires_peer_permission() {
    for permitted in [false, true] {
        let mut head = request(Method::Connect, 0, &[]);
        head.protocol = true;
        let (mut exchange, action) = Exchange::start(&mut head, false, CONTEXT);
        assert_eq!(action, Action::AwaitSettings);
        let action = exchange.settings(&mut head, CONTEXT, permitted);
        if permitted {
            assert_eq!(action, Action::Open);
            assert_eq!(exchange.length(), None);
        } else {
            assert_eq!(
                action,
                Action::Reject(found(Kind::InvalidRequest, Reason::ExtendedConnectDisabled))
            );
        }
    }
}

#[test]
fn datagram_requests_need_extended_connect_and_datagrams() {
    let refused = Action::Reject(found(Kind::InvalidRequest, Reason::DatagramsUnavailable));
    for (method, protocol, datagrams) in [
        (Method::Get, false, true),
        (Method::Connect, false, true),
        (Method::Connect, true, false),
    ] {
        let mut head = request(method, 0, &[]);
        head.protocol = protocol;
        head.datagram = true;
        assert_eq!(Exchange::start(&mut head, datagrams, CONTEXT).1, refused);
    }
    let mut head = request(Method::Connect, 0, &[]);
    head.protocol = true;
    head.datagram = true;
    let (mut exchange, action) = Exchange::start(&mut head, true, CONTEXT);
    assert_eq!(action, Action::AwaitSettings);
    exchange.settings(&mut head, CONTEXT, true);
    exchange.step(
        CONTEXT,
        Event::Opened {
            id: 0,
            observed: true,
        },
    );
    assert_eq!(
        exchange.step(CONTEXT, Event::Response(200)),
        Action::Tunnel { datagrams: true }
    );
}

#[test]
fn connect_requests_have_no_body() {
    let mut head = request(Method::Connect, 3, &[]);
    assert_eq!(
        Exchange::start(&mut head, false, CONTEXT).1,
        Action::Reject(bare(Kind::InvalidConnect))
    );
}

fn opened(method: Method) -> Exchange {
    let mut head = request(method, 0, &[]);
    let (exchange, action) = Exchange::start(&mut head, false, CONTEXT);
    assert_eq!(action, Action::Open);
    exchange
}

#[test]
fn exchanges_end_when_both_directions_do() {
    for upload_first in [false, true] {
        let mut exchange = opened(Method::Head);
        assert!(exchange.is_head());
        assert_eq!(
            exchange.step(
                CONTEXT,
                Event::Opened {
                    id: 4,
                    observed: true
                }
            ),
            Action::Transfer { response: false }
        );
        let (first, second) = if upload_first {
            (Event::UploadDone, Event::DownloadDone)
        } else {
            (Event::DownloadDone, Event::UploadDone)
        };
        assert_eq!(exchange.step(CONTEXT, first), Action::Wait);
        assert_eq!(exchange.step(CONTEXT, second), Action::Conclude);
        assert_eq!(exchange.failure().get(CLOSED), CLOSED);
    }
}

#[test]
fn rejected_connects_are_ordinary_responses() {
    let mut exchange = opened(Method::Connect);
    assert_eq!(
        exchange.step(
            CONTEXT,
            Event::Opened {
                id: 0,
                observed: true
            }
        ),
        Action::ReadResponse
    );
    assert_eq!(
        exchange.step(CONTEXT, Event::Response(403)),
        Action::Transfer { response: true }
    );
    let mut tunnel = opened(Method::Connect);
    tunnel.step(
        CONTEXT,
        Event::Opened {
            id: 0,
            observed: true,
        },
    );
    assert_eq!(
        tunnel.step(CONTEXT, Event::Response(299)),
        Action::Tunnel { datagrams: false }
    );
}

#[test]
fn exchanges_report_their_first_failure() {
    let fail = |event: Event, context: Context| {
        let mut exchange = opened(Method::Get);
        assert_eq!(exchange.step(context, event), Action::Conclude);
        exchange.failure().get(CLOSED)
    };
    let opened_as = |id, observed| Event::Opened { id, observed };
    assert_eq!(reason(fail(opened_as(1, true), CONTEXT)), Reason::ForeignStream);
    assert_eq!(
        reason(fail(opened_as(0, false), CONTEXT)),
        Reason::StopObserverMissing
    );
    assert_eq!(fail(Event::OpenFailed(7), CONTEXT).cause, Cause::Outside(7));
    assert_eq!(
        reason(fail(Event::Stopped { invalid: true }, CONTEXT)),
        Reason::UnexpectedDatagram
    );
    assert_eq!(fail(Event::Stopped { invalid: false }, CONTEXT), CLOSED);
    let cause = found(Kind::Http3, Reason::InvalidDatagram);
    let published = Context {
        published: Some(cause),
        connection: CLOSED,
    };
    assert_eq!(fail(Event::OpenFailed(7), published), cause);
}

#[test]
fn connection_can_name_a_field_with_a_quote() {
    let quoted = http::HeaderName::from_lowercase(b"x\"y").unwrap();
    let mut map = HeaderMap::new();
    map.insert("connection", "X\"Y, other".parse().unwrap());
    map.insert(quoted.clone(), "gone".parse().unwrap());
    map.insert("kept", "yes".parse().unwrap());
    netty::h3::request::strip_connection_headers(&mut map);
    assert!(!map.contains_key(&quoted));
    assert_eq!(map.len(), 1);
    assert_eq!(map["kept"], "yes");
}

#[test]
fn zero_bytes_in_long_names_are_never_looked_up() {
    let mut map = HeaderMap::new();
    map.insert(
        "x-a-name-of-more-than-sixty-four-bytes-with-a-quote\"-among-its-characters",
        "kept".parse().unwrap(),
    );
    let name = map.keys().next().unwrap().clone();
    assert!(name.as_str().contains('\0'));
    map.insert("connection", name.as_str().replace('\0', "\"").parse().unwrap());
    netty::h3::request::strip_connection_headers(&mut map);
    assert_eq!(map.len(), 1);
    assert!(map.contains_key(&name));
}

#[test]
fn requests_with_too_many_fields_are_not_sent() {
    let mut many = request(Method::Other, 5, &[]);
    let mut full = request(Method::Other, 5, &[]);
    let mut n = 0;
    loop {
        let name = http::HeaderName::try_from(format!("x-{n}")).unwrap();
        let value = http::HeaderValue::from(n);
        if n < 6553 {
            many.headers.insert(name.clone(), value.clone());
        }
        if full.headers.try_insert(name, value).is_err() {
            break;
        }
        n += 1;
    }
    assert!(n >= 6554);
    assert_eq!(prepare(&mut many), Ok(Some(5)));
    assert_eq!(many.headers["content-length"], "5");
    assert_eq!(many.headers.len(), 6554);
    assert_eq!(
        prepare(&mut full),
        Err(found(Kind::Http3, Reason::TooManyFields))
    );
    assert_eq!(full.headers.len(), n);
    assert!(!full.headers.contains_key("content-length"));
}

#[test]
fn connection_fields_refuse_nothing() {
    let context = Context {
        published: None,
        connection: bare(Kind::Closed),
    };
    let mut head = request(
        Method::Get,
        0,
        &[
            ("connection", "close"),
            ("transfer-encoding", "chunked"),
            ("te", "gzip"),
        ],
    );
    assert_eq!(validate_request(&head), Ok(()));
    assert_eq!(Exchange::start(&mut head, false, context).1, Action::Open);
    let mut head = request(Method::Get, 0, &[("connection", "close"), ("host", "other")]);
    assert_eq!(
        Exchange::start(&mut head, false, context).1,
        Action::Reject(found(Kind::InvalidRequest, Reason::HostConflict))
    );
    assert_eq!(head.headers["connection"], "close");
}
