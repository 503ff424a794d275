//! Requests: what may be sent, and in what form.

use crate::error::found;
use crate::error::Error;
use crate::error::Kind;
use crate::error::Reason;
use crate::h3::fields;
use crate::h3::fields::contents;
use crate::h3::fields::decimal;
use crate::h3::fields::fields_of;
use crate::h3::fields::is_key;
use crate::h3::fields::items;
use crate::h3::fields::lower;
use crate::h3::fields::values_of;
use crate::h3::fields::ROOMY;
use crate::h3::length::content_length;
use crate::h3::length::lemma_length_name;
use crate::h3::length::lemma_written_length_is_read;
use crate::h3::length::length_of;
use crate::text;
use http::HeaderMap;
use vstd::prelude::*;
use vstd::string::StringSliceAdditionalSpecFns;

verus! {

/// A request method, as far as framing depends on it.
#[derive(Clone, Copy, Debug, PartialEq, Eq, Structural)]
pub enum Method {
    Connect,
    Delete,
    Get,
    Head,
    Options,
    Trace,
    /// POST, PUT, PATCH and every method that is not known.
    Other,
}

/// What a request says, apart from its body.
pub struct RequestHead {
    pub method: Method,
    /// Whether the URI has a scheme.
    pub scheme: bool,
    /// The authority of the URI.
    pub authority: Option<Vec<u8>>,
    /// Whether an Extended CONNECT protocol is given.
    pub protocol: bool,
    /// Whether the request declares HTTP Datagram semantics.
    pub datagram: bool,
    /// Whether the body is known to be empty.
    pub end_stream: bool,
    /// The exact size of the body, if it is known.
    pub size: Option<u64>,
    pub headers: HeaderMap,
}

/// What a request says, apart from its body.
#[verifier::ext_equal]
pub struct HeadView {
    pub method: Method,
    pub scheme: bool,
    pub authority: Option<Seq<u8>>,
    pub protocol: bool,
    pub datagram: bool,
    pub end_stream: bool,
    pub size: Option<u64>,
    pub fields: Map<Seq<u8>, Seq<Seq<u8>>>,
}

impl View for RequestHead {
    type V = HeadView;

    open spec fn view(&self) -> HeadView {
        HeadView {
            method: self.method,
            scheme: self.scheme,
            authority: match self.authority {
                Some(authority) => Some(authority@),
                None => None,
            },
            protocol: self.protocol,
            datagram: self.datagram,
            end_stream: self.end_stream,
            size: self.size,
            fields: fields_of(self.headers),
        }
    }
}

impl HeadView {
    /// Whether the `Host` field names another authority than the URI.
    pub open spec fn host_conflicts(self) -> bool {
        let host = values_of(self.fields, "host".spec_bytes());
        self.authority is Some && host.len() > 0 && self.authority != Some(host[0])
    }

    /// Why the request may not be sent, if it may not.
    pub open spec fn fault(self) -> Option<Reason> {
        if self.protocol && self.method != Method::Connect {
            Some(Reason::ProtocolWithoutConnect)
        } else if self.authority is None || (!self.scheme && (self.method != Method::Connect
            || self.protocol)) {
            Some(Reason::MissingSchemeOrAuthority)
        } else if self.host_conflicts() {
            Some(Reason::HostConflict)
        } else {
            match length_of(self.fields) {
                Ok(_) => None,
                Err(reason) => Some(reason),
            }
        }
    }
}

proof fn lemma_names()
    ensures
        is_key("host".spec_bytes()),
        is_key("te".spec_bytes()),
        is_key("connection".spec_bytes()),
        is_key("keep-alive".spec_bytes()),
        is_key("proxy-connection".spec_bytes()),
        is_key("transfer-encoding".spec_bytes()),
        is_key("upgrade".spec_bytes()),
        lower("trailers".spec_bytes()) == "trailers".spec_bytes(),
{
    broadcast use vstd::string::is_ascii_spec_bytes;

    reveal_strlit("host");
    reveal_strlit("te");
    reveal_strlit("trailers");
    reveal_strlit("connection");
    reveal_strlit("keep-alive");
    reveal_strlit("proxy-connection");
    reveal_strlit("transfer-encoding");
    reveal_strlit("upgrade");
    assert("host".is_ascii() && "te".is_ascii() && "trailers".is_ascii());
    assert("connection".is_ascii() && "keep-alive".is_ascii() && "proxy-connection".is_ascii());
    assert("transfer-encoding".is_ascii() && "upgrade".is_ascii());
    assert(lower("trailers".spec_bytes()) =~= "trailers".spec_bytes());
}

/// Checks a request before anything of it is sent.
pub fn validate_request(request: &RequestHead) -> (r: Result<(), Error>)
    ensures
        match request@.fault() {
            None => r is Ok,
            Some(reason) => r == Err::<(), Error>(Error::found(Kind::Http3, reason)),
        },
{
    let connect = request.method == Method::Connect;
    if request.protocol && !connect {
        return Err(found(Kind::Http3, Reason::ProtocolWithoutConnect));
    }
    let ordinary_connect = connect && !request.protocol;
    match &request.authority {
        None => {
            return Err(found(Kind::Http3, Reason::MissingSchemeOrAuthority));
        },
        Some(authority) => {
            if !ordinary_connect && !request.scheme {
                return Err(found(Kind::Http3, Reason::MissingSchemeOrAuthority));
            }
            proof {
                lemma_names();
            }
            let host = fields::values(&request.headers, "host".as_bytes());
            proof {
                assert(contents(host@).len() == host@.len());
                if host@.len() > 0 {
                    assert(contents(host@)[0] == host@[0]@);
                }
            }
            if host.len() > 0 && !text::same(authority.as_slice(), host[0].as_slice()) {
                return Err(found(Kind::Http3, Reason::HostConflict));
            }
        },
    }
    match content_length(&request.headers) {
        Ok(_) => Ok(()),
        Err(error) => Err(error),
    }
}

/// Whether a name is an item of one of the values, in any case. An item with a zero byte is
/// no name.
pub open spec fn listed(values: Seq<Seq<u8>>, name: Seq<u8>) -> bool {
    is_key(name) && exists|i: int, j: int|
        0 <= i < values.len() && 0 <= j < items(values[i]).len() && lower(
            #[trigger] items(values[i])[j],
        ) == name
}

/// Whether a name belongs to one connection only, whatever the fields are.
pub open spec fn connection_name(name: Seq<u8>) -> bool {
    ||| name == "connection".spec_bytes()
    ||| name == "keep-alive".spec_bytes()
    ||| name == "proxy-connection".spec_bytes()
    ||| name == "transfer-encoding".spec_bytes()
    ||| name == "upgrade".spec_bytes()
}

/// Whether the `TE` fields ask for trailers and for nothing else.
pub open spec fn only_trailers(m: Map<Seq<u8>, Seq<Seq<u8>>>) -> bool {
    let te = values_of(m, "te".spec_bytes());
    forall|i: int| 0 <= i < te.len() ==> lower(#[trigger] te[i]) == "trailers".spec_bytes()
}

/// The names of the fields that belong to one connection and are not sent in HTTP/3.
pub open spec fn hop_by_hop(m: Map<Seq<u8>, Seq<Seq<u8>>>) -> Set<Seq<u8>> {
    Set::new(
        |name: Seq<u8>|
            connection_name(name) || listed(values_of(m, "connection".spec_bytes()), name) || (name
                == "te".spec_bytes() && !only_trailers(m)),
    )
}

/// The fields without those that belong to one connection.
pub open spec fn stripped(m: Map<Seq<u8>, Seq<Seq<u8>>>) -> Map<Seq<u8>, Seq<Seq<u8>>> {
    m.remove_keys(hop_by_hop(m))
}

proof fn lemma_lower_key(s: Seq<u8>)
    ensures
        is_key(lower(s)) == is_key(s),
{
    if is_key(lower(s)) {
        assert forall|i: int| 0 <= i < s.len() implies #[trigger] s[i] != 0 by {
            assert(lower(s)[i] != 0);
        }
    }
}

/// Removes the fields that belong to one connection.
pub fn strip_connection_headers(headers: &mut HeaderMap)
    ensures
        fields_of(*final(headers)) == stripped(fields_of(*old(headers))),
{
    let ghost m = fields_of(*headers);
    let ghost mut gone: Set<Seq<u8>> = Set::empty();
    proof {
        lemma_names();
        assert(m.remove_keys(gone) =~= m);
    }
    let connection = fields::values(headers, "connection".as_bytes());
    let ghost values = values_of(m, "connection".spec_bytes());
    let te = fields::values(headers, "te".as_bytes());
    let ghost tes = values_of(m, "te".spec_bytes());
    assert(contents(te@).len() == te@.len());
    assert(contents(connection@).len() == connection@.len());
    let mut keep_te = true;
    for i in 0..te.len()
        invariant
            contents(te@) == tes,
            tes.len() == te@.len(),
            lower("trailers".spec_bytes()) == "trailers".spec_bytes(),
            keep_te == (forall|k: int|
                0 <= k < i ==> lower(#[trigger] tes[k]) == "trailers".spec_bytes()),
    {
        assert(tes[i as int] == te@[i as int]@);
        if !fields::same_ignoring_case(te[i].as_slice(), "trailers".as_bytes()) {
            keep_te = false;
        }
    }
    for i in 0..connection.len()
        invariant
            contents(connection@) == values,
            values.len() == connection@.len(),
            fields_of(*headers) == m.remove_keys(gone),
            forall|name: Seq<u8>| #[trigger]
                gone.contains(name) <==> listed(values.take(i as int), name),
    {
        let names = fields::list(connection[i].as_slice());
        let ghost list = items(values[i as int]);
        assert(values[i as int] == connection@[i as int]@);
        assert(contents(names@).len() == names@.len());
        let ghost before = gone;
        for j in 0..names.len()
            invariant
                contents(names@) == list,
                list.len() == names@.len(),
                fields_of(*headers) == m.remove_keys(gone),
                forall|name: Seq<u8>| #[trigger]
                    gone.contains(name) <==> before.contains(name) || (is_key(name)
                        && exists|k: int| 0 <= k < j && lower(#[trigger] list[k]) == name),
        {
            assert(list[j as int] == names@[j as int]@);
            proof {
                lemma_lower_key(list[j as int]);
            }
            if let Some(name) = fields::read_name(names[j].as_slice()) {
                fields::remove(headers, name.as_slice());
                proof {
                    assert(m.remove_keys(gone).remove(name@) =~= m.remove_keys(
                        gone.insert(name@),
                    ));
                    gone = gone.insert(name@);
                }
            }
        }
        proof {
            assert forall|name: Seq<u8>| #[trigger] gone.contains(name) <==> listed(
                values.take(i + 1),
                name,
            ) by {
                let longer = values.take(i + 1);
                let shorter = values.take(i as int);
                if before.contains(name) {
                    let (a, b) = choose|a: int, b: int|
                        0 <= a < shorter.len() && 0 <= b < items(shorter[a]).len() && lower(
                            #[trigger] items(shorter[a])[b],
                        ) == name;
                    assert(longer[a] == shorter[a]);
                    assert(lower(items(longer[a])[b]) == name);
                }
                if is_key(name) && exists|k: int|
                    0 <= k < list.len() && lower(#[trigger] list[k]) == name {
                    let k = choose|k: int| 0 <= k < list.len() && lower(#[trigger] list[k]) == name;
                    assert(longer[i as int] == values[i as int]);
                    assert(lower(items(longer[i as int])[k]) == name);
                }
                if listed(longer, name) {
                    let (a, b) = choose|a: int, b: int|
                        0 <= a < longer.len() && 0 <= b < items(longer[a]).len() && lower(
                            #[trigger] items(longer[a])[b],
                        ) == name;
                    if a < i {
                        assert(shorter[a] == longer[a]);
                        assert(lower(items(shorter[a])[b]) == name);
                        assert(listed(shorter, name));
                    } else {
                        assert(lower(list[b]) == name);
                    }
                }
            }
        }
    }
    assert(values.take(values.len() as int) =~= values);
    let ghost named = gone;
    fields::remove(headers, "connection".as_bytes());
    fields::remove(headers, "keep-alive".as_bytes());
    fields::remove(headers, "proxy-connection".as_bytes());
    fields::remove(headers, "transfer-encoding".as_bytes());
    fields::remove(headers, "upgrade".as_bytes());
    if !keep_te {
        fields::remove(headers, "te".as_bytes());
    }
    assert(fields_of(*headers) =~= stripped(m));
}

impl Method {
    /// Whether requests with this method normally have no content, so that an empty body
    /// is not announced.
    pub open spec fn is_bodyless(self) -> bool {
        self == Method::Delete || self == Method::Get || self == Method::Head || self
            == Method::Options || self == Method::Trace
    }

    fn bodyless(self) -> (b: bool)
        ensures
            b == self.is_bodyless(),
    {
        match self {
            Method::Delete | Method::Get | Method::Head | Method::Options | Method::Trace => true,
            _ => false,
        }
    }
}

impl HeadView {
    /// The length that the body must have: the declared one, or else its known size. A
    /// CONNECT request has no body.
    pub open spec fn body_length(self) -> Option<u64> {
        match length_of(stripped(self.fields)) {
            Ok(Some(n)) => Some(n),
            _ => if self.method == Method::Connect {
                None
            } else {
                self.size
            },
        }
    }

    /// Whether the size of the body must be added to the fields.
    pub open spec fn announces_size(self) -> bool {
        &&& length_of(stripped(self.fields)) == Ok::<Option<u64>, Reason>(None)
        &&& self.method != Method::Connect
        &&& self.size is Some
        &&& !(self.size == Some(0u64) && self.method.is_bodyless())
    }

    /// The request with other fields.
    pub open spec fn with_fields(self, fields: Map<Seq<u8>, Seq<Seq<u8>>>) -> HeadView {
        HeadView { fields, ..self }
    }

    /// The request as it is sent.
    pub open spec fn as_sent(self) -> HeadView {
        self.with_fields(
            if self.announces_size() {
                stripped(self.fields).insert(
                    "content-length".spec_bytes(),
                    seq![decimal(self.size->0 as nat)],
                )
            } else {
                stripped(self.fields)
            },
        )
    }
}

/// Stripping takes away the declared length or leaves it as it is.
proof fn lemma_strip_keeps_length_valid(m: Map<Seq<u8>, Seq<Seq<u8>>>)
    requires
        length_of(m) is Ok,
    ensures
        length_of(stripped(m)) is Ok,
{
    let name = "content-length".spec_bytes();
    if hop_by_hop(m).contains(name) {
        assert(!stripped(m).contains_key(name));
        assert(values_of(stripped(m), name).len() == 0);
    } else {
        assert(values_of(stripped(m), name) == values_of(m, name));
    }
}

/// Gives a valid request the form in which it is sent, and returns the length that its body
/// must have. Only a request with thousands of fields can fail to take another one.
pub fn prepare(request: &mut RequestHead) -> (r: Result<Option<u64>, Error>)
    requires
        old(request)@.fault() is None,
    ensures
        match r {
            Ok(length) => length == old(request)@.body_length() && final(request)@ == old(
                request,
            )@.as_sent(),
            Err(error) => {
                &&& error == Error::found(Kind::Http3, Reason::TooManyFields)
                &&& old(request)@.announces_size()
                &&& stripped(old(request)@.fields).dom().len() >= ROOMY
                &&& final(request)@ == old(request)@.with_fields(stripped(old(request)@.fields))
            },
        },
{
    let ghost before = request@;
    strip_connection_headers(&mut request.headers);
    proof {
        lemma_strip_keeps_length_valid(before.fields);
    }
    match content_length(&request.headers) {
        Ok(Some(n)) => Ok(Some(n)),
        Ok(None) => {
            if request.method == Method::Connect {
                return Ok(None);
            }
            if let Some(n) = request.size {
                if n > 0 || !request.method.bodyless() {
                    proof {
                        lemma_length_name();
                    }
                    if !fields::insert_number(
                        &mut request.headers,
                        "content-length".as_bytes(),
                        n,
                    ) {
                        return Err(found(Kind::Http3, Reason::TooManyFields));
                    }
                }
            }
            Ok(request.size)
        },
        Err(error) => Err(error),
    }
}

/// Stripping a second time takes nothing more away.
pub proof fn lemma_stripping_is_final(m: Map<Seq<u8>, Seq<Seq<u8>>>)
    ensures
        stripped(stripped(m)) == stripped(m),
{
    let once = stripped(m);
    assert(!once.contains_key("connection".spec_bytes()));
    assert forall|name: Seq<u8>| once.contains_key(name) implies !hop_by_hop(once).contains(
        name,
    ) by {
        assert(!listed(values_of(once, "connection".spec_bytes()), name));
        if name == "te".spec_bytes() {
            assert(values_of(once, name) == values_of(m, name));
            assert(only_trailers(m));
            assert(only_trailers(once));
        }
    }
    assert(stripped(once) =~= once);
}

/// Fields that are not bound to the connection reach the peer unchanged.
pub proof fn lemma_other_fields_are_kept(m: Map<Seq<u8>, Seq<Seq<u8>>>, name: Seq<u8>)
    requires
        !connection_name(name),
        !listed(values_of(m, "connection".spec_bytes()), name),
        name != "te".spec_bytes(),
    ensures
        values_of(stripped(m), name) == values_of(m, name),
{
    assert(!hop_by_hop(m).contains(name));
}

/// No field that is bound to the connection reaches the peer.
pub proof fn lemma_connection_fields_are_gone(m: Map<Seq<u8>, Seq<Seq<u8>>>, name: Seq<u8>)
    requires
        connection_name(name) || listed(values_of(m, "connection".spec_bytes()), name),
    ensures
        values_of(stripped(m), name).len() == 0,
{
    assert(hop_by_hop(m).contains(name));
}

/// What the peer reads as the declared length is the length that the body must have. Where
/// nothing is declared, the length is unknown, or the body is empty and the method
/// normally has none.
pub proof fn lemma_declared_length_is_body_length(request: HeadView)
    requires
        request.fault() is None,
    ensures
        match length_of(request.as_sent().fields) {
            Ok(Some(n)) => request.body_length() == Some(n),
            Ok(None) => request.body_length() is None || (request.body_length() == Some(0u64)
                && request.method.is_bodyless()),
            Err(_) => false,
        },
{
    lemma_strip_keeps_length_valid(request.fields);
    if request.announces_size() {
        lemma_written_length_is_read(stripped(request.fields), request.size->0);
    }
}

/// Of the fields only `Host` and `Content-Length` can make a request faulty. In particular no
/// field that is bound to the connection does.
pub proof fn lemma_only_host_and_length_can_be_faulty(
    request: HeadView,
    fields: Map<Seq<u8>, Seq<Seq<u8>>>,
)
    requires
        values_of(fields, "host".spec_bytes()) == values_of(request.fields, "host".spec_bytes()),
        values_of(fields, "content-length".spec_bytes()) == values_of(
            request.fields,
            "content-length".spec_bytes(),
        ),
    ensures
        request.with_fields(fields).fault() == request.fault(),
{
}

} // verus!
