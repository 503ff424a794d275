//! HTTP/3 configuration for externally established QUIC connections.

use http3::SettingId;
use vstd::prelude::*;

verus! {

#[verifier::external_type_specification]
#[verifier::external_body]
pub struct ExSettingId(http3::SettingId);

/// Options for tuning HTTP/3 connections.
///
/// Controls request admission, header limits, QPACK compression and SETTINGS. The caller
/// configures QUIC transport parameters and TLS separately.
#[non_exhaustive]
#[derive(Clone, Debug, PartialEq, Eq, Hash)]
pub struct Http3Options {
    /// Maximum number of active requests, including requests waiting for QUIC stream credit.
    /// Defaults to 128; zero fails the handshake. This is a local admission limit.
    pub max_concurrent_requests: usize,
    /// Maximum decoded response field-section size in bytes; defaults to 64 KiB.
    /// Counts each name and value plus 32 bytes of overhead per field.
    /// Also advertised in SETTINGS unless omitted by [`Self::settings_order`].
    pub max_field_section_size: u64,
    /// Local limit for an encoded HEADERS payload or one QPACK encoder-stream string, in bytes.
    /// Defaults to 256 KiB. This limit is not advertised in SETTINGS.
    pub max_qpack_decode_buffer_size: usize,
    /// Maximum dynamic-table capacity used to encode requests, in bytes.
    /// Defaults to zero (stateless encoding); the peer's advertised capacity also limits it.
    pub qpack_encoder_table_capacity: usize,
    /// QPACK decoder table capacity advertised to the peer, in bytes.
    /// Defaults to `None`, omitting the setting and using the protocol default of zero.
    /// `Some(0)` explicitly advertises zero, subject to [`Self::settings_order`].
    pub qpack_max_table_capacity: Option<u64>,
    /// Maximum number of QPACK-blocked streams advertised to the peer.
    /// Defaults to `None`, omitting the setting and using the protocol default of zero.
    /// `Some(0)` explicitly advertises zero, subject to [`Self::settings_order`].
    pub qpack_blocked_streams: Option<u64>,
    /// Whether to send GREASE frames and settings. Defaults to `true`.
    pub send_grease: bool,
    /// Whether to advertise `SETTINGS_ENABLE_CONNECT_PROTOCOL`. Defaults to `false`.
    /// Sending Extended CONNECT requests still requires the peer to enable the protocol.
    pub enable_extended_connect: bool,
    /// Exact order of settings in the initial SETTINGS frame; defaults to the library order.
    /// `Some` omits unlisted or unconfigured entries; GREASE, if enabled, is appended.
    /// Datagram handshakes require `H3_DATAGRAM` in an explicit order.
    pub settings_order: Option<Vec<SettingId>>,
}

/// Builder for [`Http3Options`], applied when establishing an HTTP/3 connection.
#[must_use]
#[derive(Clone, Debug)]
pub struct Http3OptionsBuilder {
    opts: Http3Options,
}

impl View for Http3OptionsBuilder {
    type V = Http3Options;

    closed spec fn view(&self) -> Http3Options {
        self.opts
    }
}

impl Http3Options {
    /// The options of a connection for which nothing was configured.
    pub open spec fn initial() -> Http3Options {
        Http3Options {
            max_concurrent_requests: 128,
            max_field_section_size: 65536,
            max_qpack_decode_buffer_size: 262144,
            qpack_encoder_table_capacity: 0,
            qpack_max_table_capacity: None,
            qpack_blocked_streams: None,
            send_grease: true,
            enable_extended_connect: false,
            settings_order: None,
        }
    }

    /// Creates an [`Http3OptionsBuilder`] with the default connection options.
    pub fn builder() -> (b: Http3OptionsBuilder)
        ensures
            b@ == Http3Options::initial(),
    {
        Http3OptionsBuilder { opts: Http3Options::default() }
    }
}

impl Default for Http3Options {
    fn default() -> (o: Http3Options)
        ensures
            o == Http3Options::initial(),
    {
        Http3Options {
            max_concurrent_requests: 128,
            max_field_section_size: 64 * 1024,
            max_qpack_decode_buffer_size: 256 * 1024,
            qpack_encoder_table_capacity: 0,
            qpack_max_table_capacity: None,
            qpack_blocked_streams: None,
            send_grease: true,
            enable_extended_connect: false,
            settings_order: None,
        }
    }
}

impl Default for Http3OptionsBuilder {
    fn default() -> (b: Http3OptionsBuilder)
        ensures
            b@ == Http3Options::initial(),
    {
        Http3OptionsBuilder { opts: Http3Options::default() }
    }
}

impl Http3OptionsBuilder {
    /// Sets the active request limit, including requests waiting for QUIC credit.
    /// Zero fails the handshake.
    pub fn max_concurrent_requests(self, value: usize) -> (b: Http3OptionsBuilder)
        ensures
            b@ == (Http3Options { max_concurrent_requests: value, ..self@ }),
    {
        let mut b = self;
        b.opts.max_concurrent_requests = value;
        b
    }

    /// Limits decoded field sections, counting 32 bytes of overhead per field.
    /// Exceeding this limit cancels the affected response stream.
    pub fn max_field_section_size(self, value: u64) -> (b: Http3OptionsBuilder)
        ensures
            b@ == (Http3Options { max_field_section_size: value, ..self@ }),
    {
        let mut b = self;
        b.opts.max_field_section_size = value;
        b
    }

    /// Limits the encoded size of a received field section and decoder buffering.
    /// Exceeding this budget closes the connection with `H3_EXCESSIVE_LOAD`.
    pub fn max_qpack_decode_buffer_size(self, value: usize) -> (b: Http3OptionsBuilder)
        ensures
            b@ == (Http3Options { max_qpack_decode_buffer_size: value, ..self@ }),
    {
        let mut b = self;
        b.opts.max_qpack_decode_buffer_size = value;
        b
    }

    /// Caps the local dynamic QPACK encoder table, also limited by the peer.
    pub fn qpack_encoder_table_capacity(self, value: usize) -> (b: Http3OptionsBuilder)
        ensures
            b@ == (Http3Options { qpack_encoder_table_capacity: value, ..self@ }),
    {
        let mut b = self;
        b.opts.qpack_encoder_table_capacity = value;
        b
    }

    /// Sets the advertised QPACK decoder table capacity; `None` omits it.
    pub fn qpack_max_table_capacity(self, value: Option<u64>) -> (b: Http3OptionsBuilder)
        ensures
            b@ == (Http3Options { qpack_max_table_capacity: value, ..self@ }),
    {
        let mut b = self;
        b.opts.qpack_max_table_capacity = value;
        b
    }

    /// Sets the advertised blocked-stream limit; `None` omits it.
    pub fn qpack_blocked_streams(self, value: Option<u64>) -> (b: Http3OptionsBuilder)
        ensures
            b@ == (Http3Options { qpack_blocked_streams: value, ..self@ }),
    {
        let mut b = self;
        b.opts.qpack_blocked_streams = value;
        b
    }

    /// Enables GREASE frames and settings.
    pub fn send_grease(self, value: bool) -> (b: Http3OptionsBuilder)
        ensures
            b@ == (Http3Options { send_grease: value, ..self@ }),
    {
        let mut b = self;
        b.opts.send_grease = value;
        b
    }

    /// Advertises `SETTINGS_ENABLE_CONNECT_PROTOCOL`.
    /// Sending Extended CONNECT still requires permission from the peer.
    pub fn enable_extended_connect(self, value: bool) -> (b: Http3OptionsBuilder)
        ensures
            b@ == (Http3Options { enable_extended_connect: value, ..self@ }),
    {
        let mut b = self;
        b.opts.enable_extended_connect = value;
        b
    }

    /// Selects settings in exact wire order; unlisted settings are omitted.
    /// Unconfigured entries are skipped and GREASE, if enabled, is appended.
    /// Datagram handshakes require `H3_DATAGRAM` in an explicit order.
    pub fn settings_order(self, order: Vec<SettingId>) -> (b: Http3OptionsBuilder)
        ensures
            b@ == (Http3Options { settings_order: Some(order), ..self@ }),
    {
        let mut b = self;
        b.opts.settings_order = Some(order);
        b
    }

    /// Finishes the configuration; the handshake validates resource limits.
    pub fn build(self) -> (o: Http3Options)
        ensures
            o == self@,
    {
        self.opts
    }
}

} // verus!
