use http3::SettingId;
use netty::h3::options::{Http3Options, Http3OptionsBuilder};

#[test]
fn defaults_are_documented_values() {
    let options = Http3Options::builder().build();
    assert_eq!(options.max_concurrent_requests, 128);
    assert_eq!(options.max_field_section_size, 64 * 1024);
    assert_eq!(options.max_qpack_decode_buffer_size, 256 * 1024);
    assert_eq!(options.qpack_encoder_table_capacity, 0);
    assert_eq!(options.qpack_max_table_capacity, None);
    assert_eq!(options.qpack_blocked_streams, None);
    assert!(options.send_grease);
    assert!(!options.enable_extended_connect);
    assert_eq!(options.settings_order, None);
    assert_eq!(options, Http3Options::default());
    assert_eq!(options, Http3OptionsBuilder::default().build());
}

#[test]
fn builders_set_one_option_each() {
    let order = vec![SettingId::H3_DATAGRAM, SettingId::QPACK_MAX_TABLE_CAPACITY];
    let options = Http3Options::builder()
        .max_concurrent_requests(1)
        .max_field_section_size(2)
        .max_qpack_decode_buffer_size(3)
        .qpack_encoder_table_capacity(4)
        .qpack_max_table_capacity(Some(5))
        .qpack_blocked_streams(Some(0))
        .send_grease(false)
        .enable_extended_connect(true)
        .settings_order(order.clone())
        .build();
    assert_eq!(options.max_concurrent_requests, 1);
    assert_eq!(options.max_field_section_size, 2);
    assert_eq!(options.max_qpack_decode_buffer_size, 3);
    assert_eq!(options.qpack_encoder_table_capacity, 4);
    assert_eq!(options.qpack_max_table_capacity, Some(5));
    assert_eq!(options.qpack_blocked_streams, Some(0));
    assert!(!options.send_grease);
    assert!(options.enable_extended_connect);
    assert_eq!(options.settings_order, Some(order));
}
