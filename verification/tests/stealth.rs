use apate::config::profiles::{builtin_profile, CHROME_131};
use apate::stealth::client_hello::ClientHelloSpec;
use apate::stealth::decoy::{DecoyKind, DecoyStreamGenerator};
use apate::stealth::entropy::{delay_in_range, value_in_range, EntropySource};
use apate::stealth::facade::FacadeResponder;
use apate::stealth::padding::{PacketDirection, PaddingError, PaddingShaper};
use apate::stealth::quic_camouflage::{QuicCamouflageError, QuicCamouflagePacket};
use apate::stealth::server_hello::ServerHelloSpec;
use apate::stealth::session_rotation::SessionRotator;
use apate::stealth::timing::TimingShaper;
use apate::stealth::tls_camouflage::{build_client_hello_record, TlsRecord};
use apate::stealth::traffic_shaping::{
    delay_for_draw, size_for_draw, transition_for_draw, weight_total, weighted_index, DelayBucket, SizeBucket,
    TrafficProfile, TrafficShapingEngine, TrafficState, Transition,
};
use apate::stealth::StealthRuntime;

#[test]
fn client_hello_uses_profile_alpn() {
    let profile = builtin_profile(CHROME_131).expect("profile");
    let hello = ClientHelloSpec::from_profile(&profile);
    assert_eq!(profile.alpn, hello.alpn);
}

#[test]
fn client_hello_encoding_contains_cipher_list() {
    let profile = builtin_profile(CHROME_131).expect("profile");
    let hello = ClientHelloSpec::from_profile(&profile);
    let encoded = hello.encode().expect("encoded");

    assert!(encoded.len() > 40);
}

#[test]
fn decoy_generator_produces_payloads_when_enabled() {
    let mut decoy = DecoyStreamGenerator::new(true);
    let mut found_decoy = false;

    for _ in 0..200 {
        decoy.on_packet_sent();
        if decoy.should_inject_decoy().is_some() {
            found_decoy = true;
            break;
        }
    }

    assert!(found_decoy);
}

#[test]
fn decoy_generator_silent_when_disabled() {
    let mut decoy = DecoyStreamGenerator::new(false);

    for _ in 0..200 {
        decoy.on_packet_sent();
        assert!(decoy.should_inject_decoy().is_none());
    }
}

#[test]
fn decoy_payload_contains_http_content() {
    let mut decoy = DecoyStreamGenerator::new(true);
    decoy.packet_counter = 100;
    decoy.next_decoy_at_packet = 1;

    let payload = decoy.should_inject_decoy().expect("decoy");
    let text = String::from_utf8_lossy(&payload.data);
    assert!(text.contains("HTTP") || text.contains("GET") || text.contains("POST"));
}

#[test]
fn fill_padding_produces_nonzero_output() {
    let mut src = EntropySource::new();
    let mut buf = [0u8; 64];
    src.fill_padding(&mut buf);
    assert!(buf.iter().any(|&b| b != 0));
}

#[test]
fn random_in_range_stays_within_bounds() {
    let mut src = EntropySource::new();
    for _ in 0..200 {
        let val = src.random_in_range(10, 50);
        assert!((10..=50).contains(&val));
    }
}

#[test]
fn random_in_range_equal_bounds_returns_min() {
    let mut src = EntropySource::new();
    assert_eq!(42, src.random_in_range(42, 42));
}

#[test]
fn random_delay_us_stays_within_bounds() {
    let mut src = EntropySource::new();
    for _ in 0..200 {
        let delay = src.random_delay_us(100, 5000);
        assert!((100..=5000).contains(&delay));
    }
}

#[test]
fn facade_response_hides_tunnel_error_details() {
    let responder = FacadeResponder::new(String::from("nginx"));
    let response = responder.respond_for_probe("/login");

    assert_eq!(200, response.status_code);
    assert!(!response.body.contains("tunnel"));
    assert!(!response.body.contains("auth"));
}

#[test]
fn runtime_loads_builtin_profile() {
    let runtime = StealthRuntime::from_profile_name(CHROME_131, None).expect("runtime");
    assert_eq!(CHROME_131, runtime.profile().name);
}

#[test]
fn padding_expands_small_packets_to_profile_minimum() {
    let profile = builtin_profile(CHROME_131).expect("profile");
    let shaper = PaddingShaper::from_profile(&profile);
    let shaped = shaper.shape(&[1, 2, 3]).expect("shaped");

    assert!(shaped.len() >= usize::from(profile.min_packet_size));
    assert!(shaped.len() <= usize::from(profile.max_packet_size));
}

#[test]
fn padding_rejects_packets_larger_than_profile_maximum() {
    let profile = builtin_profile(CHROME_131).expect("profile");
    let shaper = PaddingShaper::from_profile(&profile);
    let oversized = vec![0_u8; usize::from(profile.max_packet_size) + 1];

    let shaped = shaper.shape(&oversized);
    assert_eq!(Err(PaddingError::PacketTooLarge), shaped);
}

#[test]
fn download_padding_exceeds_upload_padding() {
    let profile = builtin_profile(CHROME_131).expect("profile");
    let shaper = PaddingShaper::from_profile(&profile);
    let payload = vec![0x42; 200];

    let upload = shaper.shape_directed(&payload, PacketDirection::Upload).expect("upload");
    let download = shaper.shape_directed(&payload, PacketDirection::Download).expect("download");

    assert!(
        download.len() >= upload.len(),
        "download {} should be >= upload {}",
        download.len(),
        upload.len(),
    );
}

#[test]
fn padding_bytes_are_not_all_zero() {
    let profile = builtin_profile(CHROME_131).expect("profile");
    let shaper = PaddingShaper::from_profile(&profile);
    let payload = vec![0x00; 10];

    let shaped = shaper.shape_directed(&payload, PacketDirection::Download).expect("shaped");
    let pad_region = &shaped[10..];
    let nonzero = pad_region.iter().any(|&b| b != 0);
    assert!(nonzero, "padding should contain random bytes, not all zeros");
}

#[test]
fn quic_camouflage_packet_roundtrip() {
    let packet = QuicCamouflagePacket {
        connection_id: 42,
        packet_number: 7,
        payload: b"hello-quic".to_vec(),
    };

    let encoded = packet.encode_masked().expect("encoded");
    let decoded = QuicCamouflagePacket::decode_masked(&encoded).expect("decoded");

    assert_eq!(packet, decoded);
}

#[test]
fn server_hello_encodes_selected_parameters() {
    let hello = ServerHelloSpec::new(String::from("h2"), 0x1301, 0x0010);
    let encoded = hello.encode().expect("encoded");

    assert!(encoded.len() >= 7);
    assert_eq!([0x13, 0x01], [encoded[0], encoded[1]]);
}

#[test]
fn rotation_triggers_after_lifetime() {
    let mut rotator = SessionRotator::new(1, 1);
    rotator.start(0);
    assert!(!rotator.should_rotate(500));
    assert!(rotator.should_rotate(1000));
}

#[test]
fn rotation_resets_timer() {
    let mut rotator = SessionRotator::new(2, 2);
    rotator.start(0);
    assert!(rotator.should_rotate(2000));

    rotator.on_rotated(2000, 2, 2);
    assert!(!rotator.should_rotate(3000));
    assert!(rotator.should_rotate(4000));
    assert_eq!(1, rotator.rotation_count());
}

#[test]
fn session_age_tracks_current_session() {
    let mut rotator = SessionRotator::new(10, 10);
    rotator.start(1000);
    assert_eq!(500, rotator.session_age_ms(1500));

    rotator.on_rotated(5000, 10, 10);
    assert_eq!(200, rotator.session_age_ms(5200));
}

#[test]
fn timing_shaper_applies_jitter_within_bounds() {
    let profile = builtin_profile(CHROME_131).expect("profile");
    let shaper = TimingShaper::from_profile(&profile);
    let delay = shaper.shape_delay_ms(10, 128);

    assert!(shaper.is_within_bounds(delay, 10));
}

#[test]
fn timing_shaper_keeps_monotonic_growth_for_larger_payload() {
    let profile = builtin_profile(CHROME_131).expect("profile");
    let shaper = TimingShaper::from_profile(&profile);

    let small_packet = shaper.shape_delay_ms(5, 64);
    let large_packet = shaper.shape_delay_ms(5, 512);

    assert!(large_packet >= 5);
    assert!(small_packet >= 5);
}

#[test]
fn tls_record_roundtrip_preserves_payload() {
    let profile = builtin_profile(CHROME_131).expect("profile");
    let record = build_client_hello_record(&profile).expect("record");
    let encoded = record.encode().expect("encoded");
    let decoded = TlsRecord::decode(&encoded).expect("decoded");

    assert_eq!(record.payload, decoded.payload);
}

#[test]
fn tls_record_rejects_invalid_type() {
    let invalid = [0x01, 0x03, 0x03, 0x00, 0x00];
    let decoded = TlsRecord::decode(&invalid);
    assert!(decoded.is_err());
}

#[test]
fn chrome_profile_has_all_states() {
    let profile = TrafficProfile::chrome_h3();
    assert!(!profile.idle.size_buckets.is_empty());
    assert!(!profile.page_load.size_buckets.is_empty());
    assert!(!profile.streaming.size_buckets.is_empty());
    assert!(!profile.interactive.size_buckets.is_empty());
    assert!(!profile.burst_download.size_buckets.is_empty());
}

#[test]
fn engine_starts_in_idle() {
    let engine = TrafficShapingEngine::from_profile_name("chrome_h3");
    assert_eq!(TrafficState::Idle, engine.current_state());
}

#[test]
fn shape_packet_pads_small_payload() {
    let mut engine = TrafficShapingEngine::from_profile_name("chrome_h3");
    let shaped = engine.shape_packet(&[1, 2, 3]);
    assert!(shaped.payload.len() >= 3);
    assert_eq!(&shaped.payload[..3], &[1, 2, 3]);
}

#[test]
fn shape_packet_preserves_large_payload() {
    let mut engine = TrafficShapingEngine::from_profile_name("chrome_h3");
    let large = vec![0xAB; 1500];
    let shaped = engine.shape_packet(&large);
    assert!(shaped.payload.len() >= 1500);
    assert_eq!(&shaped.payload[..1500], &large[..]);
}

#[test]
fn engine_transitions_state_after_packets() {
    let mut engine = TrafficShapingEngine::from_profile_name("chrome_h3");
    let initial = engine.current_state();

    for _ in 0..1000 {
        engine.shape_packet(&[0; 100]);
    }

    let transitioned = engine.current_state() != initial || engine.packets_in_state < 1000;
    assert!(transitioned);
}

#[test]
fn delay_is_within_profile_bounds() {
    let mut engine = TrafficShapingEngine::from_profile_name("chrome_h3");
    for _ in 0..100 {
        let shaped = engine.shape_packet(&[0; 50]);
        assert!(shaped.delay_us <= 30_000_000);
    }
}

#[test]
fn size_distribution_covers_expected_range() {
    let mut engine = TrafficShapingEngine::from_profile_name("chrome_h3");
    engine.current_state = TrafficState::PageLoad;
    engine.packets_in_state = 0;
    engine.state_packet_limit = 10000;

    let mut sizes: Vec<usize> = Vec::new();
    for _ in 0..1000 {
        let shaped = engine.shape_packet(&[0; 10]);
        sizes.push(shaped.payload.len());
    }

    let small = sizes.iter().filter(|&&s| s < 200).count();
    let medium = sizes.iter().filter(|&&s| (200..800).contains(&s)).count();
    let large = sizes.iter().filter(|&&s| s >= 800).count();

    assert!(small > 50);
    assert!(medium > 100);
    assert!(large > 100);
}

#[test]
fn firefox_profile_differs_from_chrome() {
    let chrome = TrafficProfile::chrome_h3();
    let firefox = TrafficProfile::firefox_h3();
    assert_ne!(chrome.name, firefox.name);
}

#[test]
fn quic_decode_rejects_malformed_packets() {
    assert_eq!(Err(QuicCamouflageError::MalformedPacket), QuicCamouflagePacket::decode_masked(&[0xC0; 8]));
    let packet = QuicCamouflagePacket { connection_id: 0x0102_0304, packet_number: 0x0506, payload: vec![0xAA] };
    let encoded = packet.encode_masked().expect("encoded");
    assert_eq!(vec![0xC0, 1, 2, 3, 4, 5, 6, 0, 1, 0xAA ^ (1 ^ 2 ^ 3 ^ 4 ^ 5 ^ 6)], encoded);
    let mut bad_flags = encoded.clone();
    bad_flags[0] = 0x40;
    assert_eq!(Err(QuicCamouflageError::MalformedPacket), QuicCamouflagePacket::decode_masked(&bad_flags));
    let mut long = encoded.clone();
    long.push(0);
    assert_eq!(Err(QuicCamouflageError::MalformedPacket), QuicCamouflagePacket::decode_masked(&long));
    let empty = QuicCamouflagePacket { connection_id: 1, packet_number: 1, payload: Vec::new() };
    assert_eq!(Err(QuicCamouflageError::InvalidPayloadLength), empty.encode_masked());
}

#[test]
fn facade_page_names_the_path_and_renders_http() {
    let responder = FacadeResponder::new(String::from("nginx"));
    let page = responder.respond_for_probe("  ");
    assert_eq!("<html><body><h1>Welcome</h1><p>Resource /</p></body></html>", page.body);
    assert_eq!(
        vec![
            (String::from("Server"), String::from("nginx")),
            (String::from("Cache-Control"), String::from("no-store"))
        ],
        page.headers
    );
    let bytes = page.to_http_bytes();
    let text = String::from_utf8(bytes).expect("utf8");
    assert_eq!(
        "HTTP/1.1 200 OK\r\nContent-Type: text/html; charset=utf-8\r\nContent-Length: 59\r\nServer: nginx\r\nCache-Control: no-store\r\n\r\n<html><body><h1>Welcome</h1><p>Resource /</p></body></html>",
        text
    );
}

#[test]
fn decoy_get_request_is_well_formed() {
    let mut seen_get = false;
    for _ in 0..60 {
        let mut decoy = DecoyStreamGenerator::new(true);
        decoy.packet_counter = 60;
        let payload = decoy.should_inject_decoy().expect("decoy");
        assert_eq!(0, decoy.packet_counter);
        assert!((10..=50).contains(&decoy.next_decoy_at_packet));
        let text = String::from_utf8(payload.data.clone()).expect("ascii");
        match payload.kind {
            DecoyKind::HttpGet => {
                seen_get = true;
                assert!(text.starts_with("GET /"));
                assert!(text.ends_with(" HTTP/1.1\r\nHost: cdn.example.com\r\nAccept: */*\r\nConnection: keep-alive\r\n\r\n"));
            },
            DecoyKind::HttpPost => {
                let body = text.split("\r\n\r\n").nth(1).expect("body");
                assert!(text.contains(&format!("Content-Length: {}\r\n", body.len())));
                assert!(body.len() >= 64 && body.len() <= 512);
            },
            DecoyKind::HttpResponse => {
                assert!(text.starts_with("HTTP/1.1 200 OK\r\n"));
                let body = text.split("\r\n\r\n").nth(1).expect("body");
                assert!(body.len() >= 128 && body.len() <= 1024);
            },
        }
    }
    assert!(seen_get);
}

#[test]
fn session_rotation_bounds_lifetime() {
    for _ in 0..50 {
        let mut rotator = SessionRotator::new(3, 5);
        rotator.start(0);
        assert!(!rotator.should_rotate(2999));
        assert!(rotator.should_rotate(5000));
    }
    let rotator = SessionRotator::new(9, 4);
    assert!(!rotator.should_rotate(8999));
    assert!(rotator.should_rotate(9000));
    assert_eq!(0, rotator.session_age_ms(0));
}

#[test]
fn random_words_pick_within_ranges() {
    assert_eq!(10, value_in_range(10, 50, 0));
    assert_eq!(10 + 100 % 41, value_in_range(10, 50, 100));
    assert_eq!(50, value_in_range(10, 50, 40));
    assert_eq!(7, value_in_range(7, 7, 12345));
    assert_eq!(9, value_in_range(9, 3, 12345));
    assert_eq!(1_000 + 12_345 % 1_001, delay_in_range(1_000, 2_000, 12_345));
    assert_eq!(5, delay_in_range(5, 5, 99));
}

#[test]
fn chaff_is_sent_only_for_low_rolls_while_idle() {
    let mut engine = TrafficShapingEngine::new(TrafficProfile::chrome_h3());
    assert_eq!(TrafficState::Idle, engine.current_state());
    let sent = engine.chaff_for_roll(3).expect("low roll sends cover");
    assert_eq!(TrafficState::Idle, sent.state);
    assert!(!sent.payload.is_empty());
    assert!(engine.chaff_for_roll(14).is_some());
    assert!(engine.chaff_for_roll(15).is_none());
    assert!(engine.chaff_for_roll(100).is_none());
}

#[test]
fn timing_jitter_grows_with_packet_size_up_to_a_full_frame() {
    let profile = builtin_profile(CHROME_131).expect("profile");
    let shaper = TimingShaper::from_profile(&profile);
    assert_eq!(9, shaper.shape_delay_ms(5, 64));
    assert_eq!(13, shaper.shape_delay_ms(5, 512));
    assert_eq!(23, shaper.shape_delay_ms(5, 1500));
    assert_eq!(23, shaper.shape_delay_ms(5, 9000));
    assert!(shaper.shape_delay_ms(5, 512) >= shaper.shape_delay_ms(5, 64));
    assert_eq!(u64::MAX, shaper.shape_delay_ms(u64::MAX - 1, 1500));
}

#[test]
fn weighted_draws_land_where_the_roll_says() {
    let ws = [70_u16, 0, 30];
    assert_eq!(100, weight_total(&ws));
    assert_eq!(Some(0), weighted_index(&ws, 0));
    assert_eq!(Some(0), weighted_index(&ws, 69));
    assert_eq!(Some(2), weighted_index(&ws, 70));
    assert_eq!(Some(2), weighted_index(&ws, 99));
    assert_eq!(None, weighted_index(&ws, 100));
    assert_eq!(None, weighted_index(&[0_u16, 0], 0));

    let sizes = [
        SizeBucket { min: 40, max: 100, weight: 70 },
        SizeBucket { min: 100, max: 300, weight: 30 },
    ];
    assert_eq!(40 + 7 % 61, size_for_draw(&sizes, 5, 7));
    assert_eq!(100 + 500 % 201, size_for_draw(&sizes, 70, 500));
    assert_eq!(300, size_for_draw(&sizes, 100, 500));
    assert_eq!(100, size_for_draw(&[SizeBucket { min: 1, max: 2, weight: 0 }], 0, 0));

    let delays = [
        DelayBucket { min_us: 1_000, max_us: 1_000, weight: 1 },
        DelayBucket { min_us: 10, max_us: 20, weight: 3 },
    ];
    assert_eq!(1_000, delay_for_draw(&delays, 0, 12345));
    assert_eq!(10 + 12345 % 11, delay_for_draw(&delays, 3, 12345));
    assert_eq!(20, delay_for_draw(&delays, 4, 12345));
    assert_eq!(1_000, delay_for_draw(&[], 0, 0));

    let moves = [
        Transition { to: TrafficState::PageLoad, weight: 10 },
        Transition { to: TrafficState::Streaming, weight: 5 },
    ];
    assert_eq!(TrafficState::PageLoad, transition_for_draw(&moves, TrafficState::Idle, 9));
    assert_eq!(TrafficState::Streaming, transition_for_draw(&moves, TrafficState::Idle, 12));
    assert_eq!(TrafficState::Idle, transition_for_draw(&moves, TrafficState::Idle, 15));
}
