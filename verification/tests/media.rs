use rustalk::media::codec::{standard_codecs, Codec, CodecConfig};
use rustalk::media::sdp::{MediaDescription, SdpError, SdpSession};
use rustalk::media::srtp::{SrtpConfig, SrtpPassthrough};
use rustalk::media::{negotiate, MediaSession};

#[test]
fn test_standard_codecs() {
    let codecs = standard_codecs();
    assert!(!codecs.is_empty());
    assert!(codecs.iter().any(|c| c.name == "PCMU"));
    assert!(codecs.iter().any(|c| c.name == "PCMA"));
    assert!(codecs.iter().any(|c| c.name == "opus"));
}

#[test]
fn test_codec_rtpmap() {
    let codec = Codec::new("PCMU", 0, 8000, 1, "Test codec", true);
    assert_eq!(codec.rtpmap(), "0 PCMU/8000");

    let codec_stereo = Codec::new("opus", 111, 48000, 2, "Opus stereo", true);
    assert_eq!(codec_stereo.rtpmap(), "111 opus/48000/2");
}

#[test]
fn test_codec_config_default() {
    let config = CodecConfig::default();
    assert!(!config.codecs.is_empty());
    assert!(config.enabled_codecs().len() > 0);
}

#[test]
fn test_enable_disable_codec() {
    let mut config = CodecConfig::new();

    // Disable a codec
    assert!(config.disable_codec("PCMU"));
    assert!(!config.get_by_name("PCMU").unwrap().enabled);

    // Enable it back
    assert!(config.enable_codec("PCMU"));
    assert!(config.get_by_name("PCMU").unwrap().enabled);

    // Try non-existent codec
    assert!(!config.enable_codec("NonExistent"));
}

#[test]
fn test_get_codec_by_payload_type() {
    let config = CodecConfig::new();
    let codec = config.get_by_payload_type(0);
    assert!(codec.is_some());
    assert_eq!(codec.unwrap().name, "PCMU");
}

#[test]
fn test_get_codec_by_name() {
    let config = CodecConfig::new();
    let codec = config.get_by_name("PCMA");
    assert!(codec.is_some());
    assert_eq!(codec.unwrap().payload_type, 8);

    // Case insensitive
    let codec = config.get_by_name("pcma");
    assert!(codec.is_some());
}

#[test]
fn codec_test_add_custom_codec() {
    let mut config = CodecConfig::new();
    let custom = Codec::new("CustomCodec", 120, 16000, 1, "Custom test codec", false);

    assert!(config.add_codec(custom.clone()).is_ok());
    assert!(config.get_by_name("CustomCodec").is_some());

    // Try to add codec with duplicate payload type
    let duplicate = Codec::new("DuplicatePT", 120, 8000, 1, "Duplicate PT", false);
    assert!(config.add_codec(duplicate).is_err());
}

#[test]
fn codec_test_remove_codec() {
    let mut config = CodecConfig::new();

    // Cannot remove standard codec
    assert!(config.remove_codec("PCMU").is_err());

    // Add and remove custom codec
    let custom = Codec::new("CustomCodec", 120, 16000, 1, "Custom test codec", false);
    config.add_codec(custom).unwrap();
    assert!(config.remove_codec("CustomCodec").is_ok());
    assert!(config.get_by_name("CustomCodec").is_none());
}

#[test]
fn test_sdp_formats() {
    let mut config = CodecConfig::new();

    // Disable all but PCMU and PCMA
    for codec in &config.codecs.clone() {
        if codec.name != "PCMU" && codec.name != "PCMA" {
            config.disable_codec(&codec.name);
        }
    }

    let formats = config.sdp_formats();
    assert!(formats.contains("0")); // PCMU
    assert!(formats.contains("8")); // PCMA
}

#[test]
fn test_sdp_rtpmaps() {
    let mut config = CodecConfig::new();

    // Keep only PCMU enabled
    for codec in &config.codecs.clone() {
        if codec.name != "PCMU" {
            config.disable_codec(&codec.name);
        }
    }

    let rtpmaps = config.sdp_rtpmaps();
    assert_eq!(rtpmaps.len(), 1);
    assert!(rtpmaps[0].contains("a=rtpmap:0 PCMU/8000"));
}

#[test]
fn test_reorder_codec() {
    let mut config = CodecConfig::new();
    let initial_first = config.codecs[0].name.clone();
    let initial_third = config.codecs[2].name.clone();

    // Move codec from index 2 to index 0
    assert!(config.reorder_codec(2, 0).is_ok());
    assert_eq!(config.codecs[0].name, initial_third);
    assert_eq!(config.codecs[1].name, initial_first);

    // Verify priorities are updated
    assert_eq!(config.codecs[0].priority, Some(0));
    assert_eq!(config.codecs[1].priority, Some(1));
}

#[test]
fn test_reorder_codec_invalid_index() {
    let mut config = CodecConfig::new();
    let len = config.codecs.len();

    // Invalid from_index
    assert!(config.reorder_codec(len + 1, 0).is_err());

    // Invalid to_index
    assert!(config.reorder_codec(0, len + 1).is_err());
}

#[test]
fn codec_test_priority_ordering() {
    let mut config = CodecConfig::new();

    // Set custom priorities
    config.codecs[0].priority = Some(5);
    config.codecs[1].priority = Some(2);
    config.codecs[2].priority = Some(1);

    let ordered = config.get_priority_ordered();

    // Should be sorted by priority (lower number first)
    assert_eq!(ordered[0].priority, Some(1));
    assert_eq!(ordered[1].priority, Some(2));
    assert_eq!(ordered[2].priority, Some(5));
}

#[test]
fn test_sort_by_priority() {
    let mut config = CodecConfig::new();

    // Set reverse priorities
    let len = config.codecs.len();
    for (i, codec) in config.codecs.iter_mut().enumerate() {
        codec.priority = Some((len - i) as u32);
    }

    config.sort_by_priority();

    // After sorting, priorities should be in ascending order
    for i in 0..config.codecs.len() - 1 {
        assert!(config.codecs[i].priority.unwrap() < config.codecs[i + 1].priority.unwrap());
    }
}

#[test]
fn test_media_session_srtp() {
    let session = MediaSession::new().enable_srtp();
    assert!(session.srtp_enabled);
}

#[test]
fn test_parse_sdp() {
    let mut session = MediaSession::new();
    let sdp = "v=0\r\n\
               o=alice 2890844526 2890844526 IN IP4 192.168.1.100\r\n\
               s=Session\r\n\
               c=IN IP4 192.168.1.100\r\n\
               t=0 0\r\n\
               m=audio 49170 RTP/AVP 0\r\n";

    session.parse_sdp(sdp).unwrap();
    assert_eq!(session.rtp_address, Some("192.168.1.100".to_string()));
    assert_eq!(session.rtp_port, Some(49170));
}

#[test]
fn test_srtp_config() {
    let config = SrtpConfig::new().enable();
    assert!(config.enabled);
}

#[test]
fn test_crypto_attribute() {
    let config = SrtpConfig::new()
        .enable()
        .with_crypto_suite("AES_CM_128_HMAC_SHA1_80".to_string());

    let attr = config.to_crypto_attribute(1);
    assert!(attr.contains("AES_CM_128_HMAC_SHA1_80"));
}

#[test]
fn codec_texts_and_catalog() {
    let config = CodecConfig::new();
    assert_eq!(config.codecs.len(), 10);
    assert_eq!(config.sdp_formats(), "0 8 9 3 18 97 111 96 98 99");
    assert_eq!(config.sdp_rtpmaps()[6], "a=rtpmap:111 opus/48000/2");
    let c = &config.codecs[6];
    assert_eq!(c.media_format(), "111");
    assert_eq!(c.to_string(), "opus (PT: 111, 48000Hz, 2ch)");
    assert_eq!(c.duplicate(), *c);
    assert!(c.is_standard);
    assert_eq!(config.codecs[0].description, "G.711 \u{3bc}-law (64 kbps)");
    let mut config = CodecConfig::new();
    let mut custom = Codec::new("X", 0, 8000, 1, "", true);
    custom.is_standard = true;
    assert_eq!(
        config.add_codec(custom),
        Err("Codec with payload type 0 already exists".to_string())
    );
    let mut custom = Codec::new("X", 127, 8000, 1, "", true);
    custom.is_standard = true;
    assert_eq!(config.add_codec(custom), Ok(()));
    // an added codec is never standard
    assert!(!config.get_by_name("x").unwrap().is_standard);
    assert_eq!(config.remove_codec("nope"), Err("Codec 'nope' not found".to_string()));
    assert_eq!(config.remove_codec("pcmu"), Err("Cannot remove standard codecs".to_string()));
    assert_eq!(config.reorder_codec(11, 0), Err("Invalid from_index: 11".to_string()));
    assert_eq!(config.reorder_codec(0, 11), Err("Invalid to_index: 11".to_string()));
    assert_eq!(config.reorder_codec(3, 3), Ok(()));
    assert_eq!(config.codecs[3].priority, None);
    assert_eq!(config.reorder_codec(0, 10), Ok(()));
    assert_eq!(config.codecs[10].name, "PCMU");
    assert_eq!(config.codecs[10].priority, Some(10));
    assert_eq!(config.codecs[0].name, "PCMA");
    // codecs without a priority sort behind the others, in their order
    let mut config = CodecConfig::new();
    config.codecs[9].priority = Some(7);
    config.codecs[4].priority = Some(7);
    config.codecs[2].priority = Some(3);
    config.sort_by_priority();
    let names: Vec<&str> = config.codecs.iter().map(|c| c.name.as_str()).collect();
    assert_eq!(
        names,
        vec!["G722", "G729", "SILK", "PCMU", "PCMA", "GSM", "iLBC", "opus", "AMR", "AMR-WB"]
    );
    config.disable_codec("G729");
    let names: Vec<&str> = config.get_priority_ordered().iter().map(|c| c.name.as_str()).collect();
    assert_eq!(names[..3], ["G722", "SILK", "PCMU"]);
    config.update_priorities();
    assert_eq!(config.codecs[9].priority, Some(9));
}

#[test]
fn session_descriptions_parse_and_print() {
    let text = "v=0\r\no=alice 1 1 IN IP4 10.0.0.1\r\ns=Call\r\nc=IN IP4 10.0.0.1\r\nt=0 0\r\n\
                m=audio 49170 RTP/SAVP 0 8 x 300 101\r\na=rtpmap:0 PCMU/8000\r\n\
                a=crypto:1 AES_CM_128_HMAC_SHA1_80 inline:abc\r\nm=video 0 RTP/AVP\r\n  \r\nm=short 1\n";
    let s = SdpSession::parse(text).unwrap();
    assert_eq!(s.version, 0);
    assert_eq!(s.origin, "alice 1 1 IN IP4 10.0.0.1");
    assert_eq!(s.session_name, "Call");
    assert_eq!(s.connection, Some("IN IP4 10.0.0.1".to_string()));
    assert_eq!(s.media.len(), 2);
    assert_eq!(s.media[0].media_type, "audio");
    assert_eq!(s.media[0].port, 49170);
    assert_eq!(s.media[0].protocol, "RTP/SAVP");
    assert_eq!(s.media[0].formats, vec![0, 8, 101]);
    assert_eq!(
        s.media[0].attributes,
        vec!["rtpmap:0 PCMU/8000", "crypto:1 AES_CM_128_HMAC_SHA1_80 inline:abc"]
    );
    assert!(s.media[1].formats.is_empty());
    assert_eq!(
        s.to_string(),
        "v=0\r\no=alice 1 1 IN IP4 10.0.0.1\r\ns=Call\r\nc=IN IP4 10.0.0.1\r\nt=0 0\r\n\
         m=audio 49170 RTP/SAVP 0 8 101\r\na=rtpmap:0 PCMU/8000\r\n\
         a=crypto:1 AES_CM_128_HMAC_SHA1_80 inline:abc\r\nm=video 0 RTP/AVP \r\n"
    );
    assert_eq!(SdpSession::new().to_string(), "v=0\r\no=\r\ns=\r\nt=0 0\r\n");
    assert_eq!(SdpSession::parse("").unwrap().media.len(), 0);
    assert_eq!(SdpSession::parse("v=x\r\n").unwrap_err(), SdpError::InvalidVersion);
    assert_eq!(SdpSession::parse("v=256\r\n").unwrap_err(), SdpError::InvalidVersion);
    assert_eq!(SdpSession::parse("m=audio 70000 RTP/AVP 0\r\n").unwrap_err(), SdpError::InvalidPort);
    assert_eq!(SdpError::InvalidPort.message(), "Invalid SDP media port");
    assert_eq!(SdpSession::default().version, 0);
}

#[test]
fn media_session_reads_connection_and_profile() {
    let mut session = MediaSession::new()
        .with_sdp_offer("o".to_string())
        .with_sdp_answer("a".to_string());
    assert_eq!(session.sdp_offer, Some("o".to_string()));
    assert_eq!(session.sdp_answer, Some("a".to_string()));
    session.parse_sdp("c=IN IP4\r\nm=audio port RTP/AVP 0\r\n").unwrap();
    assert_eq!(session.rtp_address, None);
    assert_eq!(session.rtp_port, None);
    assert!(!session.srtp_enabled);
    session.parse_sdp("c=IN IP6 ::1 extra\nm=audio 4000 RTP/SAVPF 0\n").unwrap();
    assert_eq!(session.rtp_address, Some("::1".to_string()));
    assert_eq!(session.rtp_port, Some(4000));
    assert!(session.srtp_enabled);
    assert!(!MediaSession::default().srtp_enabled);
}

#[test]
fn crypto_attributes() {
    let c = SrtpConfig::from_crypto_attribute("a=crypto:1 AES_CM_128_HMAC_SHA1_32 inline:KEY|2^20").unwrap();
    assert!(c.enabled);
    assert_eq!(c.crypto_suite, "AES_CM_128_HMAC_SHA1_32");
    assert_eq!(c.key_params, Some("KEY|2^20".to_string()));
    assert_eq!(c.to_crypto_attribute(2), "a=crypto:2 AES_CM_128_HMAC_SHA1_32 inline:KEY|2^20");
    assert!(SrtpConfig::from_crypto_attribute("a=crypto:1 SUITE").is_none());
    assert!(SrtpConfig::from_crypto_attribute("a=crypto:1 SUITE key").is_none());
    assert_eq!(SrtpConfig::new().to_crypto_attribute(1), "a=crypto:1 AES_CM_128_HMAC_SHA1_80");
    let a = SrtpConfig::new().enable();
    let offer = SrtpPassthrough::create_compatible_offer(&c);
    assert!(offer.enabled);
    assert_eq!(offer.crypto_suite, c.crypto_suite);
    // the key material reaches the other leg unchanged
    assert_eq!(offer.key_params, Some("KEY|2^20".to_string()));
    assert_eq!(offer.to_crypto_attribute(1), c.to_crypto_attribute(1));
    assert_eq!(SrtpPassthrough::create_compatible_offer(&a).key_params, None);
    assert!(SrtpPassthrough::is_compatible(&c, &offer));
    assert!(!SrtpPassthrough::is_compatible(&a, &c));
    assert!(!SrtpPassthrough::is_compatible(&SrtpConfig::default(), &SrtpConfig::default()));
}

#[test]
fn negotiation_keeps_the_common_codecs_in_offer_order() {
    let mut codecs = CodecConfig::new();
    codecs.disable_codec("PCMA");
    let offer = SdpSession {
        version: 0,
        origin: "alice 1 1 IN IP4 10.0.0.1".to_string(),
        session_name: "Call".to_string(),
        connection: Some("IN IP4 10.0.0.1".to_string()),
        media: vec![
            MediaDescription {
                media_type: "audio".to_string(),
                port: 49170,
                protocol: "RTP/SAVP".to_string(),
                formats: vec![111, 8, 100, 0],
                attributes: vec![
                    "rtpmap:111 opus/48000/2".to_string(),
                    "crypto:1 AES_CM_128_HMAC_SHA1_80 inline:secret".to_string(),
                    "sendrecv".to_string(),
                ],
            },
            MediaDescription {
                media_type: "video".to_string(),
                port: 5000,
                protocol: "RTP/AVP".to_string(),
                formats: vec![100],
                attributes: vec![],
            },
        ],
    };
    let answer = negotiate(&offer, &codecs, "IN IP4 192.0.2.1", 30000).unwrap();
    assert_eq!(answer.origin, offer.origin);
    assert_eq!(answer.connection, Some("IN IP4 192.0.2.1".to_string()));
    assert_eq!(answer.media.len(), 1);
    assert_eq!(answer.media[0].media_type, "audio");
    assert_eq!(answer.media[0].port, 30000);
    assert_eq!(answer.media[0].protocol, "RTP/SAVP");
    assert_eq!(answer.media[0].formats, vec![111, 0]);
    assert_eq!(
        answer.media[0].attributes,
        vec![
            "rtpmap:111 opus/48000/2",
            "rtpmap:0 PCMU/8000",
            "crypto:1 AES_CM_128_HMAC_SHA1_80 inline:secret"
        ]
    );
    // nothing in common: no answer
    let mut none = CodecConfig::new();
    for c in none.codecs.clone() {
        none.disable_codec(&c.name);
    }
    assert!(negotiate(&offer, &none, "IN IP4 192.0.2.1", 30000).is_none());
}
