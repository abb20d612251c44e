use onvm::bloom::{default_bloom_salt, BloomFilter};
use onvm::config::{
    apply_values, config_from_document, config_from_text, config_to_text, parse_bootnode_str, to_values, values_of,
    ConfigError, ConfigValues, OnvmConfig,
};
use onvm::toml_doc::TomlValue;
use onvm::content::ContentDetector;
use onvm::coordination::{
    capabilities_for_system, least_loaded, round_robin_pick, total_available_capacity, CapabilityAdvertiser,
    JobRequirements, Specialization,
};
use onvm::frost::{FrostContext, FrostError, Point, ThresholdPublicKey, ThresholdSignature, ThresholdSigner, GENERATOR_X};
use onvm::gateway::{generate_share_page, is_renderable, normalize_rpc_endpoint, parse_id, IdError, SHARE_PAGE_0};
use onvm::jobs::{
    available_slots, calculate_backoff, compute_aggregate_stats, health_status, is_timed_out, ready_for_retry,
    record_execution_time, HealthStatus, ResourceSample, RetryStrategy,
};
use onvm::manifest::{JobManifest, ManifestError, ResourceRequirements};
use onvm::programs::{
    chunk_key, chunk_program, check_replicated_chunk, check_stored_chunk, needs_chunking, reassemble, split_program,
    ChunkError, PROGRAM_CHUNK_SIZE,
};
use onvm::rpc_auth::{canonical_request, derive_keys, derive_response_nonce, sign_canonical, AuthError};
use onvm::types::ProgramId;
use hmac::Mac;

#[test]
fn test_job_requirements_matching() {
    let mut caps = capabilities_for_system(2, 32, 32, 0);
    caps.cpu_cores = 8;
    caps.memory_available_gb = 16;
    caps.has_gpu = true;
    caps.max_concurrent_jobs = 10;
    caps.current_job_count = 5;

    let req = JobRequirements {
        min_cpu_cores: 4,
        min_memory_gb: 8,
        requires_gpu: true,
        min_gpu_vram_gb: None,
        required_specializations: Vec::new(),
    };

    assert!(caps.meets_requirements(&req));

    let high_req = JobRequirements { min_cpu_cores: 16, ..req };
    assert!(!caps.meets_requirements(&high_req));
}

#[test]
fn test_advertiser_intervals() {
    let caps = capabilities_for_system(4, 8, 4, 0);
    let now = 1_700_000_000_000u64;
    let mut advertiser = CapabilityAdvertiser::new(caps, now);

    assert!(advertiser.should_broadcast(now));
    advertiser.mark_broadcasted(now);

    advertiser.set_broadcast_interval(30_000);
    assert_eq!(advertiser.broadcast_interval_ms, 30_000);
}

#[test]
fn capacity_and_availability() {
    let mut caps = capabilities_for_system(5, 128, 100, 7);
    assert_eq!(caps.max_concurrent_jobs, 10);
    assert_eq!(caps.specializations, vec![Specialization::HighMemory]);
    caps.current_job_count = 3;
    assert!(caps.is_available_for_jobs());
    assert_eq!(caps.free_slots(), 7);
    caps.current_job_count = 10;
    assert!(!caps.is_available_for_jobs());
    assert_eq!(caps.free_slots(), 0);
    let vram = JobRequirements { min_gpu_vram_gb: Some(8), ..JobRequirements::default() };
    caps.current_job_count = 0;
    assert!(!caps.meets_requirements(&vram));
    assert_eq!(total_available_capacity(&vec![Some(caps.clone()), None, Some(caps)]), 20);
}

#[test]
fn advertiser_refreshes_when_due() {
    let caps = capabilities_for_system(1, 1, 1, 0);
    let mut advertiser = CapabilityAdvertiser::new(caps, 100_000);
    assert!(advertiser.refresh_if_due(100_000, 2, 3));
    assert_eq!(advertiser.capabilities.current_job_count, 2);
    assert_eq!(advertiser.capabilities.advertised_at, 100);
    assert!(!advertiser.refresh_if_due(110_000, 5, 5));
    assert_eq!(advertiser.capabilities.current_job_count, 2);
    assert!(advertiser.should_broadcast(50_000));
}

#[test]
fn peer_choice_helpers() {
    assert_eq!(least_loaded(&[]), None);
    assert_eq!(least_loaded(&[3, 1, 2, 1]), Some(1));
    assert_eq!(round_robin_pick(0, 3), (0, 1));
    assert_eq!(round_robin_pick(2, 3), (2, 0));
    assert_eq!(round_robin_pick(7, 3), (0, 1));
}

#[test]
fn backoff_grows_by_strategy() {
    assert_eq!(calculate_backoff(RetryStrategy::ExponentialBackoff, 5000, 1), 5000);
    assert_eq!(calculate_backoff(RetryStrategy::ExponentialBackoff, 5000, 3), 20000);
    assert_eq!(calculate_backoff(RetryStrategy::ExponentialBackoff, 5000, 10), 5000 * 512);
    assert_eq!(calculate_backoff(RetryStrategy::ExponentialBackoff, 5000, 40), 5000 * 512);
    assert_eq!(calculate_backoff(RetryStrategy::LinearBackoff, 5000, 3), 15000);
    assert_eq!(calculate_backoff(RetryStrategy::FixedDelay, 5000, 3), 5000);
    assert!(matches!(RetryStrategy::default(), RetryStrategy::ExponentialBackoff));
}

#[test]
fn scheduling_decisions() {
    assert!(ready_for_retry(0, 100, 50, 0));
    assert!(!ready_for_retry(1, 100, 50, 149));
    assert!(ready_for_retry(1, 100, 50, 150));
    assert!(!is_timed_out(None, 1_000_000));
    assert!(!is_timed_out(Some(0), 300_000));
    assert!(is_timed_out(Some(0), 300_001));
    assert!(!is_timed_out(Some(10), 5));
    assert_eq!(available_slots(4, 1), 3);
    assert_eq!(available_slots(4, 9), 0);
    assert_eq!(health_status(4, 4), HealthStatus::Degraded);
    assert_eq!(health_status(3, 4), HealthStatus::Ready);
}

#[test]
fn execution_window_keeps_the_latest() {
    let mut times: Vec<u64> = (0..1000).collect();
    record_execution_time(&mut times, 5000);
    assert_eq!(times.len(), 1000);
    assert_eq!(times[0], 1);
    assert_eq!(times[999], 5000);
    let mut few = vec![1, 2];
    record_execution_time(&mut few, 3);
    assert_eq!(few, vec![1, 2, 3]);
}

#[test]
fn aggregate_stats_sum_and_average() {
    let s = |fuel, dur, mem| ResourceSample {
        fuel_consumed: fuel,
        execution_duration_ms: dur,
        peak_memory_bytes: mem,
        storage_read_bytes: 1,
        storage_write_bytes: 2,
    };
    let stats = compute_aggregate_stats(&[s(10, 100, 7), s(21, 50, 8)]);
    assert_eq!(stats.total_jobs, 2);
    assert_eq!(stats.total_fuel_consumed, 31);
    assert_eq!(stats.total_execution_time_ms, 150);
    assert_eq!(stats.total_storage_read_bytes, 2);
    assert_eq!(stats.total_storage_write_bytes, 4);
    assert_eq!(stats.average_fuel_per_job, 15);
    assert_eq!(stats.average_duration_per_job_ms, 75);
    assert_eq!(stats.average_memory_per_job_bytes, 7);
    assert_eq!(compute_aggregate_stats(&[]).total_jobs, 0);
}

#[test]
fn content_detection_by_magic() {
    let d = ContentDetector::new();
    assert_eq!(d.detect(&[0x89, b'P', b'N', b'G', 0x0D, 0x0A, 0x1A, 0x0A, 0, 0]), "image/png");
    assert_eq!(d.detect(b"%PDF-1.7 rest"), "application/pdf");
    assert_eq!(d.detect(b"plain words here"), "text/plain");
    assert_eq!(d.detect(&[0u8, 1, 2, 3, 0xff, 0xfe, 0, 0]), "application/octet-stream");
    assert_eq!(d.get_extension("image/png"), "png");
    assert_eq!(d.get_extension("application/x-unknown"), "bin");
}

#[test]
fn bloom_filter_remembers_inserted_ids() {
    let ids = [[1u8; 32], [2u8; 32], [3u8; 32]];
    let bloom = BloomFilter::from_programs(&ids);
    assert_eq!(bloom.bits.len(), 256);
    assert_eq!(bloom.k, 3);
    for id in &ids {
        assert!(bloom.contains(id));
    }
    let mut small = BloomFilter::new(0, 2);
    assert_eq!(small.bits.len(), 1);
    small.insert(b"x");
    assert!(small.contains(b"x"));
    assert_eq!(default_bloom_salt(), [0u8; 32]);
}

#[test]
fn manifest_validation_order() {
    let mut m = JobManifest::default();
    assert_eq!(m.validate(), Ok(()));
    m.resources.timeout_ms = 0;
    assert_eq!(m.validate(), Err(ManifestError::ZeroTimeout));
    m.resources.max_memory_bytes = 1024;
    assert_eq!(m.validate(), Err(ManifestError::MemoryBelowMinimum));
    m.resources.max_fuel = 0;
    assert_eq!(m.validate(), Err(ManifestError::ZeroFuel));
    m.metadata.name = String::new();
    assert_eq!(m.validate(), Err(ManifestError::EmptyName));
    assert_eq!(ManifestError::ZeroFuel.message(), "max_fuel must be > 0");
    let tight = ResourceRequirements { max_fuel: 10, max_memory_bytes: u64::MAX, timeout_ms: 5, capabilities: vec![] };
    let merged = JobManifest::default().merge_overrides(&tight);
    assert_eq!(merged.max_fuel, 10);
    assert_eq!(merged.max_memory_bytes, JobManifest::default().resources.max_memory_bytes);
    assert_eq!(merged.timeout_ms, 5);
}

#[test]
fn gateway_helpers() {
    assert!(is_renderable("image/png"));
    assert!(is_renderable("text/html; charset=utf-8"));
    assert!(is_renderable("application/pdf"));
    assert!(!is_renderable("application/pdfx"));
    assert!(!is_renderable("application/zip"));
    assert_eq!(normalize_rpc_endpoint(":8545"), "http://127.0.0.1:8545");
    assert_eq!(normalize_rpc_endpoint("https://node:1"), "https://node:1");
    assert_eq!(normalize_rpc_endpoint("node:1"), "http://node:1");
    let id = "ab".repeat(32);
    assert_eq!(parse_id(&id).unwrap().0, [0xab; 32]);
    assert_eq!(parse_id("zz"), Err(IdError::NotHex));
    assert_eq!(parse_id("abcd"), Err(IdError::WrongLength));
    let page = generate_share_page(&id, "image/png", "1 KB", "<img>", "/cdn/x");
    assert!(page.starts_with(SHARE_PAGE_0));
    assert!(page.contains("<title>ONVM Share - abababababababab</title>"));
    assert!(page.contains("<a href=\"/cdn/x\" download"));
    assert_eq!(page.matches("/cdn/x").count(), 2);
}

#[test]
fn config_reads_back_what_it_writes() {
    let mut cfg = OnvmConfig::default();
    cfg.genesis.state_root = Some([0x5a; 32]);
    cfg.network.min_peers = 4;
    cfg.rpc_auth.secret_path = Some("secret.enc".to_string());
    let back = apply_values(to_values(&cfg));
    assert_eq!(back, cfg);
    let defaults = apply_values(ConfigValues {
        state_root: Some(String::new()),
        min_peers: None,
        bootnodes: None,
        enable_mdns: None,
        require_encryption: None,
        max_inbound_connections: None,
        max_inbound_streams: None,
        max_gossip_bytes: None,
        enable_rpc_auth: None,
        project_id: Some(String::new()),
        secret_path: Some(String::new()),
        secondary_secret_path: None,
        skew_ms: Some(-1),
        nonce_ttl_ms: None,
        nonce_capacity: None,
        allowed_methods: None,
        rate_limit_per_minute: None,
    });
    assert_eq!(defaults.rpc_auth.project_id, "default-project");
    assert_eq!(defaults.rpc_auth.secret_path, None);
    assert_eq!(defaults.rpc_auth.skew_ms, u64::MAX);
    assert_eq!(defaults.network.max_gossip_bytes, 256 * 1024);
}

#[test]
fn bootnodes_accept_a_bare_peer_id() {
    let peer = libp2p::PeerId::random();
    let full = parse_bootnode_str(&format!("/ip4/1.2.3.4/tcp/37000/p2p/{peer}")).unwrap();
    let bare = parse_bootnode_str(&format!("/ip4/1.2.3.4/tcp/37000/{peer}")).unwrap();
    assert_eq!(full, bare);
    assert!(parse_bootnode_str("/ip4/1.2.3.4/tcp/37000/short").is_none());
    assert!(parse_bootnode_str("not an address").is_none());
}

#[test]
fn programs_are_chunked_and_reassembled() {
    let wasm: Vec<u8> = (0..(2 * PROGRAM_CHUNK_SIZE + 10)).map(|i| (i % 251) as u8).collect();
    let (chunks, meta) = chunk_program(&ProgramId([1u8; 32]), &wasm);
    assert_eq!(meta.chunk_count, 3);
    assert_eq!(meta.chunk_sizes, vec![PROGRAM_CHUNK_SIZE, PROGRAM_CHUNK_SIZE, 10]);
    assert_eq!(reassemble(&chunks), wasm);
    assert!(split_program(&[], 4).is_empty());
    assert_eq!(split_program(&[1, 2, 3, 4, 5], 2), vec![vec![1, 2], vec![3, 4], vec![5]]);
    assert!(!needs_chunking(10 * 1024 * 1024));
    assert!(needs_chunking(10 * 1024 * 1024 + 1));
    let key = chunk_key(&ProgramId([2u8; 32]), 258);
    assert_eq!(&key[32..], &[0, 0, 1, 2]);
    assert_eq!(check_replicated_chunk(&meta, 3, 10), Err(ChunkError::IndexOutOfBounds));
    assert_eq!(check_replicated_chunk(&meta, 2, 11), Err(ChunkError::SizeMismatch));
    assert_eq!(check_replicated_chunk(&meta, 2, 10), Ok(()));
    let mut no_sizes = meta.clone();
    no_sizes.chunk_sizes.clear();
    assert_eq!(check_replicated_chunk(&no_sizes, 0, 10), Err(ChunkError::MissingSize));
    assert_eq!(check_stored_chunk(&no_sizes, 0, 10), Ok(()));
}

#[test]
fn large_program_storage_roundtrip() {
    let large_wasm = vec![0u8; 15 * 1024 * 1024];
    assert!(needs_chunking(large_wasm.len()));
    let (chunks, meta) = chunk_program(&ProgramId([3u8; 32]), &large_wasm);
    assert_eq!(meta.chunk_count, 15);
    assert_eq!(reassemble(&chunks).len(), large_wasm.len());
}

#[test]
fn rpc_auth_keys_and_signatures() {
    let secret = "11".repeat(32);
    let (signing, response) = derive_keys(&secret).unwrap();
    let hk = hkdf::Hkdf::<sha2::Sha256>::new(None, &[0x11u8; 32]);
    let mut okm = [0u8; 64];
    hk.expand(b"onvm-rpc-auth", &mut okm).unwrap();
    assert_eq!(&signing[..], &okm[..32]);
    assert_eq!(&response[..], &okm[32..]);
    assert_eq!(derive_keys("xyz"), Err(AuthError::SecretNotHex));
    assert_eq!(derive_keys("abcd"), Err(AuthError::SecretWrongLength));

    let canonical = canonical_request("POST", "/rpc", -42, "n1", "{}");
    assert_eq!(canonical, "POST /rpc\n-42\nn1\n{}");
    let sig = sign_canonical(&signing, &canonical);
    let mut mac = <hmac::Hmac<sha2::Sha256> as Mac>::new_from_slice(&signing).unwrap();
    mac.update(canonical.as_bytes());
    assert_eq!(sig, hex::encode(mac.finalize().into_bytes()));

    let nonce = derive_response_nonce(&response, "n1", 1234);
    let hk2 = hkdf::Hkdf::<sha2::Sha256>::new(Some(&response), b"n1");
    let mut expected = [0u8; 24];
    hk2.expand(b"resp-1234", &mut expected).unwrap();
    assert_eq!(nonce, expected);
}

#[test]
fn frost_context_bounds() {
    assert!(matches!(FrostContext::new(1, 3), Err(FrostError::MinSignersTooSmall)));
    assert!(matches!(FrostContext::new(4, 3), Err(FrostError::MinSignersExceedMax)));
    let ctx = FrostContext::new(2, 3).unwrap();
    assert_eq!(ctx.min_signers(), 2);
    assert_eq!(ctx.max_participants(), 3);
}

#[test]
fn threshold_signature_wire_form() {
    let g = Point::generator();
    assert_eq!(g.as_bytes()[0], 0x79);
    assert_eq!(g.as_bytes(), GENERATOR_X);
    let s_value = onvm::scalar::Scalar::from_bytes(&[1u8; 32]).unwrap();
    let sig = ThresholdSignature { r_point: g, s_value, signers: vec![1, 258], threshold: 2 };
    let bytes = sig.to_bytes();
    assert_eq!(bytes.len(), 32 + 32 + 4 + 8);
    assert_eq!(&bytes[64..68], &[2, 0, 0, 0]);
    assert_eq!(&bytes[68..], &[1, 0, 0, 0, 2, 1, 0, 0]);
    assert_eq!(ThresholdPublicKey::from_point(&g).key, GENERATOR_X.to_vec());
    assert!(Point::from_bytes(&GENERATOR_X).is_ok());
    assert_eq!(sig.verify(b"short", &g), Err(FrostError::InvalidMessage));
    assert_eq!(sig.verify(&[0u8; 32], &g), Err(FrostError::VerificationFailed));
    let mut key33 = vec![0x02];
    key33.extend_from_slice(&GENERATOR_X);
    let pk = ThresholdPublicKey { key: key33 };
    assert_eq!(
        ThresholdSigner::verify_threshold_signature(&sig, &pk, &[0u8; 32]),
        Err(FrostError::VerificationFailed)
    );
}

#[test]
fn share_page_takes_the_first_sixteen_bytes_of_any_id() {
    let id = "0123456789abcdefé-rest";
    let page = generate_share_page(id, "text/plain", "3 B", "<pre>", "/cdn/y");
    assert!(page.contains("<title>ONVM Share - 0123456789abcdef</title>"));
    let id2 = "ééééééééxyz";
    let page2 = generate_share_page(id2, "text/plain", "3 B", "<pre>", "/cdn/y");
    assert!(page2.contains("<title>ONVM Share - éééééééé</title>"));
}

fn zip_with_part(part: &[u8]) -> Vec<u8> {
    let mut data = b"PK\x03\x04".to_vec();
    data.extend_from_slice(&[0u8; 26]);
    data.extend_from_slice(part);
    data.extend_from_slice(&[0u8; 30]);
    data
}

#[test]
fn office_documents_are_told_apart_from_zip() {
    let d = ContentDetector::new();
    let docx = d.detect(&zip_with_part(b"word/document.xml"));
    assert_eq!(docx, "application/vnd.openxmlformats-officedocument.wordprocessingml.document");
    assert_eq!(d.get_extension(&docx), "docx");
    let xlsx = d.detect(&zip_with_part(b"xl/workbook.xml"));
    assert_eq!(xlsx, "application/vnd.openxmlformats-officedocument.spreadsheetml.sheet");
    assert_eq!(d.get_extension(&xlsx), "xlsx");
    let pptx = d.detect(&zip_with_part(b"ppt/presentation.xml"));
    assert_eq!(pptx, "application/vnd.openxmlformats-officedocument.presentationml.presentation");
    assert_eq!(d.get_extension(&pptx), "pptx");
    assert_eq!(d.detect(&zip_with_part(b"something/else.txt")), "application/zip");
}

#[test]
fn upper_case_html_and_m4a_are_detected() {
    let d = ContentDetector::new();
    assert_eq!(d.detect(b"<HTML><BODY>hi</BODY></HTML>"), "text/html");
    assert_eq!(d.detect(b"<html><body>hi</body></html>"), "text/html");
    let m4a = [0u8, 0, 0, 0x20, b'f', b't', b'y', b'p', b'M', b'4', b'A', b' ', 0, 0, 0, 0];
    assert_eq!(d.detect(&m4a), "audio/x-m4a");
    assert_eq!(d.get_extension("audio/x-m4a"), "m4a");
}

#[test]
fn every_detected_type_but_the_fallback_has_an_extension() {
    let d = ContentDetector::new();
    let samples: Vec<Vec<u8>> = vec![
        vec![0x89, b'P', b'N', b'G', 0x0D, 0x0A, 0x1A, 0x0A, 0, 0],
        vec![0xFF, 0xD8, 0xFF, 0xE0],
        b"GIF89a....".to_vec(),
        b"%PDF-1.4".to_vec(),
        b"{\"a\": 1}".to_vec(),
        b"---\nkey: v\n".to_vec(),
        b"#!/bin/sh\necho hi\n".to_vec(),
        b"\0asm\x01\0\0\0".to_vec(),
        b"ID3\x03\0".to_vec(),
        zip_with_part(b"word/document.xml"),
        b"plain words".to_vec(),
        vec![0u8, 1, 2, 3, 0xff, 0xfe, 0, 0],
        vec![],
    ];
    for data in samples {
        let mime = d.detect(&data);
        assert!(mime == "application/octet-stream" || d.get_extension(&mime) != "bin", "{mime}");
    }
    assert_eq!(d.get_extension("application/octet-stream"), "bin");
}

#[test]
fn debian_packages_are_detected() {
    let d = ContentDetector::new();
    let mut deb = b"!<arch>\ndebian-binary   1342943816  0     0     100644  4         `\n".to_vec();
    deb.extend_from_slice(b"2.0\n");
    assert_eq!(d.detect(&deb), "application/x-deb");
    assert_eq!(d.detect(b"!<arch>\nsomething-else-here"), "application/octet-stream");
}

#[test]
fn config_text_is_read_key_by_key() {
    let text = "[genesis]\nstate_root = \"\"\n\n[network]\nmin_peers = 3\nbootnodes = [\"/ip4/1.2.3.4/tcp/1\", 7, \"/ip4/5.6.7.8/tcp/2\"]\nenable_mdns = true\nmax_gossip_bytes = \"big\"\n\n[rpc_auth]\nproject_id = \"proj\"\nallowed_methods = [\"GET\"]\nskew_ms = 1.5\n";
    let cfg = config_from_text(text).unwrap();
    assert_eq!(cfg.genesis.state_root, None);
    assert_eq!(cfg.network.min_peers, 3);
    assert_eq!(cfg.network.bootnodes, vec!["/ip4/1.2.3.4/tcp/1".to_string(), "/ip4/5.6.7.8/tcp/2".to_string()]);
    assert!(cfg.network.enable_mdns);
    assert_eq!(cfg.network.max_gossip_bytes, 256 * 1024);
    assert_eq!(cfg.rpc_auth.project_id, "proj");
    assert_eq!(cfg.rpc_auth.allowed_methods, vec!["GET".to_string()]);
    assert_eq!(cfg.rpc_auth.skew_ms, 5 * 60 * 1000);
    assert_eq!(config_from_text("").unwrap(), OnvmConfig::default());
}

#[test]
fn text_that_is_not_toml_is_refused() {
    assert_eq!(config_from_text("[network\nmin_peers = ").unwrap_err(), ConfigError::NotToml);
    assert_eq!(config_from_text("a = 1\na = 2\n").unwrap_err(), ConfigError::NotToml);
}

#[test]
fn config_text_reads_back_as_the_config() {
    let mut cfg = OnvmConfig::default();
    cfg.genesis.state_root = Some([0x11; 32]);
    cfg.network.min_peers = 9;
    cfg.network.bootnodes = vec!["/ip4/9.9.9.9/tcp/9".to_string()];
    cfg.rpc_auth.enable = true;
    cfg.rpc_auth.secret_path = Some("rpc_auth.secret".to_string());
    cfg.rpc_auth.allowed_methods = vec!["POST".to_string(), "GET".to_string()];
    let text = config_to_text(&cfg).unwrap();
    assert!(text.contains("[network]"));
    assert!(text.contains("min_peers = 9"));
    assert_eq!(config_from_text(&text).unwrap(), cfg);
}

#[test]
fn document_values_are_read_back_from_a_built_document() {
    let doc = TomlValue::Table(vec![(
        "network".to_string(),
        TomlValue::Table(vec![
            ("min_peers".to_string(), TomlValue::Int(5)),
            ("bootnodes".to_string(), TomlValue::Array(vec![TomlValue::Str("a".to_string()), TomlValue::Bool(true)])),
        ]),
    )]);
    let v = values_of(&doc);
    assert_eq!(v.min_peers, Some(5));
    assert_eq!(v.bootnodes, Some(vec!["a".to_string()]));
    assert_eq!(v.enable_mdns, None);
    assert_eq!(v.state_root, None);
    let cfg = config_from_document(&doc);
    assert_eq!(cfg.network.min_peers, 5);
    assert_eq!(cfg.network.bootnodes, vec!["a".to_string()]);
}

#[test]
fn canonical_request_writes_timestamps_in_decimal() {
    assert_eq!(canonical_request("GET", "/a", 0, "n", ""), "GET /a\n0\nn\n");
    assert_eq!(canonical_request("GET", "/a", 1700000000123, "n", "b"), "GET /a\n1700000000123\nn\nb");
    assert_eq!(canonical_request("GET", "/a", i64::MIN, "n", ""), "GET /a\n-9223372036854775808\nn\n");
    assert_eq!(canonical_request("GET", "/a", i64::MAX, "n", ""), "GET /a\n9223372036854775807\nn\n");
}
