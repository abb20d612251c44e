use onvm::bls::BlsPublicKey;
use onvm::config::{
    apply_dev_mode, apply_init_overrides, network_security, select_bootnodes, GenesisOverride, InitOverrides,
    OnvmConfig,
};
use onvm::dag::{blob_sync_mode_from_flag, BlobSyncMode};
use onvm::fingerprint::{codec_fingerprint, fingerprint_samples, TransferMessage};
use onvm::messages::{on_delivery_failure, retry_due, FailureOutcome, MessageStatus};
use onvm::proposal::{build_execution_receipt, proposer_position, ProposalCheck};
use onvm::protocol::{
    availability_response, available_chunks, manifest_to_keep, plan_object_metadata, provider_kind_for, ProviderKind,
    TRANSFER_PROTOCOL,
};
use onvm::runtime::{
    fuel_consumed, ordered_state_writes, overlay_root, read_output_slot, state_get_answer, unpack_output,
};
use onvm::types::{
    ChunkDescriptor, ChunkId, CommitteeCertificate, CommitteeMember, Manifest, NodeId, ObjectId, ObjectType,
    ProgramId,
};

#[test]
fn fingerprint_samples_cover_every_message() {
    let samples = fingerprint_samples();
    assert_eq!(samples.len(), 39);
    assert_eq!(samples[0].0, "req:program");
    assert_eq!(samples[12].0, "req:unified:0");
    assert_eq!(samples[20].0, "req:unified:8");
    assert_eq!(samples[21].0, "resp:program");
    assert_eq!(samples[38].0, "resp:unified:8");
    assert!(samples[..21].iter().all(|s| matches!(s.1, TransferMessage::Request(_))));
    assert!(samples[21..].iter().all(|s| matches!(s.1, TransferMessage::Response(_))));
}

#[test]
fn fingerprint_hashes_labels_and_encodings() {
    let entries: Vec<(&'static str, Option<Vec<u8>>)> = vec![("a", Some(vec![1, 2])), ("b", None)];
    let mut expected = Vec::new();
    expected.extend_from_slice(TRANSFER_PROTOCOL.as_bytes());
    expected.extend_from_slice(b"a");
    expected.extend_from_slice(&[1, 2]);
    expected.extend_from_slice(b"b");
    expected.extend_from_slice(b"encode-error");
    assert_eq!(codec_fingerprint(&entries), *blake3::hash(&expected).as_bytes());
    let other: Vec<(&'static str, Option<Vec<u8>>)> = vec![("a", Some(vec![1, 3])), ("b", None)];
    assert_ne!(codec_fingerprint(&entries), codec_fingerprint(&other));
}

#[test]
fn delivery_failures_back_off_then_give_up() {
    assert_eq!(on_delivery_failure(0, None, 1_000), FailureOutcome::Retry { retry_count: 1, next_retry_at: 3_000 });
    assert_eq!(on_delivery_failure(3, None, 1_000), FailureOutcome::Retry { retry_count: 4, next_retry_at: 17_000 });
    assert_eq!(on_delivery_failure(4, None, 1_000), FailureOutcome::GiveUp { retry_count: 5 });
    assert_eq!(on_delivery_failure(0, Some(999), 1_000), FailureOutcome::GiveUp { retry_count: 1 });
    assert_eq!(on_delivery_failure(0, Some(1_000), 1_000), FailureOutcome::Retry { retry_count: 1, next_retry_at: 3_000 });
    assert!(retry_due(MessageStatus::Pending, 5, None, 6));
    assert!(!retry_due(MessageStatus::Pending, 6, None, 6));
    assert!(!retry_due(MessageStatus::InFlight, 5, None, 6));
    assert!(retry_due(MessageStatus::InFlight, 5, Some(5), 6));
}

#[test]
fn init_overrides_apply() {
    let mut cfg = OnvmConfig::default();
    let o = InitOverrides {
        enable_mdns: true,
        min_peers: Some(4),
        max_gossip_bytes: None,
        max_inbound_connections: Some(7),
        max_inbound_streams: None,
        allow_insecure_transport: true,
        genesis_state_root: Some("ab".repeat(32)),
    };
    assert!(o.any());
    assert_eq!(apply_init_overrides(&mut cfg, &o, "rpc_auth.secret"), GenesisOverride::Applied);
    assert!(cfg.rpc_auth.enable);
    assert_eq!(cfg.rpc_auth.secret_path.as_deref(), Some("rpc_auth.secret"));
    assert!(cfg.network.enable_mdns);
    assert_eq!(cfg.network.min_peers, 4);
    assert_eq!(cfg.network.max_gossip_bytes, 256 * 1024);
    assert_eq!(cfg.network.max_inbound_connections, 7);
    assert!(!cfg.network.require_encryption);
    assert_eq!(cfg.genesis.state_root, Some([0xab; 32]));

    let mut cfg2 = cfg.clone();
    cfg2.rpc_auth.secret_path = Some("kept".to_string());
    let short = InitOverrides { genesis_state_root: Some("abcd".to_string()), ..o.clone() };
    assert_eq!(apply_init_overrides(&mut cfg2, &short, "other"), GenesisOverride::WrongLength);
    assert_eq!(cfg2.rpc_auth.secret_path.as_deref(), Some("kept"));
    assert_eq!(cfg2.genesis.state_root, Some([0xab; 32]));
    let bad = InitOverrides { genesis_state_root: Some("zz".to_string()), ..o.clone() };
    assert_eq!(apply_init_overrides(&mut cfg2, &bad, "other"), GenesisOverride::InvalidHex);
    let clear = InitOverrides { genesis_state_root: Some(String::new()), ..o.clone() };
    assert_eq!(apply_init_overrides(&mut cfg2, &clear, "other"), GenesisOverride::Cleared);
    assert_eq!(cfg2.genesis.state_root, None);
    let none = InitOverrides {
        enable_mdns: false,
        min_peers: None,
        max_gossip_bytes: None,
        max_inbound_connections: None,
        max_inbound_streams: None,
        allow_insecure_transport: false,
        genesis_state_root: None,
    };
    assert!(!none.any());
}

#[test]
fn dev_mode_and_bootnodes() {
    let mut cfg = OnvmConfig::default();
    cfg.rpc_auth.enable = true;
    apply_dev_mode(&mut cfg);
    assert!(cfg.network.enable_mdns);
    assert!(!cfg.rpc_auth.enable);
    let given = vec!["/ip4/1.1.1.1/tcp/1".to_string()];
    assert_eq!(select_bootnodes(given.clone(), &cfg.network), given);
    assert_eq!(select_bootnodes(vec![], &cfg.network), cfg.network.bootnodes);
    let sec = network_security(&cfg.network);
    assert_eq!(sec.max_inbound_connections, 200);
    assert_eq!(sec.max_inbound_streams, 64);
    assert!(sec.require_encryption);
    assert_eq!(blob_sync_mode_from_flag("metadata"), BlobSyncMode::MetadataOnly);
    assert_eq!(blob_sync_mode_from_flag("full"), BlobSyncMode::FullData);
}

#[test]
fn leader_receipt_fields() {
    let input = b"call-data";
    let receipt = build_execution_receipt(
        ProgramId([1; 32]),
        3,
        [2; 32],
        "main".to_string(),
        input,
        42,
        [3; 32],
        b"writes",
        Some([4; 32]),
        NodeId([5; 32]),
    );
    let h = *blake3::hash(input).as_bytes();
    assert_eq!(receipt.call.request_id, h);
    assert_eq!(receipt.inputs_hash, h);
    assert_eq!(receipt.nonce, h[0] as u64);
    assert_eq!(receipt.call.calldata, input.to_vec());
    assert_eq!(receipt.write_digest, *blake3::hash(b"writes").as_bytes());
    assert_eq!(receipt.wasm_env_hash, *blake3::hash(b"wasm_env_v1").as_bytes());
    assert_eq!(receipt.events_hash, [0u8; 32]);
    assert_eq!(receipt.gas_used, 42);
    assert_eq!(receipt.height, 3);
}

#[test]
fn proposer_must_be_a_member_under_its_key() {
    let key = BlsPublicKey([9; 96]);
    let committee = CommitteeCertificate {
        program_id: ProgramId([1; 32]),
        epoch: 1,
        members: vec![
            CommitteeMember { node: NodeId([1; 32]), weight: 1, bls_public_key: BlsPublicKey([1; 96]) },
            CommitteeMember { node: NodeId([2; 32]), weight: 1, bls_public_key: key },
        ],
        threshold: 1,
        aggregate_public_key: BlsPublicKey([0; 96]),
        signature: None,
    };
    assert_eq!(proposer_position(&committee, &NodeId([2; 32]), &key), Ok(1));
    assert_eq!(proposer_position(&committee, &NodeId([1; 32]), &key), Err(ProposalCheck::KeyMismatch));
    assert_eq!(proposer_position(&committee, &NodeId([3; 32]), &key), Err(ProposalCheck::NotAMember));
}

#[test]
fn availability_lists_held_and_missing_chunks() {
    let manifest = Manifest {
        object_id: ObjectId([1; 32]),
        content_hash: [0; 32],
        chunks: vec![
            ChunkDescriptor { chunk_id: ChunkId([1; 32]), size: 1, offset: 0 },
            ChunkDescriptor { chunk_id: ChunkId([2; 32]), size: 1, offset: 1 },
            ChunkDescriptor { chunk_id: ChunkId([3; 32]), size: 1, offset: 2 },
        ],
        version: 1,
    };
    let missing = vec![ChunkId([2; 32])];
    assert_eq!(available_chunks(&manifest, &missing), vec![ChunkId([1; 32]), ChunkId([3; 32])]);
    let resp = availability_response(ObjectId([1; 32]), false, Some(manifest), missing.clone(), None);
    assert!(resp.has_manifest && !resp.has_object);
    assert_eq!(resp.available_chunks.len(), 2);
    assert_eq!(resp.missing_chunks, missing);
    let none = availability_response(ObjectId([1; 32]), false, None, missing, None);
    assert!(!none.has_manifest && none.available_chunks.is_empty() && none.missing_chunks.is_empty());
}

#[test]
fn object_metadata_plans() {
    assert_eq!(provider_kind_for(&ObjectType::Blob { mime_type: None }), ProviderKind::Blob);
    let plan = plan_object_metadata(false, false);
    assert!(plan.store && plan.fetch);
    let plan = plan_object_metadata(false, true);
    assert!(plan.store && !plan.fetch);
    let plan = plan_object_metadata(true, false);
    assert!(!plan.store && !plan.fetch);
}

#[test]
fn runtime_arithmetic() {
    assert_eq!(fuel_consumed(100, 30), 70);
    assert_eq!(fuel_consumed(100, 300), 0);
    assert_eq!(unpack_output((5i64 << 32) | 9), (5, 9));
    assert_eq!(read_output_slot(&[1, 0, 0, 0, 0, 1, 0, 0]), (1, 256));
    assert_eq!(state_get_answer(10, 4), -10);
    assert_eq!(state_get_answer(3, 4), 3);
}

#[test]
fn overlay_root_is_the_state_root_with_pending_writes_applied() {
    let state = vec![(b"a".to_vec(), b"1".to_vec()), (b"b".to_vec(), b"2".to_vec())];
    assert_eq!(overlay_root(&state, &vec![]), onvm::merkle::sparse_merkle_root(&state));
    let pending = vec![(b"b".to_vec(), b"3".to_vec()), (b"c".to_vec(), b"4".to_vec())];
    let applied = vec![(b"a".to_vec(), b"1".to_vec()), (b"b".to_vec(), b"3".to_vec()), (b"c".to_vec(), b"4".to_vec())];
    assert_eq!(overlay_root(&state, &pending), onvm::merkle::sparse_merkle_root(&applied));
    let reordered = vec![(b"c".to_vec(), b"4".to_vec()), (b"b".to_vec(), b"3".to_vec())];
    assert_eq!(overlay_root(&state, &reordered), overlay_root(&state, &pending));
}

#[test]
fn pending_writes_are_ordered_by_key() {
    let pending = vec![(b"b".to_vec(), b"2".to_vec()), (b"a".to_vec(), b"1".to_vec()), (b"ab".to_vec(), b"3".to_vec())];
    let writes = ordered_state_writes(pending);
    let keys: Vec<Vec<u8>> = writes.iter().map(|w| w.key.clone()).collect();
    assert_eq!(keys, vec![b"a".to_vec(), b"ab".to_vec(), b"b".to_vec()]);
    assert_eq!(writes[0].value, Some(b"1".to_vec()));
}

use onvm::chunks::{
    check_chunk_part_response, check_chunk_response, check_manifest_response, check_metadata_response,
    subchunk_parts, unified_of, FetchError,
};
use onvm::coordination::latency_bucket_score;
use onvm::engine::{head_action, HeadAction, SyncGaps};
use onvm::ingestion::{build_program_announcement, unsigned_program_manifest, IngestError};
use onvm::jobs::JobTotals;
use onvm::protocol::{ChunkPartResponse, ChunkResponse, ManifestResponse, ObjectMetadataResponse, TransferResponse, UnifiedResponse};
use onvm::types::{ManifestId, Object};

#[test]
fn program_heads_lead_to_apply_or_request() {
    assert_eq!(head_action(3, Some(3), false), HeadAction::Ignore);
    assert_eq!(head_action(0, None, true), HeadAction::Ignore);
    assert_eq!(head_action(5, Some(3), true), HeadAction::ApplyStored);
    assert_eq!(head_action(5, Some(3), false), HeadAction::RequestNext(4));
    assert_eq!(head_action(1, None, false), HeadAction::RequestNext(1));
}

#[test]
fn sync_gaps_need_an_inventory() {
    let none = SyncGaps { has_inventory: false, missing_programs: 0, missing_blobs: 0, missing_execs: 0 };
    assert!(!none.is_fully_synced());
    assert_eq!(none.sync_gaps(), None);
    let some = SyncGaps { has_inventory: true, missing_programs: 2, missing_blobs: 1, missing_execs: 0 };
    assert!(!some.is_fully_synced());
    assert_eq!(some.sync_gaps(), Some((2, 1, 0)));
    let done = SyncGaps { has_inventory: true, missing_programs: 0, missing_blobs: 0, missing_execs: 0 };
    assert!(done.is_fully_synced());
}

#[test]
fn job_totals_count_and_keep_a_window() {
    let mut t = JobTotals::new();
    t.record_job_completed(10, 5);
    t.record_job_completed(u64::MAX, 6);
    t.record_job_failed();
    t.record_job_cancelled();
    assert_eq!(t.total_jobs_completed, 2);
    assert_eq!(t.total_fuel_consumed, 9);
    assert_eq!(t.total_jobs_failed, 1);
    assert_eq!(t.total_jobs_cancelled, 1);
    assert_eq!(t.execution_times, vec![5, 6]);
    for i in 0..1000u64 {
        t.record_job_completed(0, i);
    }
    assert_eq!(t.execution_times.len(), 1000);
    assert_eq!(t.execution_times[0], 0);
}

#[test]
fn latency_buckets() {
    assert_eq!(latency_bucket_score(10), 100);
    assert_eq!(latency_bucket_score(50), 80);
    assert_eq!(latency_bucket_score(150), 60);
    assert_eq!(latency_bucket_score(499), 40);
    assert_eq!(latency_bucket_score(500), 20);
}

#[test]
fn chunk_answers_are_checked() {
    let id = ChunkId([1; 32]);
    let ok = UnifiedResponse::Chunk(ChunkResponse { chunk_id: id, data: Some(vec![1, 2]) });
    assert_eq!(check_chunk_response(ok, &id), Ok(vec![1, 2]));
    let other = UnifiedResponse::Chunk(ChunkResponse { chunk_id: ChunkId([2; 32]), data: Some(vec![1]) });
    assert_eq!(check_chunk_response(other, &id), Err(FetchError::ChunkIdMismatch));
    let missing = UnifiedResponse::Chunk(ChunkResponse { chunk_id: id, data: None });
    assert_eq!(check_chunk_response(missing, &id), Err(FetchError::NotFound));
    let wrong_kind = UnifiedResponse::Manifest(ManifestResponse { manifest: None });
    assert_eq!(check_chunk_response(wrong_kind.clone(), &id), Err(FetchError::UnexpectedResponse));
    assert_eq!(check_manifest_response(wrong_kind), Err(FetchError::NotFound));
    let meta = UnifiedResponse::ObjectMetadata(ObjectMetadataResponse { object_id: ObjectId([1; 32]), metadata: None });
    assert_eq!(check_metadata_response(meta), Err(FetchError::NotFound));
    assert!(matches!(unified_of(TransferResponse::Ack), Err(FetchError::UnexpectedResponse)));
}

#[test]
fn chunk_part_answers_are_checked() {
    let id = ChunkId([1; 32]);
    let part = |offset: u32, data: Option<Vec<u8>>| UnifiedResponse::ChunkPart(ChunkPartResponse { chunk_id: id, offset, data });
    assert_eq!(check_chunk_part_response(part(4, Some(vec![9, 9])), &id, 4, 2), Ok(vec![9, 9]));
    assert_eq!(check_chunk_part_response(part(0, Some(vec![9, 9])), &id, 4, 2), Err(FetchError::OffsetMismatch));
    assert_eq!(check_chunk_part_response(part(4, Some(vec![9])), &id, 4, 2), Err(FetchError::WrongPartLength));
    assert_eq!(check_chunk_part_response(part(4, None), &id, 4, 2), Err(FetchError::NotFound));
}

#[test]
fn chunks_split_into_parts() {
    assert_eq!(subchunk_parts(10, 4), vec![(0, 4), (4, 4), (8, 2)]);
    assert_eq!(subchunk_parts(8, 4), vec![(0, 4), (4, 4)]);
    assert_eq!(subchunk_parts(0, 4), vec![]);
}

#[test]
fn program_manifest_and_announcement() {
    let object = Object {
        id: ObjectId([3; 32]),
        object_type: ObjectType::WasmProgram {
            entrypoint: "main".to_string(),
            wasm_version: None,
            source_language: None,
            compiler: None,
            blob_refs: vec![],
            deploy_salt: vec![],
        },
        total_size: 1,
        chunk_count: 1,
        manifest_id: ManifestId([4; 32]),
        publisher: NodeId([5; 32]),
        created_at: 0,
    };
    let m = unsigned_program_manifest(&object, NodeId([6; 32]), [7; 32], b"meta", 99).unwrap();
    assert_eq!(m.program_id, ProgramId([3; 32]));
    assert_eq!(m.version, 1);
    assert_eq!(m.entrypoints, vec!["main".to_string()]);
    assert_eq!(m.metadata_hash, *blake3::hash(b"meta").as_bytes());
    assert_eq!(m.wasm_env_hash, *blake3::hash(b"wasm_env_v1").as_bytes());
    assert_eq!(m.code_manifest, Some(ManifestId([4; 32])));
    let blob = Object { object_type: ObjectType::Blob { mime_type: None }, ..object };
    assert_eq!(unsigned_program_manifest(&blob, NodeId([6; 32]), [7; 32], b"meta", 99), Err(IngestError::NotAProgram));
    let om = Manifest {
        object_id: ObjectId([3; 32]),
        content_hash: [0; 32],
        chunks: vec![ChunkDescriptor { chunk_id: ChunkId([8; 32]), size: 1, offset: 0 }],
        version: 1,
    };
    let ann = build_program_announcement(m, &om);
    assert_eq!(ann.chunk_roots, vec![ChunkId([8; 32])]);
    assert!(ann.initial_state_chunks.is_empty());
}

use onvm::engine::{check_state_response, StateResponseCheck};
use onvm::merkle::sparse_merkle_root;
use onvm::protocol::StateResponse;
use onvm::runtime::PendingWrites;

#[test]
fn pending_writes_read_back_the_latest_value() {
    let mut p = PendingWrites::new();
    assert_eq!(p.get(&b"k".to_vec()), None);
    p.put(b"k".to_vec(), b"1".to_vec());
    p.put(b"j".to_vec(), b"2".to_vec());
    p.put(b"k".to_vec(), b"3".to_vec());
    assert_eq!(p.get(&b"k".to_vec()), Some(b"3".to_vec()));
    assert_eq!(p.get(&b"j".to_vec()), Some(b"2".to_vec()));
    assert_eq!(p.entries.len(), 2);
}

#[test]
fn state_responses_must_match_the_expected_root() {
    let entries = vec![(b"a".to_vec(), b"1".to_vec())];
    let root = sparse_merkle_root(&entries);
    let resp = StateResponse { program_id: ProgramId([1; 32]), state_root: root, state_entries: entries.clone() };
    assert_eq!(check_state_response(&resp, None, None), StateResponseCheck::UnknownProgram);
    assert_eq!(check_state_response(&resp, Some(root), Some([9; 32])), StateResponseCheck::Accept);
    assert_eq!(check_state_response(&resp, None, Some(root)), StateResponseCheck::Accept);
    assert_eq!(check_state_response(&resp, Some([9; 32]), None), StateResponseCheck::RootMismatch);
    let lying = StateResponse { state_root: [9; 32], ..resp };
    assert_eq!(check_state_response(&lying, Some([9; 32]), None), StateResponseCheck::EntriesMismatch);
}

use onvm::gateway::{attachment_disposition, blob_delivery, BlobDelivery, SIZE_THRESHOLD_BYTES};

#[test]
fn blobs_are_shown_or_downloaded() {
    let id = "0123456789abcdef0123456789abcdef0123456789abcdef0123456789abcdef";
    assert_eq!(blob_delivery(false, 10, "image/png", id, "png"), BlobDelivery::Inline);
    assert_eq!(
        blob_delivery(true, 10, "image/png", id, "png"),
        BlobDelivery::Attachment("0123456789ab.png".to_string())
    );
    assert_eq!(
        blob_delivery(false, SIZE_THRESHOLD_BYTES + 1, "image/png", id, "png"),
        BlobDelivery::Attachment("0123456789ab.png".to_string())
    );
    assert_eq!(
        blob_delivery(false, 10, "application/zip", id, "zip"),
        BlobDelivery::Attachment("0123456789ab.zip".to_string())
    );
    assert_eq!(attachment_disposition("a.png"), "attachment; filename=\"a.png\"");
}

use onvm::coordination::{is_eligible, is_stale, JobRequirements, NodeCapabilities};

fn caps(cores: u32) -> NodeCapabilities {
    NodeCapabilities {
        cpu_cores: cores,
        memory_gb: 16,
        memory_available_gb: 8,
        has_gpu: false,
        gpu_model: None,
        gpu_vram_gb: None,
        storage_gb: 100,
        bandwidth_mbps: None,
        specializations: vec![],
        max_concurrent_jobs: 4,
        current_job_count: 0,
        advertised_at: 0,
    }
}

#[test]
fn stale_and_eligible_peers() {
    assert!(!is_stale(1_000, 301_999, 300));
    assert!(is_stale(1_000, 302_000, 300));
    assert!(is_stale(5_000, 1_000, 300));
    let reqs = JobRequirements { min_cpu_cores: 4, ..Default::default() };
    assert!(is_eligible(0, 1_000, None, None));
    assert!(!is_eligible(0, 1_000, None, Some(&reqs)));
    assert!(is_eligible(0, 1_000, Some(&caps(8)), Some(&reqs)));
    assert!(!is_eligible(0, 1_000, Some(&caps(2)), Some(&reqs)));
    assert!(!is_eligible(0, 400_000, Some(&caps(8)), None));
}

#[test]
fn a_stored_manifest_is_kept_over_an_incoming_one() {
    let stored = Manifest { object_id: ObjectId([1; 32]), content_hash: [2; 32], chunks: vec![], version: 1 };
    let incoming = Manifest { object_id: ObjectId([1; 32]), content_hash: [3; 32], chunks: vec![], version: 2 };
    assert_eq!(manifest_to_keep(Some(stored.clone()), incoming.clone()), stored);
    assert_eq!(manifest_to_keep(None, incoming.clone()), incoming);
}
