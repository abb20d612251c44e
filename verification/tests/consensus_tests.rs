use onvm::leader_forward::{ForwardStep, LeaderForward, LeaderReply, ReplyAction};
use onvm::bls::{aggregate_public_keys, generate_keypair, sign, BlsPublicKey, BlsSecretKey, BlsSignature, DST_RECEIPT};
use onvm::committee::{leader_for_height, select_signers, signer_weight, ReceiptError, ReceiptVerifier};
use onvm::engine::{
    decode_last_voted, encode_last_voted, finalized_transition_key, forward_queue, next_height,
    route_leader_request, sync_target, LeaderRoute, RecordError,
};
use onvm::proposal::{check_bundle, check_execution, check_proposal, BundleCheck, ExecutionCheck, ProposalCheck};
use onvm::protocol::{StateTransitionProposal, StateTransitionVote};
use onvm::runtime::ExecutionOutcome;
use onvm::transition::{build_finalized_bundle, signer_bitmap, PendingTransition, VoteOutcome};
use onvm::types::{
    CommitteeCertificate, CommitteeMember, ExecutionCall, ExecutionReceipt, NodeId, ProgramId, StateWrite,
};

fn committee_of(n: u8, threshold: u32) -> (CommitteeCertificate, Vec<BlsSecretKey>) {
    let mut members = Vec::new();
    let mut secrets = Vec::new();
    let mut keys: Vec<BlsPublicKey> = Vec::new();
    for i in 0..n {
        let (sk, pk) = generate_keypair().unwrap();
        members.push(CommitteeMember { node: NodeId([i + 1; 32]), weight: 1, bls_public_key: pk });
        secrets.push(sk);
        keys.push(pk);
    }
    let aggregate_public_key = aggregate_public_keys(&keys).unwrap();
    (
        CommitteeCertificate {
            program_id: ProgramId([7u8; 32]),
            epoch: 3,
            members,
            threshold,
            aggregate_public_key,
            signature: None,
        },
        secrets,
    )
}

fn receipt_for(executor: NodeId, height: u64, calldata: &[u8]) -> ExecutionReceipt {
    ExecutionReceipt {
        program_id: ProgramId([7u8; 32]),
        height,
        state_root_in: [1u8; 32],
        call: ExecutionCall { entrypoint: "main".to_string(), calldata: calldata.to_vec(), request_id: [2u8; 32] },
        inputs_hash: *blake3::hash(calldata).as_bytes(),
        gas_used: 10,
        state_root_out: [3u8; 32],
        write_digest: [4u8; 32],
        events_hash: [0u8; 32],
        wasm_code_hash: None,
        wasm_env_hash: [5u8; 32],
        nonce: 0,
        executor,
    }
}

fn vote(signer: NodeId, receipt_id: [u8; 32], signature: BlsSignature) -> StateTransitionVote {
    StateTransitionVote { program_id: ProgramId([7u8; 32]), committee_epoch: 3, receipt_id, signer, signature }
}

#[test]
fn leaders_take_turns() {
    let (committee, _) = committee_of(3, 2);
    assert_eq!(leader_for_height(&committee, 0), None);
    assert_eq!(leader_for_height(&committee, 1), Some(NodeId([1; 32])));
    assert_eq!(leader_for_height(&committee, 2), Some(NodeId([2; 32])));
    assert_eq!(leader_for_height(&committee, 4), Some(NodeId([1; 32])));
}

#[test]
fn votes_reach_quorum_and_the_bundle_verifies() {
    let (committee, secrets) = committee_of(3, 2);
    let receipt_id = [9u8; 32];
    let mut pending = PendingTransition::new(committee.clone(), receipt_for(NodeId([1; 32]), 1, b"in"), receipt_id, vec![]);

    let sig0 = sign(&receipt_id, &secrets[0], &DST_RECEIPT).unwrap();
    assert_eq!(pending.record_vote(&vote(NodeId([1; 32]), receipt_id, sig0)), VoteOutcome::Recorded);
    assert_eq!(pending.record_vote(&vote(NodeId([1; 32]), receipt_id, sig0)), VoteOutcome::AlreadyVoted);
    assert_eq!(pending.weight(), 1);
    assert!(!pending.has_quorum());

    let forged = sign(&receipt_id, &secrets[0], &DST_RECEIPT).unwrap();
    assert_eq!(pending.record_vote(&vote(NodeId([3; 32]), receipt_id, forged)), VoteOutcome::InvalidSignature);
    assert_eq!(pending.record_vote(&vote(NodeId([9; 32]), receipt_id, forged)), VoteOutcome::NotAMember);
    assert_eq!(pending.record_vote(&vote(NodeId([2; 32]), [8u8; 32], forged)), VoteOutcome::UnknownReceipt);

    let sig2 = sign(&receipt_id, &secrets[2], &DST_RECEIPT).unwrap();
    assert_eq!(pending.record_vote(&vote(NodeId([3; 32]), receipt_id, sig2)), VoteOutcome::ReadyToFinalize);
    assert_eq!(pending.signatures.len(), 2);

    let bundle = build_finalized_bundle(pending).unwrap().unwrap();
    assert_eq!(bundle.receipt.signer_bitmap, vec![0b0000_0101]);
    assert_eq!(bundle.receipt.committee_epoch, 3);
    assert_eq!(ReceiptVerifier::verify_aggregated_receipt(&bundle.receipt, &bundle.committee, &receipt_id), Ok(()));
    let (keys, weight) = select_signers(&committee, &bundle.receipt.signer_bitmap);
    assert_eq!(keys, vec![committee.members[0].bls_public_key, committee.members[2].bls_public_key]);
    assert_eq!(weight, 2);
}

#[test]
fn receipt_verification_errors() {
    let (committee, secrets) = committee_of(2, 2);
    let receipt_id = [9u8; 32];
    let mut pending = PendingTransition::new(committee.clone(), receipt_for(NodeId([1; 32]), 1, b"x"), receipt_id, vec![]);
    for (i, sk) in secrets.iter().enumerate() {
        let sig = sign(&receipt_id, sk, &DST_RECEIPT).unwrap();
        pending.record_vote(&vote(NodeId([i as u8 + 1; 32]), receipt_id, sig));
    }
    let bundle = build_finalized_bundle(pending).unwrap().unwrap();

    let mut wrong_epoch = bundle.receipt.clone();
    wrong_epoch.committee_epoch = 4;
    assert_eq!(ReceiptVerifier::verify_aggregated_receipt(&wrong_epoch, &committee, &receipt_id), Err(ReceiptError::EpochMismatch));

    let mut other_program = bundle.receipt.clone();
    other_program.receipt.program_id = ProgramId([1u8; 32]);
    assert_eq!(ReceiptVerifier::verify_aggregated_receipt(&other_program, &committee, &receipt_id), Err(ReceiptError::ProgramMismatch));

    let mut no_bits = bundle.receipt.clone();
    no_bits.signer_bitmap = vec![0];
    assert_eq!(ReceiptVerifier::verify_aggregated_receipt(&no_bits, &committee, &receipt_id), Err(ReceiptError::NoSigners));

    let mut one_bit = bundle.receipt.clone();
    one_bit.signer_bitmap = vec![1];
    assert_eq!(
        ReceiptVerifier::verify_aggregated_receipt(&one_bit, &committee, &receipt_id),
        Err(ReceiptError::InsufficientWeight { have: 1, need: 2 })
    );

    assert_eq!(
        ReceiptVerifier::verify_aggregated_receipt(&bundle.receipt, &committee, &[1u8; 32]),
        Err(ReceiptError::InvalidAggregateSignature)
    );
}

#[test]
fn finalization_waits_for_the_threshold() {
    let (committee, secrets) = committee_of(3, 3);
    let receipt_id = [5u8; 32];
    let mut pending = PendingTransition::new(committee, receipt_for(NodeId([1; 32]), 1, b"y"), receipt_id, vec![]);
    let sig = sign(&receipt_id, &secrets[1], &DST_RECEIPT).unwrap();
    assert_eq!(pending.record_vote(&vote(NodeId([2; 32]), receipt_id, sig)), VoteOutcome::Recorded);
    assert!(build_finalized_bundle(pending).unwrap().is_none());
}

#[test]
fn signer_bitmap_marks_voters_by_position() {
    let (committee, _) = committee_of(10, 1);
    let sig = BlsSignature([0u8; 48]);
    let sigs = vec![(NodeId([10; 32]), sig), (NodeId([2; 32]), sig)];
    let (bitmap, chosen, weight) = signer_bitmap(&committee, &sigs);
    assert_eq!(bitmap, vec![0b0000_0010, 0b0000_0010]);
    assert_eq!(chosen.len(), 2);
    assert_eq!(weight, 2);
    assert_eq!(signer_weight(&committee, &[NodeId([2; 32]), NodeId([10; 32]), NodeId([99; 32])]), 2);
}

#[test]
fn proposal_checks_in_order() {
    let (committee, secrets) = committee_of(3, 2);
    let me = NodeId([2; 32]);
    let my_key = committee.members[1].bls_public_key;
    let rid = [6u8; 32];
    let good = StateTransitionProposal { receipt: receipt_for(NodeId([1; 32]), 1, b"call"), committee_epoch: 3, state_writes: vec![] };
    assert_eq!(check_proposal(&good, &committee, &me, &my_key, None, &[1u8; 32], &rid, None), ProposalCheck::Execute);

    let mut wrong_epoch = good.clone();
    wrong_epoch.committee_epoch = 2;
    assert_eq!(check_proposal(&wrong_epoch, &committee, &me, &my_key, None, &[1u8; 32], &rid, None), ProposalCheck::EpochMismatch);

    let not_leader = StateTransitionProposal { receipt: receipt_for(NodeId([2; 32]), 1, b"call"), ..good.clone() };
    assert_eq!(check_proposal(&not_leader, &committee, &me, &my_key, None, &[1u8; 32], &rid, None), ProposalCheck::NotFromLeader);

    assert_eq!(check_proposal(&good, &committee, &NodeId([9; 32]), &my_key, None, &[1u8; 32], &rid, None), ProposalCheck::NotAMember);
    let other_key = committee.members[0].bls_public_key;
    assert_eq!(check_proposal(&good, &committee, &me, &other_key, None, &[1u8; 32], &rid, None), ProposalCheck::KeyMismatch);
    assert_eq!(check_proposal(&good, &committee, &me, &my_key, Some(1), &[1u8; 32], &rid, None), ProposalCheck::UnexpectedHeight);
    assert_eq!(check_proposal(&good, &committee, &me, &my_key, None, &[0u8; 32], &rid, None), ProposalCheck::StateRootMismatch);
    assert_eq!(check_proposal(&good, &committee, &me, &my_key, None, &[1u8; 32], &rid, Some((1, [0u8; 32]))), ProposalCheck::ConflictingVote);
    assert_eq!(check_proposal(&good, &committee, &me, &my_key, None, &[1u8; 32], &rid, Some((1, rid))), ProposalCheck::Execute);
    assert_eq!(check_proposal(&good, &committee, &me, &my_key, None, &[1u8; 32], &rid, Some((2, rid))), ProposalCheck::StaleHeight);

    let mut bad_hash = good.clone();
    bad_hash.receipt.inputs_hash = [0u8; 32];
    assert_eq!(check_proposal(&bad_hash, &committee, &me, &my_key, None, &[1u8; 32], &rid, None), ProposalCheck::InputsHashMismatch);

    let empty = CommitteeCertificate { members: vec![], ..committee.clone() };
    assert_eq!(check_proposal(&good, &empty, &me, &my_key, None, &[1u8; 32], &rid, None), ProposalCheck::NoLeader);
    let _ = secrets;
}

#[test]
fn execution_checks_compare_writes_roots_and_digest() {
    let writes = vec![StateWrite { key: b"k".to_vec(), value: Some(b"v".to_vec()) }];
    let predicted = onvm::merkle::sparse_merkle_root(&[(b"k".to_vec(), b"v".to_vec())]);
    let encoded = b"encoded-writes".to_vec();
    let mut receipt = receipt_for(NodeId([1; 32]), 1, b"c");
    receipt.state_root_out = predicted;
    receipt.write_digest = *blake3::hash(&encoded).as_bytes();
    let proposal = StateTransitionProposal { receipt, committee_epoch: 3, state_writes: writes.clone() };
    let outcome = ExecutionOutcome {
        program_id: ProgramId([7u8; 32]),
        return_data: vec![],
        fuel_consumed: 1,
        state_writes: writes.clone(),
        state_root: predicted,
    };
    assert_eq!(check_execution(&proposal, &outcome, &encoded, &vec![]), ExecutionCheck::Sign);
    assert_eq!(check_execution(&proposal, &outcome, b"other", &vec![]), ExecutionCheck::DigestMismatch);
    assert_eq!(
        check_execution(&proposal, &outcome, &encoded, &vec![(b"x".to_vec(), b"y".to_vec())]),
        ExecutionCheck::PredictedRootMismatch
    );
    let mut other = outcome.clone();
    other.state_writes = vec![];
    assert_eq!(check_execution(&proposal, &other, &encoded, &vec![]), ExecutionCheck::WritesMismatch);
    let mut other_root = outcome.clone();
    other_root.state_root = [0u8; 32];
    assert_eq!(check_execution(&proposal, &other_root, &encoded, &vec![]), ExecutionCheck::RootMismatch);
}

#[test]
fn bundle_checks() {
    let (committee, _) = committee_of(1, 1);
    let writes = vec![StateWrite { key: b"k".to_vec(), value: Some(b"v".to_vec()) }];
    let encoded = b"w".to_vec();
    let mut receipt = receipt_for(NodeId([1; 32]), 1, b"c");
    receipt.state_root_out = onvm::merkle::sparse_merkle_root(&[(b"k".to_vec(), b"v".to_vec())]);
    receipt.write_digest = *blake3::hash(&encoded).as_bytes();
    let bundle = onvm::protocol::AggregatedReceiptBundle {
        receipt: onvm::types::AggregatedReceipt {
            receipt,
            committee_epoch: 3,
            signer_bitmap: vec![1],
            aggregate_signature: BlsSignature([0u8; 48]),
            aggregate_public_key: committee.aggregate_public_key,
        },
        committee,
        state_writes: writes,
    };
    assert_eq!(check_bundle(&bundle, &[1u8; 32], &encoded, &vec![]), BundleCheck::Apply);
    assert_eq!(check_bundle(&bundle, &[2u8; 32], &encoded, &vec![]), BundleCheck::StateRootMismatch);
    assert_eq!(check_bundle(&bundle, &[1u8; 32], b"x", &vec![]), BundleCheck::DigestMismatch);
}

#[test]
fn engine_heights_and_routes() {
    assert_eq!(next_height(None), 1);
    assert_eq!(next_height(Some(4)), 5);
    assert_eq!(next_height(Some(u64::MAX)), u64::MAX);
    let (committee, _) = committee_of(3, 2);
    assert_eq!(route_leader_request(&committee, None, &NodeId([1; 32])), LeaderRoute::ExecuteHere);
    assert_eq!(route_leader_request(&committee, Some(1), &NodeId([1; 32])), LeaderRoute::Redirect(NodeId([2; 32])));
    let empty = CommitteeCertificate { members: vec![], ..committee.clone() };
    assert_eq!(route_leader_request(&empty, None, &NodeId([1; 32])), LeaderRoute::NoLeader);
    assert_eq!(forward_queue(&committee, &NodeId([2; 32])), vec![NodeId([2; 32]), NodeId([1; 32]), NodeId([3; 32])]);
    assert_eq!(sync_target(5, Some(5)), None);
    assert_eq!(sync_target(7, Some(5)), Some(6));
    assert_eq!(sync_target(1, None), Some(1));
}

#[test]
fn last_vote_record_roundtrip() {
    let id = [0xabu8; 32];
    let record = encode_last_voted(0x0102_0304_0506_0708, &id);
    assert_eq!(&record[..8], &[1, 2, 3, 4, 5, 6, 7, 8]);
    assert_eq!(decode_last_voted(&record), Ok((0x0102_0304_0506_0708, id)));
    assert_eq!(decode_last_voted(&record[..39]), Err(RecordError::InvalidLength));
    let key = finalized_transition_key(&ProgramId([7u8; 32]), 258);
    assert_eq!(key.len(), 40);
    assert_eq!(&key[32..], &[0, 0, 0, 0, 0, 0, 1, 2]);
}

#[test]
fn peer_id_of_a_node_is_its_ed25519_peer_id() {
    let keys = onvm::keys::NodeKeys::generate();
    let node = NodeId(keys.public);
    let bytes = onvm::leader_forward::peer_id_for_node_id(&node).unwrap();
    assert_eq!(&bytes[..6], &[0u8, 36, 8, 1, 18, 32]);
    assert_eq!(&bytes[6..], &keys.public[..]);
    let pk = libp2p::identity::ed25519::PublicKey::try_from_bytes(&keys.public).unwrap();
    let expected = libp2p::PeerId::from(libp2p::identity::PublicKey::from(pk)).to_bytes();
    assert_eq!(bytes, expected);
}

#[test]
fn peer_id_of_an_invalid_key_is_none() {
    // The y-coordinate 2 is not on the curve for either sign.
    let mut key = [0u8; 32];
    key[0] = 2;
    let valid = ed25519_dalek::VerifyingKey::from_bytes(&key).is_ok();
    assert_eq!(onvm::leader_forward::peer_id_for_node_id(&NodeId(key)).is_some(), valid);
}

#[test]
fn forwarding_asks_leader_then_others_once_each() {
    let (committee, _) = committee_of(3, 2);
    let local = NodeId([9u8; 32]);
    let hint = NodeId([2u8; 32]);
    let mut fwd = LeaderForward::new(&committee, &hint);
    assert_eq!(fwd.limit, 7);
    assert_eq!(fwd.next_step(&local), ForwardStep::Ask(NodeId([2u8; 32])));
    // The hinted node redirects to a node already asked: it is skipped.
    assert_eq!(fwd.on_reply(LeaderReply::Redirect(NodeId([2u8; 32]))), ReplyAction::Continue);
    assert_eq!(fwd.next_step(&local), ForwardStep::Ask(NodeId([1u8; 32])));
    assert_eq!(fwd.on_reply(LeaderReply::Unreachable), ReplyAction::Continue);
    assert_eq!(fwd.next_step(&local), ForwardStep::Ask(NodeId([3u8; 32])));
    assert_eq!(fwd.on_reply(LeaderReply::Outcome), ReplyAction::Finish);
    assert_eq!(fwd.next_step(&local), ForwardStep::GiveUp);
    assert_eq!(fwd.attempts, 3);
}

#[test]
fn forwarding_runs_locally_when_redirected_to_self() {
    let (committee, _) = committee_of(2, 1);
    let local = NodeId([9u8; 32]);
    let mut fwd = LeaderForward::new(&committee, &NodeId([1u8; 32]));
    assert_eq!(fwd.next_step(&local), ForwardStep::Ask(NodeId([1u8; 32])));
    assert_eq!(fwd.on_reply(LeaderReply::Redirect(local)), ReplyAction::Continue);
    assert_eq!(fwd.next_step(&local), ForwardStep::RunLocally);
    assert_eq!(fwd.on_reply(LeaderReply::Error), ReplyAction::Fail);
}

#[test]
fn forwarding_gives_up_past_the_limit() {
    let (committee, _) = committee_of(1, 1);
    let local = NodeId([0u8; 32]);
    let mut fwd = LeaderForward::new(&committee, &NodeId([1u8; 32]));
    assert_eq!(fwd.limit, 5);
    let mut asked = 0;
    loop {
        match fwd.next_step(&local) {
            ForwardStep::Ask(_) => {
                asked += 1;
                fwd.on_reply(LeaderReply::Redirect(NodeId([100 + asked as u8; 32])));
            }
            ForwardStep::GiveUp => break,
            ForwardStep::RunLocally => panic!("not the local node"),
        }
    }
    assert_eq!(asked, 5);
}

#[test]
fn no_height_follows_the_largest_one() {
    let (committee, _secrets) = committee_of(3, 2);
    let me = NodeId([2; 32]);
    let my_key = committee.members[1].bls_public_key;
    let rid = [6u8; 32];
    let good = StateTransitionProposal { receipt: receipt_for(NodeId([1; 32]), 1, b"call"), committee_epoch: 3, state_writes: vec![] };
    assert_eq!(
        check_proposal(&good, &committee, &me, &my_key, Some(u64::MAX), &[1u8; 32], &rid, None),
        ProposalCheck::UnexpectedHeight
    );
    assert_eq!(check_proposal(&good, &committee, &me, &my_key, Some(0), &[1u8; 32], &rid, None), ProposalCheck::Execute);
}
