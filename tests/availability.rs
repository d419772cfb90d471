use availability_bench::driver::{
    locality_hint, pacing_delay, per_block, prepare_test, throughput_kib_per_block, total_mib,
    Phase, RoundDriver, REQUIRED_CHUNKS, ROUND_BUDGET_MS,
};
use availability_bench::erasure::{derive_erasure_chunks_with_proofs_and_root, AvailableBlob};
use availability_bench::error::BenchError;
use availability_bench::state::{TestConfiguration, TestState};
use parity_scale_codec::Encode;
use polkadot_node_primitives::{AvailableData, Proof};
use polkadot_primitives::{BlakeTwo256, HashT};

fn blob(size: usize, fill: u8) -> AvailableBlob {
    AvailableBlob {
        parent_head: vec![7, 8, 9],
        relay_parent_number: 0,
        relay_parent_storage_root: [0u8; 32],
        max_pov_size: 1024,
        block_data: vec![fill; size],
    }
}

fn config(n_validators: usize, n_cores: usize, num_blocks: usize, sizes: Vec<usize>) -> TestConfiguration {
    TestConfiguration { n_validators, n_cores, num_blocks, pov_sizes: sizes }
}

#[test]
fn derive_yields_one_verifiable_chunk_per_validator() {
    let data = blob(1024, 0);
    let (chunks, root) = derive_erasure_chunks_with_proofs_and_root(10, &data).unwrap();
    assert_eq!(chunks.len(), 10);
    assert_eq!(root.len(), 32);
    let root_hash = polkadot_primitives::Hash::from_slice(&root);
    for (i, chunk) in chunks.iter().enumerate() {
        assert_eq!(chunk.index, i as u32);
        assert!(!chunk.chunk.is_empty());
        let proof = Proof::try_from(chunk.proof.clone()).unwrap();
        let leaf = polkadot_erasure_coding::branch_hash(&root_hash, &proof, i).unwrap();
        assert_eq!(leaf, BlakeTwo256::hash(&chunk.chunk));
    }
}

#[test]
fn derive_is_deterministic() {
    let (a, root_a) = derive_erasure_chunks_with_proofs_and_root(12, &blob(2048, 3)).unwrap();
    let (b, root_b) = derive_erasure_chunks_with_proofs_and_root(12, &blob(2048, 3)).unwrap();
    assert_eq!(root_a, root_b);
    assert_eq!(a.len(), b.len());
    for (x, y) in a.iter().zip(b.iter()) {
        assert_eq!(x.chunk, y.chunk);
        assert_eq!(x.index, y.index);
        assert_eq!(x.proof, y.proof);
    }
    let (_, root_c) = derive_erasure_chunks_with_proofs_and_root(12, &blob(2048, 4)).unwrap();
    assert_ne!(root_a, root_c);
}

#[test]
fn derive_zero_validators_is_encoding_error() {
    let r = derive_erasure_chunks_with_proofs_and_root(0, &blob(1024, 0));
    assert!(matches!(r, Err(BenchError::EncodingError)));
}

#[test]
fn derive_one_validator_is_encoding_error() {
    let r = derive_erasure_chunks_with_proofs_and_root(1, &blob(1024, 0));
    assert!(matches!(r, Err(BenchError::EncodingError)));
}

#[test]
fn derive_too_many_validators_is_encoding_error() {
    let r = derive_erasure_chunks_with_proofs_and_root(65537, &blob(16, 0));
    assert!(matches!(r, Err(BenchError::EncodingError)));
}

#[test]
fn new_keeps_one_template_per_distinct_size() {
    let state = TestState::new(&config(10, 5, 2, vec![2048, 1024, 2048, 512])).unwrap();
    assert_eq!(state.template_sizes, vec![2048, 1024, 512]);
    assert_eq!(state.chunks.len(), 3);
    assert_eq!(state.available_data[1].block_data, vec![1u8; 1024]);
    assert_eq!(state.available_data[2].block_data, vec![2u8; 512]);
    for set in state.chunks.iter() {
        assert_eq!(set.len(), 10);
    }
    assert_ne!(state.erasure_roots[0], state.erasure_roots[1]);
    assert!(state.candidates.is_empty());
}

#[test]
fn new_with_zero_validators_fails() {
    let r = TestState::new(&config(0, 5, 2, vec![1024]));
    assert!(matches!(r, Err(BenchError::EncodingError)));
}

#[test]
fn new_without_sizes_has_no_templates() {
    let state = TestState::new(&config(0, 5, 2, vec![])).unwrap();
    assert!(state.template_sizes.is_empty());
}

#[test]
fn generated_candidates_are_distinct_and_resolvable() {
    let mut state = TestState::new(&config(6, 3, 3, vec![1024, 512])).unwrap();
    state.generate_candidates(9);
    assert_eq!(state.candidates.len(), 9);
    for (i, c) in state.candidates.iter().enumerate() {
        assert_eq!(c.relay_parent, i as u64);
        assert_eq!(c.template, i % 2);
        assert_eq!(state.template_of_candidate(c.relay_parent), Some(c.template));
    }
    assert_eq!(state.template_of_candidate(9), None);
}

#[test]
fn generation_resumes_the_size_cycle() {
    let mut state = TestState::new(&config(6, 3, 1, vec![1024, 512, 256])).unwrap();
    state.generate_candidates(2);
    state.generate_candidates(2);
    let templates: Vec<usize> = state.candidates.iter().map(|c| c.template).collect();
    assert_eq!(templates, vec![2, 0]);
}

#[test]
fn generation_is_reproducible() {
    let mut a = TestState::new(&config(6, 4, 2, vec![1024, 512, 1024])).unwrap();
    let mut b = TestState::new(&config(6, 4, 2, vec![1024, 512, 1024])).unwrap();
    a.generate_candidates(8);
    b.generate_candidates(8);
    assert_eq!(a.candidates, b.candidates);
}

#[test]
fn next_candidate_wraps_round() {
    let mut state = TestState::new(&config(4, 1, 3, vec![64])).unwrap();
    assert_eq!(state.next_candidate(), None);
    state.generate_candidates(3);
    let ids: Vec<u64> = (0..5).map(|_| state.next_candidate().unwrap().relay_parent).collect();
    assert_eq!(ids, vec![0, 1, 2, 0, 1]);
}

#[test]
fn pacing_fills_the_budget_or_flags_overrun() {
    let d = pacing_delay(1500);
    assert_eq!(d.sleep_ms, 4500);
    assert!(!d.overrun);
    assert_eq!(pacing_delay(0).sleep_ms, ROUND_BUDGET_MS);
    let d = pacing_delay(6000);
    assert_eq!(d.sleep_ms, 0);
    assert!(d.overrun);
    let d = pacing_delay(9000);
    assert_eq!(d.sleep_ms, 0);
    assert!(d.overrun);
}

#[test]
fn locality_hint_groups_by_fives() {
    assert_eq!(locality_hint(4, 5), 0);
    assert_eq!(locality_hint(3, 3), 0);
    assert_eq!(locality_hint(3, 12), 1);
    assert_eq!(locality_hint(7, 15), 1);
}

#[test]
fn report_arithmetic() {
    assert_eq!(throughput_kib_per_block(10700, 2), 5);
    assert_eq!(throughput_kib_per_block(1 << 20, 4), 256);
    assert_eq!(per_block(12345, 2), 6172);
    assert_eq!(total_mib(&vec![1 << 20, 1 << 20, 512 << 10]), 2);
    assert_eq!(total_mib(&vec![]), 0);
}

const RECOVERED_SIZE: u64 = 1070;

fn recovered_size(state: &TestState, template: usize) -> u64 {
    let n = state.config.n_validators;
    let pieces = state.chunks[template].iter().map(|c| (&c.chunk[..], c.index as usize));
    let data: AvailableData = polkadot_erasure_coding::reconstruct_v1(n, pieces).unwrap();
    data.encoded_size() as u64
}

#[test]
fn template_round_trips_through_the_code() {
    let state = TestState::new(&config(10, 5, 2, vec![1024])).unwrap();
    assert_eq!(recovered_size(&state, 0), RECOVERED_SIZE);
}

#[test]
fn full_run_of_two_blocks() {
    let mut state = TestState::new(&config(10, 5, 2, vec![1024])).unwrap();
    let mut driver = prepare_test(&mut state).unwrap();
    assert_eq!(state.candidates.len(), 10);
    let mut submissions = 0;
    let mut rounds = 0;
    while driver.phase != Phase::Finished {
        let mut this_round = 0;
        while driver.phase == Phase::Submitting {
            let req = driver.next_submission(&mut state);
            assert_eq!(req.required_chunks, REQUIRED_CHUNKS);
            assert_eq!(req.group, Some(0));
            assert_eq!(req.candidate.relay_parent, submissions as u64);
            submissions += 1;
            this_round += 1;
        }
        assert_eq!(this_round, 5);
        assert_eq!(driver.phase, Phase::Awaiting);
        while driver.phase == Phase::Awaiting {
            let size = recovered_size(&state, 0);
            driver.on_completion(Some(size)).unwrap();
        }
        assert_eq!(driver.round_bytes, 5 * RECOVERED_SIZE as u128);
        let pacing = driver.end_round(2000);
        assert_eq!(pacing.sleep_ms, 4000);
        rounds += 1;
    }
    assert_eq!(submissions, 10);
    assert_eq!(rounds, 2);
    let report = driver.report();
    assert_eq!(report.total_bytes, 10 * RECOVERED_SIZE as u128);
    assert_eq!(report.kib_per_block, 5);
    assert_eq!(report.rounds, 2);
    assert_eq!(report.overruns, 0);
    assert_eq!(driver.round_times, vec![2000, 2000]);
}

#[test]
fn empty_completion_aborts_the_run() {
    let mut state = TestState::new(&config(10, 5, 2, vec![1024])).unwrap();
    let mut driver = prepare_test(&mut state).unwrap();
    while driver.phase == Phase::Submitting {
        driver.next_submission(&mut state);
    }
    driver.on_completion(Some(RECOVERED_SIZE)).unwrap();
    assert_eq!(driver.on_completion(None), Err(BenchError::AbortedRun));
    assert_eq!(driver.phase, Phase::Aborted);
    assert_eq!(driver.total_bytes, RECOVERED_SIZE as u128);
}

#[test]
fn round_without_completions_stays_open() {
    let mut state = TestState::new(&config(10, 5, 1, vec![1024])).unwrap();
    let mut driver = prepare_test(&mut state).unwrap();
    while driver.phase == Phase::Submitting {
        driver.next_submission(&mut state);
    }
    assert_eq!(driver.submitted, 5);
    for _ in 0..4 {
        driver.on_completion(Some(RECOVERED_SIZE)).unwrap();
    }
    assert_eq!(driver.phase, Phase::Awaiting);
    assert_eq!(driver.drained, 4);
}

#[test]
fn overrun_rounds_are_counted() {
    let mut driver = RoundDriver::new(2, 0);
    assert_eq!(driver.phase, Phase::Pacing);
    let d = driver.end_round(7000);
    assert!(d.overrun);
    driver.end_round(100);
    assert_eq!(driver.phase, Phase::Finished);
    assert_eq!(driver.overruns, 1);
}

#[test]
fn prepare_test_needs_sizes_for_candidates() {
    let mut state = TestState::new(&config(10, 5, 2, vec![])).unwrap();
    assert!(prepare_test(&mut state).is_none());
    let mut state = TestState::new(&config(10, 0, 2, vec![])).unwrap();
    let driver = prepare_test(&mut state).unwrap();
    assert_eq!(driver.phase, Phase::Pacing);
}

#[test]
fn prepare_test_rejects_overflowing_counts() {
    let mut state = TestState::new(&config(10, 1 << 20, usize::MAX, vec![8])).unwrap();
    assert!(prepare_test(&mut state).is_none());
    assert!(state.candidates.is_empty());
}
