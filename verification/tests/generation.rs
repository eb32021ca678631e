use genloop::config::GenerationConfig;
use genloop::engine::Engine;
use genloop::engine::Phase;
use genloop::error::GenerationError;

/// Drives one generation call against a scripted model: `script` holds the
/// tokens the model "samples", in order, as (token_id, is_eog, bytes).
/// Returns the emitted fragments, the tokens decoded, the final phase, and
/// how many batch evaluations the host was asked to perform.
fn run_scripted(
    config: &GenerationConfig,
    n_ctx: u32,
    prompt: &Vec<i32>,
    script: &[(i32, bool, Vec<u8>)],
) -> Result<(Vec<String>, u32, Phase, usize), GenerationError> {
    let mut evaluations = 0usize;
    let mut engine = Engine::start(config, n_ctx, prompt)?;
    // prefill: the host evaluates the initial batch once
    evaluations += 1;
    let mut fragments = Vec::new();
    let mut next = 0usize;
    while engine.phase() == Phase::Decoding {
        let (token_id, is_eog, bytes) = &script[next];
        next += 1;
        let r = engine.step(*token_id, *is_eog, bytes, false);
        if !r.fragment.is_empty() {
            fragments.push(String::from_utf8(r.fragment).expect("malformed fragment"));
        }
        if r.evaluate {
            evaluations += 1;
        }
    }
    Ok((fragments, engine.tokens_decoded(), engine.phase(), evaluations))
}

fn ascii_token(id: i32) -> (i32, bool, Vec<u8>) {
    (id, false, vec![b'a' + (id % 26) as u8])
}

fn eog_token() -> (i32, bool, Vec<u8>) {
    (2, true, Vec::new())
}

#[test]
fn completes_on_end_of_generation_token() {
    // max_length 20, 5 prompt tokens, the model offers 10 ordinary tokens
    // and then the end-of-generation token: all 10 are emitted, the
    // terminal token is not, and the call completes
    let config = GenerationConfig { max_length: 20, batch_size: 64 };
    let prompt = vec![1, 10, 11, 12, 13];
    let mut script: Vec<(i32, bool, Vec<u8>)> = (100..110).map(ascii_token).collect();
    script.push(eog_token());
    let (fragments, decoded, phase, _) =
        run_scripted(&config, 64, &prompt, &script).unwrap();
    assert_eq!(phase, Phase::Completed);
    assert_eq!(decoded, 10);
    assert_eq!(fragments.len(), 10);
    let expected: Vec<String> = (100..110)
        .map(|id| String::from_utf8(vec![b'a' + (id % 26) as u8]).unwrap())
        .collect();
    assert_eq!(fragments, expected);
}

#[test]
fn end_of_generation_token_is_never_emitted() {
    let config = GenerationConfig { max_length: 10, batch_size: 16 };
    let prompt = vec![1, 3];
    let script = vec![(7, true, b"SHOULD NOT APPEAR".to_vec())];
    let (fragments, decoded, phase, evaluations) =
        run_scripted(&config, 16, &prompt, &script).unwrap();
    assert_eq!(phase, Phase::Completed);
    assert_eq!(decoded, 0);
    assert!(fragments.is_empty());
    assert_eq!(evaluations, 1); // the prefill only
}

#[test]
fn prompt_too_long_stops_before_any_evaluation() {
    // max_length 5 and a 5-token prompt: refused before the model is
    // ever asked to evaluate anything
    let config = GenerationConfig { max_length: 5, batch_size: 16 };
    let prompt = vec![1, 2, 3, 4, 5];
    let mut evaluations = 0usize;
    let r = Engine::start(&config, 64, &prompt);
    match r {
        Ok(_) => evaluations += 1, // would be the prefill
        Err(e) => assert_eq!(e, GenerationError::PromptTooLong),
    }
    assert_eq!(evaluations, 0);
}

#[test]
fn capacity_exceeded_when_length_bound_over_context() {
    let config = GenerationConfig { max_length: 128, batch_size: 16 };
    let prompt = vec![1, 2];
    match Engine::start(&config, 64, &prompt) {
        Ok(_) => panic!("start accepted a length bound over the context window"),
        Err(e) => assert_eq!(e, GenerationError::CapacityExceeded),
    }
}

#[test]
fn prompt_beyond_batch_capacity_is_rejected() {
    let config = GenerationConfig { max_length: 64, batch_size: 4 };
    let prompt = vec![1, 2, 3, 4, 5];
    match Engine::start(&config, 64, &prompt) {
        Ok(_) => panic!("start accepted a prompt beyond the batch capacity"),
        Err(e) => assert_eq!(e, GenerationError::EvaluationFailure),
    }
}

#[test]
fn length_budget_is_never_exceeded() {
    // max_length 7 with a 5-token prompt: exactly 2 tokens fit
    let config = GenerationConfig { max_length: 7, batch_size: 16 };
    let prompt = vec![1, 2, 3, 4, 5];
    let script: Vec<(i32, bool, Vec<u8>)> = (100..200).map(ascii_token).collect();
    let (fragments, decoded, phase, evaluations) =
        run_scripted(&config, 16, &prompt, &script).unwrap();
    assert_eq!(phase, Phase::LengthExhausted);
    assert_eq!(decoded, 2);
    assert_eq!(fragments.len(), 2);
    let mut engine = Engine::start(&config, 16, &prompt).unwrap();
    assert_eq!(engine.position(), 5);
    engine.step(100, false, &vec![b'q'], false);
    engine.step(101, false, &vec![b'r'], false);
    // the position counter stops exactly at the length bound
    assert_eq!(engine.position(), 7);
    // prefill, then one evaluation after the first token; the second
    // token fills the budget, so its batch is never submitted
    assert_eq!(evaluations, 2);
}

#[test]
fn two_scripted_runs_are_identical() {
    // the engine is deterministic: the same prompt and the same sampled
    // tokens give the same fragments, counts and phase
    let config = GenerationConfig { max_length: 30, batch_size: 8 };
    let prompt = vec![1, 4, 9];
    let mut script: Vec<(i32, bool, Vec<u8>)> = (40..52).map(ascii_token).collect();
    script.push(eog_token());
    let first = run_scripted(&config, 32, &prompt, &script).unwrap();
    let second = run_scripted(&config, 32, &prompt, &script).unwrap();
    assert_eq!(first.0, second.0);
    assert_eq!(first.1, second.1);
    assert_eq!(first.2, second.2);
    assert_eq!(first.3, second.3);
}

#[test]
fn character_split_across_tokens_is_emitted_once_complete() {
    // a token carrying one byte of a 3-byte character emits nothing; the
    // token completing it emits exactly the one character
    let config = GenerationConfig { max_length: 10, batch_size: 8 };
    let prompt = vec![1];
    let mut engine = Engine::start(&config, 16, &prompt).unwrap();
    let r1 = engine.step(50, false, &vec![0xE4], false);
    assert!(r1.fragment.is_empty());
    let r2 = engine.step(51, false, &vec![0xB8, 0x80], false);
    assert_eq!(String::from_utf8(r2.fragment).unwrap(), "\u{4E00}");
    assert_eq!(engine.phase(), Phase::Decoding);
}

#[test]
fn cancellation_stops_without_output() {
    let config = GenerationConfig { max_length: 10, batch_size: 8 };
    let prompt = vec![1, 2];
    let mut engine = Engine::start(&config, 16, &prompt).unwrap();
    let r = engine.step(50, false, &vec![b'x'], true);
    assert!(r.fragment.is_empty());
    assert!(!r.evaluate);
    assert_eq!(engine.phase(), Phase::Cancelled);
    assert_eq!(engine.tokens_decoded(), 0);
}

#[test]
fn prefill_batch_requests_logits_only_at_the_last_slot() {
    let config = GenerationConfig { max_length: 16, batch_size: 8 };
    let prompt = vec![11, 12, 13];
    let engine = Engine::start(&config, 16, &prompt).unwrap();
    let batch = engine.batch();
    assert_eq!(batch.n_tokens(), 3);
    for i in 0..3usize {
        let e = batch.entry(i);
        assert_eq!(e.token_id, prompt[i]);
        assert_eq!(e.pos, i as i32);
        assert_eq!(e.seq_id, 0);
        assert_eq!(e.logits, i == 2);
    }
}

#[test]
fn decode_batch_holds_the_one_new_token() {
    let config = GenerationConfig { max_length: 16, batch_size: 8 };
    let prompt = vec![11, 12, 13];
    let mut engine = Engine::start(&config, 16, &prompt).unwrap();
    let r = engine.step(99, false, &vec![b'z'], false);
    assert!(r.evaluate);
    let batch = engine.batch();
    assert_eq!(batch.n_tokens(), 1);
    let e = batch.entry(0);
    assert_eq!(e.token_id, 99);
    assert_eq!(e.pos, 3); // right after the 3 prompt positions
    assert_eq!(e.seq_id, 0);
    assert!(e.logits);
}

#[test]
fn stats_report_exact_throughput() {
    let config = GenerationConfig { max_length: 20, batch_size: 8 };
    let prompt = vec![1];
    let mut script: Vec<(i32, bool, Vec<u8>)> = (70..80).map(ascii_token).collect();
    script.push(eog_token());
    let mut engine = Engine::start(&config, 32, &prompt).unwrap();
    let mut next = 0usize;
    while engine.phase() == Phase::Decoding {
        let (token_id, is_eog, bytes) = &script[next];
        next += 1;
        engine.step(*token_id, *is_eog, bytes, false);
    }
    let stats = engine.stats(2_000_000); // 10 tokens in 2 s
    assert_eq!(stats.tokens_decoded, 10);
    assert_eq!(stats.elapsed_micros, 2_000_000);
    assert_eq!(stats.throughput_milli(), 5_000);
}
