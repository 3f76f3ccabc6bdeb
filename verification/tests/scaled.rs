use srxformer::scaled::args::{parse_isotime_args, parse_tier, tier_of_lowered, ParsedArgs};
use srxformer::scaled::bench::{
    classic_latency, eval_classic_skills, eval_srx_skills, lessons, line_at, load_corpus_lines,
    load_typo_pairs, run_memory_wall_challenge, SKILL_BYTES, SKILL_EXPECTED, SKILL_PROMPTS,
};
use srxformer::scaled::classic::{
    ByteAction, ByteGeneration, ScaledClassicAttention, ScaledClassicKvCache,
    ScaledClassicTransformer,
};
use srxformer::scaled::config::{ScaledConfig, ScalingCalculator, Tier};
use srxformer::scaled::generator::{
    best_token, penalty_targets, sample_among, top_tokens, FastRng, SamplingConfig,
};
use srxformer::scaled::nn::{
    layer_offsets, Module, ScaledAdamW, ScaledFFN, ScaledLinear, ScaledRMSNorm,
};
use srxformer::scaled::srx::{
    ScaledSequenceWorkspace, ScaledSrxAttention, ScaledSrxState, ScaledSrxTransformer,
    ScaledWorkspace,
};

#[test]
fn test_scaling_calculator_tiers() {
    let v = 256;
    let micro = ScalingCalculator::compute_config(Tier::Micro, v);
    assert_eq!(micro.n_heads, 2);
    assert_eq!(micro.d_model, 8);
    assert_eq!(micro.d_ff, 12);
    assert_eq!(micro.srx_state_bytes(), 160);

    let standard = ScalingCalculator::compute_config(Tier::Standard, v);
    assert_eq!(standard.n_heads, 4);
    assert_eq!(standard.d_model, 16);
    assert_eq!(standard.d_ff, 24);
    assert_eq!(standard.srx_state_bytes(), 320);

    let pro = ScalingCalculator::compute_config(Tier::Pro, v);
    assert_eq!(pro.n_heads, 8);
    assert_eq!(pro.d_model, 32);
    assert_eq!(pro.d_ff, 48);
    assert_eq!(pro.srx_state_bytes(), 640);

    let ultra = ScalingCalculator::compute_config(Tier::Ultra, v);
    assert_eq!(ultra.n_heads, 16);
    assert_eq!(ultra.d_model, 64);
    assert_eq!(ultra.d_ff, 96);
    assert_eq!(ultra.srx_state_bytes(), 1280);
}

#[test]
fn sizes_of_the_tiers() {
    let config = ScaledConfig::from_tier(Tier::Standard, 256);
    assert_eq!(config.param_count(), 256 * 32 + 1840);
    assert_eq!(ScaledConfig::from_tier(Tier::Micro, 256).param_count(), 4568);
    assert_eq!(ScaledConfig::from_tier(Tier::Pro, 256).param_count(), 256 * 64 + 7264);
    assert_eq!(ScaledConfig::from_tier(Tier::Ultra, 256).param_count(), 256 * 128 + 28864);
    assert_eq!(config.max_seq_len, 1024);
    assert_eq!(config.rms_eps, 1e-5f32.to_bits());
    assert_eq!(config.classic_kv_cache_bytes(1024), 2 * 1024 * 16 * 4);
    assert_eq!(ScalingCalculator::classic_kv_bytes(8, 65536), 4194304);
    assert_eq!(ScalingCalculator::srx_state_bytes(2), 160);
    let own = Tier::Custom { n_heads: 3, d_ff: 7 };
    assert_eq!((own.n_heads(), own.d_ff()), (3, 7));
    assert_eq!(ScaledConfig::from_tier(own, 5).d_model, 12);
}

#[test]
fn levels_of_the_cache() {
    let kb = 1024;
    assert_eq!(ScalingCalculator::cache_tier(0), "L1D Cache (<= 32 KB, Resident)");
    assert_eq!(ScalingCalculator::cache_tier(32 * kb), "L1D Cache (<= 32 KB, Resident)");
    assert_eq!(ScalingCalculator::cache_tier(32 * kb + 1), "L2 Cache (32 KB - 256 KB, Spill)");
    assert_eq!(ScalingCalculator::cache_tier(256 * kb), "L2 Cache (32 KB - 256 KB, Spill)");
    assert_eq!(
        ScalingCalculator::cache_tier(20 * kb * kb),
        "L3 Cache (256 KB - 20 MB, Shared Bus)"
    );
    assert_eq!(
        ScalingCalculator::cache_tier(20 * kb * kb + 1),
        "DRAM Memory Wall (> 20 MB, Memory Thrashing)"
    );
}

fn bits(values: &[f32]) -> Vec<u32> {
    values.iter().map(|value| value.to_bits()).collect()
}

#[test]
fn test_repetition_penalty() {
    let mut logits = vec![2.0f32, -1.0, 0.5];
    let recent = vec![0, 1];
    let penalty = 2.0f32;
    for target in penalty_targets(&recent, penalty.to_bits(), 10, logits.len()) {
        if logits[target] > 0.0 {
            logits[target] /= penalty;
        } else {
            logits[target] *= penalty;
        }
    }

    assert!((logits[0] - 1.0).abs() < 1e-5, "Positive logit should be divided by penalty");
    assert!((logits[1] - (-2.0)).abs() < 1e-5, "Negative logit should be multiplied by penalty");
    assert!((logits[2] - 0.5).abs() < 1e-5, "Unseen token logit should remain unchanged");
}

#[test]
fn targets_of_the_penalty() {
    let strong = 1.2f32.to_bits();
    assert_eq!(penalty_targets(&[4, 9, 2, 4, 1], strong, 3, 8), vec![2, 4, 1]);
    assert_eq!(penalty_targets(&[4, 9, 4], strong, 16, 8), vec![4, 4]);
    assert_eq!(penalty_targets(&[4, 2], strong, 0, 8), Vec::<usize>::new());
    assert_eq!(penalty_targets(&[4, 2], 1.0f32.to_bits(), 16, 8), Vec::<usize>::new());
    assert_eq!(penalty_targets(&[], strong, 16, 8), Vec::<usize>::new());
}

#[test]
fn test_greedy_sampling() {
    let logits = bits(&[0.1, 0.9, 0.2]);
    let config = SamplingConfig::greedy();
    assert!(config.is_greedy());
    assert_eq!(penalty_targets(&[], config.repetition_penalty, config.penalty_window, 3), vec![]);
    let tok = best_token(&logits);
    assert_eq!(tok, 1);
}

#[test]
fn test_top_k_sampling_within_bounds() {
    let logits = vec![10.0f32, 9.5, 0.1, -5.0];
    let mut rng = FastRng::new(12345);
    let temperature = 0.8f32;

    for _ in 0..50 {
        let scaled: Vec<f32> = logits.iter().map(|l| l * (1.0 / temperature)).collect();
        let chosen = top_tokens(&bits(&scaled), 2);
        let weights: Vec<f32> =
            chosen.iter().map(|at| (scaled[*at] - scaled[chosen[0]]).exp()).collect();
        let inv_sum = 1.0 / weights.iter().sum::<f32>().max(1e-12);
        let mut cumulative = 0.0f32;
        let mut cumulated = Vec::new();
        for weight in weights {
            cumulative += weight * inv_sum;
            cumulated.push(cumulative.to_bits());
        }
        let draw = rng.next_mantissa() as f32 / 16777216.0;
        let tok = sample_among(&chosen, &cumulated, draw.to_bits());
        assert!(tok == 0 || tok == 1, "Top-2 must only select token 0 or 1, got {}", tok);
    }
}

#[test]
fn best_tokens() {
    assert_eq!(best_token(&bits(&[1.0, 3.0, 3.0])), 1);
    assert_eq!(best_token(&bits(&[f32::NAN, -2.0, f32::NAN, -1.0])), 3);
    assert_eq!(best_token(&bits(&[f32::NEG_INFINITY, f32::NAN])), 0);
    assert_eq!(best_token(&bits(&[-0.0, 0.0])), 0);
    assert_eq!(best_token(&[]), 0);
    assert_eq!(top_tokens(&bits(&[0.5, 2.0, 1.0, 2.0]), 3), vec![1, 3, 2]);
    assert_eq!(top_tokens(&bits(&[0.5, 2.0]), 0), vec![1]);
    assert_eq!(top_tokens(&bits(&[0.5, 2.0]), 9), vec![1, 0]);
}

#[test]
fn draws_among_the_best() {
    let cumulated = bits(&[0.6, 0.9]);
    assert_eq!(sample_among(&[7, 4], &cumulated, 0.5f32.to_bits()), 7);
    assert_eq!(sample_among(&[7, 4], &cumulated, 0.7f32.to_bits()), 4);
    assert_eq!(sample_among(&[7, 4], &cumulated, 0.95f32.to_bits()), 7);
}

#[test]
fn sampling_configurations() {
    let balanced = SamplingConfig::balanced();
    assert_eq!(balanced.temperature, 0.7f32.to_bits());
    assert_eq!(balanced.repetition_penalty, 1.2f32.to_bits());
    assert_eq!((balanced.top_k, balanced.penalty_window), (5, 16));
    assert!(!balanced.is_greedy());
    let cold = SamplingConfig { temperature: 1e-4f32.to_bits(), ..balanced };
    assert!(cold.is_greedy());
    let single = SamplingConfig { top_k: 1, ..balanced };
    assert!(single.is_greedy());
}

#[test]
fn draws_of_the_sampling_generator() {
    let mut rng = FastRng::new(42);
    assert_eq!(rng.next_u64(), 0xa95514aaa);
    assert_eq!(rng.next_u64(), 0xa00aaafdf80202bf);
    assert_eq!(rng.next_u64(), 0x8b13399cd1d1497a);
    let mut first = FastRng::new(0);
    let mut second = FastRng::new(0x853c49e6748fea9b);
    assert_eq!(first.next_u64(), second.next_u64());
}

#[test]
fn layers_count_and_reset() {
    let mut norm = ScaledRMSNorm::new(5, 1e-5f32, 0.0, 1.0);
    assert_eq!((norm.in_dim(), norm.out_dim(), norm.param_count()), (5, 5, 5));
    norm.grad[2] = 3.0;
    norm.zero_grad(0.0);
    assert_eq!(norm.grad, vec![0.0; 5]);
    assert_eq!(norm.weight, vec![1.0; 5]);
    assert_eq!(norm.eps, 1e-5);
    let mut linear = ScaledLinear::new(3, 4, 0.0f32);
    linear.weight[1] = 2.0;
    linear.grad[0] = 1.0;
    linear.zero_grad(0.0);
    assert_eq!((linear.in_dim(), linear.out_dim(), linear.param_count()), (3, 4, 12));
    assert_eq!((linear.weight[1], linear.grad[0]), (2.0, 0.0));
    let mut block = ScaledFFN::new(3, 5, 0.0f32);
    block.w2.grad[1] = 1.0;
    block.zero_grad(0.0);
    assert_eq!((block.in_dim(), block.out_dim(), block.param_count()), (3, 3, 30));
    assert_eq!(block.w2.grad[1], 0.0);
}

#[test]
fn both_models_have_the_same_parameters() {
    let config = ScaledConfig::from_tier(Tier::Standard, 256);
    let classic = ScaledClassicTransformer::new(&config, 1e-5f32, 0.0, 1.0);
    let srx = ScaledSrxTransformer::new(&config, 1e-5f32, 0.0, 1.0);
    assert_eq!(classic.param_count(), srx.param_count());
    assert_eq!(classic.param_count(), config.param_count());
    assert_eq!(classic.param_count(), 2 * 256 * 16 + 4 * 16 * 16 + 2 * 16 * 24 + 3 * 16);
    let lens = classic.layer_lengths();
    assert_eq!(lens, srx.layer_lengths());
    assert_eq!(lens.len(), 11);
    assert_eq!(lens.iter().sum::<usize>(), classic.param_count());
    let offsets = layer_offsets(&lens);
    assert_eq!(offsets[0], 0);
    assert_eq!(offsets[10] + lens[10], classic.param_count());
    let optimizer = ScaledAdamW::new(classic.param_count(), 0.0f32, 0.002, 0.9, 0.999, 1e-8, 0.01);
    assert_eq!(optimizer.m.len(), classic.param_count());
}

#[test]
fn attention_blocks() {
    let mut classic = ScaledClassicAttention::new(2, 0.0f32);
    let mut srx = ScaledSrxAttention::new(2, 0.0f32);
    assert_eq!((classic.in_dim(), classic.out_dim(), classic.param_count()), (8, 8, 256));
    assert_eq!((srx.in_dim(), srx.out_dim(), srx.param_count()), (8, 8, 256));
    classic.w_v.grad[0] = 1.0;
    srx.w_o.grad[0] = 1.0;
    classic.zero_grad(0.0);
    srx.zero_grad(0.0);
    assert_eq!((classic.w_v.grad[0], srx.w_o.grad[0]), (0.0, 0.0));
}

#[test]
fn cache_of_the_transformer() {
    let mut cache = ScaledClassicKvCache::new(2, 3, 0u32);
    cache.append(&[1, 2], &[3, 4]);
    cache.append(&[5, 6], &[7, 8]);
    assert_eq!(cache.k, vec![1, 2, 5, 6, 0, 0]);
    assert_eq!(cache.v, vec![3, 4, 7, 8, 0, 0]);
    assert_eq!(cache.memory_bytes(), 32);
    cache.reset();
    assert_eq!((cache.len, cache.memory_bytes()), (0, 0));
}

#[test]
fn state_of_the_recurrent_model() {
    let mut state = ScaledSrxState::new(2, 0.0f32);
    assert_eq!((state.thetas.len(), state.m.len(), state.memory_bytes()), (8, 32, 160));
    state.m[5] = 1.0;
    state.thetas[0] = 1.0;
    state.reset(0.0);
    assert!(state.m.iter().chain(state.thetas.iter()).all(|x| *x == 0.0));
    let config = ScaledConfig::from_tier(Tier::Micro, 256);
    let ws = ScaledWorkspace::new(&config, 0.0f32);
    assert_eq!((ws.q.len(), ws.prev_m.len(), ws.hidden_act.len()), (8, 32, 12));
    let ws = ScaledSequenceWorkspace::new(&config, 10, 0.0f32);
    assert_eq!((ws.logits.len(), ws.m.len(), ws.d_thetas_acc.len()), (2560, 320, 8));
}

#[test]
fn generation_of_bytes() {
    let run = |prompt: &[u8], max: usize, choices: &[u8]| -> (Vec<u8>, Vec<u8>) {
        let mut run = ByteGeneration::new(prompt, max);
        let mut fed = Vec::new();
        let mut next = 0;
        loop {
            match run.action() {
                ByteAction::Feed(byte) => {
                    fed.push(byte);
                    run.note_fed();
                }
                ByteAction::Choose => {
                    run.accept(choices[next]);
                    next += 1;
                }
                ByteAction::Done => return (run.generated, fed),
            }
        }
    };
    assert_eq!(run(b"ab", 2, b"cde"), (b"cd".to_vec(), b"abcd".to_vec()));
    assert_eq!(run(b"ab", 9, b"c\nd"), (b"c".to_vec(), b"abc".to_vec()));
    assert_eq!(run(b"ab", 9, b"\0"), (vec![], b"ab".to_vec()));
    assert_eq!(run(b"", 1, b"x"), (b"x".to_vec(), b"x".to_vec()));
    assert_eq!(run(b"ab", 0, b""), (vec![], b"ab".to_vec()));
}

fn owned(list: &[&str]) -> Vec<String> {
    list.iter().map(|item| item.to_string()).collect()
}

#[test]
fn lines_of_a_corpus() {
    assert_eq!(
        load_corpus_lines(&owned(&["  кот ", "", " \t", "пес\r"])),
        owned(&["кот", "пес"])
    );
}

#[test]
fn pairs_with_slips() {
    let pairs = load_typo_pairs(&owned(&["наука\tнаукка", "без пары", " a \t b \t c ", "x\t"]));
    assert_eq!(
        pairs,
        vec![
            ("наука".to_string(), "наукка".to_string()),
            ("a".to_string(), "b".to_string())
        ]
    );
}

#[test]
fn skills_are_judged() {
    let answers = owned(&[
        "атика x", "xxкаx", "", "ия", "y", " продолжение", "  ", "", "= 4", "3", "",
    ]);
    let results = eval_srx_skills(&answers);
    let passed: Vec<bool> = results.iter().map(|result| result.passed).collect();
    assert_eq!(
        passed,
        vec![true, true, false, true, false, true, false, false, true, false, true]
    );
    assert_eq!(results[0].category, "Term Autocompletion");
    assert_eq!(results[5].category, "Phrase Continuation");
    assert_eq!(results[9].category, "Basic Arithmetic");
    assert_eq!(results[10].category, "Typo Invariance");
    assert_eq!(results[3].prompt, "теор");
    assert_eq!(results[10].expected, "robust continuation");
    assert_eq!(results[1].generated, "xxкаx");
    let others = eval_classic_skills(&answers);
    assert_eq!(others.len(), results.len());
    assert_eq!(SKILL_PROMPTS.len(), SKILL_EXPECTED.len());
    assert_eq!(SKILL_BYTES[8], 5);
}

#[test]
fn memory_at_all_lengths() {
    let points = run_memory_wall_challenge(&ScaledConfig::from_tier(Tier::Micro, 256));
    assert_eq!(points.len(), 7);
    assert_eq!(points[0].classic_kv_bytes, 2048);
    assert_eq!(points[2].classic_kv_bytes, 32768);
    assert_eq!(points[2].classic_cache_tier, "L1D Cache (<= 32 KB, Resident)");
    assert_eq!(points[6].classic_kv_bytes, 4194304);
    assert_eq!(points[6].classic_cache_tier, "L3 Cache (256 KB - 20 MB, Shared Bus)");
    assert_eq!(points[6].classic_latency, 323728);
    assert!(points.iter().all(|point| point.srx_state_bytes == 160));
    assert_eq!(classic_latency(33), 760);
}

#[test]
fn lessons_of_a_line() {
    assert_eq!(lessons(b"abc"), vec![(b'a', b'b'), (b'b', b'c')]);
    assert_eq!(lessons(b"a"), vec![]);
    assert_eq!(line_at(7, 3), 1);
}

#[test]
fn arguments_of_the_timed_benchmark() {
    let run = |list: &[&str]| parse_isotime_args(&owned(list));
    match run(&["bench"]) {
        ParsedArgs::Run(args) => {
            assert_eq!(args.tier, Tier::Standard);
            assert_eq!(args.duration, None);
            assert_eq!(args.train_path, "data/wiki_train.txt");
            assert_eq!(args.val_path, "data/wiki_val.txt");
            assert_eq!(args.typo_path, "data/wiki_typo_eval.txt");
        }
        _ => panic!("nothing to run"),
    }
    match run(&["bench", "-d", "10", "x", "--tier", "ULTRA", "--train-path", "t", "-c"]) {
        ParsedArgs::Run(args) => {
            assert_eq!(args.duration, Some("10".to_string()));
            assert_eq!(args.tier, Tier::Ultra);
            assert_eq!(args.train_path, "t");
            assert_eq!(args.checkpoint_interval, None);
            assert!(args.unknown_tiers.is_empty());
        }
        _ => panic!("nothing to run"),
    }
    match run(&["bench", "-t", "pro", "-t", "HUGE", "-c", "5", "--val-path", "v", "--typo-path", "p"]) {
        ParsedArgs::Run(args) => {
            assert_eq!(args.tier, Tier::Standard);
            assert_eq!(args.unknown_tiers, vec!["huge".to_string()]);
            assert_eq!(args.checkpoint_interval, Some("5".to_string()));
            assert_eq!((args.val_path, args.typo_path), ("v".to_string(), "p".to_string()));
        }
        _ => panic!("nothing to run"),
    }
    assert!(matches!(run(&["bench", "--help", "-d"]), ParsedArgs::Help));
    assert!(matches!(run(&["bench", "-d"]), ParsedArgs::MissingDuration));
    assert!(matches!(run(&["bench", "--tier"]), ParsedArgs::MissingTier));
}

#[test]
fn names_of_tiers() {
    assert_eq!(parse_tier("Micro"), Some(Tier::Micro));
    assert_eq!(parse_tier("STANDARD"), Some(Tier::Standard));
    assert_eq!(parse_tier("nano"), None);
    assert_eq!(tier_of_lowered(&"pro".to_string()), Some(Tier::Pro));
    assert_eq!(tier_of_lowered(&"PRO".to_string()), None);
}

#[test]
fn models_before_their_first_weights() {
    let config = ScaledConfig::from_tier(Tier::Micro, 5);
    let classic = ScaledClassicTransformer::new(&config, 7u32, 0, 1);
    let srx = ScaledSrxTransformer::new(&config, 7u32, 0, 1);
    for linear in [
        &classic.embed,
        &classic.lm_head,
        &classic.attn.w_q,
        &classic.attn.w_o,
        &classic.ffn.w1,
        &srx.embed,
        &srx.lm_head,
        &srx.attn.w_k,
        &srx.attn.w_v,
        &srx.ffn.w2,
    ] {
        let n = linear.in_features * linear.out_features;
        assert_eq!(linear.weight, vec![0; n]);
        assert_eq!(linear.grad, vec![0; n]);
    }
    assert_eq!((srx.embed.in_features, srx.embed.out_features), (5, 8));
    assert_eq!((classic.lm_head.in_features, classic.lm_head.out_features), (8, 5));
    for norm in [&classic.norm_attn, &classic.norm_ffn, &srx.norm_attn, &srx.norm_final] {
        assert_eq!(norm.weight, vec![1; 8]);
        assert_eq!(norm.grad, vec![0; 8]);
        assert_eq!(norm.eps, 7);
    }
}
