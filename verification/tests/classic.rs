use srxformer::classic::cache::{InferenceWorkspace, KvCache, SCORED_SEQ_LEN};
use srxformer::classic::checkpoint::LoadError;
use srxformer::classic::compute::{inference_flops, replay_count, total_training_flops};
use srxformer::classic::config::{NormType, PosEncodingType, TransformerConfig};
use srxformer::classic::dataset::{shuffle, split_into_eos_sequences};
use srxformer::classic::generate::{first_reached, greedy_choice, GenerateAction, Generation};
use srxformer::classic::model::Transformer;
use srxformer::classic::normal::draw_normal_pair;
use srxformer::classic::rng::FastRng;
use srxformer::classic::schedule::{replay_mix, TrainAction, TrainSchedule, TrainStage};
use srxformer::classic::seeding::{Draw, Spread, DEFAULT_SEED};
use srxformer::classic::telemetry::{
    judge_case, pad, passed_count, TelemetryFigures, TelemetryReport, TestCaseResult,
};
use srxformer::classic::train::{AdamW, TrainWorkspace, TransformerGrad};
use srxformer::classic::weights_file::{encode_weights_file, parse_weights_file, WeightsError};

#[test]
fn test_rng_determinism() {
    let mut rng1 = FastRng::new(12345);
    let mut rng2 = FastRng::new(12345);
    for _ in 0..100 {
        assert_eq!(rng1.next_u64(), rng2.next_u64());
    }
}

#[test]
fn test_rng_range() {
    let mut rng = FastRng::new(42);
    for _ in 0..1000 {
        let unit = rng.next_mantissa() as f32 * (1.0 / 16777216.0);
        let val = -2.5 + unit * (3.5 - -2.5);
        assert!(val >= -2.5 && val < 3.5);
    }
}

#[test]
fn draws_of_the_generator() {
    let mut rng = FastRng::new(12345);
    assert_eq!(rng.next_u64(), 0x22118258a9d111a0);
    assert_eq!(rng.next_u64(), 0x346edce5f713f8ed);
    assert_eq!(rng.next_u64(), 0x1e9a57bc80e6721d);
    let mut rng = FastRng::new(42);
    assert_eq!(rng.next_mantissa(), 12441394);
    assert_eq!(rng.next_mantissa(), 2682851);
    assert_eq!(FastRng::new(0).next_u64(), 0xae54d7f999835fc4);
}

#[test]
fn pairs_behind_normal_numbers() {
    let mut rng = FastRng::new(42);
    assert_eq!(draw_normal_pair(&mut rng), (12441394, 2682851));
    assert_eq!(draw_normal_pair(&mut rng), (4674151, 5774561));
    let mut rng = FastRng::new(0x83c953d1d0ee9fb1);
    assert_eq!(draw_normal_pair(&mut rng), (6725975, 7940709));
}

#[test]
fn test_default_512_param_count() {
    let config = TransformerConfig::default_512();
    assert_eq!(config.validate(), Ok(()));
    let count = config.param_count();
    assert_eq!(count, 512, "Default 512 config must have exactly 512 parameters!");
}

#[test]
fn larger_presets() {
    let micro = TransformerConfig::micro();
    assert_eq!(micro.validate(), Ok(()));
    assert_eq!(micro.param_count(), 3536);
    assert_eq!((micro.vocab_size, micro.d_model, micro.d_ff), (32, 16, 6));
    let small = TransformerConfig::small();
    assert_eq!(small.validate(), Ok(()));
    assert_eq!(small.param_count(), 164416);
}

#[test]
fn test_lang_512_param_count() {
    let config = TransformerConfig::lang_512();
    assert_eq!(config.validate(), Ok(()));
    let count = config.param_count();
    assert_eq!(count, 512, "Lang 512 config must have exactly 512 parameters!");
}

#[test]
fn test_lang_v2_param_count() {
    let config = TransformerConfig::lang_v2();
    assert_eq!(config.validate(), Ok(()));
    let count = config.param_count();
    assert_eq!(count, 864, "Lang v2 config must have exactly 864 parameters!");
}

#[test]
fn test_lang_v2_parity_param_count() {
    let config = TransformerConfig::lang_v2_parity();
    assert_eq!(config.validate(), Ok(()));
    let count = config.param_count();
    assert_eq!(count, 896, "Classical parity config must have exactly 896 parameters!");
}

#[test]
fn test_lang_v3_param_count() {
    let config = TransformerConfig::lang_v3();
    assert_eq!(config.validate(), Ok(()));
    let count = config.param_count();
    assert_eq!(count, 896, "Lang v3 config must have exactly 896 parameters!");
}

#[test]
fn test_chinchilla_param_count() {
    let config = TransformerConfig::chinchilla();
    assert_eq!(config.validate(), Ok(()));
    let count = config.param_count();
    assert_eq!(count, 896, "Chinchilla config must have exactly 896 parameters!");
}

#[test]
fn test_lang_chinchilla_param_count() {
    let config = TransformerConfig::lang_chinchilla();
    assert_eq!(config.validate(), Ok(()));
    let count = config.param_count();
    assert_eq!(count, 896, "Lang Chinchilla config must have exactly 896 parameters!");
}

#[test]
fn test_validation() {
    let mut cfg = TransformerConfig::default();
    assert!(cfg.validate().is_ok());

    cfg.d_model = 9;
    assert!(cfg.validate().is_err());

    cfg.d_model = 8;
    cfg.vocab_size = 0;
    assert!(cfg.validate().is_err());
}

#[test]
fn every_fault_of_a_configuration() {
    let faulty = |change: fn(&mut TransformerConfig)| -> String {
        let mut config = TransformerConfig::default();
        change(&mut config);
        config.validate().unwrap_err()
    };
    let messages = [
        faulty(|c| c.vocab_size = 0),
        faulty(|c| c.d_model = 0),
        faulty(|c| c.n_heads = 0),
        faulty(|c| c.d_model = 9),
        faulty(|c| c.n_layers = 0),
        faulty(|c| c.d_ff = 0),
        faulty(|c| c.max_seq_len = 0),
    ];
    for i in 0..messages.len() {
        assert!(!messages[i].is_empty());
        for j in 0..i {
            assert_ne!(messages[i], messages[j]);
        }
    }
}

#[test]
fn parameters_beyond_machine_integers_are_not_counted() {
    let mut config = TransformerConfig::default();
    assert_eq!(config.checked_param_count(), Some(512));
    config.vocab_size = usize::MAX;
    assert_eq!(config.checked_param_count(), None);
}

#[test]
fn test_kv_cache_append_and_retrieve() {
    let config = TransformerConfig::default_512();
    let mut cache = KvCache::new(&config, 0.0f32);
    assert_eq!(cache.len(), 0);

    let k_tok = [1.0, 2.0, 3.0, 4.0, 5.0, 6.0, 7.0, 8.0];
    let v_tok = [8.0, 7.0, 6.0, 5.0, 4.0, 3.0, 2.0, 1.0];

    cache.append_layer(0, 0, &k_tok, &v_tok);
    cache.current_len = 1;

    let h0_k = cache.key_head(0, 0, 0);
    assert_eq!(h0_k, &[1.0, 2.0, 3.0, 4.0]);

    let h1_k = cache.key_head(0, 1, 0);
    assert_eq!(h1_k, &[5.0, 6.0, 7.0, 8.0]);

    let h0_v = cache.val_head(0, 0, 0);
    assert_eq!(h0_v, &[8.0, 7.0, 6.0, 5.0]);

    cache.reset();
    assert_eq!(cache.len(), 0);
}

#[test]
fn appending_leaves_other_positions() {
    let config = TransformerConfig::default_512();
    let mut cache = KvCache::new(&config, 0u32);
    assert!(cache.is_empty());
    cache.append_layer(0, 3, &[1; 8], &[2; 8]);
    cache.append_layer(0, 4, &[3; 8], &[4; 8]);
    assert_eq!(cache.key_head(0, 1, 3), &[1; 4]);
    assert_eq!(cache.val_head(0, 0, 4), &[4; 4]);
    assert_eq!(cache.key_head(0, 0, 2), &[0; 4]);
}

#[test]
fn sizes_of_the_inference_buffers() {
    let config = TransformerConfig::lang_512();
    let ws = InferenceWorkspace::new(&config, 0.0f32);
    assert_eq!(ws.logits.len(), config.max_seq_len * config.vocab_size);
    assert_eq!(ws.step_logits.len(), config.vocab_size);
    let side = config.max_seq_len.min(SCORED_SEQ_LEN);
    assert_eq!(ws.attn.attn_scores.len(), config.n_heads * side * side);
}

fn unit(mantissa: u32) -> f32 {
    mantissa as f32 * (1.0 / 16777216.0)
}

fn weight_of(draw: &Draw, config: &TransformerConfig) -> f32 {
    match *draw {
        Draw::Zero => 0.0,
        Draw::One => 1.0,
        Draw::Scale(dim) => 1.0 / (dim as f32).sqrt(),
        Draw::Sinusoid { .. } => 0.0,
        Draw::Normal { first, second, spread } => {
            let std = match spread {
                Spread::Model => 1.0 / (config.d_model as f32).sqrt(),
                Spread::Hidden => (2.0 / (config.d_model + config.d_ff) as f32).sqrt(),
            };
            let radius = (-2.0 * unit(first).ln()).sqrt();
            std * radius * (2.0 * std::f32::consts::PI * unit(second)).cos()
        }
    }
}

fn bits_model(config: TransformerConfig, seed: u64) -> Transformer<u32> {
    let drawn = Transformer::new_with_seed(config.clone(), seed).unwrap();
    let flat: Vec<u32> =
        drawn.extract_weights().iter().map(|draw| weight_of(draw, &config).to_bits()).collect();
    let table = vec![0u32; config.max_seq_len * config.d_model];
    Transformer::from_weights(config, &flat, 0, 0x3f800000, 0x3f000000, table).unwrap()
}

#[test]
fn test_weights_serialization_roundtrip() {
    let config = TransformerConfig::lang_512();
    let model1 = bits_model(config, 999);

    let raw = model1.save_weights();
    let (config2, weights) = parse_weights_file(&raw).ok().expect("Failed to load from file");
    let table = vec![0u32; config2.max_seq_len * config2.d_model];
    let model2 = Transformer::from_weights(config2, &weights, 0, 0x3f800000, 0x3f000000, table)
        .expect("Failed to load from file");

    assert!(model1.config == model2.config);
    let w1 = model1.extract_weights();
    let w2 = model2.extract_weights();
    assert_eq!(w1.len(), 512);
    assert_eq!(w2.len(), 512);
    for i in 0..512 {
        assert_eq!(w1[i], w2[i], "Weight mismatch at index {i}");
    }
}

#[test]
fn test_weights_load_into_existing() {
    let config = TransformerConfig::lang_512();
    let model1 = bits_model(config.clone(), 111);
    let raw = model1.save_weights();

    let mut model2 = bits_model(config, 222);
    assert_ne!(model1.extract_weights(), model2.extract_weights());

    assert!(model2.load_weights(&raw).is_ok(), "Failed to load weights");
    assert_eq!(model1.extract_weights(), model2.extract_weights());
}

#[test]
fn test_weights_config_mismatch_fails() {
    let model1 = bits_model(TransformerConfig::lang_512(), 123);
    let raw = model1.save_weights();

    let mut config2 = TransformerConfig::default_512();
    config2.vocab_size = 13;
    let mut model2 = bits_model(config2, 456);
    let before = model2.extract_weights();

    let result = model2.load_weights(&raw);
    assert!(result.is_err(), "Expected load_weights to fail on config mismatch");
    assert!(matches!(result, Err(LoadError::ConfigMismatch)));
    assert_eq!(model2.extract_weights(), before);
}

#[test]
fn every_fault_of_a_weights_file() {
    let model = bits_model(TransformerConfig::lang_512(), 7);
    let raw = model.save_weights();
    assert!(parse_weights_file(&raw).is_ok());
    assert!(matches!(parse_weights_file(&raw[..10]), Err(WeightsError::TooSmall)));
    let altered = |at: usize, byte: u8| -> Vec<u8> {
        let mut bytes = raw.clone();
        bytes[at] = byte;
        bytes
    };
    assert!(matches!(parse_weights_file(&altered(0, b'X')), Err(WeightsError::BadMagic)));
    assert!(matches!(
        parse_weights_file(&altered(4, 9)),
        Err(WeightsError::UnsupportedVersion { version: 9 })
    ));
    let longer = [raw.clone(), vec![0]].concat();
    assert!(matches!(
        parse_weights_file(&longer),
        Err(WeightsError::LengthMismatch { .. })
    ));
    let mut faults = 0;
    for at in 0..raw.len().min(128) {
        match parse_weights_file(&altered(at, 250)) {
            Err(WeightsError::UnknownNorm) => faults |= 1,
            Err(WeightsError::UnknownActivation) => faults |= 2,
            Err(WeightsError::UnknownPosEncoding) => faults |= 4,
            _ => {}
        }
    }
    assert_eq!(faults, 7);
}

#[test]
fn faults_have_messages() {
    let messages = [
        WeightsError::TooSmall.message(),
        WeightsError::BadMagic.message(),
        WeightsError::UnsupportedVersion { version: 3 }.message(),
        WeightsError::UnknownNorm.message(),
        WeightsError::UnknownActivation.message(),
        WeightsError::UnknownPosEncoding.message(),
        WeightsError::LengthMismatch { expected: 12, actual: 7 }.message(),
    ];
    assert!(messages[2].contains('3'));
    assert!(messages[6].contains("12") && messages[6].contains('7'));
    for i in 0..messages.len() {
        for j in 0..i {
            assert_ne!(messages[i], messages[j]);
        }
    }
}

#[test]
fn file_of_bare_weights() {
    let config = TransformerConfig::default_512();
    let weights: Vec<u32> = (0..512).collect();
    let raw = encode_weights_file(&config, &weights);
    assert_eq!(&raw[..4], b"SRXF");
    let (read, stored) = parse_weights_file(&raw).ok().unwrap();
    assert!(read == config);
    assert_eq!(stored, weights);
}

#[test]
fn flat_weights_of_another_size_are_refused() {
    let mut model = bits_model(TransformerConfig::lang_512(), 1);
    let before = model.extract_weights();
    assert!(model.load_weights_flat(&[0; 511]).is_err());
    assert!(model.load_weights_flat(&[0; 513]).is_err());
    assert_eq!(model.extract_weights(), before);
    assert!(model.load_weights_flat(&[5; 512]).is_ok());
    assert_eq!(model.extract_weights(), vec![5; 512]);
}

#[test]
fn seeding_follows_the_generator() {
    let config = TransformerConfig::lang_512();
    let model = Transformer::new_with_seed(config.clone(), 42).unwrap();
    assert_eq!(
        model.token_embeddings[0],
        Draw::Normal { first: 12441394, second: 2682851, spread: Spread::Model }
    );
    assert_eq!(model.token_embeddings.len(), 21 * 8);
    assert_eq!(model.layers.len(), 1);
    assert_eq!(model.layers[0].attn.w_q.len(), 64);
    assert!(model.final_norm_gamma.iter().all(|draw| *draw == Draw::One));
    assert_eq!(model.layers[0].attn.scale, Draw::Scale(4));
    let table = model.sinusoidal_table.as_ref().unwrap();
    assert_eq!(table[11], Draw::Sinusoid { pos: 1, component: 3 });
    let mut rng = FastRng::new(42);
    for _ in 0..168 {
        draw_normal_pair(&mut rng);
    }
    let (first, second) = draw_normal_pair(&mut rng);
    assert_eq!(
        model.layers[0].attn.w_q[0],
        Draw::Normal { first, second, spread: Spread::Model }
    );
    assert_eq!(model.param_count(), 512);
}

#[test]
fn a_model_without_a_seed_has_the_default_one() {
    let config = TransformerConfig::default_512();
    let model = Transformer::new(config.clone()).unwrap();
    assert_eq!(DEFAULT_SEED, 42);
    let seeded = Transformer::new_with_seed(config.clone(), 42).unwrap();
    assert_eq!(model.extract_weights(), seeded.extract_weights());
    let other = Transformer::new_with_seed(config.clone(), 43).unwrap();
    assert_ne!(model.extract_weights(), other.extract_weights());
    let mut faulty = config;
    faulty.vocab_size = 0;
    assert!(Transformer::new(faulty).is_err());
}

#[test]
fn a_loaded_model_has_its_frame() {
    let config = TransformerConfig::lang_512();
    let flat: Vec<u32> = (0..512).collect();
    let table: Vec<u32> = (0..(config.max_seq_len * config.d_model) as u32).collect();
    let model =
        Transformer::from_weights(config.clone(), &flat, 0, 1, 9, table.clone()).unwrap();
    assert_eq!(model.sinusoidal_table, Some(table));
    assert_eq!(model.layers.len(), config.n_layers);
    let layer = &model.layers[0];
    assert_eq!(layer.attn.scale, 9);
    assert_eq!((layer.attn.n_heads, layer.attn.head_dim), (config.n_heads, config.head_dim()));
    assert_eq!((layer.d_model, layer.mlp.d_model, layer.mlp.d_ff), (8, 8, config.d_ff));
    assert!(layer.norm_type == config.norm_type);
    assert_eq!(model.extract_weights(), flat);
}

#[test]
fn different_seeds_draw_differently() {
    let mut first: Vec<u64> = (1..2000).map(|seed| FastRng::new(seed).next_u64()).collect();
    first.sort();
    first.dedup();
    assert_eq!(first.len(), 1999);
    assert_eq!(FastRng::new(0).next_u64(), FastRng::new(0x853c49e6748fea9b).next_u64());
}

#[test]
fn seeding_a_model_with_everything() {
    let mut config = TransformerConfig::default_512();
    config.use_bias = true;
    config.norm_type = NormType::LayerNorm;
    config.pos_encoding = PosEncodingType::Learned;
    config.tie_word_embeddings = false;
    config.n_layers = 2;
    let model = Transformer::new_with_seed(config.clone(), 3).unwrap();
    assert!(model.sinusoidal_table.is_none());
    assert_eq!(model.pos_embeddings.as_ref().unwrap().len(), config.max_seq_len * config.d_model);
    assert_eq!(model.lm_head_bias.as_ref().unwrap(), &vec![Draw::Zero; config.vocab_size]);
    assert_eq!(model.extract_weights().len(), config.param_count());
    config.d_model = 9;
    assert!(Transformer::new_with_seed(config, 3).is_err());
}

#[test]
fn splitting_at_end_tokens() {
    assert_eq!(
        split_into_eos_sequences(&[5, 6, 1, 7, 1, 8, 9], 10),
        vec![vec![5, 6, 1], vec![7, 1], vec![8, 9]]
    );
    assert_eq!(split_into_eos_sequences(&[1, 1, 5, 1, 4], 10), vec![vec![5, 1]]);
    assert_eq!(
        split_into_eos_sequences(&[2, 3, 4, 5, 6], 2),
        vec![vec![2, 3], vec![4, 5]]
    );
    assert_eq!(split_into_eos_sequences(&[2, 3], 1), Vec::<Vec<usize>>::new());
    assert_eq!(split_into_eos_sequences(&[], 4), Vec::<Vec<usize>>::new());
}

#[test]
fn shuffles_of_the_stages() {
    let shuffled = |n: usize, seed: u64| -> Vec<usize> {
        let mut items: Vec<usize> = (0..n).collect();
        shuffle(&mut items, &mut FastRng::new(seed));
        items
    };
    assert_eq!(shuffled(8, TrainStage::Dataset.seed()), vec![6, 4, 7, 0, 2, 1, 5, 3]);
    assert_eq!(shuffled(8, TrainStage::Pretrain.seed()), vec![7, 6, 2, 1, 5, 4, 0, 3]);
    assert_eq!(shuffled(5, TrainStage::Instruct.seed()), vec![1, 0, 2, 3, 4]);
    assert_eq!(shuffled(0, 1), Vec::<usize>::new());
    assert_eq!(shuffled(1, 1), vec![0]);
}

#[test]
fn sequences_that_the_initial_loss_is_measured_on() {
    assert_eq!(TrainStage::Dataset.eval_count(100), 20);
    assert_eq!(TrainStage::Pretrain.eval_count(7), 7);
    assert_eq!(TrainStage::Instruct.eval_count(100), 10);
}

#[test]
fn a_training_run() {
    let tokens = [10, 1, 11, 1, 12, 1, 13, 1, 14, 1];
    let mut run = TrainSchedule::new(&tokens, 16, 2, 4242).unwrap();
    assert_eq!(run.total_steps(), 0);
    let mut orders: Vec<Vec<usize>> = Vec::new();
    loop {
        match run.advance() {
            TrainAction::BeginEpoch(epoch) => {
                assert_eq!(epoch, orders.len());
                orders.push(Vec::new());
            }
            TrainAction::Step(at) => {
                orders.last_mut().unwrap().push(run.sequences[at][0] - 10);
            }
            TrainAction::Done => break,
        }
    }
    assert_eq!(orders, vec![vec![4, 3, 1, 2, 0], vec![3, 4, 0, 1, 2]]);
    assert_eq!(run.total_steps(), 10);
    assert_eq!(run.advance(), TrainAction::Done);
    assert!(TrainSchedule::new(&[1, 1], 16, 2, 4242).is_none());
}

#[test]
fn mixing_base_sequences_in() {
    let dialogues = vec![vec![2, 3], vec![4, 5]];
    let pool = vec![vec![6], vec![7], vec![8]];
    assert_eq!(
        replay_mix(&dialogues, &pool, 2, 2),
        vec![vec![2, 3], vec![4, 5], vec![8], vec![6]]
    );
    assert_eq!(replay_mix(&dialogues, &pool, 0, 0), dialogues);
}

#[test]
fn compute_of_training_and_inference() {
    assert_eq!(total_training_flops(512, 980, 120), 361267200);
    assert_eq!(inference_flops(896), 1792);
    assert_eq!(replay_count(238), 79);
    for dialogues in 0..3000usize {
        let quarter = ((dialogues as f32 * 0.25) / 0.75).round() as usize;
        assert_eq!(replay_count(dialogues), quarter);
    }
}

fn bits(values: &[f32]) -> Vec<u32> {
    values.iter().map(|value| value.to_bits()).collect()
}

#[test]
fn greedy_choice_takes_the_last_of_the_greatest() {
    assert_eq!(greedy_choice(&bits(&[0.5, 2.0, -1.0, 2.0, 1.0])), 3);
    assert_eq!(greedy_choice(&bits(&[-0.5, -0.25, -3.0])), 1);
    assert_eq!(greedy_choice(&bits(&[0.0, -0.0])), 0);
    assert_eq!(greedy_choice(&bits(&[-0.0, 0.0, f32::NEG_INFINITY])), 1);
    assert_eq!(greedy_choice(&[]), 0);
}

#[test]
fn greedy_choice_agrees_with_the_total_order() {
    let mut rng = FastRng::new(9);
    for _ in 0..300 {
        let logits: Vec<f32> = (0..7).map(|_| f32::from_bits(rng.next_u64() as u32)).collect();
        let expected = logits
            .iter()
            .enumerate()
            .max_by(|(_, a), (_, b)| a.total_cmp(b))
            .map(|(at, _)| at)
            .unwrap();
        assert_eq!(greedy_choice(&bits(&logits)), expected);
    }
}

#[test]
fn a_draw_reaches_the_first_cumulated_probability() {
    let cumulated = bits(&[0.2, 0.5, 1.0]);
    assert_eq!(first_reached(&cumulated, 0.1f32.to_bits()), Some(0));
    assert_eq!(first_reached(&cumulated, 0.5f32.to_bits()), Some(1));
    assert_eq!(first_reached(&cumulated, 0.51f32.to_bits()), Some(2));
    assert_eq!(first_reached(&cumulated, 1.5f32.to_bits()), None);
    assert_eq!(first_reached(&cumulated, f32::NAN.to_bits()), None);
}

fn run_generation(run: &mut Generation, choices: &[usize]) -> Vec<(usize, usize)> {
    let mut fed = Vec::new();
    let mut next = 0;
    loop {
        match run.action() {
            GenerateAction::Feed { token, pos } => {
                fed.push((token, pos));
                run.note_fed();
            }
            GenerateAction::Choose => {
                run.accept(choices[next]);
                next += 1;
            }
            GenerateAction::Done => return fed,
        }
    }
}

#[test]
fn generation_up_to_its_limit() {
    let mut run = Generation::new(&[7, 8], 2, 16, None);
    let fed = run_generation(&mut run, &[3, 1, 5]);
    assert_eq!(run.output, vec![7, 8, 3, 1]);
    assert_eq!(fed, vec![(7, 0), (8, 1), (3, 2), (1, 3)]);
}

#[test]
fn generation_up_to_the_end_token() {
    let mut run = Generation::new(&[7, 8], 9, 16, Some(1));
    let fed = run_generation(&mut run, &[3, 1, 5]);
    assert_eq!(run.output, vec![7, 8, 3, 1]);
    assert_eq!(fed, vec![(7, 0), (8, 1), (3, 2)]);
}

#[test]
fn generation_up_to_the_last_position() {
    let mut run = Generation::new(&[7, 8], 9, 3, None);
    let fed = run_generation(&mut run, &[3, 4, 5]);
    assert_eq!(run.output, vec![7, 8, 3, 4]);
    assert_eq!(fed, vec![(7, 0), (8, 1), (3, 2)]);
}

#[test]
fn generation_of_nothing() {
    for (prompt, limit) in [(vec![], 5), (vec![4, 5], 0)] {
        let mut run = Generation::new(&prompt, limit, 1, Some(1));
        assert_eq!(run_generation(&mut run, &[]), vec![]);
        assert_eq!(run.output, prompt);
    }
}

#[test]
fn gradients_and_buffers() {
    let config = TransformerConfig::lang_512();
    let mut grad = TransformerGrad::new(&config, 0.0f32);
    assert_eq!(grad.param_count(), 512);
    grad.w_q[3] = 2.0;
    grad.token_embeddings[0] = 1.0;
    grad.zero(0.0);
    assert!(grad.w_q.iter().chain(grad.token_embeddings.iter()).all(|g| *g == 0.0));
    let ws = TrainWorkspace::new(&config, 0.0f32);
    assert_eq!(ws.logits.len(), config.max_seq_len * 21);
    assert_eq!(ws.attn_probs.len(), 2 * config.max_seq_len * config.max_seq_len);
    assert_eq!(ws.head_dim, 4);
    let mut optimizer = AdamW::new(&config, 0.0f32, 0.9, 0.999, 1e-8, 0.0);
    assert_eq!(optimizer.m.param_count(), 512);
    assert_eq!(optimizer.count_step(), 1);
    assert_eq!(optimizer.count_step(), 2);
}

fn sample_case(passed: bool) -> TestCaseResult {
    judge_case(
        "<user> 2 + 3 = <bot>".to_string(),
        if passed { "5 <eos>" } else { "4 <eos>" }.to_string(),
        "5 <eos>".to_string(),
        "Addition".to_string(),
    )
}

#[test]
fn cases_are_judged_by_their_text() {
    assert!(sample_case(true).passed);
    assert!(!sample_case(false).passed);
    let cases = vec![sample_case(true), sample_case(false), sample_case(true)];
    assert_eq!(passed_count(&cases, 0, 3), 2);
    assert_eq!(passed_count(&cases, 1, 2), 0);
}

#[test]
fn columns_are_filled_with_blanks() {
    assert_eq!(pad("кот", 5), "кот  ");
    assert_eq!(pad("кот", 2), "кот");
    assert_eq!(pad("Категория", 24), format!("{:<24}", "Категория"));
}

#[test]
fn text_of_a_report() {
    let number = |x: f64, places: usize| -> String { format!("{:.1$}", x, places) };
    let figures = TelemetryFigures {
        num_params: 512,
        dataset_tokens: 980,
        epochs: 120,
        total_training_flops: 361267200,
        total_steps: 17520,
        flops_per_token: 1024,
        bench_steps: 50000,
        mflops: number(361.2672, 2),
        gflops: number(0.3612672, 4),
        elapsed_ms: number(1500.0, 2),
        elapsed_s: number(1.5, 3),
        mflops_per_sec: number(240.8448, 2),
        gflops_per_sec: number(0.2408448, 4),
        initial_loss: number(3.0, 4),
        initial_perplexity: number(20.0, 2),
        final_loss: number(0.5, 4),
        final_perplexity: number(1.65, 2),
        step_latency_ns: number(900.0, 1),
        step_latency_us: number(0.9, 3),
        tokens_per_sec: number(1111111.0, 0),
        mtokens_per_sec: number(1.111111, 2),
        inference_gflops: number(1.1378, 4),
        exact_match_accuracy: number(50.0, 1),
    };
    let report =
        TelemetryReport { figures, test_cases: vec![sample_case(true), sample_case(false)] };
    let text = report.format_text();
    assert!(text.starts_with(&format!("{}\n SRXFORMER: CLASSICAL TRANSFORMER", "=".repeat(80))));
    assert!(text.contains(" Model Parameters:    512 (100% L1D Cache Resident, 32 KB per core)"));
    assert!(text.contains(
        "    * Вложили compute:          361267200 FLOPs (361.27 MFLOPs / 0.3613 GFLOPs)\n"
    ));
    assert!(text.contains("                                = 6 * 512 * 980 * 120\n"));
    assert!(text.contains("    * Всего шагов (Steps):      17520 gradient updates\n\n[2] COMPUTE"));
    assert!(text.contains("    * Время генерации токена:   900.0 ns (0.900 µs)\n"));
    assert!(text.contains("    * Точность (Exact Match):   50.0% (1/2 тестов пройдено)\n"));
    let row = format!(
        "    | {:<24} | {:<6} | {:<25} | {:<20} | {:<20} |\n",
        "Addition", "FAIL", "<user> 2 + 3 = <bot>", "4 <eos>", "5 <eos>"
    );
    assert!(text.contains(&row));
    assert!(text.ends_with(&format!(
        " SRXFORMER TELEMETRY VERIFICATION: ALL METRICS RECORDED SUCCESSFULLY!           \n{}\n",
        "=".repeat(80)
    )));
    assert_eq!(text.lines().count(), 35);
}
