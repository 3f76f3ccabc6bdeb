use srxformer::classic::config::TransformerConfig;
use srxformer::classic::dataset::split_into_eos_sequences;
use srxformer::classic::compute::replay_count;
use srxformer::classic::telemetry::{first_asking_passed, judge_case, passed_count, TestCaseResult};
use srxformer::classic::tokenizer::Tokenizer;
use srxformer::corpus::chinchilla;
use srxformer::scaled::config::ScalingCalculator;
use srxformer::trials::budget::{
    classic_ops, epochs_for, nearest_quotient, spent_after, srx_ops, srx_step_ops, two_stage_plan,
    CORPUS_V3_BUDGET,
};
use srxformer::trials::checkpoints::{ComputeCheckpoints, EpochCheckpoints};
use srxformer::trials::documents::{measure_documents, split_pair};
use srxformer::trials::suite::{control_tasks, count_asked, domain_passed, Suite};
use srxformer::trials::wall::{cache_status, measured_rounds, CacheStatus};

fn check_suite(suite: Suite, tok: &Tokenizer, wanted: &[(&str, &str, &str)]) {
    let tasks = control_tasks(suite);
    assert_eq!(suite.len(), wanted.len());
    assert_eq!(tasks.len(), wanted.len());
    for (task, (prompt, expected, category)) in tasks.iter().zip(wanted) {
        assert_eq!(task.prompt, *prompt);
        assert_eq!(task.expected, *expected);
        assert_eq!(task.category, *category);
        let asks = tok.encode(&task.prompt);
        let answers = tok.encode(&task.expected);
        assert!(!asks.is_empty());
        assert!(!answers.is_empty());
        assert_eq!(tok.decode(&asks), task.prompt);
        assert_eq!(tok.decode(&answers), task.expected);
    }
}

#[test]
fn control_suite_base() {
    let wanted = [
        ("<user> 2 + 3 = <bot>", "5 <eos>", "Addition Arithmetic"),
        ("<user> 1 + 2 = <bot>", "3 <eos>", "Addition Arithmetic"),
        ("<user> 4 - 1 = <bot>", "3 <eos>", "Subtraction Arithmetic"),
        ("<user> кто кот <bot>", "кот это животное <eos>", "Entity Fact / Definition"),
        ("<user> кто пес <bot>", "пес это друг <eos>", "Entity Fact / Definition"),
        ("<user> кот это пес <bot>", "нет <eos>", "Boolean Logic Negation"),
        ("<user> кот это животное <bot>", "да <eos>", "Boolean Logic Affirmation"),
        ("2 + 3 =", "5 <eos>", "Base Addition Formulation"),
        ("4 - 1 =", "3 <eos>", "Base Subtraction Formulation"),
        ("кот это пес =", "нет <eos>", "Base Logic Formulation"),
    ];
    check_suite(Suite::Base, &Tokenizer::new(), &wanted);
}

#[test]
fn control_suite_corpus_v2() {
    let wanted = [
        ("<user> 2 + 3 = <bot>", "5 <eos>", "Addition Arithmetic (Basic)"),
        ("<user> 1 + 2 = <bot>", "3 <eos>", "Addition Arithmetic (Basic)"),
        ("<user> 3 + 4 = <bot>", "7 <eos>", "Addition Arithmetic (Extended)"),
        ("<user> 5 + 3 = <bot>", "8 <eos>", "Addition Arithmetic (Extended)"),
        ("<user> 4 + 5 = <bot>", "9 <eos>", "Addition Arithmetic (Extended)"),
        ("<user> 4 - 1 = <bot>", "3 <eos>", "Subtraction Arithmetic (Basic)"),
        ("<user> 5 - 2 = <bot>", "3 <eos>", "Subtraction Arithmetic (Basic)"),
        ("<user> 9 - 4 = <bot>", "5 <eos>", "Subtraction Arithmetic (Extended)"),
        ("<user> 8 - 3 = <bot>", "5 <eos>", "Subtraction Arithmetic (Extended)"),
        ("<user> 7 - 2 = <bot>", "5 <eos>", "Subtraction Arithmetic (Extended)"),
        ("<user> 2 * 3 = <bot>", "6 <eos>", "Multiplication Arithmetic"),
        ("<user> 2 * 2 = <bot>", "4 <eos>", "Multiplication Arithmetic"),
        ("<user> 3 * 3 = <bot>", "9 <eos>", "Multiplication Arithmetic"),
        ("<user> кто кот <bot>", "кот это животное <eos>", "Entity Fact / Definition"),
        ("<user> кто пес <bot>", "пес это друг <eos>", "Entity Fact / Definition"),
        ("<user> кто волк <bot>", "волк это зверь <eos>", "Entity Fact / Definition"),
        ("<user> кто лиса <bot>", "лиса это хищник <eos>", "Entity Fact / Definition"),
        ("<user> где волк <bot>", "лес <eos>", "Spatial Reasoning"),
        ("<user> где рыба <bot>", "река <eos>", "Spatial Reasoning"),
        ("<user> где кот <bot>", "дом <eos>", "Spatial Reasoning"),
        ("<user> где птица <bot>", "небо <eos>", "Spatial Reasoning"),
        ("<user> кот это пес <bot>", "нет <eos>", "Boolean Logic Negation"),
        ("<user> волк это пес <bot>", "нет <eos>", "Boolean Logic Negation"),
        ("<user> кот это животное <bot>", "да <eos>", "Boolean Logic Affirmation"),
        ("<user> волк это зверь <bot>", "да <eos>", "Boolean Logic Affirmation"),
        ("2 + 3 =", "5 <eos>", "Anti-Forgetting Base Addition"),
        ("4 - 1 =", "3 <eos>", "Anti-Forgetting Base Subtraction"),
        ("2 * 3 =", "6 <eos>", "Anti-Forgetting Base Multiplication"),
        ("волк это зверь =", "да <eos>", "Anti-Forgetting Base Logic"),
        ("где рыба =", "река <eos>", "Anti-Forgetting Base Spatial"),
    ];
    check_suite(Suite::CorpusV2, &Tokenizer::new(), &wanted);
}

#[test]
fn control_suite_corpus_v3() {
    let wanted = [
        ("<user> 2 + 3 = <bot>", "5 <eos>", "Addition Arithmetic (Basic)"),
        ("<user> 1 + 2 = <bot>", "3 <eos>", "Addition Arithmetic (Basic)"),
        ("<user> 0 + 1 = <bot>", "1 <eos>", "Addition Arithmetic (Basic)"),
        ("<user> 2 + 2 = <bot>", "4 <eos>", "Addition Arithmetic (Basic)"),
        ("<user> 3 + 1 = <bot>", "4 <eos>", "Addition Arithmetic (Basic)"),
        ("<user> 3 + 4 = <bot>", "7 <eos>", "Addition Arithmetic (Extended)"),
        ("<user> 5 + 3 = <bot>", "8 <eos>", "Addition Arithmetic (Extended)"),
        ("<user> 4 + 5 = <bot>", "9 <eos>", "Addition Arithmetic (Extended)"),
        ("2 + 3 =", "5 <eos>", "Addition Arithmetic (Base Prompt)"),
        ("3 + 4 =", "7 <eos>", "Addition Arithmetic (Base Prompt)"),
        ("<user> 4 - 1 = <bot>", "3 <eos>", "Subtraction Arithmetic (Basic)"),
        ("<user> 5 - 2 = <bot>", "3 <eos>", "Subtraction Arithmetic (Basic)"),
        ("<user> 3 - 1 = <bot>", "2 <eos>", "Subtraction Arithmetic (Basic)"),
        ("<user> 2 - 1 = <bot>", "1 <eos>", "Subtraction Arithmetic (Basic)"),
        ("<user> 5 - 5 = <bot>", "0 <eos>", "Subtraction Arithmetic (Basic)"),
        ("<user> 9 - 4 = <bot>", "5 <eos>", "Subtraction Arithmetic (Extended)"),
        ("<user> 8 - 3 = <bot>", "5 <eos>", "Subtraction Arithmetic (Extended)"),
        ("<user> 7 - 2 = <bot>", "5 <eos>", "Subtraction Arithmetic (Extended)"),
        ("4 - 1 =", "3 <eos>", "Subtraction Arithmetic (Base Prompt)"),
        ("8 - 3 =", "5 <eos>", "Subtraction Arithmetic (Base Prompt)"),
        ("<user> 2 * 3 = <bot>", "6 <eos>", "Multiplication Arithmetic (Basic)"),
        ("<user> 2 * 2 = <bot>", "4 <eos>", "Multiplication Arithmetic (Basic)"),
        ("<user> 3 * 3 = <bot>", "9 <eos>", "Multiplication Arithmetic (Basic)"),
        ("<user> 4 * 2 = <bot>", "8 <eos>", "Multiplication Arithmetic (Extended)"),
        ("<user> 6 / 2 = <bot>", "3 <eos>", "Division Arithmetic (Exact)"),
        ("<user> 8 / 4 = <bot>", "2 <eos>", "Division Arithmetic (Exact)"),
        ("<user> 9 / 3 = <bot>", "3 <eos>", "Division Arithmetic (Exact)"),
        ("<user> 4 / 2 = <bot>", "2 <eos>", "Division Arithmetic (Exact)"),
        ("2 * 3 =", "6 <eos>", "Multiplication Arithmetic (Base Prompt)"),
        ("6 / 2 =", "3 <eos>", "Division Arithmetic (Base Prompt)"),
        ("<user> кто кот <bot>", "кот это животное <eos>", "Entity Taxonomy (кот)"),
        ("<user> кто пес <bot>", "пес это друг <eos>", "Entity Taxonomy (пес)"),
        ("<user> кто волк <bot>", "волк это зверь <eos>", "Entity Taxonomy (волк)"),
        ("<user> кто лиса <bot>", "лиса это хищник <eos>", "Entity Taxonomy (лиса)"),
        ("<user> кто медведь <bot>", "медведь это зверь <eos>", "Entity Taxonomy (медведь)"),
        ("<user> кто щука <bot>", "щука это рыба <eos>", "Entity Taxonomy (щука)"),
        ("<user> кто змея <bot>", "змея это хищник <eos>", "Entity Taxonomy (змея)"),
        ("<user> кто дуб <bot>", "дуб это дерево <eos>", "Entity Taxonomy (дуб)"),
        ("кто кот =", "кот это животное <eos>", "Entity Taxonomy (Base Prompt)"),
        ("кто медведь =", "медведь это зверь <eos>", "Entity Taxonomy (Base Prompt)"),
        ("<user> где волк <bot>", "лес <eos>", "Spatial Reasoning (волк)"),
        ("<user> где рыба <bot>", "река <eos>", "Spatial Reasoning (рыба)"),
        ("<user> где кот <bot>", "дом <eos>", "Spatial Reasoning (кот)"),
        ("<user> где птица <bot>", "небо <eos>", "Spatial Reasoning (птица)"),
        ("<user> где медведь <bot>", "тайга <eos>", "Spatial Reasoning (медведь)"),
        ("<user> где щука <bot>", "вода <eos>", "Spatial Reasoning (щука)"),
        ("<user> где змея <bot>", "нора <eos>", "Spatial Reasoning (змея)"),
        ("<user> где заяц <bot>", "поле <eos>", "Spatial Reasoning (заяц)"),
        ("где рыба =", "река <eos>", "Spatial Reasoning (Base Prompt)"),
        ("где медведь =", "тайга <eos>", "Spatial Reasoning (Base Prompt)"),
        ("<user> кот это пес <bot>", "нет <eos>", "Boolean Logic (Negation)"),
        ("<user> кот это животное <bot>", "да <eos>", "Boolean Logic (Affirmation)"),
        ("<user> медведь это рыба <bot>", "нет <eos>", "Boolean Logic (Negation)"),
        ("<user> щука это рыба <bot>", "да <eos>", "Boolean Logic (Affirmation)"),
        ("<user> волк ест заяц <bot>", "да <eos>", "Transitivity / Food Chain (Affirmation)"),
        ("<user> заяц ест волк <bot>", "нет <eos>", "Transitivity / Food Chain (Negation)"),
        ("<user> щука ест рыба <bot>", "да <eos>", "Transitivity / Food Chain (Affirmation)"),
        ("<user> рыба ест щука <bot>", "нет <eos>", "Transitivity / Food Chain (Negation)"),
        ("волк это зверь =", "да <eos>", "Boolean Logic (Base Prompt)"),
        ("медведь ест рыба =", "да <eos>", "Transitivity / Food Chain (Base Prompt)"),
    ];
    check_suite(Suite::CorpusV3, &Tokenizer::v3(), &wanted);
}

#[test]
fn control_suite_chinchilla() {
    let wanted = [
        ("<user> 2 + 3 = <bot>", "5 <eos>", "Addition Arithmetic (Basic)"),
        ("<user> 1 + 2 = <bot>", "3 <eos>", "Addition Arithmetic (Basic)"),
        ("<user> 0 + 1 = <bot>", "1 <eos>", "Addition Arithmetic (Basic)"),
        ("<user> 2 + 2 = <bot>", "4 <eos>", "Addition Arithmetic (Basic)"),
        ("<user> 3 + 1 = <bot>", "4 <eos>", "Addition Arithmetic (Basic)"),
        ("<user> 3 + 4 = <bot>", "7 <eos>", "Addition Arithmetic (Extended)"),
        ("<user> 5 + 3 = <bot>", "8 <eos>", "Addition Arithmetic (Extended)"),
        ("<user> 4 + 5 = <bot>", "9 <eos>", "Addition Arithmetic (Extended)"),
        ("2 + 3 =", "5 <eos>", "Addition Arithmetic (Base Prompt)"),
        ("3 + 4 =", "7 <eos>", "Addition Arithmetic (Base Prompt)"),
        ("<user> 5 - 2 = <bot>", "3 <eos>", "Subtraction (Pair A: 5 - 2)"),
        ("<user> 5 - 3 = <bot>", "2 <eos>", "Subtraction (Pair A: 5 - 3)"),
        ("<user> 4 - 1 = <bot>", "3 <eos>", "Subtraction (Pair B: 4 - 1)"),
        ("<user> 4 - 3 = <bot>", "1 <eos>", "Subtraction (Pair B: 4 - 3)"),
        ("<user> 9 - 4 = <bot>", "5 <eos>", "Subtraction (Pair C: 9 - 4)"),
        ("<user> 9 - 5 = <bot>", "4 <eos>", "Subtraction (Pair C: 9 - 5)"),
        ("<user> 3 - 1 = <bot>", "2 <eos>", "Subtraction (Pair D: 3 - 1)"),
        ("<user> 3 - 2 = <bot>", "1 <eos>", "Subtraction (Pair D: 3 - 2)"),
        ("4 - 1 =", "3 <eos>", "Subtraction (Base Prompt: 4 - 1)"),
        ("5 - 2 =", "3 <eos>", "Subtraction (Base Prompt: 5 - 2)"),
        ("<user> 2 * 3 = <bot>", "6 <eos>", "Multiplication Arithmetic (Basic)"),
        ("<user> 2 * 2 = <bot>", "4 <eos>", "Multiplication Arithmetic (Basic)"),
        ("<user> 3 * 3 = <bot>", "9 <eos>", "Multiplication Arithmetic (Basic)"),
        ("<user> 4 * 2 = <bot>", "8 <eos>", "Multiplication Arithmetic (Extended)"),
        ("<user> 6 / 2 = <bot>", "3 <eos>", "Division Arithmetic (Exact)"),
        ("<user> 8 / 4 = <bot>", "2 <eos>", "Division Arithmetic (Exact)"),
        ("<user> 9 / 3 = <bot>", "3 <eos>", "Division Arithmetic (Exact)"),
        ("<user> 4 / 2 = <bot>", "2 <eos>", "Division Arithmetic (Exact)"),
        ("2 * 3 =", "6 <eos>", "Multiplication Arithmetic (Base Prompt)"),
        ("6 / 2 =", "3 <eos>", "Division Arithmetic (Base Prompt)"),
        ("<user> кто кот <bot>", "кот это животное <eos>", "Entity Taxonomy (кот)"),
        ("<user> кто пес <bot>", "пес это друг <eos>", "Entity Taxonomy (пес)"),
        ("<user> кто волк <bot>", "волк это зверь <eos>", "Entity Taxonomy (волк)"),
        ("<user> кто лиса <bot>", "лиса это хищник <eos>", "Entity Taxonomy (лиса)"),
        ("<user> кто медведь <bot>", "медведь это зверь <eos>", "Entity Taxonomy (медведь)"),
        ("<user> кто щука <bot>", "щука это рыба <eos>", "Entity Taxonomy (щука)"),
        ("<user> кто змея <bot>", "змея это хищник <eos>", "Entity Taxonomy (змея)"),
        ("<user> кто дуб <bot>", "дуб это дерево <eos>", "Entity Taxonomy (дуб)"),
        ("кто кот =", "кот это животное <eos>", "Entity Taxonomy (Base Prompt)"),
        ("кто медведь =", "медведь это зверь <eos>", "Entity Taxonomy (Base Prompt)"),
        ("<user> где волк <bot>", "лес <eos>", "Spatial Reasoning (волк)"),
        ("<user> где рыба <bot>", "река <eos>", "Spatial Reasoning (рыба)"),
        ("<user> где кот <bot>", "дом <eos>", "Spatial Reasoning (кот)"),
        ("<user> где птица <bot>", "небо <eos>", "Spatial Reasoning (птица)"),
        ("<user> где медведь <bot>", "тайга <eos>", "Spatial Reasoning (медведь)"),
        ("<user> где щука <bot>", "вода <eos>", "Spatial Reasoning (щука)"),
        ("<user> где змея <bot>", "нора <eos>", "Spatial Reasoning (змея)"),
        ("<user> где заяц <bot>", "поле <eos>", "Spatial Reasoning (заяц)"),
        ("где рыба =", "река <eos>", "Spatial Reasoning (Base Prompt)"),
        ("где медведь =", "тайга <eos>", "Spatial Reasoning (Base Prompt)"),
        ("<user> кот это пес <bot>", "нет <eos>", "Boolean Logic (Negation)"),
        ("<user> кот это животное <bot>", "да <eos>", "Boolean Logic (Affirmation)"),
        ("<user> медведь это рыба <bot>", "нет <eos>", "Boolean Logic (Negation)"),
        ("<user> щука это рыба <bot>", "да <eos>", "Boolean Logic (Affirmation)"),
        ("<user> если волк ест заяц то волк хищник <bot>", "да <eos>", "Boolean Logic (Implication)"),
        ("<user> если заяц ест волк <bot>", "нет <eos>", "Boolean Logic (Negative Implication)"),
        ("<user> волк ест заяц <bot>", "да <eos>", "Food Chain Predicate (Affirmation)"),
        ("<user> заяц ест волк <bot>", "нет <eos>", "Food Chain Predicate (Negation)"),
        ("<user> волк ест заяц заяц ест трава <bot>", "да <eos>", "Transitivity Chain (Food Chain)"),
        ("<user> щука ест рыба рыба ест трава <bot>", "да <eos>", "Transitivity Chain (Food Chain)"),
    ];
    check_suite(Suite::Chinchilla, &Tokenizer::chinchilla(), &wanted);
}

#[test]
fn questions_end_at_their_marker() {
    let tok = Tokenizer::chinchilla();
    assert_eq!(count_asked(&tok.encode("<user> 2 + 3 = <bot> 5 <eos>")), 6);
    assert_eq!(count_asked(&tok.encode("2 + 3 = 5 <eos>")), 4);
    assert_eq!(count_asked(&tok.encode("кот это пес")), 3);
}

fn cases_passing(passing: &[usize]) -> Vec<TestCaseResult> {
    control_tasks(Suite::Chinchilla)
        .into_iter()
        .enumerate()
        .map(|(i, task)| {
            let answer =
                if passing.contains(&i) { task.expected.clone() } else { "нет".to_string() };
            judge_case(task.prompt, answer, task.expected, task.category.to_string())
        })
        .collect()
}

#[test]
fn domains_share_out_a_suite() {
    let cases = cases_passing(&[0, 9, 10, 35, 59]);
    let by_domain: Vec<usize> = (0..6).map(|d| domain_passed(&cases, d)).collect();
    assert_eq!(by_domain, vec![2, 1, 0, 1, 0, 1]);
    assert_eq!(by_domain.iter().sum::<usize>(), passed_count(&cases, 0, 60));
    assert_eq!(Suite::Chinchilla.domain(4), Some("Spatial Reasoning (где)"));
    assert_eq!(Suite::CorpusV3.domain(0), Some("Addition Arithmetic"));
    assert_eq!(Suite::CorpusV3.domain(6), None);
    assert_eq!(Suite::Base.domain(0), None);
}

#[test]
fn first_case_that_asks() {
    let mut cases = cases_passing(&[30]);
    assert!(first_asking_passed(&cases, "кто кот"));
    assert!(!first_asking_passed(&cases, "кто пес"));
    assert!(!first_asking_passed(&cases, "кто слон"));
    // A later case that asks the same does not count.
    cases[30].passed = false;
    cases[38].passed = true;
    assert!(!first_asking_passed(&cases, "кто кот"));
}

#[test]
fn nearest_quotients() {
    assert_eq!(nearest_quotient(7, 2), 4);
    assert_eq!(nearest_quotient(5, 3), 2);
    assert_eq!(nearest_quotient(4, 3), 1);
    assert_eq!(nearest_quotient(0, 9), 0);
    assert_eq!(nearest_quotient(u64::MAX, 1), u64::MAX);
    assert_eq!(nearest_quotient(u64::MAX, 2), 1 << 63);
}

#[test]
fn epochs_of_the_third_corpus() {
    let params = TransformerConfig::lang_v3().param_count();
    assert_eq!(params, 896);
    assert_eq!(classic_ops(params), 5376);
    assert_eq!(srx_ops(params), 6240);
    assert_eq!(srx_step_ops(params), 2080);
    assert_eq!(epochs_for(CORPUS_V3_BUDGET, classic_ops(params), 5880), 688);
    assert_eq!(epochs_for(CORPUS_V3_BUDGET, srx_ops(params), 5880), 593);
}

#[test]
fn plan_of_the_chinchilla_corpora() {
    let tok = Tokenizer::chinchilla();
    let config = TransformerConfig::lang_chinchilla();
    let text = chinchilla::build_instruct_corpus(&tok).unwrap();
    let tokens = tok.encode(&text);
    let dialogues = split_into_eos_sequences(&tokens, config.max_seq_len).len();
    let plan = two_stage_plan(
        config.param_count(),
        17920,
        tokens.len(),
        replay_count(dialogues),
    );
    assert_eq!(plan.instruct_tokens, 2533);
    assert_eq!(plan.classic_pretrain, 1_926_758_400);
    assert_eq!(plan.classic_instruct, 680_870_400);
    assert_eq!(plan.total, 2_607_628_800);
    assert_eq!(plan.srx_pretrain_epochs, 17);
    assert_eq!(plan.srx_pretrain, 1_900_953_600);
    assert_eq!(plan.srx_instruct_epochs, 45);
    assert_eq!(plan.srx_total, 2_612_220_000);
    assert!(2 * (plan.srx_total - plan.total) <= 2533 * 6240);
}

#[test]
fn reports_by_epochs() {
    let mut track = EpochCheckpoints::new(688);
    let mut made = Vec::new();
    for epoch in 1..=688 {
        if let Some(percent) = track.note(epoch) {
            made.push((percent, epoch));
        }
    }
    assert_eq!(made, vec![(20, 138), (40, 275), (60, 413), (80, 550), (100, 688)]);
    let mut short = EpochCheckpoints::new(1);
    assert_eq!(short.note(1), None);
    assert_eq!(short.made, 0);
}

#[test]
fn reports_by_operations() {
    let mut track = ComputeCheckpoints::new(1000);
    assert_eq!(track.note(199, false), None);
    assert_eq!(track.note(200, false), Some(20));
    assert_eq!(track.note(700, false), Some(40));
    assert_eq!(track.note(700, false), Some(60));
    assert_eq!(track.note(700, false), None);
    assert_eq!(track.note(700, true), Some(80));
    assert_eq!(track.note(1000, false), Some(100));
    assert_eq!(track.note(2000, true), None);
    assert_eq!(track.made, 5);
}

#[test]
fn caches_of_long_contexts() {
    let status = |n: usize| cache_status(ScalingCalculator::classic_kv_bytes(8, n));
    assert_eq!(status(32), CacheStatus::WithinFirst);
    assert_eq!(status(512), CacheStatus::FillsFirst);
    assert_eq!(status(1024), CacheStatus::WithinSecond);
    assert_eq!(status(4096), CacheStatus::WithinSecond);
    assert_eq!(status(16384), CacheStatus::WithinThird);
    assert_eq!(status(65536), CacheStatus::WithinThird);
    assert_eq!(cache_status(20 * 1024 * 1024 + 1), CacheStatus::Beyond);
    assert_eq!(measured_rounds(1024), 2000);
    assert_eq!(measured_rounds(1025), 500);
    assert_eq!(measured_rounds(16384), 100);
    assert_eq!(measured_rounds(65536), 30);
}

#[test]
fn documents_are_measured() {
    let long = vec!["слово"; 501].join(" ");
    let bound = vec!["a"; 500].join("\u{a0}");
    let lines = vec![long, "три  коротких слова".to_string(), bound, String::new()];
    let size = measure_documents(&lines);
    assert_eq!(size.words, 1004);
    assert_eq!(size.long_documents, 1);
}

#[test]
fn pairs_are_split_as_they_stand() {
    assert_eq!(split_pair("a \t b\tc"), Some(("a ".to_string(), " b".to_string())));
    assert_eq!(split_pair("\t"), Some((String::new(), String::new())));
    assert_eq!(split_pair("a b"), None);
    assert_eq!(split_pair(""), None);
}

#[test]
fn operations_add_up() {
    let sequences = vec![vec![1, 2, 3], vec![], vec![4]];
    assert_eq!(spent_after(100, &sequences, 6), Some(124));
    assert_eq!(spent_after(7, &vec![], 6), Some(7));
    assert_eq!(spent_after(u64::MAX - 24, &sequences, 6), Some(u64::MAX));
    assert_eq!(spent_after(u64::MAX - 23, &sequences, 6), None);
    assert_eq!(spent_after(0, &sequences, u64::MAX), None);
    assert_eq!(spent_after(u64::MAX, &sequences, 0), Some(u64::MAX));
}
