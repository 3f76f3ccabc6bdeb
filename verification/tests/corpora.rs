use srxformer::classic::tokenizer::Tokenizer;
use srxformer::corpus::base;
use srxformer::corpus::chinchilla;
use srxformer::corpus::integrity::{check_lines, vocab_listing, LineFault};
use srxformer::corpus::unified::{
    build_unified_corpus, build_unified_corpus_v2, generate_pretrain_sentences,
};

fn fingerprint(text: &str) -> u64 {
    let mut hash: u64 = 0xcbf29ce484222325;
    for byte in text.bytes() {
        hash = (hash ^ byte as u64).wrapping_mul(0x100000001b3);
    }
    hash
}

fn lines_of(text: &str) -> Vec<String> {
    text.lines().map(|line| line.to_string()).collect()
}

fn text_of(lines: &[String]) -> String {
    let mut text = lines.join("\n");
    text.push('\n');
    text
}

#[test]
fn base_sentences() {
    let pool = generate_pretrain_sentences();
    assert_eq!(pool.len(), 78);
    assert_eq!(pool[0], "0 + 0 = 0 <eos>");
    assert_eq!(pool[41], "5 - 5 = 0 <eos>");
    assert_eq!(pool[77], "5 это 5 = да <eos>");
    assert_eq!(fingerprint(&text_of(&pool)), 0x63fcb0de83894f71);
    let tok = Tokenizer::v1();
    let total: usize = pool.iter().map(|line| tok.encode(line).len()).sum();
    assert_eq!(total, 460);
}

#[test]
fn unified_corpus() {
    let tok = Tokenizer::new();
    let (text, lines, tokens) = build_unified_corpus(&tok);
    assert_eq!((lines, tokens), (146, 980));
    assert_eq!(fingerprint(&text), 0x269e07793f54b320);
    assert_eq!(check_lines(&lines_of(&text)), None);
    assert_eq!(tok.encode(&text).len(), 980);
}

#[test]
fn unified_corpus_v2() {
    let tok = Tokenizer::new();
    let (text, lines, tokens) = build_unified_corpus_v2(&tok).unwrap();
    assert_eq!((lines, tokens), (440, 2940));
    assert_eq!(fingerprint(&text), 0x428fc22bf4f21a27);
    assert_eq!(check_lines(&lines_of(&text)), None);
}

#[test]
fn unified_corpus_v2_needs_its_words() {
    assert!(build_unified_corpus_v2(&Tokenizer::v1()).is_none());
}

#[test]
fn base_instruct_corpus() {
    let tok = Tokenizer::new();
    let (text, tokens) = base::build_instruct_corpus(&tok);
    assert_eq!(tokens, 686);
    assert_eq!(fingerprint(&text), 0xe2296e5702bdd6ab);
    assert!((550..=700).contains(&tokens));
}

#[test]
fn base_pretrain_corpus() {
    let tok = Tokenizer::new();
    let (text, tokens) = base::build_pretrain_corpus(&tok, 10240).unwrap();
    assert_eq!(tokens, 10240);
    assert_eq!(text.lines().count(), 1736);
    assert_eq!(fingerprint(&text), 0xcf341698333f652d);
    assert_eq!(tok.encode(&text).len(), 10240);
}

#[test]
fn base_pretrain_corpus_may_not_exist() {
    let tok = Tokenizer::new();
    for target in 0..4 {
        assert!(base::build_pretrain_corpus(&tok, target).is_none());
    }
    assert!(base::build_pretrain_corpus(&tok, 4).is_some());
    assert!(base::build_pretrain_corpus(&tok, 21).is_none());
    assert!(base::build_pretrain_corpus(&tok, 22).is_none());
    assert!(base::build_pretrain_corpus(&tok, 23).is_some());
}

#[test]
fn chinchilla_pool() {
    let pool = chinchilla::generate_pretrain_pool();
    assert_eq!(pool.len(), 702);
    assert_eq!(fingerprint(&text_of(&pool)), 0x267e592aebc80188);
    assert_eq!(check_lines(&pool), None);
    let tok = Tokenizer::chinchilla();
    for line in &pool {
        assert_eq!(&tok.decode(&tok.encode(line)), line);
    }
}

#[test]
fn chinchilla_pretrain_corpus() {
    let tok = Tokenizer::chinchilla();
    let text = chinchilla::build_pretrain_corpus(&tok, 17920).unwrap();
    assert_eq!(tok.encode(&text).len(), 17920);
    assert_eq!(text.lines().count(), 2591);
    assert_eq!(fingerprint(&text), 0x445078753deb18ab);
}

#[test]
fn chinchilla_pretrain_corpus_of_every_length() {
    let tok = Tokenizer::chinchilla();
    for target in 0..70 {
        match chinchilla::build_pretrain_corpus(&tok, target) {
            Some(text) => assert_eq!(tok.encode(&text).len(), target),
            None => assert!(target == 1 || target == 2),
        }
    }
}

#[test]
fn chinchilla_remainders() {
    let tok = Tokenizer::chinchilla();
    assert_eq!(chinchilla::solve_remainder(0, &tok), Some(Vec::new()));
    assert_eq!(chinchilla::solve_remainder(1, &tok), None);
    assert_eq!(chinchilla::solve_remainder(2, &tok), None);
    assert_eq!(chinchilla::solve_remainder(3, &tok), Some(vec!["где волк <eos>".to_string()]));
    assert_eq!(
        chinchilla::solve_remainder(4, &tok),
        Some(vec!["логика это наука <eos>".to_string()])
    );
    let found = chinchilla::solve_remainder(29, &tok).unwrap();
    assert_eq!(found.len(), 9);
    assert_eq!(found[8], "0 это не 1 <eos>");
}

#[test]
fn chinchilla_instruct_corpus() {
    let tok = Tokenizer::chinchilla();
    let text = chinchilla::build_instruct_corpus(&tok).unwrap();
    assert_eq!(tok.encode(&text).len(), 1901);
    assert_eq!(text.lines().count(), 238);
    assert_eq!(fingerprint(&text), 0x9d4fa76fbacfef7);
    for line in text.lines() {
        assert!(line.starts_with("<user> "));
        assert!(line.contains(" <bot> "));
        assert!(line.ends_with(" <eos>"));
    }
}

#[test]
fn corpora_need_their_words() {
    let tok = Tokenizer::v1();
    assert!(chinchilla::build_instruct_corpus(&tok).is_none());
}

#[test]
fn faults_of_lines() {
    let lines = |list: &[&str]| -> Vec<String> { list.iter().map(|l| l.to_string()).collect() };
    assert_eq!(check_lines(&lines(&[])), None);
    assert_eq!(check_lines(&lines(&["кот <eos>", "пес <eos>"])), None);
    assert_eq!(check_lines(&lines(&["кот <eos>", "пес"])), Some(LineFault::Unterminated(1)));
    assert_eq!(
        check_lines(&lines(&["кот <eos>", "пес <eos>", "кот <eos>"])),
        Some(LineFault::Repeated(2))
    );
    assert_eq!(check_lines(&lines(&["eos>"])), Some(LineFault::Unterminated(0)));
}

#[test]
fn listing_of_a_vocabulary() {
    let listed = vocab_listing(&Tokenizer::chinchilla());
    assert!(listed.starts_with("0: <pad>\n1: <eos>\n2: <user>\n"));
    assert!(listed.ends_with("64: логика\n"));
    assert_eq!(listed.lines().count(), 65);
    assert_eq!(vocab_listing(&Tokenizer::from_vocab(&["да"])), "0: да\n");
}
