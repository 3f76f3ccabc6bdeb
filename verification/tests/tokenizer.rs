use srxformer::classic::tokenizer::{
    Tokenizer, BOT_TOKEN_ID, EOS_TOKEN_ID, PAD_TOKEN_ID, USER_TOKEN_ID, VOCAB, VOCAB_CHINCHILLA,
    VOCAB_V2, VOCAB_V3, VOCAB_V4,
};

#[test]
fn test_vocab_size() {
    let tok = Tokenizer::new();
    assert_eq!(tok.vocab_size(), 53);
    let tok_chin = Tokenizer::chinchilla();
    assert_eq!(tok_chin.vocab_size(), 65);
    let tok_v2 = Tokenizer::v2();
    assert_eq!(tok_v2.vocab_size(), 41);
    let tok_v1 = Tokenizer::v1();
    assert_eq!(tok_v1.vocab_size(), 21);
}

#[test]
fn test_special_tokens() {
    let tok = Tokenizer::new();
    assert_eq!(tok.token_to_id("<pad>"), Some(PAD_TOKEN_ID));
    assert_eq!(tok.token_to_id("<eos>"), Some(EOS_TOKEN_ID));
    assert_eq!(tok.token_to_id("<user>"), Some(USER_TOKEN_ID));
    assert_eq!(tok.token_to_id("<bot>"), Some(BOT_TOKEN_ID));
}

#[test]
fn test_roundtrip_dialog() {
    let tok = Tokenizer::new();
    let original = "<user> 2 + 3 = <bot> 5 <eos>";
    let encoded = tok.encode(original);
    assert_eq!(encoded, vec![2, 6, 10, 7, 12, 3, 9, 1]);
    let decoded = tok.decode(&encoded);
    assert_eq!(decoded, original);
}

#[test]
fn test_roundtrip_russian_facts() {
    let tok = Tokenizer::new();
    let original = "кот это животное <eos>";
    let encoded = tok.encode(original);
    assert_eq!(encoded, vec![13, 17, 15, 1]);
    let decoded = tok.decode(&encoded);
    assert_eq!(decoded, original);
}

#[test]
fn test_roundtrip_subtraction() {
    let tok = Tokenizer::new();
    let original = "<user> 4 - 1 = <bot> 3 <eos>";
    let encoded = tok.encode(original);
    assert_eq!(encoded, vec![2, 8, 11, 5, 12, 3, 7, 1]);
    let decoded = tok.decode(&encoded);
    assert_eq!(decoded, original);
}

#[test]
fn test_roundtrip_v2_arithmetic_multiplication() {
    let tok = Tokenizer::new();
    let original = "<user> 2 * 3 = <bot> 6 <eos>";
    let encoded = tok.encode(original);
    assert_eq!(encoded, vec![2, 6, 25, 7, 12, 3, 21, 1]);
    let decoded = tok.decode(&encoded);
    assert_eq!(decoded, original);
}

#[test]
fn test_roundtrip_v2_spatial_and_taxonomy() {
    let tok = Tokenizer::new();
    let original = "<user> где волк <bot> лес <eos>";
    let encoded = tok.encode(original);
    assert_eq!(encoded, vec![2, 35, 26, 3, 39, 1]);
    let decoded = tok.decode(&encoded);
    assert_eq!(decoded, original);

    let fact = "лиса это хищник <eos>";
    let enc_fact = tok.encode(fact);
    assert_eq!(enc_fact, vec![27, 17, 32, 1]);
    assert_eq!(tok.decode(&enc_fact), fact);
}

#[test]
fn test_roundtrip_v3_division_and_predicates() {
    let tok = Tokenizer::new();
    let original = "<user> 6 / 2 = <bot> 3 <eos>";
    let encoded = tok.encode(original);
    assert_eq!(encoded, vec![2, 21, 41, 6, 12, 3, 7, 1]);
    let decoded = tok.decode(&encoded);
    assert_eq!(decoded, original);

    let fact = "волк ест заяц <eos>";
    let enc_fact = tok.encode(fact);
    assert_eq!(enc_fact, vec![26, 52, 28, 1]);
    assert_eq!(tok.decode(&enc_fact), fact);

    let where_pike = "<user> где щука <bot> вода <eos>";
    let enc_pike = tok.encode(where_pike);
    assert_eq!(enc_pike, vec![2, 35, 44, 3, 51, 1]);
    assert_eq!(tok.decode(&enc_pike), where_pike);
}

#[test]
fn test_roundtrip_chinchilla_reasoning() {
    let tok = Tokenizer::chinchilla();
    assert_eq!(tok.vocab_size(), 65);

    assert_eq!(tok.token_to_id("не"), Some(53));
    assert_eq!(tok.token_to_id("как"), Some(54));
    assert_eq!(tok.token_to_id("почему"), Some(55));
    assert_eq!(tok.token_to_id("если"), Some(56));
    assert_eq!(tok.token_to_id("то"), Some(57));
    assert_eq!(tok.token_to_id("или"), Some(58));
    assert_eq!(tok.token_to_id("наука"), Some(59));
    assert_eq!(tok.token_to_id("число"), Some(60));
    assert_eq!(tok.token_to_id("модель"), Some(61));
    assert_eq!(tok.token_to_id("разум"), Some(62));
    assert_eq!(tok.token_to_id("знание"), Some(63));
    assert_eq!(tok.token_to_id("логика"), Some(64));

    let sent = "логика это наука <eos>";
    let enc = tok.encode(sent);
    assert_eq!(enc, vec![64, 17, 59, 1]);
    assert_eq!(tok.decode(&enc), sent);

    let sent2 = "наука это знание <eos>";
    let enc2 = tok.encode(sent2);
    assert_eq!(enc2, vec![59, 17, 63, 1]);
    assert_eq!(tok.decode(&enc2), sent2);

    let if_then = "если волк ест заяц то волк хищник <eos>";
    let enc_if = tok.encode(if_then);
    assert_eq!(tok.decode(&enc_if), if_then);

    let dial = "<user> почему человек не зверь <bot> человек это разум <eos>";
    let enc_dial = tok.encode(dial);
    assert_eq!(tok.decode(&enc_dial), dial);

    let unnorm = "Логика это Наука <eos>";
    let enc_unnorm = tok.encode(unnorm);
    assert_eq!(enc_unnorm, vec![64, 17, 59, 1]);
}

#[test]
fn yo_is_read_as_ye() {
    let tok = Tokenizer::chinchilla();
    assert_eq!(tok.encode("пёс это друг"), tok.encode("пес это друг"));
    assert_eq!(tok.encode("ПЁС"), vec![14]);
}

#[test]
fn unknown_words_are_dropped() {
    let tok = Tokenizer::new();
    assert_eq!(tok.encode("кот слон пес"), vec![13, 14]);
    assert_eq!(tok.encode(""), Vec::<usize>::new());
    assert_eq!(tok.encode("слон"), Vec::<usize>::new());
}

#[test]
fn punctuation_outside_the_vocabulary_hides_nothing() {
    let tok = Tokenizer::new();
    assert_eq!(tok.encode("(кот)"), vec![13]);
    assert_eq!(tok.encode("кот, пес!"), vec![13, 14]);
    assert_eq!(tok.encode("\"кот\": [2]?"), vec![13, 6]);
    assert_eq!(tok.encode("<кот>"), vec![13]);
    assert_eq!(tok.encode("(2+3)=5."), vec![6, 10, 7, 12, 9]);
    let own = Tokenizer::from_vocab(&["(a)", "a"]);
    assert_eq!(own.encode("(a) a"), vec![1, 1]);
    let marked = Tokenizer::from_vocab(&["(кот", "[еж", "x"]);
    assert_eq!(marked.encode("(Кот"), vec![0]);
    assert_eq!(marked.encode("(кот) [ЁЖ]"), vec![0, 1]);
    assert_eq!(marked.encode("(X [x"), vec![2, 2]);
    assert_eq!(marked.word_to_id("(КОТ"), Some(0));
    assert_eq!(marked.word_to_id("("), None);
}

#[test]
fn a_blank_keeps_texts_apart() {
    for tok in [Tokenizer::v1(), Tokenizer::v2(), Tokenizer::v3(), Tokenizer::chinchilla()] {
        let texts = ["<user> 2+3=", "(кот)", "", "<", "eos>", "пёс это друг<eos>"];
        for a in texts {
            for b in texts {
                let both = format!("{a} {b}");
                assert_eq!(tok.encode(&both), [tok.encode(a), tok.encode(b)].concat());
            }
        }
    }
    let odd = Tokenizer::from_vocab(&["<a b>"]);
    assert_eq!(odd.encode("<a b>"), vec![0]);
    assert_eq!([odd.encode("<a"), odd.encode("b>")].concat(), Vec::<usize>::new());
}

#[test]
fn text_to_train_on() {
    let tok = Tokenizer::new();
    assert_eq!(tok.encode_training_text("кот слон"), Ok(vec![13]));
    let empty = Err("File contains no valid tokens".to_string());
    assert_eq!(tok.encode_training_text("слон (!)"), empty);
    assert_eq!(tok.encode_training_text(""), empty);
}

#[test]
fn operators_need_no_blanks() {
    let tok = Tokenizer::new();
    assert_eq!(tok.encode("2+3=5<eos>"), vec![6, 10, 7, 12, 9, 1]);
    assert_eq!(tok.encode("<user>кот<bot>"), vec![2, 13, 3]);
}

#[test]
fn decoding_joins_with_blanks() {
    let tok = Tokenizer::v1();
    assert_eq!(tok.decode(&[13, 17, 15]), "кот это животное");
    assert_eq!(tok.decode(&[]), "");
    assert_eq!(tok.encode(&tok.decode(&[20, 13, 12, 15, 1])), vec![20, 13, 12, 15, 1]);
}

#[test]
fn vocabularies_extend_each_other() {
    assert_eq!(&VOCAB_V2[..21], &VOCAB[..]);
    assert_eq!(&VOCAB_V3[..41], &VOCAB_V2[..]);
    assert_eq!(&VOCAB_CHINCHILLA[..53], &VOCAB_V3[..]);
    assert_eq!(VOCAB_V4, VOCAB_CHINCHILLA);
}

#[test]
fn every_token_encodes_to_its_id() {
    let tok = Tokenizer::chinchilla();
    for id in 0..tok.vocab_size() {
        let word = tok.id_to_token(id).to_string();
        assert_eq!(tok.token_to_id(&word), Some(id));
        assert_eq!(tok.encode(&word), vec![id]);
    }
}

#[test]
fn own_vocabulary() {
    let tok = Tokenizer::from_vocab(&["да", "нет"]);
    assert_eq!(tok.vocab_size(), 2);
    assert_eq!(tok.encode("нет да"), vec![1, 0]);
    assert_eq!(tok.decode(&[1, 0]), "нет да");
    assert_eq!(tok.token_to_id("кот"), None);
}

#[test]
fn words_are_looked_up_in_any_case() {
    let tok = Tokenizer::new();
    assert_eq!(tok.word_to_id("КОТ"), Some(13));
    assert_eq!(tok.word_to_id("слон"), None);
}
