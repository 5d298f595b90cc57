use fuzaketa::tokenizer::{CharTokenizer, Tokenizer, KNOWN_CHARS};

const VOCAB: &str = "\n abcdefghijklmnopqrstuvwxyzABCDEFGHIJKLMNOPQRSTUVWXYZ!\"#$%&'()*+,-./:;<=>?@[\\]^_`{|}~0123456789äüöÄÖÜß";

#[test]
fn vocab_size_counts_the_catch_all_id() {
    let t = CharTokenizer::new();
    assert_eq!(t.vocab_size(), 104);
    assert_eq!(KNOWN_CHARS + 1, t.vocab_size());
}

#[test]
fn every_vocabulary_character_gets_its_position() {
    let t = CharTokenizer::new();
    let ids = t.encode(VOCAB);
    let expected: Vec<i32> = (0..103).collect();
    assert_eq!(ids, expected);
}

#[test]
fn encode_gives_one_id_per_character() {
    let t = CharTokenizer::new();
    assert_eq!(t.encode("hello"), vec![9, 6, 13, 13, 16]);
    assert_eq!(t.encode("\n"), vec![0]);
    assert_eq!(t.encode("ß"), vec![102]);
    assert_eq!(t.encode(""), Vec::<i32>::new());
}

#[test]
fn unknown_characters_get_the_catch_all_id() {
    let t = CharTokenizer::new();
    assert_eq!(t.encode("a€b\té"), vec![2, 103, 3, 103, 103]);
}

#[test]
fn decode_drops_ids_outside_the_vocabulary() {
    let t = CharTokenizer::new();
    assert_eq!(t.decode(&[9, 6, 103, 13, -1, 13, 16, 500]), "hello");
    assert_eq!(t.decode(&[]), "");
    assert_eq!(t.decode(&[102, 101]), "ßÜ");
}

#[test]
fn decode_of_encode_keeps_the_known_characters() {
    let t = CharTokenizer::new();
    let text = "Grüße, World! 日本 42\n";
    let round = t.decode(&t.encode(text));
    assert_eq!(round, t.filter_known(text));
    assert_eq!(round, "Grüße, World!  42\n");
}

#[test]
fn known_text_survives_a_round_trip() {
    let t = CharTokenizer::new();
    assert_eq!(t.decode(&t.encode(VOCAB)), VOCAB);
}

#[test]
fn encode_of_decode_keeps_the_valid_ids() {
    let t = CharTokenizer::new();
    let ids = [5, 103, -7, 0, 102, 1000];
    assert_eq!(t.encode(&t.decode(&ids)), vec![5, 0, 102]);
}

#[test]
fn filter_known_keeps_only_vocabulary_characters() {
    let t = CharTokenizer::new();
    assert_eq!(t.filter_known("a\tb€c"), "abc");
    assert_eq!(t.filter_known(""), "");
    let once = t.filter_known("x→y ∑ z");
    assert_eq!(t.filter_known(&once), once);
    assert!(t.encode(&once).iter().all(|&id| id < 103));
}

#[test]
fn default_is_the_same_tokenizer() {
    let a = CharTokenizer::default();
    let b = CharTokenizer::new();
    assert_eq!(a.encode(VOCAB), b.encode(VOCAB));
    assert_eq!(a.vocab_size(), b.vocab_size());
}
