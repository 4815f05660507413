use froklog::chat::context::Slot;
use froklog::chat::neural::{
    archetype_tag, build_prefix, checked_prefix, last_scores, pick_primary_slot, prefix_ids,
    register_tag, trimmed_answer, Generation, Level, Levels, ModelMeta,
};
use froklog::chat::personality::Archetype;
use froklog::chat::state::EmotionalRegister;
use froklog::chat::tokenizer::{Tokenizer, TokenizerError};

const META: &str = r#"{
    "base_vocab": 10, "vocab_size": 20, "max_len": 12,
    "pad_id": 0, "bos_id": 1, "eos_id": 2,
    "control_tokens": {
        "[ARCH]": 100, "[QuietAnchor]": 101, "[REG]": 102, "[Tired]": 103,
        "[TRIG]": 104, "[MobKilled]": 105, "[TERSE]": 106, "[RESPONSE]": 107,
        "[BROKEN]": "x"
    }
}"#;

fn without(field: &str) -> String {
    let mut v: serde_json::Value = serde_json::from_str(META).unwrap();
    v.as_object_mut().unwrap().remove(field);
    v.to_string()
}

fn slot(name: &str, value: &str) -> Slot {
    Slot {
        name: name.to_string(),
        value: value.to_string(),
    }
}

fn levels(verbosity: Level) -> Levels {
    Levels {
        verbosity,
        humor: Level::Middle,
        patience: Level::High,
    }
}

#[test]
fn descriptions_are_read() {
    let m = ModelMeta::from_json(META).ok().unwrap();
    assert_eq!((m.base_vocab, m.vocab_size, m.max_len), (10, 20, 12));
    assert_eq!((m.pad_id, m.bos_id, m.eos_id), (0, 1, 2));
    assert_eq!(m.control_tokens.len(), 9);
    assert_eq!(m.ctrl.len(), 8);
    assert_eq!(m.ctrl.get(&"[TRIG]".to_string()), Some(&104));
    assert_eq!(m.ctrl.get(&"[BROKEN]".to_string()), None);
}

#[test]
fn missing_fields_are_named() {
    for f in [
        "base_vocab",
        "control_tokens",
        "vocab_size",
        "max_len",
        "pad_id",
        "bos_id",
        "eos_id",
    ] {
        assert_eq!(
            ModelMeta::from_json(&without(f)).err().unwrap(),
            format!("missing {}", f)
        );
    }
    assert!(ModelMeta::from_json("{").err().unwrap().contains("EOF"));
}

#[test]
fn prefixes_hold_the_known_tags() {
    let m = ModelMeta::from_json(META).ok().unwrap();
    let ids = prefix_ids(
        &m,
        &Archetype::QuietAnchor,
        &EmotionalRegister::Tired,
        "MobKilled",
        levels(Level::Low),
        &Some(vec![5, 6]),
    );
    assert_eq!(ids, vec![100, 101, 102, 103, 104, 105, 106, 5, 6, 107]);
    let ids = prefix_ids(
        &m,
        &Archetype::Custom,
        &EmotionalRegister::Elated,
        "Mob Killed",
        levels(Level::High),
        &None,
    );
    assert_eq!(ids, vec![100, 102, 104, 107]);
    assert_eq!(archetype_tag(&Archetype::Custom), "Generic");
    assert_eq!(register_tag(&EmotionalRegister::Elated), "Elated");
}

#[test]
fn the_most_useful_slot_is_told() {
    let slots = vec![slot("self", "x"), slot("caster", "c"), slot("spell", "p")];
    assert_eq!(pick_primary_slot(&slots), Some("p"));
    assert_eq!(pick_primary_slot(&vec![slot("self", "x")]), None);
}

// A model of four pieces, as the tokenizer stores it.
fn field(number: u8, bytes: &[u8]) -> Vec<u8> {
    let mut out = vec![number << 3 | 2];
    let mut n = bytes.len();
    while n >= 128 {
        out.push((n % 128) as u8 | 128);
        n /= 128;
    }
    out.push(n as u8);
    out.extend_from_slice(bytes);
    out
}

fn piece(text: &str, score: f32, kind: u8) -> Vec<u8> {
    let mut p = field(1, text.as_bytes());
    p.push(2 << 3 | 5);
    p.extend_from_slice(&score.to_le_bytes());
    p.extend_from_slice(&[3 << 3, kind]);
    field(1, &p)
}

fn model() -> Vec<u8> {
    let mut m = piece("<unk>", 0.0, 2);
    m.extend(piece("\u{2581}rat", -1.0, 1));
    m.extend(piece("\u{2581}a", -1.0, 1));
    m.extend(piece("\u{2581}", -2.0, 1));
    m
}

fn tokenizer() -> Tokenizer {
    Tokenizer::from_bytes(&model()).ok().unwrap()
}

// A character map that replaces one byte by "rat".
fn map_of(byte: u8) -> Vec<u8> {
    let mut units = vec![0x8000_0000u32; 512];
    // The children of the root, and the value of the one child.
    units[0] = 0x100 << 10;
    let at = 0x100 ^ byte as usize;
    units[at] = byte as u32 | 1 << 8 | ((at as u32) ^ 1) << 10;
    units[1] = 0x8000_0000;
    let mut out = 2048u32.to_le_bytes().to_vec();
    for u in units {
        out.extend_from_slice(&u.to_le_bytes());
    }
    out.extend_from_slice(b"rat\0");
    out
}

fn with_map(number: u8, map: &[u8]) -> Vec<u8> {
    let mut m = model();
    m.extend(field(number, &field(2, map)));
    m
}

#[test]
fn tokenizers_cut_whole_characters() {
    // Without a map, "a" is the third piece; with one it reads "rat".
    let plain = tokenizer();
    assert!(plain.takes("a") && plain.takes("schön") && plain.gives_texts());
    assert_eq!(plain.encode("a"), Some(vec![2]));
    assert_eq!(plain.decode(&vec![1, 2]), Some("rat a".to_string()));
    assert_eq!(plain.decode(&vec![9]), None);
    let mapped = Tokenizer::from_bytes(&with_map(3, &map_of(b'a'))).ok().unwrap();
    assert!(mapped.takes("a") && mapped.takes("schön"));
    assert_eq!(mapped.encode("a"), Some(vec![1]));
    // The first byte of "ö" is a key: texts without it are taken.
    let cut = Tokenizer::from_bytes(&with_map(3, &map_of(0xc3))).ok().unwrap();
    assert!(cut.takes("a") && cut.takes("") && cut.takes("\u{2581}rat"));
    assert_eq!(cut.encode("a"), Some(vec![2]));
    assert!(!cut.takes("ö") && !cut.takes("a schön"));
    assert!(cut.gives_texts());
    // Its replacement is not there: the character is taken as it is.
    let mut far = map_of(0xc3);
    far[4 + 4..4 + 8].copy_from_slice(&0x8000_0004u32.to_le_bytes());
    let far = Tokenizer::from_bytes(&with_map(3, &far)).ok().unwrap();
    assert!(far.takes("a schön"));
    assert_eq!(far.encode("ö").map(|v| v.len()), Some(2));
    // A piece that the user defined is taken out first.
    let mut symbol = with_map(3, &map_of(0xc3));
    symbol.extend(piece("sch\u{f6}n", 0.0, 4));
    let symbol = Tokenizer::from_bytes(&symbol).ok().unwrap();
    assert!(symbol.takes("a schön") && !symbol.takes("ö schön"));
    assert!(symbol.encode("schön").is_some());
    // The last rules count.
    let mut last = with_map(3, &map_of(0xc3));
    last.extend(field(3, &field(2, &map_of(b'a'))));
    let last = Tokenizer::from_bytes(&last).ok().unwrap();
    assert!(last.takes("ö"));
    assert_eq!(last.encode("a"), Some(vec![1]));
    // Such a map for what is put together.
    let back = Tokenizer::from_bytes(&with_map(5, &map_of(0xc3))).ok().unwrap();
    assert!(back.takes("ö") && !back.gives_texts());
    let back = Tokenizer::from_bytes(&with_map(5, &map_of(b'a'))).ok().unwrap();
    assert!(back.gives_texts());
    // A byte that begins no character is never met.
    assert!(Tokenizer::from_bytes(&with_map(5, &map_of(0x80))).ok().unwrap().gives_texts());
}

#[test]
fn what_is_no_model_gives_no_tokenizer() {
    let refused = |m: Vec<u8>| matches!(Tokenizer::from_bytes(&m), Err(TokenizerError::NoModel(_)));
    assert!(refused(vec![]));
    assert!(refused(piece("a", 0.0, 1)));
    assert!(refused(vec![0x0a, 5]));
    assert!(refused(with_map(3, &[6, 0, 0, 0, 1, 2, 3])));
    // A map that ends within its trie.
    let mut short = 1024u32.to_le_bytes().to_vec();
    short.resize(1026, 0);
    for number in [3, 5] {
        let short = with_map(number, &short);
        assert!(matches!(Tokenizer::from_bytes(&short), Err(TokenizerError::ShortMap)));
    }
    // Elsewhere it is no map, and a field's number may be written at length.
    assert!(Tokenizer::from_bytes(&with_map(9, &short)).is_ok());
    let mut long = model();
    long.extend([0x80 | 8, 0x80, 0x80, 0x80, 0x80, 0x80, 0x80, 0x80, 0x80, 0x00, 7]);
    assert!(Tokenizer::from_bytes(&long).is_ok());
}

#[test]
fn merges_of_unused_pieces_are_told() {
    // Merging pairs, with a piece that is unused.
    let mut bpe = model();
    bpe.extend(field(2, &[3 << 3, 2]));
    assert!(Tokenizer::from_bytes(&bpe).ok().unwrap().takes("rat"));
    let mut unused = model();
    unused.extend(piece("ra", -1.0, 5));
    assert!(Tokenizer::from_bytes(&unused).ok().unwrap().takes("rat"));
    unused.extend(field(2, &[3 << 3, 2]));
    let unused = Tokenizer::from_bytes(&unused).ok().unwrap();
    assert!(!unused.takes("rat") && !unused.takes("a rabbit"));
    assert!(unused.takes("a"));
    assert_eq!(unused.encode("a"), Some(vec![2]));
    let m = ModelMeta::from_json(META).ok().unwrap();
    let prefix = |value: &str| {
        checked_prefix(
            &m,
            &unused,
            &Archetype::QuietAnchor,
            &EmotionalRegister::Tired,
            "MobKilled",
            levels(Level::Low),
            &vec![slot("mob", value)],
        )
    };
    assert_eq!(prefix("a"), Some(vec![100, 101, 102, 103, 104, 105, 106, 2, 107]));
    assert_eq!(prefix("rat"), None);
}

#[test]
fn slots_are_encoded() {
    let m = ModelMeta::from_json(META).ok().unwrap();
    let sp = tokenizer();
    let ids = build_prefix(
        &m,
        &sp,
        &Archetype::QuietAnchor,
        &EmotionalRegister::Tired,
        "MobKilled",
        levels(Level::Middle),
        &vec![slot("mob", "a rat")],
    );
    assert_eq!(ids, vec![100, 101, 102, 103, 104, 105, 2, 1, 107]);
}

#[test]
fn answers_end_with_the_end_mark() {
    let m = ModelMeta::from_json(META).ok().unwrap();
    let sp = tokenizer();
    let mut g = Generation::start(vec![100, 107], &m, 4).unwrap();
    assert_eq!(g.max, 6);
    g.take(2); // the end mark of this model
    assert!(!g.wants_more());
    assert_eq!(g.answer(&sp), None);

    let mut g = Generation::start(vec![100, 107], &m, 64).unwrap();
    assert_eq!(g.max, 12);
    g.take(1);
    g.take(1);
    g.take(0); // padding
    assert!(!g.wants_more());
    assert_eq!(g.ids, vec![100, 107, 1, 1]);
    assert_eq!(g.answer(&sp), Some("rat rat".to_string()));
    assert!(Generation::start(vec![], &m, 4).is_none());
}

#[test]
fn answers_stop_at_the_limit_and_fail_on_unknown_ids() {
    let m = ModelMeta::from_json(META).ok().unwrap();
    let mut g = Generation::start(vec![100], &m, 1).unwrap();
    assert!(g.wants_more());
    g.take(99);
    assert!(!g.wants_more());
    assert_eq!(g.answer(&tokenizer()), None);
    assert_eq!(trimmed_answer(Some("  ".to_string())), None);
    assert_eq!(trimmed_answer(Some(" a ".to_string())), Some("a".to_string()));
}

#[test]
fn models_without_tags_say_nothing() {
    let bare = META.replace("\"[", "\"<");
    let m = ModelMeta::from_json(&bare).ok().unwrap();
    let ids = prefix_ids(
        &m,
        &Archetype::QuietAnchor,
        &EmotionalRegister::Tired,
        "MobKilled",
        levels(Level::Low),
        &None,
    );
    assert!(ids.is_empty());
    assert!(Generation::start(ids, &m, 8).is_none());
}

#[test]
fn the_last_scores_count() {
    assert_eq!(last_scores(12, 3, 4), Some((8, 12)));
    assert_eq!(last_scores(13, 3, 4), Some((8, 12)));
    assert_eq!(last_scores(11, 3, 4), None);
    assert_eq!(last_scores(11, 0, 4), None);
    assert_eq!(last_scores(11, usize::MAX, 4), None);
}
