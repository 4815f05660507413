use froklog::chat::backend::{ChatBackend, PhrasebookBackend};
use froklog::chat::context::{SituationContext, Slot};
use froklog::chat::defaults::{DEFAULT_FRAGMENTS, DEFAULT_PHRASES};
use froklog::chat::engine::{
    considers, extract_slots, game_event, phrase_hash, rl_reason_text, trigger_kind,
    trigger_primary_other, ChatEngine, PendingMessage, Turn,
};
use froklog::chat::personality::{Archetype, ExpressionMode, PersonalityProfile};
use froklog::chat::phrasebook::{
    chunks_of, fill_slots, EventEntry, PhraseDb, PhrasebookFile,
};
use froklog::chat::relationship::{RelDynamic, Relationship, RelationshipGraph};
use froklog::chat::state::{
    elapsed_secs, CharacterState, ChatTopic, EmotionalRegister, GameEvent, Mood, RlKind,
    PHRASE_MEMORY, SECOND,
};
use froklog::chat::style::{
    apply_style, correction_of, inject_typo, longer_than, truncate_to_fragment,
};
use froklog::chat::trigger::ChatTrigger;
use froklog::maps::TextMap;
use rand::rngs::StdRng;
use rand::SeedableRng;

fn s(t: &str) -> String {
    t.to_string()
}

fn rng() -> StdRng {
    StdRng::seed_from_u64(7)
}

fn calm() -> Mood<f32> {
    Mood {
        frustration: 0.0,
        morale: 0.5,
        fatigue: 0.0,
        engagement: 0.0,
    }
}

fn killed(mob: &str, killer: &str) -> ChatTrigger {
    ChatTrigger::MobKilled {
        mob: s(mob),
        killer: s(killer),
        clean: true,
    }
}

// ── Triggers ────────────────────────────────────────────────────────────────

#[test]
fn triggers_have_topics_and_urgency() {
    assert_eq!(killed("a", "b").topic(), Some(ChatTopic::Slay));
    assert_eq!(ChatTrigger::Wipe.topic(), Some(ChatTopic::Death));
    assert_eq!(ChatTrigger::Idle.topic(), Some(ChatTopic::Banter));
    assert_eq!(ChatTrigger::Add { mob: s("x") }.topic(), None);
    assert_eq!(ChatTrigger::Wipe.urgency(), 3);
    assert_eq!(ChatTrigger::Idle.urgency(), 0);
    let streak = |count| ChatTrigger::ResistStreak { mob: s("m"), count };
    assert_eq!(streak(2).urgency(), 1);
    assert_eq!(streak(3).urgency(), 2);
    let deaths = |count| ChatTrigger::DeathStreak { who: s("m"), count };
    assert_eq!(deaths(1).urgency(), 1);
    assert_eq!(deaths(2).urgency(), 2);
}

#[test]
fn characters_skip_their_own_deeds() {
    assert!(!considers(&killed("a", "Frok"), "Frok"));
    assert!(considers(&killed("a", "Frok"), "Toad"));
    let oom = ChatTrigger::HealerLowMana {
        player: s("Frok"),
        mana_pct: 5,
    };
    assert!(considers(&oom, "Frok"));
}

#[test]
fn triggers_are_told_in_slots() {
    let hit = ChatTrigger::BigHit {
        src: s("Frok"),
        tgt: s("a rat"),
        dmg: 2340,
        ability: s("Bash"),
    };
    let slots = extract_slots(&hit, "Toad");
    let got: Vec<(&str, &str)> =
        slots.iter().map(|x| (x.name.as_str(), x.value.as_str())).collect();
    assert_eq!(
        got,
        vec![
            ("self", "Toad"),
            ("src", "Frok"),
            ("tgt", "a rat"),
            ("dmg", "2340"),
            ("ability", "Bash")
        ]
    );
    assert_eq!(trigger_kind(&hit), "BigHit");
    assert_eq!(trigger_primary_other(&hit, "Frok"), Some("a rat"));
    assert_eq!(trigger_primary_other(&hit, "Toad"), Some("Frok"));
    assert_eq!(trigger_kind(&ChatTrigger::Idle), "Generic");
    let back = ChatTrigger::RlReturn {
        who: s("Frok"),
        missed: vec![],
    };
    assert_eq!(extract_slots(&back, "Toad")[2].value, "");
    assert_eq!(rl_reason_text(&RlKind::Pet), "dog needs out");
}

// ── State ───────────────────────────────────────────────────────────────────

#[test]
fn interruption_weights_sum_to_hundred() {
    let all = [
        RlKind::Food,
        RlKind::Bathroom,
        RlKind::Phone,
        RlKind::Family,
        RlKind::Pet,
        RlKind::Chores,
        RlKind::Distraction,
    ];
    assert_eq!(all.iter().map(|k| k.weight()).sum::<u32>(), 100);
    assert_eq!(RlKind::Food.typical_duration_secs(), 300);
    assert_eq!(RlKind::Bathroom.typical_duration_secs(), 90);
}

#[test]
fn phrases_are_remembered_for_a_while() {
    let mut st: CharacterState<f32> = CharacterState::new(calm());
    st.record_phrase(1);
    assert!(!st.phrase_is_fresh(1));
    for k in 0..PHRASE_MEMORY as u64 - 1 {
        st.record_phrase(100 + k);
    }
    assert!(!st.phrase_is_fresh(1));
    st.record_phrase(999);
    assert!(st.phrase_is_fresh(1));
    assert_eq!(st.recent_phrases.len(), PHRASE_MEMORY);
}

#[test]
fn topics_cool_down_and_build_pressure() {
    let mut st: CharacterState<f32> = CharacterState::new(calm());
    st.on_event(GameEvent::Resist);
    st.on_event(GameEvent::Resist);
    st.on_event(GameEvent::Wipe);
    assert_eq!(st.silent_count(&ChatTopic::Resist), 2);
    assert_eq!(st.silent_count(&ChatTopic::Slay), 0);
    st.mark_topic_spoken(ChatTopic::Resist, 10 * SECOND);
    assert_eq!(st.silent_count(&ChatTopic::Resist), 0);
    assert!(st.topic_on_cooldown(&ChatTopic::Resist, 30, 39 * SECOND));
    assert!(!st.topic_on_cooldown(&ChatTopic::Resist, 30, 40 * SECOND));
    assert!(!st.topic_on_cooldown(&ChatTopic::Slay, 30, 11 * SECOND));
    assert_eq!(ChatTopic::Slay.cooldown(), 45);
    assert_ne!(ChatTopic::Wipe.number(), ChatTopic::CleanStreak.number());
    st.mark_spoke(10 * SECOND);
    assert_eq!(st.secs_since_spoke(12 * SECOND + 5), Some(2));
    assert_eq!(elapsed_secs(5, 3), 0);
}

#[test]
fn interruptions_end_on_time() {
    let mut st: CharacterState<f32> = CharacterState::new(calm());
    st.start_rl_event(RlKind::Pet, 0);
    st.expire_rl_event(119 * SECOND);
    assert!(st.is_rl_distracted());
    st.expire_rl_event(120 * SECOND);
    assert!(!st.is_rl_distracted());
    st.start_rl_event(RlKind::Pet, 0);
    assert_eq!(st.end_rl_event().unwrap().expected_duration_secs, 120);
    assert!(st.end_rl_event().is_none());
}

#[test]
fn events_move_moods() {
    let mut st: CharacterState<f32> = CharacterState::new(calm());
    st.on_slay();
    st.on_death();
    st.on_good_loot();
    st.on_bad_loot();
    assert_eq!(st.silent_count(&ChatTopic::Slay), 1);
    assert_eq!(st.silent_count(&ChatTopic::Death), 1);
    assert_eq!(st.silent_count(&ChatTopic::Loot), 2);
    assert_eq!(st.on_resist(), GameEvent::Resist.shift());
    assert_eq!(st.on_level_up().morale, 40);
    assert_eq!(st.on_near_death().engagement, 50);
    assert_eq!(st.on_wipe().frustration, 50);
    assert_eq!(st.on_clean_streak().frustration, -10);
    let shift = GameEvent::Slay.shift();
    assert_eq!((shift.frustration, shift.morale, shift.engagement), (-4, 8, 35));
    let shift = GameEvent::Wipe.shift();
    assert_eq!((shift.frustration, shift.morale, shift.engagement), (50, -35, 0));
    assert_eq!(game_event(&killed("a", "b")), Some(GameEvent::Slay));
    assert_eq!(game_event(&ChatTrigger::Idle), None);
    assert_eq!(
        EmotionalRegister::of(false, true, true, true),
        EmotionalRegister::Elated
    );
    assert_eq!(
        EmotionalRegister::of(false, false, false, false),
        EmotionalRegister::Neutral
    );
}

// ── Personalities and relationships ─────────────────────────────────────────

#[test]
fn profiles_have_their_numbers() {
    let q = PersonalityProfile::quiet_anchor();
    assert_eq!(q.verbosity, 28);
    assert_eq!(q.expression_mode, ExpressionMode::Action);
    assert_eq!(q.style.signature_filler, Some(s("heh")));
    assert_eq!(q.verbosity as f32 / 100.0, 0.28f32);
    let r = PersonalityProfile::reactive_observer();
    assert_eq!(r.style.signature_filler, None);
    assert_eq!(r.style.base_response_delay_secs, 5);
    assert_eq!(PersonalityProfile::drawn(2).archetype, Archetype::QuietAnchor);
    assert_eq!(PersonalityProfile::drawn(5).archetype, Archetype::ChaoticNarrator);
    assert_eq!(PersonalityProfile::drawn(7).archetype, Archetype::RaidLeader);
    assert_eq!(PersonalityProfile::drawn(9).archetype, Archetype::ReactiveObserver);
}

#[test]
fn drawn_profiles_are_all_reached() {
    let mut g = rng();
    let mut seen = [0u32; 4];
    for _ in 0..200 {
        match PersonalityProfile::random(&mut g).archetype {
            Archetype::QuietAnchor => seen[0] += 1,
            Archetype::ChaoticNarrator => seen[1] += 1,
            Archetype::RaidLeader => seen[2] += 1,
            Archetype::ReactiveObserver => seen[3] += 1,
            _ => panic!("not a named profile"),
        }
    }
    assert!(seen.iter().all(|n| *n > 0));
}

#[test]
fn relationships_are_directed() {
    let mut g = RelationshipGraph::new();
    g.set("a", "b", Relationship::new(RelDynamic::Strangers));
    assert!(g.get("b", "a").is_none());
    assert!(!g.rl_permitted_toward("a", "b"));
    g.set_established_duo("a", "b");
    assert!(g.get("b", "a").unwrap().silence_is_comfortable());
    assert!(g.rl_permitted_toward("a", "b"));
    g.set_symmetric("a", "c", RelDynamic::Rivals);
    let r = g.get("c", "a").unwrap();
    assert!(!r.tease_reads_as_warmth());
    assert!(!r.performance_commentary_ok());
    assert!(!r.reacts_to_rl_story());
}

#[test]
fn relationships_change_in_place() {
    let mut g = RelationshipGraph::new();
    g.set("a", "b", Relationship::new(RelDynamic::Teammates));
    g.get_mut("a", "b").unwrap().on_friction();
    assert_eq!(g.get("a", "b").unwrap().rapport, (0.50f32 - 0.08).to_bits());
    assert!(g.get_mut("b", "a").is_none());
    g.set("a", "c", Relationship::new(RelDynamic::Strangers));
    g.set("c", "a", Relationship::new(RelDynamic::EstablishedDuo));
    assert_eq!(g.average_rapport("a"), ((0.50f32 - 0.08 + 0.30) / 2.0).to_bits());
    assert_eq!(g.average_rapport("nobody"), 0.50f32.to_bits());
    assert_eq!(g.min_trust_toward_others("a"), 0.20f32.to_bits());
    assert_eq!(g.min_trust_toward_others("nobody"), 1.0f32.to_bits());
}

#[test]
fn rapport_drifts_toward_trust() {
    let mut r = Relationship::new(RelDynamic::EstablishedDuo);
    r.session_decay();
    assert_eq!(r.rapport, (0.70f32 + (0.90 - 0.70) * 0.30).to_bits());
    let mut float = f32::from_bits(r.rapport);
    for _ in 0..40 {
        r.session_decay();
        float += (0.90 - float) * 0.30;
        assert_eq!(r.rapport, float.to_bits());
    }
    let mut r = Relationship::new(RelDynamic::Strangers);
    r.session_decay();
    assert_eq!(r.rapport, (0.30f32 + (0.20 - 0.30) * 0.30).to_bits());
}

#[test]
fn rapport_stays_on_its_scale() {
    let mut r = Relationship::new(RelDynamic::EstablishedDuo);
    for _ in 0..10 {
        r.on_positive_interaction();
    }
    assert_eq!(r.rapport, 1.0f32.to_bits());
    for _ in 0..20 {
        r.on_friction();
    }
    assert_eq!(r.rapport, 0);
}

// ── Phrases ─────────────────────────────────────────────────────────────────

fn slot(name: &str, value: &str) -> Slot {
    Slot {
        name: s(name),
        value: s(value),
    }
}

fn file() -> PhrasebookFile {
    let mut fragments: TextMap<String, Vec<String>> = TextMap::new();
    fragments.insert(s("wow"), vec![s("omg")]);
    fragments.insert(s("void"), vec![]);
    let entry = |kind: &str, arch: Option<&str>, reg: Option<&str>, t: &str| EventEntry {
        kind: s(kind),
        archetype: arch.map(s),
        register: reg.map(s),
        templates: vec![s(t)],
    };
    PhrasebookFile {
        fragments,
        events: vec![
            entry("K", None, None, "first"),
            entry("K", None, None, "generic"),
            entry("K", Some("RaidLeader"), None, "leader"),
            entry("K", Some("RaidLeader"), Some("Elated"), "elated"),
        ],
    }
}

#[test]
fn the_more_specific_pool_wins() {
    let db = PhraseDb::from_file(file());
    let mut g = rng();
    let pick = |g: &mut StdRng, a, r| db.select("K", &a, &r, g);
    assert_eq!(
        pick(&mut g, Archetype::RaidLeader, EmotionalRegister::Elated),
        Some(s("elated"))
    );
    assert_eq!(
        pick(&mut g, Archetype::RaidLeader, EmotionalRegister::Tired),
        Some(s("leader"))
    );
    assert_eq!(
        pick(&mut g, Archetype::Custom, EmotionalRegister::Tired),
        Some(s("generic"))
    );
    assert_eq!(
        db.select("Other", &Archetype::Custom, &EmotionalRegister::Tired, &mut g),
        None
    );
    assert_eq!(db.select_generic(&mut g), None);
}

#[test]
fn slots_are_filled_and_fragments_expanded() {
    let db = PhraseDb::from_file(file());
    let mut g = rng();
    assert_eq!(
        db.render("{$wow} {mob} {$void}{$nope} {x", &vec![slot("mob", "a rat")], &mut g),
        "omg a rat {$nope} {x"
    );
    // the text before a mark that is never closed is said twice
    assert_eq!(db.expand_fragments("no end {$wow", &mut g), "no end no end {$wow");
    assert_eq!(db.expand_fragments("{$wow}ab{$x", &mut g), "omgabab{$x");
    assert_eq!(db.expand_fragments("{$x", &mut g), "{$x");
    assert_eq!(db.expand_fragments("ab}", &mut g), "ab}");
    assert_eq!(db.expand_fragments("plain {mob}", &mut g), "plain {mob}");
    let whole: String = chunks_of("x{$a}y{$b}z")
        .iter()
        .map(|c| match &c.fragment {
            Some(f) => format!("{}{{${}}}", c.before, f),
            None => c.before.clone(),
        })
        .collect();
    assert_eq!(whole, "x{$a}y{$b}z");
    assert_eq!(fill_slots("{a}{b}", &vec![slot("a", "1"), slot("b", "2")]), "12");
    let chunks = chunks_of("x{$a}y{$b}");
    assert_eq!(chunks.len(), 3);
    assert_eq!(chunks[1].before, "y");
    assert_eq!(chunks[1].fragment, Some(s("b")));
    assert_eq!(db.expand_picked(&chunks_of("-{$wow}-"), &vec![0, 0]), "-omg-");
}

#[test]
fn defaults_hold_the_known_phrases() {
    let db = PhraseDb::with_defaults();
    assert_eq!(DEFAULT_PHRASES.len(), 372);
    assert_eq!(DEFAULT_FRAGMENTS.len(), 30);
    let pool = db
        .pool_for("MobKilled", &Archetype::ChaoticNarrator, &EmotionalRegister::Frustrated)
        .unwrap();
    assert_eq!(pool, &vec!["finally", "took long enough", "ok", "bout time"]);
    let pool = db
        .pool_for("HealerMana", &Archetype::RaidLeader, &EmotionalRegister::Tired)
        .unwrap();
    assert_eq!(pool, &vec!["{pct}% mana, slowing down", "healers conserve mana"]);
    let mut g = rng();
    let words = db.expand_fragments("{$easy}", &mut g);
    assert!(["ez", "easy", "clean", "smooth", "no sweat", "effortless"].contains(&words.as_str()));
    assert!(db.select_generic(&mut g).is_some());
}

fn context(kind: &'static str) -> SituationContext<f32> {
    SituationContext {
        trigger_kind: kind,
        slots: vec![slot("mob", "a rat")],
        archetype: Archetype::QuietAnchor,
        register: EmotionalRegister::Neutral,
        verbosity: 0.5,
        humor: 0.5,
        positivity: 0.5,
        patience: 0.5,
        tactical_awareness: 0.5,
        social_investment: 0.5,
        expression_mode: ExpressionMode::Mixed,
        frustration: 0.0,
        morale: 0.5,
        fatigue: 0.0,
        relationship: None,
        zone: None,
        group_size: 1,
        recent_messages: vec![],
    }
}

#[test]
fn phrasebooks_answer_what_they_know() {
    let mut b = PhrasebookBackend(PhraseDb::with_defaults());
    let mut g = rng();
    for _ in 0..20 {
        let t = b.generate(&context("MobKilled"), &mut g).unwrap();
        assert!(["nice", "gg", "a rat down", "good"].contains(&t.as_str()));
    }
    assert_eq!(b.generate(&context("Unheard"), &mut g), None);
}

// ── Style ───────────────────────────────────────────────────────────────────

#[test]
fn texts_are_styled() {
    let heh = Some(s("heh"));
    assert_eq!(apply_style(s("NICE"), &heh, true, true, false), "nice heh");
    assert_eq!(apply_style(s("nice HEH"), &heh, false, true, false), "nice HEH");
    assert_eq!(apply_style(s("Nice"), &None, false, true, false), "Nice");
    assert_eq!(apply_style(s("Nice."), &heh, false, true, true), "Nice.");
}

#[test]
fn fragments_end_with_the_first_sentence() {
    assert_eq!(truncate_to_fragment("fine. go on"), "fine.");
    assert_eq!(truncate_to_fragment("ok. go on! now"), "ok. go on!");
    assert_eq!(truncate_to_fragment("a. b"), "a. b");
    assert_eq!(truncate_to_fragment("ä. b"), "ä. b");
    assert_eq!(truncate_to_fragment("ää. b"), "ää.");
    assert_eq!(
        truncate_to_fragment("this is a rather long text , cut here"),
        "this is a rather long text"
    );
    assert_eq!(truncate_to_fragment("short, kept"), "short, kept");
    assert!(longer_than("ää", 3));
    assert!(!longer_than("ää", 4));
}

#[test]
fn typos_drop_an_ending_of_the_last_word() {
    let mut g = rng();
    for _ in 0..50 {
        let t = inject_typo("nice shooting", &mut g).unwrap();
        assert!("nice shooting".starts_with(&t));
        assert!(t.len() > 4 && t.len() < 13);
    }
    assert_eq!(inject_typo("abc", &mut g), Some(s("abc")));
    assert_eq!(inject_typo("nice a", &mut g), Some(s("nice a")));
    // Of three places in the last word one is inside a character.
    let mut met = [0, 0, 0];
    for _ in 0..200 {
        match inject_typo("nice öb", &mut g).as_deref() {
            Some("nice ") => met[0] += 1,
            Some("nice ö") => met[1] += 1,
            Some(other) => panic!("{other}"),
            None => met[2] += 1,
        }
    }
    assert!(met.iter().all(|n| *n > 20), "{met:?}");
}

#[test]
fn corrections_repeat_the_end() {
    assert_eq!(correction_of("nice shooting"), Some(s("*shooting")));
    assert_eq!(correction_of("nice schön!!"), Some(s("*schön!!")));
    assert_eq!(correction_of("aöbcdef g"), None);
}

// ── The engine ──────────────────────────────────────────────────────────────

fn profile32(p: PersonalityProfile<u16>) -> PersonalityProfile<f32> {
    let f = |n: u16| n as f32 / 100.0;
    PersonalityProfile {
        verbosity: f(p.verbosity),
        expressiveness: f(p.expressiveness),
        humor: f(p.humor),
        positivity: f(p.positivity),
        patience: f(p.patience),
        tactical_awareness: f(p.tactical_awareness),
        social_investment: f(p.social_investment),
        expression_mode: p.expression_mode,
        style: froklog::chat::personality::StyleTraits {
            lowercase_tendency: f(p.style.lowercase_tendency),
            profanity_rate: f(p.style.profanity_rate),
            abbreviation_rate: f(p.style.abbreviation_rate),
            signature_filler: p.style.signature_filler,
            fragment_tendency: f(p.style.fragment_tendency),
            typo_correction_rate: f(p.style.typo_correction_rate),
            base_response_delay_secs: p.style.base_response_delay_secs as f32,
        },
        archetype: p.archetype,
    }
}

fn engine() -> ChatEngine<f32, PhrasebookBackend> {
    let mut e = ChatEngine::new(PhraseDb::with_defaults(), 3, 0);
    e.add_character("Frok", profile32(PersonalityProfile::quiet_anchor()), calm());
    e.add_character("Toad", profile32(PersonalityProfile::chaotic_narrator()), calm());
    e.set_established_duo("Toad", "Frok");
    e.set_teammates("Frok", "Newt");
    e.set_relationship("Frok", "Eft", Relationship::new(RelDynamic::Rivals));
    e
}

fn turn(name: &str, text: &str, delay: u64) -> Turn {
    Turn {
        name: s(name),
        speaks: true,
        text: Some(s(text)),
        delay,
        correction: None,
    }
}

#[test]
fn characters_are_replaced_by_name() {
    let mut e = engine();
    assert_eq!(e.characters.len(), 2);
    e.add_character("Frok", profile32(PersonalityProfile::raid_leader()), calm());
    assert_eq!(e.characters.len(), 2);
    assert_eq!(e.characters[0].profile.archetype, Archetype::RaidLeader);
    assert!(e.character_state("Newt").is_none());
}

#[test]
fn contexts_tell_the_relationship() {
    let e = engine();
    let ctx = e
        .build_context(&killed("a rat", "Toad"), "Frok", EmotionalRegister::Tired)
        .unwrap();
    assert_eq!(ctx.relationship, Some(RelDynamic::EstablishedDuo));
    assert_eq!(ctx.group_size, 2);
    assert_eq!(ctx.trigger_kind, "MobKilled");
    assert_eq!(ctx.verbosity, 0.28);
    assert!(e
        .build_context(&ChatTrigger::Idle, "Nobody", EmotionalRegister::Tired)
        .is_none());
}

#[test]
fn facts_follow_the_state() {
    let mut e = engine();
    let kill = killed("a rat", "Newt");
    e.apply_state_updates(&kill, 0);
    e.apply_state_updates(&kill, 0);
    let f = e.speak_facts(&kill, "Frok", SECOND).unwrap();
    assert_eq!(f.urgency, 1);
    assert!(f.holds_back);
    assert_eq!(f.pressure, Some(2));
    assert!(!f.on_cooldown);
    assert!(!f.distracted);
    assert!(!f.frustrating);
    let leave = ChatTrigger::RlDeparture {
        who: s("Frok"),
        kind: RlKind::Phone,
    };
    e.apply_state_updates(&leave, 0);
    assert!(e.speak_facts(&kill, "Frok", SECOND).unwrap().distracted);
    assert!(!e.speak_facts(&kill, "Toad", SECOND).unwrap().distracted);
    assert_eq!(e.decay_tick(300 * SECOND), 300 * SECOND);
    assert!(!e.speak_facts(&kill, "Frok", SECOND).unwrap().distracted);
    assert!(e.speak_facts(&kill, "Nobody", SECOND).is_none());
}

#[test]
fn turns_become_messages_in_order() {
    let mut e = engine();
    let kill = killed("a rat", "Newt");
    let mut late = turn("Frok", "nice", 5 * SECOND);
    late.correction = Some(PendingMessage {
        emit_at: 9 * SECOND,
        speaker: s("Frok"),
        channel: s(""),
        text: s("*nice"),
    });
    let out = e.on_trigger(&kill, "group", SECOND, vec![late, turn("Toad", "yeah", SECOND)]);
    let got: Vec<(&str, u64)> = out.iter().map(|m| (m.text.as_str(), m.emit_at / SECOND)).collect();
    assert_eq!(got, vec![("yeah", 2), ("nice", 6), ("*nice", 9)]);
    assert_eq!(out[0].channel, "group");
    // the topic cools down, and the phrase is remembered
    assert!(e.speak_facts(&kill, "Toad", 2 * SECOND).unwrap().on_cooldown);
    assert!(!e.is_new_to("Toad", "yeah"));
    let again = e.on_trigger(&kill, "group", SECOND, vec![turn("Toad", "yeah", SECOND)]);
    assert!(again.is_empty());
}

#[test]
fn phrases_are_told_apart() {
    assert_eq!(phrase_hash("yeah"), phrase_hash(&s("yeah")));
    assert_ne!(phrase_hash("yeah"), phrase_hash("nice"));
}

#[test]
fn silent_turns_say_nothing() {
    let mut e = engine();
    let own = killed("a rat", "Frok");
    let mut quiet = turn("Toad", "yeah", 0);
    quiet.speaks = false;
    let mut dumb = turn("Toad", "yeah", 0);
    dumb.text = None;
    let out = e.on_trigger(
        &own,
        "g",
        0,
        vec![turn("Frok", "mine", 0), quiet, turn("Nobody", "hi", 0)],
    );
    assert!(out.is_empty());
    assert!(e.on_trigger(&own, "g", 0, vec![dumb]).is_empty());
}

#[test]
fn queues_drain_what_is_due() {
    let mut e = engine();
    let msg = |t: &str, at: u64| PendingMessage {
        emit_at: at,
        speaker: s("Frok"),
        channel: s("g"),
        text: s(t),
    };
    e.queue(vec![msg("b", 20), msg("a", 10), msg("c", 20)]);
    assert!(e.poll(9).is_empty());
    let out: Vec<String> = e.poll(20).into_iter().map(|m| m.text).collect();
    assert_eq!(out, vec!["a", "b", "c"]);
    assert!(e.poll(u64::MAX).is_empty());
}

#[test]
fn backends_compose_what_is_said() {
    let mut e = engine();
    let t = e
        .compose(&killed("a rat", "Newt"), "Frok", EmotionalRegister::Neutral)
        .unwrap();
    assert!(["nice", "gg", "a rat down", "good"].contains(&t.as_str()));
    assert!(e
        .compose(&killed("a rat", "Newt"), "Nobody", EmotionalRegister::Neutral)
        .is_none());
    e.set_mood(0, Mood { frustration: 1.0, ..calm() });
    assert_eq!(e.character_state("Frok").unwrap().mood.frustration, 1.0);
}

#[test]
fn corrections_follow_within_seconds() {
    let mut e = engine();
    for _ in 0..20 {
        let m = e.maybe_correction("nice shooting", "Frok", 10 * SECOND, true).unwrap().unwrap();
        assert_eq!(m.text, "*shooting");
        assert!(m.emit_at >= 12 * SECOND && m.emit_at <= 18 * SECOND);
    }
    assert!(e.maybe_correction("nice shooting", "Frok", 0, false).unwrap().is_none());
    assert!(e.maybe_correction("short", "Frok", 0, true).unwrap().is_none());
    assert!(e.maybe_correction("aöbcdef g", "Frok", 0, true).unwrap().is_none());
    assert!(e.maybe_correction("aöb cdefg", "Frok", 0, true).is_err());
    let mut met = [0, 0];
    for _ in 0..100 {
        match e.maybe_correction("nice schön!!", "Frok", 0, true) {
            Ok(m) => {
                assert_eq!(m.unwrap().text, "*schön!!");
                met[0] += 1;
            }
            Err(_) => met[1] += 1,
        }
    }
    assert!(met[0] > 50 && met[1] > 0, "{met:?}");
}

#[test]
fn default_templates_expand_completely() {
    let db = PhraseDb::with_defaults();
    let mut r = rng();
    for row in DEFAULT_PHRASES {
        for _ in 0..5 {
            let said = db.expand_fragments(row.3, &mut r);
            assert!(!said.contains("{$"), "{said}");
        }
    }
    assert!(["no sweat", "ez", "easy", "clean", "smooth", "effortless"]
        .contains(&db.expand_fragments("{$easy}", &mut r).as_str()));
}

#[test]
fn defaults_answer_every_kind() {
    let db = PhraseDb::with_defaults();
    let mut r = rng();
    for kind in [
        "MobKilled", "PlayerDied", "NearDeathSave", "PlayerNearDeath", "BigHit", "SpellResisted",
        "ResistStreak", "Wipe", "CleanStreak", "CasterOom", "Incoming", "RepeatMiss", "GoodLoot",
        "BadLoot", "LevelUp", "RlDeparture", "RlReturn", "Generic",
    ] {
        for arch in [Archetype::Custom, Archetype::RaidLeader, Archetype::ChaoticNarrator] {
            assert!(db.select(kind, &arch, &EmotionalRegister::Tired, &mut r).is_some(), "{kind}");
        }
    }
    assert!(db
        .select("NoSuchKind", &Archetype::Custom, &EmotionalRegister::Tired, &mut r)
        .is_none());
}

#[test]
fn memory_keeps_the_latest_in_order() {
    let mut st: CharacterState<f32> = CharacterState::new(calm());
    for k in 0..60u64 {
        st.record_phrase(k);
        assert!(st.recent_phrases.len() <= PHRASE_MEMORY);
    }
    let kept: Vec<u64> = st.recent_phrases.iter().copied().collect();
    assert_eq!(kept, (12..60).collect::<Vec<u64>>());
}

#[test]
fn queueing_keeps_the_order_of_equals() {
    let mut e = engine();
    let msg = |t: &str, at: u64| PendingMessage {
        emit_at: at,
        speaker: s("Frok"),
        channel: s("g"),
        text: s(t),
    };
    e.queue(vec![msg("a", 10), msg("b", 20)]);
    e.queue(vec![msg("c", 20), msg("d", 10), msg("e", 20), msg("f", 5)]);
    let out: Vec<String> = e.poll(20).into_iter().map(|m| m.text).collect();
    assert_eq!(out, vec!["f", "a", "d", "b", "c", "e"]);
}
