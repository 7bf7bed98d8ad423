use nodebook::ai::{chat_endpoint, clean_json_reply, embeddings_endpoint, gemini_base, NoopAiProvider, PromptBuilder};
use nodebook::analytics::{calculate_streak, events_limit, period_words, InsightEngine, TrendAnalyzer, TrendDirection};
use nodebook::bot::PluginResponse;
use nodebook::classifier::{ai_categories, HybridAreaDetector, HybridEntityExtractor, HybridTypeClassifier, RuleEngine};
use nodebook::common::{
    output_message, short_id, Area, BrainError, EntryId, EntryType, Output, OutputPayload, ParaCategory,
    ResourceLifecycle,
};
use nodebook::config::{
    default_check_interval, default_dimension, default_max_tokens, default_ollama_url, default_true, DiaryConfig,
    OpenAiConfig, TelegramConfig, VaultConfig,
};
use nodebook::tutor::{
    analyze_grammar_offline, answer_response, default_vocab_bank, flashcard_response, grammar_feedback_fallback,
    quiz_response, tutor_callback, tutor_reply_offline, EnglishTutorEngine, TutorCallback,
};

fn is_v4(s: &str) -> bool {
    let b: Vec<char> = s.chars().collect();
    b.len() == 36
        && b[8] == '-'
        && b[13] == '-'
        && b[18] == '-'
        && b[23] == '-'
        && b[14] == '4'
        && "89ab".contains(b[19])
        && b.iter().enumerate().all(|(i, c)| [8, 13, 18, 23].contains(&i) || "0123456789abcdef".contains(*c))
}

#[test]
fn ids_are_random_v4_uuids() {
    let a = EntryId::new().display();
    let b = EntryId::new().display();
    assert!(is_v4(&a));
    assert_ne!(a, b);
    let s = short_id();
    assert_eq!(s.len(), 8);
    assert!(s.chars().all(|c| "0123456789abcdef".contains(c)));
    let id = EntryId::new();
    assert!(is_v4(id.as_str()));
    assert!(is_v4(EntryId::default().as_str()));
    let fixed = EntryId::from_string("abc".to_string());
    assert_eq!(fixed.as_str(), "abc");
    assert_eq!(fixed.display(), "abc");
}

#[test]
fn outputs_and_errors() {
    let t = Output::text("hi".to_string());
    assert_eq!(t.lifecycle, ResourceLifecycle::Temporary);
    assert_eq!(output_message(&t.payload, None), "✅ <b>Готово! Записал в Obsidian.</b>\n\nhi");
    let p = Output::persistent_resource("r1".to_string());
    assert_eq!(p.lifecycle, ResourceLifecycle::Persistent);
    assert_eq!(output_message(&p.payload, Some("f.png")), "✅ <b>Готово!</b>\n📁 Сохранено: <code>f.png</code>");
    assert_eq!(output_message(&p.payload, None), "✅ <b>Готово!</b>\n📁 Сохранено: <code>r1</code>");
    assert!(matches!(Output::temp_resource("r".to_string()).payload, OutputPayload::Resource { resource_id } if resource_id == "r"));
    assert_eq!(BrainError::Io("disk".to_string()).message(), "IO error: disk");
    assert_eq!(BrainError::NotFound("x".to_string()).message(), "Not found: x");
    assert_eq!(BrainError::Classification("c".to_string()).message(), "Classification failed: c");
}

#[test]
fn entry_types_and_names() {
    let all = EntryType::all();
    assert_eq!(all.len(), 16);
    assert_eq!(all[0], EntryType::Idea);
    for i in 0..all.len() {
        for j in (i + 1)..all.len() {
            assert_ne!(all[i], all[j]);
        }
    }
    assert_eq!(EntryType::Finance.label(), "Финансы");
    assert_eq!(Area::GameDev.name(), "GameDev");
    assert_eq!(Area::Custom("Garden".to_string()).name(), "Garden");
    assert_eq!(ParaCategory::Inbox.name(), "Inbox");
}

#[test]
fn config_defaults() {
    assert_eq!(default_ollama_url(), "http://localhost:11434");
    assert_eq!(default_max_tokens(), 512);
    assert_eq!(default_dimension(), 768);
    assert_eq!(default_check_interval(), 60);
    assert!(default_true());
    let v = VaultConfig::default();
    assert_eq!(v.path, "~/Obsidian/Brain");
    assert_eq!(v.para.inbox, "Inbox");
    assert_eq!(DiaryConfig::default().life_expectancy_years, 80);
    assert!(TelegramConfig::default().allowed_users.is_empty());
    assert!(OpenAiConfig::default().model.is_empty());
}

#[test]
fn streaks() {
    assert_eq!(calculate_streak(&[]), 0);
    assert_eq!(calculate_streak(&[true, true, false, true, true, true, false]), 3);
    assert_eq!(calculate_streak(&[false, false]), 0);
    assert_eq!(calculate_streak(&[true]), 1);
    assert!(TrendAnalyzer::too_short_for_trend(2));
    assert!(!TrendAnalyzer::too_short_for_trend(3));
    assert!(InsightEngine::enough_data(7));
    assert!(!InsightEngine::enough_data(6));
    assert_eq!(InsightEngine::sleep_trend_text(TrendDirection::Up), "✅ Качество сна улучшается");
    assert_eq!(events_limit(30), 100);
    assert_eq!(events_limit(12), 300);
    assert_eq!(period_words(365), "этот год");
}

#[test]
fn areas_by_keyword() {
    let (a, c) = HybridAreaDetector::detect_area("Пишу код на RUST");
    assert_eq!(a.name(), "Programming");
    assert_eq!(c, 85);
    let (b, d) = HybridAreaDetector::detect_area("Сдал ЭКЗАМЕН");
    assert_eq!(b.name(), "Education");
    assert_eq!(d, 80);
    let (l, e) = HybridAreaDetector::detect_area("просто день");
    assert_eq!(l.name(), "Life");
    assert_eq!(e, 30);
    assert!(HybridAreaDetector::detect_by_keywords("просто день").is_none());
}

#[test]
fn entities_and_types() {
    let x = HybridEntityExtractor::new();
    let es = x.extract_entities("Docker and Rust, see https://a.b/c and http://x");
    let names: Vec<(String, bool)> = es.into_iter().map(|e| (e.name, e.is_technology)).collect();
    assert_eq!(
        names,
        vec![
            ("rust".to_string(), true),
            ("docker".to_string(), true),
            ("https://a.b/c".to_string(), false),
            ("http://x".to_string(), false),
        ]
    );
    assert_eq!(RuleEngine::entry_type_of_label("habit"), Some(EntryType::Habit));
    assert_eq!(RuleEngine::entry_type_of_label("song"), None);
    let cats = ai_categories();
    assert_eq!(cats.len(), 16);
    assert_eq!(cats[0], "idea");
    assert_eq!(cats[5], "thought");
    assert_eq!(HybridTypeClassifier::type_of_answer("TASK"), EntryType::Task);
    assert_eq!(HybridTypeClassifier::type_of_answer("whatever"), EntryType::Thought);
}

#[test]
fn prompts_and_noop_provider() {
    assert_eq!(
        PromptBuilder::classification_prompt("t", &["a", "b"]),
        "Classify the following text into EXACTLY ONE of these categories: a, b\n\nText: \"t\"\n\nRespond with ONLY a JSON object: {\"category\": \"...\", \"confidence\": 0.0-1.0}\nDo not include markdown wrappers or extra text."
    );
    assert_eq!(
        PromptBuilder::summary_prompt("m"),
        "Summarize the following message in 1-2 clear, direct sentences in the SAME LANGUAGE as the text. Focus on facts and action items without meta-talk:\n\"m\"\n\nRespond with ONLY the summary text."
    );
    assert_eq!(
        PromptBuilder::title_prompt("x", "idea"),
        "Create a short, natural, descriptive title (2-5 words) for this idea entry in the SAME LANGUAGE as the text:\n\"x\"\n\nRespond with ONLY the plain title text. No quotes, no markdown, no prefixes."
    );
    assert!(PromptBuilder::entity_extraction_prompt("x").contains("Text: \"x\""));
    let n = NoopAiProvider;
    assert!(matches!(n.complete("p"), Err(BrainError::Ai(m)) if m == "AI disabled (NoopProvider)"));
    assert!(matches!(n.embed_error(), BrainError::Ai(m) if m == "Embeddings disabled (NoopProvider)"));
}

#[test]
fn gemini_addresses_and_replies() {
    assert_eq!(
        gemini_base("  ", "key"),
        ("https://generativelanguage.googleapis.com/v1beta/openai".to_string(), false)
    );
    assert_eq!(gemini_base("", "AQ.x"), ("https://us-central1-aiplatform.googleapis.com".to_string(), true));
    assert_eq!(gemini_base("https://h/v1//", "k"), ("https://h/v1".to_string(), false));
    assert_eq!(chat_endpoint("https://h/v1"), "https://h/v1/chat/completions");
    assert_eq!(chat_endpoint("https://h"), "https://h/v1/chat/completions");
    assert_eq!(embeddings_endpoint("https://h/openai"), "https://h/openai/embeddings");
    assert_eq!(clean_json_reply("  ```json\n{\"a\":1}\n```  "), "{\"a\":1}");
    assert_eq!(clean_json_reply("```\n[1]\n```"), "[1]");
    assert_eq!(clean_json_reply(" {\"b\":2} "), "{\"b\":2}");
    assert_eq!(clean_json_reply("```json {"), "```json {");
}

#[test]
fn tutor_deck_and_quiz() {
    let bank = default_vocab_bank();
    assert_eq!(bank.len(), 5);
    assert_eq!(bank[2].word, "Pragmatic");
    let t = EnglishTutorEngine::new();
    assert_eq!(t.get_card("v4").map(|c| c.word), Some("Ambiguity".to_string()));
    assert!(t.get_card("v9").is_none());
    let r = t.get_random_card().unwrap();
    assert!(bank.iter().any(|c| c.id == r.id));
    let (card, options) = t.generate_quiz();
    assert_eq!(options.len(), 4);
    assert!(options.contains(&card.translation_ru));
    let empty = EnglishTutorEngine { cards: vec![] };
    assert!(empty.get_random_card().is_none());
}

#[test]
fn tutor_texts_and_buttons() {
    let g = grammar_feedback_fallback("i think so");
    assert!(g.contains("• Capitalize the first letter of your sentence.\n• Add a period (.) or question mark (?) at the end.\n• Always capitalize the personal pronoun 'I'."));
    assert!(grammar_feedback_fallback("All good.").ends_with("✨ *Great job!* Your sentence structure looks clean and natural."));
    assert_eq!(analyze_grammar_offline("   "), "Please type a sentence in English to analyze!");
    assert!(analyze_grammar_offline("  Fine.  ").contains("Sentence: _\"Fine.\"_"));
    assert_eq!(
        tutor_reply_offline(" hi "),
        "🇬🇧 *English Practice Mode*\n\nYou said: \"hi\"\n\nGreat practice! Keep writing sentences in English or try `/grammar hi` for a full structural check."
    );
    let bank = default_vocab_bank();
    let f = flashcard_response(&bank[0]);
    assert!(matches!(&f, PluginResponse::Keyboard { text, options } if text.starts_with("🇬🇧 *English Flashcard*\n\n📖 *Word:* Resilient") && options.len() == 3));
    let q = quiz_response(&bank[0], vec!["x".to_string(), bank[0].translation_ru.clone()]);
    assert!(matches!(&q, PluginResponse::Keyboard { options, .. }
        if options[0].1 == "eng:ans:wrong:Resilient" && options[1].1 == "eng:ans:correct:Resilient"));
    assert_eq!(tutor_callback("eng:ans:correct:Word"), (TutorCallback::Correct, "Word".to_string()));
    assert_eq!(tutor_callback("eng:ans:wrong:W"), (TutorCallback::Wrong, "W".to_string()));
    assert_eq!(tutor_callback("eng:quiz"), (TutorCallback::Quiz, String::new()));
    assert_eq!(tutor_callback("other"), (TutorCallback::Other, String::new()));
    let a = answer_response(false, "W");
    assert!(matches!(&a, PluginResponse::Keyboard { text, options } if text == "❌ *Not quite!* Try again or check the flashcard for *W*." && options[0].1 == "eng:quiz"));
}
