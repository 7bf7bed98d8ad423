use nodebook::bot::{
    analytics_action, callback_route, city_urlencode, clipped, command_kind, count_wikilinks, first_arg,
    flatten_into, format_vault_menu, graph_report, ingest_reply, insight_title, is_allowed, is_audio_file,
    main_menu_labels, metric_question_text, needs_scale_keyboard, no_today_message, parse_callback,
    parse_command, period_message, photo_albums, plugin_command, rank_tags, route_message, russian_month,
    russian_weekday, saved_insight_body, scale_keyboard, search_results_message, tally_tags, tg_escape,
    too_large_message, unknown_command_message, vault_menu_keyboard, word_tag, AnalyticsAction,
    CallbackRoute, CommandKind, DialogKind, MessageRoute, PluginResponse, ReviewState, StateManager,
    VaultEntry, VaultRegistry, Weekday,
};

#[test]
fn state_manager_set_get_reset() {
    let mut m: StateManager<u32> = StateManager::new();
    assert_eq!(m.get(1), None);
    m.set(1, 10);
    m.set(2, 20);
    m.set(1, 11);
    assert_eq!(m.get(1), Some(&11));
    assert_eq!(m.get(2), Some(&20));
    m.reset(1);
    assert_eq!(m.get(1), None);
    assert_eq!(m.get(2), Some(&20));
}

#[test]
fn allow_list_and_routing() {
    assert!(!is_allowed(&[], 5));
    assert!(is_allowed(&[3, 5], 5));
    assert!(!is_allowed(&[3], 5));
    assert_eq!(route_message("hi", &[1], 2, DialogKind::Idle), MessageRoute::Denied);
    assert_eq!(route_message("hi", &[], 2, DialogKind::Idle), MessageRoute::Denied);
    assert_eq!(route_message("📖 Дневник дня", &[1], 1, DialogKind::Idle), MessageRoute::Diary);
    assert_eq!(route_message("/analytics", &[1], 1, DialogKind::Idle), MessageRoute::AnalyticsMenu);
    assert_eq!(route_message("/stats", &[1], 1, DialogKind::Idle), MessageRoute::Command);
    assert_eq!(route_message("hello", &[1], 1, DialogKind::DiaryReview), MessageRoute::DiaryAnswer);
    assert_eq!(route_message("hello", &[1], 1, DialogKind::WaitingForSearch), MessageRoute::SearchQuery);
    assert_eq!(route_message("hello", &[1], 1, DialogKind::Editing), MessageRoute::AppendToEntry);
    assert_eq!(route_message("hello", &[1], 1, DialogKind::Idle), MessageRoute::Ingest);
}

#[test]
fn commands_are_parsed() {
    assert_eq!(parse_command("/search@my_bot  rust   verus "), ("/search".to_string(), "rust verus".to_string()));
    assert_eq!(parse_command(""), (String::new(), String::new()));
    assert_eq!(command_kind("/base"), CommandKind::Vault);
    assert_eq!(command_kind("/rm"), CommandKind::Delete);
    assert_eq!(command_kind("/weather"), CommandKind::Other);
    assert_eq!(first_arg("  abc def"), Some("abc".to_string()));
    assert_eq!(first_arg("   "), None);
    assert_eq!(plugin_command("//weather", "Moscow  today"), ("weather".to_string(), vec!["Moscow".to_string(), "today".to_string()]));
    assert_eq!(
        unknown_command_message("/x"),
        "❓ <b>Неизвестная команда:</b> <code>/x</code>\n\nИспользуйте /help для просмотра списка команд."
    );
}

#[test]
fn escaping_and_clipping() {
    assert_eq!(tg_escape("a<b>&\"c\""), "a&lt;b&gt;&amp;\"c\"");
    let long: String = std::iter::repeat('x').take(3600).collect();
    let c = clipped(&long, "!");
    assert_eq!(c.chars().count(), 3501);
    assert!(c.ends_with("x!"));
    assert_eq!(clipped("<", "!"), "&lt;");
    assert_eq!(
        no_today_message("2024-01-02"),
        "📭 Записи за сегодня (2024-01-02) пока нет.\n\nПросто отправьте сообщение, и оно сохранится!"
    );
}

#[test]
fn search_answer_lists_ten_hits() {
    assert_eq!(search_results_message("q", &vec![]), "🔍 По запросу «<b>q</b>» ничего не найдено.");
    let hits: Vec<(String, String)> = (0..12).map(|i| (format!("t{}", i), format!("s{}", i))).collect();
    let m = search_results_message("q", &hits);
    assert!(m.starts_with("🔍 <b>Результаты поиска («q»):</b>\n\n1. 📌 <b>t0</b>\n   <i>s0</i>\n\n"));
    assert!(m.ends_with("10. 📌 <b>t9</b>\n   <i>s9</i>\n\n"));
    assert!(!m.contains("t10"));
}

#[test]
fn callbacks_split_and_route() {
    assert_eq!(parse_callback("analytics:menu:ai"), Some(("analytics".to_string(), "menu:ai".to_string())));
    assert_eq!(parse_callback("plain"), None);
    assert_eq!(callback_route("metric"), CallbackRoute::Diary);
    assert_eq!(callback_route("path"), CallbackRoute::Path);
    assert_eq!(callback_route("other"), CallbackRoute::Unknown);
    assert_eq!(analytics_action("week"), AnalyticsAction::Period(7));
    assert_eq!(analytics_action("all"), AnalyticsAction::Period(9999));
    assert_eq!(analytics_action("ai_insights:30"), AnalyticsAction::Insights(30));
    assert_eq!(analytics_action("ai_insights:ai_insights:365"), AnalyticsAction::Insights(365));
    assert_eq!(analytics_action("ai_insights:x"), AnalyticsAction::Insights(7));
    assert_eq!(analytics_action("menu:viz"), AnalyticsAction::VizMenu);
    assert_eq!(analytics_action("zzz"), AnalyticsAction::Nothing);
}

#[test]
fn keyboards_and_menu() {
    let k = scale_keyboard("metric:mood");
    assert_eq!(k.len(), 2);
    assert_eq!(k[0][0], ("1".to_string(), "metric:mood:1".to_string()));
    assert_eq!(k[1][4], ("10".to_string(), "metric:mood:10".to_string()));
    let m = main_menu_labels(true);
    assert_eq!(m.len(), 4);
    assert_eq!(m[0], vec!["📱 Запустить Web App".to_string()]);
    assert_eq!(main_menu_labels(false).len(), 3);
}

fn registry() -> VaultRegistry {
    VaultRegistry {
        vaults: vec![
            VaultEntry { id: "base_1".to_string(), name: "Main".to_string(), path: "./v/1".to_string() },
            VaultEntry { id: "base_2".to_string(), name: "Work".to_string(), path: "./v/2".to_string() },
            VaultEntry { id: "base_3".to_string(), name: "Misc".to_string(), path: "./v/3".to_string() },
        ],
        active_vault_id: "base_2".to_string(),
    }
}

#[test]
fn vault_menu_text_and_buttons() {
    let reg = registry();
    let kb = vault_menu_keyboard(&reg);
    assert_eq!(kb.len(), 3);
    assert_eq!(kb[1].len(), 2);
    assert_eq!(kb[1][1], ("✅ Work".to_string(), "vault:switch:base_2".to_string()));
    assert_eq!(kb[2], vec![("📁 Misc".to_string(), "vault:switch:base_3".to_string())]);
    let text = format_vault_menu(&reg);
    assert!(text.contains("📍 <b>Активная база:</b> <code>Work</code>\n📂 <b>Путь на диске:</b> <code>./v/2</code>"));
    assert!(text.contains("(3):</b>\n• <b>Main</b> — <code>./v/1</code>\n• <b>Work</b> (активна) — <code>./v/2</code>\n"));
}

#[test]
fn insight_texts() {
    assert_eq!(period_message(30, "R"), "🗓 <b>Аналитика за 30 дней:</b>\n\nR");
    assert_eq!(insight_title(9999, "2024-01-01"), "AI Insight (All Time) 2024-01-01");
    assert_eq!(insight_title(7, "2024-01-01"), "AI Insight (7 Days) 2024-01-01");
    assert_eq!(saved_insight_body("---\na: 1\n---\n# T\n\n body \n", "T"), "body");
    assert_eq!(saved_insight_body("x\n---\n  rest ", "T"), "rest");
    assert_eq!(saved_insight_body("plain", "T"), "plain");
}

#[test]
fn ingest_replies() {
    assert_eq!(ingest_reply(None), "✅ Принято в обработку.");
    let tags = vec!["a".to_string(), "b".to_string()];
    assert_eq!(ingest_reply(Some(("Sum", &tags))), "✅ Записано.\nSum\n🏷 a, b");
    assert_eq!(ingest_reply(Some(("", &vec![]))), "✅ Записано.\nОжидает анализ...");
}

#[test]
fn batches_are_flattened_in_order() {
    let r = PluginResponse::Batch(vec![
        PluginResponse::Text("a".to_string()),
        PluginResponse::Batch(vec![PluginResponse::Handled, PluginResponse::Error("e".to_string())]),
        PluginResponse::Batch(vec![]),
        PluginResponse::Ignored,
    ]);
    let mut out = vec![PluginResponse::Text("first".to_string())];
    flatten_into(r, &mut out);
    assert_eq!(out.len(), 5);
    assert!(matches!(&out[0], PluginResponse::Text(t) if t == "first"));
    assert!(matches!(&out[1], PluginResponse::Text(t) if t == "a"));
    assert!(matches!(&out[2], PluginResponse::Handled));
    assert!(matches!(&out[3], PluginResponse::Error(e) if e == "e"));
    assert!(matches!(&out[4], PluginResponse::Ignored));
    assert!(!out.iter().any(|x| matches!(x, PluginResponse::Batch(_))));
}

#[test]
fn files_and_albums() {
    assert!(is_audio_file("a/b.m4a"));
    assert!(!is_audio_file("a/b.mp4"));
    assert_eq!(
        too_large_message(60 * 1048576 + 5, "/tmp/x"),
        "⚠️ <b>Файл скачан на сервер (60 MB)</b>, но превышает лимит загрузки Telegram Bot API (50 MB).\n\n📁 <b>Путь:</b> <code>/tmp/x</code>"
    );
    let paths: Vec<String> = (0..23).map(|i| format!("p{}", i)).collect();
    let albums = photo_albums(&paths, &Some("cap".to_string()));
    assert_eq!(albums.len(), 3);
    assert_eq!(albums[0].len(), 10);
    assert_eq!(albums[2].len(), 3);
    assert_eq!(albums[0][0], ("p0".to_string(), Some("cap".to_string())));
    assert_eq!(albums[0][1].1, None);
    assert_eq!(albums[1][0], ("p10".to_string(), None));
    assert_eq!(albums[2][2].0, "p22");
    assert!(photo_albums(&vec![], &None).is_empty());
}

#[test]
fn diary_words() {
    assert_eq!(russian_month(3), "марта");
    assert_eq!(russian_month(13), "");
    assert_eq!(russian_weekday(Weekday::Sun), "Воскресенье");
    assert_eq!(metric_question_text(ReviewState::AskingMood), "😊 Настроение?");
    assert_eq!(metric_question_text(ReviewState::Greeting), "");
    assert!(needs_scale_keyboard(ReviewState::AskingStress));
    assert!(!needs_scale_keyboard(ReviewState::AskingSleep));
    assert_eq!(city_urlencode("New York/NY"), "New+York%2FNY");
}

#[test]
fn vault_graph_counts_and_ranks() {
    assert_eq!(count_wikilinks("[[a]] and [[b]] [[[c]]"), 3);
    assert_eq!(word_tag("#Rust,"), Some("rust".to_string()));
    assert_eq!(word_tag("#"), None);
    assert_eq!(word_tag("#!!"), None);
    assert_eq!(word_tag("word"), None);
    let mut tally: Vec<(String, usize)> = Vec::new();
    tally_tags(&mut tally, "#a #b text #a");
    tally_tags(&mut tally, "#c #b #b");
    assert_eq!(
        tally,
        vec![("a".to_string(), 2), ("b".to_string(), 3), ("c".to_string(), 1)]
    );
    let ranked = rank_tags(&tally);
    assert_eq!(ranked, vec![("b".to_string(), 3), ("a".to_string(), 2), ("c".to_string(), 1)]);
    let r = graph_report(4, 9, &tally);
    assert_eq!(
        r,
        "📄 Всего Markdown заметок: <b>4</b>\n🔗 Всего связей между заметками ([[ссылок]]): <b>9</b>\n🏷 Уникальных тегов: <b>3</b>\n\n🔥 <b>Топ тегов:</b>\n#b (3), #a (2), #c (1)"
    );
    assert!(graph_report(0, 0, &vec![]).ends_with("<i>теги не найдены</i>"));
}
