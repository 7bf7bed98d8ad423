use nodebook::ai::{
    api_error, classification_fallback, direct_classify_prompt, empty_reply_error, exact_category, ollama_url,
    openai_chat_url, openai_embeddings_url, vertex_location, vertex_url, AiService, CheckedService,
};
use nodebook::bot::{
    analytics_menu_text, append_reply, command_error_message, command_usage, deleted_message, graph_message,
    help_message, missing_media_message, playlist_found_message, rebuild_started_message, send_error_message,
    stats_message, vault_action, vault_created_message, vault_name_input, vault_rename_prompt, vault_renamed_message,
    vault_switched_message, webapp_message, AnalyticsAction, CommandKind, SentMedia, VaultAction, VaultEntry,
    VaultRegistry,
};
use nodebook::charts::{activity_color, calendar_cells, calendar_title};
use nodebook::common::BrainError;
use nodebook::library::{cover_request, find_by_file_name, items_of_kind};
use nodebook::media::{InfoResponse, MediaFilterMode, MediaItem, Quality, QualityIds, QualityOption, UiBuilder};
use nodebook::plan::{auto_download, unknown_download_item, AutoDownload};
use nodebook::tutor::{
    grammar_ai_reply, grammar_prompt, grammar_usage, tutor_command, tutor_intro, tutor_prompt, TutorPlan,
};
use nodebook::web::tunnel_url;

fn item(id: &str, kind: &str, cover: Option<&str>) -> MediaItem {
    MediaItem {
        id: id.to_string(),
        title: id.to_uppercase(),
        uploader: None,
        media_type: kind.to_string(),
        file_name: format!("{}.bin", id),
        cover_file: cover.map(|c| c.to_string()),
        duration_secs: None,
        source_url: String::new(),
        created_at: String::new(),
    }
}

#[test]
fn command_replies() {
    assert!(help_message().starts_with("📋 <b>Полный справочник возможностей системы:</b>\n\n"));
    assert!(webapp_message(true).starts_with("📱 <b>NodeBook Web App & Mini App</b>"));
    assert!(webapp_message(false).contains("<code>/app</code> через пару секунд"));
    assert_eq!(command_usage(CommandKind::Delete), "Укажите ID или путь: <code>/delete &lt;id_or_path&gt;</code>");
    assert_eq!(command_usage(CommandKind::Help), "");
    assert_eq!(command_error_message(CommandKind::Search, "x"), "❌ Ошибка поиска: x");
    assert_eq!(command_error_message(CommandKind::Rebuild, "x"), "Ошибка при ребилде: x");
    assert_eq!(command_error_message(CommandKind::Other, "x"), "❌ Ошибка: x");
    assert_eq!(rebuild_started_message("e1"), "Событие e1 отправлено на повторную обработку.");
    assert_eq!(deleted_message("n1"), "Запись 'n1' успешно удалена из всех баз данных и хранилищ.");
    assert_eq!(
        stats_message("L", 42, "/v"),
        "L\n\n📝 <b>Всего заметок в вашей базе Obsidian:</b> 42\n📁 <b>Путь к хранилищу:</b> <code>/v</code>\n\n💡 <i>Для детального анализа записей, настроения и графа связей нажмите кнопку <b>«📊 Аналитика»</b>.</i>"
    );
}

#[test]
fn analytics_and_media_replies() {
    assert_eq!(analytics_menu_text(AnalyticsAction::StatsMenu), "📈 <b>Статистика:</b>\nВыберите период:");
    assert_eq!(analytics_menu_text(AnalyticsAction::Graph), "");
    assert_eq!(graph_message("R"), "🕸 <b>Структура Графа Знаний Obsidian:</b>\n\nR");
    assert_eq!(append_reply(false, Some("e")), "❌ Исходная запись не найдена.");
    assert_eq!(append_reply(true, Some("e")), "❌ Ошибка при дополнении: e");
    assert_eq!(append_reply(true, None), "✅ Запись успешно дополнена!");
    assert_eq!(send_error_message(SentMedia::Slideshow, "e"), "❌ Ошибка отправки слайдшоу: e");
    assert_eq!(missing_media_message("/p"), "❌ Медиа файл не найден: /p");
    assert_eq!(playlist_found_message(7), "⏳ Найдено <b>7</b> треков в плейлисте. Отправляю...");
}

fn registry() -> VaultRegistry {
    VaultRegistry {
        vaults: vec![VaultEntry { id: "b1".to_string(), name: "Main".to_string(), path: "./v/1".to_string() }],
        active_vault_id: "b1".to_string(),
    }
}

#[test]
fn vault_management() {
    assert!(matches!(vault_action("create"), VaultAction::Create));
    assert!(matches!(vault_action("switch:switch:b2"), VaultAction::Switch(id) if id == "b2"));
    assert!(matches!(vault_action("other"), VaultAction::Nothing));
    assert!(vault_rename_prompt(&registry()).contains("Текущее название: <b>Main</b>"));
    let none = VaultRegistry { vaults: vec![], active_vault_id: "x".to_string() };
    assert!(vault_rename_prompt(&none).contains("<b>base_1</b>"));
    assert_eq!(vault_name_input("   "), None);
    assert_eq!(vault_name_input("  Work  "), Some("Work".to_string()));
    assert_eq!(
        vault_switched_message("Work", "./v/2"),
        "🔄 <b>База переключена!</b>\nТеперь активное хранилище: <b>Work</b> (<code>./v/2</code>)"
    );
    assert!(vault_created_message(&registry().vaults[0]).ends_with("📂 <b>Путь:</b> <code>./v/1</code>"));
    assert_eq!(vault_renamed_message(false, "x"), "❌ Не удалось переименовать хранилище.");
    assert_eq!(vault_renamed_message(true, "W"), "✅ <b>Хранилище переименовано в «W»!</b>");
}

#[test]
fn ai_services() {
    assert_eq!(openai_chat_url("https://api.openai.com"), "https://api.openai.com/v1/chat/completions");
    assert_eq!(openai_embeddings_url("http://h"), "http://h/v1/embeddings");
    assert_eq!(ollama_url("http://localhost:11434", true), "http://localhost:11434/api/embed");
    assert_eq!(ollama_url("http://localhost:11434", false), "http://localhost:11434/api/generate");
    let (loc, project) = vertex_location();
    assert_eq!(
        vertex_url(loc, project, "gemini-2.0", "K", false),
        "https://us-central1-aiplatform.googleapis.com/v1/projects/568759207413/locations/us-central1/publishers/google/models/gemini-2.0:generateContent?key=K"
    );
    assert!(vertex_url(loc, project, "emb", "K", true).ends_with("/models/emb:predict?key=K"));
    assert!(matches!(api_error(CheckedService::Gemini, "500", "oops"), BrainError::Ai(m) if m == "Gemini API error 500: oops"));
    assert!(matches!(empty_reply_error(AiService::OllamaEmbeddings), BrainError::Embedding(m) if m == "Empty embedding"));
    assert!(matches!(empty_reply_error(AiService::Vertex), BrainError::Ai(m) if m == "Empty candidates in Vertex AI response"));
}

#[test]
fn classification_replies() {
    let cats = ["idea", "task", "Goal"];
    assert_eq!(
        direct_classify_prompt("t", &cats),
        "Classify the following text into one of these categories: [\"idea\", \"task\", \"Goal\"]\n\nText: t\n\nReturn only the category name."
    );
    assert_eq!(exact_category("  task \n", &cats), Some(1));
    assert_eq!(exact_category("goal", &cats), None);
    assert_eq!(classification_fallback("I think it's a GOAL really", &cats).ok(), Some(2));
    assert_eq!(classification_fallback("a task or an idea", &cats).ok(), Some(0));
    assert!(matches!(classification_fallback("nothing", &cats), Err(BrainError::Ai(m)) if m == "Cannot parse AI response: nothing"));
}

#[test]
fn calendar_layout() {
    assert_eq!(calendar_title(2024, 5), "2024-05 Activity");
    assert_eq!(calendar_title(-7, 12), "-007-12 Activity");
    assert_eq!(activity_color(0), (50, 50, 50));
    assert_eq!(activity_color(3), (0, 100, 0));
    assert_eq!(activity_color(7), (0, 150, 0));
    assert_eq!(activity_color(8), (0, 200, 0));
    let cells = calendar_cells(2, &vec![0, 5, 9, 1, 1, 1, 1]);
    assert_eq!(cells.len(), 7);
    assert_eq!((cells[0].day, cells[0].x, cells[0].y), (1, 250, 100));
    assert_eq!((cells[4].day, cells[4].x, cells[4].y), (5, 650, 100));
    assert_eq!((cells[5].day, cells[5].x, cells[5].y), (6, 50, 180));
    assert_eq!(cells[2].color, (0, 200, 0));
}

#[test]
fn tunnel_addresses() {
    assert_eq!(
        tunnel_url("2024 INF |  https://abc-def.trycloudflare.com  |"),
        Some("https://abc-def.trycloudflare.com".to_string())
    );
    assert_eq!(tunnel_url("see https://x.trycloudflare.com+more"), Some("https://x.trycloudflare.com".to_string()));
    assert_eq!(tunnel_url("https://trycloudflare.com/docs"), None);
    assert_eq!(tunnel_url("no tunnel here https://a.b"), None);
    assert_eq!(tunnel_url("trycloudflare.com without link"), None);
}

#[test]
fn library_queries() {
    let lib = vec![item("a", "audio", Some("a.jpg")), item("v", "video", None), item("b", "audio", None)];
    assert_eq!(cover_request(&lib, "a"), Some("a.jpg".to_string()));
    assert_eq!(cover_request(&lib, "v"), None);
    assert_eq!(cover_request(&lib, "default"), None);
    assert_eq!(cover_request(&lib, "zz"), None);
    assert_eq!(find_by_file_name(&lib, "b.bin").map(|i| i.id.clone()), Some("b".to_string()));
    assert!(find_by_file_name(&lib, "q.bin").is_none());
    let audio = items_of_kind(lib, "audio");
    assert_eq!(audio.iter().map(|i| i.id.as_str()).collect::<Vec<_>>(), vec!["a", "b"]);
}

#[test]
fn single_link_downloads() {
    assert_eq!(auto_download("https://pin.it/x", false), (true, AutoDownload::Generic(Quality::Best)));
    assert_eq!(auto_download("https://open.spotify.com/track/1", true), (false, AutoDownload::SpotifyTrack));
    assert_eq!(auto_download("https://youtu.be/1", true), (false, AutoDownload::Generic(Quality::AudioBest)));
    let it = unknown_download_item("id9", true, "f.mp3", "https://u", "2024-01-01 10:00");
    assert_eq!(it.title, "Media");
    assert_eq!(it.media_type, "audio");
}

fn ids() -> QualityIds {
    QualityIds {
        video_360p: "360".to_string(),
        video_480p: "480".to_string(),
        video_720p: "720".to_string(),
        video_1080p: "1080".to_string(),
        video_1440p: "1440".to_string(),
        video_4k: "4k".to_string(),
        best: "best".to_string(),
        audio_128: "a128".to_string(),
        audio_256: "a256".to_string(),
        audio_best: "abest".to_string(),
    }
}

fn opt(q: Quality) -> QualityOption {
    QualityOption {
        quality: q,
        filesize_bytes: None,
        estimated_secs: None,
        speed_category: String::new(),
        display_label: String::new(),
        full_button_label: String::new(),
    }
}

fn info(playlist: bool, count: Option<u32>, qs: Vec<QualityOption>) -> InfoResponse {
    InfoResponse {
        title: "T".to_string(),
        uploader: None,
        thumbnail: None,
        duration_secs: None,
        available_qualities: qs,
        is_playlist: playlist,
        playlist_count: count,
        playlist_urls: vec![],
        error: None,
    }
}

#[test]
fn download_buttons_of_a_link() {
    let pl = info(true, Some(12), vec![opt(Quality::AudioBest)]);
    assert_eq!(
        UiBuilder::build_quality_options(&pl, "k", MediaFilterMode::All, &ids()),
        vec![("📥 Скачать плейлист (12)".to_string(), "mldl:abest:k".to_string())]
    );
    let pv = info(true, None, vec![opt(Quality::Video720p)]);
    assert_eq!(
        UiBuilder::build_quality_options(&pv, "k", MediaFilterMode::VideoOnly, &ids()),
        vec![("📹 Скачать видео-плейлист (0)".to_string(), "mldl:720:k".to_string())]
    );
    let single = info(false, None, vec![opt(Quality::Video1080p), opt(Quality::Audio128)]);
    assert_eq!(
        UiBuilder::build_quality_options(&single, "k", MediaFilterMode::All, &ids()),
        vec![
            ("1080p".to_string(), "mldl:1080:k".to_string()),
            ("🎵 MP3 (128k)".to_string(), "mldl:a128:k".to_string()),
        ]
    );
    let audio_fallback = UiBuilder::build_quality_options(&info(false, None, vec![opt(Quality::Best)]), "k", MediaFilterMode::AudioOnly, &ids());
    assert_eq!(audio_fallback.len(), 3);
    assert_eq!(audio_fallback[0], ("🎵 MP3 (Лучшее)".to_string(), "mldl:abest:k".to_string()));
}

#[test]
fn tutor_commands() {
    assert!(matches!(tutor_command("quiz", &vec![]), TutorPlan::Quiz));
    assert!(matches!(tutor_command("eng", &vec!["quiz".to_string()]), TutorPlan::Quiz));
    assert!(matches!(tutor_command("vocab", &vec!["x".to_string()]), TutorPlan::Flashcard));
    assert!(matches!(tutor_command("grammar", &vec!["I".to_string(), "has".to_string()]), TutorPlan::Grammar(t) if t == "I has"));
    assert!(matches!(tutor_command("practice", &vec![]), TutorPlan::Tutor(t) if t.is_empty()));
    assert!(matches!(tutor_command("dl", &vec![]), TutorPlan::Ignored));
    assert!(grammar_usage().starts_with("📝 *Gemini Grammar Analyzer*"));
    assert!(tutor_intro().contains("`/tutor <message>`"));
}

#[test]
fn grammar_prompt_quotes_the_sentence() {
    let p = grammar_prompt("I has a cat.");
    assert!(p.starts_with("You are an expert English language tutor. Analyze this sentence written by a student: \"I has a cat.\".\n\n"));
    assert!(p.ends_with("4. Two more natural native phrasing alternatives.\n\nFormat with clean markdown."));
}

#[test]
fn grammar_ai_reply_frames_the_answer() {
    assert_eq!(
        grammar_ai_reply("I has a cat.", "Use 'have'."),
        "📝 *Gemini AI Grammar Tutor*\n\nSentence: _\"I has a cat.\"_\n\nUse 'have'."
    );
}

#[test]
fn tutor_prompt_quotes_the_message() {
    let p = tutor_prompt("Hello there");
    assert!(p.starts_with("You are a friendly, highly encouraging English conversation tutor. The student says: \"Hello there\".\n\nRespond as an AI tutor:\n1. "));
    assert!(p.ends_with("3. Add a short Russian translation note at the bottom for tricky words."));
}
