use nodebook::bot::{answer_request, command_kind, media_request, AnswerRequest, CommandKind, MediaRequest, PluginResponse};
use nodebook::common::{Entity, EntityType, EntryId};
use nodebook::diary::{weather_unavailable, DiaryDate};
use nodebook::fetch::{first_present, JsonField, MediaDownloader};
use nodebook::library::item_files;
use nodebook::media::MediaItem;
use nodebook::web::new_task;
use nodebook::life::{life_stats, life_stats_message};
use nodebook::media::html_escape;
use nodebook::plan::{exit_code_error, file_not_found_error, launch_error, playlist_outcome, playlist_targets};
use nodebook::tutor::{EnglishTutorEngine, VocabCard};

fn day(year: i32, month: u32, day: u32) -> DiaryDate {
    DiaryDate { year, month, day }
}

#[test]
fn life_stats_counts_days() {
    let s = life_stats("2000-01-01", 80, &day(2000, 12, 31)).unwrap();
    assert_eq!(s.birth, (2000, 1, 1));
    assert_eq!(s.days_lived, 365);
    assert_eq!(s.total_days, 29200);
    assert_eq!(s.days_remaining, 28835);
    assert_eq!(s.age_years, 1);
    assert_eq!(s.age_months, 0);
    assert_eq!(s.next_birthday, (2001, 1, 1));
    assert_eq!(s.days_to_birthday, 1);
}

#[test]
fn life_stats_birthday_today_and_months() {
    let s = life_stats("1990-06-15", 70, &day(2020, 6, 15)).unwrap();
    assert_eq!(s.next_birthday, (2020, 6, 15));
    assert_eq!(s.days_to_birthday, 0);
    assert_eq!(s.days_lived, 10958);
    assert_eq!(s.age_years, 30);
    assert_eq!(s.age_months, (10958 % 365) / 30);
}

#[test]
fn life_stats_falls_back_on_bad_birth_date() {
    let s = life_stats("not a date", 80, &day(2010, 1, 24)).unwrap();
    assert_eq!(s.birth, (2009, 1, 24));
    assert_eq!(s.days_lived, 365);
    assert_eq!(s.next_birthday, (2010, 1, 24));
}

#[test]
fn life_stats_leap_day_birthday_in_common_year() {
    let s = life_stats("2000-02-29", 80, &day(2001, 3, 1)).unwrap();
    // 29 February 2001 does not exist: this year's birthday is today.
    assert_eq!(s.next_birthday, (2001, 3, 1));
    assert_eq!(s.days_to_birthday, 0);
}

#[test]
fn life_stats_future_birth_and_bad_today() {
    let s = life_stats("2030-01-01", 1, &day(2029, 12, 31)).unwrap();
    assert_eq!(s.days_lived, -1);
    assert_eq!(s.age_years, 0);
    assert_eq!(s.days_remaining, 366);
    assert!(life_stats("2000-01-01", 80, &day(2001, 2, 30)).is_none());
}

#[test]
fn life_stats_message_text() {
    let s = life_stats("2000-01-01", 80, &day(2000, 12, 31)).unwrap();
    let m = life_stats_message(&s, 80, "1.3", "79.0").unwrap();
    assert_eq!(
        m,
        "⌛ <b>Сухая статистика жизни (Memento Mori)</b>\n\n🎂 <b>Дата рождения:</b> 01.01.2000\n👤 <b>Возраст:</b> 1 лет, 0 мес. (прожито 365 дней)\n📊 <b>Прожито жизни:</b> 1.3% (от 80 лет / 29200 дней)\n⏳ <b>Осталось до 80 лет:</b> 28835 дней (~79.0 лет)\n\n🎉 <b>До следующего Дня Рождения:</b> 1 дней (01.01.2001)"
    );
}

#[test]
fn vaults_command_opens_the_vault_menu() {
    assert_eq!(command_kind("/vaults"), CommandKind::Vault);
    assert_eq!(command_kind("/vault"), CommandKind::Vault);
}

#[test]
fn artist_list_splits_at_feat_with_dot() {
    assert_eq!(MediaDownloader::parse_artist_list("Eminem feat. Rihanna"), vec!["Eminem", "Rihanna"]);
    assert_eq!(MediaDownloader::parse_artist_list("Eminem, Rihanna"), vec!["Eminem", "Rihanna"]);
    assert_eq!(MediaDownloader::parse_artist_list("Eminem & Rihanna"), vec!["Eminem", "Rihanna"]);
    assert_eq!(MediaDownloader::parse_artist_list("Eminem Ft. Rihanna"), vec!["Eminem", "Rihanna"]);
    assert_eq!(MediaDownloader::parse_artist_list("Eminem featuring Rihanna"), vec!["Eminem", "Rihanna"]);
}

fn card(id: &str, tr: &str) -> VocabCard {
    VocabCard {
        id: id.to_string(),
        word: id.to_string(),
        phonetic: String::new(),
        translation_ru: tr.to_string(),
        example_en: String::new(),
        example_ru: String::new(),
        level: "A1".to_string(),
    }
}

#[test]
fn quiz_shows_the_answer_once_among_distractors() {
    let t = EnglishTutorEngine {
        cards: vec![card("a", "A"), card("b", "B"), card("c", "C"), card("d", "D"), card("e", "E")],
    };
    for _ in 0..20 {
        let (c, options) = t.generate_quiz();
        assert_eq!(options.len(), 4);
        assert_eq!(options.iter().filter(|o| **o == c.translation_ru).count(), 1);
        let mut sorted = options.clone();
        sorted.sort();
        sorted.dedup();
        assert_eq!(sorted.len(), 4);
    }
}

#[test]
fn entity_ids_follow_kind_and_name() {
    let e = Entity::new("Space Cowboy", EntityType::Project);
    assert_eq!(e.id, "project_space_cowboy");
    assert_eq!(e.name, "Space Cowboy");
    let c = Entity::new("Big Idea", EntityType::Custom("Theme".to_string()));
    assert_eq!(c.id, "custom(\"theme\")_big_idea");
    assert!(c.aliases.is_empty() && c.tags.is_empty());
}

#[test]
fn entry_ids_compare_by_text() {
    let a = EntryId::from_string("x1".to_string());
    assert!(a == a.clone());
    assert!(a != EntryId::from_string("x2".to_string()));
}

#[test]
fn download_error_texts() {
    assert_eq!(exit_code_error(Some(1)), "Download failed with exit code Some(1)");
    assert_eq!(exit_code_error(Some(-2)), "Download failed with exit code Some(-2)");
    assert_eq!(exit_code_error(None), "Download failed with exit code None");
    assert_eq!(launch_error("not found"), "yt-dlp executable error: not found");
    assert_eq!(file_not_found_error(), "Downloaded file not found on disk");
}

#[test]
fn weather_unavailable_lines() {
    let (a, b) = weather_unavailable();
    assert_eq!(a, "не удалось получить");
    assert_eq!(b, "не удалось получить");
}

#[test]
fn plugin_answer_requests() {
    assert!(matches!(answer_request(PluginResponse::Handled), AnswerRequest::Nothing));
    assert!(matches!(answer_request(PluginResponse::Ignored), AnswerRequest::Nothing));
    assert!(matches!(answer_request(PluginResponse::Error("bad".to_string())), AnswerRequest::Message(m) if m == "❌ bad"));
    assert!(matches!(answer_request(PluginResponse::Text("hi".to_string())), AnswerRequest::Message(m) if m == "hi"));
    assert!(matches!(media_request("/x/a.mp3", false, None), MediaRequest::Missing(m) if m == "❌ Медиа файл не найден: /x/a.mp3"));
    assert!(matches!(media_request("/x/a.mp3", true, Some(60 * 1024 * 1024)), MediaRequest::TooLarge(m) if m.starts_with("⚠️ <b>Файл скачан на сервер (60 MB)")));
    assert!(matches!(media_request("/x/a.mp3", true, Some(10)), MediaRequest::Audio));
    assert!(matches!(media_request("/x/a.mp4", true, None), MediaRequest::Video));
}

#[test]
fn escaped_text_reads_back() {
    let s = "a < b && c > \"d\"";
    let e = html_escape(s);
    assert_eq!(e, "a &lt; b &amp;&amp; c &gt; &quot;d&quot;");
    let back = e.replace("&lt;", "<").replace("&gt;", ">").replace("&quot;", "\"").replace("&amp;", "&");
    assert_eq!(back, s);
}

#[test]
fn first_of_all_links_is_the_link() {
    let t = "see https://youtu.be/abc and https://open.spotify.com/track/x and https://youtu.be/abc";
    let all = MediaDownloader::detect_all_urls(t);
    let one = MediaDownloader::detect_url(t).unwrap();
    assert_eq!(all[0].0, one.0);
    assert_eq!(all.len(), 2);
}

#[test]
fn playlist_closing_rules() {
    assert_eq!(playlist_targets("https://x/list", vec![]), vec!["https://x/list".to_string()]);
    assert_eq!(playlist_targets("https://x/list", vec!["a".to_string(), "b".to_string()]), vec!["a", "b"]);
    assert_eq!(playlist_outcome::<u8>(vec![]), Err("Failed to download playlist tracks".to_string()));
    assert_eq!(playlist_outcome(vec![1u8, 2]), Ok(vec![1, 2]));
}

#[test]
fn first_present_field_wins() {
    let t = |s: &str| JsonField::Text(s.to_string());
    assert_eq!(first_present(vec![JsonField::Absent, t("chan"), t("art")]), Some("chan".to_string()));
    assert_eq!(first_present(vec![JsonField::NotText, t("chan")]), None);
    assert_eq!(first_present(vec![JsonField::Absent, JsonField::Absent]), None);
    assert_eq!(first_present(vec![t("up"), t("chan")]), Some("up".to_string()));
}

#[test]
fn files_of_a_deleted_item() {
    let it = MediaItem {
        id: "a".to_string(),
        title: "A".to_string(),
        uploader: None,
        media_type: "audio".to_string(),
        file_name: "/srv/dl/a.mp3".to_string(),
        cover_file: Some("../covers/a.jpg".to_string()),
        duration_secs: None,
        source_url: "local".to_string(),
        created_at: "2024-01-01 10:00".to_string(),
    };
    assert_eq!(item_files(&it), vec!["a.mp3", "a.jpg"]);
}

#[test]
fn task_steps_keep_other_fields() {
    let mut t = new_task("t9", "https://youtu.be/x");
    t.track_started(0, 2, "Song", "Artist");
    t.track_finished();
    assert_eq!(t.current_track.as_deref(), Some("Song"));
    assert_eq!(t.task_id, "t9");
    assert_eq!(t.completed_tracks, 1);
    assert!(t.items.is_empty());
}
