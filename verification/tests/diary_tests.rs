use nodebook::analytics::no_entries_message;
use nodebook::bot::ReviewState;
use nodebook::diary::{
    day_greeting, day_greeting_of, diary_markdown, diary_markdown_of, diary_summary, evening_review_cron, exercise_answer, exercise_step, iso_date_text,
    metric_step, parse_i32, text_step, timezone_offset_hours, weather_city, weather_today_text, weather_tomorrow_text,
    weather_url, DiaryDate, DiaryMetrics, DiaryStep,
};
use nodebook::library::media_counts;
use nodebook::media::MediaItem;

fn date(year: i32, month: u32, day: u32) -> DiaryDate {
    DiaryDate { year, month, day }
}

fn sample() -> DiaryMetrics {
    let mut m = DiaryMetrics::new(date(2024, 5, 7));
    m.day_rating = Some(8);
    m.mood = Some(7);
    m.stress = Some(3);
    m.productivity = Some(9);
    m.sleep_hours = Some("7.5".to_string());
    m.exercise = Some(true);
    m.good_events = Some("Walked\n\n  Read a book  \n".to_string());
    m.bad_events = Some("НЕТ".to_string());
    m.free_thoughts = Some("Fine day".to_string());
    m
}

#[test]
fn time_zones_and_reminder_schedule() {
    assert_eq!(timezone_offset_hours("Asia/Yekaterinburg"), 5);
    assert_eq!(timezone_offset_hours("Asia/Tashkent"), 5);
    assert_eq!(timezone_offset_hours("Asia/Yerevan"), 4);
    assert_eq!(timezone_offset_hours("Europe/Moscow"), 3);
    assert_eq!(timezone_offset_hours("UTC"), 0);
    assert_eq!(timezone_offset_hours("Asia/Almaty"), 5);
    assert_eq!(timezone_offset_hours("Etc/GMT+4"), 4);
    assert_eq!(timezone_offset_hours("Europe/Berlin"), 5);
    assert_eq!(evening_review_cron("21:00", 4), "0 00 17 * * *");
    assert_eq!(evening_review_cron("02:30", 5), "0 30 21 * * *");
    assert_eq!(evening_review_cron("late", 3), "0 00 19 * * *");
    assert_eq!(evening_review_cron("-1:15", 0), "0 15 23 * * *");
    assert_eq!(evening_review_cron("+7:05:00", 0), "0 05 7 * * *");
}

#[test]
fn signed_numbers() {
    assert_eq!(parse_i32("+7"), Some(7));
    assert_eq!(parse_i32("-2147483648"), Some(i32::MIN));
    assert_eq!(parse_i32("2147483647"), Some(i32::MAX));
    assert_eq!(parse_i32("2147483648"), None);
    assert_eq!(parse_i32("-+1"), None);
    assert_eq!(parse_i32("-"), None);
    assert_eq!(parse_i32("12a"), None);
}

#[test]
fn weather_lines() {
    assert_eq!(weather_city("", "Asia/Yekaterinburg"), "Yekaterinburg");
    assert_eq!(weather_city("", "UTC"), "UTC");
    assert_eq!(weather_city("Paris", "Asia/Tokyo"), "Paris");
    assert_eq!(weather_url("New York"), "https://wttr.in/New+York?format=j1&lang=ru");
    assert_eq!(
        weather_today_text(Some("5"), Some("2"), None, Some("Cloudy"), Some("80"), None),
        "5°C (ощущ. 2°C), Cloudy, 💧80%, 💨? км/ч"
    );
    assert_eq!(
        weather_today_text(Some("5"), Some("2"), Some("Облачно"), Some("Cloudy"), Some("80"), Some("7")),
        "5°C (ощущ. 2°C), Облачно, 💧80%, 💨7 км/ч"
    );
    assert_eq!(weather_tomorrow_text(Some((Some("10"), Some("3"), None))), "3..10°C, ?");
    assert_eq!(weather_tomorrow_text(None), "нет данных");
}

#[test]
fn review_steps() {
    assert_eq!(metric_step(ReviewState::AskingMood, false), DiaryStep::EditWithScale);
    assert_eq!(metric_step(ReviewState::AskingSleep, false), DiaryStep::AskAnew);
    assert_eq!(metric_step(ReviewState::AskingExercise, false), DiaryStep::EditWithYesNo);
    assert_eq!(metric_step(ReviewState::AskingBadEvents, false), DiaryStep::AskAnew);
    assert_eq!(metric_step(ReviewState::Complete, true), DiaryStep::Finish);
    assert_eq!(metric_step(ReviewState::Greeting, false), DiaryStep::Wait);
    assert_eq!(exercise_step(ReviewState::AskingGoodEvents, false), DiaryStep::AskAnew);
    assert_eq!(exercise_step(ReviewState::Complete, true), DiaryStep::Finish);
    assert_eq!(text_step(ReviewState::AskingSleep, false), DiaryStep::SendText);
    assert_eq!(text_step(ReviewState::AskingEnergy, false), DiaryStep::SendWithScale);
    assert_eq!(text_step(ReviewState::AskingExercise, false), DiaryStep::SendWithYesNo);
    assert_eq!(text_step(ReviewState::AskingEnergy, true), DiaryStep::Finish);
    assert_eq!(exercise_answer("yes"), "да");
    assert_eq!(exercise_answer("no"), "нет");
}

#[test]
fn dates_in_iso_form() {
    assert_eq!(iso_date_text(&date(2024, 3, 5)), "2024-03-05");
    assert_eq!(iso_date_text(&date(12345, 1, 2)), "+12345-01-02");
    assert_eq!(iso_date_text(&date(-5, 12, 31)), "-0005-12-31");
    assert_eq!(iso_date_text(&date(7, 1, 1)), "0007-01-01");
}

#[test]
fn closing_summary() {
    let rule = "━".repeat(27);
    let expected = format!(
        "{rule}\n\n📋 ИТОГИ ДНЯ — 7 мая 2024\n\n📊 Метрики:\n   📊 День: 8/10  │  😊 Настроение: 7/10\n   ⚡ Энергия: -  │  🎯 Продуктивность: 9/10\n   😰 Стресс: 3/10  │  🔥 Мотивация: -\n   😴 Сон: 7.5 ч  │  🏃 Тренировка: Да\n\n   📈 Среднее: 6.8/10\n\n🌟 Хорошее:\n   • Walked\n   • Read a book\n\n💭 Мысли:\nFine day\n\n{rule}\n\n✅ Запись сохранена в Obsidian\n📁 Daily/2024-05-07.md\n\nСпокойной ночи! 🌙"
    );
    assert_eq!(diary_summary(&sample(), "6.8"), expected);
    let empty = DiaryMetrics::new(date(2023, 12, 31));
    let s = diary_summary(&empty, "0.0");
    assert!(s.contains("   😰 Стресс: -  │  🔥 Мотивация: -\n\n\n   📈 Среднее: 0.0/10\n\n"));
    assert!(s.contains("📋 ИТОГИ ДНЯ — 31 декабря 2023\n"));
}

#[test]
fn daily_note() {
    let expected = "---\ndate: 2024-05-07\nday_rating: 8\nmood: 7\nenergy: 0\nproductivity: 9\nstress: 3\nmotivation: 0\nsleep_hours: 7.5\nexercise: true\naverage: 6.8\ntype: daily\ntags: [дневник, daily, итоги]\ncreated_by: brain-bot\n---\n\n# 📅 7 мая 2024 — Вторник\n\n[[2024-05-06|◄ Вчера]] | **2024-05-07** | [[2024-05-08|Завтра ►]]\n\n## 📊 Метрики\n\n| Метрика | Оценка |\n|---------|--------|\n| ⭐ Оценка дня | 8/10 |\n| 😊 Настроение | 7/10 |\n| 🎯 Продуктивность | 9/10 |\n| 😰 Стресс | 3/10 |\n| 😴 Сон | 7.5 ч |\n| 🏃 Тренировка | Да |\n\n**Среднее: 6.8/10**\n\n---\n\n## 🌟 Хорошее\n\n- Walked\n- Read a book\n\n---\n\n## 😔 Плохое\n\n- _ничего плохого!_ 🎉\n\n---\n\n## 💭 Мысли\n\nFine day\n\n---\n\n## 🏷 Граф и Теги\n#дневник #daily #итоги #brain-os\n";
    assert_eq!(diary_markdown(&sample(), "6.8"), expected);
    let jan = DiaryMetrics::new(date(2024, 1, 1));
    let md = diary_markdown(&jan, "0.0");
    assert!(md.contains("# 📅 1 января 2024 — Понедельник\n\n[[2023-12-31|◄ Вчера]] | **2024-01-01** | [[2024-01-02|Завтра ►]]"));
    assert!(md.contains("sleep_hours: 0\nexercise: false\n"));
    assert!(md.contains("## 🌟 Хорошее\n\n- _нет записей_\n"));
    assert!(md.contains("## 💭 Мысли\n\n_нет записей_\n"));
    let skipped = {
        let mut m = DiaryMetrics::new(date(2024, 2, 29));
        m.free_thoughts = Some("Skip".to_string());
        m
    };
    let md2 = diary_markdown_of(&skipped, "0.0", None, &date(2024, 2, 28), &date(2024, 3, 1));
    assert!(md2.contains("# 📅 29 февраля 2024 — \n\n[[2024-02-28|◄ Вчера]]"));
    assert!(md2.contains("## 💭 Мысли\n\n_пропущено_\n"));
    let invalid = DiaryMetrics::new(date(2023, 2, 30));
    assert!(diary_markdown(&invalid, "0.0").contains("[[2023-02-30|◄ Вчера]] | **2023-02-30** | [[2023-02-30|Завтра ►]]"));
}

fn media(kind: &str) -> MediaItem {
    MediaItem {
        id: kind.to_string(),
        title: String::new(),
        uploader: None,
        media_type: kind.to_string(),
        file_name: String::new(),
        cover_file: None,
        duration_secs: None,
        source_url: String::new(),
        created_at: String::new(),
    }
}

#[test]
fn counts_and_empty_periods() {
    let lib = vec![media("audio"), media("video"), media("audio"), media("photo")];
    assert_eq!(media_counts(&lib), (2, 1));
    assert_eq!(media_counts(&vec![]), (0, 0));
    assert_eq!(no_entries_message(30), "📭 За этот период (30) пока нет сохранённых записей дневника.");
    assert_eq!(no_entries_message(-2), "📭 За этот период (-2) пока нет сохранённых записей дневника.");
}

#[test]
fn evening_greeting() {
    let rule = "━".repeat(27);
    let g = day_greeting(&date(2024, 5, 7), 8895, 20305, "30.5", "5°C", "3..10°C, ?");
    assert_eq!(
        g,
        format!("🌙 Добрый вечер.\n\n{rule}\n\n📅 Сегодня: 7 мая 2024, Вторник\n🔢 Твой 8895-й день жизни\n⏳ Осталось примерно 20305 дней\n📊 Прожито: 30.5% жизни\n\n🌤 Сейчас: 5°C\n🌅 Завтра: 3..10°C, ?\n\n{rule}\n\nГотов к вечернему обзору?")
    );
    assert!(day_greeting_of(&date(2024, 5, 7), Some(6), -1, 0, "0.0", "a", "b").contains("7 мая 2024, Воскресенье\n🔢 Твой -1-й день"));
}
