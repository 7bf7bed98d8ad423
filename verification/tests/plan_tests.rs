use nodebook::bot::PluginResponse;
use nodebook::fetch::{MediaType, Platform};
use nodebook::media::{MediaItem, Quality};
use nodebook::plan::{
    audio_link, caption, combine_answers, cover_file_match, direct_audio_match, direct_targets,
    download_args, download_button, download_failed_message, download_file_match, download_names,
    downloaded_item, may_be_gallery, media_command, playlist_done_message, playlist_message_link,
    playlist_start_message, spotify_fallback_target, stream_caption, MediaCommandPlan,
};

fn song() -> MediaItem {
    MediaItem {
        id: "abc".to_string(),
        title: "A & B".to_string(),
        uploader: None,
        media_type: "audio".to_string(),
        file_name: "abc.mp3".to_string(),
        cover_file: None,
        duration_secs: Some(61),
        source_url: "https://x".to_string(),
        created_at: "now".to_string(),
    }
}

#[test]
fn link_kinds() {
    assert!(audio_link(Platform::Spotify, MediaType::Video));
    assert!(audio_link(Platform::YouTube, MediaType::Audio));
    assert!(!audio_link(Platform::YouTube, MediaType::Video));
    assert!(playlist_message_link("https://youtube.com/watch?v=1&list=PL", MediaType::Video));
    assert!(!playlist_message_link("https://youtube.com/watch?v=1", MediaType::Video));
    assert!(may_be_gallery(Platform::TikTok));
    assert!(!may_be_gallery(Platform::Pinterest));
}

#[test]
fn captions() {
    let s = song();
    assert_eq!(
        caption(&s, true, Some((2, 5))),
        "🎵 <b>[2/5] A &amp; B</b>\n👤 <i>Неизвестен</i>\n💾 Сохранено в медиатеку Web Player"
    );
    assert_eq!(caption(&s, false, None), "📹 <b>A &amp; B</b>\n⚡ Скачано в максимальном качестве");
    assert_eq!(
        stream_caption(&s, 1, 3),
        "🎵 <b>[1/3] A &amp; B</b>\n👤 <i>Неизвестен</i>\n💾 Сохранено в медиатеку"
    );
    assert_eq!(
        playlist_start_message("<Mix>", 12),
        "⏳ <b>Плейлист: &lt;Mix&gt;</b>\nОбнаружено <b>12</b> треков. Начинаю последовательную загрузку..."
    );
    assert_eq!(
        playlist_done_message("Mix", 10, 12),
        "✅ <b>Плейлист «Mix» успешно загружен!</b>\nСкачано <b>10 из 12</b> треков. Все треки доступны в Web Player."
    );
}

#[test]
fn names_and_arguments() {
    let n = download_names("https://soundcloud.com/a/b", Quality::Best, "id1");
    assert!(n.is_audio);
    assert_eq!(n.template, "id1.%(ext)s");
    assert_eq!(n.expected, "id1.mp3");
    assert_eq!(n.cover, "id1.jpg");
    let v = download_names("https://youtu.be/x", Quality::Video720p, "id2");
    assert!(!v.is_audio);
    assert_eq!(v.expected, "id2.mp4");
    let args = download_args("t.%(ext)s", true, false, "best", "https://youtu.be/x");
    assert_eq!(
        args,
        vec![
            "-o", "t.%(ext)s", "--no-playlist", "--no-warnings", "--extractor-args",
            "youtube:player_client=ios,android,web", "--write-thumbnail", "--convert-thumbnails", "jpg", "-f",
            "best", "--", "https://youtu.be/x",
        ]
    );
    let a = download_args("t", false, true, "", "u");
    assert_eq!(a.len(), 18);
    assert_eq!(a[8], "-x");
    assert_eq!(a[16], "--");
}

#[test]
fn spotify_targets() {
    assert_eq!(spotify_fallback_target("Queen", "Bohemian"), "ytsearch1:Queen Bohemian audio");
    assert_eq!(
        direct_targets(Some("https://y/1".to_string()), "Queen", "Song"),
        vec!["https://y/1", "ytsearch1:Queen Song audio", "scsearch1:Queen Song"]
    );
    assert_eq!(direct_targets(None, "", "Song"), vec!["ytsearch1:Song audio", "scsearch1:Song"]);
}

#[test]
fn file_matching() {
    assert!(download_file_match("id1.mp4", "id1"));
    assert!(!download_file_match("id1.jpg", "id1"));
    assert!(!download_file_match("x.mp4", "id1"));
    assert!(cover_file_match("id1.webp", "id1"));
    assert!(!cover_file_match("id1.mp3", "id1"));
    assert!(direct_audio_match("id1.opus", "id1"));
    assert!(!direct_audio_match("id1.mp4", "id1"));
}

#[test]
fn library_entry_of_download() {
    let i = downloaded_item("id", "T".to_string(), None, false, "id.mp4", None, Some(5), "u", "c");
    assert_eq!(i.media_type, "video");
    assert_eq!(i.file_name, "id.mp4");
    assert_eq!(i.duration_secs, Some(5));
}

#[test]
fn downloader_commands() {
    assert!(matches!(media_command("dl", &vec![]), MediaCommandPlan::Reply(t) if t.contains("/dl &lt;URL&gt;")));
    assert!(matches!(
        media_command("dl@bot", &vec!["https://open.spotify.com/track/1".to_string()]),
        MediaCommandPlan::Reply(t) if t.starts_with("⚠️ <b>Это аудио-ресурс</b>")
    ));
    assert!(matches!(
        media_command("video", &vec!["see https://youtu.be/abc".to_string()]),
        MediaCommandPlan::Download { url, audio: false } if url == "https://youtu.be/abc"
    ));
    assert!(matches!(
        media_command("mp3", &vec!["plain".to_string()]),
        MediaCommandPlan::Download { url, audio: true } if url == "plain"
    ));
    assert!(matches!(media_command("music", &vec![]), MediaCommandPlan::Reply(t) if t.contains("/mp3 &lt;URL&gt;")));
    assert!(matches!(media_command("weather", &vec![]), MediaCommandPlan::Ignored));
}

#[test]
fn answers_are_combined() {
    let none = combine_answers(vec![], &vec!["e1".to_string(), "e2".to_string()]);
    assert!(matches!(none, PluginResponse::Error(e) if e == "e1\ne2"));
    assert!(matches!(combine_answers(vec![], &vec![]), PluginResponse::Ignored));
    let one = combine_answers(vec![PluginResponse::Text("a".to_string())], &vec!["e".to_string()]);
    assert!(matches!(one, PluginResponse::Text(t) if t == "a"));
    let two = combine_answers(vec![PluginResponse::Handled, PluginResponse::Ignored], &vec![]);
    assert!(matches!(two, PluginResponse::Batch(v) if v.len() == 2));
}

#[test]
fn download_buttons() {
    assert_eq!(download_button("mldl:audio_best:k1"), Some(("audio_best".to_string(), "k1".to_string())));
    assert_eq!(download_button("mldl:nokey"), None);
    assert_eq!(download_button("other:a:b"), None);
    assert_eq!(
        download_failed_message("boom"),
        "Download failed: boom\n\n(Tip: Ensure `yt-dlp` is installed on server)"
    );
}
