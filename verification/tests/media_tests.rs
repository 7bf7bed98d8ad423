use nodebook::fetch::{
    build_spotify_entity, detect_qualities, dump_info, entity_ref, fallback_info, first_track_meta,
    gallery_image_urls, og_track_meta, pin_image_url, pin_title, playlist_track_urls, quality_option,
    size_at_height, spotify_info, summarize_dump, DumpEntry, EmbedEntity, EmbedTrack, FormatInfo,
    ImageLine, MediaDownloader, MediaType, Platform, PlaylistLine,
};
use nodebook::library::{delete_item, find_item, save_item};
use nodebook::media::{
    html_escape, score_candidate, spotify_search_queries, title_words, AudioSearch, InfoResponse,
    MediaFilterMode, MediaItem, Quality, QualityOption, SearchCandidate, UiBuilder,
};

fn item(id: &str, title: &str) -> MediaItem {
    MediaItem {
        id: id.to_string(),
        title: title.to_string(),
        uploader: None,
        media_type: "audio".to_string(),
        file_name: format!("{}.mp3", id),
        cover_file: None,
        duration_secs: None,
        source_url: "local".to_string(),
        created_at: "2024-01-01 10:00".to_string(),
    }
}

fn fmt(acodec: &str, vcodec: &str, height: Option<i64>, size: Option<u64>) -> FormatInfo {
    FormatInfo {
        acodec: Some(acodec.to_string()),
        vcodec: Some(vcodec.to_string()),
        height,
        filesize: size,
        filesize_approx: None,
    }
}

#[test]
fn html_escape_replaces_specials() {
    assert_eq!(html_escape("<a href=\"x\">&</a>"), "&lt;a href=&quot;x&quot;&gt;&amp;&lt;/a&gt;");
}

#[test]
fn song_variants_in_order() {
    assert_eq!(MediaDownloader::extract_song_variant("Song (Sped Up)"), Some("sped up"));
    assert_eq!(MediaDownloader::extract_song_variant("Live remix"), Some("live"));
    assert_eq!(MediaDownloader::extract_song_variant("Plain"), None);
}

#[test]
fn artist_list_splits_and_dedups() {
    let a = MediaDownloader::parse_artist_list("Drake ft Rihanna, drake & Future");
    assert_eq!(a, vec!["Drake".to_string(), "Rihanna".to_string(), "Future".to_string()]);
    assert_eq!(MediaDownloader::parse_artist_list("   "), Vec::<String>::new());
}

#[test]
fn search_queries_for_official_track() {
    let q = spotify_search_queries("Adele", "Hello", None);
    assert_eq!(q[0], "ytmsearch5:Adele Hello");
    assert_eq!(q[1], "ytsearch5:Adele - Hello official audio");
    assert_eq!(q.len(), 4);
    let v = spotify_search_queries("", "Hello", Some("slowed"));
    assert_eq!(v, vec![
        "ytsearch5:Hello slowed audio".to_string(),
        "ytmsearch5:Hello slowed".to_string(),
        "scsearch5:Hello slowed".to_string(),
    ]);
}

#[test]
fn candidate_score_formula() {
    let words = title_words("Hello World");
    assert_eq!(words, vec!["hello".to_string(), "world".to_string()]);
    let c = SearchCandidate {
        title_lower: "adele - hello (official audio)".to_string(),
        uploader_lower: "adele - topic".to_string(),
        url: "u".to_string(),
        duration_out_of_range: false,
    };
    let artists = vec!["adele".to_string()];
    // one matched word (15), one artist (25), official (20)
    assert_eq!(score_candidate(&c, None, &words, &artists), 60);
    let spam = SearchCandidate {
        title_lower: "hello 10 hours".to_string(),
        uploader_lower: "x".to_string(),
        url: "v".to_string(),
        duration_out_of_range: true,
    };
    // 15 - 90 - 70
    assert_eq!(score_candidate(&spam, None, &words, &artists), -145);
}

#[test]
fn audio_search_keeps_best() {
    let mut s = AudioSearch::new();
    s.absorb("a", 10);
    s.absorb("b", 50);
    s.absorb("c", 20);
    assert!(s.is_confident());
    assert_eq!(s.result(), Some("b".to_string()));
    let mut t = AudioSearch::new();
    t.absorb("a", -5);
    assert_eq!(t.result(), None);
}

fn opt(q: Quality, size: Option<u64>) -> QualityOption {
    QualityOption {
        quality: q,
        filesize_bytes: size,
        estimated_secs: None,
        speed_category: String::new(),
        display_label: String::new(),
        full_button_label: String::new(),
    }
}

#[test]
fn quality_menu_modes() {
    let avail = vec![opt(Quality::Video720p, None), opt(Quality::AudioBest, None)];
    let v = UiBuilder::filter_qualities(&avail, MediaFilterMode::VideoOnly);
    assert_eq!(v.len(), 1);
    assert_eq!(v[0].quality, Quality::Video720p);
    let only_audio = vec![opt(Quality::AudioBest, None)];
    let fallback = UiBuilder::filter_qualities(&only_audio, MediaFilterMode::VideoOnly);
    assert_eq!(fallback.iter().map(|o| o.quality).collect::<Vec<_>>(), vec![Quality::Best, Quality::Video720p]);
    let a = UiBuilder::filter_qualities(&avail, MediaFilterMode::AudioOnly);
    assert!(a.iter().all(|o| o.quality.is_audio()));
}

#[test]
fn info_message_for_single_item() {
    let info = InfoResponse {
        title: "A <b>".to_string(),
        uploader: Some("Me".to_string()),
        thumbnail: None,
        duration_secs: Some(3725),
        available_qualities: vec![opt(Quality::Video720p, Some(60 * 1048576))],
        is_playlist: false,
        playlist_count: None,
        playlist_urls: vec![],
        error: Some(String::new()),
    };
    let m = UiBuilder::build_info_message(&info, MediaFilterMode::All);
    assert_eq!(
        m,
        "📹 <b>A &lt;b&gt;</b>\n👤 <i>Me</i>\n⏱ <i>01:02:05</i>\n\n🚀  720p |   60MB | ⏳ ~3-10 сек\n\n⚠️ Файлы > 50 МБ ограничены лимитами Telegram."
    );
}

#[test]
fn info_message_for_playlist() {
    let info = InfoResponse {
        title: "Mix".to_string(),
        uploader: None,
        thumbnail: None,
        duration_secs: None,
        available_qualities: vec![],
        is_playlist: true,
        playlist_count: Some(12),
        playlist_urls: vec![],
        error: None,
    };
    let m = UiBuilder::build_info_message(&info, MediaFilterMode::AudioOnly);
    assert_eq!(m, "📁 <b>Mix (Аудио-плейлист)</b>\n—\n<i>Элементов: 12</i>\n\nФорматы для загрузки ↓");
}

#[test]
fn link_detection_by_pattern_and_fallback() {
    let r = MediaDownloader::detect_url("look https://youtu.be/abc123 now");
    assert_eq!(r, Some(("https://youtu.be/abc123".to_string(), Platform::YouTube, MediaType::Video)));
    let s = MediaDownloader::detect_url("https://open.spotify.com/album/xyz");
    assert_eq!(s, Some(("https://open.spotify.com/album/xyz".to_string(), Platform::Spotify, MediaType::Playlist)));
    let f = MediaDownloader::detect_url("see https://example.com/page ok");
    assert_eq!(f, Some(("https://example.com/page".to_string(), Platform::Unknown, MediaType::Video)));
    assert_eq!(MediaDownloader::detect_url("no links"), None);
}

#[test]
fn all_links_are_distinct() {
    let r = MediaDownloader::detect_all_urls("https://youtu.be/a https://youtu.be/a https://soundcloud.com/x/y");
    assert_eq!(r.len(), 2);
    assert_eq!(r[1].1, Platform::SoundCloud);
}

#[test]
fn spotify_page_info() {
    let html = "<meta property=\"og:title\" content=\"Rock &amp; Roll\"><meta property=\"og:description\" content=\"Playlist · 50 items\"><meta property=\"og:image\" content=\"https://img/x.jpg\">";
    let i = spotify_info("https://open.spotify.com/playlist/abc", Some(html));
    assert_eq!(i.title, "Rock & Roll");
    assert_eq!(i.playlist_count, Some(50));
    assert_eq!(i.thumbnail, Some("https://img/x.jpg".to_string()));
    assert!(i.is_playlist);
    assert_eq!(i.available_qualities.len(), 3);
    assert_eq!(i.available_qualities[0].filesize_bytes, Some(8 * 1024 * 1024));
    let none = spotify_info("https://open.spotify.com/track/abc", None);
    assert_eq!(none.title, "Spotify Media");
    assert!(!none.is_playlist);
}

#[test]
fn spotify_track_page_meta() {
    let html = "<meta property=\"og:title\" content=\"Hello\"><meta property=\"og:description\" content=\"Adele · Song · 2015\">";
    assert_eq!(og_track_meta(Some(html)), ("Hello".to_string(), Some("Adele".to_string())));
    let single = "<meta property=\"og:description\" content=\"Single · 2015\">";
    assert_eq!(og_track_meta(Some(single)), ("Spotify Track".to_string(), None));
}

#[test]
fn spotify_entities() {
    assert_eq!(
        entity_ref("https://open.spotify.com/album/AbC123?si=1"),
        Some(("album".to_string(), "AbC123".to_string()))
    );
    let e = EmbedEntity {
        title: Some("Best".to_string()),
        cover: Some("c.jpg".to_string()),
        subtitle: None,
        artist_names: vec![],
        track_list: Some(vec![
            EmbedTrack { title: Some("One".to_string()), subtitle: Some("A".to_string()), uri: Some("spotify:track:111".to_string()) },
            EmbedTrack { title: Some(String::new()), subtitle: None, uri: None },
        ]),
    };
    let s = build_spotify_entity("album", "AbC123", &e, None);
    assert!(s.is_playlist);
    assert_eq!(s.tracks.len(), 1);
    assert_eq!(s.tracks[0].url, "https://open.spotify.com/track/111");
    assert_eq!(s.tracks[0].cover_url, Some("c.jpg".to_string()));
    let t = EmbedEntity { title: None, cover: None, subtitle: None, artist_names: vec!["X".to_string(), "Y".to_string()], track_list: None };
    let single = build_spotify_entity("track", "9", &t, Some("og.jpg".to_string()));
    assert_eq!(single.uploader, Some("X, Y".to_string()));
    assert_eq!(single.title, "Spotify Audio");
    assert_eq!(first_track_meta(&single), Some(("Spotify Audio".to_string(), Some("X, Y".to_string()), Some("og.jpg".to_string()))));
}

#[test]
fn qualities_from_formats() {
    let f = vec![fmt("mp4a", "none", None, None), fmt("none", "avc1", Some(720), Some(5)), fmt("none", "avc1", Some(720), Some(9)), fmt("none", "vp9", Some(2160), None)];
    assert_eq!(detect_qualities(&f), vec![Quality::AudioBest, Quality::Video720p, Quality::Video4K, Quality::Best]);
    assert_eq!(size_at_height(&f, Quality::Video720p), Some(9));
    assert_eq!(size_at_height(&f, Quality::Video4K), None);
    assert_eq!(detect_qualities(&vec![]), Vec::<Quality>::new());
}

#[test]
fn option_labels_and_speed() {
    let o = quality_option(Quality::Video1080p, "1080p", Some(100 * 1048576));
    assert_eq!(o.display_label, "1080p (~100MB)");
    assert_eq!(o.speed_category, "⚖️");
    assert_eq!(o.estimated_secs, Some(10));
    let small = quality_option(Quality::AudioBest, "MP3", Some(1000));
    assert_eq!(small.display_label, "MP3");
    assert_eq!(small.estimated_secs, Some(1));
}

#[test]
fn dump_summary_of_playlist_and_video() {
    let list = DumpEntry {
        duration_secs: None,
        uploader: Some("Chan".to_string()),
        thumbnail: None,
        kind: Some("playlist".to_string()),
        entries: Some(vec![Some("u1".to_string()), None, Some("u2".to_string())]),
        title: Some("My list".to_string()),
        formats: None,
    };
    let s = summarize_dump(&vec![list]);
    assert!(s.is_playlist);
    assert_eq!(s.playlist_count, Some(3));
    assert_eq!(s.playlist_urls, vec!["u1".to_string(), "u2".to_string()]);
    assert_eq!(s.qualities, vec![Quality::AudioBest, Quality::Audio256, Quality::Audio128]);
    let info = dump_info(s, vec![]);
    assert_eq!(info.title, "My list");
    let video = DumpEntry {
        duration_secs: Some(30),
        uploader: None,
        thumbnail: None,
        kind: None,
        entries: None,
        title: None,
        formats: Some(vec![fmt("none", "avc1", Some(480), None)]),
    };
    let v = summarize_dump(&vec![video]);
    assert_eq!(v.title, "Media");
    assert_eq!(v.qualities, vec![Quality::Video480p, Quality::Best]);
    assert_eq!(v.formats_at, Some(0));
}

#[test]
fn fallback_info_for_unknown_platform() {
    let f = fallback_info("VK");
    assert_eq!(f.title, "VK Media");
    assert_eq!(f.available_qualities.len(), 2);
}

#[test]
fn pinterest_page() {
    let html = "<meta name=\"x\" property=\"og:image\" content=\"https://i.pinimg.com/736x/a.jpg\"><meta p=\"og:title\" content=\" Cats &amp; Dogs \">";
    assert_eq!(pin_image_url(html), Some("https://i.pinimg.com/originals/a.jpg".to_string()));
    assert_eq!(pin_title(html), "Cats & Dogs");
    assert_eq!(pin_title("<html></html>"), "Pinterest Image");
}

#[test]
fn playlist_and_gallery_links() {
    let ls = vec![
        PlaylistLine { url: Some("a".to_string()), id: None },
        PlaylistLine { url: None, id: Some("xyz".to_string()) },
        PlaylistLine { url: Some("a".to_string()), id: None },
    ];
    assert_eq!(playlist_track_urls(&ls), vec!["a".to_string(), "https://www.youtube.com/watch?v=xyz".to_string()]);
    let many: Vec<PlaylistLine> = (0..60).map(|i| PlaylistLine { url: Some(format!("u{}", i)), id: None }).collect();
    assert_eq!(playlist_track_urls(&many).len(), 50);
    let img = vec![ImageLine {
        entry_urls: None,
        ext: None,
        url: None,
        thumbnails: Some(vec![Some("https://cdn.x/1.jpg".to_string()), Some("https://other/2.jpg".to_string())]),
    }];
    assert_eq!(gallery_image_urls(&img), vec!["https://cdn.x/1.jpg".to_string()]);
}

#[test]
fn library_save_and_delete() {
    let lib = vec![item("a", "A"), item("b", "B")];
    let lib = save_item(lib, item("b", "B2"));
    assert_eq!(lib.iter().map(|i| i.title.clone()).collect::<Vec<_>>(), vec!["B2".to_string(), "A".to_string()]);
    assert_eq!(find_item(&lib, "a").map(|i| i.title.clone()), Some("A".to_string()));
    let (lib2, removed) = delete_item(lib, "b");
    assert!(removed);
    assert_eq!(lib2.len(), 1);
    let (lib3, removed_again) = delete_item(lib2, "b");
    assert!(!removed_again);
    assert_eq!(lib3.len(), 1);
}
