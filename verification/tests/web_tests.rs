use nodebook::media::MediaItem;
use nodebook::vault::{find_marked_summary, note_body, note_id, note_place, parse_vault_note, preview_line, FrontmatterFields};
use nodebook::web::{
    add_item_to_playlist, byte_range, content_range, default_playlists, delete_playlist, evict_finished,
    guess_media_mime, new_playlist, new_task, remove_item_everywhere, remove_item_from_playlist, title_preview,
    upload_plan, upload_within_limit, DownloadTaskState,
};

fn item(id: &str) -> MediaItem {
    MediaItem {
        id: id.to_string(),
        title: format!("T{}", id),
        uploader: None,
        media_type: "audio".to_string(),
        file_name: format!("{}.mp3", id),
        cover_file: None,
        duration_secs: None,
        source_url: "local".to_string(),
        created_at: "now".to_string(),
    }
}

#[test]
fn mime_by_extension() {
    assert_eq!(guess_media_mime("dir/song.MP3", "audio/mpeg"), "audio/mpeg");
    assert_eq!(guess_media_mime("clip.webm", "video/mp4"), "video/webm");
    assert_eq!(guess_media_mime("cover.JPEG", "image/png"), "image/jpeg");
    assert_eq!(guess_media_mime("noext", "video/mp4"), "video/mp4");
    assert_eq!(guess_media_mime("x.unknown", "audio/mpeg"), "audio/mpeg");
}

#[test]
fn byte_ranges() {
    assert_eq!(byte_range(Some("bytes=0-99"), 1000), Some((0, 99)));
    assert_eq!(byte_range(Some("bytes=500-"), 1000), Some((500, 999)));
    assert_eq!(byte_range(Some("bytes=900-5000"), 1000), Some((900, 999)));
    assert_eq!(byte_range(Some("bytes=1000-"), 1000), None);
    assert_eq!(byte_range(Some("bytes=x-10"), 1000), Some((0, 10)));
    assert_eq!(byte_range(Some("items=0-1"), 1000), None);
    assert_eq!(byte_range(None, 1000), None);
    assert_eq!(byte_range(Some("bytes=0-"), 0), None);
    assert_eq!(content_range(0, 99, 1000), "bytes 0-99/1000");
}

#[test]
fn playlists_add_remove_delete() {
    let mut list = default_playlists("2024-05-01");
    assert_eq!(list[0].id, "favorites_audio");
    assert_eq!(list[1].name, "Сохраненные видео");
    assert_eq!(add_item_to_playlist(&mut list, "favorites_audio", "x"), Some(0));
    assert_eq!(add_item_to_playlist(&mut list, "favorites_audio", "x"), Some(0));
    assert_eq!(list[0].item_ids, vec!["x".to_string()]);
    assert_eq!(add_item_to_playlist(&mut list, "missing", "x"), None);
    assert_eq!(add_item_to_playlist(&mut list, "favorites_video", "x"), Some(1));
    assert!(remove_item_everywhere(&mut list, "x"));
    assert!(list.iter().all(|p| p.item_ids.is_empty()));
    assert!(!remove_item_everywhere(&mut list, "x"));
    assert_eq!(remove_item_from_playlist(&mut list, "favorites_audio", "nope"), Some(0));
    let p = new_playlist("pl_1", "  Road  ", None, "now");
    assert_eq!(p.name, "Road");
    assert_eq!(p.playlist_type, "audio");
    list.push(p);
    let (list, removed) = delete_playlist(list, "pl_1");
    assert!(removed);
    assert_eq!(list.len(), 2);
    let (_, again) = delete_playlist(list, "pl_1");
    assert!(!again);
}

#[test]
fn download_task_progress() {
    let mut t = new_task("t1", "  https://www.youtube.com/playlist?list=abc  ");
    assert_eq!(t.url, "https://www.youtube.com/playlist?list=abc");
    assert_eq!(t.title, "www.youtube.com/playlist?list=abc");
    assert!(t.is_playlist);
    assert_eq!(t.percent, 5);
    assert_eq!(t.status, "queued");
    t.begin_tracks("Mix".to_string(), 4);
    assert_eq!(t.percent, 10);
    t.track_started(2, 4, "Song", "");
    assert_eq!(t.percent, 52);
    assert_eq!(t.current_artist, None);
    t.track_finished();
    assert_eq!(t.completed_tracks, 1);
    t.finish_tracks(vec![]);
    assert_eq!(t.status, "error");
    assert_eq!(t.percent, 100);
    let mut s = new_task("t2", "https://youtu.be/x");
    s.begin_download(false);
    assert_eq!(s.percent, 25);
    s.single_done(item("a"));
    assert_eq!(s.title, "Ta");
    assert_eq!(s.status, "done");
    let mut f = new_task("t3", "x");
    f.failed("boom".to_string());
    assert_eq!(f.status, "error");
    assert_eq!(f.percent, 5);
}

#[test]
fn preview_titles_are_short() {
    assert_eq!(title_preview("https://example.com/a/very/long/path/that/goes/on/and/on"), "example.com/a/very/long/path/that/g");
}

#[test]
fn eviction_keeps_unfinished() {
    let mut tasks: Vec<DownloadTaskState> = Vec::new();
    for i in 0..101 {
        let mut t = new_task(&format!("t{}", i), "u");
        if i % 2 == 0 {
            t.playlist_done(vec![]);
        }
        tasks.push(t);
    }
    let kept = evict_finished(tasks);
    assert_eq!(kept.len(), 101 - 21);
    assert!(kept.iter().filter(|t| t.status == "queued").count() == 50);
    let few: Vec<DownloadTaskState> = (0..3).map(|i| new_task(&format!("t{}", i), "u")).collect();
    assert_eq!(evict_finished(few).len(), 3);
}

#[test]
fn uploads() {
    let p = upload_plan(Some("dir/My Song.MP3"), "ab12cd34");
    assert_eq!(p.file_name, "My Song.MP3");
    assert_eq!(p.ext, "mp3");
    assert!(p.is_audio);
    assert_eq!(p.target_name, "ab12cd34.mp3");
    assert_eq!(p.title, "My Song.MP3");
    let d = upload_plan(None, "x");
    assert_eq!(d.title, "upload");
    assert!(!d.is_audio);
    assert!(upload_within_limit(200 * 1024 * 1024));
    assert!(!upload_within_limit(200 * 1024 * 1024 + 1));
}

#[test]
fn vault_note_places_and_bodies() {
    assert_eq!(note_place("01_Projects/App/note.md"), ("Projects".to_string(), Some("App".to_string())));
    assert_eq!(note_place("Custom/note.md"), ("Custom".to_string(), None));
    assert_eq!(note_place("note.md"), ("Daily".to_string(), None));
    assert_eq!(note_body("---\na: 1\n---\n\nBody text\n"), Some("Body text".to_string()));
    assert_eq!(note_body("no front matter"), None);
    assert_eq!(find_marked_summary("x\n> **ИИ-выжимка:**  short  \nrest"), Some("short".to_string()));
    assert_eq!(preview_line("# Head\n| t |\n-- point one\nmore"), Some("point one".to_string()));
    assert_eq!(note_id(""), "0000000000001505");
    assert_eq!(note_id("a"), "000000000002b606");
}

#[test]
fn vault_note_view() {
    let content = "---\ntags: [x]\n---\n# Title\nHello #tag world\nNext";
    let fm = FrontmatterFields {
        para: String::new(),
        area: "Health".to_string(),
        tags: vec!["x".to_string()],
        created: String::new(),
        summary: None,
    };
    let n = parse_vault_note("/vault/Areas/Sport/run.md", content, "/vault", Some(fm), "2024-05-01");
    assert_eq!(n.title, "run");
    assert_eq!(n.file_path, "Areas/Sport/run.md");
    assert_eq!(n.para_category, "Areas");
    assert_eq!(n.area, Some("Health".to_string()));
    assert_eq!(n.clean_text, "Hello  world\nNext");
    assert_eq!(n.ai_summary, Some("Hello  world".to_string()));
    assert_eq!(n.created_at, "2024-05-01");
    assert_eq!(n.tags, vec!["x".to_string()]);
    assert!(n.entities.is_empty());
}
