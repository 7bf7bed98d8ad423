//! How downloads are planned and announced: what a link is taken for, the
//! `yt-dlp` arguments, which file is the download, and the captions.

use vstd::prelude::*;
use crate::fetch::{detect_url_spec, opt_seq, MediaDownloader, MediaType, Platform};
use crate::bot::PluginResponse;
use crate::media::{html_escape, html_escape_spec, MediaItem, Quality};
use crate::text::{dec, has_infix, has_prefix, has_suffix, owned, push_dec, push_str, str_contains,
    str_ends_with, str_starts_with, views};

verus! {

// ── Links ───────────────────────────────────────────────────

/// Links downloaded as audio: Spotify, SoundCloud, or any audio link.
pub open spec fn is_audio_link(p: Platform, t: MediaType) -> bool {
    p == Platform::Spotify || p == Platform::SoundCloud || t == MediaType::Audio
}

/// Whether a link is downloaded as audio (see `is_audio_link`).
pub fn audio_link(p: Platform, t: MediaType) -> (b: bool)
    ensures
        b == is_audio_link(p, t),
{
    p == Platform::Spotify || p == Platform::SoundCloud || t == MediaType::Audio
}

/// Links downloaded as playlists.
pub open spec fn is_playlist_message_link(url: Seq<char>, t: MediaType) -> bool {
    t == MediaType::Playlist || has_infix(url, "/playlist/"@) || has_infix(url, "/album/"@)
        || has_infix(url, "list="@)
}

/// Whether a link in a message is downloaded as a playlist.
pub fn playlist_message_link(url: &str, t: MediaType) -> (b: bool)
    ensures
        b == is_playlist_message_link(url@, t),
{
    t == MediaType::Playlist || str_contains(url, "/playlist/") || str_contains(url, "/album/")
        || str_contains(url, "list=")
}

/// TikTok and Instagram links may be photo galleries.
pub fn may_be_gallery(p: Platform) -> (b: bool)
    ensures
        b == (p == Platform::TikTok || p == Platform::Instagram),
{
    p == Platform::TikTok || p == Platform::Instagram
}

// ── Captions ────────────────────────────────────────────────

/// The author shown for an item, or "unknown".
pub open spec fn author_of(item: MediaItem) -> Seq<char> {
    match item.uploader {
        Some(u) => u@,
        None => "Неизвестен"@,
    }
}

/// `[i/n] ` before a title when the item is one of a series.
pub open spec fn position_prefix(pos: Option<(u64, u64)>) -> Seq<char> {
    match pos {
        Some((i, n)) => "["@ + dec(i as nat) + "/"@ + dec(n as nat) + "] "@,
        None => Seq::empty(),
    }
}

/// The caption of a downloaded item: title and author for audio (saved to the
/// player), title for video; `pos` numbers it within a playlist.
pub open spec fn caption_spec(item: MediaItem, audio: bool, pos: Option<(u64, u64)>) -> Seq<char> {
    if audio {
        "🎵 <b>"@ + position_prefix(pos) + html_escape_spec(item.title@) + "</b>\n👤 <i>"@
            + html_escape_spec(author_of(item)) + "</i>\n💾 Сохранено в медиатеку Web Player"@
    } else {
        "📹 <b>"@ + position_prefix(pos) + html_escape_spec(item.title@)
            + "</b>\n⚡ Скачано в максимальном качестве"@
    }
}

fn push_position(s: &mut String, pos: Option<(u64, u64)>)
    ensures
        final(s)@ == old(s)@ + position_prefix(pos),
{
    match pos {
        Some((i, n)) => {
            push_str(s, "[");
            push_dec(s, i);
            push_str(s, "/");
            push_dec(s, n);
            push_str(s, "] ");
        },
        None => {},
    }
}

/// The caption of a downloaded item (see `caption_spec`).
pub fn caption(item: &MediaItem, audio: bool, pos: Option<(u64, u64)>) -> (r: String)
    ensures
        r@ == caption_spec(*item, audio, pos),
{
    if audio {
        let mut s = owned("🎵 <b>");
        push_position(&mut s, pos);
        push_str(&mut s, html_escape(item.title.as_str()).as_str());
        push_str(&mut s, "</b>\n👤 <i>");
        let author = match &item.uploader {
            Some(u) => u.as_str(),
            None => "Неизвестен",
        };
        push_str(&mut s, html_escape(author).as_str());
        push_str(&mut s, "</i>\n💾 Сохранено в медиатеку Web Player");
        s
    } else {
        let mut s = owned("📹 <b>");
        push_position(&mut s, pos);
        push_str(&mut s, html_escape(item.title.as_str()).as_str());
        push_str(&mut s, "</b>\n⚡ Скачано в максимальном качестве");
        s
    }
}

/// The caption of a track streamed from a playlist into the chat.
pub fn stream_caption(item: &MediaItem, i: u64, n: u64) -> (r: String)
    ensures
        r@ == "🎵 <b>["@ + dec(i as nat) + "/"@ + dec(n as nat) + "] "@ + html_escape_spec(item.title@)
            + "</b>\n👤 <i>"@ + html_escape_spec(author_of(*item)) + "</i>\n💾 Сохранено в медиатеку"@,
{
    let mut s = owned("🎵 <b>[");
    push_dec(&mut s, i);
    push_str(&mut s, "/");
    push_dec(&mut s, n);
    push_str(&mut s, "] ");
    push_str(&mut s, html_escape(item.title.as_str()).as_str());
    push_str(&mut s, "</b>\n👤 <i>");
    let author = match &item.uploader {
        Some(u) => u.as_str(),
        None => "Неизвестен",
    };
    push_str(&mut s, html_escape(author).as_str());
    push_str(&mut s, "</i>\n💾 Сохранено в медиатеку");
    s
}

/// The announcement of a Spotify playlist about to be streamed.
pub fn playlist_start_message(title: &str, total: u64) -> (r: String)
    ensures
        r@ == "⏳ <b>Плейлист: "@ + html_escape_spec(title@) + "</b>\nОбнаружено <b>"@ + dec(total as nat)
            + "</b> треков. Начинаю последовательную загрузку..."@,
{
    let mut s = owned("⏳ <b>Плейлист: ");
    push_str(&mut s, html_escape(title).as_str());
    push_str(&mut s, "</b>\nОбнаружено <b>");
    push_dec(&mut s, total);
    push_str(&mut s, "</b> треков. Начинаю последовательную загрузку...");
    s
}

/// The report once a Spotify playlist was streamed.
pub fn playlist_done_message(title: &str, done: u64, total: u64) -> (r: String)
    ensures
        r@ == "✅ <b>Плейлист «"@ + html_escape_spec(title@) + "» успешно загружен!</b>\nСкачано <b>"@
            + dec(done as nat) + " из "@ + dec(total as nat)
            + "</b> треков. Все треки доступны в Web Player."@,
{
    let mut s = owned("✅ <b>Плейлист «");
    push_str(&mut s, html_escape(title).as_str());
    push_str(&mut s, "» успешно загружен!</b>\nСкачано <b>");
    push_dec(&mut s, done);
    push_str(&mut s, " из ");
    push_dec(&mut s, total);
    push_str(&mut s, "</b> треков. Все треки доступны в Web Player.");
    s
}

// ── Download plans ──────────────────────────────────────────

/// A download is audio for an audio quality, a Spotify link or a SoundCloud link.
pub open spec fn download_is_audio(url: Seq<char>, q: Quality) -> bool {
    q.is_audio_spec() || has_infix(url, "spotify.com"@) || has_infix(url, "soundcloud.com"@)
}

/// The file names of a download: the output template, the expected file and the cover.
pub struct DownloadNames {
    pub is_audio: bool,
    pub template: String,
    pub expected: String,
    pub cover: String,
}

/// The file names of a download of `url` under the id `file_id`.
pub fn download_names(url: &str, q: Quality, file_id: &str) -> (r: DownloadNames)
    ensures
        r.is_audio == download_is_audio(url@, q),
        r.template@ == file_id@ + ".%(ext)s"@,
        r.expected@ == file_id@ + (if r.is_audio { ".mp3"@ } else { ".mp4"@ }),
        r.cover@ == file_id@ + ".jpg"@,
{
    let is_audio = q.is_audio() || str_contains(url, "spotify.com") || str_contains(url, "soundcloud.com");
    let mut template = owned(file_id);
    push_str(&mut template, ".%(ext)s");
    let mut expected = owned(file_id);
    if is_audio {
        push_str(&mut expected, ".mp3");
    } else {
        push_str(&mut expected, ".mp4");
    }
    let mut cover = owned(file_id);
    push_str(&mut cover, ".jpg");
    DownloadNames { is_audio, template, expected, cover }
}

/// Single items are downloaded without their playlist.
pub open spec fn single_item_spec(url: Seq<char>, t: MediaType) -> bool {
    t != MediaType::Playlist && !has_infix(url, "/playlist/"@) && !has_infix(url, "/album/"@)
}

/// The `yt-dlp` arguments of a download: output template, playlist handling,
/// thumbnails, then MP3 extraction with metadata for audio or the format for
/// video, and the target after `--`.
pub open spec fn download_args_spec(template: Seq<char>, single: bool, audio: bool, format: Seq<char>, target: Seq<char>) -> Seq<Seq<char>> {
    seq!["-o"@, template] + (if single { seq!["--no-playlist"@] } else { Seq::empty() }) + seq![
        "--no-warnings"@,
        "--extractor-args"@,
        "youtube:player_client=ios,android,web"@,
        "--write-thumbnail"@,
        "--convert-thumbnails"@,
        "jpg"@,
    ] + (if audio {
        seq![
            "-x"@,
            "--audio-format"@,
            "mp3"@,
            "--audio-quality"@,
            "0"@,
            "--embed-thumbnail"@,
            "--embed-metadata"@,
            "--add-metadata"@,
        ]
    } else {
        seq!["-f"@, format]
    }) + seq!["--"@, target]
}

fn push_all(v: &mut Vec<String>, items: &[&str])
    ensures
        views(final(v)@) == views(old(v)@) + items@.map_values(|s: &str| s@),
{
    let ghost start = views(v@);
    let mut i: usize = 0;
    while i < items.len()
        invariant
            i <= items.len(),
            views(v@) == start + items@.take(i as int).map_values(|s: &str| s@),
        decreases items.len() - i,
    {
        let ghost prev = views(v@);
        v.push(owned(items[i]));
        assert(views(v@) =~= prev.push(items@[i as int]@));
        assert(items@.take(i + 1).map_values(|s: &str| s@) =~= items@.take(i as int).map_values(|s: &str| s@).push(items@[i as int]@));
        i = i + 1;
    }
    assert(items@.take(items@.len() as int) =~= items@);
}

/// The `yt-dlp` arguments of a download (see `download_args_spec`).
pub fn download_args(template: &str, single: bool, audio: bool, format: &str, target: &str) -> (r: Vec<String>)
    ensures
        views(r@) =~= download_args_spec(template@, single, audio, format@, target@),
{
    let mut v: Vec<String> = Vec::new();
    push_all(&mut v, &["-o", template]);
    if single {
        push_all(&mut v, &["--no-playlist"]);
    }
    push_all(
        &mut v,
        &[
            "--no-warnings",
            "--extractor-args",
            "youtube:player_client=ios,android,web",
            "--write-thumbnail",
            "--convert-thumbnails",
            "jpg",
        ],
    );
    if audio {
        push_all(
            &mut v,
            &[
                "-x",
                "--audio-format",
                "mp3",
                "--audio-quality",
                "0",
                "--embed-thumbnail",
                "--embed-metadata",
                "--add-metadata",
            ],
        );
    } else {
        push_all(&mut v, &["-f", format]);
    }
    push_all(&mut v, &["--", target]);
    v
}

/// The search that stands in for a Spotify track not matched exactly.
pub fn spotify_fallback_target(artist: &str, title: &str) -> (r: String)
    ensures
        r@ == "ytsearch1:"@ + artist@ + " "@ + title@ + " audio"@,
{
    let mut s = owned("ytsearch1:");
    push_str(&mut s, artist);
    push_str(&mut s, " ");
    push_str(&mut s, title);
    push_str(&mut s, " audio");
    s
}

/// The targets tried for a Spotify track, in order: the verified match if any,
/// then a YouTube and a SoundCloud search (by artist and title when the artist is known).
pub open spec fn direct_targets_spec(found: Option<Seq<char>>, primary: Seq<char>, title: Seq<char>) -> Seq<Seq<char>> {
    let first: Seq<Seq<char>> = match found {
        Some(u) => seq![u],
        None => Seq::empty(),
    };
    first + if primary.len() > 0 {
        seq!["ytsearch1:"@ + primary + " "@ + title + " audio"@, "scsearch1:"@ + primary + " "@ + title]
    } else {
        seq!["ytsearch1:"@ + title + " audio"@, "scsearch1:"@ + title]
    }
}

/// The targets tried for a Spotify track (see `direct_targets_spec`).
pub fn direct_targets(found: Option<String>, primary: &str, title: &str) -> (r: Vec<String>)
    ensures
        views(r@) == direct_targets_spec(opt_seq(found), primary@, title@),
{
    let mut v: Vec<String> = Vec::new();
    let ghost f = opt_seq(found);
    match found {
        Some(u) => v.push(u),
        None => {},
    }
    let ghost a = views(v@);
    let mut yt = owned("ytsearch1:");
    let mut sc = owned("scsearch1:");
    if crate::text::chars_of(primary).len() > 0 {
        push_str(&mut yt, primary);
        push_str(&mut yt, " ");
        push_str(&mut sc, primary);
        push_str(&mut sc, " ");
    }
    push_str(&mut yt, title);
    push_str(&mut yt, " audio");
    push_str(&mut sc, title);
    v.push(yt);
    v.push(sc);
    assert(views(v@) =~= direct_targets_spec(f, primary@, title@));
    v
}

/// A file of the download: its name starts with the id and it is no image.
pub open spec fn is_download_file(name: Seq<char>, id: Seq<char>) -> bool {
    has_prefix(name, id) && !has_suffix(name, ".jpg"@) && !has_suffix(name, ".webp"@)
}

/// Whether a file in the download folder is the download (see `is_download_file`).
pub fn download_file_match(name: &str, id: &str) -> (b: bool)
    ensures
        b == is_download_file(name@, id@),
{
    str_starts_with(name, id) && !str_ends_with(name, ".jpg") && !str_ends_with(name, ".webp")
}

/// A cover left by the download: its name starts with the id and it is an image.
pub open spec fn is_cover_file(name: Seq<char>, id: Seq<char>) -> bool {
    has_prefix(name, id) && (has_suffix(name, ".jpg"@) || has_suffix(name, ".png"@) || has_suffix(name, ".webp"@))
}

/// Whether a file in the download folder is the download's cover.
pub fn cover_file_match(name: &str, id: &str) -> (b: bool)
    ensures
        b == is_cover_file(name@, id@),
{
    str_starts_with(name, id) && (str_ends_with(name, ".jpg") || str_ends_with(name, ".png") || str_ends_with(
        name,
        ".webp",
    ))
}

/// An audio file of a direct Spotify download.
pub open spec fn is_direct_audio_file(name: Seq<char>, id: Seq<char>) -> bool {
    has_prefix(name, id) && (has_suffix(name, ".mp3"@) || has_suffix(name, ".m4a"@) || has_suffix(name, ".webm"@)
        || has_suffix(name, ".opus"@))
}

/// Whether a file in the download folder is the audio of a direct download.
pub fn direct_audio_match(name: &str, id: &str) -> (b: bool)
    ensures
        b == is_direct_audio_file(name@, id@),
{
    str_starts_with(name, id) && (str_ends_with(name, ".mp3") || str_ends_with(name, ".m4a") || str_ends_with(
        name,
        ".webm",
    ) || str_ends_with(name, ".opus"))
}

/// The library entry of a finished download.
pub fn downloaded_item(
    id: &str,
    title: String,
    uploader: Option<String>,
    is_audio: bool,
    file_name: &str,
    cover_file: Option<String>,
    duration_secs: Option<u64>,
    source_url: &str,
    created_at: &str,
) -> (r: MediaItem)
    ensures
        r.id@ == id@,
        r.title == title,
        r.uploader == uploader,
        r.media_type@ == (if is_audio { "audio"@ } else { "video"@ }),
        r.file_name@ == file_name@,
        r.cover_file == cover_file,
        r.duration_secs == duration_secs,
        r.source_url@ == source_url@,
        r.created_at@ == created_at@,
{
    MediaItem {
        id: owned(id),
        title,
        uploader,
        media_type: if is_audio {
            owned("audio")
        } else {
            owned("video")
        },
        file_name: owned(file_name),
        cover_file,
        duration_secs,
        source_url: owned(source_url),
        created_at: owned(created_at),
    }
}

// ── The downloader plugin ───────────────────────────────────

/// What a downloader command asks for.
pub enum MediaCommandPlan {
    /// Answer with this text (usage or refusal).
    Reply(String),
    /// Download the link, as audio or as video.
    Download { url: String, audio: bool },
    /// Not a downloader command.
    Ignored,
}

pub open spec fn dl_usage() -> Seq<char> {
    "📹 <b>FSocial Video Downloader</b>\n\n<b>Использование:</b> <code>/dl &lt;URL&gt;</code>\nАвтоматически скачивает видео в наилучшем доступном качестве (YouTube, TikTok, Reels, VK, Pinterest)."@
}

pub open spec fn mp3_usage() -> Seq<char> {
    "🎵 <b>FSocial Audio Downloader</b>\n\n<b>Использование:</b> <code>/mp3 &lt;URL&gt;</code>\nАвтоматически скачивает аудио в MP3 (320 kbps) с обложкой альбома (Spotify, SoundCloud, YouTube, TikTok, Reels, VK)."@
}

pub open spec fn audio_refusal() -> Seq<char> {
    "⚠️ <b>Это аудио-ресурс</b>\n\nКоманда <code>/dl</code> предназначена только для видео и медиафайлов.\nДля скачивания музыки и плейлистов в MP3 используйте: <code>/mp3 <URL></code>"@
}

/// The link a command names, its platform and kind: as detected, or the
/// argument itself of an unknown platform and the given kind.
pub open spec fn command_link(arg: Seq<char>, default: MediaType) -> (Seq<char>, Platform, MediaType) {
    match detect_url_spec(arg) {
        Some(t) => t,
        None => (arg, Platform::Unknown, default),
    }
}

pub open spec fn video_commands(c: Seq<char>) -> bool {
    c == "dl"@ || c == "download"@ || c == "video"@
}

pub open spec fn audio_commands(c: Seq<char>) -> bool {
    c == "mp3"@ || c == "audio"@ || c == "music"@
}

/// What a downloader command asks for: usage without a link; for video, a
/// refusal of audio links or else the download; for audio, the download.
pub open spec fn media_command_spec(cmd: Seq<char>, args: Seq<Seq<char>>) -> (int, Seq<char>, bool) {
    let c = crate::text::split_spec(cmd, '@')[0];
    if video_commands(c) {
        if args.len() == 0 {
            (0, dl_usage(), false)
        } else {
            let (u, p, t) = command_link(args[0], MediaType::Video);
            if p == Platform::Spotify || p == Platform::SoundCloud || t == MediaType::Audio {
                (0, audio_refusal(), false)
            } else {
                (1, u, false)
            }
        }
    } else if audio_commands(c) {
        if args.len() == 0 {
            (0, mp3_usage(), false)
        } else {
            (1, command_link(args[0], MediaType::Audio).0, true)
        }
    } else {
        (2, Seq::empty(), false)
    }
}

pub open spec fn plan_view(p: MediaCommandPlan) -> (int, Seq<char>, bool) {
    match p {
        MediaCommandPlan::Reply(t) => (0, t@, false),
        MediaCommandPlan::Download { url, audio } => (1, url@, audio),
        MediaCommandPlan::Ignored => (2, Seq::empty(), false),
    }
}

proof fn lemma_split_first(s: Seq<char>, c: char)
    ensures
        crate::text::split_spec(s, c).len() > 0,
    decreases s.len(),
{
    if s.len() > 0 {
        lemma_split_first(s.drop_last(), c);
    }
}

/// What a downloader command asks for (see `media_command_spec`).
pub fn media_command(cmd: &str, args: &Vec<String>) -> (r: MediaCommandPlan)
    ensures
        plan_view(r) == media_command_spec(cmd@, views(args@)),
{
    let parts = crate::text::split(cmd, '@');
    proof {
        lemma_split_first(cmd@, '@');
    }
    let c = parts[0].as_str();
    let is_video = crate::text::str_eq(c, "dl") || crate::text::str_eq(c, "download") || crate::text::str_eq(c, "video");
    let is_audio = crate::text::str_eq(c, "mp3") || crate::text::str_eq(c, "audio") || crate::text::str_eq(c, "music");
    if is_video {
        if args.len() == 0 {
            return MediaCommandPlan::Reply(owned("📹 <b>FSocial Video Downloader</b>\n\n<b>Использование:</b> <code>/dl &lt;URL&gt;</code>\nАвтоматически скачивает видео в наилучшем доступном качестве (YouTube, TikTok, Reels, VK, Pinterest)."));
        }
        let (u, p, t) = match MediaDownloader::detect_url(args[0].as_str()) {
            Some(x) => x,
            None => (args[0].clone(), Platform::Unknown, MediaType::Video),
        };
        if p == Platform::Spotify || p == Platform::SoundCloud || t == MediaType::Audio {
            MediaCommandPlan::Reply(owned("⚠️ <b>Это аудио-ресурс</b>\n\nКоманда <code>/dl</code> предназначена только для видео и медиафайлов.\nДля скачивания музыки и плейлистов в MP3 используйте: <code>/mp3 <URL></code>"))
        } else {
            MediaCommandPlan::Download { url: u, audio: false }
        }
    } else if is_audio {
        if args.len() == 0 {
            return MediaCommandPlan::Reply(owned("🎵 <b>FSocial Audio Downloader</b>\n\n<b>Использование:</b> <code>/mp3 &lt;URL&gt;</code>\nАвтоматически скачивает аудио в MP3 (320 kbps) с обложкой альбома (Spotify, SoundCloud, YouTube, TikTok, Reels, VK)."));
        }
        let u = match MediaDownloader::detect_url(args[0].as_str()) {
            Some(x) => x.0,
            None => args[0].clone(),
        };
        MediaCommandPlan::Download { url: u, audio: true }
    } else {
        MediaCommandPlan::Ignored
    }
}

/// The answer to a message with links: the single answer, several in a batch,
/// the errors when nothing came, or nothing.
pub fn combine_answers(answers: Vec<PluginResponse>, errors: &Vec<String>) -> (r: PluginResponse)
    ensures
        answers@.len() == 0 && errors@.len() > 0 ==> (r matches PluginResponse::Error(e) && e@ == crate::text::join_spec(views(errors@), "\n"@)),
        answers@.len() == 0 && errors@.len() == 0 ==> r is Ignored,
        answers@.len() == 1 ==> r == answers@[0],
        answers@.len() > 1 ==> (r matches PluginResponse::Batch(v) && v@ == answers@),
{
    if answers.len() == 0 {
        if errors.len() > 0 {
            return PluginResponse::Error(crate::text::join(errors, "\n"));
        }
        return PluginResponse::Ignored;
    }
    if answers.len() == 1 {
        let mut a = answers;
        return a.remove(0);
    }
    PluginResponse::Batch(answers)
}

/// The quality id and link key of a download button (`mldl:quality:key`).
pub fn download_button(data: &str) -> (r: Option<(String, String)>)
    ensures
        match r {
            Some((q, k)) => has_prefix(data@, "mldl:"@) && crate::text::split_once_spec(data@.skip(5), ':') == Some((q@, k@)),
            None => !has_prefix(data@, "mldl:"@) || crate::text::split_once_spec(data@.skip(5), ':') is None,
        },
{
    if !str_starts_with(data, "mldl:") {
        return None;
    }
    proof {
        reveal_strlit("mldl:");
    }
    let v = crate::text::chars_of(data);
    let rest = crate::text::string_from_range(v.as_slice(), 5, v.len());
    assert(rest@ =~= data@.skip(5));
    crate::text::split_once(rest.as_str(), ':')
}

/// The message of a failed download.
pub fn download_failed_message(err: &str) -> (r: String)
    ensures
        r@ == "Download failed: "@ + err@ + "\n\n(Tip: Ensure `yt-dlp` is installed on server)"@,
{
    let mut s = owned("Download failed: ");
    push_str(&mut s, err);
    push_str(&mut s, "\n\n(Tip: Ensure `yt-dlp` is installed on server)");
    s
}

/// How `Debug` writes an exit code that may be missing: `Some(n)` or `None`.
pub open spec fn exit_code_text(code: Option<i32>) -> Seq<char> {
    match code {
        Some(n) => "Some("@ + crate::diary::signed_dec(n as int) + ")"@,
        None => "None"@,
    }
}

/// The error of a `yt-dlp` run that ended with a failure status.
pub fn exit_code_error(code: Option<i32>) -> (r: String)
    ensures
        r@ == "Download failed with exit code "@ + exit_code_text(code),
{
    let mut s = owned("Download failed with exit code ");
    match code {
        Some(n) => {
            push_str(&mut s, "Some(");
            crate::diary::push_signed_i64(&mut s, n as i64);
            push_str(&mut s, ")");
        },
        None => push_str(&mut s, "None"),
    }
    s
}

/// The error of a `yt-dlp` that could not be started.
pub fn launch_error(err: &str) -> (r: String)
    ensures
        r@ == "yt-dlp executable error: "@ + err@,
{
    let mut s = owned("yt-dlp executable error: ");
    push_str(&mut s, err);
    s
}

/// The error of a download whose file cannot be found afterwards.
pub fn file_not_found_error() -> (r: &'static str)
    ensures
        r@ == "Downloaded file not found on disk"@,
{
    "Downloaded file not found on disk"
}

/// What a playlist download fetches: each of its tracks, or the link itself
/// when no track was listed.
pub fn playlist_targets(url: &str, track_urls: Vec<String>) -> (r: Vec<String>)
    ensures
        track_urls@.len() == 0 ==> r@.len() == 1 && r@[0]@ == url@,
        track_urls@.len() > 0 ==> r@ == track_urls@,
{
    if track_urls.len() == 0 {
        let mut v: Vec<String> = Vec::new();
        v.push(owned(url));
        v
    } else {
        track_urls
    }
}

/// The outcome of a playlist download: the downloaded tracks, or an error
/// when not one of them could be downloaded.
pub fn playlist_outcome<T>(results: Vec<T>) -> (r: Result<Vec<T>, String>)
    ensures
        results@.len() > 0 ==> (r matches Ok(v) && v@ == results@),
        results@.len() == 0 ==> (r matches Err(e) && e@ == "Failed to download playlist tracks"@),
{
    if results.len() == 0 {
        Err(owned("Failed to download playlist tracks"))
    } else {
        Ok(results)
    }
}

// ── Downloading a single link ───────────────────────────────

/// How a single link is downloaded after any Pinterest attempt: a Spotify
/// track directly, or anything else in the best audio or the best video.
#[derive(PartialEq, Eq, Structural, Clone, Copy, Debug)]
pub enum AutoDownload {
    SpotifyTrack,
    Generic(Quality),
}

/// Pinterest links are first tried as a pin image.
pub open spec fn tries_pin_first(url: Seq<char>) -> bool {
    has_infix(url, "pinterest.com"@) || has_infix(url, "pin.it"@)
}

/// How a single link is downloaded (see `AutoDownload`).
pub open spec fn auto_download_spec(url: Seq<char>, audio: bool) -> AutoDownload {
    if has_infix(url, "spotify.com/track/"@) {
        AutoDownload::SpotifyTrack
    } else if audio {
        AutoDownload::Generic(Quality::AudioBest)
    } else {
        AutoDownload::Generic(Quality::Best)
    }
}

/// Whether a link is first tried as a Pinterest pin, and how it is downloaded
/// otherwise (see `tries_pin_first` and `auto_download_spec`).
pub fn auto_download(url: &str, audio: bool) -> (r: (bool, AutoDownload))
    ensures
        r.0 == tries_pin_first(url@),
        r.1 == auto_download_spec(url@, audio),
{
    let pin = str_contains(url, "pinterest.com") || str_contains(url, "pin.it");
    let how = if str_contains(url, "spotify.com/track/") {
        AutoDownload::SpotifyTrack
    } else if audio {
        AutoDownload::Generic(Quality::AudioBest)
    } else {
        AutoDownload::Generic(Quality::Best)
    };
    (pin, how)
}

/// The library entry for a downloaded file the library does not know: titled
/// "Media", of the download's kind, from its link.
pub fn unknown_download_item(id: &str, audio: bool, file_name: &str, source_url: &str, created_at: &str) -> (r: MediaItem)
    ensures
        r.id@ == id@,
        r.title@ == "Media"@,
        r.uploader is None,
        r.media_type@ == (if audio { "audio"@ } else { "video"@ }),
        r.file_name@ == file_name@,
        r.cover_file is None,
        r.duration_secs is None,
        r.source_url@ == source_url@,
        r.created_at@ == created_at@,
{
    downloaded_item(id, owned("Media"), None, audio, file_name, None, None, source_url, created_at)
}

} // verus!
