//! The web player's server logic: content types, byte ranges, playlists,
//! download tasks and uploads.

use vstd::prelude::*;
use crate::media::MediaItem;
use crate::text::{
    chars_of, dec, fmt_dec, lower_ascii_seq, owned, parse_u64, parse_u64_spec, push_dec, push_str,
    replace_spec, replace_str, split_once, split_once_spec, str_contains, str_eq, take_chars,
    take_first_chars, to_ascii_lower, trim, trim_spec, has_infix, views, to_lowercase,
    unicode_lowercase, has_suffix, in_set, CharSet,
};

verus! {

// ── Content types ───────────────────────────────────────────

/// The extension of a path's file name (`std::path::Path::extension`).
pub uninterp spec fn path_extension(path: Seq<char>) -> Option<Seq<char>>;

/// The final component of a path (`std::path::Path::file_name`).
pub uninterp spec fn path_file_name(path: Seq<char>) -> Option<Seq<char>>;

/// `Path::new(path).extension()` as a string; a part that is not valid UTF-8
/// cannot occur in a `&str`. Its result is the name `path_extension`.
#[verifier::external_body]
fn extension_of(path: &str) -> (r: Option<String>)
    ensures
        match r {
            Some(e) => path_extension(path@) == Some(e@),
            None => path_extension(path@) is None,
        },
{
    std::path::Path::new(path).extension().and_then(|e| e.to_str()).map(|e| e.to_string())
}

/// `Path::new(path).file_name()` as a string. Its result is the name `path_file_name`.
#[verifier::external_body]
pub(crate) fn file_name_of(path: &str) -> (r: Option<String>)
    ensures
        match r {
            Some(e) => path_file_name(path@) == Some(e@),
            None => path_file_name(path@) is None,
        },
{
    std::path::Path::new(path).file_name().and_then(|e| e.to_str()).map(|e| e.to_string())
}

/// The content type of a lower-cased extension, or `default` for an unknown one.
pub open spec fn mime_of_ext(ext: Seq<char>, default: Seq<char>) -> Seq<char> {
    if ext == "mp3"@ {
        "audio/mpeg"@
    } else if ext == "m4a"@ || ext == "aac"@ {
        "audio/mp4"@
    } else if ext == "ogg"@ || ext == "opus"@ {
        "audio/ogg"@
    } else if ext == "wav"@ {
        "audio/wav"@
    } else if ext == "flac"@ {
        "audio/flac"@
    } else if ext == "mp4"@ || ext == "m4v"@ {
        "video/mp4"@
    } else if ext == "webm"@ {
        "video/webm"@
    } else if ext == "mov"@ {
        "video/quicktime"@
    } else if ext == "mkv"@ {
        "video/x-matroska"@
    } else if ext == "jpg"@ || ext == "jpeg"@ {
        "image/jpeg"@
    } else if ext == "png"@ {
        "image/png"@
    } else if ext == "webp"@ {
        "image/webp"@
    } else if ext == "svg"@ {
        "image/svg+xml"@
    } else {
        default
    }
}

/// The content type of a file: by its extension, compared without ASCII case.
pub open spec fn guess_mime_spec(path: Seq<char>, default: Seq<char>) -> Seq<char> {
    match path_extension(path) {
        Some(e) => mime_of_ext(lower_ascii_seq(e), default),
        None => default,
    }
}

fn ascii_lower(s: &str) -> (r: String)
    ensures
        r@ == lower_ascii_seq(s@),
{
    let v = chars_of(s);
    let mut out = String::new();
    let mut i: usize = 0;
    while i < v.len()
        invariant
            i <= v.len(),
            v@ == s@,
            out@ == lower_ascii_seq(v@.take(i as int)),
        decreases v.len() - i,
    {
        crate::text::push_char(&mut out, to_ascii_lower(v[i]));
        i = i + 1;
        assert(out@ =~= lower_ascii_seq(v@.take(i as int)));
    }
    assert(v@.take(v.len() as int) =~= v@);
    out
}

/// The content type of a media file (see `guess_mime_spec`).
pub fn guess_media_mime(path: &str, default_mime: &'static str) -> (r: &'static str)
    ensures
        r@ == guess_mime_spec(path@, default_mime@),
{
    match extension_of(path) {
        Some(e) => {
            let l = ascii_lower(e.as_str());
            let x = l.as_str();
            if str_eq(x, "mp3") {
                "audio/mpeg"
            } else if str_eq(x, "m4a") || str_eq(x, "aac") {
                "audio/mp4"
            } else if str_eq(x, "ogg") || str_eq(x, "opus") {
                "audio/ogg"
            } else if str_eq(x, "wav") {
                "audio/wav"
            } else if str_eq(x, "flac") {
                "audio/flac"
            } else if str_eq(x, "mp4") || str_eq(x, "m4v") {
                "video/mp4"
            } else if str_eq(x, "webm") {
                "video/webm"
            } else if str_eq(x, "mov") {
                "video/quicktime"
            } else if str_eq(x, "mkv") {
                "video/x-matroska"
            } else if str_eq(x, "jpg") || str_eq(x, "jpeg") {
                "image/jpeg"
            } else if str_eq(x, "png") {
                "image/png"
            } else if str_eq(x, "webp") {
                "image/webp"
            } else if str_eq(x, "svg") {
                "image/svg+xml"
            } else {
                default_mime
            }
        },
        None => default_mime,
    }
}

// ── Byte ranges ─────────────────────────────────────────────

/// The text before the first `-` and, if there is one, the text up to the next.
pub open spec fn range_parts(spec: Seq<char>) -> (Seq<char>, Option<Seq<char>>) {
    match split_once_spec(spec, '-') {
        Some((a, rest)) => (
            a,
            Some(
                match split_once_spec(rest, '-') {
                    Some((b, _)) => b,
                    None => rest,
                },
            ),
        ),
        None => (spec, None),
    }
}

/// The last byte of a file, as `total.saturating_sub(1)`.
pub open spec fn last_byte(total: u64) -> u64 {
    if total == 0 {
        0
    } else {
        (total - 1) as u64
    }
}

/// The bytes `start..=end` that a `Range: bytes=start-end` header asks of a file
/// of `total` bytes: a missing or unreadable start is 0, a missing end or an
/// unreadable one is the last byte, an end past the file is cut to its last
/// byte; the range is served only when it starts inside the file and is not
/// reversed.
pub open spec fn byte_range_spec(header: Option<Seq<char>>, total: u64) -> Option<(u64, u64)> {
    match header {
        Some(h) => if h.len() >= 6 && h.take(6) == "bytes="@ {
            let (a, b) = range_parts(h.skip(6));
            let start: u64 = match parse_u64_spec(a) {
                Some(n) => n,
                None => 0,
            };
            let end0: u64 = match b {
                Some(e) => if e.len() > 0 {
                    match parse_u64_spec(e) {
                        Some(n) => n,
                        None => last_byte(total),
                    }
                } else {
                    last_byte(total)
                },
                None => last_byte(total),
            };
            let end: u64 = if end0 < last_byte(total) {
                end0
            } else {
                last_byte(total)
            };
            if start <= end && start < total {
                Some((start, end))
            } else {
                None
            }
        } else {
            None
        },
        None => None,
    }
}

/// The byte range a request asks for (see `byte_range_spec`).
pub fn byte_range(header: Option<&str>, total: u64) -> (r: Option<(u64, u64)>)
    ensures
        r == byte_range_spec(
            match header {
                Some(h) => Some(h@),
                None => None,
            },
            total,
        ),
        r matches Some((s, e)) ==> s <= e < total,
{
    let h = match header {
        Some(h) => h,
        None => {
            return None;
        },
    };
    let v = chars_of(h);
    proof {
        reveal_strlit("bytes=");
    }
    if v.len() < 6 || !crate::text::starts_with(v.as_slice(), chars_of("bytes=").as_slice()) {
        proof {
            if v@.len() >= 6 {
                assert(!crate::text::has_prefix(h@, "bytes="@));
                assert(h@.take(6) != "bytes="@) by {
                    if h@.take(6) == "bytes="@ {
                        assert(h@.subrange(0, 6) =~= h@.take(6));
                    }
                }
            }
        }
        return None;
    }
    assert(h@.take(6) =~= "bytes="@) by {
        assert(h@.subrange(0, 6) =~= "bytes="@);
    }
    let spec = crate::text::string_from_range(v.as_slice(), 6, v.len());
    assert(spec@ =~= h@.skip(6));
    let last: u64 = if total == 0 {
        0
    } else {
        total - 1
    };
    let (a, b) = match split_once(spec.as_str(), '-') {
        Some((a, rest)) => {
            let b = match split_once(rest.as_str(), '-') {
                Some((b, _)) => b,
                None => rest,
            };
            (a, Some(b))
        },
        None => (spec, None),
    };
    let start: u64 = match parse_u64(a.as_str()) {
        Some(n) => n,
        None => 0,
    };
    let end0: u64 = match b {
        Some(e) => {
            if chars_of(e.as_str()).len() > 0 {
                match parse_u64(e.as_str()) {
                    Some(n) => n,
                    None => last,
                }
            } else {
                last
            }
        },
        None => last,
    };
    let end: u64 = if end0 < last {
        end0
    } else {
        last
    };
    if start <= end && start < total {
        Some((start, end))
    } else {
        None
    }
}

/// The `Content-Range` value of a served range.
pub fn content_range(start: u64, end: u64, total: u64) -> (r: String)
    ensures
        r@ == "bytes "@ + dec(start as nat) + "-"@ + dec(end as nat) + "/"@ + dec(total as nat),
{
    let mut s = owned("bytes ");
    push_dec(&mut s, start);
    push_str(&mut s, "-");
    push_dec(&mut s, end);
    push_str(&mut s, "/");
    push_dec(&mut s, total);
    s
}

// ── Playlists ───────────────────────────────────────────────

/// A playlist of the web player: media item ids in order.
pub struct Playlist {
    pub id: String,
    pub name: String,
    /// `"audio"` or `"video"`.
    pub playlist_type: String,
    pub item_ids: Vec<String>,
    pub created_at: String,
}

/// What a playlist is, as plain values.
pub type PlaylistView = (Seq<char>, Seq<char>, Seq<char>, Seq<Seq<char>>, Seq<char>);

pub open spec fn pl_view(p: Playlist) -> PlaylistView {
    (p.id@, p.name@, p.playlist_type@, views(p.item_ids@), p.created_at@)
}

pub open spec fn pl_views(v: Seq<Playlist>) -> Seq<PlaylistView> {
    v.map_values(|p: Playlist| pl_view(p))
}

fn make_playlist(id: &str, name: &str, kind: &str, created_at: &str) -> (r: Playlist)
    ensures
        pl_view(r) == (id@, name@, kind@, Seq::<Seq<char>>::empty(), created_at@),
{
    let r = Playlist {
        id: owned(id),
        name: owned(name),
        playlist_type: owned(kind),
        item_ids: Vec::new(),
        created_at: owned(created_at),
    };
    assert(views(r.item_ids@) =~= Seq::<Seq<char>>::empty());
    r
}

/// The playlists a new library starts with: favourite tracks and saved videos.
pub fn default_playlists(today: &str) -> (r: Vec<Playlist>)
    ensures
        pl_views(r@) == seq![
            ("favorites_audio"@, "Любимые треки"@, "audio"@, Seq::<Seq<char>>::empty(), today@),
            ("favorites_video"@, "Сохраненные видео"@, "video"@, Seq::<Seq<char>>::empty(), today@),
        ],
{
    let mut v: Vec<Playlist> = Vec::new();
    v.push(make_playlist("favorites_audio", "Любимые треки", "audio", today));
    v.push(make_playlist("favorites_video", "Сохраненные видео", "video", today));
    assert(pl_views(v@) =~= seq![
        ("favorites_audio"@, "Любимые треки"@, "audio"@, Seq::<Seq<char>>::empty(), today@),
        ("favorites_video"@, "Сохраненные видео"@, "video"@, Seq::<Seq<char>>::empty(), today@),
    ]);
    v
}

/// A new playlist: its name trimmed, of the requested kind or else audio.
pub fn new_playlist(id: &str, name: &str, kind: Option<&str>, created_at: &str) -> (r: Playlist)
    ensures
        pl_view(r) == (
            id@,
            trim_spec(name@),
            match kind {
                Some(k) => k@,
                None => "audio"@,
            },
            Seq::<Seq<char>>::empty(),
            created_at@,
        ),
{
    let n = trim(name);
    let k = match kind {
        Some(k) => k,
        None => "audio",
    };
    make_playlist(id, n.as_str(), k, created_at)
}

/// The playlist id of a new playlist: `pl_` and a short id.
pub fn playlist_id(short_id: &str) -> (r: String)
    ensures
        r@ == "pl_"@ + short_id@,
{
    let mut s = owned("pl_");
    push_str(&mut s, short_id);
    s
}

/// The playlists without those of the id.
pub open spec fn without_playlist(v: Seq<PlaylistView>, id: Seq<char>) -> Seq<PlaylistView> {
    v.filter(other_playlist(id))
}

pub open spec fn other_playlist(id: Seq<char>) -> spec_fn(PlaylistView) -> bool {
    |p: PlaylistView| p.0 != id
}

/// Delete a playlist: the others stay in order; the result says whether one was removed.
pub fn delete_playlist(list: Vec<Playlist>, id: &str) -> (r: (Vec<Playlist>, bool))
    ensures
        pl_views(r.0@) == without_playlist(pl_views(list@), id@),
        r.1 == (r.0@.len() < list@.len()),
{
    let ghost orig = list@;
    let n = list.len();
    let mut rest = list;
    let mut out: Vec<Playlist> = Vec::new();
    let mut k: usize = 0;
    assert(rest@ =~= orig.skip(0));
    while rest.len() > 0
        invariant
            k + rest@.len() == orig.len(),
            n == orig.len(),
            rest@ == orig.skip(k as int),
            pl_views(out@) == without_playlist(pl_views(orig.take(k as int)), id@),
            out@.len() <= k,
        decreases rest.len(),
    {
        let x = rest.remove(0);
        proof {
            assert(x == orig[k as int]);
            assert(pl_views(orig.take(k + 1)) =~= pl_views(orig.take(k as int)).push(pl_view(x)));
            pl_views(orig.take(k as int)).lemma_filter_push(pl_view(x), other_playlist(id@));
            assert(rest@ =~= orig.skip(k + 1));
        }
        let ghost prev = out@;
        if !str_eq(x.id.as_str(), id) {
            out.push(x);
            assert(pl_views(out@) =~= pl_views(prev).push(pl_view(x)));
        }
        k = k + 1;
    }
    assert(orig.take(orig.len() as int) =~= orig);
    let removed = out.len() < n;
    (out, removed)
}

/// The position of the first playlist of the id.
pub open spec fn playlist_pos(v: Seq<PlaylistView>, id: Seq<char>) -> Option<int> {
    if exists|k: int| 0 <= k < v.len() && (#[trigger] v[k]).0 == id {
        Some(choose|k: int| 0 <= k < v.len() && v[k].0 == id && forall|j: int| 0 <= j < k ==> (#[trigger] v[j]).0 != id)
    } else {
        None
    }
}

fn find_playlist(list: &Vec<Playlist>, id: &str) -> (r: Option<usize>)
    ensures
        match r {
            Some(k) => playlist_pos(pl_views(list@), id@) == Some(k as int) && k < list@.len(),
            None => playlist_pos(pl_views(list@), id@) is None,
        },
{
    let ghost v = pl_views(list@);
    let mut i: usize = 0;
    while i < list.len()
        invariant
            i <= list.len(),
            v == pl_views(list@),
            forall|j: int| 0 <= j < i ==> (#[trigger] v[j]).0 != id@,
        decreases list.len() - i,
    {
        if str_eq(list[i].id.as_str(), id) {
            proof {
                assert(v[i as int].0 == id@);
                let c = choose|k: int| 0 <= k < v.len() && v[k].0 == id@ && forall|j: int| 0 <= j < k ==> (#[trigger] v[j]).0 != id@;
                if c < i {
                    assert(v[c].0 != id@);
                }
                if c > i {
                    assert(v[i as int].0 != id@);
                }
            }
            return Some(i);
        }
        i = i + 1;
    }
    None
}

/// A playlist with the item appended, unless it is already in it.
pub open spec fn with_item(p: PlaylistView, item: Seq<char>) -> PlaylistView {
    if p.3.contains(item) {
        p
    } else {
        (p.0, p.1, p.2, p.3.push(item), p.4)
    }
}

/// A playlist without any occurrence of the item.
pub open spec fn without_item(p: PlaylistView, item: Seq<char>) -> PlaylistView {
    (p.0, p.1, p.2, p.3.filter(other_item(item)), p.4)
}

pub open spec fn other_item(item: Seq<char>) -> spec_fn(Seq<char>) -> bool {
    |x: Seq<char>| x != item
}

fn contains_id(v: &Vec<String>, x: &str) -> (b: bool)
    ensures
        b == views(v@).contains(x@),
{
    let mut i: usize = 0;
    while i < v.len()
        invariant
            i <= v.len(),
            forall|k: int| 0 <= k < i ==> views(v@)[k] != x@,
        decreases v.len() - i,
    {
        if str_eq(v[i].as_str(), x) {
            assert(views(v@)[i as int] == x@);
            return true;
        }
        i = i + 1;
    }
    false
}

fn remove_all(v: &mut Vec<String>, x: &str)
    ensures
        views(final(v)@) == views(old(v)@).filter(other_item(x@)),
{
    let ghost orig = views(v@);
    let mut out: Vec<String> = Vec::new();
    let mut i: usize = 0;
    while i < v.len()
        invariant
            i <= v.len(),
            orig == views(v@),
            views(out@) == orig.take(i as int).filter(other_item(x@)),
        decreases v.len() - i,
    {
        proof {
            assert(orig.take(i + 1) =~= orig.take(i as int).push(orig[i as int]));
            orig.take(i as int).lemma_filter_push(orig[i as int], other_item(x@));
        }
        if !str_eq(v[i].as_str(), x) {
            let ghost prev = out@;
            out.push(v[i].clone());
            assert(views(out@) =~= views(prev).push(v@[i as int]@));
        }
        i = i + 1;
    }
    assert(orig.take(orig.len() as int) =~= orig);
    *v = out;
}

/// Add an item to the first playlist of the id; the updated playlist, or `None`
/// when there is no such playlist (then nothing changes).
pub fn add_item_to_playlist(list: &mut Vec<Playlist>, id: &str, item: &str) -> (r: Option<usize>)
    ensures
        match r {
            Some(k) => playlist_pos(pl_views(old(list)@), id@) == Some(k as int) && pl_views(
                final(list)@,
            ) == pl_views(old(list)@).update(k as int, with_item(pl_views(old(list)@)[k as int], item@)),
            None => playlist_pos(pl_views(old(list)@), id@) is None && final(list)@ == old(list)@,
        },
{
    match find_playlist(list, id) {
        Some(k) => {
            let mut p = list.remove(k);
            if !contains_id(&p.item_ids, item) {
                let ghost prev = p.item_ids@;
                p.item_ids.push(owned(item));
                assert(views(p.item_ids@) =~= views(prev).push(item@));
            }
            let ghost pv = pl_view(p);
            list.insert(k, p);
            assert(pl_views(list@) =~= pl_views(old(list)@).update(
                k as int,
                with_item(pl_views(old(list)@)[k as int], item@),
            ));
            Some(k)
        },
        None => None,
    }
}

/// Remove an item from the first playlist of the id (see `add_item_to_playlist`).
pub fn remove_item_from_playlist(list: &mut Vec<Playlist>, id: &str, item: &str) -> (r: Option<usize>)
    ensures
        match r {
            Some(k) => playlist_pos(pl_views(old(list)@), id@) == Some(k as int) && pl_views(
                final(list)@,
            ) == pl_views(old(list)@).update(k as int, without_item(pl_views(old(list)@)[k as int], item@)),
            None => playlist_pos(pl_views(old(list)@), id@) is None && final(list)@ == old(list)@,
        },
{
    match find_playlist(list, id) {
        Some(k) => {
            let mut p = list.remove(k);
            remove_all(&mut p.item_ids, item);
            list.insert(k, p);
            assert(pl_views(list@) =~= pl_views(old(list)@).update(
                k as int,
                without_item(pl_views(old(list)@)[k as int], item@),
            ));
            Some(k)
        },
        None => None,
    }
}

/// Remove a deleted item from every playlist; whether any playlist changed.
pub fn remove_item_everywhere(list: &mut Vec<Playlist>, item: &str) -> (changed: bool)
    ensures
        pl_views(final(list)@) == pl_views(old(list)@).map_values(
            |p: PlaylistView| without_item(p, item@),
        ),
        changed == exists|k: int|
            0 <= k < old(list)@.len() && views((#[trigger] old(list)@[k]).item_ids@).contains(item@),
{
    let ghost orig = old(list)@;
    let mut changed = false;
    let mut i: usize = 0;
    while i < list.len()
        invariant
            i <= list.len(),
            list@.len() == orig.len(),
            forall|k: int| i <= k < orig.len() ==> list@[k] == orig[k],
            forall|k: int|
                0 <= k < i ==> pl_view(#[trigger] list@[k]) == without_item(pl_view(orig[k]), item@),
            changed == exists|k: int|
                0 <= k < i && views((#[trigger] orig[k]).item_ids@).contains(item@),
        decreases list.len() - i,
    {
        let mut p = list.remove(i);
        let before = p.item_ids.len();
        let had = contains_id(&p.item_ids, item);
        remove_all(&mut p.item_ids, item);
        proof {
            broadcast use vstd::seq_lib::group_filter_ensures;
            let ids = views(orig[i as int].item_ids@);
            if had {
                let j = choose|j: int| 0 <= j < ids.len() && ids[j] == item@;
                lemma_filter_drops(ids, item@, j);
            } else {
                lemma_filter_same(ids, item@);
            }
            assert(views(p.item_ids@).len() == p.item_ids@.len());
        }
        if p.item_ids.len() != before {
            changed = true;
        }
        list.insert(i, p);
        proof {
            assert(had == views(orig[i as int].item_ids@).contains(item@));
            if changed {
                if !had {
                    let k = choose|k: int| 0 <= k < i && views((#[trigger] orig[k]).item_ids@).contains(item@);
                    assert(0 <= k < i + 1);
                }
            }
        }
        i = i + 1;
    }
    assert(pl_views(list@) =~= pl_views(orig).map_values(|p: PlaylistView| without_item(p, item@)));
    changed
}

/// Filtering out a present item shortens the list; filtering an absent one keeps it.
proof fn lemma_filter_drops(s: Seq<Seq<char>>, x: Seq<char>, j: int)
    requires
        0 <= j < s.len(),
        s[j] == x,
    ensures
        s.filter(other_item(x)).len() < s.len(),
    decreases s.len(),
{
    reveal_with_fuel(Seq::filter, 1);
    let init = s.drop_last();
    assert(init.push(s.last()) =~= s);
    init.lemma_filter_push(s.last(), other_item(x));
    broadcast use vstd::seq_lib::group_filter_ensures;
    if j < s.len() - 1 {
        lemma_filter_drops(init, x, j);
    }
}

/// Adding an item puts it in the playlist exactly once, when it was not there.
pub proof fn lemma_add_then_contains(p: PlaylistView, item: Seq<char>)
    ensures
        with_item(p, item).3.contains(item),
        with_item(with_item(p, item), item) == with_item(p, item),
        !p.3.contains(item) ==> with_item(p, item).3.len() == p.3.len() + 1,
{
    if !p.3.contains(item) {
        assert(p.3.push(item)[p.3.len() as int] == item);
    }
}

/// Removing an item leaves none of it, and removing it again changes nothing.
pub proof fn lemma_remove_then_absent(p: PlaylistView, item: Seq<char>)
    ensures
        !without_item(p, item).3.contains(item),
        without_item(without_item(p, item), item) == without_item(p, item),
{
    broadcast use vstd::seq_lib::group_filter_ensures;

    let f = p.3.filter(other_item(item));
    if f.contains(item) {
        let k = choose|k: int| 0 <= k < f.len() && f[k] == item;
        assert(other_item(item)(f[k]));
    }
    lemma_filter_same(f, item);
}

proof fn lemma_filter_same(s: Seq<Seq<char>>, item: Seq<char>)
    requires
        !s.contains(item),
    ensures
        s.filter(other_item(item)) == s,
    decreases s.len(),
{
    reveal_with_fuel(Seq::filter, 1);
    if s.len() > 0 {
        let init = s.drop_last();
        assert(init.push(s.last()) =~= s);
        assert(!init.contains(item)) by {
            if init.contains(item) {
                let k = choose|k: int| 0 <= k < init.len() && init[k] == item;
                assert(s[k] == item);
            }
        }
        lemma_filter_same(init, item);
        init.lemma_filter_push(s.last(), other_item(item));
        assert(s[s.len() - 1] == s.last());
    }
}

// ── Download tasks ──────────────────────────────────────────

/// The progress of a download started from the web player.
pub struct DownloadTaskState {
    pub task_id: String,
    pub url: String,
    pub title: String,
    pub is_playlist: bool,
    pub total_tracks: usize,
    pub completed_tracks: usize,
    pub current_track: Option<String>,
    pub current_artist: Option<String>,
    pub percent: u8,
    /// `"queued"`, `"downloading"`, `"done"` or `"error"`.
    pub status: String,
    pub error: Option<String>,
    pub items: Vec<MediaItem>,
}

impl DownloadTaskState {
    /// Progress is a percentage.
    pub open spec fn wf(self) -> bool {
        self.percent <= 100
    }
}

/// The link with its scheme removed, cut to 35 characters: the title shown
/// until the real one is known.
pub open spec fn title_preview_spec(url: Seq<char>) -> Seq<char> {
    take_chars(replace_spec(replace_spec(url, "https://"@, Seq::empty()), "http://"@, Seq::empty()), 35)
}

/// The title shown for a link before it is known (see `title_preview_spec`).
pub fn title_preview(url: &str) -> (r: String)
    ensures
        r@ == title_preview_spec(url@),
{
    proof {
        reveal_strlit("https://");
        reveal_strlit("http://");
        reveal_strlit("");
        assert(""@ =~= Seq::<char>::empty());
    }
    let a = replace_str(url, "https://", "");
    let b = replace_str(a.as_str(), "http://", "");
    take_first_chars(b.as_str(), 35)
}

/// Links to playlists and albums.
pub open spec fn is_playlist_link_spec(url: Seq<char>) -> bool {
    has_infix(url, "/playlist/"@) || has_infix(url, "/album/"@) || has_infix(url, "list="@)
}

/// Whether a link is taken for a playlist (see `is_playlist_link_spec`).
pub fn is_playlist_link(url: &str) -> (b: bool)
    ensures
        b == is_playlist_link_spec(url@),
{
    str_contains(url, "/playlist/") || str_contains(url, "/album/") || str_contains(url, "list=")
}

/// A playlist of Spotify, downloaded track by track.
pub fn is_spotify_playlist(url: &str) -> (b: bool)
    ensures
        b == (is_playlist_link_spec(url@) && (has_infix(url@, "spotify.com"@) || has_infix(
            url@,
            "open.spotify.com"@,
        ))),
{
    is_playlist_link(url) && (str_contains(url, "spotify.com") || str_contains(url, "open.spotify.com"))
}

/// A queued task for a link (trimmed): its preview title, one track, 5%.
pub fn new_task(task_id: &str, raw_url: &str) -> (r: DownloadTaskState)
    ensures
        r.wf(),
        r.task_id@ == task_id@,
        r.url@ == trim_spec(raw_url@),
        r.title@ == title_preview_spec(trim_spec(raw_url@)),
        r.is_playlist == is_playlist_link_spec(trim_spec(raw_url@)),
        r.total_tracks == 1,
        r.completed_tracks == 0,
        r.current_track is None,
        r.current_artist is None,
        r.percent == 5,
        r.status@ == "queued"@,
        r.error is None,
        r.items@.len() == 0,
{
    let url = trim(raw_url);
    let title = title_preview(url.as_str());
    let is_playlist = is_playlist_link(url.as_str());
    DownloadTaskState {
        task_id: owned(task_id),
        url,
        title,
        is_playlist,
        total_tracks: 1,
        completed_tracks: 0,
        current_track: None,
        current_artist: None,
        percent: 5,
        status: owned("queued"),
        error: None,
        items: Vec::new(),
    }
}

/// A task that can be dropped: done or failed.
pub open spec fn is_finished(t: DownloadTaskState) -> bool {
    t.status@ == "done"@ || t.status@ == "error"@
}

/// Drop the first `n` finished tasks, keeping the rest in order.
pub open spec fn drop_finished(ts: Seq<DownloadTaskState>, n: nat) -> Seq<DownloadTaskState>
    decreases ts.len(),
{
    if ts.len() == 0 {
        ts
    } else if n > 0 && is_finished(ts[0]) {
        drop_finished(ts.drop_first(), (n - 1) as nat)
    } else {
        seq![ts[0]] + drop_finished(ts.drop_first(), n)
    }
}

/// Before a new task is added to more than a hundred, the oldest finished ones
/// are dropped so that about eighty remain.
pub open spec fn evict_spec(ts: Seq<DownloadTaskState>) -> Seq<DownloadTaskState> {
    if ts.len() > 100 {
        drop_finished(ts, (ts.len() - 80) as nat)
    } else {
        ts
    }
}

/// Make room for a new task (see `evict_spec`).
pub fn evict_finished(tasks: Vec<DownloadTaskState>) -> (r: Vec<DownloadTaskState>)
    ensures
        r@ == evict_spec(tasks@),
{
    if tasks.len() <= 100 {
        return tasks;
    }
    let ghost orig = tasks@;
    let n = tasks.len();
    let mut budget: usize = tasks.len() - 80;
    let mut rest = tasks;
    let mut kept: Vec<DownloadTaskState> = Vec::new();
    let mut k: usize = 0;
    assert(rest@ =~= orig.skip(0));
    assert(kept@ + drop_finished(orig.skip(0), budget as nat) =~= drop_finished(orig, (orig.len() - 80) as nat));
    while rest.len() > 0
        invariant
            rest@ == orig.skip(k as int),
            k + rest@.len() == orig.len(),
            n == orig.len(),
            kept@ + drop_finished(rest@, budget as nat) == drop_finished(orig, (orig.len() - 80) as nat),
        decreases rest.len(),
    {
        let ghost r0 = rest@;
        let t = rest.remove(0);
        assert(rest@ =~= r0.drop_first());
        let fin = str_eq(t.status.as_str(), "done") || str_eq(t.status.as_str(), "error");
        if budget > 0 && fin {
            budget = budget - 1;
        } else {
            let ghost pk = kept@;
            kept.push(t);
            assert(kept@ + drop_finished(rest@, budget as nat) =~= pk + (seq![t] + drop_finished(rest@, budget as nat)));
        }
        k = k + 1;
        assert(rest@ =~= orig.skip(k as int));
    }
    assert(kept@ =~= kept@ + drop_finished(rest@, budget as nat));
    kept
}

impl DownloadTaskState {
    /// A Spotify playlist is being downloaded: its title and size are known.
    pub fn begin_tracks(&mut self, title: String, total: usize)
        ensures
            final(self).wf(),
            final(self).title@ == title@,
            final(self).total_tracks == total,
            final(self).is_playlist,
            final(self).status@ == "downloading"@,
            final(self).percent == 10,
            final(self).completed_tracks == old(self).completed_tracks,
            final(self).items == old(self).items,
            final(self).task_id == old(self).task_id,
            final(self).url == old(self).url,
            final(self).current_track == old(self).current_track,
            final(self).current_artist == old(self).current_artist,
            final(self).error == old(self).error,
    {
        self.title = title;
        self.total_tracks = total;
        self.is_playlist = true;
        self.status = owned("downloading");
        self.percent = 10;
    }

    /// Track `idx` of `total` is being downloaded: progress runs from 10% to 95%.
    pub fn track_started(&mut self, idx: usize, total: usize, title: &str, artist: &str)
        requires
            idx < total,
            total <= usize::MAX / 85,
        ensures
            final(self).wf(),
            final(self).percent == (idx * 85) as int / total as int + 10,
            10 <= final(self).percent <= 95,
            opt_str(final(self).current_track) == Some(title@),
            opt_str(final(self).current_artist) == (if artist@.len() > 0 {
                Some(artist@)
            } else {
                None
            }),
            final(self).status == old(self).status,
            final(self).completed_tracks == old(self).completed_tracks,
            final(self).task_id == old(self).task_id,
            final(self).url == old(self).url,
            final(self).title == old(self).title,
            final(self).is_playlist == old(self).is_playlist,
            final(self).total_tracks == old(self).total_tracks,
            final(self).error == old(self).error,
            final(self).items == old(self).items,
    {
        self.current_track = Some(owned(title));
        self.current_artist = if chars_of(artist).len() > 0 {
            Some(owned(artist))
        } else {
            None
        };
        assert((idx * 85) as int / total as int <= 85) by (nonlinear_arith)
            requires
                idx < total,
        ;
        let p = idx * 85 / total + 10;
        self.percent = p as u8;
    }

    /// One more track was downloaded.
    pub fn track_finished(&mut self)
        requires
            old(self).wf(),
            old(self).completed_tracks < usize::MAX,
        ensures
            final(self).wf(),
            final(self).completed_tracks == old(self).completed_tracks + 1,
            final(self).percent == old(self).percent,
            final(self).status == old(self).status,
            final(self).task_id == old(self).task_id,
            final(self).url == old(self).url,
            final(self).title == old(self).title,
            final(self).is_playlist == old(self).is_playlist,
            final(self).total_tracks == old(self).total_tracks,
            final(self).current_track == old(self).current_track,
            final(self).current_artist == old(self).current_artist,
            final(self).error == old(self).error,
            final(self).items == old(self).items,
    {
        self.completed_tracks = self.completed_tracks + 1;
    }

    /// The tracks are done: finished with the downloaded items, or failed when none came.
    pub fn finish_tracks(&mut self, items: Vec<MediaItem>)
        ensures
            final(self).wf(),
            final(self).percent == 100,
            items@.len() == 0 ==> final(self).status@ == "error"@ && opt_str(final(self).error)
                == Some("Не удалось загрузить треки из плейлиста"@),
            items@.len() > 0 ==> final(self).status@ == "done"@ && final(self).items@ == items@,
            final(self).task_id == old(self).task_id,
            final(self).url == old(self).url,
            final(self).title == old(self).title,
            final(self).is_playlist == old(self).is_playlist,
            final(self).total_tracks == old(self).total_tracks,
            final(self).completed_tracks == old(self).completed_tracks,
            final(self).current_track == old(self).current_track,
            final(self).current_artist == old(self).current_artist,
            items@.len() == 0 ==> final(self).items == old(self).items,
            items@.len() > 0 ==> final(self).error == old(self).error,
    {
        if items.len() == 0 {
            self.status = owned("error");
            self.error = Some(owned("Не удалось загрузить треки из плейлиста"));
            self.percent = 100;
        } else {
            self.status = owned("done");
            self.percent = 100;
            self.items = items;
        }
    }

    /// A download through yt-dlp has begun: 15% for a playlist, 25% for one item.
    pub fn begin_download(&mut self, playlist: bool)
        ensures
            final(self).wf(),
            final(self).status@ == "downloading"@,
            final(self).percent == (if playlist { 15u8 } else { 25u8 }),
            final(self).items == old(self).items,
            final(self).task_id == old(self).task_id,
            final(self).url == old(self).url,
            final(self).title == old(self).title,
            final(self).is_playlist == old(self).is_playlist,
            final(self).total_tracks == old(self).total_tracks,
            final(self).completed_tracks == old(self).completed_tracks,
            final(self).current_track == old(self).current_track,
            final(self).current_artist == old(self).current_artist,
            final(self).error == old(self).error,
    {
        self.status = owned("downloading");
        self.percent = if playlist {
            15
        } else {
            25
        };
    }

    /// A playlist was downloaded: all its items are done.
    pub fn playlist_done(&mut self, items: Vec<MediaItem>)
        ensures
            final(self).wf(),
            final(self).status@ == "done"@,
            final(self).percent == 100,
            final(self).completed_tracks == items@.len(),
            final(self).total_tracks == items@.len(),
            final(self).items@ == items@,
            final(self).task_id == old(self).task_id,
            final(self).url == old(self).url,
            final(self).title == old(self).title,
            final(self).is_playlist == old(self).is_playlist,
            final(self).current_track == old(self).current_track,
            final(self).current_artist == old(self).current_artist,
            final(self).error == old(self).error,
    {
        self.status = owned("done");
        self.percent = 100;
        self.completed_tracks = items.len();
        self.total_tracks = items.len();
        self.items = items;
    }

    /// One item was downloaded: the task takes its title.
    pub fn single_done(&mut self, item: MediaItem)
        ensures
            final(self).wf(),
            final(self).title@ == item.title@,
            final(self).status@ == "done"@,
            final(self).percent == 100,
            final(self).items@ == seq![item],
            final(self).task_id == old(self).task_id,
            final(self).url == old(self).url,
            final(self).is_playlist == old(self).is_playlist,
            final(self).total_tracks == old(self).total_tracks,
            final(self).completed_tracks == old(self).completed_tracks,
            final(self).current_track == old(self).current_track,
            final(self).current_artist == old(self).current_artist,
            final(self).error == old(self).error,
    {
        self.title = item.title.clone();
        self.status = owned("done");
        self.percent = 100;
        let mut v: Vec<MediaItem> = Vec::new();
        v.push(item);
        self.items = v;
    }

    /// The download failed with a message; progress stays where it was.
    pub fn failed(&mut self, message: String)
        requires
            old(self).wf(),
        ensures
            final(self).wf(),
            final(self).status@ == "error"@,
            opt_str(final(self).error) == Some(message@),
            final(self).percent == old(self).percent,
            final(self).task_id == old(self).task_id,
            final(self).url == old(self).url,
            final(self).title == old(self).title,
            final(self).is_playlist == old(self).is_playlist,
            final(self).total_tracks == old(self).total_tracks,
            final(self).completed_tracks == old(self).completed_tracks,
            final(self).current_track == old(self).current_track,
            final(self).current_artist == old(self).current_artist,
            final(self).items == old(self).items,
    {
        self.status = owned("error");
        self.error = Some(message);
    }
}

pub open spec fn opt_str(o: Option<String>) -> Option<Seq<char>> {
    match o {
        Some(s) => Some(s@),
        None => None,
    }
}

// ── Uploads ─────────────────────────────────────────────────

/// The largest upload accepted: 200 MiB.
pub open spec fn max_upload_bytes() -> nat {
    209715200
}

/// An upload of this many bytes is accepted.
pub fn upload_within_limit(len: usize) -> (b: bool)
    ensures
        b == (len <= max_upload_bytes()),
{
    len <= 209715200
}

/// How an uploaded file is stored.
pub struct UploadPlan {
    /// The file name of the upload, without directories.
    pub file_name: String,
    /// Its extension, lower-cased.
    pub ext: String,
    pub is_audio: bool,
    /// The stored name: the new id and the extension.
    pub target_name: String,
    /// The title: the file name without `.ext`.
    pub title: String,
}

/// Audio extensions of uploads.
pub open spec fn is_audio_ext(e: Seq<char>) -> bool {
    e == "mp3"@ || e == "wav"@ || e == "ogg"@ || e == "m4a"@ || e == "flac"@
}

/// How an upload is stored: its file name (or "upload.mp4"), its lower-cased
/// extension (or "mp4"), the stored name `id.ext`, and its title.
pub open spec fn upload_plan_spec(raw: Option<Seq<char>>, id: Seq<char>) -> (Seq<char>, Seq<char>, bool, Seq<char>, Seq<char>) {
    let r = match raw {
        Some(x) => x,
        None => "upload.mp4"@,
    };
    let name = match path_file_name(r) {
        Some(n) => n,
        None => "upload.mp4"@,
    };
    let ext = unicode_lowercase(
        match path_extension(name) {
            Some(e) => e,
            None => "mp4"@,
        },
    );
    (name, ext, is_audio_ext(ext), id + "."@ + ext, replace_spec(name, "."@ + ext, Seq::empty()))
}

/// How an upload is stored (see `upload_plan_spec`).
pub fn upload_plan(raw_name: Option<&str>, file_id: &str) -> (r: UploadPlan)
    ensures
        (r.file_name@, r.ext@, r.is_audio, r.target_name@, r.title@) == upload_plan_spec(
            match raw_name {
                Some(x) => Some(x@),
                None => None,
            },
            file_id@,
        ),
{
    let raw = match raw_name {
        Some(x) => x,
        None => "upload.mp4",
    };
    let file_name = match file_name_of(raw) {
        Some(n) => n,
        None => owned("upload.mp4"),
    };
    let e = match extension_of(file_name.as_str()) {
        Some(e) => e,
        None => owned("mp4"),
    };
    let ext = to_lowercase(e.as_str());
    let is_audio = str_eq(ext.as_str(), "mp3") || str_eq(ext.as_str(), "wav") || str_eq(
        ext.as_str(),
        "ogg",
    ) || str_eq(ext.as_str(), "m4a") || str_eq(ext.as_str(), "flac");
    let mut target = owned(file_id);
    push_str(&mut target, ".");
    push_str(&mut target, ext.as_str());
    let mut dot_ext = owned(".");
    push_str(&mut dot_ext, ext.as_str());
    proof {
        reveal_strlit(".");
        reveal_strlit("");
        assert(""@ =~= Seq::<char>::empty());
    }
    let title = replace_str(file_name.as_str(), dot_ext.as_str(), "");
    UploadPlan { file_name, ext, is_audio, target_name: target, title }
}

// ── The tunnel's address ────────────────────────────────────

/// The part of `s` before its first character from `set`.
pub open spec fn until_set(s: Seq<char>, set: CharSet) -> Seq<char>
    decreases s.len(),
{
    if s.len() == 0 {
        s
    } else if in_set(set, s[0]) {
        Seq::empty()
    } else {
        seq![s[0]] + until_set(s.drop_first(), set)
    }
}

/// The public address a line of the tunnel's log announces: on a line that
/// mentions `trycloudflare.com`, the link from its first `https://` up to
/// white space, `|` or `+`, when that link ends in `.trycloudflare.com`.
pub open spec fn tunnel_url_spec(line: Seq<char>) -> Option<Seq<char>> {
    if has_infix(line, "trycloudflare.com"@) {
        match crate::fetch::first_occ(line, "https://"@) {
            Some(k) => {
                let u = crate::text::trim_spec(until_set(line.skip(k), CharSet::LinkEnd));
                if has_suffix(u, ".trycloudflare.com"@) {
                    Some(u)
                } else {
                    None
                }
            },
            None => None,
        }
    } else {
        None
    }
}

/// The public address a line of the tunnel's log announces (see `tunnel_url_spec`).
pub fn tunnel_url(line: &str) -> (r: Option<String>)
    ensures
        match r {
            Some(u) => tunnel_url_spec(line@) == Some(u@),
            None => tunnel_url_spec(line@) is None,
        },
{
    if !crate::text::str_contains(line, "trycloudflare.com") {
        return None;
    }
    let v = crate::text::chars_of(line);
    match crate::fetch::first_position(&v, "https://") {
        Some(k) => {
            let mut j: usize = k;
            proof {
                assert(v@.skip(k as int).subrange(0, 0) =~= Seq::<char>::empty());
            }
            while j < v.len() && !crate::text::in_set_exec(CharSet::LinkEnd, v[j])
                invariant
                    k <= j <= v.len(),
                    v@ == line@,
                    until_set(v@.skip(k as int), CharSet::LinkEnd) == v@.subrange(k as int, j as int) + until_set(
                        v@.skip(j as int),
                        CharSet::LinkEnd,
                    ),
                decreases v.len() - j,
            {
                proof {
                    let rest = v@.skip(j as int);
                    assert(rest.drop_first() =~= v@.skip(j + 1));
                    assert(rest[0] == v@[j as int]);
                    assert(v@.subrange(k as int, j + 1) =~= v@.subrange(k as int, j as int) + seq![v@[j as int]]);
                }
                j = j + 1;
            }
            proof {
                if j < v.len() {
                    assert(v@.skip(j as int)[0] == v@[j as int]);
                } else {
                    assert(v@.skip(j as int) =~= Seq::<char>::empty());
                }
                assert(until_set(v@.skip(k as int), CharSet::LinkEnd) =~= v@.subrange(k as int, j as int));
            }
            let raw = crate::text::string_from_range(v.as_slice(), k, j);
            let u = crate::text::trim(raw.as_str());
            if crate::text::str_ends_with(u.as_str(), ".trycloudflare.com") {
                Some(u)
            } else {
                None
            }
        },
        None => None,
    }
}

} // verus!
