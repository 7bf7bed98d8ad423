//! Recognising media links and reading what their pages and `yt-dlp` report.

use vstd::prelude::*;
use crate::media::{InfoResponse, Quality, QualityOption, SpotifyEntity, SpotifyTrackMeta};
use crate::text::{
    chars_of, has_infix, occurs_at, owned, parse_u64, parse_u64_spec, replace_spec, replace_str,
    split_whitespace, str_contains, string_from_range, find_seq, views, words_spec, trim,
    trim_spec, str_eq,
};

verus! {

// ── Platforms and regular expressions ───────────────────────

/// A site that media links point to.
#[derive(PartialEq, Eq, Structural, Clone, Copy, Debug)]
pub enum Platform {
    YouTube,
    TikTok,
    Instagram,
    Spotify,
    SoundCloud,
    Pinterest,
    Unknown,
}

/// What a link points to.
#[derive(PartialEq, Eq, Structural, Clone, Copy, Debug)]
pub enum MediaType {
    Video,
    Audio,
    Playlist,
}

/// The first match of `pattern` in `text` (`regex::Regex::find`), `None` also
/// when the pattern does not compile.
pub uninterp spec fn regex_first_match(pattern: Seq<char>, text: Seq<char>) -> Option<Seq<char>>;

/// All non-overlapping matches of `pattern` in `text` (`regex::Regex::find_iter`).
pub uninterp spec fn regex_all_matches(pattern: Seq<char>, text: Seq<char>) -> Seq<Seq<char>>;

/// The groups of the first match of `pattern` in `text` (`regex::Regex::captures`),
/// group 0 being the whole match.
pub uninterp spec fn regex_groups(pattern: Seq<char>, text: Seq<char>) -> Option<
    Seq<Option<Seq<char>>>,
>;

/// `regex::Regex::new(pattern)` and then `find(text)`: the result is the name
/// `regex_first_match`; nothing more is stated of the regex engine.
#[verifier::external_body]
fn regex_find(pattern: &str, text: &str) -> (r: Option<String>)
    ensures
        match r {
            Some(m) => regex_first_match(pattern@, text@) == Some(m@),
            None => regex_first_match(pattern@, text@) is None,
        },
{
    match regex::Regex::new(pattern) {
        Ok(re) => re.find(text).map(|m| m.as_str().to_string()),
        Err(_) => None,
    }
}

/// `regex::Regex::new(pattern)` and then `find_iter(text)`, each match as a string;
/// an uncompilable pattern has no matches. The first match `find_iter` yields is
/// the leftmost-first match that `find` gives (both start at the haystack's start).
#[verifier::external_body]
fn regex_find_all(pattern: &str, text: &str) -> (r: Vec<String>)
    ensures
        views(r@) == regex_all_matches(pattern@, text@),
        regex_first_match(pattern@, text@) == (if r@.len() > 0 { Some(r@[0]@) } else { None::<Seq<char>> }),
{
    match regex::Regex::new(pattern) {
        Ok(re) => re.find_iter(text).map(|m| m.as_str().to_string()).collect(),
        Err(_) => Vec::new(),
    }
}

/// The pieces of `text` between the matches of `pattern` (`regex::Regex::split`),
/// no piece when the pattern does not compile.
pub uninterp spec fn regex_split_parts(pattern: Seq<char>, text: Seq<char>) -> Seq<Seq<char>>;

/// `regex::Regex::new(pattern)` and then `split(text)`, each piece as a string;
/// the pieces are the name `regex_split_parts`.
#[verifier::external_body]
pub(crate) fn regex_split(pattern: &str, text: &str) -> (r: Vec<String>)
    ensures
        views(r@) == regex_split_parts(pattern@, text@),
{
    match regex::Regex::new(pattern) {
        Ok(re) => re.split(text).map(|p| p.to_string()).collect(),
        Err(_) => Vec::new(),
    }
}

/// `regex::Regex::new(pattern)` and then `captures(text)`, each group as a string
/// where it took part in the match.
#[verifier::external_body]
fn regex_captures(pattern: &str, text: &str) -> (r: Option<Vec<Option<String>>>)
    ensures
        match r {
            Some(g) => regex_groups(pattern@, text@) == Some(
                g@.map_values(|o: Option<String>| opt_seq(o)),
            ),
            None => regex_groups(pattern@, text@) is None,
        },
{
    match regex::Regex::new(pattern) {
        Ok(re) => re.captures(text).map(
            |c| c.iter().map(|m| m.map(|m| m.as_str().to_string())).collect(),
        ),
        Err(_) => None,
    }
}

pub open spec fn opt_seq(o: Option<String>) -> Option<Seq<char>> {
    match o {
        Some(s) => Some(s@),
        None => None,
    }
}

/// Group `k` of the first match, when the pattern matches and the group took part.
pub open spec fn group(pattern: Seq<char>, text: Seq<char>, k: int) -> Option<Seq<char>> {
    match regex_groups(pattern, text) {
        Some(g) => if 0 <= k < g.len() {
            g[k]
        } else {
            None
        },
        None => None,
    }
}

/// Group `k` of the first match of `pattern` in `text` (see `group`).
pub fn capture_group(pattern: &str, text: &str, k: usize) -> (r: Option<String>)
    ensures
        opt_seq(r) == group(pattern@, text@, k as int),
{
    match regex_captures(pattern, text) {
        Some(g) => {
            if k < g.len() {
                match &g[k] {
                    Some(s) => Some(s.clone()),
                    None => None,
                }
            } else {
                None
            }
        },
        None => None,
    }
}

// ── Link detection ──────────────────────────────────────────

/// The number of known link patterns.
pub open spec fn pattern_count() -> nat {
    7
}

/// The known link patterns, tried in this order, with what a match means.
pub open spec fn link_pattern(i: int) -> (Seq<char>, Platform, MediaType) {
    if i == 0 {
        (
            "https?://(?:www\\.)?(?:youtube\\.com/watch\\?v=|youtu\\.be/|youtube\\.com/shorts/|youtube\\.com/live/|youtube\\.com/playlist\\?list=)[^\\s]+"@,
            Platform::YouTube,
            MediaType::Video,
        )
    } else if i == 1 {
        (
            "https?://(?:www\\.)?(?:tiktok\\.com/@[^/]+/video/|tiktok\\.com/t/|vm\\.tiktok\\.com/|vt\\.tiktok\\.com/|v\\.tiktok\\.com/)[^\\s]+"@,
            Platform::TikTok,
            MediaType::Video,
        )
    } else if i == 2 {
        (
            "https?://(?:www\\.)?instagram\\.com/(?:reel|p|reels)/[^\\s]+"@,
            Platform::Instagram,
            MediaType::Video,
        )
    } else if i == 3 {
        ("https?://(?:open\\.)?spotify\\.com/track/[^\\s]+"@, Platform::Spotify, MediaType::Audio)
    } else if i == 4 {
        (
            "https?://(?:open\\.)?spotify\\.com/(?:album|playlist)/[^\\s]+"@,
            Platform::Spotify,
            MediaType::Playlist,
        )
    } else if i == 5 {
        ("https?://(?:www\\.)?soundcloud\\.com/[^\\s]+"@, Platform::SoundCloud, MediaType::Audio)
    } else {
        (
            "https?://(?:www\\.|pin\\.)?(?:pinterest\\.com/(?:pin|video)/|pin\\.it/)[^\\s]+"@,
            Platform::Pinterest,
            MediaType::Video,
        )
    }
}

fn link_pattern_exec(i: usize) -> (r: (&'static str, Platform, MediaType))
    requires
        i < 7,
    ensures
        (r.0@, r.1, r.2) == link_pattern(i as int),
{
    if i == 0 {
        (
            "https?://(?:www\\.)?(?:youtube\\.com/watch\\?v=|youtu\\.be/|youtube\\.com/shorts/|youtube\\.com/live/|youtube\\.com/playlist\\?list=)[^\\s]+",
            Platform::YouTube,
            MediaType::Video,
        )
    } else if i == 1 {
        (
            "https?://(?:www\\.)?(?:tiktok\\.com/@[^/]+/video/|tiktok\\.com/t/|vm\\.tiktok\\.com/|vt\\.tiktok\\.com/|v\\.tiktok\\.com/)[^\\s]+",
            Platform::TikTok,
            MediaType::Video,
        )
    } else if i == 2 {
        (
            "https?://(?:www\\.)?instagram\\.com/(?:reel|p|reels)/[^\\s]+",
            Platform::Instagram,
            MediaType::Video,
        )
    } else if i == 3 {
        ("https?://(?:open\\.)?spotify\\.com/track/[^\\s]+", Platform::Spotify, MediaType::Audio)
    } else if i == 4 {
        (
            "https?://(?:open\\.)?spotify\\.com/(?:album|playlist)/[^\\s]+",
            Platform::Spotify,
            MediaType::Playlist,
        )
    } else if i == 5 {
        ("https?://(?:www\\.)?soundcloud\\.com/[^\\s]+", Platform::SoundCloud, MediaType::Audio)
    } else {
        (
            "https?://(?:www\\.|pin\\.)?(?:pinterest\\.com/(?:pin|video)/|pin\\.it/)[^\\s]+",
            Platform::Pinterest,
            MediaType::Video,
        )
    }
}

/// `i` is the first position at which `n` occurs in `h`.
pub open spec fn is_first_occ(h: Seq<char>, n: Seq<char>, i: int) -> bool {
    0 <= i && occurs_at(h, n, i) && forall|j: int| 0 <= j < i ==> !occurs_at(h, n, j)
}

/// The first position at which `n` occurs in `h`, as `str::find`.
pub open spec fn first_occ(h: Seq<char>, n: Seq<char>) -> Option<int> {
    if has_infix(h, n) {
        Some(choose|i: int| is_first_occ(h, n, i))
    } else {
        None
    }
}

/// Any `http://` link, or failing that any `https://` link: the first
/// white-space separated word from its start.
pub open spec fn fallback_link(text: Seq<char>) -> Option<Seq<char>> {
    let start = match first_occ(text, "http://"@) {
        Some(k) => Some(k),
        None => first_occ(text, "https://"@),
    };
    match start {
        Some(k) => {
            let ws = words_spec(text.skip(k));
            if ws.len() > 0 {
                Some(ws[0])
            } else {
                None
            }
        },
        None => None,
    }
}

/// The link of `text`: the first known pattern (in order) that matches, or else
/// the fallback link of an unknown video platform.
pub open spec fn detect_from(text: Seq<char>, i: nat) -> Option<(Seq<char>, Platform, MediaType)>
    decreases pattern_count() - i,
{
    if i >= pattern_count() {
        match fallback_link(text) {
            Some(u) => Some((u, Platform::Unknown, MediaType::Video)),
            None => None,
        }
    } else {
        let (p, plat, ty) = link_pattern(i as int);
        match regex_first_match(p, text) {
            Some(m) => Some((m, plat, ty)),
            None => detect_from(text, i + 1),
        }
    }
}

pub open spec fn detect_url_spec(text: Seq<char>) -> Option<(Seq<char>, Platform, MediaType)> {
    detect_from(text, 0)
}

/// The first position of `n` in the characters `h` (see `first_occ`).
pub fn first_position(h: &Vec<char>, n: &str) -> (r: Option<usize>)
    ensures
        match r {
            Some(i) => first_occ(h@, n@) == Some(i as int) && is_first_occ(h@, n@, i as int) && i <= h@.len(),
            None => first_occ(h@, n@) is None,
        },
{
    let nv = chars_of(n);
    let r = find_seq(h.as_slice(), nv.as_slice());
    match r {
        Some(i) => {
            assert(is_first_occ(h@, n@, i as int));
            assert(has_infix(h@, n@));
            let ghost c = choose|j: int| is_first_occ(h@, n@, j);
            assert(is_first_occ(h@, n@, c));
            assert(c == i) by {
                if c < i {
                    assert(!occurs_at(h@, n@, c));
                } else if c > i {
                    assert(!occurs_at(h@, n@, i as int));
                }
            }
        },
        None => {},
    }
    r
}

/// The fallback link of `text` (see `fallback_link`).
pub fn fallback_url(text: &str) -> (r: Option<String>)
    ensures
        opt_seq(r) == fallback_link(text@),
{
    let v = chars_of(text);
    let start = match first_position(&v, "http://") {
        Some(k) => Some(k),
        None => first_position(&v, "https://"),
    };
    match start {
        Some(k) => {
            let rest = string_from_range(v.as_slice(), k, v.len());
            assert(rest@ =~= text@.skip(k as int));
            let ws = split_whitespace(rest.as_str());
            if ws.len() > 0 {
                Some(ws[0].clone())
            } else {
                None
            }
        },
        None => None,
    }
}

/// One found link.
pub type Link = (Seq<char>, Platform, MediaType);

/// Append the matches of pattern `i` whose text is not yet among the links.
pub open spec fn add_matches(acc: Seq<Link>, ms: Seq<Seq<char>>, plat: Platform, ty: MediaType) -> Seq<Link>
    decreases ms.len(),
{
    if ms.len() == 0 {
        acc
    } else {
        let prev = add_matches(acc, ms.drop_last(), plat, ty);
        if exists|k: int| 0 <= k < prev.len() && (#[trigger] prev[k]).0 == ms.last() {
            prev
        } else {
            prev.push((ms.last(), plat, ty))
        }
    }
}

/// The links of the patterns before `i`, each text once, in order of pattern and position.
pub open spec fn all_links_upto(text: Seq<char>, i: nat) -> Seq<Link>
    decreases i,
{
    if i == 0 {
        Seq::empty()
    } else {
        let (p, plat, ty) = link_pattern(i - 1);
        add_matches(all_links_upto(text, (i - 1) as nat), regex_all_matches(p, text), plat, ty)
    }
}

/// Every distinct link of the known patterns, or else the single fallback link.
pub open spec fn detect_all_spec(text: Seq<char>) -> Seq<Link> {
    let found = all_links_upto(text, pattern_count());
    if found.len() > 0 {
        found
    } else {
        match fallback_link(text) {
            Some(u) => seq![(u, Platform::Unknown, MediaType::Video)],
            None => Seq::empty(),
        }
    }
}

pub open spec fn link_views(v: Seq<(String, Platform, MediaType)>) -> Seq<Link> {
    v.map_values(|t: (String, Platform, MediaType)| (t.0@, t.1, t.2))
}

fn has_link(v: &Vec<(String, Platform, MediaType)>, u: &str) -> (b: bool)
    ensures
        b == exists|k: int| 0 <= k < v@.len() && (#[trigger] link_views(v@)[k]).0 == u@,
{
    let mut i: usize = 0;
    while i < v.len()
        invariant
            i <= v.len(),
            forall|k: int| 0 <= k < i ==> (#[trigger] link_views(v@)[k]).0 != u@,
        decreases v.len() - i,
    {
        if str_eq(v[i].0.as_str(), u) {
            assert(link_views(v@)[i as int].0 == u@);
            return true;
        }
        i = i + 1;
    }
    false
}

/// The media downloader: where it keeps its files.
pub struct MediaDownloader {
    pub download_dir: String,
}

impl MediaDownloader {
    /// The first media link in `text` with its platform and kind (see `detect_url_spec`).
    pub fn detect_url(text: &str) -> (r: Option<(String, Platform, MediaType)>)
        ensures
            match r {
                Some(t) => detect_url_spec(text@) == Some((t.0@, t.1, t.2)),
                None => detect_url_spec(text@) is None,
            },
    {
        let mut i: usize = 0;
        while i < 7
            invariant
                i <= 7,
                detect_url_spec(text@) == detect_from(text@, i as nat),
            decreases 7 - i,
        {
            let (p, plat, ty) = link_pattern_exec(i);
            match regex_find(p, text) {
                Some(m) => {
                    return Some((m, plat, ty));
                },
                None => {},
            }
            i = i + 1;
        }
        match fallback_url(text) {
            Some(u) => Some((u, Platform::Unknown, MediaType::Video)),
            None => None,
        }
    }

    /// Every distinct media link of `text` (see `detect_all_spec`). The first
    /// of them is the link `detect_url` finds, no two have the same address,
    /// and a link of an unknown platform comes only alone.
    pub fn detect_all_urls(text: &str) -> (r: Vec<(String, Platform, MediaType)>)
        ensures
            link_views(r@) == detect_all_spec(text@),
            r@.len() > 0 ==> detect_url_spec(text@) == Some(link_views(r@)[0]),
            r@.len() == 0 ==> detect_url_spec(text@) is None,
            distinct_links(link_views(r@)),
            forall|j: int| 0 <= j < r@.len() && (#[trigger] r@[j]).1 == Platform::Unknown ==> r@.len() == 1,
    {
        let mut out: Vec<(String, Platform, MediaType)> = Vec::new();
        let mut i: usize = 0;
        while i < 7
            invariant
                i <= 7,
                link_views(out@) == all_links_upto(text@, i as nat),
                forall|k: int| 0 <= k < i ==> #[trigger] first_agrees(text@, k),
            decreases 7 - i,
        {
            let (p, plat, ty) = link_pattern_exec(i);
            let ms = regex_find_all(p, text);
            assert(first_agrees(text@, i as int));
            let ghost acc = link_views(out@);
            let mut j: usize = 0;
            while j < ms.len()
                invariant
                    j <= ms.len(),
                    link_views(out@) == add_matches(acc, views(ms@).take(j as int), plat, ty),
                decreases ms.len() - j,
            {
                assert(views(ms@).take(j + 1).drop_last() =~= views(ms@).take(j as int));
                if !has_link(&out, ms[j].as_str()) {
                    let ghost prev = out@;
                    out.push((ms[j].clone(), plat, ty));
                    assert(link_views(out@) =~= link_views(prev).push((ms@[j as int]@, plat, ty)));
                }
                j = j + 1;
            }
            assert(views(ms@).take(ms.len() as int) =~= views(ms@));
            i = i + 1;
        }
        proof {
            lemma_links_first(text@, 7);
            lemma_links_distinct_known(text@, 7);
        }
        if out.len() == 0 {
            match fallback_url(text) {
                Some(u) => {
                    out.push((u, Platform::Unknown, MediaType::Video));
                    assert(link_views(out@) =~= detect_all_spec(text@));
                },
                None => {
                    assert(link_views(out@) =~= detect_all_spec(text@));
                },
            }
        } else {
            assert forall|j: int| 0 <= j < out@.len() implies (#[trigger] out@[j]).1 != Platform::Unknown by {
                assert(link_views(out@)[j].1 == out@[j].1);
            }
        }
        out
    }
}

/// Pattern `k` finds first the first of all its matches.
pub open spec fn first_agrees(text: Seq<char>, k: int) -> bool {
    let ms = regex_all_matches(link_pattern(k).0, text);
    regex_first_match(link_pattern(k).0, text) == (if ms.len() > 0 { Some(ms[0]) } else { None::<Seq<char>> })
}

/// No two links have the same address.
pub open spec fn distinct_links(s: Seq<Link>) -> bool {
    forall|a: int, b: int| 0 <= a < b < s.len() ==> (#[trigger] s[a]).0 != (#[trigger] s[b]).0
}

/// Adding matches keeps the links already there, adds only links of the
/// pattern's platform and kind, keeps addresses distinct, and makes the first
/// match the first link when there was none.
proof fn lemma_add_matches(acc: Seq<Link>, ms: Seq<Seq<char>>, plat: Platform, ty: MediaType)
    ensures
        add_matches(acc, ms, plat, ty).len() >= acc.len(),
        forall|j: int| 0 <= j < acc.len() ==> add_matches(acc, ms, plat, ty)[j] == acc[j],
        forall|j: int|
            acc.len() <= j < add_matches(acc, ms, plat, ty).len() ==> add_matches(acc, ms, plat, ty)[j].1
                == plat,
        ms.len() == 0 ==> add_matches(acc, ms, plat, ty) == acc,
        acc.len() == 0 && ms.len() > 0 ==> add_matches(acc, ms, plat, ty).len() > 0
            && add_matches(acc, ms, plat, ty)[0] == (ms[0], plat, ty),
        distinct_links(acc) ==> distinct_links(add_matches(acc, ms, plat, ty)),
    decreases ms.len(),
{
    if ms.len() > 0 {
        let d = ms.drop_last();
        lemma_add_matches(acc, d, plat, ty);
        let prev = add_matches(acc, d, plat, ty);
        if acc.len() == 0 && d.len() == 0 {
            assert(prev =~= acc);
        }
        if acc.len() == 0 && d.len() > 0 {
            assert(d[0] == ms[0]);
        }
    }
}

/// The first link of the patterns before `i` is the link `detect_url` finds,
/// and with none of them matching it finds what pattern `i` on finds.
proof fn lemma_links_first(text: Seq<char>, i: nat)
    requires
        i <= pattern_count(),
        forall|k: int| 0 <= k < i ==> #[trigger] first_agrees(text, k),
    ensures
        all_links_upto(text, i).len() == 0 ==> detect_from(text, 0) == detect_from(text, i),
        all_links_upto(text, i).len() > 0 ==> detect_from(text, 0) == Some(all_links_upto(text, i)[0]),
    decreases i,
{
    if i > 0 {
        let k = (i - 1) as nat;
        lemma_links_first(text, k);
        let (p, plat, ty) = link_pattern(k as int);
        let ms = regex_all_matches(p, text);
        let l = all_links_upto(text, k);
        lemma_add_matches(l, ms, plat, ty);
        assert(first_agrees(text, k as int));
    }
}

/// The links of the known patterns have distinct addresses and known platforms.
proof fn lemma_links_distinct_known(text: Seq<char>, i: nat)
    requires
        i <= pattern_count(),
    ensures
        distinct_links(all_links_upto(text, i)),
        forall|j: int| 0 <= j < all_links_upto(text, i).len() ==> (#[trigger] all_links_upto(text, i)[j]).1
            != Platform::Unknown,
    decreases i,
{
    if i > 0 {
        let k = (i - 1) as nat;
        lemma_links_distinct_known(text, k);
        let (p, plat, ty) = link_pattern(k as int);
        let prev = all_links_upto(text, k);
        lemma_add_matches(prev, regex_all_matches(p, text), plat, ty);
        assert(plat != Platform::Unknown);
        let cur = all_links_upto(text, i);
        assert(cur == add_matches(prev, regex_all_matches(p, text), plat, ty));
        assert forall|j: int| 0 <= j < cur.len() implies (#[trigger] cur[j]).1 != Platform::Unknown by {
            if j < prev.len() {
                assert(cur[j] == prev[j]);
            }
        }
    }
}

// ── JSON fields ─────────────────────────────────────────────

/// A field of a JSON object as read: absent, present but not a string, or a string.
pub enum JsonField {
    Absent,
    NotText,
    Text(String),
}

/// The first field present among `fs`, as text when it is a string; `None`
/// when it is not a string or no field is present.
pub open spec fn first_present_spec(fs: Seq<JsonField>) -> Option<Seq<char>>
    decreases fs.len(),
{
    if fs.len() == 0 {
        None
    } else {
        match fs[0] {
            JsonField::Absent => first_present_spec(fs.drop_first()),
            JsonField::NotText => None,
            JsonField::Text(s) => Some(s@),
        }
    }
}

/// The first present field of several tried in order (such as the uploader,
/// then the channel, then the artist), read as text (see `first_present_spec`).
pub fn first_present(fields: Vec<JsonField>) -> (r: Option<String>)
    ensures
        opt_seq(r) == first_present_spec(fields@),
{
    let mut i: usize = 0;
    assert(fields@.skip(0) =~= fields@);
    while i < fields.len()
        invariant
            i <= fields.len(),
            first_present_spec(fields@) == first_present_spec(fields@.skip(i as int)),
        decreases fields.len() - i,
    {
        assert(fields@.skip(i as int).drop_first() =~= fields@.skip(i + 1));
        assert(fields@.skip(i as int)[0] == fields@[i as int]);
        match &fields[i] {
            JsonField::Absent => {},
            JsonField::NotText => {
                return None;
            },
            JsonField::Text(s) => {
                return Some(s.clone());
            },
        }
        i = i + 1;
    }
    None
}

// ── Spotify pages ───────────────────────────────────────────

/// Open Graph title, description and image of a page.
pub open spec fn og_title_pattern() -> Seq<char> {
    "<meta property=\"og:title\" content=\"([^\"]+)\""@
}

pub open spec fn og_desc_pattern() -> Seq<char> {
    "<meta property=\"og:description\" content=\"([^\"]+)\""@
}

pub open spec fn og_image_pattern() -> Seq<char> {
    "<meta property=\"og:image\" content=\"([^\"]+)\""@
}

/// A playlist size in a description, such as "50 items".
pub open spec fn item_count_pattern() -> Seq<char> {
    "(\\d+)\\s+items?"@
}

/// The three HTML entities that Open Graph titles carry, decoded in this order.
pub open spec fn unescape_og(s: Seq<char>) -> Seq<char> {
    replace_spec(replace_spec(replace_spec(s, "&amp;"@, "&"@), "&#39;"@, "'"@), "&quot;"@, "\""@)
}

/// Decode the entities of an Open Graph title (see `unescape_og`).
pub fn unescape_og_text(s: &str) -> (r: String)
    ensures
        r@ == unescape_og(s@),
{
    proof {
        reveal_strlit("&amp;");
        reveal_strlit("&#39;");
        reveal_strlit("&quot;");
    }
    let a = replace_str(s, "&amp;", "&");
    let b = replace_str(a.as_str(), "&#39;", "'");
    replace_str(b.as_str(), "&quot;", "\"")
}

/// The number that a description's "N items" gives, if it fits in a `u32`.
pub open spec fn item_count(desc: Seq<char>) -> Option<u32> {
    match group(item_count_pattern(), desc, 1) {
        Some(d) => match parse_u64_spec(d) {
            Some(n) => if n <= u32::MAX {
                Some(n as u32)
            } else {
                None
            },
            None => None,
        },
        None => None,
    }
}

/// The playlist size a Spotify page states (see `item_count`).
pub open spec fn page_item_count(html: Seq<char>) -> Option<u32> {
    match group(og_desc_pattern(), html, 1) {
        Some(d) => item_count(d),
        None => None,
    }
}

pub open spec fn opt_html(html: Option<&str>) -> Option<Seq<char>> {
    match html {
        Some(h) => Some(h@),
        None => None,
    }
}

/// The formats a Spotify link is offered in: MP3 at 320k, 256k and 128k.
pub open spec fn spotify_entries() -> Seq<(Quality, Option<u64>)> {
    seq![
        (Quality::AudioBest, Some(8388608u64)),
        (Quality::Audio256, Some(6291456u64)),
        (Quality::Audio128, Some(3145728u64)),
    ]
}

fn spotify_option(q: Quality, size: u64, secs: u64, label: &str) -> (r: QualityOption)
    ensures
        r.quality == q,
        r.filesize_bytes == Some(size),
        r.estimated_secs == Some(secs),
        r.speed_category@ == "⚡"@,
        r.display_label@ == label@,
        r.full_button_label@ == label@,
{
    QualityOption {
        quality: q,
        filesize_bytes: Some(size),
        estimated_secs: Some(secs),
        speed_category: owned("⚡"),
        display_label: owned(label),
        full_button_label: owned(label),
    }
}

/// What a Spotify link is, from its address and its page (when it could be fetched).
pub fn spotify_info(url: &str, html: Option<&str>) -> (r: InfoResponse)
    ensures
        r.title@ == (match opt_html(html) {
            Some(h) => match group(og_title_pattern(), h, 1) {
                Some(t) => unescape_og(t),
                None => "Spotify Media"@,
            },
            None => "Spotify Media"@,
        }),
        opt_seq(r.uploader) == Some("Spotify"@),
        opt_seq(r.thumbnail) == (match opt_html(html) {
            Some(h) => group(og_image_pattern(), h, 1),
            None => None,
        }),
        r.duration_secs is None,
        r.playlist_count == (match opt_html(html) {
            Some(h) => page_item_count(h),
            None => None,
        }),
        r.is_playlist == (has_infix(url@, "/playlist/"@) || has_infix(url@, "/album/"@)),
        crate::media::sized_of(r.available_qualities@) == spotify_entries(),
        r.playlist_urls@.len() == 0,
        r.error is None,
{
    let mut title = owned("Spotify Media");
    let mut thumbnail: Option<String> = None;
    let mut playlist_count: Option<u32> = None;
    match html {
        Some(h) => {
            match capture_group("<meta property=\"og:title\" content=\"([^\"]+)\"", h, 1) {
                Some(t) => {
                    title = unescape_og_text(t.as_str());
                },
                None => {},
            }
            match capture_group("<meta property=\"og:description\" content=\"([^\"]+)\"", h, 1) {
                Some(d) => {
                    match capture_group("(\\d+)\\s+items?", d.as_str(), 1) {
                        Some(c) => {
                            match parse_u64(c.as_str()) {
                                Some(n) => {
                                    if n <= 4294967295 {
                                        playlist_count = Some(n as u32);
                                    }
                                },
                                None => {},
                            }
                        },
                        None => {},
                    }
                },
                None => {},
            }
            thumbnail = capture_group("<meta property=\"og:image\" content=\"([^\"]+)\"", h, 1);
        },
        None => {},
    }
    let is_playlist = str_contains(url, "/playlist/") || str_contains(url, "/album/");
    let mut q: Vec<QualityOption> = Vec::new();
    q.push(spotify_option(Quality::AudioBest, 8388608, 2, "🎵 MP3 (320k)"));
    q.push(spotify_option(Quality::Audio256, 6291456, 1, "🎵 256k"));
    q.push(spotify_option(Quality::Audio128, 3145728, 1, "🎵 128k"));
    assert(crate::media::sized_of(q@) =~= spotify_entries());
    InfoResponse {
        title,
        uploader: Some(owned("Spotify")),
        thumbnail,
        duration_secs: None,
        available_qualities: q,
        is_playlist,
        playlist_count,
        playlist_urls: Vec::new(),
        error: None,
    }
}

/// The text before the first occurrence of `sep`, or all of it.
pub open spec fn before_first(s: Seq<char>, sep: Seq<char>) -> Seq<char> {
    match first_occ(s, sep) {
        Some(k) => s.take(k),
        None => s,
    }
}

/// The artist a Spotify description names first ("Artist · Song · 2020"),
/// unless it is empty or the words "Song" or "Single".
pub open spec fn og_artist(desc: Seq<char>) -> Option<Seq<char>> {
    let a = trim_spec(before_first(desc, " · "@));
    if a.len() > 0 && a != "Song"@ && a != "Single"@ {
        Some(a)
    } else {
        None
    }
}

/// Title and artist of a Spotify track page, read from its Open Graph tags.
pub open spec fn og_track_spec(html: Option<Seq<char>>) -> (Seq<char>, Option<Seq<char>>) {
    match html {
        Some(h) => (
            match group(og_title_pattern(), h, 1) {
                Some(t) => unescape_og(t),
                None => "Spotify Track"@,
            },
            match group(og_desc_pattern(), h, 1) {
                Some(d) => og_artist(d),
                None => None,
            },
        ),
        None => ("Spotify Track"@, None),
    }
}

/// Title and artist of a Spotify track page (see `og_track_spec`).
pub fn og_track_meta(html: Option<&str>) -> (r: (String, Option<String>))
    ensures
        (r.0@, opt_seq(r.1)) == og_track_spec(opt_html(html)),
{
    let mut title = owned("Spotify Track");
    let mut artist: Option<String> = None;
    match html {
        Some(h) => {
            match capture_group("<meta property=\"og:title\" content=\"([^\"]+)\"", h, 1) {
                Some(t) => {
                    title = unescape_og_text(t.as_str());
                },
                None => {},
            }
            match capture_group("<meta property=\"og:description\" content=\"([^\"]+)\"", h, 1) {
                Some(d) => {
                    let v = chars_of(d.as_str());
                    let end = match first_position(&v, " · ") {
                        Some(k) => k,
                        None => v.len(),
                    };
                    let first = string_from_range(v.as_slice(), 0, end);
                    assert(first@ =~= before_first(d@, " · "@));
                    let a = trim(first.as_str());
                    let n = chars_of(a.as_str()).len();
                    if n > 0 && !str_eq(a.as_str(), "Song") && !str_eq(a.as_str(), "Single") {
                        artist = Some(a);
                    }
                },
                None => {},
            }
        },
        None => {},
    }
    (title, artist)
}

// ── Spotify embeds ──────────────────────────────────────────

/// The address pattern of a Spotify track, playlist or album, with its kind and id.
pub open spec fn entity_pattern() -> Seq<char> {
    "open\\.spotify\\.com/(track|playlist|album)/([a-zA-Z0-9]+)"@
}

/// The kind and id of a Spotify link, if it is one.
pub open spec fn entity_ref_spec(url: Seq<char>) -> Option<(Seq<char>, Seq<char>)> {
    match (group(entity_pattern(), url, 1), group(entity_pattern(), url, 2)) {
        (Some(k), Some(i)) => Some((k, i)),
        _ => None,
    }
}

/// The kind and id of a Spotify link (see `entity_ref_spec`).
pub fn entity_ref(url: &str) -> (r: Option<(String, String)>)
    ensures
        match r {
            Some(p) => entity_ref_spec(url@) == Some((p.0@, p.1@)),
            None => entity_ref_spec(url@) is None,
        },
{
    let k = capture_group("open\\.spotify\\.com/(track|playlist|album)/([a-zA-Z0-9]+)", url, 1);
    let i = capture_group("open\\.spotify\\.com/(track|playlist|album)/([a-zA-Z0-9]+)", url, 2);
    match (k, i) {
        (Some(k), Some(i)) => Some((k, i)),
        _ => None,
    }
}

/// The embed page of a Spotify entity.
pub fn embed_url(kind: &str, id: &str) -> (r: String)
    ensures
        r@ == "https://open.spotify.com/embed/"@ + kind@ + "/"@ + id@,
{
    let mut s = owned("https://open.spotify.com/embed/");
    crate::text::push_str(&mut s, kind);
    crate::text::push_str(&mut s, "/");
    crate::text::push_str(&mut s, id);
    s
}

/// The page data script of an embed page.
pub open spec fn next_data_pattern() -> Seq<char> {
    "(?s)<script[^>]*id=\"__NEXT_DATA__\"[^>]*>(.*?)</script>"@
}

/// The JSON text of an embed page's data script.
pub fn next_data_json(html: &str) -> (r: Option<String>)
    ensures
        opt_seq(r) == group(next_data_pattern(), html@, 1),
{
    capture_group("(?s)<script[^>]*id=\"__NEXT_DATA__\"[^>]*>(.*?)</script>", html, 1)
}

/// One entry of an embed page's track list.
pub struct EmbedTrack {
    pub title: Option<String>,
    pub subtitle: Option<String>,
    /// The `uri`, or else the `id`, of the entry.
    pub uri: Option<String>,
}

/// What the logic reads of an embed page's entity.
pub struct EmbedEntity {
    /// The `title`, or else the `name`.
    pub title: Option<String>,
    /// The address of the first cover art source.
    pub cover: Option<String>,
    pub subtitle: Option<String>,
    /// The names of the `artists` that have one.
    pub artist_names: Vec<String>,
    pub track_list: Option<Vec<EmbedTrack>>,
}

pub open spec fn or_empty(o: Option<String>) -> Seq<char> {
    match o {
        Some(s) => s@,
        None => Seq::empty(),
    }
}

pub type TrackView = (Seq<char>, Seq<char>, Seq<char>, Option<Seq<char>>);

pub open spec fn track_view(t: SpotifyTrackMeta) -> TrackView {
    (t.title@, t.artist@, t.url@, opt_seq(t.cover_url))
}

pub open spec fn track_views(v: Seq<SpotifyTrackMeta>) -> Seq<TrackView> {
    v.map_values(|t: SpotifyTrackMeta| track_view(t))
}

pub open spec fn track_link(id: Seq<char>) -> Seq<char> {
    "https://open.spotify.com/track/"@ + id
}

/// The tracks of a playlist or album list: those with a title, each linked by
/// its id (the URI without `spotify:track:`).
pub open spec fn list_tracks(items: Seq<EmbedTrack>, cover: Option<Seq<char>>) -> Seq<TrackView>
    decreases items.len(),
{
    if items.len() == 0 {
        Seq::empty()
    } else {
        let prev = list_tracks(items.drop_last(), cover);
        let it = items.last();
        if or_empty(it.title).len() > 0 {
            prev.push(
                (
                    or_empty(it.title),
                    or_empty(it.subtitle),
                    track_link(replace_spec(or_empty(it.uri), "spotify:track:"@, Seq::empty())),
                    cover,
                ),
            )
        } else {
            prev
        }
    }
}

/// The artist of a single track: its subtitle, or else its artists' names joined by ", ".
pub open spec fn track_artist(e: EmbedEntity) -> Seq<char> {
    if or_empty(e.subtitle).len() > 0 {
        or_empty(e.subtitle)
    } else {
        crate::text::join_spec(views(e.artist_names@), ", "@)
    }
}

/// The Spotify entity an embed page describes: a single track, or a playlist
/// or album with its listed tracks (albums share their cover with their tracks).
pub open spec fn entity_spec(kind: Seq<char>, id: Seq<char>, e: EmbedEntity, og_cover: Option<Seq<char>>) -> (
    Seq<char>,
    Option<Seq<char>>,
    Option<Seq<char>>,
    bool,
    Seq<TrackView>,
) {
    let title = match e.title {
        Some(t) => t@,
        None => "Spotify Audio"@,
    };
    let cover = match e.cover {
        Some(c) => Some(c@),
        None => og_cover,
    };
    if kind == "track"@ {
        let a = track_artist(e);
        (
            title,
            if a.len() > 0 {
                Some(a)
            } else {
                None
            },
            cover,
            false,
            seq![(title, a, track_link(id), cover)],
        )
    } else {
        let default_cover = if kind == "album"@ {
            cover
        } else {
            None
        };
        (
            title,
            None,
            cover,
            true,
            match e.track_list {
                Some(l) => list_tracks(l@, default_cover),
                None => Seq::empty(),
            },
        )
    }
}

pub open spec fn entity_view(s: SpotifyEntity) -> (
    Seq<char>,
    Option<Seq<char>>,
    Option<Seq<char>>,
    bool,
    Seq<TrackView>,
) {
    (s.title@, opt_seq(s.uploader), opt_seq(s.cover_url), s.is_playlist, track_views(s.tracks@))
}

fn opt_clone(o: &Option<String>) -> (r: Option<String>)
    ensures
        opt_seq(r) == opt_seq(*o),
{
    match o {
        Some(s) => Some(s.clone()),
        None => None,
    }
}

fn string_or_empty(o: &Option<String>) -> (r: String)
    ensures
        r@ == or_empty(*o),
{
    match o {
        Some(s) => s.clone(),
        None => String::new(),
    }
}

/// The Spotify entity of an embed page (see `entity_spec`); `og_cover` stands in
/// for a missing cover.
pub fn build_spotify_entity(kind: &str, id: &str, e: &EmbedEntity, og_cover: Option<String>) -> (r:
    SpotifyEntity)
    ensures
        entity_view(r) == entity_spec(kind@, id@, *e, opt_seq(og_cover)),
{
    let title = match &e.title {
        Some(t) => t.clone(),
        None => owned("Spotify Audio"),
    };
    let cover = match &e.cover {
        Some(c) => Some(c.clone()),
        None => og_cover,
    };
    let mut tracks: Vec<SpotifyTrackMeta> = Vec::new();
    if str_eq(kind, "track") {
        let mut a = string_or_empty(&e.subtitle);
        if chars_of(a.as_str()).len() == 0 {
            a = crate::text::join(&e.artist_names, ", ");
        }
        let mut link = owned("https://open.spotify.com/track/");
        crate::text::push_str(&mut link, id);
        let has_artist = chars_of(a.as_str()).len() > 0;
        let uploader = if has_artist {
            Some(a.clone())
        } else {
            None
        };
        tracks.push(
            SpotifyTrackMeta { title: title.clone(), artist: a, url: link, cover_url: opt_clone(&cover) },
        );
        assert(track_views(tracks@) =~= entity_spec(kind@, id@, *e, opt_seq(og_cover)).4);
        SpotifyEntity { title, uploader, cover_url: cover, is_playlist: false, tracks }
    } else {
        let default_cover = if str_eq(kind, "album") {
            opt_clone(&cover)
        } else {
            None
        };
        match &e.track_list {
            Some(l) => {
                let mut i: usize = 0;
                while i < l.len()
                    invariant
                        i <= l.len(),
                        track_views(tracks@) == list_tracks(l@.take(i as int), opt_seq(default_cover)),
                    decreases l.len() - i,
                {
                    assert(l@.take(i + 1).drop_last() =~= l@.take(i as int));
                    let t_title = string_or_empty(&l[i].title);
                    if chars_of(t_title.as_str()).len() > 0 {
                        let t_artist = string_or_empty(&l[i].subtitle);
                        let uri = string_or_empty(&l[i].uri);
                        proof {
                            reveal_strlit("spotify:track:");
                        }
                        let tid = replace_str(uri.as_str(), "spotify:track:", "");
                        let mut link = owned("https://open.spotify.com/track/");
                        crate::text::push_str(&mut link, tid.as_str());
                        let ghost prev = tracks@;
                        tracks.push(
                            SpotifyTrackMeta {
                                title: t_title,
                                artist: t_artist,
                                url: link,
                                cover_url: opt_clone(&default_cover),
                            },
                        );
                        proof {
                            reveal_strlit("");
                            assert(""@ =~= Seq::<char>::empty());
                        }
                        assert(track_views(tracks@) =~= track_views(prev).push(
                            track_view(tracks@.last()),
                        ));
                    }
                    i = i + 1;
                }
                assert(l@.take(l.len() as int) =~= l@);
            },
            None => {},
        }
        SpotifyEntity { title, uploader: None, cover_url: cover, is_playlist: true, tracks }
    }
}

/// Title, artist and cover of a Spotify entity's first track: its own artist
/// unless empty (then the entity's), its own cover or else the entity's.
pub fn first_track_meta(e: &SpotifyEntity) -> (r: Option<(String, Option<String>, Option<String>)>)
    ensures
        match r {
            Some(t) => track_views(e.tracks@).len() > 0 && {
                let f = track_views(e.tracks@)[0];
                &&& t.0@ == f.0
                &&& opt_seq(t.1) == (if f.1.len() > 0 {
                    Some(f.1)
                } else {
                    opt_seq(e.uploader)
                })
                &&& opt_seq(t.2) == (match f.3 {
                    Some(c) => Some(c),
                    None => opt_seq(e.cover_url),
                })
            },
            None => e.tracks@.len() == 0,
        },
{
    if e.tracks.len() == 0 {
        return None;
    }
    let f = &e.tracks[0];
    let artist = if chars_of(f.artist.as_str()).len() > 0 {
        Some(f.artist.clone())
    } else {
        opt_clone(&e.uploader)
    };
    let cover = match &f.cover_url {
        Some(c) => Some(c.clone()),
        None => opt_clone(&e.cover_url),
    };
    Some((f.title.clone(), artist, cover))
}

// ── yt-dlp reports ──────────────────────────────────────────

/// One format of a `yt-dlp` report.
pub struct FormatInfo {
    pub acodec: Option<String>,
    pub vcodec: Option<String>,
    pub height: Option<i64>,
    pub filesize: Option<u64>,
    pub filesize_approx: Option<u64>,
}

/// What the logic reads of one JSON line of a `yt-dlp --dump-json` report.
pub struct DumpEntry {
    /// The duration in whole seconds.
    pub duration_secs: Option<u64>,
    /// The first of `uploader`, `channel`, `artist` that is present, if a string.
    pub uploader: Option<String>,
    pub thumbnail: Option<String>,
    /// The `_type` of the line.
    pub kind: Option<String>,
    /// The `url` of each of the `entries`, where they are listed.
    pub entries: Option<Vec<Option<String>>>,
    pub title: Option<String>,
    pub formats: Option<Vec<FormatInfo>>,
}

/// A codec field that names a codec (a missing one counts as `"none"`).
pub open spec fn has_codec(c: Option<String>) -> bool {
    match c {
        Some(s) => s@ != "none"@,
        None => false,
    }
}

/// A video format whose height lies in `lo..hi`.
pub open spec fn video_height_in(fi: FormatInfo, lo: int, hi: int) -> bool {
    has_codec(fi.vcodec) && match fi.height {
        Some(h) => lo <= h < hi,
        None => false,
    }
}

/// Some video format has a height in `lo..hi`.
pub open spec fn has_video_in(f: Seq<FormatInfo>, lo: int, hi: int) -> bool {
    exists|k: int| 0 <= k < f.len() && video_height_in(#[trigger] f[k], lo, hi)
}

/// Some format has an audio codec.
pub open spec fn has_audio(f: Seq<FormatInfo>) -> bool {
    exists|k: int| 0 <= k < f.len() && has_codec(#[trigger] f[k].acodec)
}

pub open spec fn any_height() -> (int, int) {
    (i64::MIN as int, i64::MAX as int + 1)
}

pub open spec fn when(b: bool, q: Quality) -> Seq<Quality> {
    if b {
        seq![q]
    } else {
        Seq::empty()
    }
}

/// The resolutions that the video heights of a list of formats fall in, then "best".
pub open spec fn video_part(f: Seq<FormatInfo>) -> Seq<Quality> {
    (Seq::empty() + when(has_video_in(f, 240, 400), Quality::Video360p) + when(
        has_video_in(f, 400, 550),
        Quality::Video480p,
    ) + when(has_video_in(f, 700, 850), Quality::Video720p) + when(
        has_video_in(f, 1000, 1400),
        Quality::Video1080p,
    ) + when(has_video_in(f, 1400, 2000), Quality::Video1440p) + when(
        has_video_in(f, 2000, any_height().1),
        Quality::Video4K,
    )).push(Quality::Best)
}

/// The qualities a list of formats offers: MP3 when some format has audio, and
/// when there are video heights, the resolutions they fall in, then "best".
pub open spec fn format_qualities(f: Seq<FormatInfo>) -> Seq<Quality> {
    when(has_audio(f), Quality::AudioBest) + if has_video_in(f, any_height().0, any_height().1) {
        video_part(f)
    } else {
        Seq::empty()
    }
}

/// `a` followed by `when(b, q)` holds `x` when `a` does, or when `b` holds and `q` is `x`.
proof fn lemma_contains_when(a: Seq<Quality>, b: bool, q: Quality, x: Quality)
    ensures
        (a + when(b, q)).contains(x) <==> a.contains(x) || (b && q == x),
{
    let s = a + when(b, q);
    if a.contains(x) {
        let i = choose|i: int| 0 <= i < a.len() && a[i] == x;
        assert(s[i] == x);
    }
    if b && q == x {
        assert(s[a.len() as int] == x);
    }
    if s.contains(x) {
        let i = choose|i: int| 0 <= i < s.len() && s[i] == x;
        if i >= a.len() {
            assert(b && s[i] == q);
        } else {
            assert(a[i] == x);
        }
    }
}

/// What the resolutions part of the qualities holds.
proof fn lemma_video_part_contains(f: Seq<FormatInfo>, x: Quality)
    ensures
        video_part(f).contains(x) <==> (x == Quality::Best
        || (x == Quality::Video360p && has_video_in(f, 240, 400))
        || (x == Quality::Video480p && has_video_in(f, 400, 550))
        || (x == Quality::Video720p && has_video_in(f, 700, 850))
        || (x == Quality::Video1080p && has_video_in(f, 1000, 1400))
        || (x == Quality::Video1440p && has_video_in(f, 1400, 2000))
        || (x == Quality::Video4K && has_video_in(f, 2000, any_height().1))),
{
    let p0: Seq<Quality> = Seq::empty();
    let p1 = p0 + when(has_video_in(f, 240, 400), Quality::Video360p);
    let p2 = p1 + when(has_video_in(f, 400, 550), Quality::Video480p);
    let p3 = p2 + when(has_video_in(f, 700, 850), Quality::Video720p);
    let p4 = p3 + when(has_video_in(f, 1000, 1400), Quality::Video1080p);
    let p5 = p4 + when(has_video_in(f, 1400, 2000), Quality::Video1440p);
    let p6 = p5 + when(has_video_in(f, 2000, any_height().1), Quality::Video4K);
    let vp = p6.push(Quality::Best);
    assert(vp == video_part(f));
    lemma_contains_when(p0, has_video_in(f, 240, 400), Quality::Video360p, x);
    lemma_contains_when(p1, has_video_in(f, 400, 550), Quality::Video480p, x);
    lemma_contains_when(p2, has_video_in(f, 700, 850), Quality::Video720p, x);
    lemma_contains_when(p3, has_video_in(f, 1000, 1400), Quality::Video1080p, x);
    lemma_contains_when(p4, has_video_in(f, 1400, 2000), Quality::Video1440p, x);
    lemma_contains_when(p5, has_video_in(f, 2000, any_height().1), Quality::Video4K, x);
    lemma_contains_when(p6, true, Quality::Best, x);
    assert(p6 + when(true, Quality::Best) =~= vp);
}

/// What the qualities hold: MP3 with audio, and the resolutions part when some
/// video format has a height.
proof fn lemma_format_qualities_contains(f: Seq<FormatInfo>, x: Quality)
    ensures
        format_qualities(f).contains(x) <==> ((x == Quality::AudioBest && has_audio(f)) || (has_video_in(
            f,
            any_height().0,
            any_height().1,
        ) && video_part(f).contains(x))),
{
    let v = has_video_in(f, any_height().0, any_height().1);
    let w = when(has_audio(f), Quality::AudioBest);
    let rest = if v { video_part(f) } else { Seq::<Quality>::empty() };
    let s = w + rest;
    assert(format_qualities(f) == s);
    if s.contains(x) {
        let i = choose|i: int| 0 <= i < s.len() && s[i] == x;
        if i < w.len() {
            assert(w[i] == x);
        } else {
            assert(rest[i - w.len()] == x);
        }
    }
    if x == Quality::AudioBest && has_audio(f) {
        assert(s[0] == x);
    }
    if v && video_part(f).contains(x) {
        let i = choose|i: int| 0 <= i < video_part(f).len() && video_part(f)[i] == x;
        assert(s[w.len() + i] == x);
    }
}

/// A video format in some range is a video format with a height.
proof fn lemma_range_is_video(f: Seq<FormatInfo>, lo: int, hi: int)
    requires
        has_video_in(f, lo, hi),
    ensures
        has_video_in(f, any_height().0, any_height().1),
{
    let k = choose|k: int| 0 <= k < f.len() && video_height_in(#[trigger] f[k], lo, hi);
    assert(video_height_in(f[k], any_height().0, any_height().1));
}

/// The qualities offered follow the formats: MP3 exactly when some format has
/// an audio codec; each resolution exactly when some format with a video codec
/// has a height in that resolution's range (360p: 240–399, 480p: 400–549,
/// 720p: 700–849, 1080p: 1000–1399, 1440p: 1400–1999, 4K: 2000 and up);
/// "best" exactly when some video format reports a height; never 128 or 256 kbps.
pub proof fn lemma_qualities_follow_formats(f: Seq<FormatInfo>)
    ensures
        format_qualities(f).contains(Quality::AudioBest) <==> exists|k: int|
            0 <= k < f.len() && (#[trigger] f[k].acodec matches Some(c) && c@ != "none"@),
        format_qualities(f).contains(Quality::Video360p) <==> exists|k: int|
            0 <= k < f.len() && (#[trigger] f[k].vcodec matches Some(c) && c@ != "none"@) && (f[k].height matches Some(h) && 240 <= h < 400),
        format_qualities(f).contains(Quality::Video480p) <==> exists|k: int|
            0 <= k < f.len() && (#[trigger] f[k].vcodec matches Some(c) && c@ != "none"@) && (f[k].height matches Some(h) && 400 <= h < 550),
        format_qualities(f).contains(Quality::Video720p) <==> exists|k: int|
            0 <= k < f.len() && (#[trigger] f[k].vcodec matches Some(c) && c@ != "none"@) && (f[k].height matches Some(h) && 700 <= h < 850),
        format_qualities(f).contains(Quality::Video1080p) <==> exists|k: int|
            0 <= k < f.len() && (#[trigger] f[k].vcodec matches Some(c) && c@ != "none"@) && (f[k].height matches Some(h) && 1000 <= h < 1400),
        format_qualities(f).contains(Quality::Video1440p) <==> exists|k: int|
            0 <= k < f.len() && (#[trigger] f[k].vcodec matches Some(c) && c@ != "none"@) && (f[k].height matches Some(h) && 1400 <= h < 2000),
        format_qualities(f).contains(Quality::Video4K) <==> exists|k: int|
            0 <= k < f.len() && (#[trigger] f[k].vcodec matches Some(c) && c@ != "none"@) && (f[k].height matches Some(h) && 2000 <= h),
        format_qualities(f).contains(Quality::Best) <==> exists|k: int|
            0 <= k < f.len() && (#[trigger] f[k].vcodec matches Some(c) && c@ != "none"@) && f[k].height is Some,
        !format_qualities(f).contains(Quality::Audio128),
        !format_qualities(f).contains(Quality::Audio256),
{
    lemma_format_qualities_contains(f, Quality::AudioBest);
    lemma_format_qualities_contains(f, Quality::Video360p);
    lemma_format_qualities_contains(f, Quality::Video480p);
    lemma_format_qualities_contains(f, Quality::Video720p);
    lemma_format_qualities_contains(f, Quality::Video1080p);
    lemma_format_qualities_contains(f, Quality::Video1440p);
    lemma_format_qualities_contains(f, Quality::Video4K);
    lemma_format_qualities_contains(f, Quality::Best);
    lemma_format_qualities_contains(f, Quality::Audio128);
    lemma_format_qualities_contains(f, Quality::Audio256);
    lemma_video_part_contains(f, Quality::Video360p);
    lemma_video_part_contains(f, Quality::Video480p);
    lemma_video_part_contains(f, Quality::Video720p);
    lemma_video_part_contains(f, Quality::Video1080p);
    lemma_video_part_contains(f, Quality::Video1440p);
    lemma_video_part_contains(f, Quality::Video4K);
    lemma_video_part_contains(f, Quality::Best);
    lemma_video_part_contains(f, Quality::Audio128);
    lemma_video_part_contains(f, Quality::Audio256);
    lemma_video_part_contains(f, Quality::AudioBest);
    if has_video_in(f, 240, 400) { lemma_range_is_video(f, 240, 400); }
    if has_video_in(f, 400, 550) { lemma_range_is_video(f, 400, 550); }
    if has_video_in(f, 700, 850) { lemma_range_is_video(f, 700, 850); }
    if has_video_in(f, 1000, 1400) { lemma_range_is_video(f, 1000, 1400); }
    if has_video_in(f, 1400, 2000) { lemma_range_is_video(f, 1400, 2000); }
    if has_video_in(f, 2000, any_height().1) { lemma_range_is_video(f, 2000, any_height().1); }
}

fn codec_named(c: &Option<String>) -> (b: bool)
    ensures
        b == has_codec(*c),
{
    match c {
        Some(s) => !str_eq(s.as_str(), "none"),
        None => false,
    }
}

/// Some video format has a height in `lo..hi`.
fn any_video_in(f: &Vec<FormatInfo>, lo: i128, hi: i128) -> (b: bool)
    ensures
        b == has_video_in(f@, lo as int, hi as int),
{
    let mut i: usize = 0;
    while i < f.len()
        invariant
            i <= f.len(),
            forall|k: int| 0 <= k < i ==> !video_height_in(#[trigger] f@[k], lo as int, hi as int),
        decreases f.len() - i,
    {
        if codec_named(&f[i].vcodec) {
            match f[i].height {
                Some(h) => {
                    if lo <= h as i128 && (h as i128) < hi {
                        assert(video_height_in(f@[i as int], lo as int, hi as int));
                        return true;
                    }
                },
                None => {},
            }
        }
        i = i + 1;
    }
    false
}

/// Some format has an audio codec.
fn any_audio(f: &Vec<FormatInfo>) -> (b: bool)
    ensures
        b == has_audio(f@),
{
    let mut i: usize = 0;
    while i < f.len()
        invariant
            i <= f.len(),
            forall|k: int| 0 <= k < i ==> !has_codec(#[trigger] f@[k].acodec),
        decreases f.len() - i,
    {
        if codec_named(&f[i].acodec) {
            assert(has_codec(f@[i as int].acodec));
            return true;
        }
        i = i + 1;
    }
    false
}

fn push_when(out: &mut Vec<Quality>, b: bool, q: Quality)
    ensures
        final(out)@ == old(out)@ + when(b, q),
{
    if b {
        out.push(q);
    }
    assert(out@ =~= old(out)@ + when(b, q));
}

fn video_qualities(f: &Vec<FormatInfo>) -> (r: Vec<Quality>)
    ensures
        r@ == video_part(f@),
{
    let top: i128 = 9223372036854775808;
    let mut out: Vec<Quality> = Vec::new();
    push_when(&mut out, any_video_in(f, 240, 400), Quality::Video360p);
    push_when(&mut out, any_video_in(f, 400, 550), Quality::Video480p);
    push_when(&mut out, any_video_in(f, 700, 850), Quality::Video720p);
    push_when(&mut out, any_video_in(f, 1000, 1400), Quality::Video1080p);
    push_when(&mut out, any_video_in(f, 1400, 2000), Quality::Video1440p);
    push_when(&mut out, any_video_in(f, 2000, top), Quality::Video4K);
    out.push(Quality::Best);
    out
}

/// The qualities a list of formats offers (see `format_qualities`).
pub fn detect_qualities(f: &Vec<FormatInfo>) -> (r: Vec<Quality>)
    ensures
        r@ == format_qualities(f@),
{
    let top: i128 = 9223372036854775808;
    let bottom: i128 = -9223372036854775808;
    let mut out: Vec<Quality> = Vec::new();
    push_when(&mut out, any_audio(f), Quality::AudioBest);
    let mut v: Vec<Quality> = Vec::new();
    if any_video_in(f, bottom, top) {
        v = video_qualities(f);
    }
    out.append(&mut v);
    out
}

/// The audio formats offered when nothing better is known.
pub open spec fn audio_options() -> Seq<Quality> {
    seq![Quality::AudioBest, Quality::Audio256, Quality::Audio128]
}

/// `s` without consecutive repeats, as `Vec::dedup`.
pub open spec fn dedup_spec(s: Seq<Quality>) -> Seq<Quality>
    decreases s.len(),
{
    if s.len() <= 1 {
        s
    } else if s.last() == s[s.len() - 2] {
        dedup_spec(s.drop_last())
    } else {
        dedup_spec(s.drop_last()).push(s.last())
    }
}

/// The addresses of the listed entries that have one.
pub open spec fn present(v: Seq<Option<String>>) -> Seq<Seq<char>>
    decreases v.len(),
{
    if v.len() == 0 {
        Seq::empty()
    } else {
        match v.last() {
            Some(u) => present(v.drop_last()).push(u@),
            None => present(v.drop_last()),
        }
    }
}

/// A line that describes a playlist rather than one item.
pub open spec fn is_list_kind(k: Option<String>) -> bool {
    match k {
        Some(t) => t@ == "playlist"@ || t@ == "multi_video"@,
        None => false,
    }
}

/// What a report has told so far: title, uploader, thumbnail, duration, whether
/// it is a playlist, its size, its entries' addresses, the last line with
/// formats, and the qualities found.
pub type DumpState = (
    Seq<char>,
    Option<Seq<char>>,
    Option<Seq<char>>,
    Option<u64>,
    bool,
    Option<u32>,
    Seq<Seq<char>>,
    Option<int>,
    Seq<Quality>,
);

/// What one more line `e` (at position `i`) adds: the first value of each field
/// is kept; a playlist line gives the playlist facts; another line gives a
/// title if there is none yet, and its formats' qualities.
pub open spec fn dump_step(st: DumpState, e: DumpEntry, i: int) -> DumpState {
    let dur = if st.3 is None {
        e.duration_secs
    } else {
        st.3
    };
    let up = if st.1 is None {
        opt_seq(e.uploader)
    } else {
        st.1
    };
    let th = if st.2 is None {
        opt_seq(e.thumbnail)
    } else {
        st.2
    };
    if is_list_kind(e.kind) {
        let (count, urls) = match e.entries {
            Some(v) => (Some(v@.len() as u32), st.6 + present(v@)),
            None => (st.5, st.6),
        };
        let title = if st.0.len() == 0 {
            match e.title {
                Some(t) => t@,
                None => "Playlist"@,
            }
        } else {
            st.0
        };
        (title, up, th, dur, true, count, urls, st.7, st.8)
    } else {
        let title = if st.0.len() == 0 {
            match e.title {
                Some(t) => t@,
                None => "Media"@,
            }
        } else {
            st.0
        };
        match e.formats {
            Some(f) => (title, up, th, dur, st.4, st.5, st.6, Some(i), st.8 + format_qualities(f@)),
            None => (title, up, th, dur, st.4, st.5, st.6, st.7, st.8),
        }
    }
}

pub open spec fn dump_fold(es: Seq<DumpEntry>) -> DumpState
    decreases es.len(),
{
    if es.len() == 0 {
        (Seq::empty(), None, None, None, false, None, Seq::empty(), None, Seq::empty())
    } else {
        dump_step(dump_fold(es.drop_last()), es.last(), es.len() - 1)
    }
}

/// The qualities a report offers: those found without consecutive repeats, or
/// the audio formats when none were found.
pub open spec fn dump_qualities(es: Seq<DumpEntry>) -> Seq<Quality> {
    let q = dump_fold(es).8;
    if q.len() == 0 {
        audio_options()
    } else {
        dedup_spec(q)
    }
}

/// What a `yt-dlp` report tells of a link.
pub struct DumpSummary {
    pub title: String,
    pub uploader: Option<String>,
    pub thumbnail: Option<String>,
    pub duration_secs: Option<u64>,
    pub is_playlist: bool,
    pub playlist_count: Option<u32>,
    pub playlist_urls: Vec<String>,
    /// The position of the last line that lists formats.
    pub formats_at: Option<usize>,
    pub qualities: Vec<Quality>,
}

pub open spec fn summary_view(s: DumpSummary) -> DumpState {
    (
        s.title@,
        opt_seq(s.uploader),
        opt_seq(s.thumbnail),
        s.duration_secs,
        s.is_playlist,
        s.playlist_count,
        views(s.playlist_urls@),
        match s.formats_at {
            Some(k) => Some(k as int),
            None => None,
        },
        s.qualities@,
    )
}

fn dedup_qualities(v: &Vec<Quality>) -> (r: Vec<Quality>)
    ensures
        r@ == dedup_spec(v@),
{
    let mut out: Vec<Quality> = Vec::new();
    let mut i: usize = 0;
    while i < v.len()
        invariant
            i <= v.len(),
            out@ == dedup_spec(v@.take(i as int)),
            i > 0 ==> out@.len() > 0 && out@.last() == v@[i - 1],
        decreases v.len() - i,
    {
        let ghost cur = v@.take(i + 1);
        assert(cur.drop_last() =~= v@.take(i as int));
        if i == 0 || v[i] != v[i - 1] {
            out.push(v[i]);
        }
        proof {
            if i >= 1 {
                assert(cur[cur.len() - 2] == v@[i - 1]);
                let d = dedup_spec(cur.drop_last());
                assert(d.len() > 0);
            } else {
                assert(cur =~= seq![v@[0]]);
            }
        }
        i = i + 1;
    }
    assert(v@.take(v.len() as int) =~= v@);
    out
}

fn present_urls(v: &Vec<Option<String>>, out: &mut Vec<String>)
    ensures
        views(final(out)@) == views(old(out)@) + present(v@),
{
    let ghost start = views(out@);
    let mut i: usize = 0;
    while i < v.len()
        invariant
            i <= v.len(),
            views(out@) == start + present(v@.take(i as int)),
        decreases v.len() - i,
    {
        assert(v@.take(i + 1).drop_last() =~= v@.take(i as int));
        let ghost prev = out@;
        match &v[i] {
            Some(u) => {
                out.push(u.clone());
                assert(views(out@) =~= views(prev).push(u@));
            },
            None => {},
        }
        i = i + 1;
    }
    assert(v@.take(v.len() as int) =~= v@);
}

/// What a `yt-dlp` report tells (see `dump_fold` and `dump_qualities`).
pub fn summarize_dump(es: &Vec<DumpEntry>) -> (r: DumpSummary)
    ensures
        summary_view(r).0 == dump_fold(es@).0,
        summary_view(r).1 == dump_fold(es@).1,
        summary_view(r).2 == dump_fold(es@).2,
        summary_view(r).3 == dump_fold(es@).3,
        summary_view(r).4 == dump_fold(es@).4,
        summary_view(r).5 == dump_fold(es@).5,
        summary_view(r).6 == dump_fold(es@).6,
        summary_view(r).7 == dump_fold(es@).7,
        r.qualities@ == dump_qualities(es@),
        match r.formats_at {
            Some(k) => k < es@.len() && es@[k as int].formats is Some,
            None => true,
        },
{
    let mut title = String::new();
    let mut uploader: Option<String> = None;
    let mut thumbnail: Option<String> = None;
    let mut duration: Option<u64> = None;
    let mut is_playlist = false;
    let mut count: Option<u32> = None;
    let mut urls: Vec<String> = Vec::new();
    let mut fmt_at: Option<usize> = None;
    let mut quals: Vec<Quality> = Vec::new();
    let mut i: usize = 0;
    while i < es.len()
        invariant
            i <= es.len(),
            (title@, opt_seq(uploader), opt_seq(thumbnail), duration, is_playlist, count, views(urls@),
                match fmt_at { Some(k) => Some(k as int), None => None }, quals@) == dump_fold(es@.take(i as int)),
            match fmt_at {
                Some(k) => k < i && es@[k as int].formats is Some,
                None => true,
            },
        decreases es.len() - i,
    {
        assert(es@.take(i + 1).drop_last() =~= es@.take(i as int));
        let e = &es[i];
        if duration.is_none() {
            duration = e.duration_secs;
        }
        if uploader.is_none() {
            uploader = opt_clone(&e.uploader);
        }
        if thumbnail.is_none() {
            thumbnail = opt_clone(&e.thumbnail);
        }
        let list_kind = match &e.kind {
            Some(t) => str_eq(t.as_str(), "playlist") || str_eq(t.as_str(), "multi_video"),
            None => false,
        };
        let empty_title = chars_of(title.as_str()).len() == 0;
        if list_kind {
            is_playlist = true;
            match &e.entries {
                Some(v) => {
                    count = Some(v.len() as u32);
                    present_urls(v, &mut urls);
                },
                None => {},
            }
            if empty_title {
                title = match &e.title {
                    Some(t) => t.clone(),
                    None => owned("Playlist"),
                };
            }
        } else {
            if empty_title {
                title = match &e.title {
                    Some(t) => t.clone(),
                    None => owned("Media"),
                };
            }
            match &e.formats {
                Some(f) => {
                    fmt_at = Some(i);
                    let mut q = detect_qualities(f);
                    quals.append(&mut q);
                },
                None => {},
            }
        }
        i = i + 1;
    }
    assert(es@.take(es.len() as int) =~= es@);
    let qualities = if quals.len() == 0 {
        let mut a: Vec<Quality> = Vec::new();
        a.push(Quality::AudioBest);
        a.push(Quality::Audio256);
        a.push(Quality::Audio128);
        assert(a@ =~= audio_options());
        a
    } else {
        dedup_qualities(&quals)
    };
    DumpSummary {
        title,
        uploader,
        thumbnail,
        duration_secs: duration,
        is_playlist,
        playlist_count: count,
        playlist_urls: urls,
        formats_at: fmt_at,
        qualities,
    }
}

/// The height a video quality is measured at.
pub open spec fn target_height(q: Quality) -> Option<i64> {
    match q {
        Quality::Video360p => Some(360),
        Quality::Video480p => Some(480),
        Quality::Video720p => Some(720),
        Quality::Video1080p => Some(1080),
        Quality::Video1440p => Some(1440),
        Quality::Video4K => Some(2160),
        _ => None,
    }
}

fn target_height_exec(q: Quality) -> (r: Option<i64>)
    ensures
        r == target_height(q),
{
    match q {
        Quality::Video360p => Some(360),
        Quality::Video480p => Some(480),
        Quality::Video720p => Some(720),
        Quality::Video1080p => Some(1080),
        Quality::Video1440p => Some(1440),
        Quality::Video4K => Some(2160),
        _ => None,
    }
}

/// The reported size of a format: `filesize`, or else `filesize_approx`.
pub open spec fn format_size(fi: FormatInfo) -> Option<u64> {
    match fi.filesize {
        Some(b) => Some(b),
        None => fi.filesize_approx,
    }
}

/// The largest reported size among the formats of height `h` (0 if none).
pub open spec fn max_size_at(f: Seq<FormatInfo>, h: i64) -> u64
    decreases f.len(),
{
    if f.len() == 0 {
        0
    } else {
        let m = max_size_at(f.drop_last(), h);
        let x = f.last();
        if x.height == Some(h) {
            match format_size(x) {
                Some(b) => if b > m {
                    b
                } else {
                    m
                },
                None => m,
            }
        } else {
            m
        }
    }
}

/// The measured size of a video quality: the largest size reported at its height,
/// when positive.
pub open spec fn measured_size(f: Seq<FormatInfo>, q: Quality) -> Option<u64> {
    match target_height(q) {
        Some(h) => if max_size_at(f, h) > 0 {
            Some(max_size_at(f, h))
        } else {
            None
        },
        None => None,
    }
}

/// The measured size of a quality among a list of formats (see `measured_size`).
pub fn size_at_height(f: &Vec<FormatInfo>, q: Quality) -> (r: Option<u64>)
    ensures
        r == measured_size(f@, q),
{
    let th = target_height_exec(q);
    match th {
        Some(h) => {
            let mut m: u64 = 0;
            let mut i: usize = 0;
            while i < f.len()
                invariant
                    i <= f.len(),
                    m == max_size_at(f@.take(i as int), h),
                decreases f.len() - i,
            {
                assert(f@.take(i + 1).drop_last() =~= f@.take(i as int));
                if f[i].height == Some(h) {
                    let sz = match f[i].filesize {
                        Some(b) => Some(b),
                        None => f[i].filesize_approx,
                    };
                    match sz {
                        Some(b) => {
                            if b > m {
                                m = b;
                            }
                        },
                        None => {},
                    }
                }
                i = i + 1;
            }
            assert(f@.take(f.len() as int) =~= f@);
            if m > 0 {
                Some(m)
            } else {
                None
            }
        },
        None => None,
    }
}

/// The speed icon of a download of `mb` mebibytes.
pub open spec fn speed_category(mb: nat) -> Seq<char> {
    if mb <= 15 {
        "⚡"@
    } else if mb <= 50 {
        "🚀"@
    } else if mb <= 150 {
        "⚖️"@
    } else {
        "🐢"@
    }
}

/// The label of a format: its name, with its size in mebibytes when known.
pub open spec fn size_label(name: Seq<char>, mb: nat) -> Seq<char> {
    if mb > 0 {
        name + " (~"@ + crate::text::dec(mb) + "MB)"@
    } else {
        name
    }
}

/// The format entry of a quality with its size: size in whole mebibytes, seconds
/// at ten mebibytes a second (at least one), speed icon and label.
pub fn quality_option(q: Quality, name: &str, size: Option<u64>) -> (r: QualityOption)
    ensures
        r.quality == q,
        r.filesize_bytes == size,
        r.estimated_secs == (match size {
            Some(b) => Some(if b / 10485760 >= 1 { b / 10485760 } else { 1 }),
            None => None,
        }),
        r.speed_category@ == speed_category(crate::media::size_mb(size)),
        r.display_label@ == size_label(name@, crate::media::size_mb(size)),
        r.full_button_label@ == size_label(name@, crate::media::size_mb(size)),
{
    let mb: u64 = match size {
        Some(b) => b / 1048576,
        None => 0,
    };
    let est = match size {
        Some(b) => Some(if b / 10485760 >= 1 { b / 10485760 } else { 1 }),
        None => None,
    };
    let speed = if mb <= 15 {
        owned("⚡")
    } else if mb <= 50 {
        owned("🚀")
    } else if mb <= 150 {
        owned("⚖️")
    } else {
        owned("🐢")
    };
    let mut label = owned(name);
    if mb > 0 {
        crate::text::push_str(&mut label, " (~");
        crate::text::push_dec(&mut label, mb);
        crate::text::push_str(&mut label, "MB)");
    }
    QualityOption {
        quality: q,
        filesize_bytes: size,
        estimated_secs: est,
        speed_category: speed,
        display_label: label.clone(),
        full_button_label: label,
    }
}

/// What a link is, from a `yt-dlp` report's summary and the formats offered:
/// the summary's facts, with the title "Media" when it has none.
pub fn dump_info(s: DumpSummary, options: Vec<QualityOption>) -> (r: InfoResponse)
    ensures
        r.title@ == (if s.title@.len() == 0 {
            "Media"@
        } else {
            s.title@
        }),
        r.uploader == s.uploader,
        r.thumbnail == s.thumbnail,
        r.duration_secs == s.duration_secs,
        r.available_qualities == options,
        r.is_playlist == s.is_playlist,
        r.playlist_count == s.playlist_count,
        r.playlist_urls == s.playlist_urls,
        r.error is None,
{
    let title = if chars_of(s.title.as_str()).len() == 0 {
        owned("Media")
    } else {
        s.title
    };
    InfoResponse {
        title,
        uploader: s.uploader,
        thumbnail: s.thumbnail,
        duration_secs: s.duration_secs,
        available_qualities: options,
        is_playlist: s.is_playlist,
        playlist_count: s.playlist_count,
        playlist_urls: s.playlist_urls,
        error: None,
    }
}

/// What is offered when a link could not be analysed: the platform's name
/// followed by " Media", and the best video or MP3.
pub fn fallback_info(platform_name: &str) -> (r: InfoResponse)
    ensures
        r.title@ == platform_name@ + " Media"@,
        r.uploader is None,
        r.thumbnail is None,
        r.duration_secs is None,
        crate::media::sized_of(r.available_qualities@) == seq![
            (Quality::Best, None::<u64>),
            (Quality::AudioBest, None::<u64>),
        ],
        !r.is_playlist,
        r.playlist_count is None,
        r.playlist_urls@.len() == 0,
        r.error is None,
{
    let mut title = owned(platform_name);
    crate::text::push_str(&mut title, " Media");
    let mut q: Vec<QualityOption> = Vec::new();
    q.push(
        QualityOption {
            quality: Quality::Best,
            filesize_bytes: None,
            estimated_secs: None,
            speed_category: owned("🚀"),
            display_label: owned("⭐ Лучшее качество"),
            full_button_label: owned("⭐ Лучшее качество"),
        },
    );
    q.push(
        QualityOption {
            quality: Quality::AudioBest,
            filesize_bytes: None,
            estimated_secs: None,
            speed_category: owned("⚡"),
            display_label: owned("🎵 MP3"),
            full_button_label: owned("🎵 MP3"),
        },
    );
    assert(crate::media::sized_of(q@) =~= seq![
        (Quality::Best, None::<u64>),
        (Quality::AudioBest, None::<u64>),
    ]);
    InfoResponse {
        title,
        uploader: None,
        thumbnail: None,
        duration_secs: None,
        available_qualities: q,
        is_playlist: false,
        playlist_count: None,
        playlist_urls: Vec::new(),
        error: None,
    }
}

/// A link is analysed from its Spotify page when its platform is Spotify or
/// its address names spotify.com.
pub fn is_spotify_link(url: &str, platform: Platform) -> (b: bool)
    ensures
        b == (platform == Platform::Spotify || has_infix(url@, "spotify.com"@)),
{
    platform == Platform::Spotify || str_contains(url, "spotify.com")
}

// ── Pinterest pages ─────────────────────────────────────────

pub open spec fn pin_og_image_pattern() -> Seq<char> {
    "<meta(?:[^>]+)og:image(?:[^>]+)>"@
}

pub open spec fn content_pattern() -> Seq<char> {
    "content=\"([^\"]+)\""@
}

pub open spec fn pin_json_image_pattern() -> Seq<char> {
    "\"image\":\"(https://i\\.pinimg\\.com/[^\"]+)\""@
}

pub open spec fn pin_og_title_pattern() -> Seq<char> {
    "<meta(?:[^>]+)og:title(?:[^>]+)content=\"([^\"]+)\""@
}

/// An image address turned to the original size.
pub open spec fn original_size(u: Seq<char>) -> Seq<char> {
    replace_spec(
        replace_spec(replace_spec(u, "/736x/"@, "/originals/"@), "/474x/"@, "/originals/"@),
        "/236x/"@,
        "/originals/"@,
    )
}

/// The full-size image of a Pinterest page: its Open Graph image at original
/// size, or else the first pinimg image of its page data.
pub open spec fn pin_image_spec(html: Seq<char>) -> Option<Seq<char>> {
    let from_tag = match regex_first_match(pin_og_image_pattern(), html) {
        Some(tag) => match group(content_pattern(), tag, 1) {
            Some(u) => Some(original_size(u)),
            None => None,
        },
        None => None,
    };
    match from_tag {
        Some(u) => Some(u),
        None => group(pin_json_image_pattern(), html, 1),
    }
}

/// The full-size image of a Pinterest page (see `pin_image_spec`).
pub fn pin_image_url(html: &str) -> (r: Option<String>)
    ensures
        opt_seq(r) == pin_image_spec(html@),
{
    let mut found: Option<String> = None;
    match regex_find("<meta(?:[^>]+)og:image(?:[^>]+)>", html) {
        Some(tag) => {
            match capture_group("content=\"([^\"]+)\"", tag.as_str(), 1) {
                Some(u) => {
                    proof {
                        reveal_strlit("/736x/");
                        reveal_strlit("/474x/");
                        reveal_strlit("/236x/");
                    }
                    let a = replace_str(u.as_str(), "/736x/", "/originals/");
                    let b = replace_str(a.as_str(), "/474x/", "/originals/");
                    found = Some(replace_str(b.as_str(), "/236x/", "/originals/"));
                },
                None => {},
            }
        },
        None => {},
    }
    match found {
        Some(u) => Some(u),
        None => capture_group("\"image\":\"(https://i\\.pinimg\\.com/[^\"]+)\"", html, 1),
    }
}

/// The title of a Pinterest page: its decoded, trimmed Open Graph title, unless
/// empty or just "Pinterest".
pub open spec fn pin_title_spec(html: Seq<char>) -> Seq<char> {
    match group(pin_og_title_pattern(), html, 1) {
        Some(t) => {
            let c = trim_spec(unescape_og(t));
            if c.len() > 0 && c != "Pinterest"@ {
                c
            } else {
                "Pinterest Image"@
            }
        },
        None => "Pinterest Image"@,
    }
}

/// The title of a Pinterest page (see `pin_title_spec`).
pub fn pin_title(html: &str) -> (r: String)
    ensures
        r@ == pin_title_spec(html@),
{
    match capture_group("<meta(?:[^>]+)og:title(?:[^>]+)content=\"([^\"]+)\"", html, 1) {
        Some(t) => {
            let c = trim(unescape_og_text(t.as_str()).as_str());
            if chars_of(c.as_str()).len() > 0 && !str_eq(c.as_str(), "Pinterest") {
                c
            } else {
                owned("Pinterest Image")
            }
        },
        None => owned("Pinterest Image"),
    }
}

// ── Playlist and gallery reports ────────────────────────────

/// What a playlist report line gives: the entry's address or id.
pub struct PlaylistLine {
    pub url: Option<String>,
    pub id: Option<String>,
}

/// The address of a line: its `url`, or else the YouTube watch page of its `id`.
pub open spec fn line_link(l: PlaylistLine) -> Option<Seq<char>> {
    match l.url {
        Some(u) => Some(u@),
        None => match l.id {
            Some(i) => Some("https://www.youtube.com/watch?v="@ + i@),
            None => None,
        },
    }
}

/// The distinct addresses of a playlist report, read until fifty are known.
pub open spec fn playlist_links(ls: Seq<PlaylistLine>) -> Seq<Seq<char>>
    decreases ls.len(),
{
    if ls.len() == 0 {
        Seq::empty()
    } else {
        let prev = playlist_links(ls.drop_last());
        if prev.len() >= 50 {
            prev
        } else {
            match line_link(ls.last()) {
                Some(u) => if prev.contains(u) {
                    prev
                } else {
                    prev.push(u)
                },
                None => prev,
            }
        }
    }
}

fn contains_string(v: &Vec<String>, u: &str) -> (b: bool)
    ensures
        b == views(v@).contains(u@),
{
    let mut i: usize = 0;
    while i < v.len()
        invariant
            i <= v.len(),
            forall|k: int| 0 <= k < i ==> views(v@)[k] != u@,
        decreases v.len() - i,
    {
        if str_eq(v[i].as_str(), u) {
            assert(views(v@)[i as int] == u@);
            return true;
        }
        i = i + 1;
    }
    false
}

fn push_new(v: &mut Vec<String>, u: String)
    ensures
        views(final(v)@) == (if views(old(v)@).contains(u@) {
            views(old(v)@)
        } else {
            views(old(v)@).push(u@)
        }),
{
    if !contains_string(v, u.as_str()) {
        let ghost prev = v@;
        v.push(u);
        assert(views(v@) =~= views(prev).push(u@));
    }
}

/// The tracks of a playlist report (see `playlist_links`).
pub fn playlist_track_urls(ls: &Vec<PlaylistLine>) -> (r: Vec<String>)
    ensures
        views(r@) == playlist_links(ls@),
{
    let mut out: Vec<String> = Vec::new();
    let mut i: usize = 0;
    while i < ls.len()
        invariant
            i <= ls.len(),
            views(out@) == playlist_links(ls@.take(i as int)),
            out@.len() <= 50,
        decreases ls.len() - i,
    {
        assert(ls@.take(i + 1).drop_last() =~= ls@.take(i as int));
        if out.len() >= 50 {
            proof {
                lemma_playlist_links_capped(ls@, i as nat);
            }
            assert(ls@.take(ls.len() as int) =~= ls@);
            return out;
        }
        match &ls[i].url {
            Some(u) => push_new(&mut out, u.clone()),
            None => match &ls[i].id {
                Some(id) => {
                    let mut w = owned("https://www.youtube.com/watch?v=");
                    crate::text::push_str(&mut w, id.as_str());
                    push_new(&mut out, w);
                },
                None => {},
            },
        }
        assert(views(out@).len() == out@.len());
        i = i + 1;
    }
    assert(ls@.take(ls.len() as int) =~= ls@);
    out
}

proof fn lemma_playlist_links_capped(ls: Seq<PlaylistLine>, i: nat)
    requires
        i <= ls.len(),
        playlist_links(ls.take(i as int)).len() >= 50,
    ensures
        playlist_links(ls) == playlist_links(ls.take(i as int)),
    decreases ls.len() - i,
{
    if i < ls.len() {
        assert(ls.take((i + 1) as int).drop_last() =~= ls.take(i as int));
        lemma_playlist_links_capped(ls, (i + 1) as nat);
    } else {
        assert(ls.take(i as int) =~= ls);
    }
}

/// What a gallery report line gives.
pub struct ImageLine {
    /// The `url` of each of the `entries`, where they are listed.
    pub entry_urls: Option<Vec<Option<String>>>,
    pub ext: Option<String>,
    pub url: Option<String>,
    /// The `url` of each of the `thumbnails`, where they are listed.
    pub thumbnails: Option<Vec<Option<String>>>,
}

/// Append the addresses not yet listed.
pub open spec fn add_new(acc: Seq<Seq<char>>, us: Seq<Seq<char>>) -> Seq<Seq<char>>
    decreases us.len(),
{
    if us.len() == 0 {
        acc
    } else {
        let prev = add_new(acc, us.drop_last());
        if prev.contains(us.last()) {
            prev
        } else {
            prev.push(us.last())
        }
    }
}

pub open spec fn is_image_ext(e: Option<String>) -> bool {
    match e {
        Some(x) => x@ == "jpg"@ || x@ == "png"@ || x@ == "webp"@ || x@ == "jpeg"@,
        None => false,
    }
}

/// A thumbnail hosted by TikTok, Instagram or a CDN.
pub open spec fn is_gallery_thumb(u: Seq<char>) -> bool {
    has_infix(u, "tiktok"@) || has_infix(u, "instagram"@) || has_infix(u, "cdn"@)
}

/// What one line adds to the images found: its entries, its own address when it
/// is an image, and, while nothing is found, its gallery thumbnails.
pub open spec fn image_step(acc: Seq<Seq<char>>, l: ImageLine) -> Seq<Seq<char>> {
    let a = match l.entry_urls {
        Some(v) => add_new(acc, present(v@)),
        None => acc,
    };
    let b = if is_image_ext(l.ext) {
        match l.url {
            Some(u) => add_new(a, seq![u@]),
            None => a,
        }
    } else {
        a
    };
    if b.len() == 0 {
        match l.thumbnails {
            Some(t) => add_new(b, present(t@).filter(|u: Seq<char>| is_gallery_thumb(u))),
            None => b,
        }
    } else {
        b
    }
}

pub open spec fn image_links(ls: Seq<ImageLine>) -> Seq<Seq<char>>
    decreases ls.len(),
{
    if ls.len() == 0 {
        Seq::empty()
    } else {
        image_step(image_links(ls.drop_last()), ls.last())
    }
}

fn add_present(out: &mut Vec<String>, v: &Vec<Option<String>>, thumbs_only: bool)
    ensures
        views(final(out)@) == add_new(
            views(old(out)@),
            if thumbs_only {
                present(v@).filter(|u: Seq<char>| is_gallery_thumb(u))
            } else {
                present(v@)
            },
        ),
{
    let ghost start = views(out@);
    let ghost pred = |u: Seq<char>| is_gallery_thumb(u);
    let mut i: usize = 0;
    while i < v.len()
        invariant
            i <= v.len(),
            pred == (|u: Seq<char>| is_gallery_thumb(u)),
            views(out@) == add_new(
                start,
                if thumbs_only {
                    present(v@.take(i as int)).filter(pred)
                } else {
                    present(v@.take(i as int))
                },
            ),
        decreases v.len() - i,
    {
        let ghost pv = present(v@.take(i as int));
        assert(v@.take(i + 1).drop_last() =~= v@.take(i as int));
        match &v[i] {
            Some(u) => {
                proof {
                    assert(present(v@.take(i + 1)) == pv.push(u@));
                    pv.lemma_filter_push(u@, pred);
                }
                let keep = !thumbs_only || str_contains(u.as_str(), "tiktok") || str_contains(
                    u.as_str(),
                    "instagram",
                ) || str_contains(u.as_str(), "cdn");
                let ghost before = views(out@);
                let ghost xs = if thumbs_only {
                    pv.filter(pred)
                } else {
                    pv
                };
                if keep {
                    push_new(out, u.clone());
                    assert(xs.push(u@).drop_last() =~= xs);
                }
                proof {
                    if thumbs_only {
                        assert(pred(u@) == keep);
                    }
                }
            },
            None => {},
        }
        i = i + 1;
    }
    assert(v@.take(v.len() as int) =~= v@);
}

/// The distinct image addresses of a gallery report (see `image_links`).
pub fn gallery_image_urls(ls: &Vec<ImageLine>) -> (r: Vec<String>)
    ensures
        views(r@) == image_links(ls@),
{
    let mut out: Vec<String> = Vec::new();
    let mut i: usize = 0;
    while i < ls.len()
        invariant
            i <= ls.len(),
            views(out@) == image_links(ls@.take(i as int)),
        decreases ls.len() - i,
    {
        assert(ls@.take(i + 1).drop_last() =~= ls@.take(i as int));
        let l = &ls[i];
        match &l.entry_urls {
            Some(v) => add_present(&mut out, v, false),
            None => {},
        }
        let img = match &l.ext {
            Some(x) => str_eq(x.as_str(), "jpg") || str_eq(x.as_str(), "png") || str_eq(
                x.as_str(),
                "webp",
            ) || str_eq(x.as_str(), "jpeg"),
            None => false,
        };
        if img {
            match &l.url {
                Some(u) => {
                    let ghost before = views(out@);
                    push_new(&mut out, u.clone());
                    proof {
                        reveal_with_fuel(add_new, 2);
                        assert(seq![u@].drop_last() =~= Seq::<Seq<char>>::empty());
                    }
                },
                None => {},
            }
        }
        if out.len() == 0 {
            match &l.thumbnails {
                Some(t) => add_present(&mut out, t, true),
                None => {},
            }
        }
        i = i + 1;
    }
    assert(ls@.take(ls.len() as int) =~= ls@);
    out
}

} // verus!
