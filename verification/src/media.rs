//! Media downloader logic: HTML escaping, song-variant detection, artist lists,
//! search queries and candidate scoring for audio matches, and the quality menu.

use vstd::prelude::*;
use crate::fetch::{regex_split, regex_split_parts};
use crate::text::{
    has_infix, lemma_replace_removes, lower_ascii_seq, owned, push_str, replace_spec, replace_str,
    split_whitespace, str_contains, to_lowercase, trim, trim_matching, trim_set, trim_spec,
    unicode_lowercase, views, words_spec, chars_of, eq_ignore_ascii_case, CharSet, dec, fmt_dec,
    join, join_spec, pad_left, push_dec, push_padded, push_zero_padded, zero_pad,
};

verus! {

// ── Data ────────────────────────────────────────────────────

/// A downloaded file as recorded in the media library.
#[derive(Clone, Debug)]
pub struct MediaItem {
    pub id: String,
    pub title: String,
    pub uploader: Option<String>,
    /// `"audio"`, `"video"` or `"photo"`.
    pub media_type: String,
    pub file_name: String,
    pub cover_file: Option<String>,
    pub duration_secs: Option<u64>,
    pub source_url: String,
    pub created_at: String,
}

/// One track of a Spotify track, album or playlist page.
#[derive(Clone, Debug)]
pub struct SpotifyTrackMeta {
    pub title: String,
    pub artist: String,
    pub url: String,
    pub cover_url: Option<String>,
}

/// A Spotify track, album or playlist.
#[derive(Clone, Debug)]
pub struct SpotifyEntity {
    pub title: String,
    pub uploader: Option<String>,
    pub cover_url: Option<String>,
    pub is_playlist: bool,
    pub tracks: Vec<SpotifyTrackMeta>,
}

/// Which kinds of formats the quality menu offers.
#[derive(PartialEq, Eq, Structural, Clone, Copy, Debug)]
pub enum MediaFilterMode {
    All,
    VideoOnly,
    AudioOnly,
}

/// A download quality.
#[derive(PartialEq, Eq, Structural, Clone, Copy, Debug)]
pub enum Quality {
    Video360p,
    Video480p,
    Video720p,
    Video1080p,
    Video1440p,
    Video4K,
    Best,
    Audio128,
    Audio256,
    AudioBest,
}

impl Quality {
    /// The audio-only qualities.
    pub open spec fn is_audio_spec(self) -> bool {
        self == Quality::Audio128 || self == Quality::Audio256 || self == Quality::AudioBest
    }

    /// Whether this is an audio-only quality.
    pub fn is_audio(&self) -> (b: bool)
        ensures
            b == self.is_audio_spec(),
    {
        match self {
            Quality::Audio128 | Quality::Audio256 | Quality::AudioBest => true,
            _ => false,
        }
    }
}

/// One downloadable format of a media item.
#[derive(Clone, Debug)]
pub struct QualityOption {
    pub quality: Quality,
    pub filesize_bytes: Option<u64>,
    pub estimated_secs: Option<u64>,
    pub speed_category: String,
    pub display_label: String,
    pub full_button_label: String,
}

/// What is known of a link before downloading it.
#[derive(Clone, Debug)]
pub struct InfoResponse {
    pub title: String,
    pub uploader: Option<String>,
    pub thumbnail: Option<String>,
    pub duration_secs: Option<u64>,
    pub available_qualities: Vec<QualityOption>,
    pub is_playlist: bool,
    pub playlist_count: Option<u32>,
    pub playlist_urls: Vec<String>,
    pub error: Option<String>,
}

// ── HTML escaping ───────────────────────────────────────────

/// `s` with `&`, `<`, `>` and `"` replaced by their HTML entities, in that order.
pub open spec fn html_escape_spec(s: Seq<char>) -> Seq<char> {
    replace_spec(
        replace_spec(
            replace_spec(replace_spec(s, seq!['&'], "&amp;"@), seq!['<'], "&lt;"@),
            seq!['>'],
            "&gt;"@,
        ),
        seq!['"'],
        "&quot;"@,
    )
}

/// Escape text for Telegram HTML messages.
pub fn html_escape(s: &str) -> (r: String)
    ensures
        r@ == html_escape_spec(s@),
{
    proof {
        reveal_strlit("&");
        reveal_strlit("<");
        reveal_strlit(">");
        reveal_strlit("\"");
        assert("&"@ =~= seq!['&']);
        assert("<"@ =~= seq!['<']);
        assert(">"@ =~= seq!['>']);
        assert("\""@ =~= seq!['"']);
    }
    let a = replace_str(s, "&", "&amp;");
    let b = replace_str(a.as_str(), "<", "&lt;");
    let c = replace_str(b.as_str(), ">", "&gt;");
    replace_str(c.as_str(), "\"", "&quot;")
}

/// Escaped text holds no `<`, `>` or `"`: it cannot open a tag or close an attribute.
pub proof fn lemma_html_escape_safe(s: Seq<char>)
    ensures
        !html_escape_spec(s).contains('<'),
        !html_escape_spec(s).contains('>'),
        !html_escape_spec(s).contains('"'),
{
    reveal_strlit("&amp;");
    reveal_strlit("&lt;");
    reveal_strlit("&gt;");
    reveal_strlit("&quot;");
    let a = replace_spec(s, seq!['&'], "&amp;"@);
    let b = replace_spec(a, seq!['<'], "&lt;"@);
    let c = replace_spec(b, seq!['>'], "&gt;"@);
    assert(!"&lt;"@.contains('<')) by {
        assert("&lt;"@ =~= seq!['&', 'l', 't', ';']);
    }
    assert(!"&gt;"@.contains('<') && !"&gt;"@.contains('>')) by {
        assert("&gt;"@ =~= seq!['&', 'g', 't', ';']);
    }
    assert(!"&quot;"@.contains('<') && !"&quot;"@.contains('>') && !"&quot;"@.contains('"')) by {
        assert("&quot;"@ =~= seq!['&', 'q', 'u', 'o', 't', ';']);
    }
    lemma_replace_removes(a, seq!['<'], "&lt;"@, '<');
    lemma_replace_removes(b, seq!['>'], "&gt;"@, '<');
    lemma_replace_removes(c, seq!['"'], "&quot;"@, '<');
    lemma_replace_removes(b, seq!['>'], "&gt;"@, '>');
    lemma_replace_removes(c, seq!['"'], "&quot;"@, '>');
    lemma_replace_removes(c, seq!['"'], "&quot;"@, '"');
}

/// `f` applied to each character of `s`, the results joined.
pub open spec fn flat_chars(s: Seq<char>, f: spec_fn(char) -> Seq<char>) -> Seq<char>
    decreases s.len(),
{
    if s.len() == 0 {
        Seq::empty()
    } else {
        f(s[0]) + flat_chars(s.drop_first(), f)
    }
}

/// The entity of `&`, `<`, `>` and `"`; any other character stands for itself.
pub open spec fn html_entity(c: char) -> Seq<char> {
    if c == '&' {
        seq!['&', 'a', 'm', 'p', ';']
    } else if c == '<' {
        seq!['&', 'l', 't', ';']
    } else if c == '>' {
        seq!['&', 'g', 't', ';']
    } else if c == '"' {
        seq!['&', 'q', 'u', 'o', 't', ';']
    } else {
        seq![c]
    }
}

/// `r` starts with `p`.
pub open spec fn starts_with_seq(r: Seq<char>, p: Seq<char>) -> bool {
    r.len() >= p.len() && r.subrange(0, p.len() as int) == p
}

/// Reads escaped text back, left to right: each of `&amp;`, `&lt;`, `&gt;` and
/// `&quot;` gives its character; everything else stays.
pub open spec fn html_unescape(r: Seq<char>) -> Seq<char>
    decreases r.len(),
{
    if r.len() == 0 {
        Seq::empty()
    } else if starts_with_seq(r, html_entity('&')) {
        seq!['&'] + html_unescape(r.skip(5))
    } else if starts_with_seq(r, html_entity('<')) {
        seq!['<'] + html_unescape(r.skip(4))
    } else if starts_with_seq(r, html_entity('>')) {
        seq!['>'] + html_unescape(r.skip(4))
    } else if starts_with_seq(r, html_entity('"')) {
        seq!['"'] + html_unescape(r.skip(6))
    } else {
        seq![r[0]] + html_unescape(r.drop_first())
    }
}

proof fn lemma_flat_append(a: Seq<char>, b: Seq<char>, f: spec_fn(char) -> Seq<char>)
    ensures
        flat_chars(a + b, f) == flat_chars(a, f) + flat_chars(b, f),
    decreases a.len(),
{
    if a.len() == 0 {
        assert(a + b =~= b);
        assert(flat_chars(a, f) + flat_chars(b, f) =~= flat_chars(b, f));
    } else {
        lemma_flat_append(a.drop_first(), b, f);
        assert((a + b).drop_first() =~= a.drop_first() + b);
        assert((a + b)[0] == a[0]);
        assert(f(a[0]) + (flat_chars(a.drop_first(), f) + flat_chars(b, f)) =~= (f(a[0]) + flat_chars(
            a.drop_first(),
            f,
        )) + flat_chars(b, f));
    }
}

proof fn lemma_flat_compose(s: Seq<char>, f: spec_fn(char) -> Seq<char>, g: spec_fn(char) -> Seq<char>)
    ensures
        flat_chars(flat_chars(s, f), g) == flat_chars(s, |x: char| flat_chars(f(x), g)),
    decreases s.len(),
{
    if s.len() > 0 {
        lemma_flat_compose(s.drop_first(), f, g);
        lemma_flat_append(f(s[0]), flat_chars(s.drop_first(), f), g);
    }
}

proof fn lemma_flat_same(t: Seq<char>, f: spec_fn(char) -> Seq<char>)
    requires
        forall|j: int| 0 <= j < t.len() ==> f(#[trigger] t[j]) == seq![t[j]],
    ensures
        flat_chars(t, f) == t,
    decreases t.len(),
{
    if t.len() > 0 {
        assert forall|j: int| 0 <= j < t.drop_first().len() implies f(#[trigger] t.drop_first()[j])
            == seq![t.drop_first()[j]] by {
            assert(t.drop_first()[j] == t[j + 1]);
        }
        lemma_flat_same(t.drop_first(), f);
        assert(f(t[0]) == seq![t[0]]);
        assert(seq![t[0]] + t.drop_first() =~= t);
    }
}

proof fn lemma_replace_char(s: Seq<char>, c: char, rep: Seq<char>)
    ensures
        replace_spec(s, seq![c], rep) == flat_chars(s, |x: char| if x == c { rep } else { seq![x] }),
    decreases s.len(),
{
    let f = |x: char| if x == c { rep } else { seq![x] };
    if s.len() > 0 {
        lemma_replace_char(s.drop_first(), c, rep);
        assert(s.subrange(0, 1) =~= seq![s[0]]);
        assert(s.skip(1) =~= s.drop_first());
        if s[0] == c {
            assert(s.subrange(0, 1) == seq![c]);
        } else {
            assert(s.subrange(0, 1) != seq![c]) by {
                assert(s.subrange(0, 1)[0] != seq![c][0]);
            }
        }
    } else {
        assert(flat_chars(s, f) =~= s);
    }
}

/// `unescape(entity(c) + t)` is `c` followed by `unescape(t)`.
proof fn lemma_unescape_entity(c: char, t: Seq<char>)
    ensures
        html_unescape(html_entity(c) + t) == seq![c] + html_unescape(t),
{
    let r = html_entity(c) + t;
    let e = html_entity(c);
    assert(r.len() > 0);
    assert(r.subrange(0, e.len() as int) =~= e);
    assert(r.skip(e.len() as int) =~= t);
    let amp = html_entity('&');
    let lt = html_entity('<');
    let gt = html_entity('>');
    let quot = html_entity('"');
    if c == '&' {
    } else if c == '<' {
        assert(!starts_with_seq(r, amp)) by {
            if r.len() >= 5 { assert(r.subrange(0, 5)[1] != amp[1]); }
        }
    } else if c == '>' {
        assert(!starts_with_seq(r, amp)) by {
            if r.len() >= 5 { assert(r.subrange(0, 5)[1] != amp[1]); }
        }
        assert(!starts_with_seq(r, lt)) by { assert(r.subrange(0, 4)[1] != lt[1]); }
    } else if c == '"' {
        assert(!starts_with_seq(r, amp)) by { assert(r.subrange(0, 5)[1] != amp[1]); }
        assert(!starts_with_seq(r, lt)) by { assert(r.subrange(0, 4)[1] != lt[1]); }
        assert(!starts_with_seq(r, gt)) by { assert(r.subrange(0, 4)[1] != gt[1]); }
    } else {
        assert(r[0] == c);
        assert(!starts_with_seq(r, amp)) by { if r.len() >= 5 { assert(r.subrange(0, 5)[0] != amp[0]); } }
        assert(!starts_with_seq(r, lt)) by { if r.len() >= 4 { assert(r.subrange(0, 4)[0] != lt[0]); } }
        assert(!starts_with_seq(r, gt)) by { if r.len() >= 4 { assert(r.subrange(0, 4)[0] != gt[0]); } }
        assert(!starts_with_seq(r, quot)) by { if r.len() >= 6 { assert(r.subrange(0, 6)[0] != quot[0]); } }
        assert(r.drop_first() =~= t);
    }
}

proof fn lemma_unescape_flat(s: Seq<char>)
    ensures
        html_unescape(flat_chars(s, |c: char| html_entity(c))) == s,
    decreases s.len(),
{
    if s.len() > 0 {
        let f = |c: char| html_entity(c);
        lemma_unescape_flat(s.drop_first());
        lemma_unescape_entity(s[0], flat_chars(s.drop_first(), f));
        assert(seq![s[0]] + s.drop_first() =~= s);
    } else {
        assert(html_unescape(flat_chars(s, |c: char| html_entity(c))) =~= s);
    }
}

/// Every `&` of `r` begins one of the four entities.
pub open spec fn amps_begin_entities(r: Seq<char>) -> bool {
    forall|i: int|
        0 <= i < r.len() && #[trigger] r[i] == '&' ==> starts_with_seq(r.skip(i), html_entity('&'))
            || starts_with_seq(r.skip(i), html_entity('<')) || starts_with_seq(r.skip(i), html_entity('>'))
            || starts_with_seq(r.skip(i), html_entity('"'))
}

proof fn lemma_flat_entities(s: Seq<char>)
    ensures
        amps_begin_entities(flat_chars(s, |c: char| html_entity(c))),
    decreases s.len(),
{
    let f = |c: char| html_entity(c);
    if s.len() > 0 {
        let rest = flat_chars(s.drop_first(), f);
        lemma_flat_entities(s.drop_first());
        let e = html_entity(s[0]);
        let r = flat_chars(s, f);
        assert(r == e + rest);
        assert forall|i: int| 0 <= i < r.len() && #[trigger] r[i] == '&' implies starts_with_seq(
            r.skip(i),
            html_entity('&'),
        ) || starts_with_seq(r.skip(i), html_entity('<')) || starts_with_seq(r.skip(i), html_entity('>'))
            || starts_with_seq(r.skip(i), html_entity('"')) by {
            if i < e.len() {
                assert(r[i] == e[i]);
                assert(i == 0);
                assert(r.skip(0).subrange(0, e.len() as int) =~= e);
                assert(s[0] == '&' || s[0] == '<' || s[0] == '>' || s[0] == '"');
            } else {
                let k = i - e.len();
                assert(r[i] == rest[k]);
                assert(r.skip(i) =~= rest.skip(k));
            }
        }
    }
}

/// Escaping works character by character: each of `&`, `<`, `>` and `"`
/// becomes its entity, so the result holds no `<`, `>` or `"`, every `&` in it
/// begins one of the four entities, and reading the entities back from left
/// to right gives the text again.
pub proof fn lemma_html_escape_roundtrip(s: Seq<char>)
    ensures
        html_escape_spec(s) == flat_chars(s, |c: char| html_entity(c)),
        !html_escape_spec(s).contains('<'),
        !html_escape_spec(s).contains('>'),
        !html_escape_spec(s).contains('"'),
        amps_begin_entities(html_escape_spec(s)),
        html_unescape(html_escape_spec(s)) == s,
{
    lemma_html_escape_safe(s);
    reveal_strlit("&amp;");
    reveal_strlit("&lt;");
    reveal_strlit("&gt;");
    reveal_strlit("&quot;");
    let amp = html_entity('&');
    let lt = html_entity('<');
    let gt = html_entity('>');
    let quot = html_entity('"');
    assert("&amp;"@ =~= amp);
    assert("&lt;"@ =~= lt);
    assert("&gt;"@ =~= gt);
    assert("&quot;"@ =~= quot);
    let f1 = |x: char| if x == '&' { amp } else { seq![x] };
    let f2 = |x: char| if x == '<' { lt } else { seq![x] };
    let f3 = |x: char| if x == '>' { gt } else { seq![x] };
    let f4 = |x: char| if x == '"' { quot } else { seq![x] };
    lemma_replace_char(s, '&', amp);
    let a = flat_chars(s, f1);
    lemma_replace_char(a, '<', lt);
    let b = flat_chars(a, f2);
    lemma_replace_char(b, '>', gt);
    let c = flat_chars(b, f3);
    lemma_replace_char(c, '"', quot);
    let h12 = |x: char| flat_chars(f1(x), f2);
    lemma_flat_compose(s, f1, f2);
    let h123 = |x: char| flat_chars(h12(x), f3);
    lemma_flat_compose(s, h12, f3);
    let h = |x: char| flat_chars(h123(x), f4);
    lemma_flat_compose(s, h123, f4);
    let e = |c: char| html_entity(c);
    assert forall|x: char| #[trigger] h(x) == e(x) by {
        let one = seq![x];
        assert(one.drop_first() =~= Seq::<char>::empty());
        assert(flat_chars(Seq::<char>::empty(), f2) =~= Seq::<char>::empty());
        assert(flat_chars(Seq::<char>::empty(), f3) =~= Seq::<char>::empty());
        assert(flat_chars(Seq::<char>::empty(), f4) =~= Seq::<char>::empty());
        if x == '&' {
            lemma_flat_same(amp, f2);
            lemma_flat_same(amp, f3);
            lemma_flat_same(amp, f4);
        } else if x == '<' {
            assert(flat_chars(one, f2) == f2(x) + flat_chars(one.drop_first(), f2));
            assert(flat_chars(one, f2) =~= lt);
            lemma_flat_same(lt, f3);
            lemma_flat_same(lt, f4);
        } else if x == '>' {
            lemma_flat_same(one, f2);
            assert(flat_chars(one, f3) == f3(x) + flat_chars(one.drop_first(), f3));
            assert(flat_chars(one, f3) =~= gt);
            lemma_flat_same(gt, f4);
        } else if x == '"' {
            lemma_flat_same(one, f2);
            lemma_flat_same(one, f3);
            assert(flat_chars(one, f4) == f4(x) + flat_chars(one.drop_first(), f4));
            assert(flat_chars(one, f4) =~= quot);
        } else {
            lemma_flat_same(one, f2);
            lemma_flat_same(one, f3);
            lemma_flat_same(one, f4);
        }
    }
    assert(h =~= e);
    lemma_unescape_flat(s);
    lemma_flat_entities(s);
}

// ── Song variants ───────────────────────────────────────────

/// The variant a lower-cased title names: sped up, slowed, nightcore, reverb,
/// instrumental, acoustic, live or remix, checked in that order.
pub open spec fn song_variant_spec(lower: Seq<char>) -> Option<Seq<char>> {
    if has_infix(lower, "sped up"@) || has_infix(lower, "speed up"@) || has_infix(
        lower,
        "speedup"@,
    ) {
        Some("sped up"@)
    } else if has_infix(lower, "slowed"@) || has_infix(lower, "slow down"@) || has_infix(
        lower,
        "slowdown"@,
    ) {
        Some("slowed"@)
    } else if has_infix(lower, "nightcore"@) {
        Some("nightcore"@)
    } else if has_infix(lower, "reverb"@) {
        Some("reverb"@)
    } else if has_infix(lower, "instrumental"@) || has_infix(lower, "karaoke"@) {
        Some("instrumental"@)
    } else if has_infix(lower, "acoustic"@) {
        Some("acoustic"@)
    } else if has_infix(lower, "live"@) {
        Some("live"@)
    } else if has_infix(lower, "remix"@) {
        Some("remix"@)
    } else {
        None
    }
}

pub open spec fn opt_str_view(o: Option<&str>) -> Option<Seq<char>> {
    match o {
        Some(s) => Some(s@),
        None => None,
    }
}


// ── Artist lists ────────────────────────────────────────────

/// The separators between artists: `,`, `;`, `&`, `/`, `feat` or `ft` with or
/// without a dot, and `featuring`, in any case, with the white space around them.
pub open spec fn artist_separator_pattern() -> Seq<char> {
    "(?i)\\s*(?:,|;|&|/|\\bfeat\\.|\\bfeat\\b|\\bft\\.|\\bft\\b|\\bfeaturing\\b)\\s*"@
}

fn artist_separators() -> (r: &'static str)
    ensures
        r@ == artist_separator_pattern(),
{
    "(?i)\\s*(?:,|;|&|/|\\bfeat\\.|\\bfeat\\b|\\bft\\.|\\bft\\b|\\bfeaturing\\b)\\s*"
}

/// A piece trimmed of white space, then of brackets and quotes, then of white space.
pub open spec fn clean_artist(p: Seq<char>) -> Seq<char> {
    trim_spec(trim_set(trim_spec(p), CharSet::BracketOrQuote))
}

/// `x` equals one of `list` up to ASCII case.
pub open spec fn contains_ignore_case(list: Seq<Seq<char>>, x: Seq<char>) -> bool {
    exists|j: int| 0 <= j < list.len() && lower_ascii_seq(#[trigger] list[j]) == lower_ascii_seq(x)
}

/// The cleaned, non-empty pieces, each kept only the first time it occurs up to ASCII case.
pub open spec fn distinct_artists(parts: Seq<Seq<char>>) -> Seq<Seq<char>>
    decreases parts.len(),
{
    if parts.len() == 0 {
        Seq::empty()
    } else {
        let prev = distinct_artists(parts.drop_last());
        let c = clean_artist(parts.last());
        if c.len() > 0 && !contains_ignore_case(prev, c) {
            prev.push(c)
        } else {
            prev
        }
    }
}

/// The artists named by an uploader string; the trimmed string itself when the
/// pieces leave nothing and it is not blank.
pub open spec fn artist_list_spec(u: Seq<char>) -> Seq<Seq<char>> {
    let l = distinct_artists(regex_split_parts(artist_separator_pattern(), u));
    if l.len() == 0 && trim_spec(u).len() > 0 {
        seq![trim_spec(u)]
    } else {
        l
    }
}


/// `x` equals an element of `list` up to ASCII case.
fn list_contains_ignore_case(list: &Vec<String>, x: &str) -> (b: bool)
    ensures
        b == contains_ignore_case(views(list@), x@),
{
    let xv = chars_of(x);
    let mut j: usize = 0;
    while j < list.len()
        invariant
            j <= list.len(),
            xv@ == x@,
            forall|k: int|
                0 <= k < j ==> lower_ascii_seq(#[trigger] views(list@)[k]) != lower_ascii_seq(x@),
        decreases list.len() - j,
    {
        let e = chars_of(list[j].as_str());
        if eq_ignore_ascii_case(e.as_slice(), xv.as_slice()) {
            assert(views(list@)[j as int] == list@[j as int]@);
            return true;
        }
        j = j + 1;
    }
    false
}

// ── Search queries ──────────────────────────────────────────

/// The search queries tried, in order, to find a song's audio: precision queries
/// naming the variant when the title has one, otherwise queries for the official
/// studio version; with or without the primary artist.
pub open spec fn search_queries_spec(primary: Seq<char>, title: Seq<char>, variant: Option<
    Seq<char>,
>) -> Seq<Seq<char>> {
    match variant {
        Some(v) => if primary.len() > 0 {
            seq![
                "ytsearch5:"@ + primary + " "@ + title + " "@ + v + " audio"@,
                "ytmsearch5:"@ + primary + " "@ + title + " "@ + v,
                "ytsearch5:"@ + title + " "@ + v,
                "scsearch5:"@ + primary + " "@ + title + " "@ + v,
            ]
        } else {
            seq![
                "ytsearch5:"@ + title + " "@ + v + " audio"@,
                "ytmsearch5:"@ + title + " "@ + v,
                "scsearch5:"@ + title + " "@ + v,
            ]
        },
        None => if primary.len() > 0 {
            seq![
                "ytmsearch5:"@ + primary + " "@ + title,
                "ytsearch5:"@ + primary + " - "@ + title + " official audio"@,
                "ytsearch5:"@ + primary + " "@ + title,
                "scsearch5:"@ + primary + " "@ + title,
            ]
        } else {
            seq![
                "ytmsearch5:"@ + title + " audio"@,
                "ytsearch5:"@ + title + " official audio"@,
                "ytsearch5:"@ + title,
                "scsearch5:"@ + title,
            ]
        },
    }
}

fn cat2(a: &str, b: &str) -> (r: String)
    ensures
        r@ == a@ + b@,
{
    let mut r = owned(a);
    push_str(&mut r, b);
    r
}

fn cat4(a: &str, b: &str, c: &str, d: &str) -> (r: String)
    ensures
        r@ == a@ + b@ + c@ + d@,
{
    let mut r = owned(a);
    push_str(&mut r, b);
    push_str(&mut r, c);
    push_str(&mut r, d);
    r
}

fn cat6(a: &str, b: &str, c: &str, d: &str, e: &str, f: &str) -> (r: String)
    ensures
        r@ == a@ + b@ + c@ + d@ + e@ + f@,
{
    let mut r = cat4(a, b, c, d);
    push_str(&mut r, e);
    push_str(&mut r, f);
    r
}

/// The search queries for a song (see `search_queries_spec`).
pub fn spotify_search_queries(primary: &str, title: &str, variant: Option<&str>) -> (r: Vec<String>)
    ensures
        views(r@) == search_queries_spec(primary@, title@, opt_str_view(variant)),
{
    let mut q: Vec<String> = Vec::new();
    match variant {
        Some(v) => {
            if !primary.is_empty() {
                let mut a = cat6("ytsearch5:", primary, " ", title, " ", v);
                push_str(&mut a, " audio");
                q.push(a);
                q.push(cat6("ytmsearch5:", primary, " ", title, " ", v));
                q.push(cat4("ytsearch5:", title, " ", v));
                q.push(cat6("scsearch5:", primary, " ", title, " ", v));
            } else {
                let mut a = cat4("ytsearch5:", title, " ", v);
                push_str(&mut a, " audio");
                q.push(a);
                q.push(cat4("ytmsearch5:", title, " ", v));
                q.push(cat4("scsearch5:", title, " ", v));
            }
        },
        None => {
            if !primary.is_empty() {
                q.push(cat4("ytmsearch5:", primary, " ", title));
                let mut b = cat4("ytsearch5:", primary, " - ", title);
                push_str(&mut b, " official audio");
                q.push(b);
                q.push(cat4("ytsearch5:", primary, " ", title));
                q.push(cat4("scsearch5:", primary, " ", title));
            } else {
                q.push(cat4("ytmsearch5:", title, " audio", ""));
                q.push(cat4("ytsearch5:", title, " official audio", ""));
                q.push(cat2("ytsearch5:", title));
                q.push(cat2("scsearch5:", title));
            }
        },
    }
    proof {
        reveal_strlit("");
        assert(""@ =~= Seq::<char>::empty());
    }
    assert(views(q@) =~= search_queries_spec(primary@, title@, opt_str_view(variant)));
    q
}

// ── Candidate scoring ───────────────────────────────────────

/// One search result of `yt-dlp`, with its title and uploader lower-cased.
pub struct SearchCandidate {
    pub title_lower: String,
    pub uploader_lower: String,
    pub url: String,
    /// The reported duration is positive and outside 40..=900 seconds.
    pub duration_out_of_range: bool,
}

/// The lower-cased words of a title, stripped of surrounding non-alphanumerics,
/// keeping those longer than one byte.
pub open spec fn title_words_spec(title: Seq<char>) -> Seq<Seq<char>> {
    words_spec(unicode_lowercase(title)).map_values(
        |w: Seq<char>| trim_set(w, CharSet::NotAlphanumeric),
    ).filter(longer_than_one_byte())
}

/// Words longer than one byte in UTF-8.
pub open spec fn longer_than_one_byte() -> spec_fn(Seq<char>) -> bool {
    |w: Seq<char>| vstd::utf8::encode_utf8(w).len() > 1
}

/// The words of a title used for matching (see `title_words_spec`).
pub fn title_words(title: &str) -> (r: Vec<String>)
    ensures
        views(r@) == title_words_spec(title@),
{
    let lower = to_lowercase(title);
    let ws = split_whitespace(lower.as_str());
    let ghost trimmed = views(ws@).map_values(|w: Seq<char>| trim_set(w, CharSet::NotAlphanumeric));
    let mut out: Vec<String> = Vec::new();
    let mut i: usize = 0;
    while i < ws.len()
        invariant
            i <= ws.len(),
            trimmed == views(ws@).map_values(|w: Seq<char>| trim_set(w, CharSet::NotAlphanumeric)),
            views(out@) == trimmed.take(i as int).filter(longer_than_one_byte()),
        decreases ws.len() - i,
    {
        let w = trim_matching(ws[i].as_str(), CharSet::NotAlphanumeric);
        proof {
            assert(trimmed.take(i + 1) =~= trimmed.take(i as int).push(w@));
            trimmed.take(i as int).lemma_filter_push(w@, longer_than_one_byte());
        }
        let ghost prev = out@;
        assert(trimmed[i as int] == w@);
        let n = w.as_str().as_bytes().len();
        if n > 1 {
            out.push(w);
            assert(views(out@) =~= views(prev).push(w@));
            assert(views(out@) == trimmed.take(i + 1).filter(longer_than_one_byte()));
        } else {
            assert(views(out@) == trimmed.take(i + 1).filter(longer_than_one_byte()));
        }
        i = i + 1;
    }
    assert(trimmed.take(ws.len() as int) =~= trimmed);
    out
}

/// How many of `words` occur in `t`.
pub open spec fn count_words_in(t: Seq<char>, words: Seq<Seq<char>>) -> nat
    decreases words.len(),
{
    if words.len() == 0 {
        0
    } else {
        count_words_in(t, words.drop_last()) + if has_infix(t, words.last()) {
            1nat
        } else {
            0nat
        }
    }
}

/// How many of `artists` occur in the title or the uploader.
pub open spec fn count_artists_in(t: Seq<char>, u: Seq<char>, artists: Seq<Seq<char>>) -> nat
    decreases artists.len(),
{
    if artists.len() == 0 {
        0
    } else {
        count_artists_in(t, u, artists.drop_last()) + if has_infix(t, artists.last()) || has_infix(
            u,
            artists.last(),
        ) {
            1nat
        } else {
            0nat
        }
    }
}

/// The score of a candidate: the wanted variant present (+70) or missing (−80),
/// or, for a plain song, a sped-up/slowed/nightcore version (−60); +15 per title
/// word found, −50 when none is; +25 per artist found; +20 for official audio
/// signs; −90 for loops, albums, tutorials and reactions; −70 for an implausible
/// duration.
pub open spec fn candidate_score_spec(
    t: Seq<char>,
    u: Seq<char>,
    out_of_range: bool,
    variant: Option<Seq<char>>,
    words: Seq<Seq<char>>,
    artists_lower: Seq<Seq<char>>,
) -> int {
    let v = match variant {
        Some(var) => if has_infix(t, var) {
            70int
        } else {
            -80int
        },
        None => if has_infix(t, "sped up"@) || has_infix(t, "speed up"@) || has_infix(t, "slowed"@)
            || has_infix(t, "nightcore"@) {
            -60int
        } else {
            0int
        },
    };
    let n = count_words_in(t, words);
    let w = 15 * n + if words.len() > 0 && n == 0 {
        -50int
    } else {
        0int
    };
    let a = 25 * count_artists_in(t, u, artists_lower);
    let o = if has_infix(t, "official audio"@) || has_infix(t, "official track"@) || has_infix(
        u,
        "topic"@,
    ) || has_infix(u, "vevo"@) {
        20int
    } else {
        0int
    };
    let s = if has_infix(t, "1 hour"@) || has_infix(t, "10 hours"@) || has_infix(t, "10h"@)
        || has_infix(t, "full album"@) || has_infix(t, "tutorial"@) || has_infix(t, "reaction"@) {
        -90int
    } else {
        0int
    };
    let d = if out_of_range {
        -70int
    } else {
        0int
    };
    v + w + a + o + s + d
}

/// The wanted variant decides 150 points: with everything else the same, a
/// title that contains the variant asked for scores exactly 150 more than
/// when a variant it lacks is asked for. So a candidate that has the requested
/// variant always beats the same candidate scored for a variant it lacks.
pub proof fn lemma_variant_present_scores_higher(
    t: Seq<char>,
    u: Seq<char>,
    out_of_range: bool,
    present: Seq<char>,
    absent: Seq<char>,
    words: Seq<Seq<char>>,
    artists_lower: Seq<Seq<char>>,
)
    requires
        has_infix(t, present),
        !has_infix(t, absent),
    ensures
        candidate_score_spec(t, u, out_of_range, Some(present), words, artists_lower) == candidate_score_spec(
            t,
            u,
            out_of_range,
            Some(absent),
            words,
            artists_lower,
        ) + 150,
        candidate_score_spec(t, u, out_of_range, Some(present), words, artists_lower) > candidate_score_spec(
            t,
            u,
            out_of_range,
            Some(absent),
            words,
            artists_lower,
        ),
{
}

/// Against the score of the same title when no variant is asked for (a title
/// that is no sped-up, slowed or nightcore version): finding the requested
/// variant adds 70 points, and missing it takes 80 away.
pub proof fn lemma_variant_against_plain(
    t: Seq<char>,
    u: Seq<char>,
    out_of_range: bool,
    variant: Seq<char>,
    words: Seq<Seq<char>>,
    artists_lower: Seq<Seq<char>>,
)
    requires
        !has_infix(t, "sped up"@),
        !has_infix(t, "speed up"@),
        !has_infix(t, "slowed"@),
        !has_infix(t, "nightcore"@),
    ensures
        has_infix(t, variant) ==> candidate_score_spec(t, u, out_of_range, Some(variant), words, artists_lower)
            == candidate_score_spec(t, u, out_of_range, None, words, artists_lower) + 70,
        !has_infix(t, variant) ==> candidate_score_spec(t, u, out_of_range, Some(variant), words, artists_lower)
            == candidate_score_spec(t, u, out_of_range, None, words, artists_lower) - 80,
{
}

/// The score of a search candidate (see `candidate_score_spec`).
#[verifier::spinoff_prover]
#[verifier::rlimit(40)]
pub fn score_candidate(
    c: &SearchCandidate,
    variant: Option<&str>,
    words: &Vec<String>,
    artists_lower: &Vec<String>,
) -> (r: i128)
    ensures
        r == candidate_score_spec(
            c.title_lower@,
            c.uploader_lower@,
            c.duration_out_of_range,
            opt_str_view(variant),
            views(words@),
            views(artists_lower@),
        ),
{
    let t = c.title_lower.as_str();
    let u = c.uploader_lower.as_str();
    let mut score: i128 = 0;
    match variant {
        Some(var) => {
            if str_contains(t, var) {
                score = 70;
            } else {
                score = -80;
            }
        },
        None => {
            if str_contains(t, "sped up") || str_contains(t, "speed up") || str_contains(t, "slowed")
                || str_contains(t, "nightcore") {
                score = -60;
            }
        },
    }
    let mut n: u64 = 0;
    let mut i: usize = 0;
    while i < words.len()
        invariant
            i <= words.len(),
            words.len() <= usize::MAX,
            n == count_words_in(t@, views(words@).take(i as int)),
            n <= i,
        decreases words.len() - i,
    {
        assert(views(words@).take(i + 1).drop_last() =~= views(words@).take(i as int));
        if str_contains(t, words[i].as_str()) {
            n = n + 1;
        }
        i = i + 1;
    }
    assert(views(words@).take(words.len() as int) =~= views(words@));
    let mut w: i128 = 15 * (n as i128);
    if words.len() > 0 && n == 0 {
        w = w - 50;
    }
    let mut m: u64 = 0;
    let mut j: usize = 0;
    while j < artists_lower.len()
        invariant
            j <= artists_lower.len(),
            m == count_artists_in(t@, u@, views(artists_lower@).take(j as int)),
            m <= j,
        decreases artists_lower.len() - j,
    {
        assert(views(artists_lower@).take(j + 1).drop_last() =~= views(artists_lower@).take(
            j as int,
        ));
        let a = artists_lower[j].as_str();
        if str_contains(t, a) || str_contains(u, a) {
            m = m + 1;
        }
        j = j + 1;
    }
    assert(views(artists_lower@).take(artists_lower.len() as int) =~= views(artists_lower@));
    let a_score: i128 = 25 * (m as i128);
    let mut o: i128 = 0;
    if str_contains(t, "official audio") || str_contains(t, "official track") || str_contains(
        u,
        "topic",
    ) || str_contains(u, "vevo") {
        o = 20;
    }
    let mut s: i128 = 0;
    if str_contains(t, "1 hour") || str_contains(t, "10 hours") || str_contains(t, "10h")
        || str_contains(t, "full album") || str_contains(t, "tutorial") || str_contains(
        t,
        "reaction",
    ) {
        s = -90;
    }
    let mut d: i128 = 0;
    if c.duration_out_of_range {
        d = -70;
    }
    score + w + a_score + o + s + d
}

/// The lower-cased artists (`to_lowercase` of each).
pub fn lowercase_all(v: &Vec<String>) -> (r: Vec<String>)
    ensures
        views(r@) == views(v@).map_values(|a: Seq<char>| unicode_lowercase(a)),
{
    let mut out: Vec<String> = Vec::new();
    let mut i: usize = 0;
    while i < v.len()
        invariant
            i <= v.len(),
            views(out@) == views(v@).take(i as int).map_values(|a: Seq<char>| unicode_lowercase(a)),
        decreases v.len() - i,
    {
        let l = to_lowercase(v[i].as_str());
        let ghost prev = out@;
        out.push(l);
        i = i + 1;
        assert(views(out@) =~= views(prev).push(l@));
        assert(views(out@) =~= views(v@).take(i as int).map_values(
            |a: Seq<char>| unicode_lowercase(a),
        ));
    }
    assert(views(v@).take(v.len() as int) =~= views(v@));
    out
}

/// The running search for the best audio match: the best-scoring URL so far.
pub struct AudioSearch {
    pub best_url: Option<String>,
    pub best_score: i128,
}

/// What remains of a search once a candidate is seen: it replaces the best one
/// when it scores strictly higher.
pub open spec fn absorb_spec(best: (Option<Seq<char>>, int), url: Seq<char>, score: int) -> (
    Option<Seq<char>>,
    int,
) {
    if score > best.1 {
        (Some(url), score)
    } else {
        best
    }
}

impl AudioSearch {
    pub open spec fn state(self) -> (Option<Seq<char>>, int) {
        (match self.best_url {
            Some(u) => Some(u@),
            None => None,
        }, self.best_score as int)
    }

    /// A search that has seen nothing: no URL, score −1000.
    pub fn new() -> (s: Self)
        ensures
            s.state() == (None::<Seq<char>>, -1000int),
    {
        AudioSearch { best_url: None, best_score: -1000 }
    }

    /// Take a scored candidate into account.
    pub fn absorb(&mut self, url: &str, score: i128)
        ensures
            final(self).state() == absorb_spec(old(self).state(), url@, score as int),
    {
        if score > self.best_score {
            self.best_score = score;
            self.best_url = Some(owned(url));
        }
    }

    /// A confident match (score at least 40) ends the search at once.
    pub fn is_confident(&self) -> (b: bool)
        ensures
            b == (self.best_score >= 40 && self.best_url is Some),
    {
        self.best_score >= 40 && self.best_url.is_some()
    }

    /// The URL chosen when all queries are done: the best one if it scored above 0.
    pub fn result(self) -> (r: Option<String>)
        ensures
            match r {
                Some(u) => self.best_score > 0 && self.best_url == Some(u),
                None => self.best_score <= 0 || self.best_url is None,
            },
    {
        if self.best_score > 0 {
            self.best_url
        } else {
            None
        }
    }
}

/// A search's best score never goes down as candidates are seen.
pub proof fn lemma_absorb_monotone(best: (Option<Seq<char>>, int), url: Seq<char>, score: int)
    ensures
        absorb_spec(best, url, score).1 >= best.1,
        absorb_spec(best, url, score).1 >= score,
{
}

// ── Quality menu ────────────────────────────────────────────

/// What the menu shows of a format: its quality and its size, if known.
pub open spec fn sized(o: QualityOption) -> (Quality, Option<u64>) {
    (o.quality, o.filesize_bytes)
}

pub open spec fn sized_of(v: Seq<QualityOption>) -> Seq<(Quality, Option<u64>)> {
    v.map_values(|o: QualityOption| sized(o))
}

pub open spec fn is_video_entry() -> spec_fn((Quality, Option<u64>)) -> bool {
    |e: (Quality, Option<u64>)| !e.0.is_audio_spec()
}

pub open spec fn is_audio_entry() -> spec_fn((Quality, Option<u64>)) -> bool {
    |e: (Quality, Option<u64>)| e.0.is_audio_spec()
}

pub open spec fn fallback_video_entries() -> Seq<(Quality, Option<u64>)> {
    seq![(Quality::Best, None), (Quality::Video720p, None)]
}

pub open spec fn fallback_audio_entries() -> Seq<(Quality, Option<u64>)> {
    seq![(Quality::AudioBest, None), (Quality::Audio256, None), (Quality::Audio128, None)]
}

/// The formats offered in a mode: the video-only or audio-only ones (with a
/// default pair or triple of unsized formats when there are none), or all.
pub open spec fn filter_qualities_spec(available: Seq<QualityOption>, mode: MediaFilterMode) -> Seq<
    (Quality, Option<u64>),
> {
    match mode {
        MediaFilterMode::VideoOnly => {
            let f = sized_of(available).filter(is_video_entry());
            if f.len() == 0 {
                fallback_video_entries()
            } else {
                f
            }
        },
        MediaFilterMode::AudioOnly => {
            let f = sized_of(available).filter(is_audio_entry());
            if f.len() == 0 {
                fallback_audio_entries()
            } else {
                f
            }
        },
        MediaFilterMode::All => sized_of(available),
    }
}

fn option(q: Quality, speed: &str, display: &str, full: &str) -> (r: QualityOption)
    ensures
        sized(r) == (q, None::<u64>),
{
    QualityOption {
        quality: q,
        filesize_bytes: None,
        estimated_secs: None,
        speed_category: owned(speed),
        display_label: owned(display),
        full_button_label: owned(full),
    }
}

fn clone_option(o: &QualityOption) -> (r: QualityOption)
    ensures
        sized(r) == sized(*o),
{
    QualityOption {
        quality: o.quality,
        filesize_bytes: o.filesize_bytes,
        estimated_secs: o.estimated_secs,
        speed_category: o.speed_category.clone(),
        display_label: o.display_label.clone(),
        full_button_label: o.full_button_label.clone(),
    }
}

/// The video-only menu offers no audio format, the audio-only menu only audio
/// formats, and neither is ever empty.
pub proof fn lemma_filter_qualities_modes(available: Seq<QualityOption>)
    ensures
        filter_qualities_spec(available, MediaFilterMode::VideoOnly).len() > 0,
        filter_qualities_spec(available, MediaFilterMode::AudioOnly).len() > 0,
        forall|i: int|
            0 <= i < filter_qualities_spec(available, MediaFilterMode::VideoOnly).len()
                ==> !(#[trigger] filter_qualities_spec(available, MediaFilterMode::VideoOnly)[i]).0.is_audio_spec(),
        forall|i: int|
            0 <= i < filter_qualities_spec(available, MediaFilterMode::AudioOnly).len()
                ==> (#[trigger] filter_qualities_spec(available, MediaFilterMode::AudioOnly)[i]).0.is_audio_spec(),
{
    broadcast use vstd::seq_lib::group_filter_ensures;

    let q = sized_of(available);
    assert(q.filter(is_video_entry()).len() >= 0);
    assert(q.filter(is_audio_entry()).len() >= 0);
}

// ── The info message ────────────────────────────────────────

/// `{:02}:{:02}:{:02}` of hours, minutes and seconds, or `{:02}:{:02}` under an hour.
pub open spec fn duration_text(d: nat) -> Seq<char> {
    let h = d / 3600;
    let m = (d % 3600) / 60;
    let s = d % 60;
    if h > 0 {
        zero_pad(dec(h), 2) + ":"@ + zero_pad(dec(m), 2) + ":"@ + zero_pad(dec(s), 2)
    } else {
        zero_pad(dec(m), 2) + ":"@ + zero_pad(dec(s), 2)
    }
}

/// The duration in the form of `duration_text`.
pub fn format_duration(d: u64) -> (r: String)
    ensures
        r@ == duration_text(d as nat),
{
    let h = d / 3600;
    let m = (d % 3600) / 60;
    let s = d % 60;
    let mut out = String::new();
    if h > 0 {
        push_zero_padded(&mut out, fmt_dec(h).as_str(), 2);
        push_str(&mut out, ":");
    }
    push_zero_padded(&mut out, fmt_dec(m).as_str(), 2);
    push_str(&mut out, ":");
    push_zero_padded(&mut out, fmt_dec(s).as_str(), 2);
    proof {
        if h > 0 {
            assert(out@ =~= duration_text(d as nat));
        } else {
            assert(out@ =~= duration_text(d as nat));
        }
    }
    out
}

/// The short name of a quality in the menu.
pub open spec fn short_name(q: Quality) -> Seq<char> {
    match q {
        Quality::Video360p => "360p"@,
        Quality::Video480p => "480p"@,
        Quality::Video720p => "720p"@,
        Quality::Video1080p => "1080p"@,
        Quality::Video1440p => "1440p"@,
        Quality::Video4K => "4K"@,
        Quality::Best => "Best"@,
        Quality::Audio128 => "128k"@,
        Quality::Audio256 => "256k"@,
        Quality::AudioBest => "MP3"@,
    }
}

fn short_name_exec(q: Quality) -> (r: &'static str)
    ensures
        r@ == short_name(q),
{
    match q {
        Quality::Video360p => "360p",
        Quality::Video480p => "480p",
        Quality::Video720p => "720p",
        Quality::Video1080p => "1080p",
        Quality::Video1440p => "1440p",
        Quality::Video4K => "4K",
        Quality::Best => "Best",
        Quality::Audio128 => "128k",
        Quality::Audio256 => "256k",
        Quality::AudioBest => "MP3",
    }
}

/// Whole mebibytes of a size, 0 when the size is unknown.
pub open spec fn size_mb(size: Option<u64>) -> nat {
    match size {
        Some(b) => (b / 1048576) as nat,
        None => 0,
    }
}

/// One menu line: speed icon, name right-aligned in five, size in four, time.
pub open spec fn quality_line(e: (Quality, Option<u64>)) -> Seq<char> {
    let mb = size_mb(e.1);
    let icon = if mb <= 35 {
        "⚡️"@
    } else if mb <= 120 {
        "🚀"@
    } else {
        "⚖️"@
    };
    let size = if mb > 0 {
        pad_left(dec(mb), 4, ' ') + "MB"@
    } else {
        "  ~MB"@
    };
    let time = if mb <= 35 {
        "~1-3 сек"@
    } else if mb <= 120 {
        "~3-10 сек"@
    } else {
        "~15+ сек"@
    };
    icon + " "@ + pad_left(short_name(e.0), 5, ' ') + " | "@ + size + " | ⏳ "@ + time
}

fn quality_line_exec(q: Quality, size: Option<u64>) -> (r: String)
    ensures
        r@ == quality_line((q, size)),
{
    let mb: u64 = match size {
        Some(b) => b / 1048576,
        None => 0,
    };
    let mut out = String::new();
    if mb <= 35 {
        push_str(&mut out, "⚡️");
    } else if mb <= 120 {
        push_str(&mut out, "🚀");
    } else {
        push_str(&mut out, "⚖️");
    }
    let ghost a = out@;
    push_str(&mut out, " ");
    push_padded(&mut out, short_name_exec(q), 5, ' ');
    push_str(&mut out, " | ");
    let ghost b = out@;
    if mb > 0 {
        push_padded(&mut out, fmt_dec(mb).as_str(), 4, ' ');
        push_str(&mut out, "MB");
    } else {
        push_str(&mut out, "  ~MB");
    }
    let ghost c = out@;
    push_str(&mut out, " | ⏳ ");
    if mb <= 35 {
        push_str(&mut out, "~1-3 сек");
    } else if mb <= 120 {
        push_str(&mut out, "~3-10 сек");
    } else {
        push_str(&mut out, "~15+ сек");
    }
    assert(out@ =~= quality_line((q, size)));
    out
}

/// The text for a media mode's kind of playlist.
pub open spec fn playlist_kind(mode: MediaFilterMode) -> Seq<char> {
    match mode {
        MediaFilterMode::AudioOnly => "Аудио-плейлист"@,
        MediaFilterMode::VideoOnly => "Видео-плейлист"@,
        MediaFilterMode::All => "Плейлист"@,
    }
}

pub open spec fn all_audio(v: Seq<QualityOption>) -> bool {
    forall|i: int| 0 <= i < v.len() ==> (#[trigger] v[i]).quality.is_audio_spec()
}

/// Whether some offered format is over 50 MiB, the limit of Telegram uploads.
pub open spec fn has_large(v: Seq<(Quality, Option<u64>)>) -> bool {
    exists|i: int| 0 <= i < v.len() && is_large(#[trigger] v[i])
}

/// A format over 50 MiB.
pub open spec fn is_large(e: (Quality, Option<u64>)) -> bool {
    match e.1 {
        Some(b) => b > 52428800,
        None => false,
    }
}

/// The header lines of a single item: title with icon, author, duration.
pub open spec fn info_head(info: InfoResponse, mode: MediaFilterMode) -> Seq<Seq<char>> {
    let icon = match mode {
        MediaFilterMode::AudioOnly => "🎧"@,
        MediaFilterMode::VideoOnly => "📹"@,
        MediaFilterMode::All => if all_audio(info.available_qualities@) {
            "🎧"@
        } else {
            "📹"@
        },
    };
    let title = seq![icon + " <b>"@ + html_escape_spec(info.title@) + "</b>"@];
    let author = match info.uploader {
        Some(a) => seq!["👤 <i>"@ + html_escape_spec(a@) + "</i>"@],
        None => Seq::empty(),
    };
    let dur = match info.duration_secs {
        Some(d) => seq!["⏱ <i>"@ + duration_text(d as nat) + "</i>"@],
        None => Seq::empty(),
    };
    title + author + dur
}

/// The message that describes a link and the formats offered for it.
pub open spec fn info_message_spec(info: InfoResponse, mode: MediaFilterMode) -> Seq<char> {
    if info.is_playlist {
        let dur = match info.duration_secs {
            Some(d) => "\n⏱ <i>"@ + duration_text(d as nat) + "</i>"@,
            None => Seq::empty(),
        };
        let count: nat = match info.playlist_count {
            Some(c) => c as nat,
            None => 0,
        };
        "📁 <b>"@ + html_escape_spec(info.title@) + " ("@ + playlist_kind(mode) + ")</b>\n—\n<i>Элементов: "@
            + dec(count) + "</i>"@ + dur + "\n\nФорматы для загрузки ↓"@
    } else {
        let offered = filter_qualities_spec(info.available_qualities@, mode);
        let warn: Seq<Seq<char>> = if has_large(offered) {
            seq!["⚠️ Файлы > 50 МБ ограничены лимитами Telegram."@]
        } else {
            Seq::empty()
        };
        join_spec(
            info_head(info, mode) + seq![Seq::<char>::empty()] + offered.map_values(
                |e: (Quality, Option<u64>)| quality_line(e),
            ) + seq![Seq::<char>::empty()] + warn,
            "\n"@,
        )
    }
}

fn all_audio_exec(v: &Vec<QualityOption>) -> (b: bool)
    ensures
        b == all_audio(v@),
{
    let mut i: usize = 0;
    while i < v.len()
        invariant
            i <= v.len(),
            forall|k: int| 0 <= k < i ==> (#[trigger] v@[k]).quality.is_audio_spec(),
        decreases v.len() - i,
    {
        if !v[i].quality.is_audio() {
            return false;
        }
        i = i + 1;
    }
    true
}

/// Builds the messages and menus of the media downloader.
pub struct UiBuilder;

impl UiBuilder {
    /// The formats offered in a mode (see `filter_qualities_spec`).
    pub fn filter_qualities(available: &Vec<QualityOption>, mode: MediaFilterMode) -> (r: Vec<
        QualityOption,
    >)
        ensures
            sized_of(r@) == filter_qualities_spec(available@, mode),
    {
        let mut out: Vec<QualityOption> = Vec::new();
        let mut i: usize = 0;
        while i < available.len()
            invariant
                i <= available.len(),
                sized_of(out@) == (match mode {
                    MediaFilterMode::VideoOnly => sized_of(available@).take(i as int).filter(
                        is_video_entry(),
                    ),
                    MediaFilterMode::AudioOnly => sized_of(available@).take(i as int).filter(
                        is_audio_entry(),
                    ),
                    MediaFilterMode::All => sized_of(available@).take(i as int),
                }),
            decreases available.len() - i,
        {
            let ghost before = sized_of(available@).take(i as int);
            let ghost e = sized(available@[i as int]);
            proof {
                assert(sized_of(available@).take(i + 1) =~= before.push(e));
                before.lemma_filter_push(e, is_video_entry());
                before.lemma_filter_push(e, is_audio_entry());
            }
            let keep = match mode {
                MediaFilterMode::VideoOnly => !available[i].quality.is_audio(),
                MediaFilterMode::AudioOnly => available[i].quality.is_audio(),
                MediaFilterMode::All => true,
            };
            let ghost prev = out@;
            if keep {
                let o = clone_option(&available[i]);
                out.push(o);
                assert(sized_of(out@) =~= sized_of(prev).push(e));
            }
            i = i + 1;
        }
        assert(sized_of(available@).take(available.len() as int) =~= sized_of(available@));
        if out.len() == 0 {
            match mode {
                MediaFilterMode::VideoOnly => {
                    out.push(option(Quality::Best, "🚀", "⭐ Лучшее видео", "⭐ Лучшее видео"));
                    out.push(option(Quality::Video720p, "⚡", "720p", "720p HD"));
                    assert(sized_of(out@) =~= fallback_video_entries());
                },
                MediaFilterMode::AudioOnly => {
                    out.push(option(Quality::AudioBest, "⚡", "🎵 MP3", "🎵 MP3 (Лучшее)"));
                    out.push(option(Quality::Audio256, "⚡", "🎵 256k", "🎵 256 kbps"));
                    out.push(option(Quality::Audio128, "⚡", "🎵 128k", "🎵 128 kbps"));
                    assert(sized_of(out@) =~= fallback_audio_entries());
                },
                MediaFilterMode::All => {},
            }
        }
        out
    }

    /// The message that describes a link and the formats offered for it in a mode.
    pub fn build_info_message(info: &InfoResponse, mode: MediaFilterMode) -> (r: String)
        ensures
            r@ == info_message_spec(*info, mode),
    {
        if info.is_playlist {
            let mut out = String::new();
            push_str(&mut out, "📁 <b>");
            push_str(&mut out, html_escape(info.title.as_str()).as_str());
            push_str(&mut out, " (");
            match mode {
                MediaFilterMode::AudioOnly => push_str(&mut out, "Аудио-плейлист"),
                MediaFilterMode::VideoOnly => push_str(&mut out, "Видео-плейлист"),
                MediaFilterMode::All => push_str(&mut out, "Плейлист"),
            }
            push_str(&mut out, ")</b>\n—\n<i>Элементов: ");
            let count: u32 = match info.playlist_count {
                Some(c) => c,
                None => 0,
            };
            push_dec(&mut out, count as u64);
            push_str(&mut out, "</i>");
            match info.duration_secs {
                Some(d) => {
                    push_str(&mut out, "\n⏱ <i>");
                    push_str(&mut out, format_duration(d).as_str());
                    push_str(&mut out, "</i>");
                },
                None => {},
            }
            push_str(&mut out, "\n\nФорматы для загрузки ↓");
            assert(out@ =~= info_message_spec(*info, mode));
            return out;
        }
        let offered = UiBuilder::filter_qualities(&info.available_qualities, mode);
        let mut lines: Vec<String> = Vec::new();
        let mut head = String::new();
        match mode {
            MediaFilterMode::AudioOnly => push_str(&mut head, "🎧"),
            MediaFilterMode::VideoOnly => push_str(&mut head, "📹"),
            MediaFilterMode::All => {
                if all_audio_exec(&info.available_qualities) {
                    push_str(&mut head, "🎧");
                } else {
                    push_str(&mut head, "📹");
                }
            },
        }
        push_str(&mut head, " <b>");
        push_str(&mut head, html_escape(info.title.as_str()).as_str());
        push_str(&mut head, "</b>");
        lines.push(head);
        match &info.uploader {
            Some(a) => {
                let mut l = String::new();
                push_str(&mut l, "👤 <i>");
                push_str(&mut l, html_escape(a.as_str()).as_str());
                push_str(&mut l, "</i>");
                lines.push(l);
            },
            None => {},
        }
        match info.duration_secs {
            Some(d) => {
                let mut l = String::new();
                push_str(&mut l, "⏱ <i>");
                push_str(&mut l, format_duration(d).as_str());
                push_str(&mut l, "</i>");
                lines.push(l);
            },
            None => {},
        }
        assert(views(lines@) =~= info_head(*info, mode));
        lines.push(String::new());
        let ghost base = views(lines@);
        let ghost entries = sized_of(offered@);
        let mut large = false;
        let mut i: usize = 0;
        while i < offered.len()
            invariant
                i <= offered.len(),
                entries == sized_of(offered@),
                views(lines@) == base + entries.take(i as int).map_values(
                    |e: (Quality, Option<u64>)| quality_line(e),
                ),
                large == exists|k: int| 0 <= k < i && is_large(#[trigger] entries[k]),
            decreases offered.len() - i,
        {
            let l = quality_line_exec(offered[i].quality, offered[i].filesize_bytes);
            let ghost prev = views(lines@);
            lines.push(l);
            assert(views(lines@) =~= prev.push(l@));
            assert(entries.take(i + 1).map_values(|e: (Quality, Option<u64>)| quality_line(e))
                =~= entries.take(i as int).map_values(|e: (Quality, Option<u64>)| quality_line(e)).push(
                quality_line(entries[i as int]),
            ));
            match offered[i].filesize_bytes {
                Some(b) => {
                    if b > 52428800 {
                        large = true;
                    }
                },
                None => {},
            }
            i = i + 1;
        }
        assert(entries.take(offered.len() as int) =~= entries);
        assert(large == has_large(entries));
        let ghost mid = views(lines@);
        lines.push(String::new());
        assert(views(lines@) =~= mid.push(Seq::<char>::empty()));
        let ghost warn: Seq<Seq<char>> = if has_large(entries) {
            seq!["⚠️ Файлы > 50 МБ ограничены лимитами Telegram."@]
        } else {
            Seq::<Seq<char>>::empty()
        };
        let ghost mid2 = views(lines@);
        if large {
            lines.push(owned("⚠️ Файлы > 50 МБ ограничены лимитами Telegram."));
        }
        assert(views(lines@) =~= mid2 + warn);
        assert(views(lines@) =~= info_head(*info, mode) + seq![Seq::<char>::empty()]
            + entries.map_values(|e: (Quality, Option<u64>)| quality_line(e)) + seq![
            Seq::<char>::empty()] + warn);
        join(&lines, "\n")
    }
}

impl crate::fetch::MediaDownloader {
    /// The variant of a song that its title names (see `song_variant_spec`).
    pub fn extract_song_variant(title: &str) -> (r: Option<&'static str>)
        ensures
            opt_str_view(r) == song_variant_spec(unicode_lowercase(title@)),
    {
        let lower = to_lowercase(title);
        let l = lower.as_str();
        if str_contains(l, "sped up") || str_contains(l, "speed up") || str_contains(l, "speedup") {
            Some("sped up")
        } else if str_contains(l, "slowed") || str_contains(l, "slow down") || str_contains(
            l,
            "slowdown",
        ) {
            Some("slowed")
        } else if str_contains(l, "nightcore") {
            Some("nightcore")
        } else if str_contains(l, "reverb") {
            Some("reverb")
        } else if str_contains(l, "instrumental") || str_contains(l, "karaoke") {
            Some("instrumental")
        } else if str_contains(l, "acoustic") {
            Some("acoustic")
        } else if str_contains(l, "live") {
            Some("live")
        } else if str_contains(l, "remix") {
            Some("remix")
        } else {
            None
        }
    }

    /// The artists named by an uploader string such as `"Eminem feat. Rihanna"`.
    pub fn parse_artist_list(uploader: &str) -> (r: Vec<String>)
        ensures
            views(r@) == artist_list_spec(uploader@),
    {
        let parts = regex_split(artist_separators(), uploader);
        let mut list: Vec<String> = Vec::new();
        let mut i: usize = 0;
        while i < parts.len()
            invariant
                i <= parts.len(),
                views(parts@) == regex_split_parts(artist_separator_pattern(), uploader@),
                views(list@) == distinct_artists(views(parts@).take(i as int)),
            decreases parts.len() - i,
        {
            assert(views(parts@).take(i + 1).drop_last() =~= views(parts@).take(i as int));
            let a = trim(parts[i].as_str());
            let b = trim_matching(a.as_str(), CharSet::BracketOrQuote);
            let clean = trim(b.as_str());
            if !clean.as_str().is_empty() && !list_contains_ignore_case(&list, clean.as_str()) {
                list.push(clean);
                assert(views(list@) =~= views(list@.drop_last()).push(list@.last()@));
            }
            i = i + 1;
        }
        assert(views(parts@).take(parts.len() as int) =~= views(parts@));
        let t = trim(uploader);
        if list.len() == 0 && !t.as_str().is_empty() {
            let mut one: Vec<String> = Vec::new();
            one.push(t);
            assert(views(one@) =~= seq![trim_spec(uploader@)]);
            return one;
        }
        list
    }
}

// ── Download buttons ────────────────────────────────────────

/// The callback ids of the qualities, as the shared quality definitions name
/// them; buttons carry them as `mldl:<id>:<link key>`.
pub struct QualityIds {
    pub video_360p: String,
    pub video_480p: String,
    pub video_720p: String,
    pub video_1080p: String,
    pub video_1440p: String,
    pub video_4k: String,
    pub best: String,
    pub audio_128: String,
    pub audio_256: String,
    pub audio_best: String,
}

pub open spec fn id_of(ids: QualityIds, q: Quality) -> Seq<char> {
    match q {
        Quality::Video360p => ids.video_360p@,
        Quality::Video480p => ids.video_480p@,
        Quality::Video720p => ids.video_720p@,
        Quality::Video1080p => ids.video_1080p@,
        Quality::Video1440p => ids.video_1440p@,
        Quality::Video4K => ids.video_4k@,
        Quality::Best => ids.best@,
        Quality::Audio128 => ids.audio_128@,
        Quality::Audio256 => ids.audio_256@,
        Quality::AudioBest => ids.audio_best@,
    }
}

fn id_of_exec<'a>(ids: &'a QualityIds, q: Quality) -> (r: &'a str)
    ensures
        r@ == id_of(*ids, q),
{
    match q {
        Quality::Video360p => ids.video_360p.as_str(),
        Quality::Video480p => ids.video_480p.as_str(),
        Quality::Video720p => ids.video_720p.as_str(),
        Quality::Video1080p => ids.video_1080p.as_str(),
        Quality::Video1440p => ids.video_1440p.as_str(),
        Quality::Video4K => ids.video_4k.as_str(),
        Quality::Best => ids.best.as_str(),
        Quality::Audio128 => ids.audio_128.as_str(),
        Quality::Audio256 => ids.audio_256.as_str(),
        Quality::AudioBest => ids.audio_best.as_str(),
    }
}

/// The label of a quality's download button.
pub open spec fn button_label(q: Quality) -> Seq<char> {
    match q {
        Quality::Video360p => "360p"@,
        Quality::Video480p => "480p"@,
        Quality::Video720p => "720p"@,
        Quality::Video1080p => "1080p"@,
        Quality::Video1440p => "1440p"@,
        Quality::Video4K => "4K"@,
        Quality::Best => "⭐ Лучшее видео"@,
        Quality::Audio128 => "🎵 MP3 (128k)"@,
        Quality::Audio256 => "🎵 MP3 (256k)"@,
        Quality::AudioBest => "🎵 MP3 (Лучшее)"@,
    }
}

fn button_label_exec(q: Quality) -> (r: &'static str)
    ensures
        r@ == button_label(q),
{
    match q {
        Quality::Video360p => "360p",
        Quality::Video480p => "480p",
        Quality::Video720p => "720p",
        Quality::Video1080p => "1080p",
        Quality::Video1440p => "1440p",
        Quality::Video4K => "4K",
        Quality::Best => "⭐ Лучшее видео",
        Quality::Audio128 => "🎵 MP3 (128k)",
        Quality::Audio256 => "🎵 MP3 (256k)",
        Quality::AudioBest => "🎵 MP3 (Лучшее)",
    }
}

/// A button's callback data: the quality's id and the link's key.
pub open spec fn button_data(ids: QualityIds, q: Quality, key: Seq<char>) -> Seq<char> {
    "mldl:"@ + id_of(ids, q) + ":"@ + key
}

/// The quality a playlist is downloaded in: audio in audio mode or when every
/// format is audio, 720p video otherwise.
pub open spec fn playlist_quality(info: InfoResponse, mode: MediaFilterMode) -> Quality {
    match mode {
        MediaFilterMode::AudioOnly => Quality::AudioBest,
        MediaFilterMode::VideoOnly => Quality::Video720p,
        MediaFilterMode::All => if all_audio(info.available_qualities@) {
            Quality::AudioBest
        } else {
            Quality::Video720p
        },
    }
}

/// The label of a playlist's button, with its number of items (0 when unknown).
pub open spec fn playlist_button_label(info: InfoResponse, mode: MediaFilterMode) -> Seq<char> {
    let n = match info.playlist_count {
        Some(c) => c as nat,
        None => 0,
    };
    match mode {
        MediaFilterMode::AudioOnly => "🎵 Скачать аудио-плейлист ("@ + dec(n) + ")"@,
        MediaFilterMode::VideoOnly => "📹 Скачать видео-плейлист ("@ + dec(n) + ")"@,
        MediaFilterMode::All => "📥 Скачать плейлист ("@ + dec(n) + ")"@,
    }
}

/// The download buttons of a link: one for a whole playlist, else one per
/// offered format (see `filter_qualities_spec`), each with its label and data.
pub open spec fn quality_buttons_spec(
    info: InfoResponse,
    key: Seq<char>,
    mode: MediaFilterMode,
    ids: QualityIds,
) -> Seq<(Seq<char>, Seq<char>)> {
    if info.is_playlist {
        seq![(playlist_button_label(info, mode), button_data(ids, playlist_quality(info, mode), key))]
    } else {
        filter_qualities_spec(info.available_qualities@, mode).map_values(
            |e: (Quality, Option<u64>)| (button_label(e.0), button_data(ids, e.0, key)),
        )
    }
}

pub open spec fn pair_views(v: Seq<(String, String)>) -> Seq<(Seq<char>, Seq<char>)> {
    v.map_values(|p: (String, String)| (p.0@, p.1@))
}

fn push_button_data(s: &mut String, ids: &QualityIds, q: Quality, key: &str)
    ensures
        final(s)@ == old(s)@ + button_data(*ids, q, key@),
{
    let ghost start = s@;
    push_str(s, "mldl:");
    push_str(s, id_of_exec(ids, q));
    push_str(s, ":");
    push_str(s, key);
    assert(s@ =~= start + button_data(*ids, q, key@));
}

impl UiBuilder {
    /// The download buttons of a link (see `quality_buttons_spec`).
    pub fn build_quality_options(
        info: &InfoResponse,
        short_id: &str,
        mode: MediaFilterMode,
        ids: &QualityIds,
    ) -> (r: Vec<(String, String)>)
        ensures
            pair_views(r@) == quality_buttons_spec(*info, short_id@, mode, *ids),
    {
        if info.is_playlist {
            let q = match mode {
                MediaFilterMode::AudioOnly => Quality::AudioBest,
                MediaFilterMode::VideoOnly => Quality::Video720p,
                MediaFilterMode::All => if all_audio_exec(&info.available_qualities) {
                    Quality::AudioBest
                } else {
                    Quality::Video720p
                },
            };
            let n: u64 = match info.playlist_count {
                Some(c) => c as u64,
                None => 0,
            };
            let mut label = match mode {
                MediaFilterMode::AudioOnly => owned("🎵 Скачать аудио-плейлист ("),
                MediaFilterMode::VideoOnly => owned("📹 Скачать видео-плейлист ("),
                MediaFilterMode::All => owned("📥 Скачать плейлист ("),
            };
            push_dec(&mut label, n);
            push_str(&mut label, ")");
            let mut data = String::new();
            push_button_data(&mut data, ids, q, short_id);
            let mut out: Vec<(String, String)> = Vec::new();
            out.push((label, data));
            assert(pair_views(out@) =~= quality_buttons_spec(*info, short_id@, mode, *ids));
            return out;
        }
        let offered = Self::filter_qualities(&info.available_qualities, mode);
        let ghost entries = sized_of(offered@);
        let mut out: Vec<(String, String)> = Vec::new();
        let mut i: usize = 0;
        while i < offered.len()
            invariant
                i <= offered.len(),
                entries == sized_of(offered@),
                entries == filter_qualities_spec(info.available_qualities@, mode),
                pair_views(out@) == entries.take(i as int).map_values(
                    |e: (Quality, Option<u64>)| (button_label(e.0), button_data(*ids, e.0, short_id@)),
                ),
            decreases offered.len() - i,
        {
            let q = offered[i].quality;
            let label = owned(button_label_exec(q));
            let mut data = String::new();
            push_button_data(&mut data, ids, q, short_id);
            let ghost prev = pair_views(out@);
            out.push((label, data));
            assert(entries[i as int].0 == q);
            assert(entries.take(i + 1) =~= entries.take(i as int).push(entries[i as int]));
            assert(pair_views(out@) =~= prev.push((label@, data@)));
            assert(pair_views(out@) =~= entries.take(i + 1).map_values(
                |e: (Quality, Option<u64>)| (button_label(e.0), button_data(*ids, e.0, short_id@)),
            ));
            i = i + 1;
        }
        assert(entries.take(offered.len() as int) =~= entries);
        out
    }
}

} // verus!
