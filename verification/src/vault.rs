//! Notes of the knowledge vault as the web player shows them: category, area,
//! body without front matter or tags, summary and a stable id.

use vstd::prelude::*;
use crate::fetch::{first_occ, first_position, opt_seq};
use crate::text::{
    chars_of, first_line, first_line_spec, has_prefix, hex, owned, push_hex, push_str, push_zero_padded,
    split, split_spec, str_starts_with, string_from_range, trim, trim_set, trim_spec, trim_start_matching,
    trim_start_set, views, zero_pad, CharSet,
};

verus! {

/// The file stem of a path (`std::path::Path::file_stem`).
pub uninterp spec fn path_file_stem(path: Seq<char>) -> Option<Seq<char>>;

/// A path relative to a root (`Path::strip_prefix`), or the path itself when it
/// is not under the root.
pub uninterp spec fn path_relative(path: Seq<char>, root: Seq<char>) -> Seq<char>;

/// `text` with every match of `pattern` replaced by `rep` (`regex::Regex::replace_all`).
pub uninterp spec fn regex_replaced(pattern: Seq<char>, text: Seq<char>, rep: Seq<char>) -> Seq<char>;

/// `Path::new(path).file_stem()` as a string; its result is the name `path_file_stem`.
#[verifier::external_body]
fn file_stem_of(path: &str) -> (r: Option<String>)
    ensures
        opt_seq(r) == path_file_stem(path@),
{
    std::path::Path::new(path).file_stem().and_then(|s| s.to_str()).map(|s| s.to_string())
}

/// `Path::new(path).strip_prefix(root)`, or the path unchanged, as a string; its
/// result is the name `path_relative`.
#[verifier::external_body]
fn relative_to(path: &str, root: &str) -> (r: String)
    ensures
        r@ == path_relative(path@, root@),
{
    let p = std::path::Path::new(path);
    p.strip_prefix(root).unwrap_or(p).to_string_lossy().to_string()
}

/// `regex::Regex::new(pattern)` and `replace_all(text, rep)`; an uncompilable
/// pattern leaves the text as it is. Its result is the name `regex_replaced`.
#[verifier::external_body]
fn replace_all_matches(pattern: &str, text: &str, rep: &str) -> (r: String)
    ensures
        r@ == regex_replaced(pattern@, text@, rep@),
{
    match regex::Regex::new(pattern) {
        Ok(re) => re.replace_all(text, rep).to_string(),
        Err(_) => text.to_string(),
    }
}

/// The front matter fields the viewer reads.
pub struct FrontmatterFields {
    pub para: String,
    pub area: String,
    pub tags: Vec<String>,
    pub created: String,
    pub summary: Option<String>,
}

/// A vault note as the viewer shows it.
pub struct VaultNoteView {
    pub id: String,
    pub title: String,
    pub para_category: String,
    pub area: Option<String>,
    pub clean_text: String,
    pub ai_summary: Option<String>,
    pub tags: Vec<String>,
    pub entities: Vec<String>,
    pub created_at: String,
    pub file_path: String,
}

/// The PARA category that a top folder's name begins with, or the name itself.
pub open spec fn category_of_folder(first: Seq<char>) -> Seq<char> {
    if has_prefix(first, "Projects"@) || has_prefix(first, "01_Projects"@) || has_prefix(first, "01 Projects"@) {
        "Projects"@
    } else if has_prefix(first, "Areas"@) || has_prefix(first, "02_Areas"@) || has_prefix(first, "02 Areas"@) {
        "Areas"@
    } else if has_prefix(first, "Resources"@) || has_prefix(first, "03_Resources"@) || has_prefix(
        first,
        "03 Resources"@,
    ) {
        "Resources"@
    } else if has_prefix(first, "Archive"@) || has_prefix(first, "04_Archive"@) || has_prefix(
        first,
        "04 Archive"@,
    ) {
        "Archive"@
    } else if has_prefix(first, "Daily"@) || has_prefix(first, "001 Daily"@) || has_prefix(
        first,
        "00_Daily"@,
    ) || has_prefix(first, "Journal"@) {
        "Daily"@
    } else {
        first
    }
}

/// Two prefixes that differ at some position cannot both begin `s`.
proof fn lemma_prefix_clash(s: Seq<char>, p: Seq<char>, q: Seq<char>, k: int)
    requires
        has_prefix(s, q),
        0 <= k < p.len(),
        k < q.len(),
        p[k] != q[k],
    ensures
        !has_prefix(s, p),
{
    if has_prefix(s, p) {
        assert(s.subrange(0, p.len() as int)[k] == s[k]);
        assert(s.subrange(0, q.len() as int)[k] == s[k]);
    }
}

/// Each PARA folder name, plain or numbered (`03_Resources`, `03 Resources`),
/// gives its own category: a top folder whose name begins with one of a
/// category's prefixes is filed under that category and no other.
pub proof fn lemma_para_folders(first: Seq<char>)
    ensures
        (has_prefix(first, "Projects"@) || has_prefix(first, "01_Projects"@) || has_prefix(first, "01 Projects"@)) ==> category_of_folder(first) == "Projects"@,
        (has_prefix(first, "Areas"@) || has_prefix(first, "02_Areas"@) || has_prefix(first, "02 Areas"@)) ==> category_of_folder(first) == "Areas"@,
        (has_prefix(first, "Resources"@) || has_prefix(first, "03_Resources"@) || has_prefix(first, "03 Resources"@)) ==> category_of_folder(first) == "Resources"@,
        (has_prefix(first, "Archive"@) || has_prefix(first, "04_Archive"@) || has_prefix(first, "04 Archive"@)) ==> category_of_folder(first) == "Archive"@,
        (has_prefix(first, "Daily"@) || has_prefix(first, "001 Daily"@) || has_prefix(first, "00_Daily"@) || has_prefix(first, "Journal"@)) ==> category_of_folder(first) == "Daily"@,
{
    reveal_strlit("001 Daily");
    reveal_strlit("00_Daily");
    reveal_strlit("01 Projects");
    reveal_strlit("01_Projects");
    reveal_strlit("02 Areas");
    reveal_strlit("02_Areas");
    reveal_strlit("03 Resources");
    reveal_strlit("03_Resources");
    reveal_strlit("04 Archive");
    reveal_strlit("04_Archive");
    reveal_strlit("Archive");
    reveal_strlit("Areas");
    reveal_strlit("Daily");
    reveal_strlit("Journal");
    reveal_strlit("Projects");
    reveal_strlit("Resources");
    if has_prefix(first, "Areas"@) {
        lemma_prefix_clash(first, "Projects"@, "Areas"@, 0);
        lemma_prefix_clash(first, "01_Projects"@, "Areas"@, 0);
        lemma_prefix_clash(first, "01 Projects"@, "Areas"@, 0);
    }
    if has_prefix(first, "02_Areas"@) {
        lemma_prefix_clash(first, "Projects"@, "02_Areas"@, 0);
        lemma_prefix_clash(first, "01_Projects"@, "02_Areas"@, 1);
        lemma_prefix_clash(first, "01 Projects"@, "02_Areas"@, 1);
    }
    if has_prefix(first, "02 Areas"@) {
        lemma_prefix_clash(first, "Projects"@, "02 Areas"@, 0);
        lemma_prefix_clash(first, "01_Projects"@, "02 Areas"@, 1);
        lemma_prefix_clash(first, "01 Projects"@, "02 Areas"@, 1);
    }
    if has_prefix(first, "Resources"@) {
        lemma_prefix_clash(first, "Projects"@, "Resources"@, 0);
        lemma_prefix_clash(first, "01_Projects"@, "Resources"@, 0);
        lemma_prefix_clash(first, "01 Projects"@, "Resources"@, 0);
        lemma_prefix_clash(first, "Areas"@, "Resources"@, 0);
        lemma_prefix_clash(first, "02_Areas"@, "Resources"@, 0);
        lemma_prefix_clash(first, "02 Areas"@, "Resources"@, 0);
    }
    if has_prefix(first, "03_Resources"@) {
        lemma_prefix_clash(first, "Projects"@, "03_Resources"@, 0);
        lemma_prefix_clash(first, "01_Projects"@, "03_Resources"@, 1);
        lemma_prefix_clash(first, "01 Projects"@, "03_Resources"@, 1);
        lemma_prefix_clash(first, "Areas"@, "03_Resources"@, 0);
        lemma_prefix_clash(first, "02_Areas"@, "03_Resources"@, 1);
        lemma_prefix_clash(first, "02 Areas"@, "03_Resources"@, 1);
    }
    if has_prefix(first, "03 Resources"@) {
        lemma_prefix_clash(first, "Projects"@, "03 Resources"@, 0);
        lemma_prefix_clash(first, "01_Projects"@, "03 Resources"@, 1);
        lemma_prefix_clash(first, "01 Projects"@, "03 Resources"@, 1);
        lemma_prefix_clash(first, "Areas"@, "03 Resources"@, 0);
        lemma_prefix_clash(first, "02_Areas"@, "03 Resources"@, 1);
        lemma_prefix_clash(first, "02 Areas"@, "03 Resources"@, 1);
    }
    if has_prefix(first, "Archive"@) {
        lemma_prefix_clash(first, "Projects"@, "Archive"@, 0);
        lemma_prefix_clash(first, "01_Projects"@, "Archive"@, 0);
        lemma_prefix_clash(first, "01 Projects"@, "Archive"@, 0);
        lemma_prefix_clash(first, "Areas"@, "Archive"@, 2);
        lemma_prefix_clash(first, "02_Areas"@, "Archive"@, 0);
        lemma_prefix_clash(first, "02 Areas"@, "Archive"@, 0);
        lemma_prefix_clash(first, "Resources"@, "Archive"@, 0);
        lemma_prefix_clash(first, "03_Resources"@, "Archive"@, 0);
        lemma_prefix_clash(first, "03 Resources"@, "Archive"@, 0);
    }
    if has_prefix(first, "04_Archive"@) {
        lemma_prefix_clash(first, "Projects"@, "04_Archive"@, 0);
        lemma_prefix_clash(first, "01_Projects"@, "04_Archive"@, 1);
        lemma_prefix_clash(first, "01 Projects"@, "04_Archive"@, 1);
        lemma_prefix_clash(first, "Areas"@, "04_Archive"@, 0);
        lemma_prefix_clash(first, "02_Areas"@, "04_Archive"@, 1);
        lemma_prefix_clash(first, "02 Areas"@, "04_Archive"@, 1);
        lemma_prefix_clash(first, "Resources"@, "04_Archive"@, 0);
        lemma_prefix_clash(first, "03_Resources"@, "04_Archive"@, 1);
        lemma_prefix_clash(first, "03 Resources"@, "04_Archive"@, 1);
    }
    if has_prefix(first, "04 Archive"@) {
        lemma_prefix_clash(first, "Projects"@, "04 Archive"@, 0);
        lemma_prefix_clash(first, "01_Projects"@, "04 Archive"@, 1);
        lemma_prefix_clash(first, "01 Projects"@, "04 Archive"@, 1);
        lemma_prefix_clash(first, "Areas"@, "04 Archive"@, 0);
        lemma_prefix_clash(first, "02_Areas"@, "04 Archive"@, 1);
        lemma_prefix_clash(first, "02 Areas"@, "04 Archive"@, 1);
        lemma_prefix_clash(first, "Resources"@, "04 Archive"@, 0);
        lemma_prefix_clash(first, "03_Resources"@, "04 Archive"@, 1);
        lemma_prefix_clash(first, "03 Resources"@, "04 Archive"@, 1);
    }
    if has_prefix(first, "Daily"@) {
        lemma_prefix_clash(first, "Projects"@, "Daily"@, 0);
        lemma_prefix_clash(first, "01_Projects"@, "Daily"@, 0);
        lemma_prefix_clash(first, "01 Projects"@, "Daily"@, 0);
        lemma_prefix_clash(first, "Areas"@, "Daily"@, 0);
        lemma_prefix_clash(first, "02_Areas"@, "Daily"@, 0);
        lemma_prefix_clash(first, "02 Areas"@, "Daily"@, 0);
        lemma_prefix_clash(first, "Resources"@, "Daily"@, 0);
        lemma_prefix_clash(first, "03_Resources"@, "Daily"@, 0);
        lemma_prefix_clash(first, "03 Resources"@, "Daily"@, 0);
        lemma_prefix_clash(first, "Archive"@, "Daily"@, 0);
        lemma_prefix_clash(first, "04_Archive"@, "Daily"@, 0);
        lemma_prefix_clash(first, "04 Archive"@, "Daily"@, 0);
    }
    if has_prefix(first, "001 Daily"@) {
        lemma_prefix_clash(first, "Projects"@, "001 Daily"@, 0);
        lemma_prefix_clash(first, "01_Projects"@, "001 Daily"@, 1);
        lemma_prefix_clash(first, "01 Projects"@, "001 Daily"@, 1);
        lemma_prefix_clash(first, "Areas"@, "001 Daily"@, 0);
        lemma_prefix_clash(first, "02_Areas"@, "001 Daily"@, 1);
        lemma_prefix_clash(first, "02 Areas"@, "001 Daily"@, 1);
        lemma_prefix_clash(first, "Resources"@, "001 Daily"@, 0);
        lemma_prefix_clash(first, "03_Resources"@, "001 Daily"@, 1);
        lemma_prefix_clash(first, "03 Resources"@, "001 Daily"@, 1);
        lemma_prefix_clash(first, "Archive"@, "001 Daily"@, 0);
        lemma_prefix_clash(first, "04_Archive"@, "001 Daily"@, 1);
        lemma_prefix_clash(first, "04 Archive"@, "001 Daily"@, 1);
    }
    if has_prefix(first, "00_Daily"@) {
        lemma_prefix_clash(first, "Projects"@, "00_Daily"@, 0);
        lemma_prefix_clash(first, "01_Projects"@, "00_Daily"@, 1);
        lemma_prefix_clash(first, "01 Projects"@, "00_Daily"@, 1);
        lemma_prefix_clash(first, "Areas"@, "00_Daily"@, 0);
        lemma_prefix_clash(first, "02_Areas"@, "00_Daily"@, 1);
        lemma_prefix_clash(first, "02 Areas"@, "00_Daily"@, 1);
        lemma_prefix_clash(first, "Resources"@, "00_Daily"@, 0);
        lemma_prefix_clash(first, "03_Resources"@, "00_Daily"@, 1);
        lemma_prefix_clash(first, "03 Resources"@, "00_Daily"@, 1);
        lemma_prefix_clash(first, "Archive"@, "00_Daily"@, 0);
        lemma_prefix_clash(first, "04_Archive"@, "00_Daily"@, 1);
        lemma_prefix_clash(first, "04 Archive"@, "00_Daily"@, 1);
    }
    if has_prefix(first, "Journal"@) {
        lemma_prefix_clash(first, "Projects"@, "Journal"@, 0);
        lemma_prefix_clash(first, "01_Projects"@, "Journal"@, 0);
        lemma_prefix_clash(first, "01 Projects"@, "Journal"@, 0);
        lemma_prefix_clash(first, "Areas"@, "Journal"@, 0);
        lemma_prefix_clash(first, "02_Areas"@, "Journal"@, 0);
        lemma_prefix_clash(first, "02 Areas"@, "Journal"@, 0);
        lemma_prefix_clash(first, "Resources"@, "Journal"@, 0);
        lemma_prefix_clash(first, "03_Resources"@, "Journal"@, 0);
        lemma_prefix_clash(first, "03 Resources"@, "Journal"@, 0);
        lemma_prefix_clash(first, "Archive"@, "Journal"@, 0);
        lemma_prefix_clash(first, "04_Archive"@, "Journal"@, 0);
        lemma_prefix_clash(first, "04 Archive"@, "Journal"@, 0);
    }
}

/// Category and area of a note from its place in the vault: a note in a folder
/// takes its category from the top folder, and its area from the second one.
pub open spec fn place_of(rel: Seq<char>) -> (Seq<char>, Option<Seq<char>>) {
    let parts = split_spec(rel, '/');
    if parts.len() > 1 {
        (category_of_folder(parts[0]), if parts.len() > 2 {
            Some(parts[1])
        } else {
            None
        })
    } else {
        ("Daily"@, None)
    }
}

fn category_of_folder_exec(first: &str) -> (r: String)
    ensures
        r@ == category_of_folder(first@),
{
    if str_starts_with(first, "Projects") || str_starts_with(first, "01_Projects") || str_starts_with(first, "01 Projects") {
        owned("Projects")
    } else if str_starts_with(first, "Areas") || str_starts_with(first, "02_Areas") || str_starts_with(first, "02 Areas") {
        owned("Areas")
    } else if str_starts_with(first, "Resources") || str_starts_with(first, "03_Resources") || str_starts_with(
        first,
        "03 Resources",
    ) {
        owned("Resources")
    } else if str_starts_with(first, "Archive") || str_starts_with(first, "04_Archive") || str_starts_with(
        first,
        "04 Archive",
    ) {
        owned("Archive")
    } else if str_starts_with(first, "Daily") || str_starts_with(first, "001 Daily") || str_starts_with(
        first,
        "00_Daily",
    ) || str_starts_with(first, "Journal") {
        owned("Daily")
    } else {
        owned(first)
    }
}

/// Category and area of a note (see `place_of`).
pub fn note_place(rel: &str) -> (r: (String, Option<String>))
    ensures
        (r.0@, opt_seq(r.1)) == place_of(rel@),
{
    let parts = split(rel, '/');
    if parts.len() > 1 {
        let c = category_of_folder_exec(parts[0].as_str());
        let a = if parts.len() > 2 {
            Some(parts[1].clone())
        } else {
            None
        };
        (c, a)
    } else {
        (owned("Daily"), None)
    }
}

/// The body of a note after its `---` front matter: from the closing `\n---`,
/// or failing that the next `---`, trimmed; `None` when there is none.
pub open spec fn body_spec(content: Seq<char>) -> Option<Seq<char>> {
    if has_prefix(content, "---"@) {
        let s = content.skip(3);
        match first_occ(s, "\n---"@) {
            Some(k) => Some(trim_spec(s.skip(k + 4))),
            None => match first_occ(s, "---"@) {
                Some(k) => Some(trim_spec(s.skip(k + 3))),
                None => None,
            },
        }
    } else {
        None
    }
}

fn rest_from(v: &Vec<char>, k: usize) -> (r: String)
    requires
        k <= v@.len(),
    ensures
        r@ == v@.skip(k as int),
{
    let r = string_from_range(v.as_slice(), k, v.len());
    assert(r@ =~= v@.skip(k as int));
    r
}

/// The body of a note after its front matter (see `body_spec`).
pub fn note_body(content: &str) -> (r: Option<String>)
    ensures
        opt_seq(r) == body_spec(content@),
{
    if !str_starts_with(content, "---") {
        return None;
    }
    proof {
        reveal_strlit("---");
        reveal_strlit("\n---");
    }
    let v = chars_of(content);
    assert(v@.len() >= 3);
    let s = rest_from(&v, 3);
    let sv = chars_of(s.as_str());
    match first_position(&sv, "\n---") {
        Some(k) => {
            let n = sv.len();
            assert(k + 4 <= n) by {
                assert(crate::text::occurs_at(sv@, "\n---"@, k as int));
            }
            Some(trim(rest_from(&sv, k + 4).as_str()))
        },
        None => match first_position(&sv, "---") {
            Some(k) => {
                let n = sv.len();
                assert(k + 3 <= n) by {
                    assert(crate::text::occurs_at(sv@, "---"@, k as int));
                }
                Some(trim(rest_from(&sv, k + 3).as_str()))
            },
            None => None,
        },
    }
}

/// The summary marker of generated notes.
pub open spec fn summary_marker() -> Seq<char> {
    "**ИИ-выжимка:**"@
}

/// The summary a note's text carries after its marker: the rest of that line,
/// trimmed, unless empty.
pub open spec fn marked_summary(text: Seq<char>) -> Option<Seq<char>> {
    let m = summary_marker();
    let m2 = "💡 **ИИ-выжимка:**"@;
    let line = match first_occ(text, m) {
        Some(k) => Some(trim_spec(first_line_spec(text.skip(k + m.len())))),
        None => match first_occ(text, m2) {
            Some(k) => Some(trim_spec(first_line_spec(text.skip(k + m2.len())))),
            None => None,
        },
    };
    match line {
        Some(l) => if l.len() > 0 {
            Some(l)
        } else {
            None
        },
        None => None,
    }
}

fn marked_after(v: &Vec<char>, marker: &str) -> (r: Option<Option<String>>)
    ensures
        match r {
            Some(o) => first_occ(v@, marker@) matches Some(k) && opt_seq(o) == (if trim_spec(
                first_line_spec(v@.skip(k + marker@.len())),
            ).len() > 0 {
                Some(trim_spec(first_line_spec(v@.skip(k + marker@.len()))))
            } else {
                None
            }),
            None => first_occ(v@, marker@) is None,
        },
{
    match first_position(v, marker) {
        Some(k) => {
            let m = chars_of(marker);
            let n = v.len();
            assert(k + m.len() <= n) by {
                assert(crate::text::occurs_at(v@, marker@, k as int));
            }
            let after = rest_from(v, k + m.len());
            let line = trim(first_line(after.as_str()).as_str());
            if chars_of(line.as_str()).len() > 0 {
                Some(Some(line))
            } else {
                Some(None)
            }
        },
        None => None,
    }
}

/// The summary a note's text carries (see `marked_summary`).
pub fn find_marked_summary(text: &str) -> (r: Option<String>)
    ensures
        opt_seq(r) == marked_summary(text@),
{
    let v = chars_of(text);
    match marked_after(&v, "**ИИ-выжимка:**") {
        Some(o) => o,
        None => match marked_after(&v, "💡 **ИИ-выжимка:**") {
            Some(o) => o,
            None => None,
        },
    }
}

/// A text that opens with a heading loses that heading line (when more follows).
pub open spec fn without_heading(text: Seq<char>) -> Seq<char> {
    if text.len() > 0 && text[0] == '#' {
        match crate::text::first_index(text, '\n') {
            Some(k) => trim_spec(text.skip(k)),
            None => text,
        }
    } else {
        text
    }
}

fn drop_heading(text: String) -> (r: String)
    ensures
        r@ == without_heading(text@),
{
    let v = chars_of(text.as_str());
    if v.len() > 0 && v[0] == '#' {
        match crate::text::find_char(v.as_slice(), '\n') {
            Some(k) => trim(rest_from(&v, k).as_str()),
            None => text,
        }
    } else {
        text
    }
}

/// A line fit for a preview: not empty, not a heading, table, link, rule or bold label.
pub open spec fn preview_candidate(tr: Seq<char>) -> bool {
    tr.len() > 0 && tr[0] != '#' && tr[0] != '|' && tr[0] != '[' && !has_prefix(tr, "---"@)
        && !has_prefix(tr, "**"@)
}

/// The first fit line of the text, without leading dashes, trimmed, unless empty.
pub open spec fn preview_from(lines: Seq<Seq<char>>) -> Option<Seq<char>>
    decreases lines.len(),
{
    if lines.len() == 0 {
        None
    } else {
        let tr = trim_spec(lines[0]);
        let c = trim_spec(trim_start_set(tr, CharSet::Dash));
        if preview_candidate(tr) && c.len() > 0 {
            Some(c)
        } else {
            preview_from(lines.drop_first())
        }
    }
}

/// The preview of a text (see `preview_from`).
pub fn preview_line(text: &str) -> (r: Option<String>)
    ensures
        opt_seq(r) == preview_from(split_spec(text@, '\n')),
{
    let lines = split(text, '\n');
    let ghost ls = views(lines@);
    let mut i: usize = 0;
    assert(ls.skip(0) =~= ls);
    while i < lines.len()
        invariant
            i <= lines.len(),
            ls == views(lines@),
            ls == split_spec(text@, '\n'),
            preview_from(ls) == preview_from(ls.skip(i as int)),
        decreases lines.len() - i,
    {
        assert(ls.skip(i as int).drop_first() =~= ls.skip(i + 1));
        let tr = trim(lines[i].as_str());
        let tv = chars_of(tr.as_str());
        let fit = tv.len() > 0 && tv[0] != '#' && tv[0] != '|' && tv[0] != '[' && !str_starts_with(
            tr.as_str(),
            "---",
        ) && !str_starts_with(tr.as_str(), "**");
        if fit {
            let c = trim(trim_start_matching(tr.as_str(), CharSet::Dash).as_str());
            if chars_of(c.as_str()).len() > 0 {
                return Some(c);
            }
        }
        i = i + 1;
    }
    assert(ls.skip(lines.len() as int) =~= Seq::<Seq<char>>::empty());
    None
}

/// The djb2 hash of bytes: from 5381, times 33 plus each byte, wrapping.
pub open spec fn djb2(bytes: Seq<u8>) -> u64
    decreases bytes.len(),
{
    if bytes.len() == 0 {
        5381
    } else {
        vstd::wrapping::u64_specs::wrapping_add(
            vstd::wrapping::u64_specs::wrapping_mul(djb2(bytes.drop_last()), 33),
            bytes.last() as u64,
        )
    }
}

/// The id of a note: the djb2 hash of its path's UTF-8 bytes in sixteen hex digits.
pub open spec fn note_id_spec(rel: Seq<char>) -> Seq<char> {
    zero_pad(hex(djb2(vstd::utf8::encode_utf8(rel)) as nat), 16)
}

/// The id of a note (see `note_id_spec`).
pub fn note_id(rel: &str) -> (r: String)
    ensures
        r@ == note_id_spec(rel@),
{
    let b = rel.as_bytes();
    let mut acc: u64 = 5381;
    let mut i: usize = 0;
    while i < b.len()
        invariant
            i <= b@.len(),
            b@ == vstd::utf8::encode_utf8(rel@),
            acc == djb2(b@.take(i as int)),
        decreases b.len() - i,
    {
        assert(b@.take(i + 1).drop_last() =~= b@.take(i as int));
        acc = acc.wrapping_mul(33).wrapping_add(b[i] as u64);
        i = i + 1;
    }
    assert(b@.take(b@.len() as int) =~= b@);
    let mut h = String::new();
    push_hex(&mut h, acc);
    let mut out = String::new();
    push_zero_padded(&mut out, h.as_str(), 16);
    assert(out@ =~= note_id_spec(rel@));
    out
}

/// The hashtags that the viewer strips from a note's text.
pub open spec fn hashtag_pattern() -> Seq<char> {
    "#\\w+"@
}

pub open spec fn or_else(a: Option<Seq<char>>, b: Option<Seq<char>>) -> Option<Seq<char>> {
    match a {
        Some(x) => Some(x),
        None => b,
    }
}

/// What the viewer shows of a note: its title, category, area, clean text,
/// summary, tags, date, path and id, where `fm` is its parsed front matter.
pub open spec fn note_view_spec(
    path: Seq<char>,
    content: Seq<char>,
    root: Seq<char>,
    fm: Option<FrontmatterFields>,
    today: Seq<char>,
) -> (Seq<char>, Seq<char>, Seq<char>, Option<Seq<char>>, Seq<char>, Option<Seq<char>>, Seq<Seq<char>>, Seq<char>, Seq<char>) {
    let rel = path_relative(path, root);
    let title = match path_file_stem(path) {
        Some(t) => t,
        None => "Note"@,
    };
    let (cat0, area0) = place_of(rel);
    let text0 = match body_spec(content) {
        Some(b) => b,
        None => content,
    };
    let (cat, area, tags, created, summary0) = match fm {
        Some(f) => (
            if f.para@.len() > 0 { f.para@ } else { cat0 },
            if f.area@.len() > 0 { Some(f.area@) } else { area0 },
            if f.tags@.len() > 0 { views(f.tags@) } else { Seq::empty() },
            if f.created@.len() > 0 { f.created@ } else { today },
            match f.summary {
                Some(x) => if trim_spec(x@).len() > 0 { Some(x@) } else { None },
                None => None,
            },
        ),
        None => (cat0, area0, Seq::empty(), today, None),
    };
    let summary1 = or_else(summary0, marked_summary(text0));
    let text2 = trim_spec(regex_replaced(hashtag_pattern(), without_heading(text0), Seq::empty()));
    let summary = or_else(
        summary1,
        if text2.len() > 0 {
            preview_from(split_spec(text2, '\n'))
        } else {
            None
        },
    );
    (note_id_spec(rel), title, cat, area, text2, summary, tags, created, rel)
}

pub open spec fn note_view(n: VaultNoteView) -> (Seq<char>, Seq<char>, Seq<char>, Option<Seq<char>>, Seq<char>, Option<Seq<char>>, Seq<Seq<char>>, Seq<char>, Seq<char>) {
    (n.id@, n.title@, n.para_category@, opt_seq(n.area), n.clean_text@, opt_seq(n.ai_summary), views(n.tags@), n.created_at@, n.file_path@)
}

/// What the viewer shows of a note (see `note_view_spec`); it lists no entities.
pub fn parse_vault_note(
    path: &str,
    content: &str,
    vault_root: &str,
    fm: Option<FrontmatterFields>,
    today: &str,
) -> (r: VaultNoteView)
    ensures
        note_view(r) == note_view_spec(path@, content@, vault_root@, fm, today@),
        r.entities@.len() == 0,
{
    let ghost fm0 = fm;
    let rel = relative_to(path, vault_root);
    let title = match file_stem_of(path) {
        Some(t) => t,
        None => owned("Note"),
    };
    let (cat0, area0) = note_place(rel.as_str());
    let text0 = match note_body(content) {
        Some(b) => b,
        None => owned(content),
    };
    let mut cat = cat0;
    let mut area = area0;
    let mut tags: Vec<String> = Vec::new();
    let mut created = owned(today);
    let mut summary: Option<String> = None;
    match fm {
        Some(f) => {
            if chars_of(f.para.as_str()).len() > 0 {
                cat = f.para;
            }
            if chars_of(f.area.as_str()).len() > 0 {
                area = Some(f.area);
            }
            if f.tags.len() > 0 {
                tags = f.tags;
            }
            if chars_of(f.created.as_str()).len() > 0 {
                created = f.created;
            }
            match f.summary {
                Some(x) => {
                    if chars_of(trim(x.as_str()).as_str()).len() > 0 {
                        summary = Some(x);
                    }
                },
                None => {},
            }
        },
        None => {},
    }
    assert(views(tags@).len() == tags@.len());
    if summary.is_none() {
        summary = find_marked_summary(text0.as_str());
    }
    let text1 = drop_heading(text0);
    proof {
        reveal_strlit("");
        assert(""@ =~= Seq::<char>::empty());
    }
    let text2 = trim(replace_all_matches("#\\w+", text1.as_str(), "").as_str());
    if summary.is_none() && chars_of(text2.as_str()).len() > 0 {
        summary = preview_line(text2.as_str());
    }
    let id = note_id(rel.as_str());
    VaultNoteView {
        id,
        title,
        para_category: cat,
        area,
        clean_text: text2,
        ai_summary: summary,
        tags,
        entities: Vec::new(),
        created_at: created,
        file_path: rel,
    }
}

/// The note a deletion request names: the first whose id, title or path is
/// the request, or whose path ends with it.
pub open spec fn names_note(n: VaultNoteView, key: Seq<char>) -> bool {
    n.id@ == key || n.title@ == key || n.file_path@ == key || crate::text::has_suffix(n.file_path@, key)
}

/// The first note a request names (see `names_note`).
pub fn find_note_by_key(notes: &Vec<VaultNoteView>, key: &str) -> (r: Option<usize>)
    ensures
        match r {
            Some(k) => k < notes@.len() && names_note(notes@[k as int], key@) && forall|j: int|
                0 <= j < k ==> !names_note(#[trigger] notes@[j], key@),
            None => forall|j: int| 0 <= j < notes@.len() ==> !names_note(#[trigger] notes@[j], key@),
        },
{
    let mut i: usize = 0;
    while i < notes.len()
        invariant
            i <= notes.len(),
            forall|j: int| 0 <= j < i ==> !names_note(#[trigger] notes@[j], key@),
        decreases notes.len() - i,
    {
        let n = &notes[i];
        if crate::text::str_eq(n.id.as_str(), key) || crate::text::str_eq(n.title.as_str(), key)
            || crate::text::str_eq(n.file_path.as_str(), key) || crate::text::str_ends_with(
            n.file_path.as_str(),
            key,
        ) {
            return Some(i);
        }
        i = i + 1;
    }
    None
}

} // verus!
