//! The rule-based classifier: areas by keywords, technologies and links as
//! entities, and the names that rules and AI answers give to entry types.

use vstd::prelude::*;
use crate::common::{Area, EntityType, EntryType};
use crate::text::{has_infix, has_prefix, owned, str_contains, str_eq, str_starts_with, split_whitespace,
    to_lowercase, unicode_lowercase, views, words_spec};

verus! {

// ── Areas ───────────────────────────────────────────────────

/// The keyword rules of areas, tried in order: the area, its confidence in
/// percent, and its keywords (matched in the lower-cased text).
pub open spec fn area_rule(i: int) -> (Seq<Seq<char>>, int, int) {
    if i == 0 {
        (seq!["rust"@, "python"@, "код"@, "программ"@, "git"@, "api"@, "docker"@, "linux"@, "баг"@, "debug"@, "компилятор"@], 0, 85)
    } else if i == 1 {
        (seq!["здоровье"@, "сон"@, "тренировка"@, "спорт"@, "болезн"@, "врач"@, "диета"@, "фитнес"@], 1, 85)
    } else if i == 2 {
        (seq!["учёба"@, "курс"@, "лекция"@, "универ"@, "экзамен"@, "обучение"@, "книга"@], 2, 80)
    } else if i == 3 {
        (seq!["деньги"@, "зарплата"@, "бюджет"@, "инвест"@, "крипт"@, "банк"@, "кредит"@, "рубл"@, "$"@], 3, 85)
    } else if i == 4 {
        (seq!["работа"@, "карьер"@, "собеседован"@, "резюме"@, "проект"@, "дедлайн"@, "босс"@], 4, 80)
    } else if i == 5 {
        (seq!["психолог"@, "тревог"@, "стресс"@, "медитац"@, "эмоци"@, "терапи"@], 5, 85)
    } else if i == 6 {
        (seq!["игр"@, "unity"@, "unreal"@, "геймд"@, "game"@, "level"@], 6, 85)
    } else {
        (seq!["отношен"@, "друг"@, "семья"@, "парень"@, "девушка"@, "жена"@, "муж"@], 7, 80)
    }
}

/// The area of rule `k`.
pub open spec fn area_of_rule(k: int) -> Area {
    if k == 0 { Area::Programming } else if k == 1 { Area::Health } else if k == 2 { Area::Education }
    else if k == 3 { Area::Finance } else if k == 4 { Area::Career } else if k == 5 { Area::Psychology }
    else if k == 6 { Area::GameDev } else { Area::Relationships }
}

pub open spec fn any_keyword(text: Seq<char>, kws: Seq<Seq<char>>) -> bool {
    exists|j: int| 0 <= j < kws.len() && has_infix(text, #[trigger] kws[j])
}

/// The first rule from `i` on whose keywords occur in the text.
pub open spec fn first_rule_from(text: Seq<char>, i: nat) -> Option<int>
    decreases 8 - i,
{
    if i >= 8 {
        None
    } else if any_keyword(text, area_rule(i as int).0) {
        Some(i as int)
    } else {
        first_rule_from(text, i + 1)
    }
}

/// The rule an area is detected by (see `area_rule`), on the lower-cased text.
pub open spec fn area_rule_of(text: Seq<char>) -> Option<int> {
    first_rule_from(unicode_lowercase(text), 0)
}

fn area_keywords(i: usize) -> (r: Vec<&'static str>)
    requires
        i < 8,
    ensures
        r@.map_values(|s: &str| s@) == area_rule(i as int).0,
{
    let r = if i == 0 {
        vec!["rust", "python", "код", "программ", "git", "api", "docker", "linux", "баг", "debug", "компилятор"]
    } else if i == 1 {
        vec!["здоровье", "сон", "тренировка", "спорт", "болезн", "врач", "диета", "фитнес"]
    } else if i == 2 {
        vec!["учёба", "курс", "лекция", "универ", "экзамен", "обучение", "книга"]
    } else if i == 3 {
        vec!["деньги", "зарплата", "бюджет", "инвест", "крипт", "банк", "кредит", "рубл", "$"]
    } else if i == 4 {
        vec!["работа", "карьер", "собеседован", "резюме", "проект", "дедлайн", "босс"]
    } else if i == 5 {
        vec!["психолог", "тревог", "стресс", "медитац", "эмоци", "терапи"]
    } else if i == 6 {
        vec!["игр", "unity", "unreal", "геймд", "game", "level"]
    } else {
        vec!["отношен", "друг", "семья", "парень", "девушка", "жена", "муж"]
    };
    assert(r@.map_values(|s: &str| s@) =~= area_rule(i as int).0);
    r
}

fn any_keyword_exec(text: &str, kws: &Vec<&'static str>) -> (b: bool)
    ensures
        b == any_keyword(text@, kws@.map_values(|s: &str| s@)),
{
    let ghost ks = kws@.map_values(|s: &str| s@);
    let mut j: usize = 0;
    while j < kws.len()
        invariant
            j <= kws.len(),
            ks == kws@.map_values(|s: &str| s@),
            forall|k: int| 0 <= k < j ==> !has_infix(text@, #[trigger] ks[k]),
        decreases kws.len() - j,
    {
        if str_contains(text, kws[j]) {
            assert(has_infix(text@, ks[j as int]));
            return true;
        }
        j = j + 1;
    }
    false
}

fn area_of_rule_exec(k: usize) -> (r: Area)
    ensures
        r == area_of_rule(k as int),
{
    if k == 0 { Area::Programming } else if k == 1 { Area::Health } else if k == 2 { Area::Education }
    else if k == 3 { Area::Finance } else if k == 4 { Area::Career } else if k == 5 { Area::Psychology }
    else if k == 6 { Area::GameDev } else { Area::Relationships }
}

/// Detects the area of a text by keywords.
pub struct HybridAreaDetector;

impl HybridAreaDetector {
    /// The area whose keywords occur first in rule order, with its confidence in
    /// percent; `None` when no keyword occurs.
    pub fn detect_by_keywords(text: &str) -> (r: Option<(Area, u8)>)
        ensures
            match r {
                Some((a, c)) => area_rule_of(text@) matches Some(k) && a == area_of_rule(k) && c as int
                    == area_rule(k).2,
                None => area_rule_of(text@) is None,
            },
    {
        let lower = to_lowercase(text);
        let mut i: usize = 0;
        while i < 8
            invariant
                i <= 8,
                lower@ == unicode_lowercase(text@),
                first_rule_from(lower@, 0) == first_rule_from(lower@, i as nat),
            decreases 8 - i,
        {
            let kws = area_keywords(i);
            if any_keyword_exec(lower.as_str(), &kws) {
                let conf: u8 = if i == 2 || i == 4 || i == 7 {
                    80
                } else {
                    85
                };
                return Some((area_of_rule_exec(i), conf));
            }
            i = i + 1;
        }
        None
    }

    /// The area of a text: by keywords, or else life with 30% confidence.
    pub fn detect_area(text: &str) -> (r: (Area, u8))
        ensures
            match area_rule_of(text@) {
                Some(k) => r.0 == area_of_rule(k) && r.1 as int == area_rule(k).2,
                None => r.0 == Area::Life && r.1 == 30,
            },
    {
        match Self::detect_by_keywords(text) {
            Some(r) => r,
            None => (Area::Life, 30),
        }
    }
}

// ── Entities ────────────────────────────────────────────────

/// The technologies recognised by name.
pub open spec fn known_tech() -> Seq<Seq<char>> {
    seq![
        "rust"@, "python"@, "javascript"@, "typescript"@, "docker"@, "kubernetes"@, "linux"@, "git"@,
        "react"@, "vue"@, "tokio"@, "obsidian"@, "telegram"@, "openai"@, "ollama"@, "postgresql"@,
        "sqlite"@, "redis"@, "nginx"@, "aws"@,
    ]
}

/// An entity found in a text: its name and kind.
pub struct FoundEntity {
    pub name: String,
    pub is_technology: bool,
}

/// The technologies a lower-cased text names, in the order of the list.
pub open spec fn techs_in(lower: Seq<char>, k: nat) -> Seq<Seq<char>>
    decreases k,
{
    if k == 0 {
        Seq::empty()
    } else {
        let prev = techs_in(lower, (k - 1) as nat);
        if has_infix(lower, known_tech()[k - 1]) {
            prev.push(known_tech()[k - 1])
        } else {
            prev
        }
    }
}

/// The words of a text that are web links.
pub open spec fn links_in(ws: Seq<Seq<char>>) -> Seq<Seq<char>>
    decreases ws.len(),
{
    if ws.len() == 0 {
        Seq::empty()
    } else {
        let prev = links_in(ws.drop_last());
        if has_prefix(ws.last(), "http://"@) || has_prefix(ws.last(), "https://"@) {
            prev.push(ws.last())
        } else {
            prev
        }
    }
}

pub open spec fn found_views(v: Seq<FoundEntity>) -> Seq<(Seq<char>, bool)> {
    v.map_values(|e: FoundEntity| (e.name@, e.is_technology))
}

/// The entities of a text: the known technologies it names, then its links as tools.
pub open spec fn entities_spec(text: Seq<char>) -> Seq<(Seq<char>, bool)> {
    techs_in(unicode_lowercase(text), 20).map_values(|t: Seq<char>| (t, true))
        + links_in(words_spec(text)).map_values(|w: Seq<char>| (w, false))
}

/// Finds technologies and links in texts.
pub struct HybridEntityExtractor;

fn known_tech_exec() -> (r: Vec<&'static str>)
    ensures
        r@.map_values(|s: &str| s@) == known_tech(),
{
    let r = vec![
        "rust", "python", "javascript", "typescript", "docker", "kubernetes", "linux", "git", "react", "vue",
        "tokio", "obsidian", "telegram", "openai", "ollama", "postgresql", "sqlite", "redis", "nginx", "aws",
    ];
    assert(r@.map_values(|s: &str| s@) =~= known_tech());
    r
}

impl HybridEntityExtractor {
    pub fn new() -> (r: Self) {
        HybridEntityExtractor
    }

    /// The entities of a text (see `entities_spec`).
    pub fn extract_entities(&self, text: &str) -> (r: Vec<FoundEntity>)
        ensures
            found_views(r@) == entities_spec(text@),
    {
        let lower = to_lowercase(text);
        let techs = known_tech_exec();
        assert(techs@.map_values(|s: &str| s@).len() == techs@.len());
        let mut out: Vec<FoundEntity> = Vec::new();
        let mut k: usize = 0;
        while k < techs.len()
            invariant
                k <= techs.len(),
                techs@.len() == 20,
                techs@.map_values(|s: &str| s@) == known_tech(),
                lower@ == unicode_lowercase(text@),
                found_views(out@) == techs_in(lower@, k as nat).map_values(|t: Seq<char>| (t, true)),
            decreases techs.len() - k,
        {
            assert(known_tech()[k as int] == techs@[k as int]@);
            if str_contains(lower.as_str(), techs[k]) {
                let ghost prev = out@;
                out.push(FoundEntity { name: owned(techs[k]), is_technology: true });
                assert(found_views(out@) =~= found_views(prev).push((techs@[k as int]@, true)));
            }
            assert(techs_in(lower@, (k + 1) as nat).map_values(|t: Seq<char>| (t, true)) =~= found_views(out@));
            k = k + 1;
        }
        let ghost tech_part = found_views(out@);
        let ws = split_whitespace(text);
        let mut i: usize = 0;
        while i < ws.len()
            invariant
                i <= ws.len(),
                views(ws@) == words_spec(text@),
                found_views(out@) == tech_part + links_in(views(ws@).take(i as int)).map_values(|w: Seq<char>| (w, false)),
            decreases ws.len() - i,
        {
            assert(views(ws@).take(i + 1).drop_last() =~= views(ws@).take(i as int));
            if str_starts_with(ws[i].as_str(), "http://") || str_starts_with(ws[i].as_str(), "https://") {
                let ghost prev = out@;
                out.push(FoundEntity { name: ws[i].clone(), is_technology: false });
                assert(found_views(out@) =~= found_views(prev).push((ws@[i as int]@, false)));
            }
            assert(tech_part + links_in(views(ws@).take(i + 1)).map_values(|w: Seq<char>| (w, false)) =~= found_views(out@));
            i = i + 1;
        }
        assert(views(ws@).take(ws.len() as int) =~= views(ws@));
        out
    }
}

// ── Entry types by name ─────────────────────────────────────

/// Classifies by rules: a rule's label names an entry type.
pub struct RuleEngine;

impl RuleEngine {
    /// The entry type a rule label names, if any.
    pub fn entry_type_of_label(label: &str) -> (r: Option<EntryType>)
        ensures
            r == (if label@ == "task"@ { Some(EntryType::Task) } else if label@ == "idea"@ { Some(EntryType::Idea) }
            else if label@ == "goal"@ { Some(EntryType::Goal) } else if label@ == "diary"@ { Some(EntryType::Diary) }
            else if label@ == "finance"@ { Some(EntryType::Finance) } else if label@ == "knowledge"@ { Some(EntryType::Knowledge) }
            else if label@ == "habit"@ { Some(EntryType::Habit) } else if label@ == "person"@ { Some(EntryType::Person) }
            else if label@ == "book"@ { Some(EntryType::Book) } else { None }),
    {
        if str_eq(label, "task") { Some(EntryType::Task) } else if str_eq(label, "idea") { Some(EntryType::Idea) }
        else if str_eq(label, "goal") { Some(EntryType::Goal) } else if str_eq(label, "diary") { Some(EntryType::Diary) }
        else if str_eq(label, "finance") { Some(EntryType::Finance) } else if str_eq(label, "knowledge") { Some(EntryType::Knowledge) }
        else if str_eq(label, "habit") { Some(EntryType::Habit) } else if str_eq(label, "person") { Some(EntryType::Person) }
        else if str_eq(label, "book") { Some(EntryType::Book) } else { None }
    }
}

/// The category an AI is offered for an entry type.
pub open spec fn ai_category(t: EntryType) -> Seq<char> {
    match t {
        EntryType::Idea => "idea"@,
        EntryType::Task => "task"@,
        EntryType::Goal => "goal"@,
        EntryType::Knowledge => "knowledge"@,
        EntryType::Diary => "diary"@,
        EntryType::Finance => "finance"@,
        EntryType::Habit => "habit"@,
        _ => "thought"@,
    }
}

/// The categories offered to an AI: one per entry type, in order.
pub fn ai_categories() -> (r: Vec<&'static str>)
    ensures
        r@.map_values(|s: &str| s@) == crate::common::all_entry_types().map_values(|t: EntryType| ai_category(t)),
{
    let all = EntryType::all();
    let mut out: Vec<&'static str> = Vec::new();
    let mut i: usize = 0;
    while i < all.len()
        invariant
            i <= all.len(),
            all@ == crate::common::all_entry_types(),
            out@.map_values(|s: &str| s@) == all@.take(i as int).map_values(|t: EntryType| ai_category(t)),
        decreases all.len() - i,
    {
        let c = match all[i] {
            EntryType::Idea => "idea",
            EntryType::Task => "task",
            EntryType::Goal => "goal",
            EntryType::Knowledge => "knowledge",
            EntryType::Diary => "diary",
            EntryType::Finance => "finance",
            EntryType::Habit => "habit",
            _ => "thought",
        };
        let ghost prev = out@;
        out.push(c);
        assert(c@ == ai_category(all@[i as int]));
        assert(out@.map_values(|s: &str| s@) =~= prev.map_values(|s: &str| s@).push(c@));
        assert(all@.take(i + 1).map_values(|t: EntryType| ai_category(t)) =~= all@.take(i as int).map_values(|t: EntryType| ai_category(t)).push(ai_category(all@[i as int])));
        i = i + 1;
    }
    assert(all@.take(all.len() as int) =~= all@);
    out
}

/// The entry type an AI's answer names (compared lower-cased), or a thought.
pub open spec fn type_of_answer_spec(answer: Seq<char>) -> EntryType {
    let a = unicode_lowercase(answer);
    if a == "idea"@ { EntryType::Idea } else if a == "task"@ { EntryType::Task }
    else if a == "goal"@ { EntryType::Goal } else if a == "knowledge"@ { EntryType::Knowledge }
    else if a == "diary"@ { EntryType::Diary } else if a == "finance"@ { EntryType::Finance }
    else if a == "habit"@ { EntryType::Habit } else { EntryType::Thought }
}

/// Classifies entry types by rules, then by an AI.
pub struct HybridTypeClassifier;

impl HybridTypeClassifier {
    /// The entry type an AI's answer names (see `type_of_answer_spec`).
    pub fn type_of_answer(answer: &str) -> (r: EntryType)
        ensures
            r == type_of_answer_spec(answer@),
    {
        let l = to_lowercase(answer);
        let a = l.as_str();
        if str_eq(a, "idea") { EntryType::Idea } else if str_eq(a, "task") { EntryType::Task }
        else if str_eq(a, "goal") { EntryType::Goal } else if str_eq(a, "knowledge") { EntryType::Knowledge }
        else if str_eq(a, "diary") { EntryType::Diary } else if str_eq(a, "finance") { EntryType::Finance }
        else if str_eq(a, "habit") { EntryType::Habit } else { EntryType::Thought }
    }
}

} // verus!
