//! The English tutor: its vocabulary cards, flashcards and quizzes, the grammar
//! hints given without AI, and the answers of its plugin.

use vstd::prelude::*;
use rand::Rng;
use rand::seq::SliceRandom;
use crate::bot::{Button, PluginResponse};
use crate::text::{chars_of, has_infix, has_prefix, has_suffix, join, join_spec, owned, push_str,
    str_contains, str_ends_with, str_eq, str_starts_with, trim, trim_spec, views};

verus! {

/// A vocabulary card.
pub struct VocabCard {
    pub id: String,
    pub word: String,
    pub phonetic: String,
    pub translation_ru: String,
    pub example_en: String,
    pub example_ru: String,
    /// The CEFR level: A1 to C2.
    pub level: String,
}

pub type CardView = (Seq<char>, Seq<char>, Seq<char>, Seq<char>, Seq<char>, Seq<char>, Seq<char>);

pub open spec fn card_view(c: VocabCard) -> CardView {
    (c.id@, c.word@, c.phonetic@, c.translation_ru@, c.example_en@, c.example_ru@, c.level@)
}

pub open spec fn card_views(v: Seq<VocabCard>) -> Seq<CardView> {
    v.map_values(|c: VocabCard| card_view(c))
}

fn card(id: &str, word: &str, phonetic: &str, tr: &str, en: &str, ru: &str, level: &str) -> (r: VocabCard)
    ensures
        card_view(r) == (id@, word@, phonetic@, tr@, en@, ru@, level@),
{
    VocabCard {
        id: owned(id),
        word: owned(word),
        phonetic: owned(phonetic),
        translation_ru: owned(tr),
        example_en: owned(en),
        example_ru: owned(ru),
        level: owned(level),
    }
}

/// A copy of a card.
pub fn copy_card(c: &VocabCard) -> (r: VocabCard)
    ensures
        card_view(r) == card_view(*c),
{
    VocabCard {
        id: c.id.clone(),
        word: c.word.clone(),
        phonetic: c.phonetic.clone(),
        translation_ru: c.translation_ru.clone(),
        example_en: c.example_en.clone(),
        example_ru: c.example_ru.clone(),
        level: c.level.clone(),
    }
}

/// The cards the tutor starts with.
pub open spec fn vocab_bank_spec() -> Seq<CardView> {
    seq![
        ("v1"@, "Resilient"@, "/rɪˈzɪl.jənt/"@, "Устойчивый, жизнестойкий, гибкий"@,
            "She is a resilient person who never gives up."@,
            "Она жизнестойкий человек, который никогда не сдаётся."@, "B2"@),
        ("v2"@, "Ubiquitous"@, "/juːˈbɪk.wə.təs/"@, "Вездесущий, повсеместный"@,
            "Smartphones have become ubiquitous in modern society."@,
            "Смартфоны стали повсеместными в современном обществе."@, "C1"@),
        ("v3"@, "Pragmatic"@, "/præɡˈmæt.ɪk/"@, "Прагматичный, практичный"@,
            "We need a pragmatic solution to this problem."@,
            "Нам нужно практичное решение этой проблемы."@, "B2"@),
        ("v4"@, "Ambiguity"@, "/ˌæm.bɪˈɡjuː.ə.ti/"@, "Двусмысленность, неопределенность"@,
            "There is some ambiguity in the instructions."@,
            "В инструкциях есть некоторая неопределенность."@, "C1"@),
        ("v5"@, "Consistent"@, "/kənˈsɪs.tənt/"@, "Последовательный, постоянный"@,
            "Consistent practice leads to mastery."@,
            "Последовательная практика ведет к мастерству."@, "B1"@),
    ]
}

/// The cards the tutor starts with (see `vocab_bank_spec`).
pub fn default_vocab_bank() -> (r: Vec<VocabCard>)
    ensures
        card_views(r@) == vocab_bank_spec(),
{
    let mut v: Vec<VocabCard> = Vec::new();
    v.push(card("v1", "Resilient", "/rɪˈzɪl.jənt/", "Устойчивый, жизнестойкий, гибкий",
        "She is a resilient person who never gives up.",
        "Она жизнестойкий человек, который никогда не сдаётся.", "B2"));
    v.push(card("v2", "Ubiquitous", "/juːˈbɪk.wə.təs/", "Вездесущий, повсеместный",
        "Smartphones have become ubiquitous in modern society.",
        "Смартфоны стали повсеместными в современном обществе.", "C1"));
    v.push(card("v3", "Pragmatic", "/præɡˈmæt.ɪk/", "Прагматичный, практичный",
        "We need a pragmatic solution to this problem.",
        "Нам нужно практичное решение этой проблемы.", "B2"));
    v.push(card("v4", "Ambiguity", "/ˌæm.bɪˈɡjuː.ə.ti/", "Двусмысленность, неопределенность",
        "There is some ambiguity in the instructions.",
        "В инструкциях есть некоторая неопределенность.", "C1"));
    v.push(card("v5", "Consistent", "/kənˈsɪs.tənt/", "Последовательный, постоянный",
        "Consistent practice leads to mastery.",
        "Последовательная практика ведет к мастерству.", "B1"));
    assert(card_views(v@) =~= vocab_bank_spec());
    v
}

/// The starting bank has five cards with distinct ids.
pub proof fn lemma_vocab_bank_ids_distinct()
    ensures
        vocab_bank_spec().len() == 5,
        forall|i: int, j: int|
            0 <= i < j < 5 ==> (#[trigger] vocab_bank_spec()[i]).0 != (#[trigger] vocab_bank_spec()[j]).0,
{
    reveal_strlit("v1");
    reveal_strlit("v2");
    reveal_strlit("v3");
    reveal_strlit("v4");
    reveal_strlit("v5");
    assert forall|i: int, j: int|
        0 <= i < j < 5 implies (#[trigger] vocab_bank_spec()[i]).0 != (#[trigger] vocab_bank_spec()[j]).0 by {
        let a = vocab_bank_spec()[i].0;
        let b = vocab_bank_spec()[j].0;
        assert(a[1] != b[1]);
    }
}

// ── Chance ──────────────────────────────────────────────────

/// `rand::thread_rng().gen_range(0..n)`: some index below `n`; which one is
/// left to chance and not stated.
#[verifier::external_body]
fn random_index(n: usize) -> (r: usize)
    requires
        n > 0,
    ensures
        r < n,
{
    rand::thread_rng().gen_range(0..n)
}

/// `SliceRandom::shuffle` with the thread's generator: the same strings in an
/// order left to chance; only that it is a reordering is stated.
#[verifier::external_body]
fn shuffled(v: Vec<String>) -> (r: Vec<String>)
    ensures
        views(r@).to_multiset() == views(v@).to_multiset(),
{
    let mut v = v;
    v.shuffle(&mut rand::thread_rng());
    v
}

// ── The engine ──────────────────────────────────────────────

/// The tutor's card deck.
pub struct EnglishTutorEngine {
    pub cards: Vec<VocabCard>,
}

impl EnglishTutorEngine {
    /// A tutor with the starting bank.
    pub fn new() -> (r: Self)
        ensures
            card_views(r.cards@) == vocab_bank_spec(),
    {
        EnglishTutorEngine { cards: default_vocab_bank() }
    }

    /// The card of an id, if any: the first with it.
    pub fn get_card(&self, id: &str) -> (r: Option<VocabCard>)
        ensures
            match r {
                Some(c) => exists|k: int|
                    0 <= k < self.cards@.len() && card_view(c) == card_view(self.cards@[k]) && c.id@ == id@
                        && forall|j: int| 0 <= j < k ==> (#[trigger] self.cards@[j]).id@ != id@,
                None => forall|j: int| 0 <= j < self.cards@.len() ==> (#[trigger] self.cards@[j]).id@ != id@,
            },
    {
        let mut i: usize = 0;
        while i < self.cards.len()
            invariant
                i <= self.cards.len(),
                forall|j: int| 0 <= j < i ==> (#[trigger] self.cards@[j]).id@ != id@,
            decreases self.cards.len() - i,
        {
            if str_eq(self.cards[i].id.as_str(), id) {
                let c = copy_card(&self.cards[i]);
                assert(card_view(c) == card_view(self.cards@[i as int]));
                return Some(c);
            }
            i = i + 1;
        }
        None
    }

    /// A card chosen at random, or none from an empty deck.
    pub fn get_random_card(&self) -> (r: Option<VocabCard>)
        ensures
            match r {
                Some(c) => exists|k: int| 0 <= k < self.cards@.len() && card_view(c) == card_view(self.cards@[k]),
                None => self.cards@.len() == 0,
            },
    {
        if self.cards.len() == 0 {
            return None;
        }
        let k = random_index(self.cards.len());
        Some(copy_card(&self.cards[k]))
    }

    /// A quiz: a random card and, in random order, its translation and up to
    /// three translations of the other cards (those with another id).
    pub fn generate_quiz(&self) -> (r: (VocabCard, Vec<String>))
        requires
            self.cards@.len() > 0,
        ensures
            exists|k: int| 0 <= k < self.cards@.len() && card_view(r.0) == card_view(self.cards@[k]),
            views(r.1@).contains(r.0.translation_ru@),
            r.1@.len() == 1 + (if other_translations(self.cards@, r.0.id@).len() < 3 {
                other_translations(self.cards@, r.0.id@).len()
            } else {
                3
            }),
            forall|o: Seq<char>|
                #[trigger] views(r.1@).contains(o) ==> o == r.0.translation_ru@ || other_translations(
                    self.cards@,
                    r.0.id@,
                ).contains(o),
            exists|picked: vstd::multiset::Multiset<Seq<char>>|
                #![trigger picked.insert(r.0.translation_ru@)]
                picked.subset_of(other_translations(self.cards@, r.0.id@).to_multiset())
                    && picked.len() == r.1@.len() - 1
                    && views(r.1@).to_multiset() == picked.insert(r.0.translation_ru@),
    {
        let k = random_index(self.cards.len());
        let c = copy_card(&self.cards[k]);
        let ghost cid = c.id@;
        let mut others: Vec<String> = Vec::new();
        let mut i: usize = 0;
        while i < self.cards.len()
            invariant
                i <= self.cards.len(),
                cid == c.id@,
                views(others@) == other_translations(self.cards@.take(i as int), cid),
            decreases self.cards.len() - i,
        {
            let ghost prev = views(others@);
            proof {
                assert(self.cards@.take(i + 1).drop_last() =~= self.cards@.take(i as int));
            }
            if !str_eq(self.cards[i].id.as_str(), c.id.as_str()) {
                others.push(self.cards[i].translation_ru.clone());
                assert(views(others@) =~= prev.push(self.cards@[i as int].translation_ru@));
            }
            i = i + 1;
        }
        assert(self.cards@.take(self.cards@.len() as int) =~= self.cards@);
        let ghost all_others = views(others@);
        let others = shuffled(others);
        proof {
            all_others.to_multiset_ensures();
            views(others@).to_multiset_ensures();
            assert forall|o: Seq<char>| #[trigger] views(others@).contains(o) implies all_others.contains(o) by {
                assert(views(others@).to_multiset().count(o) > 0);
                assert(all_others.to_multiset().count(o) > 0);
            }
        }
        let mut options: Vec<String> = Vec::new();
        options.push(c.translation_ru.clone());
        let mut j: usize = 0;
        while j < others.len() && j < 3
            invariant
                j <= 3,
                j <= others@.len(),
                options@.len() == j + 1,
                views(options@)[0] == c.translation_ru@,
                views(options@) =~= seq![c.translation_ru@] + views(others@).take(j as int),
                views(others@).len() == all_others.len(),
                forall|o: Seq<char>| #[trigger] views(others@).contains(o) ==> all_others.contains(o),
                forall|m: int|
                    0 <= m < options@.len() ==> #[trigger] views(options@)[m] == c.translation_ru@
                        || all_others.contains(views(options@)[m]),
            decreases others.len() - j,
        {
            let ghost prev = views(options@);
            options.push(others[j].clone());
            assert(views(options@) =~= prev.push(others@[j as int]@));
            assert(views(others@).contains(others@[j as int]@)) by {
                assert(views(others@)[j as int] == others@[j as int]@);
            }
            j = j + 1;
        }
        let ghost before = views(options@);
        let ghost t = c.translation_ru@;
        let ghost taken = views(others@).take(j as int);
        proof {
            let rest = views(others@).skip(j as int);
            assert(views(others@) =~= taken + rest);
            vstd::seq_lib::lemma_multiset_commutative(taken, rest);
            all_others.to_multiset_ensures();
            views(others@).to_multiset_ensures();
            assert(taken.to_multiset().subset_of(all_others.to_multiset())) by {
                broadcast use vstd::multiset::group_multiset_axioms;
                assert forall|v: Seq<char>| taken.to_multiset().count(v) <= all_others.to_multiset().count(v) by {
                    assert(views(others@).to_multiset().count(v) == taken.to_multiset().count(v)
                        + rest.to_multiset().count(v));
                }
            }
            vstd::seq_lib::lemma_seq_union_to_multiset_commutative(seq![t], taken);
            assert(taken + seq![t] =~= taken.push(t));
            taken.to_multiset_ensures();
            assert(before.to_multiset() =~= taken.to_multiset().insert(t));
            vstd::seq_lib::to_multiset_len(taken);
        }
        assert(before.contains(c.translation_ru@)) by {
            assert(before[0] == c.translation_ru@);
        }
        assert(before.len() == 1 + (if all_others.len() < 3 { all_others.len() } else { 3 }));
        let options = shuffled(options);
        proof {
            before.to_multiset_ensures();
            views(options@).to_multiset_ensures();
            assert(before.to_multiset().count(c.translation_ru@) > 0);
            assert(views(options@).len() == before.len());
            assert(views(options@).len() == options@.len());
            assert forall|o: Seq<char>| #[trigger] views(options@).contains(o) implies o == c.translation_ru@
                || all_others.contains(o) by {
                assert(before.to_multiset().count(o) > 0);
                assert(before.contains(o));
                let m = choose|m: int| 0 <= m < before.len() && before[m] == o;
                assert(before[m] == c.translation_ru@ || all_others.contains(before[m]));
            }
            assert(views(options@).to_multiset() == taken.to_multiset().insert(t));
            assert(taken.to_multiset().len() == views(options@).len() - 1);
        }
        (c, options)
    }
}

/// The translations of the cards whose id is not `id`, in deck order.
pub open spec fn other_translations(cards: Seq<VocabCard>, id: Seq<char>) -> Seq<Seq<char>>
    decreases cards.len(),
{
    if cards.len() == 0 {
        Seq::empty()
    } else {
        let p = other_translations(cards.drop_last(), id);
        if cards.last().id@ != id {
            p.push(cards.last().translation_ru@)
        } else {
            p
        }
    }
}

// ── Grammar without AI ──────────────────────────────────────

/// What `char::is_uppercase` says of a character.
pub uninterp spec fn is_upper(c: char) -> bool;

/// `char::is_uppercase`: whether a character is upper-case (Unicode
/// `Uppercase`), the name `is_upper`; among ASCII characters exactly `A`..`Z`.
#[verifier::external_body]
fn char_is_uppercase(c: char) -> (b: bool)
    ensures
        b == is_upper(c),
        (c as u32) < 128 ==> (b == ('A' <= c <= 'Z')),
{
    c.is_uppercase()
}

/// The hints for a sentence: capitalise its start, end it with `.`, `?` or `!`,
/// and write the pronoun "I" in capitals.
pub open spec fn grammar_hints(t: Seq<char>) -> Seq<Seq<char>> {
    let a: Seq<Seq<char>> = if !(t.len() > 0 && is_upper(t[0])) {
        seq!["• Capitalize the first letter of your sentence."@]
    } else {
        Seq::empty()
    };
    let b: Seq<Seq<char>> = if !has_suffix(t, "."@) && !has_suffix(t, "?"@) && !has_suffix(t, "!"@) {
        seq!["• Add a period (.) or question mark (?) at the end."@]
    } else {
        Seq::empty()
    };
    let c: Seq<Seq<char>> = if has_infix(t, " i "@) || has_prefix(t, "i "@) {
        seq!["• Always capitalize the personal pronoun 'I'."@]
    } else {
        Seq::empty()
    };
    a + b + c
}

/// The feedback on a sentence without AI: its hints, or praise when there are none.
pub open spec fn grammar_feedback_spec(t: Seq<char>) -> Seq<char> {
    let header = "📝 *Grammar & Syntax Analysis*\n\nSentence: _\""@ + t + "\"_\n"@;
    let h = grammar_hints(t);
    if h.len() == 0 {
        header + "\n✨ *Great job!* Your sentence structure looks clean and natural."@
    } else {
        header + "\n💡 *Suggestions for improvement:*\n"@ + join_spec(h, "\n"@)
    }
}

/// A text ends with the one-character text `c` exactly when its last character is `c`.
proof fn lemma_ends_with_char(t: Seq<char>, c: char)
    ensures
        has_suffix(t, seq![c]) <==> (t.len() > 0 && t.last() == c),
{
    if t.len() > 0 {
        let sub = t.subrange(t.len() - 1, t.len() as int);
        assert(sub =~= seq![t.last()]);
        if has_suffix(t, seq![c]) {
            assert(sub[0] == seq![c][0]);
        }
    }
}

/// The hint to end a sentence with punctuation is given exactly when the
/// sentence does not end with `.`, `?` or `!`.
pub proof fn lemma_end_punctuation_hint(t: Seq<char>)
    ensures
        grammar_hints(t).contains("• Add a period (.) or question mark (?) at the end."@) <==> !(t.len() > 0
            && (t.last() == '.' || t.last() == '?' || t.last() == '!')),
{
    reveal_strlit(".");
    reveal_strlit("?");
    reveal_strlit("!");
    reveal_strlit("• Capitalize the first letter of your sentence.");
    reveal_strlit("• Add a period (.) or question mark (?) at the end.");
    reveal_strlit("• Always capitalize the personal pronoun 'I'.");
    assert("."@ =~= seq!['.']);
    assert("?"@ =~= seq!['?']);
    assert("!"@ =~= seq!['!']);
    let cap = "• Capitalize the first letter of your sentence."@;
    let end = "• Add a period (.) or question mark (?) at the end."@;
    let pro = "• Always capitalize the personal pronoun 'I'."@;
    assert(cap[2] != end[2]);
    assert(pro[3] != end[3]);
    lemma_ends_with_char(t, '.');
    lemma_ends_with_char(t, '?');
    lemma_ends_with_char(t, '!');
    assert(has_suffix(t, "."@) <==> (t.len() > 0 && t.last() == '.'));
    assert(has_suffix(t, "?"@) <==> (t.len() > 0 && t.last() == '?'));
    assert(has_suffix(t, "!"@) <==> (t.len() > 0 && t.last() == '!'));
    let h = grammar_hints(t);
    if h.contains(end) {
        let i = choose|i: int| 0 <= i < h.len() && h[i] == end;
        assert(h[i] == cap || h[i] == end || h[i] == pro);
    }
    if !(t.len() > 0 && (t.last() == '.' || t.last() == '?' || t.last() == '!')) {
        let a: Seq<Seq<char>> = if !(t.len() > 0 && is_upper(t[0])) { seq![cap] } else { Seq::empty() };
        assert(h[a.len() as int] == end);
    }
}

/// A sentence that starts with a capital, ends with `.`, `?` or `!`, and never
/// writes the pronoun as a lone lower-case `i` gets the praise and no hint.
pub proof fn lemma_clean_sentence_praised(t: Seq<char>)
    requires
        t.len() > 0,
        is_upper(t[0]),
        t.last() == '.' || t.last() == '?' || t.last() == '!',
        !has_infix(t, " i "@),
        !has_prefix(t, "i "@),
    ensures
        grammar_hints(t).len() == 0,
        has_suffix(grammar_feedback_spec(t), "\n✨ *Great job!* Your sentence structure looks clean and natural."@),
{
    reveal_strlit(".");
    reveal_strlit("?");
    reveal_strlit("!");
    assert("."@ =~= seq!['.']);
    assert("?"@ =~= seq!['?']);
    assert("!"@ =~= seq!['!']);
    lemma_ends_with_char(t, '.');
    lemma_ends_with_char(t, '?');
    lemma_ends_with_char(t, '!');
    assert(has_suffix(t, "."@) || has_suffix(t, "?"@) || has_suffix(t, "!"@));
    assert(grammar_hints(t) =~= Seq::<Seq<char>>::empty());
    let header = "📝 *Grammar & Syntax Analysis*\n\nSentence: _\""@ + t + "\"_\n"@;
    let praise = "\n✨ *Great job!* Your sentence structure looks clean and natural."@;
    let r = header + praise;
    assert(r.subrange(r.len() - praise.len(), r.len() as int) =~= praise);
}

/// The feedback on a sentence without AI (see `grammar_feedback_spec`).
pub fn grammar_feedback_fallback(text: &str) -> (r: String)
    ensures
        r@ == grammar_feedback_spec(text@),
{
    let v = chars_of(text);
    let mut hints: Vec<String> = Vec::new();
    let upper = v.len() > 0 && char_is_uppercase(v[0]);
    if !upper {
        hints.push(owned("• Capitalize the first letter of your sentence."));
    }
    let ghost a = views(hints@);
    if !str_ends_with(text, ".") && !str_ends_with(text, "?") && !str_ends_with(text, "!") {
        hints.push(owned("• Add a period (.) or question mark (?) at the end."));
    }
    let ghost b = views(hints@);
    if str_contains(text, " i ") || str_starts_with(text, "i ") {
        hints.push(owned("• Always capitalize the personal pronoun 'I'."));
    }
    assert(views(hints@) =~= grammar_hints(text@));
    let mut s = owned("📝 *Grammar & Syntax Analysis*\n\nSentence: _\"");
    push_str(&mut s, text);
    push_str(&mut s, "\"_\n");
    if hints.len() == 0 {
        push_str(&mut s, "\n✨ *Great job!* Your sentence structure looks clean and natural.");
    } else {
        push_str(&mut s, "\n💡 *Suggestions for improvement:*\n");
        push_str(&mut s, join(&hints, "\n").as_str());
    }
    s
}

/// What the tutor answers to a sentence without AI: a request for a sentence
/// when it is blank, or the feedback on the trimmed sentence.
pub fn analyze_grammar_offline(user_text: &str) -> (r: String)
    ensures
        r@ == (if trim_spec(user_text@).len() == 0 {
            "Please type a sentence in English to analyze!"@
        } else {
            grammar_feedback_spec(trim_spec(user_text@))
        }),
{
    let t = trim(user_text);
    if chars_of(t.as_str()).len() == 0 {
        owned("Please type a sentence in English to analyze!")
    } else {
        grammar_feedback_fallback(t.as_str())
    }
}

/// What the tutor answers to a message without AI.
pub fn tutor_reply_offline(user_message: &str) -> (r: String)
    ensures
        r@ == "🇬🇧 *English Practice Mode*\n\nYou said: \""@ + trim_spec(user_message@)
            + "\"\n\nGreat practice! Keep writing sentences in English or try `/grammar "@ + trim_spec(
            user_message@,
        ) + "` for a full structural check."@,
{
    let t = trim(user_message);
    let mut s = owned("🇬🇧 *English Practice Mode*\n\nYou said: \"");
    push_str(&mut s, t.as_str());
    push_str(&mut s, "\"\n\nGreat practice! Keep writing sentences in English or try `/grammar ");
    push_str(&mut s, t.as_str());
    push_str(&mut s, "` for a full structural check.");
    s
}

/// The request put to the AI model to analyse a sentence; `text` is the
/// trimmed sentence.
pub fn grammar_prompt(text: &str) -> (r: String)
    ensures
        r@ == "You are an expert English language tutor. Analyze this sentence written by a student: \""@
            + text@ + "\".\n\nProvide a friendly response in Russian containing:\n1. Corrected version (if any errors exist).\n2. Estimated CEFR level (A1, A2, B1, B2, C1, C2).\n3. Detailed grammar & vocabulary explanation.\n4. Two more natural native phrasing alternatives.\n\nFormat with clean markdown."@,
{
    let mut s = owned("You are an expert English language tutor. Analyze this sentence written by a student: \"");
    push_str(&mut s, text);
    push_str(&mut s, "\".\n\nProvide a friendly response in Russian containing:\n1. Corrected version (if any errors exist).\n2. Estimated CEFR level (A1, A2, B1, B2, C1, C2).\n3. Detailed grammar & vocabulary explanation.\n4. Two more natural native phrasing alternatives.\n\nFormat with clean markdown.");
    s
}

/// How the answer of the AI model to a sentence is shown to the student.
pub fn grammar_ai_reply(text: &str, answer: &str) -> (r: String)
    ensures
        r@ == "📝 *Gemini AI Grammar Tutor*\n\nSentence: _\""@ + text@ + "\"_\n\n"@ + answer@,
{
    let mut s = owned("📝 *Gemini AI Grammar Tutor*\n\nSentence: _\"");
    push_str(&mut s, text);
    push_str(&mut s, "\"_\n\n");
    push_str(&mut s, answer);
    s
}

/// The request put to the AI model to carry on a conversation; `text` is the
/// trimmed message of the student.
pub fn tutor_prompt(text: &str) -> (r: String)
    ensures
        r@ == "You are a friendly, highly encouraging English conversation tutor. The student says: \""@
            + text@ + "\".\n\nRespond as an AI tutor:\n1. Answer their message naturally in English.\n2. Ask 1 open-ended follow-up question to keep the conversation going.\n3. Add a short Russian translation note at the bottom for tricky words."@,
{
    let mut s = owned("You are a friendly, highly encouraging English conversation tutor. The student says: \"");
    push_str(&mut s, text);
    push_str(&mut s, "\".\n\nRespond as an AI tutor:\n1. Answer their message naturally in English.\n2. Ask 1 open-ended follow-up question to keep the conversation going.\n3. Add a short Russian translation note at the bottom for tricky words.");
    s
}

// ── Plugin answers ──────────────────────────────────────────

/// The flashcard text of a card.
pub open spec fn flashcard_text_spec(c: CardView) -> Seq<char> {
    "🇬🇧 *English Flashcard*\n\n📖 *Word:* "@ + c.1 + " "@ + c.2 + "\n📊 *Level:* `"@ + c.6
        + "`\n\n🇷🇺 *Translation:* "@ + c.3 + "\n\n💬 *Example:* "@ + c.4 + "\n_"@ + c.5 + "_"@
}

pub open spec fn button_views(v: Seq<Button>) -> Seq<(Seq<char>, Seq<char>)> {
    v.map_values(|b: Button| (b.0@, b.1@))
}

fn buttons(items: &[(&str, &str)]) -> (r: Vec<Button>)
    ensures
        button_views(r@) == items@.map_values(|p: (&str, &str)| (p.0@, p.1@)),
{
    let mut v: Vec<Button> = Vec::new();
    let mut i: usize = 0;
    while i < items.len()
        invariant
            i <= items.len(),
            button_views(v@) == items@.take(i as int).map_values(|p: (&str, &str)| (p.0@, p.1@)),
        decreases items.len() - i,
    {
        let ghost prev = v@;
        v.push((owned(items[i].0), owned(items[i].1)));
        assert(button_views(v@) =~= button_views(prev).push((items@[i as int].0@, items@[i as int].1@)));
        assert(items@.take(i + 1).map_values(|p: (&str, &str)| (p.0@, p.1@)) =~= items@.take(i as int).map_values(|p: (&str, &str)| (p.0@, p.1@)).push((items@[i as int].0@, items@[i as int].1@)));
        i = i + 1;
    }
    assert(items@.take(items@.len() as int) =~= items@);
    v
}

/// A flashcard with the next, quiz and practice buttons.
pub fn flashcard_response(c: &VocabCard) -> (r: PluginResponse)
    ensures
        r matches PluginResponse::Keyboard { text, options } && text@ == flashcard_text_spec(card_view(*c))
            && button_views(options@) == seq![
                ("🟢 Next Flashcard"@, "eng:next"@),
                ("🎯 Take Quiz"@, "eng:quiz"@),
                ("🤖 AI Practice"@, "eng:tutor"@),
            ],
{
    let mut text = owned("🇬🇧 *English Flashcard*\n\n📖 *Word:* ");
    push_str(&mut text, c.word.as_str());
    push_str(&mut text, " ");
    push_str(&mut text, c.phonetic.as_str());
    push_str(&mut text, "\n📊 *Level:* `");
    push_str(&mut text, c.level.as_str());
    push_str(&mut text, "`\n\n🇷🇺 *Translation:* ");
    push_str(&mut text, c.translation_ru.as_str());
    push_str(&mut text, "\n\n💬 *Example:* ");
    push_str(&mut text, c.example_en.as_str());
    push_str(&mut text, "\n_");
    push_str(&mut text, c.example_ru.as_str());
    push_str(&mut text, "_");
    let options = buttons(&[("🟢 Next Flashcard", "eng:next"), ("🎯 Take Quiz", "eng:quiz"), ("🤖 AI Practice", "eng:tutor")]);
    PluginResponse::Keyboard { text, options }
}

/// A quiz question: the word, its phonetics and level, and one button per
/// option telling whether it is the card's translation.
pub fn quiz_response(c: &VocabCard, options: Vec<String>) -> (r: PluginResponse)
    ensures
        r matches PluginResponse::Keyboard { text, options: kb } && text@ == "🇬🇧 *English Quiz*\n\nWord: *"@
            + c.word@ + "* "@ + c.phonetic@ + "\nLevel: `"@ + c.level@ + "`\n\nChoose the correct translation:"@
            && button_views(kb@) == views(options@).map_values(
            |o: Seq<char>|
                (o, if o == c.translation_ru@ { "eng:ans:correct:"@ + c.word@ } else { "eng:ans:wrong:"@ + c.word@ }),
        ),
{
    let mut text = owned("🇬🇧 *English Quiz*\n\nWord: *");
    push_str(&mut text, c.word.as_str());
    push_str(&mut text, "* ");
    push_str(&mut text, c.phonetic.as_str());
    push_str(&mut text, "\nLevel: `");
    push_str(&mut text, c.level.as_str());
    push_str(&mut text, "`\n\nChoose the correct translation:");
    let ghost ov = views(options@);
    let mut kb: Vec<Button> = Vec::new();
    let mut i: usize = 0;
    while i < options.len()
        invariant
            i <= options.len(),
            ov == views(options@),
            button_views(kb@) == ov.take(i as int).map_values(
                |o: Seq<char>|
                    (o, if o == c.translation_ru@ { "eng:ans:correct:"@ + c.word@ } else { "eng:ans:wrong:"@ + c.word@ }),
            ),
        decreases options.len() - i,
    {
        let o = options[i].clone();
        let data = if str_eq(o.as_str(), c.translation_ru.as_str()) {
            let mut d = owned("eng:ans:correct:");
            push_str(&mut d, c.word.as_str());
            d
        } else {
            let mut d = owned("eng:ans:wrong:");
            push_str(&mut d, c.word.as_str());
            d
        };
        let ghost prev = kb@;
        kb.push((o, data));
        assert(button_views(kb@) =~= button_views(prev).push((o@, data@)));
        assert(ov.take(i + 1) =~= ov.take(i as int).push(o@));
        i = i + 1;
    }
    assert(ov.take(options.len() as int) =~= ov);
    PluginResponse::Keyboard { text, options: kb }
}

/// What a tutor button asks for.
#[derive(PartialEq, Eq, Structural, Clone, Copy, Debug)]
pub enum TutorCallback {
    NextCard,
    Quiz,
    Tutor,
    Correct,
    Wrong,
    Other,
}

/// What a tutor button's data asks for, with the word of an answer.
pub open spec fn tutor_callback_spec(data: Seq<char>) -> (TutorCallback, Seq<char>) {
    if has_prefix(data, "eng:"@) {
        let rest = data.skip(4);
        if rest == "next"@ {
            (TutorCallback::NextCard, Seq::empty())
        } else if rest == "quiz"@ {
            (TutorCallback::Quiz, Seq::empty())
        } else if rest == "tutor"@ {
            (TutorCallback::Tutor, Seq::empty())
        } else if has_prefix(rest, "ans:"@) {
            let ans = rest.skip(4);
            if has_prefix(ans, "correct:"@) {
                (TutorCallback::Correct, ans.skip(8))
            } else if has_prefix(ans, "wrong:"@) {
                (TutorCallback::Wrong, ans.skip(6))
            } else {
                (TutorCallback::Other, Seq::empty())
            }
        } else {
            (TutorCallback::Other, Seq::empty())
        }
    } else {
        (TutorCallback::Other, Seq::empty())
    }
}

fn rest_after(s: &str, n: usize) -> (r: String)
    requires
        n <= s@.len(),
    ensures
        r@ == s@.skip(n as int),
{
    let v = chars_of(s);
    let r = crate::text::string_from_range(v.as_slice(), n, v.len());
    assert(r@ =~= s@.skip(n as int));
    r
}

/// What a tutor button's data asks for (see `tutor_callback_spec`).
pub fn tutor_callback(data: &str) -> (r: (TutorCallback, String))
    ensures
        (r.0, r.1@) == tutor_callback_spec(data@),
{
    proof {
        reveal_strlit("eng:");
        reveal_strlit("ans:");
        reveal_strlit("correct:");
        reveal_strlit("wrong:");
        reveal_strlit("");
    }
    if !str_starts_with(data, "eng:") {
        return (TutorCallback::Other, String::new());
    }
    let rest = rest_after(data, 4);
    if str_eq(rest.as_str(), "next") {
        (TutorCallback::NextCard, String::new())
    } else if str_eq(rest.as_str(), "quiz") {
        (TutorCallback::Quiz, String::new())
    } else if str_eq(rest.as_str(), "tutor") {
        (TutorCallback::Tutor, String::new())
    } else if str_starts_with(rest.as_str(), "ans:") {
        let ans = rest_after(rest.as_str(), 4);
        if str_starts_with(ans.as_str(), "correct:") {
            (TutorCallback::Correct, rest_after(ans.as_str(), 8))
        } else if str_starts_with(ans.as_str(), "wrong:") {
            (TutorCallback::Wrong, rest_after(ans.as_str(), 6))
        } else {
            (TutorCallback::Other, String::new())
        }
    } else {
        (TutorCallback::Other, String::new())
    }
}

/// The answer to a right or wrong quiz choice.
pub fn answer_response(correct: bool, word: &str) -> (r: PluginResponse)
    ensures
        r matches PluginResponse::Keyboard { text, options } && (if correct {
            text@ == "✅ *Correct!* You got it right for *"@ + word@ + "*!\n\nKeep practicing!"@
                && button_views(options@) == seq![("🟢 Next Flashcard"@, "eng:next"@), ("🎯 Another Quiz"@, "eng:quiz"@)]
        } else {
            text@ == "❌ *Not quite!* Try again or check the flashcard for *"@ + word@ + "*."@
                && button_views(options@) == seq![("🎯 Try Another Quiz"@, "eng:quiz"@), ("🟢 View Flashcards"@, "eng:next"@)]
        }),
{
    if correct {
        let mut text = owned("✅ *Correct!* You got it right for *");
        push_str(&mut text, word);
        push_str(&mut text, "*!\n\nKeep practicing!");
        let options = buttons(&[("🟢 Next Flashcard", "eng:next"), ("🎯 Another Quiz", "eng:quiz")]);
        PluginResponse::Keyboard { text, options }
    } else {
        let mut text = owned("❌ *Not quite!* Try again or check the flashcard for *");
        push_str(&mut text, word);
        push_str(&mut text, "*.");
        let options = buttons(&[("🎯 Try Another Quiz", "eng:quiz"), ("🟢 View Flashcards", "eng:next")]);
        PluginResponse::Keyboard { text, options }
    }
}

// ── Commands ────────────────────────────────────────────────

/// What a tutor command asks for.
pub enum TutorPlan {
    /// A quiz question.
    Quiz,
    /// A flashcard.
    Flashcard,
    /// The grammar check of this sentence, or its usage when empty.
    Grammar(String),
    /// A tutor dialogue on this message, or its usage when empty.
    Tutor(String),
    /// Not a tutor command.
    Ignored,
}

pub open spec fn tutor_plan_view(p: TutorPlan) -> (int, Seq<char>) {
    match p {
        TutorPlan::Quiz => (0, Seq::empty()),
        TutorPlan::Flashcard => (1, Seq::empty()),
        TutorPlan::Grammar(t) => (2, t@),
        TutorPlan::Tutor(t) => (3, t@),
        TutorPlan::Ignored => (4, Seq::empty()),
    }
}

/// What a tutor command asks for: the vocabulary commands give a quiz when
/// the command or its first argument is `quiz` and a flashcard otherwise;
/// `grammar`, `tutor` and `practice` take their arguments joined by spaces.
pub open spec fn tutor_plan_spec(cmd: Seq<char>, args: Seq<Seq<char>>) -> (int, Seq<char>) {
    if cmd == "english"@ || cmd == "eng"@ || cmd == "vocab"@ || cmd == "quiz"@ {
        if cmd == "quiz"@ || (args.len() > 0 && args[0] == "quiz"@) {
            (0, Seq::empty())
        } else {
            (1, Seq::empty())
        }
    } else if cmd == "grammar"@ {
        (2, join_spec(args, " "@))
    } else if cmd == "tutor"@ || cmd == "practice"@ {
        (3, join_spec(args, " "@))
    } else {
        (4, Seq::empty())
    }
}

/// What a tutor command asks for (see `tutor_plan_spec`).
pub fn tutor_command(cmd: &str, args: &Vec<String>) -> (r: TutorPlan)
    ensures
        tutor_plan_view(r) == tutor_plan_spec(cmd@, views(args@)),
{
    if str_eq(cmd, "english") || str_eq(cmd, "eng") || str_eq(cmd, "vocab") || str_eq(cmd, "quiz") {
        if str_eq(cmd, "quiz") || (args.len() > 0 && str_eq(args[0].as_str(), "quiz")) {
            TutorPlan::Quiz
        } else {
            TutorPlan::Flashcard
        }
    } else if str_eq(cmd, "grammar") {
        TutorPlan::Grammar(join(args, " "))
    } else if str_eq(cmd, "tutor") || str_eq(cmd, "practice") {
        TutorPlan::Tutor(join(args, " "))
    } else {
        TutorPlan::Ignored
    }
}

/// How to use the grammar check.
pub fn grammar_usage() -> (r: &'static str)
    ensures
        r@ == "📝 *Gemini Grammar Analyzer*\n\nUsage: `/grammar <your English sentence>`\nExample: `/grammar I has been working on this project`"@,
{
    "📝 *Gemini Grammar Analyzer*\n\nUsage: `/grammar <your English sentence>`\nExample: `/grammar I has been working on this project`"
}

/// How to use the tutor dialogue.
pub fn tutor_usage() -> (r: &'static str)
    ensures
        r@ == "🇬🇧 *Gemini AI English Tutor*\n\nUsage: `/tutor <your message in English>`\nExample: `/tutor Hi! I want to practice speaking about tech and software development.`"@,
{
    "🇬🇧 *Gemini AI English Tutor*\n\nUsage: `/tutor <your message in English>`\nExample: `/tutor Hi! I want to practice speaking about tech and software development.`"
}

/// The answer to the practice button.
pub fn tutor_intro() -> (r: &'static str)
    ensures
        r@ == "🤖 *Gemini AI Conversation Tutor*\n\nSend any sentence starting with `/tutor <message>` to chat in English and receive corrections!"@,
{
    "🤖 *Gemini AI Conversation Tutor*\n\nSend any sentence starting with `/tutor <message>` to chat in English and receive corrections!"
}

} // verus!
