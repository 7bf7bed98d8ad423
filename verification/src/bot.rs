//! The Telegram bot's decisions: commands, callbacks, menus, message routing
//! and the per-user dialogue state.

use vstd::prelude::*;
use std::collections::HashMap;
use crate::fetch::opt_seq;
use crate::text::{
    chars_of, dec, has_prefix, join, join_spec, owned, push_dec, push_str, replace_spec, replace_str,
    split, split_spec, split_whitespace, str_eq, str_starts_with, take_chars, take_first_chars,
    trim_start_matching, trim_start_set, views, words_spec, CharSet, slice_contains_u64,
};

verus! {

// ── Per-user state ──────────────────────────────────────────

/// The dialogue state of each user, by user id.
pub struct StateManager<S> {
    pub states: HashMap<u64, S>,
}

impl<S> StateManager<S> {
    pub open spec fn view(&self) -> Map<u64, S> {
        self.states@
    }

    /// No user has a state yet.
    pub fn new() -> (r: Self)
        ensures
            r.view() == Map::<u64, S>::empty(),
    {
        StateManager { states: HashMap::new() }
    }

    /// The state of a user, if one was set.
    pub fn get(&self, user_id: u64) -> (r: Option<&S>)
        ensures
            match r {
                Some(s) => self.view().contains_key(user_id) && self.view()[user_id] == *s,
                None => !self.view().contains_key(user_id),
            },
    {
        broadcast use vstd::std_specs::hash::group_hash_axioms;

        self.states.get(&user_id)
    }

    /// Set the state of a user; other users keep theirs.
    pub fn set(&mut self, user_id: u64, state: S)
        ensures
            final(self).view() == old(self).view().insert(user_id, state),
    {
        broadcast use vstd::std_specs::hash::group_hash_axioms;

        self.states.insert(user_id, state);
    }

    /// Forget the state of a user (back to idle); other users keep theirs.
    pub fn reset(&mut self, user_id: u64)
        ensures
            final(self).view() == old(self).view().remove(user_id),
    {
        broadcast use vstd::std_specs::hash::group_hash_axioms;

        self.states.remove(&user_id);
    }
}

/// A state just set is the one read back; a reset user has none; neither
/// touches another user's state.
pub proof fn lemma_state_set_get<S>(m: Map<u64, S>, u: u64, v: u64, s: S)
    ensures
        m.insert(u, s).contains_key(u) && m.insert(u, s)[u] == s,
        !m.remove(u).contains_key(u),
        u != v ==> m.insert(u, s).contains_key(v) == m.contains_key(v),
        u != v && m.contains_key(v) ==> m.insert(u, s)[v] == m[v] && m.remove(u)[v] == m[v],
{
}

// ── Access ──────────────────────────────────────────────────

/// Only users on a non-empty allow-list may use the bot.
pub open spec fn may_use(allowed: Seq<u64>, user: u64) -> bool {
    allowed.len() > 0 && allowed.contains(user)
}

/// Whether a user may use the bot (see `may_use`).
pub fn is_allowed(allowed: &[u64], user: u64) -> (b: bool)
    ensures
        b == may_use(allowed@, user),
{
    allowed.len() > 0 && slice_contains_u64(allowed, user)
}

// ── Commands ────────────────────────────────────────────────

/// The command word of a message (before any `@bot` suffix) and its arguments
/// joined by single spaces.
pub open spec fn parse_command_spec(text: Seq<char>) -> (Seq<char>, Seq<char>) {
    let ws = words_spec(text);
    let raw = if ws.len() > 0 {
        ws[0]
    } else {
        Seq::empty()
    };
    (split_spec(raw, '@')[0], join_spec(if ws.len() > 0 { ws.skip(1) } else { ws }, " "@))
}

proof fn lemma_split_nonempty(s: Seq<char>, c: char)
    ensures
        split_spec(s, c).len() > 0,
    decreases s.len(),
{
    if s.len() > 0 {
        lemma_split_nonempty(s.drop_last(), c);
    }
}

/// The command word and arguments of a message (see `parse_command_spec`).
pub fn parse_command(text: &str) -> (r: (String, String))
    ensures
        (r.0@, r.1@) == parse_command_spec(text@),
{
    let ws = split_whitespace(text);
    let raw = if ws.len() > 0 {
        ws[0].clone()
    } else {
        String::new()
    };
    let pieces = split(raw.as_str(), '@');
    proof {
        lemma_split_nonempty(raw@, '@');
    }
    let cmd = pieces[0].clone();
    let mut rest: Vec<String> = Vec::new();
    let start: usize = if ws.len() > 0 {
        1
    } else {
        0
    };
    let mut i: usize = start;
    assert(views(rest@) =~= views(ws@).subrange(start as int, i as int));
    while i < ws.len()
        invariant
            start <= i <= ws.len(),
            start <= 1,
            views(rest@) == views(ws@).subrange(start as int, i as int),
        decreases ws.len() - i,
    {
        let ghost prev = rest@;
        let w = ws[i].clone();
        rest.push(w);
        assert(views(rest@) =~= views(prev).push(w@));
        assert(views(rest@) =~= views(ws@).subrange(start as int, i + 1));
        i = i + 1;
    }
    assert(views(ws@).subrange(start as int, ws@.len() as int) =~= (if views(ws@).len() > 0 {
        views(ws@).skip(1)
    } else {
        views(ws@)
    }));
    let args = join(&rest, " ");
    (cmd, args)
}

/// The commands the bot knows.
#[derive(PartialEq, Eq, Structural, Clone, Copy, Debug)]
pub enum CommandKind {
    Start,
    Help,
    Cancel,
    Vault,
    App,
    Diary,
    Search,
    Analytics,
    Viz,
    Today,
    Stats,
    Metrics,
    Debug,
    Rebuild,
    Delete,
    /// Anything else goes to the plugins.
    Other,
}

pub open spec fn command_kind_spec(cmd: Seq<char>) -> CommandKind {
    if cmd == "/start"@ {
        CommandKind::Start
    } else if cmd == "/help"@ {
        CommandKind::Help
    } else if cmd == "/cancel"@ {
        CommandKind::Cancel
    } else if cmd == "/base"@ || cmd == "/vault"@ || cmd == "/vaults"@ {
        CommandKind::Vault
    } else if cmd == "/app"@ || cmd == "/webapp"@ {
        CommandKind::App
    } else if cmd == "/diary"@ {
        CommandKind::Diary
    } else if cmd == "/search"@ {
        CommandKind::Search
    } else if cmd == "/analytics"@ {
        CommandKind::Analytics
    } else if cmd == "/viz"@ {
        CommandKind::Viz
    } else if cmd == "/today"@ {
        CommandKind::Today
    } else if cmd == "/stats"@ {
        CommandKind::Stats
    } else if cmd == "/metrics"@ {
        CommandKind::Metrics
    } else if cmd == "/debug"@ {
        CommandKind::Debug
    } else if cmd == "/rebuild"@ {
        CommandKind::Rebuild
    } else if cmd == "/delete"@ || cmd == "/del"@ || cmd == "/rm"@ {
        CommandKind::Delete
    } else {
        CommandKind::Other
    }
}

/// Which command a command word names.
pub fn command_kind(cmd: &str) -> (r: CommandKind)
    ensures
        r == command_kind_spec(cmd@),
{
    if str_eq(cmd, "/start") {
        CommandKind::Start
    } else if str_eq(cmd, "/help") {
        CommandKind::Help
    } else if str_eq(cmd, "/cancel") {
        CommandKind::Cancel
    } else if str_eq(cmd, "/base") || str_eq(cmd, "/vault") || str_eq(cmd, "/vaults") {
        CommandKind::Vault
    } else if str_eq(cmd, "/app") || str_eq(cmd, "/webapp") {
        CommandKind::App
    } else if str_eq(cmd, "/diary") {
        CommandKind::Diary
    } else if str_eq(cmd, "/search") {
        CommandKind::Search
    } else if str_eq(cmd, "/analytics") {
        CommandKind::Analytics
    } else if str_eq(cmd, "/viz") {
        CommandKind::Viz
    } else if str_eq(cmd, "/today") {
        CommandKind::Today
    } else if str_eq(cmd, "/stats") {
        CommandKind::Stats
    } else if str_eq(cmd, "/metrics") {
        CommandKind::Metrics
    } else if str_eq(cmd, "/debug") {
        CommandKind::Debug
    } else if str_eq(cmd, "/rebuild") {
        CommandKind::Rebuild
    } else if str_eq(cmd, "/delete") || str_eq(cmd, "/del") || str_eq(cmd, "/rm") {
        CommandKind::Delete
    } else {
        CommandKind::Other
    }
}

/// The first word of the arguments, if any.
pub fn first_arg(args: &str) -> (r: Option<String>)
    ensures
        opt_seq(r) == (if words_spec(args@).len() > 0 {
            Some(words_spec(args@)[0])
        } else {
            None
        }),
{
    let ws = split_whitespace(args);
    if ws.len() > 0 {
        Some(ws[0].clone())
    } else {
        None
    }
}

/// What a plugin is asked: the command without its leading slashes, and the
/// argument words.
pub fn plugin_command(cmd: &str, args: &str) -> (r: (String, Vec<String>))
    ensures
        r.0@ == trim_start_set(cmd@, CharSet::Slash),
        views(r.1@) == words_spec(args@),
{
    (trim_start_matching(cmd, CharSet::Slash), split_whitespace(args))
}

/// The answer to a command nobody knows.
pub fn unknown_command_message(cmd: &str) -> (r: String)
    ensures
        r@ == "❓ <b>Неизвестная команда:</b> <code>"@ + cmd@
            + "</code>\n\nИспользуйте /help для просмотра списка команд."@,
{
    let mut s = owned("❓ <b>Неизвестная команда:</b> <code>");
    push_str(&mut s, cmd);
    push_str(&mut s, "</code>\n\nИспользуйте /help для просмотра списка команд.");
    s
}

// ── Command replies ─────────────────────────────────────────

/// The greeting of `/start`: what the bot can do.
pub fn start_message() -> (r: &'static str)
    ensures
        r@ == "🧠 <b>Привет! Я NodeBook — ваша персональная операционная система знаний и медиа.</b>\n\nЯ объединяю хранилище Obsidian (PARA), вечерний дневник, трекинг аналитики, мультимедиа-загрузчик FSocial и Web Mini App.\n\n<b>Возможности:</b>\n• 💬 <i>Отправьте любую мысль или заметку</i> — сохраню в Obsidian.\n• 🔗 <i>Отправьте ссылку на видео или трек</i> (YouTube, Spotify, TikTok, Reels, SoundCloud, VK) — скачаю сразу в лучшем качестве!\n• 📹 <code>/dl &lt;ссылка&gt;</code> — скачать видео в высоком разрешении.\n• 🎵 <code>/mp3 &lt;ссылка&gt;</code> — скачать аудио с обложкой в 320 kbps.\n• 📱 <code>/app</code> — открыть Web Mini App (музыкальный плеер Spotify, видео-хаб, чистый просмотр заметок).\n• 📖 <code>/diary</code> — вечерний опросник и рефлексия.\n• 🔍 <code>/search</code> — быстрый поиск по базе знаний.\n\nИспользуйте меню команд или кнопки внизу чата!"@,
{
    "🧠 <b>Привет! Я NodeBook — ваша персональная операционная система знаний и медиа.</b>\n\nЯ объединяю хранилище Obsidian (PARA), вечерний дневник, трекинг аналитики, мультимедиа-загрузчик FSocial и Web Mini App.\n\n<b>Возможности:</b>\n• 💬 <i>Отправьте любую мысль или заметку</i> — сохраню в Obsidian.\n• 🔗 <i>Отправьте ссылку на видео или трек</i> (YouTube, Spotify, TikTok, Reels, SoundCloud, VK) — скачаю сразу в лучшем качестве!\n• 📹 <code>/dl &lt;ссылка&gt;</code> — скачать видео в высоком разрешении.\n• 🎵 <code>/mp3 &lt;ссылка&gt;</code> — скачать аудио с обложкой в 320 kbps.\n• 📱 <code>/app</code> — открыть Web Mini App (музыкальный плеер Spotify, видео-хаб, чистый просмотр заметок).\n• 📖 <code>/diary</code> — вечерний опросник и рефлексия.\n• 🔍 <code>/search</code> — быстрый поиск по базе знаний.\n\nИспользуйте меню команд или кнопки внизу чата!"
}

/// The answer to `/help`: every command.
pub fn help_message() -> (r: &'static str)
    ensures
        r@ == "📋 <b>Полный справочник возможностей системы:</b>\n\n<b>База знаний и дневник:</b>\n/start — Главное меню и приветствие\n/app — Открыть Web Mini App (Spotify плеер, видео, база)\n/base — Управление хранилищами Obsidian\n/diary — Запустить вечерний обзор дня\n/search — Поиск по вашей базе знаний\n/today — Посмотреть сегодняшнюю дневниковую заметку\n/stats — Статистика заметок и времени жизни\n/analytics — Меню детальной аналитики и графиков\n/viz — Генерация наглядных чартов и Life Wheel\n/cancel — Отменить текущее действие\n\n<b>Медиа-загрузчик (FSocial Engine):</b>\n/grammar <code>&lt;фраза&gt;</code> — Анализ грамматики через Gemini AI\n/tutor <code>&lt;сообщение&gt;</code> — Диалог на английском с AI-репетитором\n\n<b>Разработчикам и диагностика:</b>\n/metrics — Метрики пайплайна и резолвера\n/debug <code>&lt;event_id&gt;</code> — Трейс обработки события\n/rebuild <code>&lt;event_id&gt;</code> — Переобработать событие"@,
{
    "📋 <b>Полный справочник возможностей системы:</b>\n\n<b>База знаний и дневник:</b>\n/start — Главное меню и приветствие\n/app — Открыть Web Mini App (Spotify плеер, видео, база)\n/base — Управление хранилищами Obsidian\n/diary — Запустить вечерний обзор дня\n/search — Поиск по вашей базе знаний\n/today — Посмотреть сегодняшнюю дневниковую заметку\n/stats — Статистика заметок и времени жизни\n/analytics — Меню детальной аналитики и графиков\n/viz — Генерация наглядных чартов и Life Wheel\n/cancel — Отменить текущее действие\n\n<b>Медиа-загрузчик (FSocial Engine):</b>\n/grammar <code>&lt;фраза&gt;</code> — Анализ грамматики через Gemini AI\n/tutor <code>&lt;сообщение&gt;</code> — Диалог на английском с AI-репетитором\n\n<b>Разработчикам и диагностика:</b>\n/metrics — Метрики пайплайна и резолвера\n/debug <code>&lt;event_id&gt;</code> — Трейс обработки события\n/rebuild <code>&lt;event_id&gt;</code> — Переобработать событие"
}

/// The answer to `/cancel`.
pub fn cancelled_message() -> (r: &'static str)
    ensures
        r@ == "✅ <b>Действие отменено.</b> Возврат в главное меню."@,
{
    "✅ <b>Действие отменено.</b> Возврат в главное меню."
}

/// The request for a search query.
pub fn search_prompt() -> (r: &'static str)
    ensures
        r@ == "🔍 <b>Поиск по вашей базе знаний</b>\n\nВведите фразу или ключевые слова для поиска (например, <i>проект</i>, <i>здоровье</i> или <i>цели</i>):"@,
{
    "🔍 <b>Поиск по вашей базе знаний</b>\n\nВведите фразу или ключевые слова для поиска (например, <i>проект</i>, <i>здоровье</i> или <i>цели</i>):"
}

/// The note above the button that opens the web app.
pub fn webapp_launch_prompt() -> (r: &'static str)
    ensures
        r@ == "🚀 <b>Запуск Telegram Mini App:</b>"@,
{
    "🚀 <b>Запуск Telegram Mini App:</b>"
}

/// The answer to `/app`: the web app's description once it has an address,
/// or a request to try again while the tunnel is starting.
pub fn webapp_message(has_address: bool) -> (r: &'static str)
    ensures
        r@ == (if has_address {
            "📱 <b>NodeBook Web App & Mini App</b>\n\nНажмите кнопку ниже, чтобы запустить приложение прямо внутри Telegram:\n• 🎵 <b>Spotify Player:</b> музыка с обложками\n• 📹 <b>Медиа Галерея:</b> просмотр и загрузка видео\n• 📖 <b>База Знаний:</b> чистое чтение и свойства"@
        } else {
            "⏳ <b>Инициализация защищенного HTTPS туннеля...</b>\nПожалуйста, повторите команду <code>/app</code> через пару секунд."@
        }),
{
    if has_address {
        "📱 <b>NodeBook Web App & Mini App</b>\n\nНажмите кнопку ниже, чтобы запустить приложение прямо внутри Telegram:\n• 🎵 <b>Spotify Player:</b> музыка с обложками\n• 📹 <b>Медиа Галерея:</b> просмотр и загрузка видео\n• 📖 <b>База Знаний:</b> чистое чтение и свойства"
    } else {
        "⏳ <b>Инициализация защищенного HTTPS туннеля...</b>\nПожалуйста, повторите команду <code>/app</code> через пару секунд."
    }
}

/// How a command that needs an argument is used, for `/debug`, `/rebuild`
/// and `/delete`; empty for the others.
pub open spec fn usage_spec(kind: CommandKind) -> Seq<char> {
    match kind {
        CommandKind::Debug => "⚠️ Укажите event_id: <code>/debug &lt;event_id&gt;</code>"@,
        CommandKind::Rebuild => "Укажите event_id: <code>/rebuild &lt;event_id&gt;</code>"@,
        CommandKind::Delete => "Укажите ID или путь: <code>/delete &lt;id_or_path&gt;</code>"@,
        _ => Seq::empty(),
    }
}

/// How a command that needs an argument is used (see `usage_spec`).
pub fn command_usage(kind: CommandKind) -> (r: &'static str)
    ensures
        r@ == usage_spec(kind),
{
    proof {
        reveal_strlit("");
    }
    match kind {
        CommandKind::Debug => "⚠️ Укажите event_id: <code>/debug &lt;event_id&gt;</code>",
        CommandKind::Rebuild => "Укажите event_id: <code>/rebuild &lt;event_id&gt;</code>",
        CommandKind::Delete => "Укажите ID или путь: <code>/delete &lt;id_or_path&gt;</code>",
        _ => "",
    }
}

/// The words before the error of a failed command: reading statistics,
/// metrics or a trace, queueing an event again, deleting a record, or searching.
pub open spec fn error_head(kind: CommandKind) -> Seq<char> {
    match kind {
        CommandKind::Stats => "❌ Ошибка получения статистики: "@,
        CommandKind::Metrics => "❌ Ошибка получения метрик: "@,
        CommandKind::Debug => "❌ Ошибка: "@,
        CommandKind::Rebuild => "Ошибка при ребилде: "@,
        CommandKind::Delete => "Ошибка при удалении записи: "@,
        CommandKind::Search => "❌ Ошибка поиска: "@,
        _ => "❌ Ошибка: "@,
    }
}

/// The answer to a command that failed with `err` (see `error_head`).
pub fn command_error_message(kind: CommandKind, err: &str) -> (r: String)
    ensures
        r@ == error_head(kind) + err@,
{
    let mut s = match kind {
        CommandKind::Stats => owned("❌ Ошибка получения статистики: "),
        CommandKind::Metrics => owned("❌ Ошибка получения метрик: "),
        CommandKind::Debug => owned("❌ Ошибка: "),
        CommandKind::Rebuild => owned("Ошибка при ребилде: "),
        CommandKind::Delete => owned("Ошибка при удалении записи: "),
        CommandKind::Search => owned("❌ Ошибка поиска: "),
        _ => owned("❌ Ошибка: "),
    };
    push_str(&mut s, err);
    s
}

/// The answer once an event is queued again.
pub fn rebuild_started_message(event_id: &str) -> (r: String)
    ensures
        r@ == "Событие "@ + event_id@ + " отправлено на повторную обработку."@,
{
    let mut s = owned("Событие ");
    push_str(&mut s, event_id);
    push_str(&mut s, " отправлено на повторную обработку.");
    s
}

/// The answer once a record is deleted everywhere.
pub fn deleted_message(target: &str) -> (r: String)
    ensures
        r@ == "Запись '"@ + target@ + "' успешно удалена из всех баз данных и хранилищ."@,
{
    let mut s = owned("Запись '");
    push_str(&mut s, target);
    push_str(&mut s, "' успешно удалена из всех баз данных и хранилищ.");
    s
}

/// The answer to `/stats`: the life statistics, the number of notes and the vault.
pub fn stats_message(life_stats: &str, total_notes: u64, vault_path: &str) -> (r: String)
    ensures
        r@ == life_stats@ + "\n\n📝 <b>Всего заметок в вашей базе Obsidian:</b> "@ + dec(total_notes as nat) + "\n📁 <b>Путь к хранилищу:</b> <code>"@ + vault_path@ + "</code>\n\n💡 <i>Для детального анализа записей, настроения и графа связей нажмите кнопку <b>«📊 Аналитика»</b>.</i>"@,
{
    let mut s = owned(life_stats);
    push_str(&mut s, "\n\n📝 <b>Всего заметок в вашей базе Obsidian:</b> ");
    push_dec(&mut s, total_notes);
    push_str(&mut s, "\n📁 <b>Путь к хранилищу:</b> <code>");
    push_str(&mut s, vault_path);
    push_str(&mut s, "</code>\n\n💡 <i>Для детального анализа записей, настроения и графа связей нажмите кнопку <b>«📊 Аналитика»</b>.</i>");
    s
}


/// The text above an analytics menu; empty for what is no menu.
pub open spec fn analytics_menu_spec(a: AnalyticsAction) -> Seq<char> {
    match a {
        AnalyticsAction::MainMenu => "📊 <b>Центр Аналитики и Визуализации</b>\n\nВыберите раздел:"@,
        AnalyticsAction::StatsMenu => "📈 <b>Статистика:</b>\nВыберите период:"@,
        AnalyticsAction::AiMenu => "🧠 <b>AI Инсайты:</b>\nВыберите период для анализа:"@,
        AnalyticsAction::VizMenu => "🎨 <b>Визуализация:</b>\nВыберите тип:"@,
        _ => Seq::empty(),
    }
}

/// The text above an analytics menu (see `analytics_menu_spec`).
pub fn analytics_menu_text(a: AnalyticsAction) -> (r: &'static str)
    ensures
        r@ == analytics_menu_spec(a),
{
    proof {
        reveal_strlit("");
    }
    match a {
        AnalyticsAction::MainMenu => "📊 <b>Центр Аналитики и Визуализации</b>\n\nВыберите раздел:",
        AnalyticsAction::StatsMenu => "📈 <b>Статистика:</b>\nВыберите период:",
        AnalyticsAction::AiMenu => "🧠 <b>AI Инсайты:</b>\nВыберите период для анализа:",
        AnalyticsAction::VizMenu => "🎨 <b>Визуализация:</b>\nВыберите тип:",
        _ => "",
    }
}

/// The vault graph report under its heading.
pub fn graph_message(report: &str) -> (r: String)
    ensures
        r@ == "🕸 <b>Структура Графа Знаний Obsidian:</b>\n\n"@ + report@,
{
    let mut s = owned("🕸 <b>Структура Графа Знаний Obsidian:</b>\n\n");
    push_str(&mut s, report);
    s
}

/// An insight saved earlier today, under its heading.
pub fn saved_insights_message(today: &str, body: &str) -> (r: String)
    ensures
        r@ == "🧠 <b>Сохранённые AI Инсайты за "@ + today@ + ":</b>\n\n"@ + body@,
{
    let mut s = owned("🧠 <b>Сохранённые AI Инсайты за ");
    push_str(&mut s, today);
    push_str(&mut s, ":</b>\n\n");
    push_str(&mut s, body);
    s
}

/// A new insight, under its heading.
pub fn new_insights_message(text: &str) -> (r: String)
    ensures
        r@ == "🧠 <b>AI Инсайты о вашей жизни:</b>\n\n"@ + text@,
{
    let mut s = owned("🧠 <b>AI Инсайты о вашей жизни:</b>\n\n");
    push_str(&mut s, text);
    s
}

/// The answer when no insight could be made.
pub fn ai_error_message(err: &str) -> (r: String)
    ensures
        r@ == "❌ Ошибка AI: "@ + err@,
{
    let mut s = owned("❌ Ошибка AI: ");
    push_str(&mut s, err);
    s
}

/// The answer to a message from someone off the allow-list.
pub fn denied_message() -> (r: &'static str)
    ensures
        r@ == "🔒 <b>Доступ запрещён.</b>\nЭто приватная система управления владельца."@,
{
    "🔒 <b>Доступ запрещён.</b>\nЭто приватная система управления владельца."
}

/// The answer to a button pressed by someone off the allow-list.
pub fn denied_callback_text() -> (r: &'static str)
    ensures
        r@ == "🔒 Доступ запрещён."@,
{
    "🔒 Доступ запрещён."
}

/// The notice shown while a new thought is classified.
pub fn processing_message() -> (r: &'static str)
    ensures
        r@ == "⏳ <b>Анализирую и классифицирую...</b>\n<i>Мысль сохранена, обрабатываю в фоне →</i> Obsidian"@,
{
    "⏳ <b>Анализирую и классифицирую...</b>\n<i>Мысль сохранена, обрабатываю в фоне →</i> Obsidian"
}

/// The answer to text appended to an entry: the entry was not found, the
/// append failed with an error, or it succeeded.
pub open spec fn append_reply_spec(found: bool, error: Option<Seq<char>>) -> Seq<char> {
    if !found {
        "❌ Исходная запись не найдена."@
    } else {
        match error {
            Some(e) => "❌ Ошибка при дополнении: "@ + e,
            None => "✅ Запись успешно дополнена!"@,
        }
    }
}

/// The answer to text appended to an entry (see `append_reply_spec`).
pub fn append_reply(found: bool, error: Option<&str>) -> (r: String)
    ensures
        r@ == append_reply_spec(found, match error {
            Some(e) => Some(e@),
            None => None,
        }),
{
    if !found {
        owned("❌ Исходная запись не найдена.")
    } else {
        match error {
            Some(e) => {
                let mut s = owned("❌ Ошибка при дополнении: ");
                push_str(&mut s, e);
                s
            },
            None => owned("✅ Запись успешно дополнена!"),
        }
    }
}

/// What kind of media failed to send.
#[derive(PartialEq, Eq, Structural, Clone, Copy, Debug)]
pub enum SentMedia {
    Photo,
    Slideshow,
    Audio,
    Video,
}

/// The words before the error of media that failed to send.
pub open spec fn send_error_head(k: SentMedia) -> Seq<char> {
    match k {
        SentMedia::Photo => "❌ Ошибка отправки фото: "@,
        SentMedia::Slideshow => "❌ Ошибка отправки слайдшоу: "@,
        SentMedia::Audio => "❌ Ошибка отправки аудио: "@,
        SentMedia::Video => "❌ Ошибка отправки видео: "@,
    }
}

/// The answer when media failed to send (see `send_error_head`).
pub fn send_error_message(k: SentMedia, err: &str) -> (r: String)
    ensures
        r@ == send_error_head(k) + err@,
{
    let mut s = match k {
        SentMedia::Photo => owned("❌ Ошибка отправки фото: "),
        SentMedia::Slideshow => owned("❌ Ошибка отправки слайдшоу: "),
        SentMedia::Audio => owned("❌ Ошибка отправки аудио: "),
        SentMedia::Video => owned("❌ Ошибка отправки видео: "),
    };
    push_str(&mut s, err);
    s
}

/// The answer when a plugin names a media file that does not exist.
pub fn missing_media_message(path: &str) -> (r: String)
    ensures
        r@ == "❌ Медиа файл не найден: "@ + path@,
{
    let mut s = owned("❌ Медиа файл не найден: ");
    push_str(&mut s, path);
    s
}

/// The notice that a playlist's tracks are being sent.
pub fn playlist_found_message(total: u64) -> (r: String)
    ensures
        r@ == "⏳ Найдено <b>"@ + dec(total as nat) + "</b> треков в плейлисте. Отправляю..."@,
{
    let mut s = owned("⏳ Найдено <b>");
    push_dec(&mut s, total);
    push_str(&mut s, "</b> треков в плейлисте. Отправляю...");
    s
}

/// The notice that a playlist was sent in full.
pub fn playlist_loaded_message(total: u64) -> (r: String)
    ensures
        r@ == "✅ <b>Плейлист полностью загружен!</b> ("@ + dec(total as nat) + " треков)"@,
{
    let mut s = owned("✅ <b>Плейлист полностью загружен!</b> (");
    push_dec(&mut s, total);
    push_str(&mut s, " треков)");
    s
}

/// The answer when a playlist could not be downloaded.
pub fn playlist_error_message(err: &str) -> (r: String)
    ensures
        r@ == "❌ Ошибка загрузки плейлиста: "@ + err@,
{
    let mut s = owned("❌ Ошибка загрузки плейлиста: ");
    push_str(&mut s, err);
    s
}


// ── Escaping and long texts ─────────────────────────────────

/// Text escaped for Telegram HTML: `&`, `<` and `>` become entities (quotes stay).
pub open spec fn tg_escape_spec(s: Seq<char>) -> Seq<char> {
    replace_spec(replace_spec(replace_spec(s, "&"@, "&amp;"@), "<"@, "&lt;"@), ">"@, "&gt;"@)
}

/// Escape text for a Telegram HTML message (see `tg_escape_spec`).
pub fn tg_escape(s: &str) -> (r: String)
    ensures
        r@ == tg_escape_spec(s@),
{
    proof {
        reveal_strlit("&");
        reveal_strlit("<");
        reveal_strlit(">");
    }
    let a = replace_str(s, "&", "&amp;");
    let b = replace_str(a.as_str(), "<", "&lt;");
    replace_str(b.as_str(), ">", "&gt;")
}

/// Text escaped for a message holds no `<` or `>`: it cannot open or close a tag.
pub proof fn lemma_tg_escape_safe(s: Seq<char>)
    ensures
        !tg_escape_spec(s).contains('<'),
        !tg_escape_spec(s).contains('>'),
{
    reveal_strlit("&");
    reveal_strlit("<");
    reveal_strlit(">");
    reveal_strlit("&amp;");
    reveal_strlit("&lt;");
    reveal_strlit("&gt;");
    let a = replace_spec(s, "&"@, "&amp;"@);
    let b = replace_spec(a, "<"@, "&lt;"@);
    assert("<"@ =~= seq!['<']);
    assert(">"@ =~= seq!['>']);
    assert(!"&lt;"@.contains('<')) by {
        assert("&lt;"@ =~= seq!['&', 'l', 't', ';']);
    }
    assert(!"&gt;"@.contains('<') && !"&gt;"@.contains('>')) by {
        assert("&gt;"@ =~= seq!['&', 'g', 't', ';']);
    }
    crate::text::lemma_replace_removes(a, "<"@, "&lt;"@, '<');
    crate::text::lemma_replace_removes(b, ">"@, "&gt;"@, '<');
    crate::text::lemma_replace_removes(b, ">"@, "&gt;"@, '>');
}

/// A long text for a message: escaped, and past 3500 characters cut there and
/// followed by `suffix`.
pub open spec fn clipped_spec(s: Seq<char>, suffix: Seq<char>) -> Seq<char> {
    if s.len() > 3500 {
        tg_escape_spec(take_chars(s, 3500)) + suffix
    } else {
        tg_escape_spec(s)
    }
}

/// A long text prepared for a message (see `clipped_spec`).
pub fn clipped(s: &str, suffix: &str) -> (r: String)
    ensures
        r@ == clipped_spec(s@, suffix@),
{
    let n = chars_of(s).len();
    if n > 3500 {
        let prefix = take_first_chars(s, 3500);
        let mut out = tg_escape(prefix.as_str());
        push_str(&mut out, suffix);
        out
    } else {
        tg_escape(s)
    }
}

/// Today's diary note as a message.
pub fn today_message(date: &str, content: &str) -> (r: String)
    ensures
        r@ == "📅 <b>Запись за сегодня ("@ + date@ + "):</b>\n\n"@ + clipped_spec(
            content@,
            "\n\n<i>...обрезано</i>"@,
        ),
{
    let mut s = owned("📅 <b>Запись за сегодня (");
    push_str(&mut s, date);
    push_str(&mut s, "):</b>\n\n");
    push_str(&mut s, clipped(content, "\n\n<i>...обрезано</i>").as_str());
    s
}

/// The answer when today has no diary note yet.
pub fn no_today_message(date: &str) -> (r: String)
    ensures
        r@ == "📭 Записи за сегодня ("@ + date@
            + ") пока нет.\n\nПросто отправьте сообщение, и оно сохранится!"@,
{
    let mut s = owned("📭 Записи за сегодня (");
    push_str(&mut s, date);
    push_str(&mut s, ") пока нет.\n\nПросто отправьте сообщение, и оно сохранится!");
    s
}

/// A processing trace as a message.
pub fn debug_trace_message(trace: &str) -> (r: String)
    ensures
        r@ == "🛠 <b>Debug Trace</b>\n\n<pre>"@ + clipped_spec(trace@, "\n\n...обрезано"@) + "</pre>"@,
{
    let mut s = owned("🛠 <b>Debug Trace</b>\n\n<pre>");
    push_str(&mut s, clipped(trace, "\n\n...обрезано").as_str());
    push_str(&mut s, "</pre>");
    s
}

/// One search hit line.
pub open spec fn hit_line(i: nat, hit: (Seq<char>, Seq<char>)) -> Seq<char> {
    dec(i + 1) + ". 📌 <b>"@ + hit.0 + "</b>\n   <i>"@ + hit.1 + "</i>\n\n"@
}

pub open spec fn hit_lines(hits: Seq<(Seq<char>, Seq<char>)>) -> Seq<char>
    decreases hits.len(),
{
    if hits.len() == 0 {
        Seq::empty()
    } else {
        hit_lines(hits.drop_last()) + hit_line((hits.len() - 1) as nat, hits.last())
    }
}

pub open spec fn pair_views(v: Seq<(String, String)>) -> Seq<(Seq<char>, Seq<char>)> {
    v.map_values(|p: (String, String)| (p.0@, p.1@))
}

/// The search answer: nothing found, or the first ten hits (title and snippet).
pub open spec fn search_message_spec(query: Seq<char>, hits: Seq<(Seq<char>, Seq<char>)>) -> Seq<char> {
    if hits.len() == 0 {
        "🔍 По запросу «<b>"@ + query + "</b>» ничего не найдено."@
    } else {
        "🔍 <b>Результаты поиска («"@ + query + "»):</b>\n\n"@ + hit_lines(
            if hits.len() > 10 { hits.take(10) } else { hits },
        )
    }
}

/// The search answer (see `search_message_spec`).
pub fn search_results_message(query: &str, hits: &Vec<(String, String)>) -> (r: String)
    ensures
        r@ == search_message_spec(query@, pair_views(hits@)),
{
    if hits.len() == 0 {
        let mut s = owned("🔍 По запросу «<b>");
        push_str(&mut s, query);
        push_str(&mut s, "</b>» ничего не найдено.");
        return s;
    }
    let mut s = owned("🔍 <b>Результаты поиска («");
    push_str(&mut s, query);
    push_str(&mut s, "»):</b>\n\n");
    let ghost head = s@;
    let ghost hv = pair_views(hits@);
    let n: usize = if hits.len() > 10 {
        10
    } else {
        hits.len()
    };
    let mut i: usize = 0;
    while i < n
        invariant
            i <= n <= hits.len(),
            n <= 10,
            hv == pair_views(hits@),
            s@ == head + hit_lines(hv.take(i as int)),
        decreases n - i,
    {
        assert(hv.take(i + 1).drop_last() =~= hv.take(i as int));
        push_dec(&mut s, (i + 1) as u64);
        push_str(&mut s, ". 📌 <b>");
        push_str(&mut s, hits[i].0.as_str());
        push_str(&mut s, "</b>\n   <i>");
        push_str(&mut s, hits[i].1.as_str());
        push_str(&mut s, "</i>\n\n");
        assert(s@ =~= head + hit_lines(hv.take(i + 1)));
        i = i + 1;
    }
    proof {
        if hv.len() > 10 {
            assert(hv.take(10) =~= hv.take(n as int));
        } else {
            assert(hv.take(n as int) =~= hv);
        }
    }
    s
}

// ── Callbacks ───────────────────────────────────────────────

/// A callback's data split at its first `:` into prefix and value.
pub fn parse_callback(data: &str) -> (r: Option<(String, String)>)
    ensures
        match r {
            Some(p) => crate::text::split_once_spec(data@, ':') == Some((p.0@, p.1@)),
            None => crate::text::split_once_spec(data@, ':') is None,
        },
{
    crate::text::split_once(data, ':')
}

/// Where a callback goes by its prefix.
#[derive(PartialEq, Eq, Structural, Clone, Copy, Debug)]
pub enum CallbackRoute {
    Diary,
    Analytics,
    Path,
    Unknown,
}

pub open spec fn callback_route_spec(prefix: Seq<char>) -> CallbackRoute {
    if prefix == "diary"@ || prefix == "metric"@ || prefix == "exercise"@ {
        CallbackRoute::Diary
    } else if prefix == "analytics"@ {
        CallbackRoute::Analytics
    } else if prefix == "path"@ {
        CallbackRoute::Path
    } else {
        CallbackRoute::Unknown
    }
}

/// Where a callback with this prefix goes.
pub fn callback_route(prefix: &str) -> (r: CallbackRoute)
    ensures
        r == callback_route_spec(prefix@),
{
    if str_eq(prefix, "diary") || str_eq(prefix, "metric") || str_eq(prefix, "exercise") {
        CallbackRoute::Diary
    } else if str_eq(prefix, "analytics") {
        CallbackRoute::Analytics
    } else if str_eq(prefix, "path") {
        CallbackRoute::Path
    } else {
        CallbackRoute::Unknown
    }
}

/// The answer to a `path:` callback: where the file was saved.
pub fn saved_path_message(vault: &str, name: &str) -> (r: String)
    ensures
        r@ == "📁 <b>Файл сохранён в вашей хранилище Obsidian:</b>\n<code>"@ + vault@ + "/.../"@
            + name@ + "</code>"@,
{
    let mut s = owned("📁 <b>Файл сохранён в вашей хранилище Obsidian:</b>\n<code>");
    push_str(&mut s, vault);
    push_str(&mut s, "/.../");
    push_str(&mut s, name);
    push_str(&mut s, "</code>");
    s
}

// ── Keyboards ───────────────────────────────────────────────

/// A button: its label and its callback data.
pub type Button = (String, String);

pub open spec fn button_views(row: Seq<Button>) -> Seq<(Seq<char>, Seq<char>)> {
    row.map_values(|b: Button| (b.0@, b.1@))
}

pub open spec fn keyboard_views(rows: Seq<Vec<Button>>) -> Seq<Seq<(Seq<char>, Seq<char>)>> {
    rows.map_values(|r: Vec<Button>| button_views(r@))
}

fn button(label: &str, data: &str) -> (r: Button)
    ensures
        r.0@ == label@,
        r.1@ == data@,
{
    (owned(label), owned(data))
}

fn tagged(prefix: &str, tail: &str) -> (r: String)
    ensures
        r@ == prefix@ + ":"@ + tail@,
{
    let mut s = owned(prefix);
    push_str(&mut s, ":");
    push_str(&mut s, tail);
    s
}

/// The 1..10 scale: 1 to 5 on the first row, 6 to 10 on the second, each
/// button sending `prefix:n`.
pub open spec fn scale_keyboard_spec(prefix: Seq<char>) -> Seq<Seq<(Seq<char>, Seq<char>)>> {
    seq![
        Seq::new(5, |i: int| (dec((i + 1) as nat), prefix + ":"@ + dec((i + 1) as nat))),
        Seq::new(5, |i: int| (dec((i + 6) as nat), prefix + ":"@ + dec((i + 6) as nat))),
    ]
}

fn scale_row(prefix: &str, from: u64) -> (r: Vec<Button>)
    requires
        from <= 6,
    ensures
        button_views(r@) == Seq::new(5, |i: int| (dec((i + from) as nat), prefix@ + ":"@ + dec((i + from) as nat))),
{
    let mut row: Vec<Button> = Vec::new();
    let mut k: u64 = 0;
    while k < 5
        invariant
            k <= 5,
            from <= 6,
            button_views(row@) == Seq::new(k as nat, |i: int| (dec((i + from) as nat), prefix@ + ":"@ + dec((i + from) as nat))),
        decreases 5 - k,
    {
        let n = crate::text::fmt_dec(k + from);
        let data = tagged(prefix, n.as_str());
        let ghost prev = row@;
        let ghost e = (n@, data@);
        row.push((n, data));
        assert(button_views(row@) =~= button_views(prev).push(e));
        assert(button_views(row@) =~= Seq::new((k + 1) as nat, |i: int| (dec((i + from) as nat), prefix@ + ":"@ + dec((i + from) as nat))));
        k = k + 1;
    }
    row
}

/// The 1..10 scale keyboard (see `scale_keyboard_spec`).
pub fn scale_keyboard(prefix: &str) -> (r: Vec<Vec<Button>>)
    ensures
        keyboard_views(r@) == scale_keyboard_spec(prefix@),
{
    let mut rows: Vec<Vec<Button>> = Vec::new();
    rows.push(scale_row(prefix, 1));
    rows.push(scale_row(prefix, 6));
    assert(keyboard_views(rows@) =~~= scale_keyboard_spec(prefix@));
    rows
}

/// Yes and no, sending `prefix:yes` and `prefix:no`.
pub fn yes_no_keyboard(prefix: &str) -> (r: Vec<Vec<Button>>)
    ensures
        keyboard_views(r@) == seq![seq![("✅ Да"@, prefix@ + ":yes"@), ("❌ Нет"@, prefix@ + ":no"@)]],
{
    let mut row: Vec<Button> = Vec::new();
    let mut y = owned(prefix);
    push_str(&mut y, ":yes");
    let mut n = owned(prefix);
    push_str(&mut n, ":no");
    row.push((owned("✅ Да"), y));
    row.push((owned("❌ Нет"), n));
    let mut rows: Vec<Vec<Button>> = Vec::new();
    rows.push(row);
    assert(keyboard_views(rows@) =~~= seq![seq![("✅ Да"@, prefix@ + ":yes"@), ("❌ Нет"@, prefix@ + ":no"@)]]);
    rows
}

/// Details and extend on the first row, delete on the second, for one entry.
pub fn entry_actions_keyboard(entry_id: &str) -> (r: Vec<Vec<Button>>)
    ensures
        keyboard_views(r@) == seq![
            seq![("🔍 Детали"@, "details:"@ + entry_id@), ("📝 Дополнить"@, "edit:"@ + entry_id@)],
            seq![("🗑 Удалить"@, "delete:"@ + entry_id@)],
        ],
{
    let mut r1: Vec<Button> = Vec::new();
    let mut d = owned("details:");
    push_str(&mut d, entry_id);
    let mut e = owned("edit:");
    push_str(&mut e, entry_id);
    let mut x = owned("delete:");
    push_str(&mut x, entry_id);
    r1.push((owned("🔍 Детали"), d));
    r1.push((owned("📝 Дополнить"), e));
    let mut r2: Vec<Button> = Vec::new();
    r2.push((owned("🗑 Удалить"), x));
    let mut rows: Vec<Vec<Button>> = Vec::new();
    rows.push(r1);
    rows.push(r2);
    assert(keyboard_views(rows@) =~~= seq![
        seq![("🔍 Детали"@, "details:"@ + entry_id@), ("📝 Дополнить"@, "edit:"@ + entry_id@)],
        seq![("🗑 Удалить"@, "delete:"@ + entry_id@)],
    ]);
    rows
}

fn two(a: (&str, &str), b: (&str, &str)) -> (r: Vec<Button>)
    ensures
        button_views(r@) == seq![(a.0@, a.1@), (b.0@, b.1@)],
{
    let mut row: Vec<Button> = Vec::new();
    row.push(button(a.0, a.1));
    row.push(button(b.0, b.1));
    assert(button_views(row@) =~= seq![(a.0@, a.1@), (b.0@, b.1@)]);
    row
}

fn one(a: (&str, &str)) -> (r: Vec<Button>)
    ensures
        button_views(r@) == seq![(a.0@, a.1@)],
{
    let mut row: Vec<Button> = Vec::new();
    row.push(button(a.0, a.1));
    assert(button_views(row@) =~= seq![(a.0@, a.1@)]);
    row
}

/// The analytics menu: statistics and AI insights, then visualisation.
pub fn analytics_main_keyboard() -> (r: Vec<Vec<Button>>)
    ensures
        keyboard_views(r@) == seq![
            seq![("📈 Статистика"@, "analytics:menu:stats"@), ("🧠 AI Инсайты"@, "analytics:menu:ai"@)],
            seq![("🎨 Визуализация"@, "analytics:menu:viz"@)],
        ],
{
    let mut rows: Vec<Vec<Button>> = Vec::new();
    rows.push(two(("📈 Статистика", "analytics:menu:stats"), ("🧠 AI Инсайты", "analytics:menu:ai")));
    rows.push(one(("🎨 Визуализация", "analytics:menu:viz")));
    assert(keyboard_views(rows@) =~~= seq![
        seq![("📈 Статистика"@, "analytics:menu:stats"@), ("🧠 AI Инсайты"@, "analytics:menu:ai"@)],
        seq![("🎨 Визуализация"@, "analytics:menu:viz"@)],
    ]);
    rows
}

/// The statistics periods: week, month, year, all time, and back.
pub fn analytics_stats_keyboard() -> (r: Vec<Vec<Button>>)
    ensures
        keyboard_views(r@) == seq![
            seq![("Неделя"@, "analytics:week"@), ("Месяц"@, "analytics:month"@)],
            seq![("Год"@, "analytics:year"@), ("Всё время"@, "analytics:all"@)],
            seq![("⬅️ Назад"@, "analytics:menu:main"@)],
        ],
{
    let mut rows: Vec<Vec<Button>> = Vec::new();
    rows.push(two(("Неделя", "analytics:week"), ("Месяц", "analytics:month")));
    rows.push(two(("Год", "analytics:year"), ("Всё время", "analytics:all")));
    rows.push(one(("⬅️ Назад", "analytics:menu:main")));
    assert(keyboard_views(rows@) =~~= seq![
        seq![("Неделя"@, "analytics:week"@), ("Месяц"@, "analytics:month"@)],
        seq![("Год"@, "analytics:year"@), ("Всё время"@, "analytics:all"@)],
        seq![("⬅️ Назад"@, "analytics:menu:main"@)],
    ]);
    rows
}

/// The AI insight periods: 7, 30, 365 days, the whole base, and back.
pub fn analytics_ai_keyboard() -> (r: Vec<Vec<Button>>)
    ensures
        keyboard_views(r@) == seq![
            seq![("Неделя"@, "analytics:ai_insights:7"@), ("Месяц"@, "analytics:ai_insights:30"@)],
            seq![("Год"@, "analytics:ai_insights:365"@), ("Вся база"@, "analytics:ai_insights:9999"@)],
            seq![("⬅️ Назад"@, "analytics:menu:main"@)],
        ],
{
    let mut rows: Vec<Vec<Button>> = Vec::new();
    rows.push(two(("Неделя", "analytics:ai_insights:7"), ("Месяц", "analytics:ai_insights:30")));
    rows.push(two(("Год", "analytics:ai_insights:365"), ("Вся база", "analytics:ai_insights:9999")));
    rows.push(one(("⬅️ Назад", "analytics:menu:main")));
    assert(keyboard_views(rows@) =~~= seq![
        seq![("Неделя"@, "analytics:ai_insights:7"@), ("Месяц"@, "analytics:ai_insights:30"@)],
        seq![("Год"@, "analytics:ai_insights:365"@), ("Вся база"@, "analytics:ai_insights:9999"@)],
        seq![("⬅️ Назад"@, "analytics:menu:main"@)],
    ]);
    rows
}

/// The visualisations: calendar and radar, the graph, and back.
pub fn analytics_viz_keyboard() -> (r: Vec<Vec<Button>>)
    ensures
        keyboard_views(r@) == seq![
            seq![("📅 Календарь"@, "visual:calendar"@), ("🕸 Баланс (Радар)"@, "visual:radar"@)],
            seq![("🌌 Граф Obsidian"@, "analytics:graph"@)],
            seq![("⬅️ Назад"@, "analytics:menu:main"@)],
        ],
{
    let mut rows: Vec<Vec<Button>> = Vec::new();
    rows.push(two(("📅 Календарь", "visual:calendar"), ("🕸 Баланс (Радар)", "visual:radar")));
    rows.push(one(("🌌 Граф Obsidian", "analytics:graph")));
    rows.push(one(("⬅️ Назад", "analytics:menu:main")));
    assert(keyboard_views(rows@) =~~= seq![
        seq![("📅 Календарь"@, "visual:calendar"@), ("🕸 Баланс (Радар)"@, "visual:radar"@)],
        seq![("🌌 Граф Obsidian"@, "analytics:graph"@)],
        seq![("⬅️ Назад"@, "analytics:menu:main"@)],
    ]);
    rows
}

/// The labels of the main reply keyboard, with a first row for the web app when
/// its address is usable.
pub open spec fn main_menu_spec(with_app: bool) -> Seq<Seq<Seq<char>>> {
    let rows = seq![
        seq!["📖 Дневник дня"@, "📊 Аналитика"@],
        seq!["🔍 Поиск"@, "📅 Запись за сегодня"@],
        seq!["🗄️ База знаний"@, "ℹ️ Справка"@],
    ];
    if with_app {
        seq![seq!["📱 Запустить Web App"@]] + rows
    } else {
        rows
    }
}

pub open spec fn label_rows(rows: Seq<Vec<String>>) -> Seq<Seq<Seq<char>>> {
    rows.map_values(|r: Vec<String>| views(r@))
}

fn labels2(a: &str, b: &str) -> (r: Vec<String>)
    ensures
        views(r@) == seq![a@, b@],
{
    let mut v: Vec<String> = Vec::new();
    v.push(owned(a));
    v.push(owned(b));
    assert(views(v@) =~= seq![a@, b@]);
    v
}

/// The labels of the main reply keyboard (see `main_menu_spec`).
pub fn main_menu_labels(with_app: bool) -> (r: Vec<Vec<String>>)
    ensures
        label_rows(r@) == main_menu_spec(with_app),
{
    let mut rows: Vec<Vec<String>> = Vec::new();
    if with_app {
        let mut a: Vec<String> = Vec::new();
        a.push(owned("📱 Запустить Web App"));
        assert(views(a@) =~= seq!["📱 Запустить Web App"@]);
        rows.push(a);
    }
    rows.push(labels2("📖 Дневник дня", "📊 Аналитика"));
    rows.push(labels2("🔍 Поиск", "📅 Запись за сегодня"));
    rows.push(labels2("🗄️ База знаний", "ℹ️ Справка"));
    assert(label_rows(rows@) =~~= main_menu_spec(with_app));
    rows
}

// ── Vaults ──────────────────────────────────────────────────

/// One knowledge base of the registry.
pub struct VaultEntry {
    pub id: String,
    pub name: String,
    pub path: String,
}

/// The knowledge bases and which one is active.
pub struct VaultRegistry {
    pub vaults: Vec<VaultEntry>,
    pub active_vault_id: String,
}

/// The buttons of the knowledge-base menu: create and rename, then each base
/// (the active one checked) two to a row, each switching to it.
pub open spec fn vault_button(v: VaultEntry, active: Seq<char>) -> (Seq<char>, Seq<char>) {
    (
        (if v.id@ == active { "✅ "@ } else { "📁 "@ }) + v.name@,
        "vault:switch:"@ + v.id@,
    )
}

pub open spec fn pairs_of<T>(s: Seq<T>) -> Seq<Seq<T>>
    decreases s.len(),
{
    if s.len() == 0 {
        Seq::empty()
    } else if s.len() == 1 {
        seq![s]
    } else {
        seq![s.take(2)] + pairs_of(s.skip(2))
    }
}

pub open spec fn vault_keyboard_spec(r: VaultRegistry) -> Seq<Seq<(Seq<char>, Seq<char>)>> {
    seq![seq![("➕ Создать базу"@, "vault:create"@), ("✏️ Переименовать"@, "vault:rename"@)]]
        + pairs_of(r.vaults@.map_values(|v: VaultEntry| vault_button(v, r.active_vault_id@)))
}

/// The knowledge-base menu keyboard (see `vault_keyboard_spec`).
pub fn vault_menu_keyboard(reg: &VaultRegistry) -> (r: Vec<Vec<Button>>)
    ensures
        keyboard_views(r@) == vault_keyboard_spec(*reg),
{
    let ghost bs = reg.vaults@.map_values(|v: VaultEntry| vault_button(v, reg.active_vault_id@));
    let mut rows: Vec<Vec<Button>> = Vec::new();
    rows.push(two(("➕ Создать базу", "vault:create"), ("✏️ Переименовать", "vault:rename")));
    let ghost head = keyboard_views(rows@);
    assert(head =~~= seq![seq![("➕ Создать базу"@, "vault:create"@), ("✏️ Переименовать"@, "vault:rename"@)]]);
    assert(bs.skip(0) =~= bs);
    let mut i: usize = 0;
    while i < reg.vaults.len()
        invariant
            i <= reg.vaults.len(),
            i % 2 == 0,
            bs == reg.vaults@.map_values(|v: VaultEntry| vault_button(v, reg.active_vault_id@)),
            head + pairs_of(bs) == vault_keyboard_spec(*reg),
            keyboard_views(rows@) + pairs_of(bs.skip(i as int)) == vault_keyboard_spec(*reg),
        decreases reg.vaults.len() - i,
    {
        let ghost rest = bs.skip(i as int);
        let mut row: Vec<Button> = Vec::new();
        let v = &reg.vaults[i];
        let mut label = if str_eq(v.id.as_str(), reg.active_vault_id.as_str()) {
            owned("✅ ")
        } else {
            owned("📁 ")
        };
        push_str(&mut label, v.name.as_str());
        let mut data = owned("vault:switch:");
        push_str(&mut data, v.id.as_str());
        row.push((label, data));
        if i + 1 < reg.vaults.len() {
            let w = &reg.vaults[i + 1];
            let mut label2 = if str_eq(w.id.as_str(), reg.active_vault_id.as_str()) {
                owned("✅ ")
            } else {
                owned("📁 ")
            };
            push_str(&mut label2, w.name.as_str());
            let mut data2 = owned("vault:switch:");
            push_str(&mut data2, w.id.as_str());
            row.push((label2, data2));
            assert(button_views(row@) =~= rest.take(2));
            assert(rest.skip(2) =~= bs.skip(i + 2));
        } else {
            assert(button_views(row@) =~= rest);
        }
        let ghost prev = keyboard_views(rows@);
        rows.push(row);
        assert(keyboard_views(rows@) =~= prev.push(button_views(row@)));
        if i + 1 < reg.vaults.len() {
            assert(keyboard_views(rows@) + pairs_of(bs.skip(i + 2)) =~= prev + pairs_of(rest));
            i = i + 2;
        } else {
            assert(keyboard_views(rows@) + pairs_of(Seq::<(Seq<char>, Seq<char>)>::empty()) =~= prev + pairs_of(rest));
            assert(bs.skip(i + 1) =~= Seq::<(Seq<char>, Seq<char>)>::empty());
            i = i + 1;
            assert(i == reg.vaults.len());
            return rows;
        }
    }
    assert(bs.skip(i as int) =~= Seq::<(Seq<char>, Seq<char>)>::empty());
    assert(keyboard_views(rows@) =~= keyboard_views(rows@) + pairs_of(bs.skip(i as int)));
    rows
}

/// The knowledge-base menu text: the active base (or the default one), its
/// path, and every base with its path.
pub open spec fn vault_line(v: VaultEntry, active: Seq<char>) -> Seq<char> {
    if v.id@ == active {
        "• <b>"@ + v.name@ + "</b> (активна) — <code>"@ + v.path@ + "</code>\n"@
    } else {
        "• <b>"@ + v.name@ + "</b> — <code>"@ + v.path@ + "</code>\n"@
    }
}

pub open spec fn vault_lines(vs: Seq<VaultEntry>, active: Seq<char>) -> Seq<char>
    decreases vs.len(),
{
    if vs.len() == 0 {
        Seq::empty()
    } else {
        vault_lines(vs.drop_last(), active) + vault_line(vs.last(), active)
    }
}

/// The first base with the active id.
pub open spec fn active_vault(vs: Seq<VaultEntry>, active: Seq<char>) -> Option<VaultEntry>
    decreases vs.len(),
{
    if vs.len() == 0 {
        None
    } else if vs[0].id@ == active {
        Some(vs[0])
    } else {
        active_vault(vs.drop_first(), active)
    }
}

pub open spec fn vault_menu_spec(r: VaultRegistry) -> Seq<char> {
    let a = active_vault(r.vaults@, r.active_vault_id@);
    let name = match a {
        Some(v) => v.name@,
        None => "base_1"@,
    };
    let path = match a {
        Some(v) => v.path@,
        None => "./vaults/base_1"@,
    };
    "🗄️ <b>Управление хранилищами (базами знаний)</b>\n\n📍 <b>Активная база:</b> <code>"@ + name
        + "</code>\n📂 <b>Путь на диске:</b> <code>"@ + path
        + "</code>\n\n📋 <b>Все доступные базы ("@ + dec(r.vaults@.len())
        + "):</b>\n"@ + vault_lines(r.vaults@, r.active_vault_id@)
        + "\n<i>Нажмите кнопку ниже, чтобы переключить активную базу, создать новую или переименовать текущую.</i>"@
}

/// The knowledge-base menu text (see `vault_menu_spec`).
pub fn format_vault_menu(reg: &VaultRegistry) -> (r: String)
    ensures
        r@ == vault_menu_spec(*reg),
{
    let ghost vs = reg.vaults@;
    let active = find_active(reg);
    let mut list = String::new();
    let mut k: usize = 0;
    while k < reg.vaults.len()
        invariant
            k <= reg.vaults.len(),
            vs == reg.vaults@,
            list@ == vault_lines(vs.take(k as int), reg.active_vault_id@),
        decreases reg.vaults.len() - k,
    {
        assert(vs.take(k + 1).drop_last() =~= vs.take(k as int));
        let v = &reg.vaults[k];
        push_str(&mut list, "• <b>");
        push_str(&mut list, v.name.as_str());
        if str_eq(v.id.as_str(), reg.active_vault_id.as_str()) {
            push_str(&mut list, "</b> (активна) — <code>");
        } else {
            push_str(&mut list, "</b> — <code>");
        }
        push_str(&mut list, v.path.as_str());
        push_str(&mut list, "</code>\n");
        assert(list@ =~= vault_lines(vs.take(k + 1), reg.active_vault_id@));
        k = k + 1;
    }
    assert(vs.take(reg.vaults.len() as int) =~= vs);
    let mut s = owned("🗄️ <b>Управление хранилищами (базами знаний)</b>\n\n📍 <b>Активная база:</b> <code>");
    match active {
        Some(a) => push_str(&mut s, reg.vaults[a].name.as_str()),
        None => push_str(&mut s, "base_1"),
    }
    push_str(&mut s, "</code>\n📂 <b>Путь на диске:</b> <code>");
    match active {
        Some(a) => push_str(&mut s, reg.vaults[a].path.as_str()),
        None => push_str(&mut s, "./vaults/base_1"),
    }
    push_str(&mut s, "</code>\n\n📋 <b>Все доступные базы (");
    push_dec(&mut s, reg.vaults.len() as u64);
    push_str(&mut s, "):</b>\n");
    push_str(&mut s, list.as_str());
    push_str(
        &mut s,
        "\n<i>Нажмите кнопку ниже, чтобы переключить активную базу, создать новую или переименовать текущую.</i>",
    );
    s
}

fn find_active(reg: &VaultRegistry) -> (r: Option<usize>)
    ensures
        match r {
            Some(a) => a < reg.vaults@.len() && active_vault(reg.vaults@, reg.active_vault_id@) == Some(
                reg.vaults@[a as int],
            ),
            None => active_vault(reg.vaults@, reg.active_vault_id@) is None,
        },
{
    let ghost vs = reg.vaults@;
    let mut i: usize = 0;
    assert(vs.skip(0) =~= vs);
    while i < reg.vaults.len()
        invariant
            i <= reg.vaults.len(),
            vs == reg.vaults@,
            active_vault(vs, reg.active_vault_id@) == active_vault(vs.skip(i as int), reg.active_vault_id@),
        decreases reg.vaults.len() - i,
    {
        assert(vs.skip(i as int).drop_first() =~= vs.skip(i + 1));
        if str_eq(reg.vaults[i].id.as_str(), reg.active_vault_id.as_str()) {
            assert(vs.skip(i as int)[0] == vs[i as int]);
            return Some(i);
        }
        i = i + 1;
    }
    assert(vs.skip(i as int) =~= Seq::<VaultEntry>::empty());
    None
}

// ── Managing vaults ─────────────────────────────────────────

/// What a vault button asks for.
pub enum VaultAction {
    Create,
    Rename,
    /// Make the vault with this id the active one.
    Switch(String),
    Nothing,
}

pub open spec fn vault_action_view(a: VaultAction) -> (int, Seq<char>) {
    match a {
        VaultAction::Create => (0, Seq::empty()),
        VaultAction::Rename => (1, Seq::empty()),
        VaultAction::Switch(id) => (2, id@),
        VaultAction::Nothing => (3, Seq::empty()),
    }
}

/// What a vault button asks for: `create`, `rename`, or `switch:` followed by
/// an id (all leading repeats of `switch:` removed).
pub open spec fn vault_action_spec(action: Seq<char>) -> (int, Seq<char>) {
    if action == "create"@ {
        (0, Seq::empty())
    } else if action == "rename"@ {
        (1, Seq::empty())
    } else if has_prefix(action, "switch:"@) {
        (2, strip_all_prefix(action, "switch:"@))
    } else {
        (3, Seq::empty())
    }
}

/// What a vault button asks for (see `vault_action_spec`).
pub fn vault_action(action: &str) -> (r: VaultAction)
    ensures
        vault_action_view(r) == vault_action_spec(action@),
{
    if str_eq(action, "create") {
        VaultAction::Create
    } else if str_eq(action, "rename") {
        VaultAction::Rename
    } else if str_starts_with(action, "switch:") {
        proof {
            reveal_strlit("switch:");
        }
        VaultAction::Switch(strip_all(action, "switch:"))
    } else {
        VaultAction::Nothing
    }
}

/// The request for a new vault's name.
pub fn vault_create_prompt() -> (r: &'static str)
    ensures
        r@ == "➕ <b>Создание нового хранилища</b>\n\nВведите название для новой базы знаний (например, <i>Мои Проекты</i> или <i>base_2</i>):"@,
{
    "➕ <b>Создание нового хранилища</b>\n\nВведите название для новой базы знаний (например, <i>Мои Проекты</i> или <i>base_2</i>):"
}

/// The request for the active vault's new name, showing its current name
/// (or `base_1` when no vault is active).
pub open spec fn rename_prompt_spec(r: VaultRegistry) -> Seq<char> {
    "✏️ <b>Переименование хранилища</b>\n\nТекущее название: <b>"@ + (match active_vault(
        r.vaults@,
        r.active_vault_id@,
    ) {
        Some(v) => v.name@,
        None => "base_1"@,
    }) + "</b>\n\nВведите новое название прямо в чат:"@
}

/// The request for the active vault's new name (see `rename_prompt_spec`).
pub fn vault_rename_prompt(reg: &VaultRegistry) -> (r: String)
    ensures
        r@ == rename_prompt_spec(*reg),
{
    let mut s = owned("✏️ <b>Переименование хранилища</b>\n\nТекущее название: <b>");
    match find_active(reg) {
        Some(a) => push_str(&mut s, reg.vaults[a].name.as_str()),
        None => push_str(&mut s, "base_1"),
    }
    push_str(&mut s, "</b>\n\nВведите новое название прямо в чат:");
    s
}

/// The notice that another vault is now active.
pub fn vault_switched_message(name: &str, path: &str) -> (r: String)
    ensures
        r@ == "🔄 <b>База переключена!</b>\nТеперь активное хранилище: <b>"@ + name@ + "</b> (<code>"@ + path@
            + "</code>)"@,
{
    let mut s = owned("🔄 <b>База переключена!</b>\nТеперь активное хранилище: <b>");
    push_str(&mut s, name);
    push_str(&mut s, "</b> (<code>");
    push_str(&mut s, path);
    push_str(&mut s, "</code>)");
    s
}

/// A vault name typed by the user: the text trimmed, unless nothing is left.
pub fn vault_name_input(text: &str) -> (r: Option<String>)
    ensures
        match r {
            Some(n) => n@ == crate::text::trim_spec(text@) && n@.len() > 0,
            None => crate::text::trim_spec(text@).len() == 0,
        },
{
    let t = crate::text::trim(text);
    if chars_of(t.as_str()).len() == 0 {
        None
    } else {
        Some(t)
    }
}

/// The answer to a blank vault name.
pub fn empty_vault_name_message() -> (r: &'static str)
    ensures
        r@ == "⚠️ Название базы не может быть пустым. Попробуйте еще раз:"@,
{
    "⚠️ Название базы не может быть пустым. Попробуйте еще раз:"
}

/// The notice of a new vault, now active.
pub fn vault_created_message(entry: &VaultEntry) -> (r: String)
    ensures
        r@ == "✅ <b>Новое хранилище создано и активировано!</b>\n\n🏷 <b>Название:</b> "@ + entry.name@
            + "\n🆔 <b>ID:</b> <code>"@ + entry.id@ + "</code>\n📂 <b>Путь:</b> <code>"@ + entry.path@ + "</code>"@,
{
    let mut s = owned("✅ <b>Новое хранилище создано и активировано!</b>\n\n🏷 <b>Название:</b> ");
    push_str(&mut s, entry.name.as_str());
    push_str(&mut s, "\n🆔 <b>ID:</b> <code>");
    push_str(&mut s, entry.id.as_str());
    push_str(&mut s, "</code>\n📂 <b>Путь:</b> <code>");
    push_str(&mut s, entry.path.as_str());
    push_str(&mut s, "</code>");
    s
}

/// The answer to renaming the active vault, by whether it succeeded.
pub fn vault_renamed_message(done: bool, name: &str) -> (r: String)
    ensures
        r@ == (if done {
            "✅ <b>Хранилище переименовано в «"@ + name@ + "»!</b>"@
        } else {
            "❌ Не удалось переименовать хранилище."@
        }),
{
    if done {
        let mut s = owned("✅ <b>Хранилище переименовано в «");
        push_str(&mut s, name);
        push_str(&mut s, "»!</b>");
        s
    } else {
        owned("❌ Не удалось переименовать хранилище.")
    }
}

// ── Analytics menu ──────────────────────────────────────────

/// What an analytics button asks for.
#[derive(PartialEq, Eq, Structural, Clone, Copy, Debug)]
pub enum AnalyticsAction {
    MainMenu,
    StatsMenu,
    AiMenu,
    VizMenu,
    /// A statistics report over this many days.
    Period(u64),
    Graph,
    /// AI insights over this many days.
    Insights(u64),
    Nothing,
}

/// The days an insights request covers: the number after `ai_insights:` (all
/// leading repeats of that prefix removed), or a week when it is not a number.
pub open spec fn insight_days(action: Seq<char>) -> u64 {
    match parse_usize_spec(strip_all_prefix(action, "ai_insights:"@)) {
        Some(n) => n,
        None => 7,
    }
}

/// `s` without all leading repeats of `p`, as `str::trim_start_matches(p)`.
pub open spec fn strip_all_prefix(s: Seq<char>, p: Seq<char>) -> Seq<char>
    decreases s.len(),
{
    if p.len() > 0 && has_prefix(s, p) {
        strip_all_prefix(s.skip(p.len() as int), p)
    } else {
        s
    }
}

/// What `str::parse::<usize>` gives, for a 64-bit `usize`.
pub open spec fn parse_usize_spec(s: Seq<char>) -> Option<u64> {
    crate::text::parse_u64_spec(s)
}

pub open spec fn analytics_action_spec(a: Seq<char>) -> AnalyticsAction {
    if a == "menu:main"@ {
        AnalyticsAction::MainMenu
    } else if a == "menu:stats"@ {
        AnalyticsAction::StatsMenu
    } else if a == "menu:ai"@ {
        AnalyticsAction::AiMenu
    } else if a == "menu:viz"@ {
        AnalyticsAction::VizMenu
    } else if a == "week"@ {
        AnalyticsAction::Period(7)
    } else if a == "month"@ {
        AnalyticsAction::Period(30)
    } else if a == "year"@ {
        AnalyticsAction::Period(365)
    } else if a == "all"@ {
        AnalyticsAction::Period(9999)
    } else if a == "graph"@ {
        AnalyticsAction::Graph
    } else if has_prefix(a, "ai_insights:"@) {
        AnalyticsAction::Insights(insight_days(a))
    } else {
        AnalyticsAction::Nothing
    }
}

fn strip_all(s: &str, p: &str) -> (r: String)
    requires
        p@.len() > 0,
    ensures
        r@ == strip_all_prefix(s@, p@),
{
    let v = chars_of(s);
    let pv = chars_of(p);
    let mut i: usize = 0;
    assert(v@.skip(0) =~= v@);
    while pv.len() <= v.len() - i && crate::text::matches_at(v.as_slice(), pv.as_slice(), i)
        invariant
            i <= v.len(),
            pv@ == p@,
            v@ == s@,
            pv@.len() > 0,
            strip_all_prefix(s@, p@) == strip_all_prefix(v@.skip(i as int), p@),
        decreases v.len() - i,
    {
        assert(v@.skip(i as int).subrange(0, pv@.len() as int) =~= v@.subrange(i as int, i + pv@.len()));
        assert(v@.skip(i as int).skip(pv@.len() as int) =~= v@.skip(i + pv@.len()));
        i = i + pv.len();
    }
    proof {
        let rest = v@.skip(i as int);
        if rest.len() >= pv@.len() {
            assert(rest.subrange(0, pv@.len() as int) =~= v@.subrange(i as int, i + pv@.len()));
        }
    }
    let r = crate::text::string_from_range(v.as_slice(), i, v.len());
    assert(r@ =~= v@.skip(i as int));
    r
}

/// What an analytics button asks for (see `analytics_action_spec`).
pub fn analytics_action(a: &str) -> (r: AnalyticsAction)
    ensures
        r == analytics_action_spec(a@),
{
    if str_eq(a, "menu:main") {
        AnalyticsAction::MainMenu
    } else if str_eq(a, "menu:stats") {
        AnalyticsAction::StatsMenu
    } else if str_eq(a, "menu:ai") {
        AnalyticsAction::AiMenu
    } else if str_eq(a, "menu:viz") {
        AnalyticsAction::VizMenu
    } else if str_eq(a, "week") {
        AnalyticsAction::Period(7)
    } else if str_eq(a, "month") {
        AnalyticsAction::Period(30)
    } else if str_eq(a, "year") {
        AnalyticsAction::Period(365)
    } else if str_eq(a, "all") {
        AnalyticsAction::Period(9999)
    } else if str_eq(a, "graph") {
        AnalyticsAction::Graph
    } else if str_starts_with(a, "ai_insights:") {
        proof {
            reveal_strlit("ai_insights:");
        }
        let rest = strip_all(a, "ai_insights:");
        let days = match crate::text::parse_u64(rest.as_str()) {
            Some(n) => n,
            None => 7,
        };
        AnalyticsAction::Insights(days)
    } else {
        AnalyticsAction::Nothing
    }
}

/// The heading of a statistics report over `days` days.
pub open spec fn period_heading(days: u64) -> Seq<char> {
    if days == 7 {
        "📅 <b>Аналитика за 7 дней:</b>\n\n"@
    } else if days == 30 {
        "🗓 <b>Аналитика за 30 дней:</b>\n\n"@
    } else if days == 365 {
        "🎆 <b>Аналитика за этот год (365 дней):</b>\n\n"@
    } else {
        "♾ <b>Аналитика за всё время:</b>\n\n"@
    }
}

/// A statistics report under its heading.
pub fn period_message(days: u64, report: &str) -> (r: String)
    ensures
        r@ == period_heading(days) + report@,
{
    let mut s = if days == 7 {
        owned("📅 <b>Аналитика за 7 дней:</b>\n\n")
    } else if days == 30 {
        owned("🗓 <b>Аналитика за 30 дней:</b>\n\n")
    } else if days == 365 {
        owned("🎆 <b>Аналитика за этот год (365 дней):</b>\n\n")
    } else {
        owned("♾ <b>Аналитика за всё время:</b>\n\n")
    };
    push_str(&mut s, report);
    s
}

/// The title an insight over `days` days is saved under on `today`.
pub open spec fn insight_title_spec(days: u64, today: Seq<char>) -> Seq<char> {
    if days == 9999 {
        "AI Insight (All Time) "@ + today
    } else {
        "AI Insight ("@ + dec(days as nat) + " Days) "@ + today
    }
}

/// The title of an insight (see `insight_title_spec`).
pub fn insight_title(days: u64, today: &str) -> (r: String)
    ensures
        r@ == insight_title_spec(days, today@),
{
    if days == 9999 {
        let mut s = owned("AI Insight (All Time) ");
        push_str(&mut s, today);
        s
    } else {
        let mut s = owned("AI Insight (");
        push_dec(&mut s, days);
        push_str(&mut s, " Days) ");
        push_str(&mut s, today);
        s
    }
}

/// The body of a saved insight: after its `# title` heading, or else after its
/// front matter, trimmed; or the whole note.
pub open spec fn saved_insight_spec(content: Seq<char>, title: Seq<char>) -> Seq<char> {
    let marker = "# "@ + title + "\n\n"@;
    match crate::fetch::first_occ(content, marker) {
        Some(k) => crate::text::trim_spec(content.skip(k + marker.len())),
        None => match crate::fetch::first_occ(content, "\n---\n"@) {
            Some(k) => crate::text::trim_spec(content.skip(k + 5)),
            None => content,
        },
    }
}

/// The body of a saved insight (see `saved_insight_spec`).
pub fn saved_insight_body(content: &str, title: &str) -> (r: String)
    ensures
        r@ == saved_insight_spec(content@, title@),
{
    let mut marker = owned("# ");
    push_str(&mut marker, title);
    push_str(&mut marker, "\n\n");
    let v = chars_of(content);
    match crate::fetch::first_position(&v, marker.as_str()) {
        Some(k) => {
            let m = chars_of(marker.as_str());
            let n = v.len();
            assert(k + m.len() <= n) by {
                assert(crate::text::occurs_at(v@, marker@, k as int));
            }
            let r = crate::text::string_from_range(v.as_slice(), k + m.len(), n);
            assert(r@ =~= content@.skip(k + marker@.len()));
            crate::text::trim(r.as_str())
        },
        None => {
            proof {
                reveal_strlit("\n---\n");
            }
            match crate::fetch::first_position(&v, "\n---\n") {
                Some(k) => {
                    let n = v.len();
                    assert(k + 5 <= n) by {
                        assert(crate::text::occurs_at(v@, "\n---\n"@, k as int));
                    }
                    let r = crate::text::string_from_range(v.as_slice(), k + 5, n);
                    assert(r@ =~= content@.skip(k + 5));
                    crate::text::trim(r.as_str())
                },
                None => owned(content),
            }
        },
    }
}

/// What is shown while an insight is generated.
pub fn insight_wait_message(days: u64) -> (r: &'static str)
    ensures
        r@ == (if days == 9999 {
            "⏳ Генерирую глубокие AI-инсайты (по всей базе)... Это займет время."@
        } else {
            "⏳ Генерирую глубокие AI-инсайты (Life Analytics)... Это может занять около минуты."@
        }),
{
    if days == 9999 {
        "⏳ Генерирую глубокие AI-инсайты (по всей базе)... Это займет время."
    } else {
        "⏳ Генерирую глубокие AI-инсайты (Life Analytics)... Это может занять около минуты."
    }
}

// ── Messages ────────────────────────────────────────────────

/// What the bot remembers of a user's dialogue.
#[derive(PartialEq, Eq, Structural, Clone, Copy, Debug)]
pub enum DialogKind {
    Idle,
    DiaryReview,
    WaitingForSearch,
    WaitingForReminder,
    WaitingForNewVaultName,
    WaitingForRenameVault,
    Editing,
}

/// What is done with a text message.
#[derive(PartialEq, Eq, Structural, Clone, Copy, Debug)]
pub enum MessageRoute {
    /// The sender may not use the bot.
    Denied,
    /// Run the command that the menu button or the text names.
    Diary,
    Search,
    Today,
    Help,
    AnalyticsMenu,
    Viz,
    Command,
    /// The text answers the diary's question.
    DiaryAnswer,
    /// The text is a search query.
    SearchQuery,
    /// The text extends the entry being edited.
    AppendToEntry,
    /// The text is a new thought to record.
    Ingest,
}

pub open spec fn route_message_spec(text: Seq<char>, allowed: Seq<u64>, user: u64, state: DialogKind) -> MessageRoute {
    if !may_use(allowed, user) {
        MessageRoute::Denied
    } else if text == "📖 Дневник дня"@ {
        MessageRoute::Diary
    } else if text == "📊 Аналитика"@ || text == "/analytics"@ {
        MessageRoute::AnalyticsMenu
    } else if text == "🔍 Поиск"@ {
        MessageRoute::Search
    } else if text == "📅 Запись за сегодня"@ {
        MessageRoute::Today
    } else if text == "/viz"@ {
        MessageRoute::Viz
    } else if text == "ℹ️ Справка"@ {
        MessageRoute::Help
    } else if text.len() > 0 && text[0] == '/' {
        MessageRoute::Command
    } else {
        match state {
            DialogKind::DiaryReview => MessageRoute::DiaryAnswer,
            DialogKind::WaitingForSearch => MessageRoute::SearchQuery,
            DialogKind::Editing => MessageRoute::AppendToEntry,
            _ => MessageRoute::Ingest,
        }
    }
}

/// What is done with a text message (see `route_message_spec`).
pub fn route_message(text: &str, allowed: &[u64], user: u64, state: DialogKind) -> (r: MessageRoute)
    ensures
        r == route_message_spec(text@, allowed@, user, state),
{
    if !is_allowed(allowed, user) {
        MessageRoute::Denied
    } else if str_eq(text, "📖 Дневник дня") {
        MessageRoute::Diary
    } else if str_eq(text, "📊 Аналитика") || str_eq(text, "/analytics") {
        MessageRoute::AnalyticsMenu
    } else if str_eq(text, "🔍 Поиск") {
        MessageRoute::Search
    } else if str_eq(text, "📅 Запись за сегодня") {
        MessageRoute::Today
    } else if str_eq(text, "/viz") {
        MessageRoute::Viz
    } else if str_eq(text, "ℹ️ Справка") {
        MessageRoute::Help
    } else {
        let v = chars_of(text);
        if v.len() > 0 && v[0] == '/' {
            MessageRoute::Command
        } else {
            match state {
                DialogKind::DiaryReview => MessageRoute::DiaryAnswer,
                DialogKind::WaitingForSearch => MessageRoute::SearchQuery,
                DialogKind::Editing => MessageRoute::AppendToEntry,
                _ => MessageRoute::Ingest,
            }
        }
    }
}

/// For a user who may use the bot, whatever the dialog, each main-menu button
/// runs what it names: the diary, the analytics menu, a search, today's entry
/// or the help; `/analytics` and `/viz` open the analytics and the charts.
pub proof fn lemma_menu_buttons_route(allowed: Seq<u64>, user: u64, state: DialogKind)
    requires
        may_use(allowed, user),
    ensures
        route_message_spec("📖 Дневник дня"@, allowed, user, state) == MessageRoute::Diary,
        route_message_spec("📊 Аналитика"@, allowed, user, state) == MessageRoute::AnalyticsMenu,
        route_message_spec("🔍 Поиск"@, allowed, user, state) == MessageRoute::Search,
        route_message_spec("📅 Запись за сегодня"@, allowed, user, state) == MessageRoute::Today,
        route_message_spec("ℹ️ Справка"@, allowed, user, state) == MessageRoute::Help,
        route_message_spec("/analytics"@, allowed, user, state) == MessageRoute::AnalyticsMenu,
        route_message_spec("/viz"@, allowed, user, state) == MessageRoute::Viz,
{
    reveal_strlit("📖 Дневник дня");
    reveal_strlit("📊 Аналитика");
    reveal_strlit("🔍 Поиск");
    reveal_strlit("📅 Запись за сегодня");
    reveal_strlit("ℹ️ Справка");
    reveal_strlit("/analytics");
    reveal_strlit("/viz");
    assert("/viz"@.len() != "/analytics"@.len());
    assert("📊 Аналитика"@[0] != "📖 Дневник дня"@[0]);
    assert("🔍 Поиск"@[0] != "📖 Дневник дня"@[0]);
    assert("🔍 Поиск"@[0] != "📊 Аналитика"@[0]);
    assert("📅 Запись за сегодня"@[0] != "📖 Дневник дня"@[0]);
    assert("📅 Запись за сегодня"@[0] != "📊 Аналитика"@[0]);
    assert("📅 Запись за сегодня"@[0] != "🔍 Поиск"@[0]);
    assert("ℹ️ Справка"@[0] != "📖 Дневник дня"@[0]);
    assert("ℹ️ Справка"@[0] != "📊 Аналитика"@[0]);
    assert("ℹ️ Справка"@[0] != "🔍 Поиск"@[0]);
    assert("ℹ️ Справка"@[0] != "📅 Запись за сегодня"@[0]);
}

/// A command word from a user who may use the bot goes to the command handler,
/// unless it is one the menu handles itself, whatever the dialog.
pub proof fn lemma_commands_route(text: Seq<char>, allowed: Seq<u64>, user: u64, state: DialogKind)
    requires
        may_use(allowed, user),
        text.len() > 0,
        text[0] == '/',
        text != "/analytics"@,
        text != "/viz"@,
    ensures
        route_message_spec(text, allowed, user, state) == MessageRoute::Command,
{
    reveal_strlit("📖 Дневник дня");
    reveal_strlit("📊 Аналитика");
    reveal_strlit("🔍 Поиск");
    reveal_strlit("📅 Запись за сегодня");
    reveal_strlit("ℹ️ Справка");
    assert("📖 Дневник дня"@[0] != '/');
    assert("📊 Аналитика"@[0] != '/');
    assert("🔍 Поиск"@[0] != '/');
    assert("📅 Запись за сегодня"@[0] != '/');
    assert("ℹ️ Справка"@[0] != '/');
}

/// A user off the allow-list gets nothing but the refusal, whatever the text or state.
pub proof fn lemma_denied_users_refused(text: Seq<char>, allowed: Seq<u64>, user: u64, state: DialogKind)
    requires
        !allowed.contains(user),
    ensures
        route_message_spec(text, allowed, user, state) == MessageRoute::Denied,
{
}

/// The answer once a thought is recorded: its summary (or a waiting note) and tags.
pub open spec fn ingest_reply_spec(found: bool, summary: Seq<char>, tags: Seq<Seq<char>>) -> Seq<char> {
    if !found {
        "✅ Принято в обработку."@
    } else {
        let t = join_spec(tags, ", "@);
        "✅ Записано.\n"@ + (if summary.len() > 0 { summary } else { "Ожидает анализ..."@ }) + (if t.len() > 0 {
            "\n🏷 "@ + t
        } else {
            Seq::empty()
        })
    }
}

/// The answer once a thought is recorded (see `ingest_reply_spec`); `entry`
/// holds the summary and tags when the entry could be read back.
pub fn ingest_reply(entry: Option<(&str, &Vec<String>)>) -> (r: String)
    ensures
        r@ == (match entry {
            Some((s, t)) => ingest_reply_spec(true, s@, views(t@)),
            None => ingest_reply_spec(false, Seq::empty(), Seq::empty()),
        }),
{
    match entry {
        None => owned("✅ Принято в обработку."),
        Some((summary, tags)) => {
            let t = join(tags, ", ");
            let mut s = owned("✅ Записано.\n");
            if chars_of(summary).len() > 0 {
                push_str(&mut s, summary);
            } else {
                push_str(&mut s, "Ожидает анализ...");
            }
            if chars_of(t.as_str()).len() > 0 {
                push_str(&mut s, "\n🏷 ");
                push_str(&mut s, t.as_str());
            }
            proof {
                reveal_strlit("");
            }
            assert(s@ =~= ingest_reply_spec(true, summary@, views(tags@)));
            s
        },
    }
}

// ── Plugin answers ──────────────────────────────────────────

/// What a plugin answers.
pub enum PluginResponse {
    Text(String),
    Media { title: String, file_path: String, caption: Option<String> },
    MediaGroup { title: String, file_paths: Vec<String>, caption: Option<String> },
    Keyboard { text: String, options: Vec<(String, String)> },
    Error(String),
    /// Several answers, sent in order.
    Batch(Vec<PluginResponse>),
    Handled,
    Ignored,
}

/// The answers of a response in sending order: a batch's parts one after the
/// other, each flattened in turn.
pub open spec fn flatten(r: PluginResponse) -> Seq<PluginResponse>
    decreases r, 0nat,
{
    match r {
        PluginResponse::Batch(v) => flatten_all(v@),
        _ => seq![r],
    }
}

pub open spec fn flatten_all(s: Seq<PluginResponse>) -> Seq<PluginResponse>
    decreases s, 1nat,
{
    if s.len() == 0 {
        Seq::empty()
    } else {
        flatten(s[0]) + flatten_all(s.drop_first())
    }
}

/// A flattened response holds no batch.
pub open spec fn no_batch(s: Seq<PluginResponse>) -> bool {
    forall|i: int| 0 <= i < s.len() ==> !(#[trigger] s[i] is Batch)
}

/// Flattening leaves no batch behind.
pub proof fn lemma_flatten_no_batch(r: PluginResponse)
    ensures
        no_batch(flatten(r)),
    decreases r, 0nat,
{
    match r {
        PluginResponse::Batch(v) => lemma_flatten_all_no_batch(v@),
        _ => {},
    }
}

proof fn lemma_flatten_all_no_batch(s: Seq<PluginResponse>)
    ensures
        no_batch(flatten_all(s)),
    decreases s, 1nat,
{
    if s.len() > 0 {
        lemma_flatten_no_batch(s[0]);
        lemma_flatten_all_no_batch(s.drop_first());
        let a = flatten(s[0]);
        let b = flatten_all(s.drop_first());
        assert forall|i: int| 0 <= i < (a + b).len() implies !(#[trigger] (a + b)[i] is Batch) by {
            if i < a.len() {
                assert((a + b)[i] == a[i]);
            } else {
                assert((a + b)[i] == b[i - a.len()]);
            }
        }
    }
}

/// Put the answers of a response, in sending order, after those already there.
pub fn flatten_into(r: PluginResponse, out: &mut Vec<PluginResponse>)
    ensures
        final(out)@ == old(out)@ + flatten(r),
    decreases r, 0nat,
{
    match r {
        PluginResponse::Batch(v) => {
            flatten_all_into(v, out);
        },
        other => {
            let ghost prev = out@;
            out.push(other);
            assert(out@ =~= prev + flatten(other));
        },
    }
}

#[verifier::loop_isolation(false)]
fn flatten_all_into(v: Vec<PluginResponse>, out: &mut Vec<PluginResponse>)
    ensures
        final(out)@ == old(out)@ + flatten_all(v@),
    decreases v@, 1nat,
{
    let ghost orig = v@;
    let mut rest = v;
    let ghost start = out@;
    assert(orig.skip(0) =~= orig);
    assert(start + Seq::<PluginResponse>::empty() =~= start);
    let ghost done: Seq<PluginResponse> = Seq::empty();
    let mut k: usize = 0;
    let n = rest.len();
    while rest.len() > 0
        invariant
            rest@ == orig.skip(k as int),
            k + rest@.len() == orig.len(),
            n == orig.len(),
            out@ + flatten_all(rest@) == start + flatten_all(orig),
        decreases rest.len(),
    {
        let ghost r0 = rest@;
        let x = rest.remove(0);
        assert(rest@ =~= r0.drop_first());
        assert(x == orig[k as int]);
        assert(decreases_to!(orig => orig[k as int]));
        assert(decreases_to!(orig, 1nat => x, 0nat));
        let ghost before = out@;
        flatten_into(x, out);
        assert(out@ + flatten_all(rest@) =~= before + flatten_all(r0));
        k = k + 1;
        assert(rest@ =~= orig.skip(k as int));
    }
    assert(out@ + flatten_all(rest@) =~= out@);
}

/// A file sent as audio rather than video.
pub fn is_audio_file(path: &str) -> (b: bool)
    ensures
        b == (crate::text::has_suffix(path@, ".mp3"@) || crate::text::has_suffix(path@, ".ogg"@)
            || crate::text::has_suffix(path@, ".m4a"@)),
{
    crate::text::str_ends_with(path, ".mp3") || crate::text::str_ends_with(path, ".ogg")
        || crate::text::str_ends_with(path, ".m4a")
}

/// Files over 50 MiB cannot be sent through the Bot API.
pub open spec fn too_large_to_send(len: u64) -> bool {
    len > 52428800
}

/// The notice for a downloaded file too large to send.
pub fn too_large_message(len: u64, path: &str) -> (r: String)
    ensures
        r@ == "⚠️ <b>Файл скачан на сервер ("@ + dec((len / 1048576) as nat)
            + " MB)</b>, но превышает лимит загрузки Telegram Bot API (50 MB).\n\n📁 <b>Путь:</b> <code>"@
            + path@ + "</code>"@,
{
    let mut s = owned("⚠️ <b>Файл скачан на сервер (");
    push_dec(&mut s, len / 1048576);
    push_str(&mut s, " MB)</b>, но превышает лимит загрузки Telegram Bot API (50 MB).\n\n📁 <b>Путь:</b> <code>");
    push_str(&mut s, path);
    push_str(&mut s, "</code>");
    s
}

/// A plugin's error as a message.
pub fn plugin_error_message(err: &str) -> (r: String)
    ensures
        r@ == "❌ "@ + err@,
{
    let mut s = owned("❌ ");
    push_str(&mut s, err);
    s
}

/// What the bot sends for one answer of a plugin (a batch being flattened
/// first): an HTML message (sent again as plain text if Telegram refuses the
/// markup), a message with buttons, one media file, a gallery, or nothing.
pub enum AnswerRequest {
    Message(String),
    Buttons(String, Vec<(String, String)>),
    Media { file_path: String, caption: Option<String> },
    Gallery { file_paths: Vec<String>, caption: Option<String> },
    Nothing,
}

/// What the bot sends for one answer of a plugin: a text, or an error marked
/// `❌ `, as a message; a keyboard as a message with one button per row; a file
/// or gallery as media; nothing for a handled or ignored message (and for a
/// batch, whose parts `flatten_into` lays out beforehand).
pub fn answer_request(a: PluginResponse) -> (r: AnswerRequest)
    ensures
        match a {
            PluginResponse::Text(t) => r matches AnswerRequest::Message(m) && m@ == t@,
            PluginResponse::Error(e) => r matches AnswerRequest::Message(m) && m@ == "❌ "@ + e@,
            PluginResponse::Keyboard { text, options } => r matches AnswerRequest::Buttons(m, o) && m@ == text@
                && o@ == options@,
            PluginResponse::Media { title, file_path, caption } => r matches AnswerRequest::Media {
                file_path: p,
                caption: c,
            } && p@ == file_path@ && c == caption,
            PluginResponse::MediaGroup { title, file_paths, caption } => r matches AnswerRequest::Gallery {
                file_paths: p,
                caption: c,
            } && p@ == file_paths@ && c == caption,
            _ => r is Nothing,
        },
{
    match a {
        PluginResponse::Text(t) => AnswerRequest::Message(t),
        PluginResponse::Error(e) => AnswerRequest::Message(plugin_error_message(e.as_str())),
        PluginResponse::Keyboard { text, options } => AnswerRequest::Buttons(text, options),
        PluginResponse::Media { title, file_path, caption } => AnswerRequest::Media { file_path, caption },
        PluginResponse::MediaGroup { title, file_paths, caption } => AnswerRequest::Gallery { file_paths, caption },
        PluginResponse::Batch(_) => AnswerRequest::Nothing,
        PluginResponse::Handled => AnswerRequest::Nothing,
        PluginResponse::Ignored => AnswerRequest::Nothing,
    }
}

/// How one media file is sent, given what the disk says of it.
pub enum MediaRequest {
    /// The file is not there: this message instead.
    Missing(String),
    /// The file is over Telegram's 50 MB limit: this notice instead.
    TooLarge(String),
    Audio,
    Video,
}

/// A known size over Telegram's upload limit of 50 MiB.
pub open spec fn over_upload_limit(size: Option<u64>) -> bool {
    match size {
        Some(n) => n > 52428800,
        None => false,
    }
}

/// The request for a media file: missing, too large (over 50 MiB), else audio
/// for `.mp3`, `.ogg` and `.m4a` and video for the rest. `size` is `None` when
/// the file's size could not be read, and the file is then sent.
pub fn media_request(file_path: &str, exists: bool, size: Option<u64>) -> (r: MediaRequest)
    ensures
        !exists ==> (r matches MediaRequest::Missing(m) && m@ == "❌ Медиа файл не найден: "@ + file_path@),
        exists && over_upload_limit(size) ==> (r matches MediaRequest::TooLarge(m) && m@
            == "⚠️ <b>Файл скачан на сервер ("@ + dec((size.unwrap() / 1048576) as nat)
            + " MB)</b>, но превышает лимит загрузки Telegram Bot API (50 MB).\n\n📁 <b>Путь:</b> <code>"@
            + file_path@ + "</code>"@),
        exists && !over_upload_limit(size) ==> (r is Audio <==> (crate::text::has_suffix(file_path@, ".mp3"@)
            || crate::text::has_suffix(file_path@, ".ogg"@) || crate::text::has_suffix(file_path@, ".m4a"@))),
        exists && !over_upload_limit(size) ==> (r is Audio || r is Video),
{
    if !exists {
        return MediaRequest::Missing(missing_media_message(file_path));
    }
    match size {
        Some(n) => {
            if n > 52428800 {
                return MediaRequest::TooLarge(too_large_message(n, file_path));
            }
        },
        None => {},
    }
    if is_audio_file(file_path) {
        MediaRequest::Audio
    } else {
        MediaRequest::Video
    }
}

/// A gallery sent as albums of at most ten photos; the caption goes with the
/// first photo of the first album.
pub open spec fn photo_albums_spec(paths: Seq<Seq<char>>, caption: Option<Seq<char>>) -> Seq<Seq<(Seq<char>, Option<Seq<char>>)>> {
    Seq::new(
        ((paths.len() + 9) / 10) as nat,
        |c: int|
            Seq::new(
                if paths.len() - c * 10 >= 10 { 10nat } else { (paths.len() - c * 10) as nat },
                |i: int| (paths[c * 10 + i], if c == 0 && i == 0 { caption } else { None }),
            ),
    )
}

pub open spec fn album_views(v: Seq<Vec<(String, Option<String>)>>) -> Seq<Seq<(Seq<char>, Option<Seq<char>>)>> {
    v.map_values(|a: Vec<(String, Option<String>)>| a@.map_values(|p: (String, Option<String>)| (p.0@, opt_seq(p.1))))
}

/// The albums of a gallery (see `photo_albums_spec`).
pub fn photo_albums(paths: &Vec<String>, caption: &Option<String>) -> (r: Vec<Vec<(String, Option<String>)>>)
    ensures
        album_views(r@) =~~= photo_albums_spec(views(paths@), opt_seq(*caption)),
{
    let ghost ps = views(paths@);
    let ghost cap = opt_seq(*caption);
    let mut out: Vec<Vec<(String, Option<String>)>> = Vec::new();
    let mut c: usize = 0;
    let mut start: usize = 0;
    while start < paths.len()
        invariant
            start == (if c * 10 <= paths.len() { c * 10 } else { paths.len() as int }),
            c <= (paths.len() + 9) / 10,
            start <= paths.len(),
            start < paths.len() ==> c * 10 < paths.len(),
            ps == views(paths@),
            cap == opt_seq(*caption),
            out@.len() == c,
            forall|j: int| 0 <= j < c ==> #[trigger] album_views(out@)[j] =~~= photo_albums_spec(ps, cap)[j],
        decreases paths.len() - start,
    {
        let end = if paths.len() - start >= 10 {
            start + 10
        } else {
            paths.len()
        };
        let mut album: Vec<(String, Option<String>)> = Vec::new();
        let mut i = start;
        while i < end
            invariant
                start <= i <= end <= paths.len(),
                end - start <= 10,
                start == c * 10,
                ps == views(paths@),
                cap == opt_seq(*caption),
                album@.len() == i - start,
                forall|k: int| 0 <= k < i - start ==> (#[trigger] album@[k]).0@ == ps[start + k] && opt_seq(album@[k].1) == (if c == 0 && k == 0 { cap } else { None }),
            decreases end - i,
        {
            let cap_here = if c == 0 && i == start {
                match caption {
                    Some(x) => Some(x.clone()),
                    None => None,
                }
            } else {
                None
            };
            album.push((paths[i].clone(), cap_here));
            i = i + 1;
        }
        let ghost prev = out@;
        out.push(album);
        proof {
            let a = album_views(out@)[c as int];
            let e = photo_albums_spec(ps, cap)[c as int];
            assert(a.len() == e.len());
            assert forall|k: int| 0 <= k < a.len() implies a[k] == e[k] by {
                assert(album@[k].0@ == ps[start + k]);
            }
            assert(a =~~= e);
            assert forall|j: int| 0 <= j < c + 1 implies #[trigger] album_views(out@)[j] =~~= photo_albums_spec(ps, cap)[j] by {
                if j < c {
                    assert(album_views(out@)[j] == album_views(prev)[j]);
                }
            }
        }
        c = c + 1;
        start = end;
    }
    proof {
        assert(c == (paths@.len() + 9) / 10);
        assert(album_views(out@).len() == photo_albums_spec(ps, cap).len());
    }
    out
}

// ── Diary texts ─────────────────────────────────────────────

/// A month's name in the genitive, as dates are written in Russian.
pub open spec fn russian_month_spec(m: u32) -> Seq<char> {
    if m == 1 { "января"@ } else if m == 2 { "февраля"@ } else if m == 3 { "марта"@ }
    else if m == 4 { "апреля"@ } else if m == 5 { "мая"@ } else if m == 6 { "июня"@ }
    else if m == 7 { "июля"@ } else if m == 8 { "августа"@ } else if m == 9 { "сентября"@ }
    else if m == 10 { "октября"@ } else if m == 11 { "ноября"@ } else if m == 12 { "декабря"@ }
    else { Seq::empty() }
}

/// A month's name in the genitive (see `russian_month_spec`); empty for no month.
pub fn russian_month(m: u32) -> (r: &'static str)
    ensures
        r@ == russian_month_spec(m),
{
    proof {
        reveal_strlit("");
    }
    match m {
        1 => "января",
        2 => "февраля",
        3 => "марта",
        4 => "апреля",
        5 => "мая",
        6 => "июня",
        7 => "июля",
        8 => "августа",
        9 => "сентября",
        10 => "октября",
        11 => "ноября",
        12 => "декабря",
        _ => "",
    }
}

/// A day of the week.
#[derive(PartialEq, Eq, Structural, Clone, Copy, Debug)]
pub enum Weekday {
    Mon,
    Tue,
    Wed,
    Thu,
    Fri,
    Sat,
    Sun,
}

/// A weekday's name in Russian.
pub fn russian_weekday(d: Weekday) -> (r: &'static str)
    ensures
        r@ == (match d {
            Weekday::Mon => "Понедельник"@,
            Weekday::Tue => "Вторник"@,
            Weekday::Wed => "Среда"@,
            Weekday::Thu => "Четверг"@,
            Weekday::Fri => "Пятница"@,
            Weekday::Sat => "Суббота"@,
            Weekday::Sun => "Воскресенье"@,
        }),
{
    match d {
        Weekday::Mon => "Понедельник",
        Weekday::Tue => "Вторник",
        Weekday::Wed => "Среда",
        Weekday::Thu => "Четверг",
        Weekday::Fri => "Пятница",
        Weekday::Sat => "Суббота",
        Weekday::Sun => "Воскресенье",
    }
}

/// Where the evening review stands.
#[derive(PartialEq, Eq, Structural, Clone, Copy, Debug)]
pub enum ReviewState {
    /// The day's facts are shown and the review has not begun.
    Greeting,
    AskingDayRating,
    AskingMood,
    AskingEnergy,
    AskingStress,
    AskingMotivation,
    AskingProductivity,
    AskingSleep,
    AskingExercise,
    AskingGoodEvents,
    AskingBadEvents,
    AskingFreeThoughts,
    Complete,
}

/// The question asked in a state of the review.
pub open spec fn question_spec(s: ReviewState) -> Seq<char> {
    match s {
        ReviewState::AskingDayRating => "📊 Как оценишь сегодняшний день?"@,
        ReviewState::AskingMood => "😊 Настроение?"@,
        ReviewState::AskingEnergy => "⚡ Энергия?"@,
        ReviewState::AskingStress => "😰 Стресс? (1 = сильный, 10 = нет стресса)"@,
        ReviewState::AskingMotivation => "🔥 Мотивация?"@,
        ReviewState::AskingProductivity => "🎯 Продуктивность?"@,
        ReviewState::AskingSleep => "😴 Сколько часов сна? (напиши число)"@,
        ReviewState::AskingExercise => "🏃 Была тренировка?"@,
        ReviewState::AskingGoodEvents => "🌟 Напиши хорошие события за сегодня.\nКаждое с новой строки."@,
        ReviewState::AskingBadEvents => "😔 Напиши плохие события / что расстроило.\n(Напиши \"нет\" если день был идеальный)"@,
        ReviewState::AskingFreeThoughts => "💭 Свободные мысли, размышления, идеи.\n(Напиши \"skip\" чтобы пропустить)"@,
        ReviewState::Complete => "✨ Обзор завершён!"@,
        ReviewState::Greeting => Seq::empty(),
    }
}

/// The question asked in a state of the review (see `question_spec`).
pub fn metric_question_text(s: ReviewState) -> (r: &'static str)
    ensures
        r@ == question_spec(s),
{
    proof {
        reveal_strlit("");
    }
    match s {
        ReviewState::AskingDayRating => "📊 Как оценишь сегодняшний день?",
        ReviewState::AskingMood => "😊 Настроение?",
        ReviewState::AskingEnergy => "⚡ Энергия?",
        ReviewState::AskingStress => "😰 Стресс? (1 = сильный, 10 = нет стресса)",
        ReviewState::AskingMotivation => "🔥 Мотивация?",
        ReviewState::AskingProductivity => "🎯 Продуктивность?",
        ReviewState::AskingSleep => "😴 Сколько часов сна? (напиши число)",
        ReviewState::AskingExercise => "🏃 Была тренировка?",
        ReviewState::AskingGoodEvents => "🌟 Напиши хорошие события за сегодня.\nКаждое с новой строки.",
        ReviewState::AskingBadEvents => "😔 Напиши плохие события / что расстроило.\n(Напиши \"нет\" если день был идеальный)",
        ReviewState::AskingFreeThoughts => "💭 Свободные мысли, размышления, идеи.\n(Напиши \"skip\" чтобы пропустить)",
        ReviewState::Complete => "✨ Обзор завершён!",
        ReviewState::Greeting => "",
    }
}

/// The 1..10 questions are answered with the scale keyboard.
pub open spec fn needs_scale_spec(s: ReviewState) -> bool {
    s == ReviewState::AskingDayRating || s == ReviewState::AskingMood || s == ReviewState::AskingEnergy
        || s == ReviewState::AskingStress || s == ReviewState::AskingMotivation || s
        == ReviewState::AskingProductivity
}

/// Whether a state's question is answered with the scale keyboard.
pub fn needs_scale_keyboard(s: ReviewState) -> (b: bool)
    ensures
        b == needs_scale_spec(s),
{
    match s {
        ReviewState::AskingDayRating | ReviewState::AskingMood | ReviewState::AskingEnergy
        | ReviewState::AskingStress | ReviewState::AskingMotivation | ReviewState::AskingProductivity => true,
        _ => false,
    }
}

/// A city name in a weather address: spaces as `+`, slashes as `%2F`.
pub fn city_urlencode(s: &str) -> (r: String)
    ensures
        r@ == replace_spec(replace_spec(s@, " "@, "+"@), "/"@, "%2F"@),
{
    proof {
        reveal_strlit(" ");
        reveal_strlit("/");
    }
    let a = replace_str(s, " ", "+");
    replace_str(a.as_str(), "/", "%2F")
}

// ── Graph of the vault ──────────────────────────────────────

/// The non-overlapping occurrences of `p` in `s`, scanned left to right, as
/// `str::matches(p).count()`.
pub open spec fn count_occ(s: Seq<char>, p: Seq<char>) -> nat
    decreases s.len(),
{
    if p.len() == 0 || s.len() < p.len() {
        0
    } else if s.subrange(0, p.len() as int) == p {
        1 + count_occ(s.skip(p.len() as int), p)
    } else {
        count_occ(s.drop_first(), p)
    }
}

/// The links `[[...]]` of a note, counted by their openings.
pub fn count_wikilinks(content: &str) -> (r: usize)
    ensures
        r == count_occ(content@, "[["@),
{
    proof {
        reveal_strlit("[[");
    }
    let v = chars_of(content);
    let p = chars_of("[[");
    let mut n: usize = 0;
    let mut i: usize = 0;
    assert(v@.skip(0) =~= v@);
    assert("[["@ =~= seq!['[', '[']);
    while i < v.len()
        invariant
            i <= v.len(),
            v@ == content@,
            p@ == "[["@,
            p@ == seq!['[', '['],
            n <= i,
            count_occ(content@, "[["@) == n + count_occ(v@.skip(i as int), "[["@),
        decreases v.len() - i,
    {
        let ghost rest = v@.skip(i as int);
        if matches_at_2(&v, &p, i) {
            assert(rest.subrange(0, 2) =~= v@.subrange(i as int, i + 2));
            assert(rest.skip(2) =~= v@.skip(i + 2));
            n = n + 1;
            i = i + 2;
        } else {
            proof {
                if rest.len() >= 2 {
                    assert(rest.subrange(0, 2) =~= v@.subrange(i as int, i + 2));
                }
            }
            assert(rest.drop_first() =~= v@.skip(i + 1));
            i = i + 1;
        }
    }
    assert(v@.skip(i as int).len() == 0);
    n
}

fn matches_at_2(v: &Vec<char>, p: &Vec<char>, i: usize) -> (b: bool)
    requires
        p@.len() == 2,
        i <= v@.len(),
    ensures
        b == (i + 2 <= v@.len() && v@.subrange(i as int, i + 2) == p@),
{
    if v.len() - i < 2 {
        return false;
    }
    let b = v[i] == p[0] && v[i + 1] == p[1];
    proof {
        if b {
            assert(v@.subrange(i as int, i + 2) =~= p@);
        } else if v@.subrange(i as int, i + 2) == p@ {
            assert(v@.subrange(i as int, i + 2)[0] == v@[i as int]);
            assert(v@.subrange(i as int, i + 2)[1] == v@[i + 1]);
        }
    }
    b
}

/// The tag a word names: a `#` word longer than one byte, without the
/// surrounding characters that are not letters, digits, `_` or `-`, lower-cased.
pub open spec fn word_tag_spec(w: Seq<char>) -> Option<Seq<char>> {
    if w.len() > 0 && w[0] == '#' && vstd::utf8::encode_utf8(w).len() > 1 {
        let t = crate::text::unicode_lowercase(crate::text::trim_set(w, CharSet::NotTagChar));
        if t.len() > 0 {
            Some(t)
        } else {
            None
        }
    } else {
        None
    }
}

/// The tag a word names (see `word_tag_spec`).
pub fn word_tag(w: &str) -> (r: Option<String>)
    ensures
        opt_seq(r) == word_tag_spec(w@),
{
    let v = chars_of(w);
    if v.len() > 0 && v[0] == '#' && w.as_bytes().len() > 1 {
        let t = crate::text::to_lowercase(crate::text::trim_matching(w, CharSet::NotTagChar).as_str());
        if chars_of(t.as_str()).len() > 0 {
            Some(t)
        } else {
            None
        }
    } else {
        None
    }
}

/// The tags of the words of a text, in order.
pub open spec fn tags_of_words(ws: Seq<Seq<char>>) -> Seq<Seq<char>>
    decreases ws.len(),
{
    if ws.len() == 0 {
        Seq::empty()
    } else {
        let prev = tags_of_words(ws.drop_last());
        match word_tag_spec(ws.last()) {
            Some(t) => prev.push(t),
            None => prev,
        }
    }
}

/// Each distinct tag with how often it occurs, in order of first occurrence.
pub open spec fn tally_spec(tags: Seq<Seq<char>>) -> Seq<(Seq<char>, nat)>
    decreases tags.len(),
{
    if tags.len() == 0 {
        Seq::empty()
    } else {
        let prev = tally_spec(tags.drop_last());
        let t = tags.last();
        match tally_index(prev, t) {
            Some(k) => prev.update(k, (t, prev[k].1 + 1)),
            None => prev.push((t, 1)),
        }
    }
}

/// Where a tag stands in a tally.
pub open spec fn tally_index(s: Seq<(Seq<char>, nat)>, t: Seq<char>) -> Option<int> {
    if exists|k: int| 0 <= k < s.len() && (#[trigger] s[k]).0 == t {
        Some(choose|k: int| 0 <= k < s.len() && (#[trigger] s[k]).0 == t)
    } else {
        None
    }
}

/// A tally names each tag once.
pub open spec fn distinct_tags(s: Seq<(Seq<char>, nat)>) -> bool {
    forall|a: int, b: int| 0 <= a < b < s.len() ==> (#[trigger] s[a]).0 != (#[trigger] s[b]).0
}

pub open spec fn tally_views(v: Seq<(String, usize)>) -> Seq<(Seq<char>, nat)> {
    v.map_values(|p: (String, usize)| (p.0@, p.1 as nat))
}

/// Count the tags of one more text into a tally (see `tally_spec`).
pub fn tally_tags(tally: &mut Vec<(String, usize)>, text: &str)
    requires
        distinct_tags(tally_views(old(tally)@)),
        tally_views(old(tally)@).len() + words_spec(text@).len() <= usize::MAX,
        forall|k: int| 0 <= k < old(tally)@.len() ==> (#[trigger] old(tally)@[k]).1 + words_spec(text@).len() <= usize::MAX,
    ensures
        distinct_tags(tally_views(final(tally)@)),
        tally_views(final(tally)@) == tally_fold(tally_views(old(tally)@), tags_of_words(words_spec(text@))),
{
    let ws = split_whitespace(text);
    let ghost start = tally_views(tally@);
    let mut i: usize = 0;
    while i < ws.len()
        invariant
            i <= ws.len(),
            views(ws@) == words_spec(text@),
            distinct_tags(tally_views(tally@)),
            tally_views(tally@) == tally_fold(start, tags_of_words(views(ws@).take(i as int))),
            tally_views(tally@).len() <= start.len() + i,
            forall|k: int| 0 <= k < tally@.len() ==> (#[trigger] tally@[k]).1 <= (if k < start.len() { start[k].1 } else { 0 }) + i,
            start.len() + ws@.len() <= usize::MAX,
            forall|k: int| 0 <= k < start.len() ==> (#[trigger] start[k]).1 + ws@.len() <= usize::MAX,
        decreases ws.len() - i,
    {
        assert(views(ws@).take(i + 1).drop_last() =~= views(ws@).take(i as int));
        let ghost tags_before = tags_of_words(views(ws@).take(i as int));
        let ghost before = tally_views(tally@);
        match word_tag(ws[i].as_str()) {
            Some(t) => {
                assert(tags_of_words(views(ws@).take(i + 1)) == tags_before.push(t@));
                assert(tags_before.push(t@).drop_last() =~= tags_before);
                match find_tag(tally, t.as_str()) {
                    Some(k) => {
                        let cnt = tally[k].1;
                        let name = tally[k].0.clone();
                        tally.set(k, (name, cnt + 1));
                        assert(tally_views(tally@) =~= before.update(k as int, (t@, before[k as int].1 + 1)));
                    },
                    None => {
                        tally.push((t, 1));
                        assert(tally_views(tally@) =~= before.push((t@, 1)));
                        assert(distinct_tags(tally_views(tally@))) by {
                            assert forall|a: int, b: int| 0 <= a < b < tally_views(tally@).len() implies
                                (#[trigger] tally_views(tally@)[a]).0 != (#[trigger] tally_views(tally@)[b]).0 by {
                                if b == before.len() {
                                    assert(tally_views(tally@)[a] == before[a]);
                                }
                            }
                        }
                    },
                }
            },
            None => {
                assert(tags_of_words(views(ws@).take(i + 1)) == tags_before);
            },
        }
        i = i + 1;
    }
    assert(views(ws@).take(ws.len() as int) =~= views(ws@));
}

fn find_tag(tally: &Vec<(String, usize)>, t: &str) -> (r: Option<usize>)
    requires
        distinct_tags(tally_views(tally@)),
    ensures
        match r {
            Some(k) => k < tally@.len() && tally_index(tally_views(tally@), t@) == Some(k as int),
            None => tally_index(tally_views(tally@), t@) is None,
        },
{
    let ghost tv = tally_views(tally@);
    let mut k: usize = 0;
    while k < tally.len()
        invariant
            k <= tally.len(),
            tv == tally_views(tally@),
            distinct_tags(tv),
            forall|j: int| 0 <= j < k ==> (#[trigger] tv[j]).0 != t@,
        decreases tally.len() - k,
    {
        if str_eq(tally[k].0.as_str(), t) {
            proof {
                assert(tv[k as int].0 == t@);
                let c = choose|j: int| 0 <= j < tv.len() && (#[trigger] tv[j]).0 == t@;
                if c < k {
                    assert(tv[c].0 != t@);
                } else if c > k {
                    assert(tv[k as int].0 != tv[c].0);
                }
            }
            return Some(k);
        }
        k = k + 1;
    }
    None
}

/// A tally extended by more tags.
pub open spec fn tally_fold(start: Seq<(Seq<char>, nat)>, tags: Seq<Seq<char>>) -> Seq<(Seq<char>, nat)>
    decreases tags.len(),
{
    if tags.len() == 0 {
        start
    } else {
        let prev = tally_fold(start, tags.drop_last());
        let t = tags.last();
        match tally_index(prev, t) {
            Some(k) => prev.update(k, (t, prev[k].1 + 1)),
            None => prev.push((t, 1)),
        }
    }
}

/// The sum of the counts of a tally.
pub open spec fn total_count(s: Seq<(Seq<char>, nat)>) -> nat
    decreases s.len(),
{
    if s.len() == 0 {
        0
    } else {
        total_count(s.drop_last()) + s.last().1
    }
}

proof fn lemma_total_count_bump(s: Seq<(Seq<char>, nat)>, k: int, t: Seq<char>)
    requires
        0 <= k < s.len(),
    ensures
        total_count(s.update(k, (t, s[k].1 + 1))) == total_count(s) + 1,
    decreases s.len(),
{
    let u = s.update(k, (t, s[k].1 + 1));
    if k == s.len() - 1 {
        assert(u.drop_last() =~= s.drop_last());
    } else {
        lemma_total_count_bump(s.drop_last(), k, t);
        assert(u.drop_last() =~= s.drop_last().update(k, (t, s[k].1 + 1)));
    }
}

/// Tallying counts every tag once: the counts grow by the number of tags.
pub proof fn lemma_tally_counts_every_tag(start: Seq<(Seq<char>, nat)>, tags: Seq<Seq<char>>)
    ensures
        total_count(tally_fold(start, tags)) == total_count(start) + tags.len(),
    decreases tags.len(),
{
    if tags.len() > 0 {
        lemma_tally_counts_every_tag(start, tags.drop_last());
        let prev = tally_fold(start, tags.drop_last());
        let t = tags.last();
        match tally_index(prev, t) {
            Some(k) => {
                assert(0 <= k < prev.len());
                lemma_total_count_bump(prev, k, t);
            },
            None => {
                assert(prev.push((t, 1nat)).drop_last() =~= prev);
            },
        }
    }
}

/// Where a tag goes among tags ranked by count: after all that occur at least as often.
pub open spec fn rank_pos(s: Seq<(Seq<char>, nat)>, x: (Seq<char>, nat)) -> int
    decreases s.len(),
{
    if s.len() == 0 {
        0
    } else if s[0].1 < x.1 {
        0
    } else {
        1 + rank_pos(s.drop_first(), x)
    }
}

/// Tags ranked by count, most frequent first, ties in tally order.
pub open spec fn ranked_spec(s: Seq<(Seq<char>, nat)>) -> Seq<(Seq<char>, nat)>
    decreases s.len(),
{
    if s.len() == 0 {
        s
    } else {
        let r = ranked_spec(s.drop_last());
        r.insert(rank_pos(r, s.last()), s.last())
    }
}

proof fn lemma_rank_pos_bound(s: Seq<(Seq<char>, nat)>, x: (Seq<char>, nat))
    ensures
        0 <= rank_pos(s, x) <= s.len(),
    decreases s.len(),
{
    if s.len() > 0 {
        lemma_rank_pos_bound(s.drop_first(), x);
    }
}

/// The tally ranked by count (see `ranked_spec`).
pub fn rank_tags(v: &Vec<(String, usize)>) -> (r: Vec<(String, usize)>)
    ensures
        tally_views(r@) == ranked_spec(tally_views(v@)),
{
    let mut sorted: Vec<(String, usize)> = Vec::new();
    let mut i: usize = 0;
    while i < v.len()
        invariant
            i <= v.len(),
            tally_views(sorted@) == ranked_spec(tally_views(v@).take(i as int)),
        decreases v.len() - i,
    {
        let ghost prefix = tally_views(v@).take(i as int);
        assert(tally_views(v@).take(i + 1).drop_last() =~= prefix);
        let name = v[i].0.clone();
        let cnt = v[i].1;
        let ghost x = (name@, cnt as nat);
        assert(tally_views(v@).take(i + 1).last() == x);
        let ghost cur = tally_views(sorted@);
        let mut p: usize = 0;
        assert(cur.skip(0) =~= cur);
        while p < sorted.len() && sorted[p].1 >= cnt
            invariant
                p <= sorted.len(),
                cur == tally_views(sorted@),
                x == (name@, cnt as nat),
                rank_pos(cur, x) == p + rank_pos(cur.skip(p as int), x),
            decreases sorted.len() - p,
        {
            assert(cur.skip(p as int).drop_first() =~= cur.skip(p + 1));
            assert(cur.skip(p as int)[0] == cur[p as int]);
            p = p + 1;
        }
        proof {
            if p < sorted.len() {
                assert(cur.skip(p as int)[0] == cur[p as int]);
            } else {
                assert(cur.skip(p as int).len() == 0);
            }
        }
        sorted.insert(p, (name, cnt));
        assert(tally_views(sorted@) =~= cur.insert(p as int, x));
        i = i + 1;
    }
    assert(tally_views(v@).take(v.len() as int) =~= tally_views(v@));
    sorted
}

/// A tag and its count as the report shows it.
pub open spec fn tag_entry(t: (Seq<char>, nat)) -> Seq<char> {
    "#"@ + t.0 + " ("@ + dec(t.1) + ")"@
}

/// The vault graph report: notes, links, distinct tags, and the eight most used tags.
pub open spec fn graph_report_spec(files: nat, links: nat, tally: Seq<(Seq<char>, nat)>) -> Seq<char> {
    let ranked = ranked_spec(tally);
    let top = if ranked.len() == 0 {
        "<i>теги не найдены</i>"@
    } else {
        join_spec(
            (if ranked.len() > 8 { ranked.take(8) } else { ranked }).map_values(
                |t: (Seq<char>, nat)| tag_entry(t),
            ),
            ", "@,
        )
    };
    "📄 Всего Markdown заметок: <b>"@ + dec(files) + "</b>\n🔗 Всего связей между заметками ([[ссылок]]): <b>"@
        + dec(links) + "</b>\n🏷 Уникальных тегов: <b>"@ + dec(tally.len()) + "</b>\n\n🔥 <b>Топ тегов:</b>\n"@
        + top
}

/// A tally ordered by count, most frequent first.
pub open spec fn sorted_by_count(s: Seq<(Seq<char>, nat)>) -> bool {
    forall|i: int, j: int| 0 <= i < j < s.len() ==> (#[trigger] s[i]).1 >= (#[trigger] s[j]).1
}

proof fn lemma_rank_pos_splits(r: Seq<(Seq<char>, nat)>, x: (Seq<char>, nat))
    ensures
        0 <= rank_pos(r, x) <= r.len(),
        forall|i: int| 0 <= i < rank_pos(r, x) ==> (#[trigger] r[i]).1 >= x.1,
        rank_pos(r, x) < r.len() ==> r[rank_pos(r, x)].1 < x.1,
    decreases r.len(),
{
    if r.len() > 0 && r[0].1 >= x.1 {
        let t = r.drop_first();
        lemma_rank_pos_splits(t, x);
        assert forall|i: int| 0 <= i < rank_pos(r, x) implies (#[trigger] r[i]).1 >= x.1 by {
            if i > 0 {
                assert(r[i] == t[i - 1]);
            }
        }
        if rank_pos(r, x) < r.len() {
            assert(r[rank_pos(r, x)] == t[rank_pos(t, x)]);
        }
    }
}

/// Ranking puts the tags in order of count, most frequent first, and keeps
/// every tag with its count: it is a reordering of the tally.
pub proof fn lemma_ranked_sorted(s: Seq<(Seq<char>, nat)>)
    ensures
        sorted_by_count(ranked_spec(s)),
        ranked_spec(s).to_multiset() =~= s.to_multiset(),
    decreases s.len(),
{
    broadcast use vstd::multiset::group_multiset_axioms;
    if s.len() > 0 {
        let r = ranked_spec(s.drop_last());
        let x = s.last();
        lemma_ranked_sorted(s.drop_last());
        lemma_rank_pos_splits(r, x);
        let p = rank_pos(r, x);
        let t = r.insert(p, x);
        r.insert_ensures(p, x);
        assert(ranked_spec(s) == t);
        assert forall|i: int, j: int| 0 <= i < j < t.len() implies (#[trigger] t[i]).1 >= (#[trigger] t[j]).1 by {
            if j < p {
                assert(t[i] == r[i] && t[j] == r[j]);
            } else if j == p {
                assert(t[i] == r[i]);
            } else if i < p {
                assert(t[i] == r[i] && t[j] == r[j - 1]);
                assert(r[i].1 >= x.1);
                assert(r[p].1 < x.1);
                if j - 1 > p {
                    assert(r[p].1 >= r[j - 1].1);
                }
            } else if i == p {
                assert(t[j] == r[j - 1]);
                assert(r[p].1 < x.1);
                if j - 1 > p {
                    assert(r[p].1 >= r[j - 1].1);
                }
            } else {
                assert(t[i] == r[i - 1] && t[j] == r[j - 1]);
            }
        }
        let a = r.subrange(0, p);
        let b = r.subrange(p, r.len() as int);
        assert(t =~= a.push(x) + b);
        assert(r =~= a + b);
        vstd::seq_lib::lemma_multiset_commutative(a.push(x), b);
        vstd::seq_lib::lemma_multiset_commutative(a, b);
        a.to_multiset_ensures();
        s.drop_last().to_multiset_ensures();
        assert(s =~= s.drop_last().push(x));
        assert(t.to_multiset() =~= a.to_multiset().insert(x).add(b.to_multiset()));
        assert(t.to_multiset() =~= r.to_multiset().insert(x));
    } else {
        assert(ranked_spec(s) =~= s);
    }
}

proof fn lemma_ranked_len(s: Seq<(Seq<char>, nat)>)
    ensures
        ranked_spec(s).len() == s.len(),
    decreases s.len(),
{
    if s.len() > 0 {
        lemma_ranked_len(s.drop_last());
        lemma_rank_pos_bound(ranked_spec(s.drop_last()), s.last());
    }
}

/// The vault graph report (see `graph_report_spec`).
pub fn graph_report(files: u64, links: u64, tally: &Vec<(String, usize)>) -> (r: String)
    ensures
        r@ == graph_report_spec(files as nat, links as nat, tally_views(tally@)),
{
    let ranked = rank_tags(tally);
    proof {
        lemma_ranked_len(tally_views(tally@));
    }
    let ghost rv = tally_views(ranked@);
    let mut parts: Vec<String> = Vec::new();
    let n: usize = if ranked.len() > 8 {
        8
    } else {
        ranked.len()
    };
    let ghost top = if rv.len() > 8 { rv.take(8) } else { rv };
    let mut i: usize = 0;
    while i < n
        invariant
            i <= n <= ranked.len(),
            n <= 8,
            rv == tally_views(ranked@),
            top == (if rv.len() > 8 { rv.take(8) } else { rv }),
            top.len() == n,
            views(parts@) == top.take(i as int).map_values(|t: (Seq<char>, nat)| tag_entry(t)),
        decreases n - i,
    {
        let mut e = owned("#");
        push_str(&mut e, ranked[i].0.as_str());
        push_str(&mut e, " (");
        push_dec(&mut e, ranked[i].1 as u64);
        push_str(&mut e, ")");
        let ghost prev = views(parts@);
        assert(top[i as int] == rv[i as int]);
        parts.push(e);
        assert(views(parts@) =~= prev.push(tag_entry(top[i as int])));
        assert(top.take(i + 1).map_values(|t: (Seq<char>, nat)| tag_entry(t)) =~= top.take(i as int).map_values(|t: (Seq<char>, nat)| tag_entry(t)).push(tag_entry(top[i as int])));
        i = i + 1;
    }
    assert(top.take(n as int) =~= top);
    let mut s = owned("📄 Всего Markdown заметок: <b>");
    push_dec(&mut s, files);
    push_str(&mut s, "</b>\n🔗 Всего связей между заметками ([[ссылок]]): <b>");
    push_dec(&mut s, links);
    push_str(&mut s, "</b>\n🏷 Уникальных тегов: <b>");
    push_dec(&mut s, tally.len() as u64);
    push_str(&mut s, "</b>\n\n🔥 <b>Топ тегов:</b>\n");
    if ranked.len() == 0 {
        push_str(&mut s, "<i>теги не найдены</i>");
    } else {
        push_str(&mut s, join(&parts, ", ").as_str());
    }
    assert(tally_views(tally@).len() == tally@.len());
    s
}

} // verus!
