//! Shared definitions of the system: entry ids, outputs, errors, entry types,
//! areas, PARA categories, entities, sources and events.

use vstd::prelude::*;
use vstd::std_specs::cmp::PartialEqSpecImpl;
use crate::text::{owned, push_str, str_eq, replace_spec, replace_str, take_chars, take_first_chars, to_lowercase, unicode_lowercase};

verus! {

// ── Ids ─────────────────────────────────────────────────────

/// A lower-case hexadecimal digit.
pub open spec fn is_lower_hex(c: char) -> bool {
    ('0' <= c <= '9') || ('a' <= c <= 'f')
}

/// The text of a random (version 4) UUID: 36 characters, hyphens at 8, 13, 18
/// and 23, lower-case hex digits elsewhere, `4` at 14 and one of `8`, `9`, `a`,
/// `b` at 19.
pub open spec fn is_uuid_v4_text(s: Seq<char>) -> bool {
    &&& s.len() == 36
    &&& forall|i: int|
        0 <= i < 36 ==> (if i == 8 || i == 13 || i == 18 || i == 23 {
            s[i] == '-'
        } else {
            is_lower_hex(#[trigger] s[i])
        })
    &&& s[14] == '4'
    &&& (s[19] == '8' || s[19] == '9' || s[19] == 'a' || s[19] == 'b')
}

/// `uuid::Uuid::new_v4().to_string()`: a random UUID in hyphenated lower-case
/// form. Which UUID comes is left open; only its form is stated.
#[verifier::external_body]
pub(crate) fn new_uuid() -> (r: String)
    ensures
        is_uuid_v4_text(r@),
{
    uuid::Uuid::new_v4().to_string()
}

/// A short random id: the first eight hex digits of a new UUID.
pub fn short_id() -> (r: String)
    ensures
        r@.len() == 8,
        forall|i: int| 0 <= i < 8 ==> is_lower_hex(#[trigger] r@[i]),
{
    let u = new_uuid();
    let r = take_first_chars(u.as_str(), 8);
    proof {
        assert forall|i: int| 0 <= i < 8 implies is_lower_hex(#[trigger] r@[i]) by {
            assert(r@[i] == u@[i]);
        }
    }
    r
}

/// The unique id of an entry.
#[derive(Debug, Clone, Hash)]
pub struct EntryId(pub String);

impl PartialEq for EntryId {
    fn eq(&self, other: &Self) -> (r: bool) {
        str_eq(self.0.as_str(), other.0.as_str())
    }
}

impl PartialEqSpecImpl for EntryId {
    open spec fn obeys_eq_spec() -> bool {
        true
    }

    open spec fn eq_spec(&self, other: &Self) -> bool {
        self.0@ == other.0@
    }
}

impl Eq for EntryId {}

impl EntryId {
    /// A new random id: a version 4 UUID.
    pub fn new() -> (r: Self)
        ensures
            is_uuid_v4_text(r.0@),
    {
        EntryId(new_uuid())
    }

    /// An id from an existing string.
    pub fn from_string(s: String) -> (r: Self)
        ensures
            r.0@ == s@,
    {
        EntryId(s)
    }

    /// The id as a string.
    pub fn as_str(&self) -> (r: &str)
        ensures
            r@ == self.0@,
    {
        self.0.as_str()
    }

    /// The id as it is displayed: the string itself.
    pub fn display(&self) -> (r: String)
        ensures
            r@ == self.0@,
    {
        self.0.clone()
    }
}

impl Default for EntryId {
    fn default() -> (r: Self)
        ensures
            is_uuid_v4_text(r.0@),
    {
        EntryId::new()
    }
}

// ── Outputs ─────────────────────────────────────────────────

/// Who removes a resource, and when.
#[derive(PartialEq, Eq, Structural, Clone, Copy, Debug)]
pub enum ResourceLifecycle {
    /// Removed once delivered.
    Temporary,
    /// Kept by the platform.
    Persistent,
    /// May be collected by the platform.
    Cached,
}

/// What an answer carries.
#[derive(Debug)]
pub enum OutputPayload {
    InlineText { text: String },
    Resource { resource_id: String },
}

/// An answer of the core to the outside world.
#[derive(Debug)]
pub struct Output {
    pub payload: OutputPayload,
    pub lifecycle: ResourceLifecycle,
}

impl Output {
    /// A text answer; nothing to remove afterwards.
    pub fn text(text: String) -> (r: Self)
        ensures
            r.payload matches OutputPayload::InlineText { text: t } && t@ == text@,
            r.lifecycle == ResourceLifecycle::Temporary,
    {
        Output { payload: OutputPayload::InlineText { text }, lifecycle: ResourceLifecycle::Temporary }
    }

    /// A resource the platform keeps.
    pub fn persistent_resource(resource_id: String) -> (r: Self)
        ensures
            r.payload matches OutputPayload::Resource { resource_id: id } && id@ == resource_id@,
            r.lifecycle == ResourceLifecycle::Persistent,
    {
        Output { payload: OutputPayload::Resource { resource_id }, lifecycle: ResourceLifecycle::Persistent }
    }

    /// A resource removed once delivered.
    pub fn temp_resource(resource_id: String) -> (r: Self)
        ensures
            r.payload matches OutputPayload::Resource { resource_id: id } && id@ == resource_id@,
            r.lifecycle == ResourceLifecycle::Temporary,
    {
        Output { payload: OutputPayload::Resource { resource_id }, lifecycle: ResourceLifecycle::Temporary }
    }
}

// ── Errors ──────────────────────────────────────────────────

/// The errors of the system, each with its message.
#[derive(Debug)]
pub enum BrainError {
    Ai(String),
    Classification(String),
    Vault(String),
    Parser(String),
    Config(String),
    Embedding(String),
    Graph(String),
    /// An input/output failure, by its message.
    Io(String),
    Serialization(String),
    NotFound(String),
    Telegram(String),
}

impl BrainError {
    /// The message of an error: its kind, then its detail.
    pub open spec fn message_spec(&self) -> Seq<char> {
        match self {
            BrainError::Ai(s) => "AI provider error: "@ + s@,
            BrainError::Classification(s) => "Classification failed: "@ + s@,
            BrainError::Vault(s) => "Vault error: "@ + s@,
            BrainError::Parser(s) => "Parser error: "@ + s@,
            BrainError::Config(s) => "Config error: "@ + s@,
            BrainError::Embedding(s) => "Embedding error: "@ + s@,
            BrainError::Graph(s) => "Graph error: "@ + s@,
            BrainError::Io(s) => "IO error: "@ + s@,
            BrainError::Serialization(s) => "Serialization error: "@ + s@,
            BrainError::NotFound(s) => "Not found: "@ + s@,
            BrainError::Telegram(s) => "Telegram error: "@ + s@,
        }
    }

    /// The message of an error (see `message_spec`).
    pub fn message(&self) -> (r: String)
        ensures
            r@ == self.message_spec(),
    {
        let (head, detail) = match self {
            BrainError::Ai(s) => ("AI provider error: ", s),
            BrainError::Classification(s) => ("Classification failed: ", s),
            BrainError::Vault(s) => ("Vault error: ", s),
            BrainError::Parser(s) => ("Parser error: ", s),
            BrainError::Config(s) => ("Config error: ", s),
            BrainError::Embedding(s) => ("Embedding error: ", s),
            BrainError::Graph(s) => ("Graph error: ", s),
            BrainError::Io(s) => ("IO error: ", s),
            BrainError::Serialization(s) => ("Serialization error: ", s),
            BrainError::NotFound(s) => ("Not found: ", s),
            BrainError::Telegram(s) => ("Telegram error: ", s),
        };
        let mut m = owned(head);
        push_str(&mut m, detail.as_str());
        m
    }
}

// ── Entry types ─────────────────────────────────────────────

/// What kind of note an entry is.
#[derive(PartialEq, Eq, Structural, Clone, Copy, Debug, Hash)]
pub enum EntryType {
    Idea,
    Project,
    Task,
    Goal,
    Knowledge,
    Thought,
    Diary,
    Person,
    Book,
    Article,
    Link,
    Quote,
    Habit,
    Problem,
    Solution,
    Finance,
}

/// Every entry type, in declaration order.
pub open spec fn all_entry_types() -> Seq<EntryType> {
    seq![
        EntryType::Idea, EntryType::Project, EntryType::Task, EntryType::Goal,
        EntryType::Knowledge, EntryType::Thought, EntryType::Diary, EntryType::Person,
        EntryType::Book, EntryType::Article, EntryType::Link, EntryType::Quote,
        EntryType::Habit, EntryType::Problem, EntryType::Solution, EntryType::Finance,
    ]
}

impl EntryType {
    /// Every entry type, in declaration order.
    pub fn all() -> (r: Vec<EntryType>)
        ensures
            r@ == all_entry_types(),
    {
        let r = vec![
            EntryType::Idea, EntryType::Project, EntryType::Task, EntryType::Goal,
            EntryType::Knowledge, EntryType::Thought, EntryType::Diary, EntryType::Person,
            EntryType::Book, EntryType::Article, EntryType::Link, EntryType::Quote,
            EntryType::Habit, EntryType::Problem, EntryType::Solution, EntryType::Finance,
        ];
        assert(r@ =~= all_entry_types());
        r
    }

    /// The Russian name of the type, as it is displayed.
    pub open spec fn label_spec(self) -> Seq<char> {
        match self {
            EntryType::Idea => "Идея"@,
            EntryType::Project => "Проект"@,
            EntryType::Task => "Задача"@,
            EntryType::Goal => "Цель"@,
            EntryType::Knowledge => "Знание"@,
            EntryType::Thought => "Мысль"@,
            EntryType::Diary => "Дневник"@,
            EntryType::Person => "Человек"@,
            EntryType::Book => "Книга"@,
            EntryType::Article => "Статья"@,
            EntryType::Link => "Ссылка"@,
            EntryType::Quote => "Цитата"@,
            EntryType::Habit => "Привычка"@,
            EntryType::Problem => "Проблема"@,
            EntryType::Solution => "Решение"@,
            EntryType::Finance => "Финансы"@,
        }
    }

    /// The Russian name of the type (see `label_spec`).
    pub fn label(&self) -> (r: &'static str)
        ensures
            r@ == self.label_spec(),
    {
        match self {
            EntryType::Idea => "Идея",
            EntryType::Project => "Проект",
            EntryType::Task => "Задача",
            EntryType::Goal => "Цель",
            EntryType::Knowledge => "Знание",
            EntryType::Thought => "Мысль",
            EntryType::Diary => "Дневник",
            EntryType::Person => "Человек",
            EntryType::Book => "Книга",
            EntryType::Article => "Статья",
            EntryType::Link => "Ссылка",
            EntryType::Quote => "Цитата",
            EntryType::Habit => "Привычка",
            EntryType::Problem => "Проблема",
            EntryType::Solution => "Решение",
            EntryType::Finance => "Финансы",
        }
    }
}

/// The list of all types names each type exactly once.
pub proof fn lemma_all_entry_types_distinct()
    ensures
        forall|i: int, j: int|
            0 <= i < j < 16 ==> #[trigger] all_entry_types()[i] != #[trigger] all_entry_types()[j],
        all_entry_types().len() == 16,
{
}

// ── Areas and categories ────────────────────────────────────

/// A domain of knowledge.
#[derive(Debug)]
pub enum Area {
    Programming,
    Health,
    Education,
    Finance,
    Career,
    Psychology,
    GameDev,
    Life,
    Relationships,
    Science,
    Art,
    Music,
    Custom(String),
}

impl Area {
    /// The name of an area as it is displayed: the variant's name, or the custom text.
    pub open spec fn name_spec(&self) -> Seq<char> {
        match self {
            Area::Programming => "Programming"@,
            Area::Health => "Health"@,
            Area::Education => "Education"@,
            Area::Finance => "Finance"@,
            Area::Career => "Career"@,
            Area::Psychology => "Psychology"@,
            Area::GameDev => "GameDev"@,
            Area::Life => "Life"@,
            Area::Relationships => "Relationships"@,
            Area::Science => "Science"@,
            Area::Art => "Art"@,
            Area::Music => "Music"@,
            Area::Custom(s) => s@,
        }
    }

    /// The name of an area (see `name_spec`).
    pub fn name(&self) -> (r: String)
        ensures
            r@ == self.name_spec(),
    {
        match self {
            Area::Programming => owned("Programming"),
            Area::Health => owned("Health"),
            Area::Education => owned("Education"),
            Area::Finance => owned("Finance"),
            Area::Career => owned("Career"),
            Area::Psychology => owned("Psychology"),
            Area::GameDev => owned("GameDev"),
            Area::Life => owned("Life"),
            Area::Relationships => owned("Relationships"),
            Area::Science => owned("Science"),
            Area::Art => owned("Art"),
            Area::Music => owned("Music"),
            Area::Custom(s) => s.clone(),
        }
    }
}

/// A category of the PARA method.
#[derive(PartialEq, Eq, Structural, Clone, Copy, Debug)]
pub enum ParaCategory {
    Projects,
    Areas,
    Resources,
    Archive,
    Inbox,
}

impl ParaCategory {
    /// The category's name as it is displayed.
    pub fn name(&self) -> (r: &'static str)
        ensures
            r@ == (match self {
                ParaCategory::Projects => "Projects"@,
                ParaCategory::Areas => "Areas"@,
                ParaCategory::Resources => "Resources"@,
                ParaCategory::Archive => "Archive"@,
                ParaCategory::Inbox => "Inbox"@,
            }),
    {
        match self {
            ParaCategory::Projects => "Projects",
            ParaCategory::Areas => "Areas",
            ParaCategory::Resources => "Resources",
            ParaCategory::Archive => "Archive",
            ParaCategory::Inbox => "Inbox",
        }
    }
}

// ── Entities and events ─────────────────────────────────────

/// The kind of an extracted entity.
#[derive(Debug)]
pub enum EntityType {
    Technology,
    Person,
    Place,
    Concept,
    Tool,
    Language,
    Framework,
    Project,
    Custom(String),
}

/// What `format!("{:?}", s)` writes for a string: it quoted, with Rust's
/// escapes.
pub uninterp spec fn debug_str_text(s: Seq<char>) -> Seq<char>;

/// A string as `Debug` writes it, by `format!("{:?}")`.
#[verifier::external_body]
fn debug_str(s: &str) -> (r: String)
    ensures
        r@ == debug_str_text(s@),
{
    format!("{:?}", s)
}

/// The name `Debug` gives an entity kind.
pub open spec fn entity_type_debug(t: EntityType) -> Seq<char> {
    match t {
        EntityType::Technology => "Technology"@,
        EntityType::Person => "Person"@,
        EntityType::Place => "Place"@,
        EntityType::Concept => "Concept"@,
        EntityType::Tool => "Tool"@,
        EntityType::Language => "Language"@,
        EntityType::Framework => "Framework"@,
        EntityType::Project => "Project"@,
        EntityType::Custom(s) => "Custom("@ + debug_str_text(s@) + ")"@,
    }
}

fn entity_type_debug_exec(t: &EntityType) -> (r: String)
    ensures
        r@ == entity_type_debug(*t),
{
    match t {
        EntityType::Technology => owned("Technology"),
        EntityType::Person => owned("Person"),
        EntityType::Place => owned("Place"),
        EntityType::Concept => owned("Concept"),
        EntityType::Tool => owned("Tool"),
        EntityType::Language => owned("Language"),
        EntityType::Framework => owned("Framework"),
        EntityType::Project => owned("Project"),
        EntityType::Custom(x) => {
            let mut r = owned("Custom(");
            push_str(&mut r, debug_str(x.as_str()).as_str());
            push_str(&mut r, ")");
            r
        },
    }
}

/// The id of an entity: its kind as `Debug` names it, `_`, and its name
/// lower-cased with spaces turned to `_`, all lower-cased.
pub open spec fn entity_id_spec(name: Seq<char>, t: EntityType) -> Seq<char> {
    unicode_lowercase(entity_type_debug(t) + "_"@ + replace_spec(unicode_lowercase(name), " "@, "_"@))
}

/// A known or extracted entity, the base object of the knowledge store.
/// (Its observations, which carry a fractional confidence, are kept apart.)
#[derive(Debug)]
pub struct Entity {
    pub id: String,
    pub name: String,
    pub aliases: Vec<String>,
    pub entity_type: EntityType,
    pub area: Option<Area>,
    pub summary: String,
    pub tags: Vec<String>,
    pub links: Vec<SemanticLink>,
    pub sources: Vec<EntrySource>,
}

impl Entity {
    /// A new entity of a name and kind, with its id (see `entity_id_spec`) and
    /// nothing else known.
    pub fn new(name: &str, entity_type: EntityType) -> (r: Self)
        ensures
            r.id@ == entity_id_spec(name@, entity_type),
            r.name@ == name@,
            r.entity_type == entity_type,
            r.aliases@.len() == 0,
            r.area is None,
            r.summary@.len() == 0,
            r.tags@.len() == 0,
            r.links@.len() == 0,
            r.sources@.len() == 0,
    {
        proof {
            reveal_strlit(" ");
        }
        let lower = to_lowercase(name);
        let spaced = replace_str(lower.as_str(), " ", "_");
        let mut full = entity_type_debug_exec(&entity_type);
        push_str(&mut full, "_");
        push_str(&mut full, spaced.as_str());
        let id = to_lowercase(full.as_str());
        Entity {
            id,
            name: owned(name),
            aliases: Vec::new(),
            entity_type,
            area: None,
            summary: String::new(),
            tags: Vec::new(),
            links: Vec::new(),
            sources: Vec::new(),
        }
    }
}

/// How an entity was matched to a known one.
#[derive(PartialEq, Eq, Structural, Clone, Copy, Debug)]
pub enum MatchMethod {
    Exact,
    Alias,
    Fuzzy,
    Semantic,
}

/// An edge of the semantic graph.
#[derive(Debug)]
pub struct SemanticLink {
    pub target: String,
    pub relation: String,
}

/// Where an entry came from.
#[derive(Debug)]
pub enum EntrySource {
    Telegram { user_id: u64, message_id: i32 },
    Cli,
    Web,
    Import,
}

/// A raw incoming event, stored before processing.
#[derive(Debug)]
pub struct RawEvent {
    pub id: String,
    /// For example `"telegram"`.
    pub source_type: String,
    pub source_id: String,
    pub external_id: Option<String>,
    /// The JSON as it was received.
    pub payload: String,
    pub text: String,
    /// `"pending"`, `"processing"`, `"completed"` or `"failed"`.
    pub status: String,
}

/// A processing job of a raw event.
#[derive(Debug)]
pub struct Job {
    pub id: String,
    pub raw_event_id: String,
    /// For example `"consolidate"`.
    pub job_type: String,
    /// `"pending"`, `"running"`, `"completed"` or `"failed"`.
    pub status: String,
}

/// The message the bot sends for a core answer: the text under a note that it
/// was recorded, or the saved resource's file name.
pub open spec fn output_message_spec(p: OutputPayload, file_name: Option<Seq<char>>) -> Seq<char> {
    match p {
        OutputPayload::InlineText { text } => "✅ <b>Готово! Записал в Obsidian.</b>\n\n"@ + text@,
        OutputPayload::Resource { resource_id } => "✅ <b>Готово!</b>\n📁 Сохранено: <code>"@ + (match file_name {
            Some(n) => n,
            None => resource_id@,
        }) + "</code>"@,
    }
}

/// The message for a core answer (see `output_message_spec`); `file_name` is
/// the resource's file name when it has one.
pub fn output_message(p: &OutputPayload, file_name: Option<&str>) -> (r: String)
    ensures
        r@ == output_message_spec(*p, match file_name {
            Some(n) => Some(n@),
            None => None,
        }),
{
    match p {
        OutputPayload::InlineText { text } => {
            let mut s = owned("✅ <b>Готово! Записал в Obsidian.</b>\n\n");
            push_str(&mut s, text.as_str());
            s
        },
        OutputPayload::Resource { resource_id } => {
            let mut s = owned("✅ <b>Готово!</b>\n📁 Сохранено: <code>");
            match file_name {
                Some(n) => push_str(&mut s, n),
                None => push_str(&mut s, resource_id.as_str()),
            }
            push_str(&mut s, "</code>");
            s
        },
    }
}

} // verus!
