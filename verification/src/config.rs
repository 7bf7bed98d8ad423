//! The configuration of the system: its sections and their defaults.

use vstd::prelude::*;
use crate::text::owned;

verus! {

// ── Defaults ────────────────────────────────────────────────

/// The vault's default location.
pub fn default_vault_path() -> (r: String)
    ensures
        r@ == "~/Obsidian/Brain"@,
{
    owned("~/Obsidian/Brain")
}

/// The folder of daily notes.
pub fn default_daily_folder() -> (r: String)
    ensures
        r@ == "Daily"@,
{
    owned("Daily")
}

/// The folder of note templates.
pub fn default_templates_folder() -> (r: String)
    ensures
        r@ == "Templates"@,
{
    owned("Templates")
}

/// The PARA projects folder.
pub fn default_projects() -> (r: String)
    ensures
        r@ == "Projects"@,
{
    owned("Projects")
}

/// The PARA areas folder.
pub fn default_areas() -> (r: String)
    ensures
        r@ == "Areas"@,
{
    owned("Areas")
}

/// The PARA resources folder.
pub fn default_resources() -> (r: String)
    ensures
        r@ == "Resources"@,
{
    owned("Resources")
}

/// The PARA archive folder.
pub fn default_archive() -> (r: String)
    ensures
        r@ == "Archive"@,
{
    owned("Archive")
}

/// The inbox folder.
pub fn default_inbox() -> (r: String)
    ensures
        r@ == "Inbox"@,
{
    owned("Inbox")
}

/// The AI provider used unless configured.
pub fn default_ai_provider() -> (r: String)
    ensures
        r@ == "ollama"@,
{
    owned("ollama")
}

/// The local Ollama server.
pub fn default_ollama_url() -> (r: String)
    ensures
        r@ == "http://localhost:11434"@,
{
    owned("http://localhost:11434")
}

/// The light Ollama model.
pub fn default_ollama_model() -> (r: String)
    ensures
        r@ == "gemma-light"@,
{
    owned("gemma-light")
}

/// The heavy Ollama model.
pub fn default_heavy_model() -> (r: String)
    ensures
        r@ == "gemma-heavy"@,
{
    owned("gemma-heavy")
}

/// The embedding model.
pub fn default_embedding_model() -> (r: String)
    ensures
        r@ == "nomic-embed-text"@,
{
    owned("nomic-embed-text")
}

/// The OpenAI model named when the field is missing.
pub fn default_openai_model() -> (r: String)
    ensures
        r@ == "gpt-4o-mini"@,
{
    owned("gpt-4o-mini")
}

/// The OpenAI API base address.
pub fn default_openai_url() -> (r: String)
    ensures
        r@ == "https://api.openai.com/v1"@,
{
    owned("https://api.openai.com/v1")
}

/// Where embeddings are stored.
pub fn default_storage() -> (r: String)
    ensures
        r@ == "memory"@,
{
    owned("memory")
}

/// The classification strategy.
pub fn default_strategy() -> (r: String)
    ensures
        r@ == "hybrid"@,
{
    owned("hybrid")
}

/// The entry type used when classification fails.
pub fn default_fallback_type() -> (r: String)
    ensures
        r@ == "thought"@,
{
    owned("thought")
}

/// The area used when classification fails.
pub fn default_fallback_area() -> (r: String)
    ensures
        r@ == "Life"@,
{
    owned("Life")
}

/// When the evening review starts.
pub fn default_review_time() -> (r: String)
    ensures
        r@ == "21:00"@,
{
    owned("21:00")
}

/// The time zone of the schedule.
pub fn default_timezone() -> (r: String)
    ensures
        r@ == "Asia/Yekaterinburg"@,
{
    owned("Asia/Yekaterinburg")
}

/// The city of the weather report.
pub fn default_city() -> (r: String)
    ensures
        r@ == "Yekaterinburg"@,
{
    owned("Yekaterinburg")
}

/// The birth date of the life statistics.
pub fn default_birth_date() -> (r: String)
    ensures
        r@ == "2000-01-01"@,
{
    owned("2000-01-01")
}

/// The log level.
pub fn default_log_level() -> (r: String)
    ensures
        r@ == "info"@,
{
    owned("info")
}

/// The longest AI answer, in tokens.
pub fn default_max_tokens() -> (r: u32)
    ensures
        r == 512,
{
    512
}

/// The embedding dimension.
pub fn default_dimension() -> (r: usize)
    ensures
        r == 768,
{
    768
}

/// The life expectancy of the life statistics, in years.
pub fn default_life_expectancy() -> (r: u32)
    ensures
        r == 80,
{
    80
}

/// The fewest data points an analysis needs.
pub fn default_min_data_points() -> (r: usize)
    ensures
        r == 7,
{
    7
}

/// The days of a trend window.
pub fn default_trend_window() -> (r: usize)
    ensures
        r == 14,
{
    14
}

/// Seconds between scheduler checks.
pub fn default_check_interval() -> (r: u64)
    ensures
        r == 60,
{
    60
}

/// The most reminders a day.
pub fn default_max_reminders() -> (r: u32)
    ensures
        r == 20,
{
    20
}

/// Switches that are on unless configured.
pub fn default_true() -> (r: bool)
    ensures
        r,
{
    true
}

// ── Sections ────────────────────────────────────────────────

/// The Telegram bot: its token and the users allowed to use it.
#[derive(Debug)]
pub struct TelegramConfig {
    pub bot_token: String,
    pub allowed_users: Vec<u64>,
}

impl Default for TelegramConfig {
    fn default() -> (r: Self)
        ensures
            r.bot_token@.len() == 0,
            r.allowed_users@.len() == 0,
    {
        TelegramConfig { bot_token: String::new(), allowed_users: Vec::new() }
    }
}

/// The folders of the PARA method.
#[derive(Debug)]
pub struct ParaConfig {
    pub projects: String,
    pub areas: String,
    pub resources: String,
    pub archive: String,
    pub inbox: String,
}

impl Default for ParaConfig {
    fn default() -> (r: Self)
        ensures
            r.projects@ == "Projects"@,
            r.areas@ == "Areas"@,
            r.resources@ == "Resources"@,
            r.archive@ == "Archive"@,
            r.inbox@ == "Inbox"@,
    {
        ParaConfig {
            projects: default_projects(),
            areas: default_areas(),
            resources: default_resources(),
            archive: default_archive(),
            inbox: default_inbox(),
        }
    }
}

/// The Obsidian vault.
#[derive(Debug)]
pub struct VaultConfig {
    pub path: String,
    pub daily_folder: String,
    pub templates_folder: String,
    pub para: ParaConfig,
}

impl Default for VaultConfig {
    fn default() -> (r: Self)
        ensures
            r.path@ == "~/Obsidian/Brain"@,
            r.daily_folder@ == "Daily"@,
            r.templates_folder@ == "Templates"@,
            r.para.projects@ == "Projects"@,
            r.para.areas@ == "Areas"@,
            r.para.resources@ == "Resources"@,
            r.para.archive@ == "Archive"@,
            r.para.inbox@ == "Inbox"@,
    {
        VaultConfig {
            path: default_vault_path(),
            daily_folder: default_daily_folder(),
            templates_folder: default_templates_folder(),
            para: ParaConfig::default(),
        }
    }
}

/// The local Ollama server and its models.
#[derive(Debug)]
pub struct OllamaConfig {
    pub base_url: String,
    pub model: String,
    pub heavy_model: String,
    pub embedding_model: String,
}

impl Default for OllamaConfig {
    fn default() -> (r: Self)
        ensures
            r.base_url@ == "http://localhost:11434"@,
            r.model@ == "gemma-light"@,
            r.heavy_model@ == "gemma-heavy"@,
            r.embedding_model@ == "nomic-embed-text"@,
    {
        OllamaConfig {
            base_url: default_ollama_url(),
            model: default_ollama_model(),
            heavy_model: default_heavy_model(),
            embedding_model: default_embedding_model(),
        }
    }
}

/// An OpenAI-compatible service. Its default leaves every field empty; the
/// model and address defaults apply to fields missing from a configuration file.
#[derive(Debug)]
pub struct OpenAiConfig {
    pub api_key: String,
    pub model: String,
    pub base_url: String,
    pub heavy_model: String,
    pub embedding_model: String,
}

impl Default for OpenAiConfig {
    fn default() -> (r: Self)
        ensures
            r.api_key@.len() == 0,
            r.model@.len() == 0,
            r.base_url@.len() == 0,
            r.heavy_model@.len() == 0,
            r.embedding_model@.len() == 0,
    {
        OpenAiConfig {
            api_key: String::new(),
            model: String::new(),
            base_url: String::new(),
            heavy_model: String::new(),
            embedding_model: String::new(),
        }
    }
}

/// The evening review and the life statistics.
#[derive(Debug)]
pub struct DiaryConfig {
    pub evening_review_time: String,
    pub timezone: String,
    pub city: String,
    pub life_expectancy_years: u32,
    pub birth_date: String,
}

impl Default for DiaryConfig {
    fn default() -> (r: Self)
        ensures
            r.evening_review_time@ == "21:00"@,
            r.timezone@ == "Asia/Yekaterinburg"@,
            r.city@ == "Yekaterinburg"@,
            r.life_expectancy_years == 80,
            r.birth_date@ == "2000-01-01"@,
    {
        DiaryConfig {
            evening_review_time: default_review_time(),
            timezone: default_timezone(),
            city: default_city(),
            life_expectancy_years: default_life_expectancy(),
            birth_date: default_birth_date(),
        }
    }
}

/// The analytics of diary data.
#[derive(Debug)]
pub struct AnalyticsConfig {
    pub min_data_points: usize,
    pub trend_window_days: usize,
    pub insight_generation: bool,
}

impl Default for AnalyticsConfig {
    fn default() -> (r: Self)
        ensures
            r.min_data_points == 7,
            r.trend_window_days == 14,
            r.insight_generation,
    {
        AnalyticsConfig {
            min_data_points: default_min_data_points(),
            trend_window_days: default_trend_window(),
            insight_generation: true,
        }
    }
}

/// The reminder scheduler.
#[derive(Debug)]
pub struct SchedulerConfig {
    pub check_interval_seconds: u64,
    pub max_reminders_per_day: u32,
}

impl Default for SchedulerConfig {
    fn default() -> (r: Self)
        ensures
            r.check_interval_seconds == 60,
            r.max_reminders_per_day == 20,
    {
        SchedulerConfig {
            check_interval_seconds: default_check_interval(),
            max_reminders_per_day: default_max_reminders(),
        }
    }
}

/// Logging: its level and an optional file.
#[derive(Debug)]
pub struct LoggingConfig {
    pub level: String,
    pub file: String,
}

impl Default for LoggingConfig {
    fn default() -> (r: Self)
        ensures
            r.level@ == "info"@,
            r.file@.len() == 0,
    {
        LoggingConfig { level: default_log_level(), file: String::new() }
    }
}

} // verus!
