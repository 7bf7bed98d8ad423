//! Prompts for the AI providers, the provider used when AI is off, and the
//! addresses and reply cleaning of the Gemini provider.

use vstd::prelude::*;
use crate::common::BrainError;
use crate::text::{has_infix, has_prefix, has_suffix, join, join_spec, owned, push_str, str_contains,
    str_ends_with, str_starts_with, trim, trim_set, trim_spec, views, CharSet};

verus! {

/// Builds the prompts sent to AI providers.
pub struct PromptBuilder;

pub open spec fn str_views(v: Seq<&str>) -> Seq<Seq<char>> {
    v.map_values(|s: &str| s@)
}

fn owned_all(v: &[&str]) -> (r: Vec<String>)
    ensures
        views(r@) == str_views(v@),
{
    let mut out: Vec<String> = Vec::new();
    let mut i: usize = 0;
    while i < v.len()
        invariant
            i <= v.len(),
            views(out@) == str_views(v@).take(i as int),
        decreases v.len() - i,
    {
        let ghost prev = out@;
        out.push(owned(v[i]));
        assert(views(out@) =~= views(prev).push(v@[i as int]@));
        assert(str_views(v@).take(i + 1) =~= str_views(v@).take(i as int).push(v@[i as int]@));
        i = i + 1;
    }
    assert(str_views(v@).take(v@.len() as int) =~= str_views(v@));
    out
}

impl PromptBuilder {
    /// Asks for exactly one of the categories, as a JSON object with a confidence.
    pub fn classification_prompt(text: &str, categories: &[&str]) -> (r: String)
        ensures
            r@ == "Classify the following text into EXACTLY ONE of these categories: "@ + join_spec(
                str_views(categories@),
                ", "@,
            ) + "\n\nText: \""@ + text@
                + "\"\n\nRespond with ONLY a JSON object: {\"category\": \"...\", \"confidence\": 0.0-1.0}\nDo not include markdown wrappers or extra text."@,
    {
        let cats = owned_all(categories);
        let mut s = owned("Classify the following text into EXACTLY ONE of these categories: ");
        push_str(&mut s, join(&cats, ", ").as_str());
        push_str(&mut s, "\n\nText: \"");
        push_str(&mut s, text);
        push_str(
            &mut s,
            "\"\n\nRespond with ONLY a JSON object: {\"category\": \"...\", \"confidence\": 0.0-1.0}\nDo not include markdown wrappers or extra text.",
        );
        s
    }

    /// Asks for the named entities of a text as a JSON array.
    pub fn entity_extraction_prompt(text: &str) -> (r: String)
        ensures
            r@ == "Extract named entities and core concepts from this text. Match the language of the original text.\nTypes: Technology, Person, Place, Concept, Tool, Project, Framework\n\nText: \""@
                + text@
                + "\"\n\nRespond with ONLY a JSON array of objects: [{\"name\": \"...\", \"type\": \"...\"}]. No other text."@,
    {
        let mut s = owned(
            "Extract named entities and core concepts from this text. Match the language of the original text.\nTypes: Technology, Person, Place, Concept, Tool, Project, Framework\n\nText: \"",
        );
        push_str(&mut s, text);
        push_str(
            &mut s,
            "\"\n\nRespond with ONLY a JSON array of objects: [{\"name\": \"...\", \"type\": \"...\"}]. No other text.",
        );
        s
    }

    /// Asks for a short title of an entry of the given type.
    pub fn title_prompt(text: &str, entry_type: &str) -> (r: String)
        ensures
            r@ == "Create a short, natural, descriptive title (2-5 words) for this "@ + entry_type@
                + " entry in the SAME LANGUAGE as the text:\n\""@ + text@
                + "\"\n\nRespond with ONLY the plain title text. No quotes, no markdown, no prefixes."@,
    {
        let mut s = owned("Create a short, natural, descriptive title (2-5 words) for this ");
        push_str(&mut s, entry_type);
        push_str(&mut s, " entry in the SAME LANGUAGE as the text:\n\"");
        push_str(&mut s, text);
        push_str(&mut s, "\"\n\nRespond with ONLY the plain title text. No quotes, no markdown, no prefixes.");
        s
    }

    /// Asks for a one or two sentence summary.
    pub fn summary_prompt(text: &str) -> (r: String)
        ensures
            r@ == "Summarize the following message in 1-2 clear, direct sentences in the SAME LANGUAGE as the text. Focus on facts and action items without meta-talk:\n\""@
                + text@ + "\"\n\nRespond with ONLY the summary text."@,
    {
        let mut s = owned(
            "Summarize the following message in 1-2 clear, direct sentences in the SAME LANGUAGE as the text. Focus on facts and action items without meta-talk:\n\"",
        );
        push_str(&mut s, text);
        push_str(&mut s, "\"\n\nRespond with ONLY the summary text.");
        s
    }
}

/// The provider used when AI is switched off: every request fails.
pub struct NoopAiProvider;

impl NoopAiProvider {
    /// A completion fails: AI is disabled.
    pub fn complete(&self, prompt: &str) -> (r: Result<String, BrainError>)
        ensures
            r matches Err(BrainError::Ai(m)) && m@ == "AI disabled (NoopProvider)"@,
    {
        Err(BrainError::Ai(owned("AI disabled (NoopProvider)")))
    }

    /// A classification fails: AI is disabled.
    pub fn classify_error(&self) -> (r: BrainError)
        ensures
            r matches BrainError::Ai(m) && m@ == "AI disabled (NoopProvider)"@,
    {
        BrainError::Ai(owned("AI disabled (NoopProvider)"))
    }

    /// An embedding fails: embeddings are disabled.
    pub fn embed_error(&self) -> (r: BrainError)
        ensures
            r matches BrainError::Ai(m) && m@ == "Embeddings disabled (NoopProvider)"@,
    {
        BrainError::Ai(owned("Embeddings disabled (NoopProvider)"))
    }
}

// ── Gemini ──────────────────────────────────────────────────

/// A key or address of Vertex AI (the enterprise service).
pub open spec fn is_enterprise_spec(base: Seq<char>, key: Seq<char>) -> bool {
    has_prefix(key, "AQ."@) || has_infix(base, "aiplatform.googleapis.com"@)
}

/// `s` without trailing `/`.
pub open spec fn trim_slashes_end(s: Seq<char>) -> Seq<char>
    decreases s.len(),
{
    if s.len() > 0 && s.last() == '/' {
        trim_slashes_end(s.drop_last())
    } else {
        s
    }
}

/// The base address of the Gemini provider: the configured one, or the default
/// of its service when blank, without trailing slashes.
pub open spec fn gemini_base_spec(base: Seq<char>, key: Seq<char>) -> Seq<char> {
    let url = if trim_spec(base).len() == 0 {
        if is_enterprise_spec(base, key) {
            "https://us-central1-aiplatform.googleapis.com"@
        } else {
            "https://generativelanguage.googleapis.com/v1beta/openai"@
        }
    } else {
        base
    };
    trim_slashes_end(url)
}

/// The base address and service of the Gemini provider (see `gemini_base_spec`).
pub fn gemini_base(base: &str, key: &str) -> (r: (String, bool))
    ensures
        r.0@ == gemini_base_spec(base@, key@),
        r.1 == is_enterprise_spec(base@, key@),
{
    let enterprise = str_starts_with(key, "AQ.") || str_contains(base, "aiplatform.googleapis.com");
    let url = if crate::text::chars_of(trim(base).as_str()).len() == 0 {
        if enterprise {
            owned("https://us-central1-aiplatform.googleapis.com")
        } else {
            owned("https://generativelanguage.googleapis.com/v1beta/openai")
        }
    } else {
        owned(base)
    };
    let v = crate::text::chars_of(url.as_str());
    let mut end = v.len();
    assert(v@.take(v.len() as int) =~= v@);
    while end > 0 && v[end - 1] == '/'
        invariant
            end <= v.len(),
            v@ == url@,
            trim_slashes_end(url@) == trim_slashes_end(v@.take(end as int)),
        decreases end,
    {
        assert(v@.take(end as int).drop_last() =~= v@.take(end - 1));
        end = end - 1;
    }
    assert(v@.take(v.len() as int) =~= v@);
    let r = crate::text::string_from_range(v.as_slice(), 0, end);
    assert(r@ =~= v@.take(end as int));
    (r, enterprise)
}

/// An address that already names the API version.
pub open spec fn versioned(base: Seq<char>) -> bool {
    has_suffix(base, "/openai"@) || has_suffix(base, "/v1"@)
}

/// The chat completion endpoint of an OpenAI-compatible base address.
pub fn chat_endpoint(base: &str) -> (r: String)
    ensures
        r@ == base@ + (if versioned(base@) { "/chat/completions"@ } else { "/v1/chat/completions"@ }),
{
    let mut s = owned(base);
    if str_ends_with(base, "/openai") || str_ends_with(base, "/v1") {
        push_str(&mut s, "/chat/completions");
    } else {
        push_str(&mut s, "/v1/chat/completions");
    }
    s
}

/// The embeddings endpoint of an OpenAI-compatible base address.
pub fn embeddings_endpoint(base: &str) -> (r: String)
    ensures
        r@ == base@ + (if versioned(base@) { "/embeddings"@ } else { "/v1/embeddings"@ }),
{
    let mut s = owned(base);
    if str_ends_with(base, "/openai") || str_ends_with(base, "/v1") {
        push_str(&mut s, "/embeddings");
    } else {
        push_str(&mut s, "/v1/embeddings");
    }
    s
}

/// A JSON reply without a Markdown code fence: the trimmed reply, and when it
/// opens with a fence, the text between the fence (with or without `json`) and
/// the closing fence, trimmed. A reply without a closing fence is kept whole.
pub open spec fn clean_json_spec(reply: Seq<char>) -> Seq<char> {
    let t = trim_spec(reply);
    if has_prefix(t, "```"@) {
        let inner = if has_prefix(t, "```json"@) {
            t.skip(7)
        } else {
            t.skip(3)
        };
        let body = if has_suffix(inner, "```"@) {
            inner.take(inner.len() - 3)
        } else {
            t
        };
        trim_spec(body)
    } else {
        t
    }
}

/// A JSON reply without a Markdown code fence (see `clean_json_spec`).
pub fn clean_json_reply(reply: &str) -> (r: String)
    ensures
        r@ == clean_json_spec(reply@),
{
    let t = trim(reply);
    if !str_starts_with(t.as_str(), "```") {
        return t;
    }
    proof {
        reveal_strlit("```");
        reveal_strlit("```json");
    }
    let v = crate::text::chars_of(t.as_str());
    let start: usize = if str_starts_with(t.as_str(), "```json") {
        7
    } else {
        3
    };
    assert(v@.len() >= start);
    let inner = crate::text::string_from_range(v.as_slice(), start, v.len());
    assert(inner@ =~= t@.skip(start as int));
    let body = if str_ends_with(inner.as_str(), "```") {
        let iv = crate::text::chars_of(inner.as_str());
        let b = crate::text::string_from_range(iv.as_slice(), 0, iv.len() - 3);
        assert(b@ =~= inner@.take(inner@.len() - 3));
        b
    } else {
        t
    };
    trim(body.as_str())
}

// ── Classification answers ──────────────────────────────────

/// Whether a reply names category `k` (both compared lower-cased).
pub open spec fn names_category(reply: Seq<char>, cats: Seq<Seq<char>>, k: int) -> bool {
    has_infix(crate::text::unicode_lowercase(reply), crate::text::unicode_lowercase(cats[k]))
}

/// The last resort for a classification reply that is no JSON: the first
/// category the reply names, or the error that the reply cannot be read.
pub fn classification_fallback(reply: &str, categories: &[&str]) -> (r: Result<usize, BrainError>)
    ensures
        match r {
            Ok(k) => k < categories@.len() && names_category(reply@, str_views(categories@), k as int)
                && forall|j: int| 0 <= j < k ==> !names_category(reply@, str_views(categories@), j),
            Err(e) => (forall|j: int| 0 <= j < categories@.len() ==> !names_category(reply@, str_views(categories@), j))
                && (e matches BrainError::Ai(m) && m@ == "Cannot parse AI response: "@ + reply@),
        },
{
    let lower = crate::text::to_lowercase(reply);
    let mut i: usize = 0;
    while i < categories.len()
        invariant
            i <= categories.len(),
            lower@ == crate::text::unicode_lowercase(reply@),
            forall|j: int| 0 <= j < i ==> !names_category(reply@, str_views(categories@), j),
        decreases categories.len() - i,
    {
        let c = crate::text::to_lowercase(categories[i]);
        if str_contains(lower.as_str(), c.as_str()) {
            return Ok(i);
        }
        i = i + 1;
    }
    let mut m = owned("Cannot parse AI response: ");
    push_str(&mut m, reply);
    Err(BrainError::Ai(m))
}

// ── Service addresses and answers ───────────────────────────

/// The address of an OpenAI service's chat endpoint, under `/v1`.
pub fn openai_chat_url(base: &str) -> (r: String)
    ensures
        r@ == base@ + "/v1/chat/completions"@,
{
    let mut s = owned(base);
    push_str(&mut s, "/v1/chat/completions");
    s
}

/// The address of an OpenAI service's embeddings endpoint, under `/v1`.
pub fn openai_embeddings_url(base: &str) -> (r: String)
    ensures
        r@ == base@ + "/v1/embeddings"@,
{
    let mut s = owned(base);
    push_str(&mut s, "/v1/embeddings");
    s
}

/// The address of an Ollama server's generation or embedding endpoint.
pub fn ollama_url(base: &str, embed: bool) -> (r: String)
    ensures
        r@ == base@ + (if embed { "/api/embed"@ } else { "/api/generate"@ }),
{
    let mut s = owned(base);
    if embed {
        push_str(&mut s, "/api/embed");
    } else {
        push_str(&mut s, "/api/generate");
    }
    s
}

/// The region and project of the Vertex AI service.
pub fn vertex_location() -> (r: (&'static str, &'static str))
    ensures
        r.0@ == "us-central1"@,
        r.1@ == "568759207413"@,
{
    ("us-central1", "568759207413")
}

/// The address of a Vertex AI model's generation (or, for embeddings,
/// prediction) endpoint, with the key as a query parameter.
pub open spec fn vertex_url_spec(location: Seq<char>, project: Seq<char>, model: Seq<char>, key: Seq<char>, predict: bool) -> Seq<char> {
    "https://"@ + location + "-aiplatform.googleapis.com/v1/projects/"@ + project + "/locations/"@ + location
        + "/publishers/google/models/"@ + model + (if predict {
        ":predict?key="@
    } else {
        ":generateContent?key="@
    }) + key
}

/// The address of a Vertex AI model's endpoint (see `vertex_url_spec`).
pub fn vertex_url(location: &str, project: &str, model: &str, key: &str, predict: bool) -> (r: String)
    ensures
        r@ == vertex_url_spec(location@, project@, model@, key@, predict),
{
    let mut s = owned("https://");
    push_str(&mut s, location);
    push_str(&mut s, "-aiplatform.googleapis.com/v1/projects/");
    push_str(&mut s, project);
    push_str(&mut s, "/locations/");
    push_str(&mut s, location);
    push_str(&mut s, "/publishers/google/models/");
    push_str(&mut s, model);
    if predict {
        push_str(&mut s, ":predict?key=");
    } else {
        push_str(&mut s, ":generateContent?key=");
    }
    push_str(&mut s, key);
    s
}

/// The AI services and their endpoints.
#[derive(PartialEq, Eq, Structural, Clone, Copy, Debug)]
pub enum AiService {
    Vertex,
    Gemini,
    OpenAi,
    VertexEmbeddings,
    GeminiEmbeddings,
    OpenAiEmbeddings,
    OllamaEmbeddings,
}

/// The services that check the status of their replies.
#[derive(PartialEq, Eq, Structural, Clone, Copy, Debug)]
pub enum CheckedService {
    Vertex,
    Gemini,
    OpenAi,
    VertexEmbeddings,
    GeminiEmbeddings,
}

/// The words before the status of a request a service refused.
pub open spec fn api_error_head(s: CheckedService) -> Seq<char> {
    match s {
        CheckedService::Vertex => "Vertex AI error "@,
        CheckedService::Gemini => "Gemini API error "@,
        CheckedService::OpenAi => "OpenAI API error "@,
        CheckedService::VertexEmbeddings => "Vertex AI Embeddings error "@,
        CheckedService::GeminiEmbeddings => "Gemini Embeddings API error "@,
    }
}

/// The error of a request the service refused: its status and the body it sent.
pub fn api_error(s: CheckedService, status: &str, body: &str) -> (r: BrainError)
    ensures
        r matches BrainError::Ai(m) && m@ == api_error_head(s) + status@ + ": "@ + body@,
{
    let mut m = match s {
        CheckedService::Vertex => owned("Vertex AI error "),
        CheckedService::Gemini => owned("Gemini API error "),
        CheckedService::OpenAi => owned("OpenAI API error "),
        CheckedService::VertexEmbeddings => owned("Vertex AI Embeddings error "),
        CheckedService::GeminiEmbeddings => owned("Gemini Embeddings API error "),
    };
    push_str(&mut m, status);
    push_str(&mut m, ": ");
    push_str(&mut m, body);
    BrainError::Ai(m)
}

/// The error of a reply with no answer in it; Ollama's embedding errors are
/// embedding errors, the others AI errors.
pub open spec fn empty_reply_spec(s: AiService) -> (bool, Seq<char>) {
    match s {
        AiService::Vertex => (false, "Empty candidates in Vertex AI response"@),
        AiService::Gemini => (false, "Empty choices in Gemini response"@),
        AiService::OpenAi => (false, "Empty choices in response"@),
        AiService::VertexEmbeddings => (false, "No embedding returned from Vertex AI"@),
        AiService::GeminiEmbeddings => (false, "No embedding returned from Gemini"@),
        AiService::OpenAiEmbeddings => (false, "No embedding returned"@),
        AiService::OllamaEmbeddings => (true, "Empty embedding"@),
    }
}

/// The error of a reply with no answer in it (see `empty_reply_spec`).
pub fn empty_reply_error(s: AiService) -> (r: BrainError)
    ensures
        match r {
            BrainError::Ai(m) => !empty_reply_spec(s).0 && m@ == empty_reply_spec(s).1,
            BrainError::Embedding(m) => empty_reply_spec(s).0 && m@ == empty_reply_spec(s).1,
            _ => false,
        },
{
    match s {
        AiService::Vertex => BrainError::Ai(owned("Empty candidates in Vertex AI response")),
        AiService::Gemini => BrainError::Ai(owned("Empty choices in Gemini response")),
        AiService::OpenAi => BrainError::Ai(owned("Empty choices in response")),
        AiService::VertexEmbeddings => BrainError::Ai(owned("No embedding returned from Vertex AI")),
        AiService::GeminiEmbeddings => BrainError::Ai(owned("No embedding returned from Gemini")),
        AiService::OpenAiEmbeddings => BrainError::Ai(owned("No embedding returned")),
        AiService::OllamaEmbeddings => BrainError::Embedding(owned("Empty embedding")),
    }
}

/// `format!("{:?}", categories)`: the list as Rust's `Debug` writes it.
pub uninterp spec fn debug_list_text(items: Seq<Seq<char>>) -> Seq<char>;

/// The categories as Rust's `Debug` writes a list of strings; what that
/// format is, quoting and escaping included, is the name `debug_list_text`.
#[verifier::external_body]
fn debug_list(items: &[&str]) -> (r: String)
    ensures
        r@ == debug_list_text(str_views(items@)),
{
    format!("{:?}", items)
}

/// The short classification request of the OpenAI and Gemini services.
pub fn direct_classify_prompt(text: &str, categories: &[&str]) -> (r: String)
    ensures
        r@ == "Classify the following text into one of these categories: "@ + debug_list_text(str_views(categories@))
            + "\n\nText: "@ + text@ + "\n\nReturn only the category name."@,
{
    let mut s = owned("Classify the following text into one of these categories: ");
    push_str(&mut s, debug_list(categories).as_str());
    push_str(&mut s, "\n\nText: ");
    push_str(&mut s, text);
    push_str(&mut s, "\n\nReturn only the category name.");
    s
}

/// The category a short classification reply names: the trimmed reply when it
/// is one of the categories exactly, as its position.
pub fn exact_category(reply: &str, categories: &[&str]) -> (r: Option<usize>)
    ensures
        match r {
            Some(k) => k < categories@.len() && categories@[k as int]@ == trim_spec(reply@) && forall|j: int|
                0 <= j < k ==> (#[trigger] categories@[j])@ != trim_spec(reply@),
            None => forall|j: int| 0 <= j < categories@.len() ==> (#[trigger] categories@[j])@ != trim_spec(reply@),
        },
{
    let t = trim(reply);
    let mut i: usize = 0;
    while i < categories.len()
        invariant
            i <= categories.len(),
            t@ == trim_spec(reply@),
            forall|j: int| 0 <= j < i ==> (#[trigger] categories@[j])@ != trim_spec(reply@),
        decreases categories.len() - i,
    {
        if crate::text::str_eq(categories[i], t.as_str()) {
            return Some(i);
        }
        i = i + 1;
    }
    None
}

} // verus!
