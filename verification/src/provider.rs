//! The provider client's side of a request: configuration, the two request
//! envelopes and the reading of a response.

use crate::text::{decimal, decimal_string};
use vstd::prelude::*;

verus! {

/// Why a request to the provider gave no text. `T` is the type of the texts
/// carried: `String` in running code, `Seq<char>` in specifications.
#[derive(Debug, PartialEq, Eq)]
pub enum ApiError<T> {
    /// The request could not be sent or the response could not be read.
    Transport(T),
    /// The provider answered with a status outside 200 to 299.
    Status { status: u16, body: T },
    /// The body is not a response document of the provider.
    Malformed(T),
    /// The response document carries an error message.
    Provider(T),
    /// The response document holds no candidate.
    EmptyResult,
}

impl View for ApiError<String> {
    type V = ApiError<Seq<char>>;

    open spec fn view(&self) -> ApiError<Seq<char>> {
        match *self {
            ApiError::Transport(detail) => ApiError::Transport(detail@),
            ApiError::Status { status, body } => ApiError::Status { status, body: body@ },
            ApiError::Malformed(detail) => ApiError::Malformed(detail@),
            ApiError::Provider(message) => ApiError::Provider(message@),
            ApiError::EmptyResult => ApiError::EmptyResult,
        }
    }
}

/// The kind of backend that a session talks to.
#[derive(Clone, Copy, Debug, PartialEq, Eq)]
pub enum Provider {
    /// The Gemini-shaped protocol.
    Gemini,
    /// The OpenAI-compatible protocol.
    OpenAI,
}

/// Where requests go and how they are authorised.
#[derive(Debug, PartialEq, Eq)]
pub struct Config {
    pub api_key: String,
    pub base_url: String,
    pub model: String,
    pub provider: Provider,
}

/// Why no configuration could be made.
#[derive(Clone, Copy, Debug, PartialEq, Eq)]
pub enum ConfigError {
    /// No API key was given, or an empty one.
    MissingApiKey,
}

/// What to tell an operator who has set no API key.
pub const MISSING_KEY_HELP: &'static str = "API key not set.\n\
\n\
Set one of these environment variables:\n\
export WTF_API_KEY='your-key'      # For any provider\n\
export GEMINI_API_KEY='your-key'   # For Gemini (legacy)\n\
\n\
Get a free Gemini key at: https://aistudio.google.com/app/apikey";

impl ConfigError {
    /// The error as text for the operator.
    pub fn message(&self) -> (r: &'static str)
        ensures
            r@ == MISSING_KEY_HELP@,
    {
        MISSING_KEY_HELP
    }
}

/// The base URL of the Gemini backend.
pub const GEMINI_BASE_URL: &'static str = "https://generativelanguage.googleapis.com/v1beta";

/// The model asked of the Gemini backend where none is named.
pub const GEMINI_MODEL: &'static str = "gemini-2.0-flash";

/// The model asked of an OpenAI-compatible backend where none is named.
pub const OPENAI_MODEL: &'static str = "gpt-4o-mini";

/// The most tokens asked of an OpenAI-compatible backend.
pub const MAX_TOKENS: u32 = 500;

/// The text of an optional setting: empty where it is not set.
pub open spec fn setting(value: Option<String>) -> Seq<char> {
    match value {
        Some(text) => text@,
        None => Seq::empty(),
    }
}

/// The API key among the two that may be set: the first where it is set,
/// else the second.
pub open spec fn chosen_key(api_key: Option<String>, legacy_key: Option<String>) -> Option<
    Seq<char>,
> {
    match api_key {
        Some(key) => Some(key@),
        None => match legacy_key {
            Some(key) => Some(key@),
            None => None,
        },
    }
}

/// Whether no usable key is set: none at all, or an empty one chosen.
pub open spec fn key_missing(api_key: Option<String>, legacy_key: Option<String>) -> bool {
    match chosen_key(api_key, legacy_key) {
        Some(key) => key.len() == 0,
        None => true,
    }
}

impl Config {
    /// Whether the configuration is usable: key, base URL and model are not
    /// empty.
    pub open spec fn wf(&self) -> bool {
        self.api_key@.len() > 0 && self.base_url@.len() > 0 && self.model@.len() > 0
    }

    /// The configuration that the settings resolve to. A base URL selects an
    /// OpenAI-compatible backend; without one the Gemini backend is used.
    /// Without a model the backend's default is taken. Fails where no key is
    /// set, or the key chosen is empty.
    pub fn resolve(
        api_key: Option<String>,
        legacy_key: Option<String>,
        base_url: Option<String>,
        model: Option<String>,
    ) -> (r: Result<Config, ConfigError>)
        ensures
            r is Err <==> key_missing(api_key, legacy_key),
            r matches Ok(config) ==> {
                &&& config.wf()
                &&& Some(config.api_key@) == chosen_key(api_key, legacy_key)
                &&& (config.provider is Gemini) == (setting(base_url).len() == 0)
                &&& config.base_url@ == if setting(base_url).len() == 0 {
                    GEMINI_BASE_URL@
                } else {
                    setting(base_url)
                }
                &&& config.model@ == if setting(model).len() > 0 {
                    setting(model)
                } else if setting(base_url).len() == 0 {
                    GEMINI_MODEL@
                } else {
                    OPENAI_MODEL@
                }
            },
    {
        let key = match api_key {
            Some(key) => key,
            None => match legacy_key {
                Some(key) => key,
                None => {
                    return Err(ConfigError::MissingApiKey);
                },
            },
        };
        if key.as_str().unicode_len() == 0 {
            return Err(ConfigError::MissingApiKey);
        }
        let base_url = match base_url {
            Some(url) => url,
            None => String::new(),
        };
        let model = match model {
            Some(model) => model,
            None => String::new(),
        };
        let named = model.as_str().unicode_len() > 0;
        proof {
            reveal_strlit("https://generativelanguage.googleapis.com/v1beta");
            reveal_strlit("gemini-2.0-flash");
            reveal_strlit("gpt-4o-mini");
        }
        if base_url.as_str().unicode_len() == 0 {
            Ok(
                Config {
                    api_key: key,
                    base_url: String::from_str(GEMINI_BASE_URL),
                    model: if named {
                        model
                    } else {
                        String::from_str(GEMINI_MODEL)
                    },
                    provider: Provider::Gemini,
                },
            )
        } else {
            Ok(
                Config {
                    api_key: key,
                    base_url,
                    model: if named {
                        model
                    } else {
                        String::from_str(OPENAI_MODEL)
                    },
                    provider: Provider::OpenAI,
                },
            )
        }
    }
}

/// One piece of text in a Gemini document.
#[derive(Debug, PartialEq, Eq)]
pub struct Part {
    pub text: String,
}

/// A list of parts in a Gemini document.
#[derive(Debug, PartialEq, Eq)]
pub struct GeminiContent {
    pub parts: Vec<Part>,
}

/// The request document of the Gemini backend.
#[derive(Debug, PartialEq, Eq)]
pub struct GeminiRequest {
    pub contents: Vec<GeminiContent>,
    pub system_instruction: GeminiContent,
}

/// One message of an OpenAI-compatible request.
#[derive(Debug, PartialEq, Eq)]
pub struct Message {
    pub role: String,
    pub content: String,
}

/// The request document of an OpenAI-compatible backend.
#[derive(Debug, PartialEq, Eq)]
pub struct OpenAIRequest {
    pub model: String,
    pub messages: Vec<Message>,
    pub max_tokens: u32,
}

/// A request ready to be posted: where it goes, how it is authorised and
/// what it carries.
#[allow(inconsistent_fields)]
#[derive(Debug, PartialEq, Eq)]
pub enum Envelope {
    /// The key travels in the URL.
    Gemini { url: String, body: GeminiRequest },
    /// The key travels in the `Authorization` header.
    OpenAI { url: String, authorization: String, body: OpenAIRequest },
}

/// Whether `content` holds `text` as its one part.
pub open spec fn holds_text(content: GeminiContent, text: Seq<char>) -> bool {
    content.parts@.len() == 1 && content.parts@[0].text@ == text
}

/// The URL that a Gemini request for `config` is posted to.
pub open spec fn gemini_url(config: Config) -> Seq<char> {
    config.base_url@ + "/models/"@ + config.model@ + ":generateContent?key="@ + config.api_key@
}

/// The URL that an OpenAI-compatible request for `config` is posted to.
pub open spec fn openai_url(config: Config) -> Seq<char> {
    config.base_url@ + "/chat/completions"@
}

/// The `Authorization` header of an OpenAI-compatible request.
pub open spec fn bearer(config: Config) -> Seq<char> {
    "Bearer "@ + config.api_key@
}

/// Whether `envelope` is the request that `config` asks for: the document of
/// the configured provider, carrying the system prompt and the user prompt.
pub open spec fn is_request_for(
    envelope: Envelope,
    config: Config,
    prompt: Seq<char>,
    system_prompt: Seq<char>,
) -> bool {
    match config.provider {
        Provider::Gemini => {
            &&& envelope matches Envelope::Gemini { url, body }
            &&& url@ == gemini_url(config)
            &&& body.contents@.len() == 1
            &&& holds_text(body.contents@[0], prompt)
            &&& holds_text(body.system_instruction, system_prompt)
        },
        Provider::OpenAI => {
            &&& envelope matches Envelope::OpenAI { url, authorization, body }
            &&& url@ == openai_url(config)
            &&& authorization@ == bearer(config)
            &&& body.model@ == config.model@
            &&& body.max_tokens == MAX_TOKENS
            &&& body.messages@.len() == 2
            &&& body.messages@[0].role@ == "system"@
            &&& body.messages@[0].content@ == system_prompt
            &&& body.messages@[1].role@ == "user"@
            &&& body.messages@[1].content@ == prompt
        },
    }
}

fn text_content(text: &str) -> (content: GeminiContent)
    ensures
        holds_text(content, text@),
{
    let mut parts: Vec<Part> = Vec::new();
    parts.push(Part { text: String::from_str(text) });
    GeminiContent { parts }
}

/// Builds the request for `prompt` under `system_prompt`, in the shape of the
/// configured provider.
pub fn build_request(config: &Config, prompt: &str, system_prompt: &str) -> (envelope: Envelope)
    ensures
        is_request_for(envelope, *config, prompt@, system_prompt@),
{
    match config.provider {
        Provider::Gemini => {
            let mut url = config.base_url.clone();
            url.append("/models/");
            url.append(config.model.as_str());
            url.append(":generateContent?key=");
            url.append(config.api_key.as_str());
            let mut contents: Vec<GeminiContent> = Vec::new();
            contents.push(text_content(prompt));
            Envelope::Gemini {
                url,
                body: GeminiRequest { contents, system_instruction: text_content(system_prompt) },
            }
        },
        Provider::OpenAI => {
            let mut url = config.base_url.clone();
            url.append("/chat/completions");
            let mut authorization = String::from_str("Bearer ");
            authorization.append(config.api_key.as_str());
            let mut messages: Vec<Message> = Vec::new();
            messages.push(
                Message {
                    role: String::from_str("system"),
                    content: String::from_str(system_prompt),
                },
            );
            messages.push(
                Message { role: String::from_str("user"), content: String::from_str(prompt) },
            );
            Envelope::OpenAI {
                url,
                authorization,
                body: OpenAIRequest { model: config.model.clone(), messages, max_tokens: MAX_TOKENS },
            }
        },
    }
}

/// One candidate of a Gemini response.
#[derive(Debug, PartialEq, Eq)]
pub struct Candidate {
    pub content: GeminiContent,
}

/// The error that a Gemini response may carry.
#[derive(Debug, PartialEq, Eq)]
pub struct GeminiError {
    pub message: String,
}

/// The response document of the Gemini backend.
#[derive(Debug, PartialEq, Eq)]
pub struct GeminiResponse {
    pub candidates: Option<Vec<Candidate>>,
    pub error: Option<GeminiError>,
}

/// The text of a message in an OpenAI-compatible response.
#[derive(Debug, PartialEq, Eq)]
pub struct MessageContent {
    pub content: String,
}

/// One choice of an OpenAI-compatible response.
#[derive(Debug, PartialEq, Eq)]
pub struct Choice {
    pub message: MessageContent,
}

/// The error that an OpenAI-compatible response may carry.
#[derive(Debug, PartialEq, Eq)]
pub struct OpenAIError {
    pub message: String,
}

/// The response document of an OpenAI-compatible backend.
#[derive(Debug, PartialEq, Eq)]
pub struct OpenAIResponse {
    pub choices: Option<Vec<Choice>>,
    pub error: Option<OpenAIError>,
}

/// Whether an HTTP status says that the request succeeded.
pub open spec fn is_success(status: u16) -> bool {
    200 <= status < 300
}

/// The first part of the first candidate, where there is one.
pub open spec fn gemini_text(response: GeminiResponse) -> Option<Seq<char>> {
    match response.candidates {
        Some(candidates) => if candidates@.len() > 0 && candidates@[0].content.parts@.len() > 0 {
            Some(candidates@[0].content.parts@[0].text@)
        } else {
            None
        },
        None => None,
    }
}

/// The message of the first choice, where there is one.
pub open spec fn openai_text(response: OpenAIResponse) -> Option<Seq<char>> {
    match response.choices {
        Some(choices) => if choices@.len() > 0 {
            Some(choices@[0].message.content@)
        } else {
            None
        },
        None => None,
    }
}

/// What a response comes to, given the text it holds and the error message
/// it carries. A status that is no success comes first, then a body that is
/// no response document, then an error in the document; without text the
/// result is empty.
pub open spec fn outcome(
    status: u16,
    body: Seq<char>,
    malformed: Option<Seq<char>>,
    error: Option<Seq<char>>,
    text: Option<Seq<char>>,
) -> Result<Seq<char>, ApiError<Seq<char>>> {
    if !is_success(status) {
        Err(ApiError::Status { status, body })
    } else {
        match (malformed, error, text) {
            (Some(detail), _, _) => Err(ApiError::Malformed(detail)),
            (None, Some(message), _) => Err(ApiError::Provider(message)),
            (None, None, Some(raw)) => Ok(raw),
            (None, None, None) => Err(ApiError::EmptyResult),
        }
    }
}

/// What the Gemini backend's answer comes to. `parsed` is the document read
/// from `body`, or why it could not be read.
pub open spec fn gemini_outcome(
    status: u16,
    body: Seq<char>,
    parsed: Result<GeminiResponse, String>,
) -> Result<Seq<char>, ApiError<Seq<char>>> {
    match parsed {
        Ok(response) => outcome(
            status,
            body,
            None,
            match response.error {
                Some(error) => Some(error.message@),
                None => None,
            },
            gemini_text(response),
        ),
        Err(detail) => outcome(status, body, Some(detail@), None, None),
    }
}

/// What an OpenAI-compatible backend's answer comes to. `parsed` is the
/// document read from `body`, or why it could not be read.
pub open spec fn openai_outcome(
    status: u16,
    body: Seq<char>,
    parsed: Result<OpenAIResponse, String>,
) -> Result<Seq<char>, ApiError<Seq<char>>> {
    match parsed {
        Ok(response) => outcome(
            status,
            body,
            None,
            match response.error {
                Some(error) => Some(error.message@),
                None => None,
            },
            openai_text(response),
        ),
        Err(detail) => outcome(status, body, Some(detail@), None, None),
    }
}

/// Whether `r` is `expected`, text for text.
pub open spec fn gives(
    r: Result<String, ApiError<String>>,
    expected: Result<Seq<char>, ApiError<Seq<char>>>,
) -> bool {
    match r {
        Ok(text) => expected == Ok::<Seq<char>, ApiError<Seq<char>>>(text@),
        Err(error) => expected == Err::<Seq<char>, ApiError<Seq<char>>>(error@),
    }
}

/// Decides whether an HTTP status says that the request succeeded.
pub fn status_is_success(status: u16) -> (r: bool)
    ensures
        r == is_success(status),
{
    200 <= status && status < 300
}

/// Reads the answer of the Gemini backend: the raw text of the first part of
/// the first candidate, or the error that the answer amounts to.
pub fn read_gemini(status: u16, body: String, parsed: Result<GeminiResponse, String>) -> (r:
    Result<String, ApiError<String>>)
    ensures
        gives(r, gemini_outcome(status, body@, parsed)),
{
    if !status_is_success(status) {
        return Err(ApiError::Status { status, body });
    }
    let response = match parsed {
        Ok(response) => response,
        Err(detail) => {
            return Err(ApiError::Malformed(detail));
        },
    };
    if let Some(error) = response.error {
        return Err(ApiError::Provider(error.message));
    }
    match response.candidates {
        Some(candidates) => {
            let mut candidates = candidates;
            if candidates.len() == 0 {
                return Err(ApiError::EmptyResult);
            }
            let first = candidates.swap_remove(0);
            let mut parts = first.content.parts;
            if parts.len() == 0 {
                return Err(ApiError::EmptyResult);
            }
            Ok(parts.swap_remove(0).text)
        },
        None => Err(ApiError::EmptyResult),
    }
}

/// Reads the answer of an OpenAI-compatible backend: the raw text of the
/// first choice, or the error that the answer amounts to.
pub fn read_openai(status: u16, body: String, parsed: Result<OpenAIResponse, String>) -> (r:
    Result<String, ApiError<String>>)
    ensures
        gives(r, openai_outcome(status, body@, parsed)),
{
    if !status_is_success(status) {
        return Err(ApiError::Status { status, body });
    }
    let response = match parsed {
        Ok(response) => response,
        Err(detail) => {
            return Err(ApiError::Malformed(detail));
        },
    };
    if let Some(error) = response.error {
        return Err(ApiError::Provider(error.message));
    }
    match response.choices {
        Some(choices) => {
            let mut choices = choices;
            if choices.len() == 0 {
                return Err(ApiError::EmptyResult);
            }
            Ok(choices.swap_remove(0).message.content)
        },
        None => Err(ApiError::EmptyResult),
    }
}

/// The name by which messages call the backend of a provider.
pub open spec fn backend_name(provider: Provider) -> Seq<char> {
    match provider {
        Provider::Gemini => "Gemini API"@,
        Provider::OpenAI => "API"@,
    }
}

/// The name by which messages call the answers of a provider.
pub open spec fn short_name(provider: Provider) -> Seq<char> {
    match provider {
        Provider::Gemini => "Gemini"@,
        Provider::OpenAI => "API"@,
    }
}

/// An error as text for the operator.
pub open spec fn error_text(error: ApiError<Seq<char>>, provider: Provider) -> Seq<char> {
    match error {
        ApiError::Transport(detail) => "Failed to send request to "@ + backend_name(provider)
            + ": "@ + detail,
        ApiError::Status { status, body } => backend_name(provider) + " error ("@ + decimal(
            status as nat,
        ) + "): "@ + body,
        ApiError::Malformed(detail) => "Failed to parse "@ + short_name(provider) + " response: "@
            + detail,
        ApiError::Provider(message) => backend_name(provider) + " error: "@ + message,
        ApiError::EmptyResult => "No command generated from "@ + short_name(provider),
    }
}

fn backend(provider: Provider) -> (r: &'static str)
    ensures
        r@ == backend_name(provider),
{
    match provider {
        Provider::Gemini => "Gemini API",
        Provider::OpenAI => "API",
    }
}

fn short(provider: Provider) -> (r: &'static str)
    ensures
        r@ == short_name(provider),
{
    match provider {
        Provider::Gemini => "Gemini",
        Provider::OpenAI => "API",
    }
}

impl ApiError<String> {
    /// The error as text for the operator. `provider` is the provider that
    /// was asked.
    pub fn message(&self, provider: Provider) -> (r: String)
        ensures
            r@ == error_text(self@, provider),
    {
        match self {
            ApiError::Transport(detail) => {
                let mut out = String::from_str("Failed to send request to ");
                out.append(backend(provider));
                out.append(": ");
                out.append(detail.as_str());
                out
            },
            ApiError::Status { status, body } => {
                let mut out = String::from_str(backend(provider));
                out.append(" error (");
                out.append(decimal_string(*status as u64).as_str());
                out.append("): ");
                out.append(body.as_str());
                out
            },
            ApiError::Malformed(detail) => {
                let mut out = String::from_str("Failed to parse ");
                out.append(short(provider));
                out.append(" response: ");
                out.append(detail.as_str());
                out
            },
            ApiError::Provider(message) => {
                let mut out = String::from_str(backend(provider));
                out.append(" error: ");
                out.append(message.as_str());
                out
            },
            ApiError::EmptyResult => {
                let mut out = String::from_str("No command generated from ");
                out.append(short(provider));
                out
            },
        }
    }
}

} // verus!
