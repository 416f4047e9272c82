//! The provider abstraction: the closed set of chat providers, their
//! connection configuration, the headers and request payload each one takes,
//! and the decoding of each one's response into the unified reply.

use vstd::prelude::*;
use crate::json::{json_field, json_flag, json_item, json_parsed, json_text};
use crate::text;
use crate::text::{find_first_spec, join_spec, trim_spec};

verus! {

/// The closed set of supported providers.
#[derive(Clone, Copy, Debug, PartialEq, Eq, Structural)]
pub enum Provider {
    Deepseek,
    Anthropic,
    Ollama,
}

/// ASCII lowercase of one character; other characters pass unchanged.
pub open spec fn lower_char_spec(c: char) -> char {
    match c {
        'A' => 'a',
        'B' => 'b',
        'C' => 'c',
        'D' => 'd',
        'E' => 'e',
        'F' => 'f',
        'G' => 'g',
        'H' => 'h',
        'I' => 'i',
        'J' => 'j',
        'K' => 'k',
        'L' => 'l',
        'M' => 'm',
        'N' => 'n',
        'O' => 'o',
        'P' => 'p',
        'Q' => 'q',
        'R' => 'r',
        'S' => 's',
        'T' => 't',
        'U' => 'u',
        'V' => 'v',
        'W' => 'w',
        'X' => 'x',
        'Y' => 'y',
        'Z' => 'z',
        _ => c,
    }
}

fn lower_char(c: char) -> (r: char)
    ensures
        r == lower_char_spec(c),
{
    match c {
        'A' => 'a',
        'B' => 'b',
        'C' => 'c',
        'D' => 'd',
        'E' => 'e',
        'F' => 'f',
        'G' => 'g',
        'H' => 'h',
        'I' => 'i',
        'J' => 'j',
        'K' => 'k',
        'L' => 'l',
        'M' => 'm',
        'N' => 'n',
        'O' => 'o',
        'P' => 'p',
        'Q' => 'q',
        'R' => 'r',
        'S' => 's',
        'T' => 't',
        'U' => 'u',
        'V' => 'v',
        'W' => 'w',
        'X' => 'x',
        'Y' => 'y',
        'Z' => 'z',
        _ => c,
    }
}

/// The string with every ASCII letter lowered.
pub open spec fn lower_spec(s: Seq<char>) -> Seq<char> {
    s.map_values(|c: char| lower_char_spec(c))
}

fn lower_chars(s: &[char]) -> (r: Vec<char>)
    ensures
        r@ == lower_spec(s@),
{
    let mut r: Vec<char> = Vec::new();
    let mut i: usize = 0;
    while i < s.len()
        invariant
            i <= s@.len(),
            r@.len() == i,
            forall|j: int| 0 <= j < i ==> r@[j] == lower_char_spec(s@[j]),
        decreases s@.len() - i,
    {
        r.push(lower_char(s[i]));
        i = i + 1;
    }
    proof {
        assert(r@ =~= lower_spec(s@));
    }
    r
}

/// Which provider a name denotes, compared after ASCII case folding.
pub open spec fn provider_of_name(s: Seq<char>) -> Option<Provider> {
    if lower_spec(s) == "deepseek"@ {
        Some(Provider::Deepseek)
    } else if lower_spec(s) == "anthropic"@ {
        Some(Provider::Anthropic)
    } else if lower_spec(s) == "ollama"@ {
        Some(Provider::Ollama)
    } else {
        None
    }
}

impl Provider {
    /// Parses a provider name, case-insensitively over ASCII letters.
    pub fn from_str(s: &str) -> (r: Result<Provider, String>)
        ensures
            match r {
                Ok(p) => provider_of_name(s@) == Some(p),
                Err(e) => provider_of_name(s@) is None && e@ == "Invalid provider: "@ + s@
                    + ". Valid options are: deepseek, anthropic, ollama"@,
            },
    {
        let cs = text::chars_of(s);
        let lowered = lower_chars(cs.as_slice());
        if text::eq_str(lowered.as_slice(), "deepseek") {
            Ok(Provider::Deepseek)
        } else if text::eq_str(lowered.as_slice(), "anthropic") {
            Ok(Provider::Anthropic)
        } else if text::eq_str(lowered.as_slice(), "ollama") {
            Ok(Provider::Ollama)
        } else {
            let mut msg = text::chars_of("Invalid provider: ");
            text::append_str(&mut msg, s);
            text::append_str(&mut msg, ". Valid options are: deepseek, anthropic, ollama");
            Err(text::string_of(msg.as_slice()))
        }
    }
}

/// One chat message: a role and its text.
#[derive(Debug)]
pub struct Message {
    pub role: String,
    pub content: String,
}

/// The provider-agnostic decoded reply.
#[derive(Debug)]
pub struct UnifiedResponse {
    pub content: String,
}

/// A provider connection: who is called, with what key, where, and as which
/// model. Built once per run and read-only afterwards.
#[derive(Debug)]
pub struct UnifiedClient {
    pub provider: Provider,
    pub api_key: String,
    pub base_url: String,
    pub model: String,
}

impl UnifiedClient {
    /// Builds the connection configuration for a provider from the key and
    /// model override the environment supplied. The key-based providers
    /// refuse to start without a key; the local provider needs none.
    pub fn new(provider: Provider, api_key: Option<String>, model_override: Option<String>) -> (r:
        Result<UnifiedClient, String>)
        ensures
            match r {
                Ok(c) => {
                    &&& c.provider == provider
                    &&& (provider != Provider::Ollama ==> api_key is Some && c.api_key@
                        == api_key.unwrap()@)
                    &&& (provider == Provider::Ollama ==> c.api_key@ == Seq::<char>::empty())
                    &&& c.base_url@ == spec_base_url(provider)
                    &&& c.model@ == (match model_override {
                        Some(m) => m@,
                        None => spec_default_model(provider),
                    })
                },
                Err(e) => provider != Provider::Ollama && api_key is None && e@
                    == "PROVIDER_API_KEY not set"@,
            },
    {
        match provider {
            Provider::Deepseek => {
                let key = match api_key {
                    Some(k) => k,
                    None => {
                        return Err(String::from_str("PROVIDER_API_KEY not set"));
                    },
                };
                let model = match model_override {
                    Some(m) => m,
                    None => String::from_str("deepseek-chat"),
                };
                Ok(UnifiedClient {
                    provider,
                    api_key: key,
                    base_url: String::from_str("https://api.deepseek.com/v1/chat/completions"),
                    model,
                })
            },
            Provider::Anthropic => {
                let key = match api_key {
                    Some(k) => k,
                    None => {
                        return Err(String::from_str("PROVIDER_API_KEY not set"));
                    },
                };
                let model = match model_override {
                    Some(m) => m,
                    None => String::from_str("sonnet-3-20240229"),
                };
                Ok(UnifiedClient {
                    provider,
                    api_key: key,
                    base_url: String::from_str("https://api.anthropic.com/v1/messages"),
                    model,
                })
            },
            Provider::Ollama => {
                let model = match model_override {
                    Some(m) => m,
                    None => String::from_str("deepseek-r1:8b"),
                };
                Ok(UnifiedClient {
                    provider,
                    api_key: String::new(),
                    base_url: String::from_str("http://localhost:11434/api/generate"),
                    model,
                })
            },
        }
    }

    /// The headers the provider's endpoint requires: bearer authorization for
    /// the chat-completion provider, key and version headers for the message
    /// provider, none for the local one — plus the JSON content type.
    pub fn build_headers(&self) -> (r: Vec<(String, String)>)
        ensures
            r.deep_view() == spec_headers(self.provider, self.api_key@),
    {
        let mut headers: Vec<(String, String)> = Vec::new();
        match self.provider {
            Provider::Deepseek => {
                let mut bearer = text::chars_of("Bearer ");
                text::append_str(&mut bearer, self.api_key.as_str());
                headers.push(
                    (String::from_str("Authorization"), text::string_of(bearer.as_slice())),
                );
            },
            Provider::Anthropic => {
                headers.push((String::from_str("x-api-key"), self.api_key.clone()));
                headers.push(
                    (String::from_str("anthropic-version"), String::from_str("2023-06-01")),
                );
            },
            Provider::Ollama => {},
        }
        headers.push((String::from_str("Content-Type"), String::from_str("application/json")));
        proof {
            assert(headers.deep_view() =~~= spec_headers(self.provider, self.api_key@));
        }
        headers
    }

    /// The provider-specific payload for one request: the chat-completion
    /// shape for the key-based providers, a single concatenated prompt for the
    /// local one.
    pub fn build_request(
        &self,
        messages: Vec<Message>,
        temperature_tenths: Option<u32>,
        max_tokens: Option<i32>,
    ) -> (r: ProviderRequest)
        ensures
            spec_request_matches(self, messages@, temperature_tenths, max_tokens, &r),
    {
        match self.provider {
            Provider::Deepseek => ProviderRequest::Chat {
                model: self.model.clone(),
                messages,
                temperature_tenths,
                max_tokens,
                stream: false,
            },
            Provider::Anthropic => ProviderRequest::AnthropicChat {
                model: self.model.clone(),
                messages,
                max_tokens: 512,
                temperature_tenths: 1,
            },
            Provider::Ollama => {
                let mut lines: Vec<Vec<char>> = Vec::new();
                let mut i: usize = 0;
                while i < messages.len()
                    invariant
                        i <= messages@.len(),
                        lines.deep_view().len() == i,
                        forall|j: int| 0 <= j < i ==> lines.deep_view()[j] == message_line(
                            messages@[j],
                        ),
                    decreases messages@.len() - i,
                {
                    let mut line = text::chars_of(messages[i].role.as_str());
                    text::append_str(&mut line, ": ");
                    text::append_str(&mut line, messages[i].content.as_str());
                    proof {
                        assert(line@ =~= message_line(messages@[i as int]));
                        assert(line.deep_view() =~= line@);
                    }
                    let ghost old_dv = lines.deep_view();
                    lines.push(line);
                    i = i + 1;
                    proof {
                        assert(lines.deep_view() =~~= old_dv.push(line@));
                    }
                }
                proof {
                    assert(lines.deep_view() =~~= messages@.map_values(
                        |m: Message| message_line(m),
                    ));
                }
                let joined = text::join_char(&lines, '\n');
                ProviderRequest::Prompt {
                    model: self.model.clone(),
                    prompt: text::string_of(joined.as_slice()),
                    stream: false,
                }
            },
        }
    }

    /// Decodes one provider's response body into the unified reply: the
    /// text under the provider's documented field path, with the local
    /// provider's reasoning preamble cut off at its delimiter tag.
    pub fn parse_response(&self, response_text: &str) -> (r: Result<UnifiedResponse, String>)
        ensures
            match r {
                Ok(u) => spec_parse_response(self.provider, response_text@) == Some(u.content@),
                Err(_) => spec_parse_response(self.provider, response_text@) is None,
            },
    {
        let root = match crate::json::json_parse(response_text) {
            Some(v) => v,
            None => {
                return Err(String::from_str("response body is not valid JSON"));
            },
        };
        match self.provider {
            Provider::Deepseek => {
                let content = match json_path_text(&root, "choices", "message", "content") {
                    Some(c) => c,
                    None => {
                        return Err(String::from_str("response does not match the chat-completion schema"));
                    },
                };
                Ok(UnifiedResponse { content })
            },
            Provider::Anthropic => {
                let cs = match crate::json::json_get(&root, "content") {
                    Some(v) => v,
                    None => {
                        return Err(String::from_str("response does not match the message schema"));
                    },
                };
                let c0 = match crate::json::json_at(cs, 0) {
                    Some(v) => v,
                    None => {
                        return Err(String::from_str("response does not match the message schema"));
                    },
                };
                let t = match crate::json::json_get(c0, "text") {
                    Some(v) => v,
                    None => {
                        return Err(String::from_str("response does not match the message schema"));
                    },
                };
                match crate::json::json_as_str(t) {
                    Some(s) => Ok(UnifiedResponse { content: s.to_owned() }),
                    None => Err(String::from_str("response does not match the message schema")),
                }
            },
            Provider::Ollama => {
                let resp = match crate::json::json_get(&root, "response") {
                    Some(v) => v,
                    None => {
                        return Err(String::from_str("response does not match the generate schema"));
                    },
                };
                let s = match crate::json::json_as_str(resp) {
                    Some(s) => s,
                    None => {
                        return Err(String::from_str("response does not match the generate schema"));
                    },
                };
                let done = match crate::json::json_get(&root, "done") {
                    Some(v) => v,
                    None => {
                        return Err(String::from_str("response does not match the generate schema"));
                    },
                };
                match crate::json::json_as_bool(done) {
                    Some(_) => {
                        let sc = text::chars_of(s);
                        let stripped = strip_reasoning(sc.as_slice());
                        Ok(UnifiedResponse { content: text::string_of(stripped.as_slice()) })
                    },
                    None => Err(String::from_str("response does not match the generate schema")),
                }
            },
        }
    }
}

/// Reads the string at `.<a>[0].<b>.<c>` out of a JSON document.
fn json_path_text(root: &serde_json::Value, a: &str, b: &str, c: &str) -> (r: Option<String>)
    ensures
        ({
            let v = spec_json_path_text(*root, a@, b@, c@);
            match r {
                Some(s) => v == Some(s@),
                None => v is None,
            }
        }),
{
    let x = match crate::json::json_get(root, a) {
        Some(v) => v,
        None => {
            return None;
        },
    };
    let x0 = match crate::json::json_at(x, 0) {
        Some(v) => v,
        None => {
            return None;
        },
    };
    let y = match crate::json::json_get(x0, b) {
        Some(v) => v,
        None => {
            return None;
        },
    };
    let z = match crate::json::json_get(y, c) {
        Some(v) => v,
        None => {
            return None;
        },
    };
    match crate::json::json_as_str(z) {
        Some(s) => Some(s.to_owned()),
        None => None,
    }
}

/// The string at `.<a>[0].<b>.<c>` of a JSON document, if each step exists.
pub open spec fn spec_json_path_text(root: serde_json::Value, a: Seq<char>, b: Seq<char>, c: Seq<
    char,
>) -> Option<Seq<char>> {
    match json_field(root, a) {
        None => None,
        Some(x) => match json_item(x, 0) {
            None => None,
            Some(x0) => match json_field(x0, b) {
                None => None,
                Some(y) => match json_field(y, c) {
                    None => None,
                    Some(z) => json_text(z),
                },
            },
        },
    }
}

/// The base endpoint of each provider.
pub open spec fn spec_base_url(p: Provider) -> Seq<char> {
    match p {
        Provider::Deepseek => "https://api.deepseek.com/v1/chat/completions"@,
        Provider::Anthropic => "https://api.anthropic.com/v1/messages"@,
        Provider::Ollama => "http://localhost:11434/api/generate"@,
    }
}

/// The model used when the environment names none.
pub open spec fn spec_default_model(p: Provider) -> Seq<char> {
    match p {
        Provider::Deepseek => "deepseek-chat"@,
        Provider::Anthropic => "sonnet-3-20240229"@,
        Provider::Ollama => "deepseek-r1:8b"@,
    }
}

/// The header list each provider's endpoint requires.
pub open spec fn spec_headers(p: Provider, key: Seq<char>) -> Seq<(Seq<char>, Seq<char>)> {
    match p {
        Provider::Deepseek => seq![
            ("Authorization"@, "Bearer "@ + key),
            ("Content-Type"@, "application/json"@),
        ],
        Provider::Anthropic => seq![
            ("x-api-key"@, key),
            ("anthropic-version"@, "2023-06-01"@),
            ("Content-Type"@, "application/json"@),
        ],
        Provider::Ollama => seq![("Content-Type"@, "application/json"@)],
    }
}

/// One request payload, as plain values; the surrounding program serializes
/// it to the provider's JSON. Temperatures are carried in tenths, so that the
/// payload stays within integer arithmetic.
#[allow(inconsistent_fields)]
pub enum ProviderRequest {
    Chat {
        model: String,
        messages: Vec<Message>,
        temperature_tenths: Option<u32>,
        max_tokens: Option<i32>,
        stream: bool,
    },
    AnthropicChat { model: String, messages: Vec<Message>, max_tokens: i32, temperature_tenths: u32 },
    Prompt { model: String, prompt: String, stream: bool },
}

/// A message rendered as one prompt line: `role: content`.
pub open spec fn message_line(m: Message) -> Seq<char> {
    m.role@ + ": "@ + m.content@
}

/// The single concatenated prompt the local provider takes.
pub open spec fn prompt_of_messages(ms: Seq<Message>) -> Seq<char> {
    join_spec(ms.map_values(|m: Message| message_line(m)), '\n')
}

/// Does the payload match what the provider's API takes for these messages?
pub open spec fn spec_request_matches(
    client: &UnifiedClient,
    messages: Seq<Message>,
    temperature_tenths: Option<u32>,
    max_tokens: Option<i32>,
    r: &ProviderRequest,
) -> bool {
    match client.provider {
        Provider::Deepseek => {
            &&& r matches ProviderRequest::Chat {
                model,
                messages: ms,
                temperature_tenths: t,
                max_tokens: mt,
                stream,
            }
            &&& model@ == client.model@
            &&& ms@ == messages
            &&& t == temperature_tenths
            &&& mt == max_tokens
            &&& stream == false
        },
        Provider::Anthropic => {
            &&& r matches ProviderRequest::AnthropicChat {
                model,
                messages: ms,
                max_tokens: mt,
                temperature_tenths: t,
            }
            &&& model@ == client.model@
            &&& ms@ == messages
            &&& mt == 512
            &&& t == 1
        },
        Provider::Ollama => {
            &&& r matches ProviderRequest::Prompt { model, prompt, stream }
            &&& model@ == client.model@
            &&& prompt@ == prompt_of_messages(messages)
            &&& stream == false
        },
    }
}

/// The reply with any reasoning preamble removed: when the delimiter tag
/// occurs, the piece between its first occurrence and the next (or the end),
/// trimmed; otherwise the reply unchanged.
pub open spec fn strip_reasoning_spec(s: Seq<char>) -> Seq<char> {
    match find_first_spec(s, "</think>"@) {
        None => s,
        Some(i) => {
            let rest = s.skip(i + "</think>"@.len());
            match find_first_spec(rest, "</think>"@) {
                None => trim_spec(rest),
                Some(j) => trim_spec(rest.subrange(0, j)),
            }
        },
    }
}

/// Cuts a reasoning preamble off at its `</think>` delimiter tag.
fn strip_reasoning(s: &[char]) -> (r: Vec<char>)
    ensures
        r@ == strip_reasoning_spec(s@),
{
    let n = s.len();
    let pat = text::chars_of("</think>");
    proof {
        reveal_strlit("</think>");
        assert(pat@.len() == 8);
    }
    match text::find_first(s, pat.as_slice()) {
        None => {
            let mut r: Vec<char> = Vec::new();
            text::append_slice(&mut r, s);
            proof {
                assert(r@ =~= s@);
            }
            r
        },
        Some(i) => {
            let rest = vstd::slice::slice_subrange(s, i + pat.len(), n);
            proof {
                assert(rest@ =~= s@.skip(i + "</think>"@.len()));
            }
            match text::find_first(rest, pat.as_slice()) {
                None => text::trim(rest),
                Some(j) => {
                    let piece = vstd::slice::slice_subrange(rest, 0, j);
                    proof {
                        assert(piece@ =~= s@.skip(i + "</think>"@.len()).subrange(0, j as int));
                    }
                    text::trim(piece)
                },
            }
        },
    }
}

/// What decoding a provider's response yields: the content under the
/// provider's field path (`choices[0].message.content`, `content[0].text`, or
/// `response` with `done` present), or nothing when the body does not parse
/// or does not match the schema.
pub open spec fn spec_parse_response(p: Provider, s: Seq<char>) -> Option<Seq<char>> {
    match json_parsed(s) {
        None => None,
        Some(root) => match p {
            Provider::Deepseek => spec_json_path_text(root, "choices"@, "message"@, "content"@),
            Provider::Anthropic => {
                match json_field(root, "content"@) {
                    None => None,
                    Some(cs) => match json_item(cs, 0) {
                        None => None,
                        Some(c0) => match json_field(c0, "text"@) {
                            None => None,
                            Some(t) => json_text(t),
                        },
                    },
                }
            },
            Provider::Ollama => {
                match json_field(root, "response"@) {
                    None => None,
                    Some(resp) => match json_text(resp) {
                        None => None,
                        Some(s) => match json_field(root, "done"@) {
                            None => None,
                            Some(d) => if json_flag(d) is Some {
                                Some(strip_reasoning_spec(s))
                            } else {
                                None
                            },
                        },
                    },
                }
            },
        },
    }
}

/// The single user-role message carrying one file's prompt.
pub fn user_messages(prompt: String) -> (r: Vec<Message>)
    ensures
        r@.len() == 1,
        r@[0].role@ == "user"@,
        r@[0].content@ == prompt@,
{
    let mut r: Vec<Message> = Vec::new();
    r.push(Message { role: String::from_str("user"), content: prompt });
    r
}

} // verus!
