//! Settings of the AI assistant and the actions its tool calls ask for.
use vstd::prelude::*;

use crate::text::owned;

verus! {

/// The `forwarding` section of the AI configuration.
pub struct ForwardingConfig {
    pub enabled: Option<bool>,
    pub webhook_url: Option<String>,
}

/// The `ai` section of the configuration.
pub struct AiConfig {
    pub enabled: Option<bool>,
    pub provider: Option<String>,
    pub model: Option<String>,
    pub endpoint: Option<String>,
    pub max_context_lines: Option<usize>,
    pub forwarding: Option<ForwardingConfig>,
}

/// The AI assistant's settings, key and last answer.
pub struct AiClient {
    config: AiConfig,
    api_key: String,
    last_response: Option<String>,
}

/// Chat endpoint used when none is configured.
pub open spec fn default_endpoint() -> Seq<char> {
    "https://api.deepseek.com/v1/chat/completions"@
}

/// Model used when none is configured.
pub open spec fn default_model() -> Seq<char> {
    "deepseek-v4-flash"@
}

/// Optional text as characters.
pub open spec fn opt_text(o: Option<String>) -> Option<Seq<char>> {
    match o {
        Some(s) => Some(s@),
        None => None,
    }
}

impl AiClient {
    /// The configuration.
    pub closed spec fn settings(&self) -> AiConfig {
        self.config
    }

    /// The API key.
    pub closed spec fn key(&self) -> Seq<char> {
        self.api_key@
    }

    /// The last answer received, if any.
    pub closed spec fn last_answer(&self) -> Option<Seq<char>> {
        opt_text(self.last_response)
    }

    /// A client for the given configuration and key, with no answer yet.
    pub fn new(config: AiConfig, api_key: String) -> (c: AiClient)
        ensures
            c.settings() == config,
            c.key() == api_key@,
            c.last_answer() is None,
    {
        AiClient { config, api_key, last_response: None }
    }

    /// The chat endpoint: the configured one or the default.
    pub fn endpoint(&self) -> (r: &str)
        ensures
            r@ == match self.settings().endpoint {
                Some(e) => e@,
                None => default_endpoint(),
            },
    {
        match &self.config.endpoint {
            Some(e) => e.as_str(),
            None => "https://api.deepseek.com/v1/chat/completions",
        }
    }

    /// The model: the configured one or the default.
    pub fn model(&self) -> (r: &str)
        ensures
            r@ == match self.settings().model {
                Some(m) => m@,
                None => default_model(),
            },
    {
        match &self.config.model {
            Some(m) => m.as_str(),
            None => "deepseek-v4-flash",
        }
    }

    /// How many recent log lines are sent as context: configured, or 200.
    pub fn max_context_lines(&self) -> (r: usize)
        ensures
            r == match self.settings().max_context_lines {
                Some(n) => n,
                None => 200usize,
            },
    {
        match self.config.max_context_lines {
            Some(n) => n,
            None => 200,
        }
    }

    /// Records the text of an answer.
    pub fn record_response(&mut self, text: &str)
        ensures
            final(self).last_answer() == Some(text@),
            final(self).settings() == old(self).settings(),
            final(self).key() == old(self).key(),
    {
        self.last_response = Some(owned(text));
    }

    /// The last answer received.
    pub fn last_response_text(&self) -> (r: Option<String>)
        ensures
            opt_text(r) == self.last_answer(),
    {
        match &self.last_response {
            Some(t) => Some(t.clone()),
            None => None,
        }
    }

    /// Whether observations may be forwarded: only when explicitly enabled.
    pub fn forwarding_enabled(&self) -> (r: bool)
        ensures
            r == (self.settings().forwarding matches Some(f) && f.enabled == Some(true)),
    {
        match &self.config.forwarding {
            Some(f) => match f.enabled {
                Some(e) => e,
                None => false,
            },
            None => false,
        }
    }

    /// The webhook observations are forwarded to, if configured.
    pub fn webhook_url(&self) -> (r: Option<String>)
        ensures
            opt_text(r) == match self.settings().forwarding {
                Some(f) => opt_text(f.webhook_url),
                None => None,
            },
    {
        match &self.config.forwarding {
            Some(f) => match &f.webhook_url {
                Some(u) => Some(u.clone()),
                None => None,
            },
            None => None,
        }
    }

    /// Whether an API key is set.
    pub fn is_configured(&self) -> (r: bool)
        ensures
            r == (self.key().len() > 0),
    {
        !self.api_key.as_str().is_empty()
    }
}

/// The first of the values that is set, from position `i` on.
pub open spec fn first_set(c: Seq<Option<Seq<char>>>, i: int) -> Option<Seq<char>>
    decreases c.len() - i,
{
    if i < 0 || i >= c.len() {
        None
    } else {
        match c[i] {
            Some(v) => Some(v),
            None => first_set(c, i + 1),
        }
    }
}

/// Optional texts as characters.
pub open spec fn opt_texts(c: Seq<Option<String>>) -> Seq<Option<Seq<char>>> {
    c.map_values(|o: Option<String>| opt_text(o))
}

/// The API key: the value of the first of the key variables that is set
/// (`DEEPSEEK_API_KEY`, `AI_API_KEY`, `OPENAI_API_KEY`, in that order),
/// when it is not empty.
pub open spec fn chosen_key(c: Seq<Option<Seq<char>>>) -> Option<Seq<char>> {
    match first_set(c, 0) {
        Some(v) => if v.len() > 0 {
            Some(v)
        } else {
            None
        },
        None => None,
    }
}

/// Picks the API key from the values of the key variables, in order
/// (`None` for a variable that is not set).
pub fn choose_api_key(candidates: &Vec<Option<String>>) -> (r: Option<String>)
    ensures
        opt_text(r) == chosen_key(opt_texts(candidates@)),
{
    let ghost c = opt_texts(candidates@);
    let mut i: usize = 0;
    while i < candidates.len()
        invariant
            i <= candidates@.len(),
            c == opt_texts(candidates@),
            first_set(c, 0) == first_set(c, i as int),
        decreases candidates@.len() - i,
    {
        match &candidates[i] {
            Some(v) => {
                assert(c[i as int] == Some(v@));
                if v.as_str().is_empty() {
                    return None;
                }
                return Some(v.clone());
            },
            None => {
                assert(c[i as int] is None);
            },
        }
        i = i + 1;
    }
    None
}

/// A tool call of the assistant, with the arguments the tools read.
pub struct ToolCall {
    pub name: String,
    pub action: Option<String>,
    pub prefix: Option<String>,
    pub target: Option<String>,
    pub label: Option<String>,
    pub enable: Option<bool>,
    pub message: Option<String>,
    pub urgency: Option<String>,
}

/// The text argument `key` of a tool call whose arguments are the JSON text
/// `arguments`, as `serde_json::from_str::<Value>`, `Value::get(key)` and
/// `as_str` give it; `None` when the text is not JSON or has no text field
/// with that key.
pub uninterp spec fn arg_text_field(arguments: Seq<char>, key: Seq<char>) -> Option<Seq<char>>;

/// The boolean argument `key` of a tool call whose arguments are the JSON
/// text `arguments`, as `serde_json::from_str::<Value>`, `Value::get(key)`
/// and `as_bool` give it; `None` when the text is not JSON or has no boolean
/// field with that key.
pub uninterp spec fn arg_bool_field(arguments: Seq<char>, key: Seq<char>) -> Option<bool>;

/// Parses the arguments with `serde_json::from_str::<Value>` and reads the
/// text field `key` with `Value::get` and `as_str`; what it reads is only
/// named (`arg_text_field`).
#[verifier::external_body]
fn argument_text(arguments: &str, key: &str) -> (r: Option<String>)
    ensures
        opt_text(r) == arg_text_field(arguments@, key@),
{
    match serde_json::from_str::<serde_json::Value>(arguments) {
        Ok(v) => v.get(key).and_then(|x| x.as_str()).map(|x| x.to_string()),
        Err(_) => None,
    }
}

/// Parses the arguments with `serde_json::from_str::<Value>` and reads the
/// boolean field `key` with `Value::get` and `as_bool`; what it reads is
/// only named (`arg_bool_field`).
#[verifier::external_body]
fn argument_flag(arguments: &str, key: &str) -> (r: Option<bool>)
    ensures
        r == arg_bool_field(arguments@, key@),
{
    match serde_json::from_str::<serde_json::Value>(arguments) {
        Ok(v) => v.get(key).and_then(|x| x.as_bool()),
        Err(_) => None,
    }
}

/// The tool call `name` with the arguments read from their JSON text (text
/// that is not JSON gives no arguments).
pub fn tool_call_of(name: &str, arguments: &str) -> (tc: ToolCall)
    ensures
        tc.name@ == name@,
        opt_text(tc.action) == arg_text_field(arguments@, "action"@),
        opt_text(tc.prefix) == arg_text_field(arguments@, "prefix"@),
        opt_text(tc.target) == arg_text_field(arguments@, "target"@),
        opt_text(tc.label) == arg_text_field(arguments@, "label"@),
        tc.enable == arg_bool_field(arguments@, "enable"@),
        opt_text(tc.message) == arg_text_field(arguments@, "message"@),
        opt_text(tc.urgency) == arg_text_field(arguments@, "urgency"@),
{
    ToolCall {
        name: owned(name),
        action: argument_text(arguments, "action"),
        prefix: argument_text(arguments, "prefix"),
        target: argument_text(arguments, "target"),
        label: argument_text(arguments, "label"),
        enable: argument_flag(arguments, "enable"),
        message: argument_text(arguments, "message"),
        urgency: argument_text(arguments, "urgency"),
    }
}

/// What a tool call asks the proxy to do.
pub enum ToolAction {
    /// Run a filter command.
    Toggle { action: String },
    /// Add a route.
    AddRoute { prefix: String, target: String, label: String },
    /// Remove a route.
    RemoveRoute { prefix: String },
    /// Turn monitoring on or off.
    Monitoring { enable: bool },
    /// Log an observation the assistant wants forwarded.
    Forward { message: String, urgency: String },
    /// A tool the proxy does not know.
    Unknown { name: String },
    /// A known tool without the arguments it needs.
    Nothing,
}

/// The text of an optional argument, empty when absent.
pub open spec fn arg_text(o: Option<String>) -> Seq<char> {
    match o {
        Some(s) => s@,
        None => seq![],
    }
}

/// The action a tool call asks for. `toggle_service` needs an action,
/// `add_route` a non-empty prefix and target (the label defaults to empty),
/// `remove_route` a prefix, `enable_monitoring` a flag,
/// `forward_observation` a non-empty message (urgency defaults to
/// "medium").
pub open spec fn tool_action_ok(tc: ToolCall, a: ToolAction) -> bool {
    let n = tc.name@;
    if n == "toggle_service"@ {
        match tc.action {
            Some(x) => a matches ToolAction::Toggle { action } && action@ == x@,
            None => a is Nothing,
        }
    } else if n == "add_route"@ {
        if arg_text(tc.prefix).len() > 0 && arg_text(tc.target).len() > 0 {
            a matches ToolAction::AddRoute { prefix, target, label } && prefix@ == arg_text(tc.prefix)
                && target@ == arg_text(tc.target) && label@ == arg_text(tc.label)
        } else {
            a is Nothing
        }
    } else if n == "remove_route"@ {
        match tc.prefix {
            Some(p) => a matches ToolAction::RemoveRoute { prefix } && prefix@ == p@,
            None => a is Nothing,
        }
    } else if n == "enable_monitoring"@ {
        match tc.enable {
            Some(e) => a == ToolAction::Monitoring { enable: e },
            None => a is Nothing,
        }
    } else if n == "forward_observation"@ {
        if arg_text(tc.message).len() > 0 {
            a matches ToolAction::Forward { message, urgency } && message@ == arg_text(tc.message)
                && urgency@ == match tc.urgency {
                Some(u) => u@,
                None => "medium"@,
            }
        } else {
            a is Nothing
        }
    } else {
        a matches ToolAction::Unknown { name } && name@ == n
    }
}

/// An optional argument's text, empty when absent.
fn arg_or_empty(o: &Option<String>) -> (r: String)
    ensures
        r@ == arg_text(*o),
{
    match o {
        Some(s) => s.clone(),
        None => String::new(),
    }
}

/// Decides what a tool call of the assistant does.
pub fn ai_tool_action(tc: &ToolCall) -> (a: ToolAction)
    ensures
        tool_action_ok(*tc, a),
{
    let n = tc.name.as_str();
    if crate::text::same_text(n, "toggle_service") {
        match &tc.action {
            Some(x) => ToolAction::Toggle { action: x.clone() },
            None => ToolAction::Nothing,
        }
    } else if crate::text::same_text(n, "add_route") {
        let prefix = arg_or_empty(&tc.prefix);
        let target = arg_or_empty(&tc.target);
        if !prefix.as_str().is_empty() && !target.as_str().is_empty() {
            ToolAction::AddRoute { prefix, target, label: arg_or_empty(&tc.label) }
        } else {
            ToolAction::Nothing
        }
    } else if crate::text::same_text(n, "remove_route") {
        match &tc.prefix {
            Some(p) => ToolAction::RemoveRoute { prefix: p.clone() },
            None => ToolAction::Nothing,
        }
    } else if crate::text::same_text(n, "enable_monitoring") {
        match tc.enable {
            Some(e) => ToolAction::Monitoring { enable: e },
            None => ToolAction::Nothing,
        }
    } else if crate::text::same_text(n, "forward_observation") {
        let message = arg_or_empty(&tc.message);
        if !message.as_str().is_empty() {
            let urgency = match &tc.urgency {
                Some(u) => u.clone(),
                None => owned("medium"),
            };
            ToolAction::Forward { message, urgency }
        } else {
            ToolAction::Nothing
        }
    } else {
        ToolAction::Unknown { name: tc.name.clone() }
    }
}

} // verus!
