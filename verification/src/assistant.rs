//! The AI assistant's side of a chat: the tools it is offered and what a
//! provider's reply comes to.
use vstd::prelude::*;

use crate::ai::{opt_text, AiClient};
use crate::text::owned;

verus! {

/// A parameter of a tool offered to the assistant.
pub struct ToolParam {
    pub name: String,
    /// JSON type: "string" or "boolean".
    pub kind: String,
    pub description: String,
    /// The values allowed, when the parameter is an enumeration.
    pub choices: Vec<String>,
}

/// A tool offered to the assistant.
pub struct ToolSpec {
    pub name: String,
    pub description: String,
    pub params: Vec<ToolParam>,
    pub required: Vec<String>,
}

/// A tool parameter as character sequences.
pub struct ToolParamView {
    pub name: Seq<char>,
    pub kind: Seq<char>,
    pub description: Seq<char>,
    pub choices: Seq<Seq<char>>,
}

/// A tool as character sequences.
pub struct ToolSpecView {
    pub name: Seq<char>,
    pub description: Seq<char>,
    pub params: Seq<ToolParamView>,
    pub required: Seq<Seq<char>>,
}

/// Texts as character sequences.
pub open spec fn texts_of(v: Seq<String>) -> Seq<Seq<char>> {
    v.map_values(|s: String| s@)
}

/// A parameter as a value of `ToolParamView`.
pub open spec fn param_view(p: ToolParam) -> ToolParamView {
    ToolParamView { name: p.name@, kind: p.kind@, description: p.description@, choices: texts_of(p.choices@) }
}

/// A tool as a value of `ToolSpecView`.
pub open spec fn spec_view(t: ToolSpec) -> ToolSpecView {
    ToolSpecView {
        name: t.name@,
        description: t.description@,
        params: t.params@.map_values(|p: ToolParam| param_view(p)),
        required: texts_of(t.required@),
    }
}

/// Tools as values of `ToolSpecView`.
pub open spec fn tool_specs_view(v: Seq<ToolSpec>) -> Seq<ToolSpecView> {
    v.map_values(|t: ToolSpec| spec_view(t))
}

/// A parameter without a list of allowed values.
pub open spec fn plain_param(name: Seq<char>, kind: Seq<char>, description: Seq<char>) -> ToolParamView {
    ToolParamView { name, kind, description, choices: seq![] }
}

/// The tools the assistant is offered: toggling a filter, adding and
/// removing a route, switching monitoring, forwarding an observation.
pub open spec fn tool_spec_list() -> Seq<ToolSpecView> {
    seq![
        ToolSpecView {
            name: "toggle_service"@,
            description: "Show or hide a service/log filter. Use 'all' to show all, 'none' to hide all, or a service label (like 'Agriculture', 'Logs', 'Weather') to toggle it."@,
            params: seq![plain_param("action"@, "string"@, "The filter action: 'all', 'none', or a specific service label"@)],
            required: seq!["action"@],
        },
        ToolSpecView {
            name: "add_route"@,
            description: "Add a new proxy route mapping a prefix to a target URL."@,
            params: seq![
                plain_param("prefix"@, "string"@, "URL prefix for the route, e.g. /api"@),
                plain_param("target"@, "string"@, "Target URL to proxy to, e.g. https://example.com/api"@),
                plain_param("label"@, "string"@, "Human-readable label for the service"@),
            ],
            required: seq!["prefix"@, "target"@, "label"@],
        },
        ToolSpecView {
            name: "remove_route"@,
            description: "Remove a dynamic proxy route by its prefix."@,
            params: seq![plain_param("prefix"@, "string"@, "The route prefix to remove, e.g. /api"@)],
            required: seq!["prefix"@],
        },
        ToolSpecView {
            name: "enable_monitoring"@,
            description: "Toggle request monitoring on/off to track transfers."@,
            params: seq![plain_param("enable"@, "boolean"@, "true to enable monitoring, false to disable"@)],
            required: seq!["enable"@],
        },
        ToolSpecView {
            name: "forward_observation"@,
            description: "Forward an observation or finding to another agent or service via webhook."@,
            params: seq![
                plain_param("message"@, "string"@, "The observation message to forward"@),
                ToolParamView {
                    name: "urgency"@,
                    kind: "string"@,
                    description: "Urgency level of the observation"@,
                    choices: seq!["low"@, "medium"@, "high"@, "critical"@],
                },
            ],
            required: seq!["message"@],
        },
    ]
}

fn param(name: &str, kind: &str, description: &str) -> (p: ToolParam)
    ensures
        param_view(p) == plain_param(name@, kind@, description@),
{
    let p = ToolParam { name: owned(name), kind: owned(kind), description: owned(description), choices: Vec::new() };
    assert(texts_of(p.choices@) =~= Seq::<Seq<char>>::empty());
    p
}

fn names1(a: &str) -> (r: Vec<String>)
    ensures
        texts_of(r@) == seq![a@],
{
    let mut r: Vec<String> = Vec::new();
    r.push(owned(a));
    assert(texts_of(r@) =~= seq![a@]);
    r
}

fn tool(name: &str, description: &str, params: Vec<ToolParam>, required: Vec<String>) -> (t: ToolSpec)
    ensures
        spec_view(t) == (ToolSpecView {
            name: name@,
            description: description@,
            params: params@.map_values(|p: ToolParam| param_view(p)),
            required: texts_of(required@),
        }),
{
    ToolSpec { name: owned(name), description: owned(description), params, required }
}

/// The tools offered to the assistant with every question.
pub fn tool_specs() -> (r: Vec<ToolSpec>)
    ensures
        tool_specs_view(r@) == tool_spec_list(),
{
    let mut r: Vec<ToolSpec> = Vec::new();

    let mut p1: Vec<ToolParam> = Vec::new();
    p1.push(param("action", "string", "The filter action: 'all', 'none', or a specific service label"));
    let t1 = tool(
        "toggle_service",
        "Show or hide a service/log filter. Use 'all' to show all, 'none' to hide all, or a service label (like 'Agriculture', 'Logs', 'Weather') to toggle it.",
        p1,
        names1("action"),
    );
    assert(spec_view(t1).params =~= tool_spec_list()[0].params);
    r.push(t1);

    let mut p2: Vec<ToolParam> = Vec::new();
    p2.push(param("prefix", "string", "URL prefix for the route, e.g. /api"));
    p2.push(param("target", "string", "Target URL to proxy to, e.g. https://example.com/api"));
    p2.push(param("label", "string", "Human-readable label for the service"));
    let mut req2: Vec<String> = Vec::new();
    req2.push(owned("prefix"));
    req2.push(owned("target"));
    req2.push(owned("label"));
    let t2 = tool("add_route", "Add a new proxy route mapping a prefix to a target URL.", p2, req2);
    assert(spec_view(t2).params =~= tool_spec_list()[1].params);
    assert(spec_view(t2).required =~= tool_spec_list()[1].required);
    r.push(t2);

    let mut p3: Vec<ToolParam> = Vec::new();
    p3.push(param("prefix", "string", "The route prefix to remove, e.g. /api"));
    let t3 = tool("remove_route", "Remove a dynamic proxy route by its prefix.", p3, names1("prefix"));
    assert(spec_view(t3).params =~= tool_spec_list()[2].params);
    r.push(t3);

    let mut p4: Vec<ToolParam> = Vec::new();
    p4.push(param("enable", "boolean", "true to enable monitoring, false to disable"));
    let t4 = tool("enable_monitoring", "Toggle request monitoring on/off to track transfers.", p4, names1("enable"));
    assert(spec_view(t4).params =~= tool_spec_list()[3].params);
    r.push(t4);

    let mut p5: Vec<ToolParam> = Vec::new();
    p5.push(param("message", "string", "The observation message to forward"));
    let mut levels: Vec<String> = Vec::new();
    levels.push(owned("low"));
    levels.push(owned("medium"));
    levels.push(owned("high"));
    levels.push(owned("critical"));
    let urgency = ToolParam {
        name: owned("urgency"),
        kind: owned("string"),
        description: owned("Urgency level of the observation"),
        choices: levels,
    };
    assert(texts_of(urgency.choices@) =~= seq!["low"@, "medium"@, "high"@, "critical"@]);
    p5.push(urgency);
    let t5 = tool(
        "forward_observation",
        "Forward an observation or finding to another agent or service via webhook.",
        p5,
        names1("message"),
    );
    assert(spec_view(t5).params =~= tool_spec_list()[4].params);
    r.push(t5);

    assert(tool_specs_view(r@) =~= tool_spec_list());
    r
}

/// A tool call as found in a reply: the function's name and arguments
/// text, each when present as a string.
pub struct CallCandidate {
    pub name: Option<String>,
    pub arguments: Option<String>,
}

/// The first choice of a reply: its message's text, if a string, and the
/// tool calls listed in it.
pub struct ReplyChoice {
    pub content: Option<String>,
    pub calls: Vec<CallCandidate>,
}

/// What the assistant answered: its text and the tool calls it asks for,
/// each with its name and its arguments as JSON text.
pub struct ChatAnswer {
    pub text: String,
    pub calls: Vec<(String, String)>,
}

/// The tool calls kept from a reply: those with both a name and an
/// arguments text, in order.
pub open spec fn kept_calls(cs: Seq<CallCandidate>) -> Seq<(Seq<char>, Seq<char>)>
    decreases cs.len(),
{
    if cs.len() == 0 {
        seq![]
    } else {
        let r = kept_calls(cs.drop_last());
        match (cs.last().name, cs.last().arguments) {
            (Some(n), Some(a)) => r.push((n@, a@)),
            _ => r,
        }
    }
}

/// The calls of an answer as character sequences.
pub open spec fn calls_view(v: Seq<(String, String)>) -> Seq<(Seq<char>, Seq<char>)> {
    v.map_values(|c: (String, String)| (c.0@, c.1@))
}

/// What a reply comes to: for a failed status, the error
/// "AI error ({status}): {message}" ("Unknown AI error" when the reply
/// gives none); with no choice, "No choices in AI response"; else the
/// first choice's text ("(no response)" when it has none) and its
/// complete tool calls.
pub open spec fn reply_outcome(
    status_ok: bool,
    status: Seq<char>,
    error_message: Option<Seq<char>>,
    choice: Option<ReplyChoice>,
) -> Result<(Seq<char>, Seq<(Seq<char>, Seq<char>)>), Seq<char>> {
    if !status_ok {
        Err(
            "AI error ("@ + status + "): "@ + match error_message {
                Some(m) => m,
                None => "Unknown AI error"@,
            },
        )
    } else {
        match choice {
            None => Err("No choices in AI response"@),
            Some(c) => Ok(
                (
                    match c.content {
                        Some(t) => t@,
                        None => "(no response)"@,
                    },
                    kept_calls(c.calls@),
                ),
            ),
        }
    }
}

/// An answer as character sequences.
pub open spec fn answer_view(r: Result<ChatAnswer, String>) -> Result<(Seq<char>, Seq<(Seq<char>, Seq<char>)>), Seq<char>> {
    match r {
        Ok(a) => Ok((a.text@, calls_view(a.calls@))),
        Err(e) => Err(e@),
    }
}

impl AiClient {
    /// Reads a provider's reply (its status, whether it succeeded, the
    /// error message it gives, and its first choice) and remembers the
    /// answer's text when there is one.
    pub fn receive_reply(
        &mut self,
        status_ok: bool,
        status: &str,
        error_message: Option<String>,
        choice: Option<ReplyChoice>,
    ) -> (r: Result<ChatAnswer, String>)
        ensures
            answer_view(r) == reply_outcome(status_ok, status@, opt_text(error_message), choice),
            final(self).settings() == old(self).settings(),
            final(self).key() == old(self).key(),
            match r {
                Ok(a) => final(self).last_answer() == Some(a.text@),
                Err(_) => final(self).last_answer() == old(self).last_answer(),
            },
    {
        if !status_ok {
            let mut e = crate::text::concat3("AI error (", status, "): ");
            match &error_message {
                Some(m) => e.append(m.as_str()),
                None => e.append("Unknown AI error"),
            }
            return Err(e);
        }
        let c = match choice {
            None => {
                return Err(owned("No choices in AI response"));
            },
            Some(c) => c,
        };
        let ghost cv = c;
        let text = match &c.content {
            Some(t) => t.clone(),
            None => owned("(no response)"),
        };
        let mut calls: Vec<(String, String)> = Vec::new();
        let mut i: usize = 0;
        while i < c.calls.len()
            invariant
                i <= c.calls@.len(),
                c == cv,
                calls_view(calls@) == kept_calls(c.calls@.subrange(0, i as int)),
            decreases c.calls@.len() - i,
        {
            let ghost sub = c.calls@.subrange(0, i + 1);
            assert(sub.drop_last() =~= c.calls@.subrange(0, i as int));
            let ghost before = calls_view(calls@);
            match (&c.calls[i].name, &c.calls[i].arguments) {
                (Some(n), Some(a)) => {
                    calls.push((n.clone(), a.clone()));
                    assert(calls_view(calls@) =~= before.push((n@, a@)));
                },
                _ => {},
            }
            i = i + 1;
        }
        assert(c.calls@.subrange(0, c.calls@.len() as int) =~= c.calls@);
        self.record_response(text.as_str());
        Ok(ChatAnswer { text, calls })
    }
}

} // verus!
