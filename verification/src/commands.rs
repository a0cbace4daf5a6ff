//! Commands typed into the command bar or posted to the control API.
use vstd::prelude::*;

use crate::text::{join_from, join_words, owned, same_text, split_words, texts, trim_leading_slashes, without_leading_slashes, words};

verus! {

/// What `str::to_lowercase` returns (Unicode lowercase mapping).
pub uninterp spec fn unicode_lower(s: Seq<char>) -> Seq<char>;

/// What `str::to_uppercase` returns (Unicode uppercase mapping).
pub uninterp spec fn unicode_upper(s: Seq<char>) -> Seq<char>;

/// `str::to_lowercase`: the Unicode lowercase of a string. Its result is a
/// function of the string alone, named here and not spelled out.
#[verifier::external_body]
pub(crate) fn to_lowercase(s: &str) -> (r: String)
    ensures
        r@ == unicode_lower(s@),
{
    s.to_lowercase()
}

/// `str::to_uppercase`: the Unicode uppercase of a string. Its result is a
/// function of the string alone, named here and not spelled out.
#[verifier::external_body]
fn to_uppercase(s: &str) -> (r: String)
    ensures
        r@ == unicode_upper(s@),
{
    s.to_uppercase()
}

/// A parsed command.
pub enum Command {
    /// Nothing but white space.
    Empty,
    /// `add <prefix> <target> [label...]`.
    AddRoute { prefix: String, target: String, label: String },
    /// `rm <prefix>`.
    RemoveRoute { prefix: String },
    /// `logmode <mode>`.
    LogMode { mode: String },
    /// `monitor` (control API): toggles request monitoring.
    Monitor,
    /// `ultra off` (control API).
    UltraOff,
    /// `ultra [routes...]` (control API).
    UltraOn { routes: Vec<String> },
    /// `saver [scene]` (command bar), the scene lowercased.
    Saver { scene: Option<String> },
    /// `search <term...>` (command bar).
    Search { term: String },
    /// Anything else: a filter command, passed on whole.
    Filter { cmd: String },
}

/// A command as character sequences.
pub enum CommandView {
    Empty,
    AddRoute { prefix: Seq<char>, target: Seq<char>, label: Seq<char> },
    RemoveRoute { prefix: Seq<char> },
    LogMode { mode: Seq<char> },
    Monitor,
    UltraOff,
    UltraOn { routes: Seq<Seq<char>> },
    Saver { scene: Option<Seq<char>> },
    Search { term: Seq<char> },
    Filter { cmd: Seq<char> },
}

impl View for Command {
    type V = CommandView;

    open spec fn view(&self) -> CommandView {
        match self {
            Command::Empty => CommandView::Empty,
            Command::AddRoute { prefix, target, label } => CommandView::AddRoute {
                prefix: prefix@,
                target: target@,
                label: label@,
            },
            Command::RemoveRoute { prefix } => CommandView::RemoveRoute { prefix: prefix@ },
            Command::LogMode { mode } => CommandView::LogMode { mode: mode@ },
            Command::Monitor => CommandView::Monitor,
            Command::UltraOff => CommandView::UltraOff,
            Command::UltraOn { routes } => CommandView::UltraOn { routes: texts(routes@) },
            Command::Saver { scene } => CommandView::Saver {
                scene: match scene {
                    Some(s) => Some(s@),
                    None => None,
                },
            },
            Command::Search { term } => CommandView::Search { term: term@ },
            Command::Filter { cmd } => CommandView::Filter { cmd: cmd@ },
        }
    }
}

/// The label of a route added without one: its prefix without leading
/// slashes, uppercased.
pub open spec fn default_label(prefix: Seq<char>) -> Seq<char> {
    unicode_upper(trim_leading_slashes(prefix))
}

/// The route commands both entry points share, or `None` when `ws` is
/// neither a complete `add` nor a complete `rm`.
pub open spec fn route_command(ws: Seq<Seq<char>>, action: Seq<char>) -> Option<CommandView> {
    if action == "add"@ && ws.len() >= 3 {
        Some(
            CommandView::AddRoute {
                prefix: ws[1],
                target: ws[2],
                label: if ws.len() > 3 {
                    join_words(ws.subrange(3, ws.len() as int))
                } else {
                    default_label(ws[1])
                },
            },
        )
    } else if action == "rm"@ && ws.len() >= 2 {
        Some(CommandView::RemoveRoute { prefix: ws[1] })
    } else {
        None
    }
}

/// How the control API reads a command: by its first word, lowercased.
pub open spec fn api_command(cmd: Seq<char>) -> CommandView {
    let ws = words(cmd);
    if ws.len() == 0 {
        CommandView::Empty
    } else {
        let action = unicode_lower(ws[0]);
        match route_command(ws, action) {
            Some(c) => c,
            None => if action == "logmode"@ && ws.len() >= 2 {
                CommandView::LogMode { mode: ws[1] }
            } else if action == "monitor"@ {
                CommandView::Monitor
            } else if action == "ultra"@ {
                if ws.len() >= 2 && ws[1] == "off"@ {
                    CommandView::UltraOff
                } else {
                    CommandView::UltraOn { routes: ws.subrange(1, ws.len() as int) }
                }
            } else {
                CommandView::Filter { cmd: cmd }
            },
        }
    }
}

/// How the command bar reads a command: by its first word, lowercased.
pub open spec fn view_command(cmd: Seq<char>) -> CommandView {
    let ws = words(cmd);
    if ws.len() == 0 {
        CommandView::Empty
    } else {
        let action = unicode_lower(ws[0]);
        match route_command(ws, action) {
            Some(c) => c,
            None => if action == "saver"@ {
                CommandView::Saver {
                    scene: if ws.len() >= 2 {
                        Some(unicode_lower(ws[1]))
                    } else {
                        None
                    },
                }
            } else if action == "logmode"@ && ws.len() >= 2 {
                CommandView::LogMode { mode: ws[1] }
            } else if action == "search"@ && ws.len() >= 2 {
                CommandView::Search { term: join_words(ws.subrange(1, ws.len() as int)) }
            } else {
                CommandView::Filter { cmd: cmd }
            },
        }
    }
}

/// The shared `add` / `rm` parsing.
fn parse_route_command(ws: &Vec<String>, action: &String) -> (r: Option<Command>)
    ensures
        match r {
            Some(c) => route_command(texts(ws@), action@) == Some(c@),
            None => route_command(texts(ws@), action@) is None,
        },
{
    if same_text(action.as_str(), "add") && ws.len() >= 3 {
        let label = if ws.len() > 3 {
            join_from(ws, 3)
        } else {
            let short = without_leading_slashes(ws[1].as_str());
            to_uppercase(short.as_str())
        };
        let c = Command::AddRoute { prefix: ws[1].clone(), target: ws[2].clone(), label };
        return Some(c);
    }
    if same_text(action.as_str(), "rm") && ws.len() >= 2 {
        return Some(Command::RemoveRoute { prefix: ws[1].clone() });
    }
    None
}

/// Parses a command posted to the control API.
pub fn parse_api_command(cmd: &str) -> (r: Command)
    ensures
        r@ == api_command(cmd@),
{
    let ws = split_words(cmd);
    if ws.len() == 0 {
        return Command::Empty;
    }
    let action = to_lowercase(ws[0].as_str());
    if let Some(c) = parse_route_command(&ws, &action) {
        return c;
    }
    if same_text(action.as_str(), "logmode") && ws.len() >= 2 {
        return Command::LogMode { mode: ws[1].clone() };
    }
    if same_text(action.as_str(), "monitor") {
        return Command::Monitor;
    }
    if same_text(action.as_str(), "ultra") {
        if ws.len() >= 2 && same_text(ws[1].as_str(), "off") {
            return Command::UltraOff;
        }
        let mut routes: Vec<String> = Vec::new();
        let mut i: usize = 1;
        assert(texts(routes@) =~= texts(ws@).subrange(1, 1));
        while i < ws.len()
            invariant
                1 <= i <= ws@.len(),
                texts(routes@) == texts(ws@).subrange(1, i as int),
            decreases ws@.len() - i,
        {
            let ghost before = routes@;
            routes.push(ws[i].clone());
            assert(texts(routes@) =~= texts(before).push(ws@[i as int]@));
            i = i + 1;
            assert(texts(routes@) =~= texts(ws@).subrange(1, i as int));
        }
        return Command::UltraOn { routes };
    }
    Command::Filter { cmd: owned(cmd) }
}

/// Parses a command typed into the command bar.
pub fn parse_view_command(cmd: &str) -> (r: Command)
    ensures
        r@ == view_command(cmd@),
{
    let ws = split_words(cmd);
    if ws.len() == 0 {
        return Command::Empty;
    }
    let action = to_lowercase(ws[0].as_str());
    if let Some(c) = parse_route_command(&ws, &action) {
        return c;
    }
    if same_text(action.as_str(), "saver") {
        let scene = if ws.len() >= 2 {
            Some(to_lowercase(ws[1].as_str()))
        } else {
            None
        };
        return Command::Saver { scene };
    }
    if same_text(action.as_str(), "logmode") && ws.len() >= 2 {
        return Command::LogMode { mode: ws[1].clone() };
    }
    if same_text(action.as_str(), "search") && ws.len() >= 2 {
        return Command::Search { term: join_from(&ws, 1) };
    }
    Command::Filter { cmd: owned(cmd) }
}

/// The names with repeats dropped, in order of first appearance.
pub open spec fn distinct_names(ns: Seq<Seq<char>>) -> Seq<Seq<char>>
    decreases ns.len(),
{
    if ns.len() == 0 {
        seq![]
    } else {
        let r = distinct_names(ns.drop_last());
        if r.contains(ns.last()) {
            r
        } else {
            r.push(ns.last())
        }
    }
}

/// The routes of an `ultra` command, each once, in order of first
/// appearance.
pub fn distinct_routes(routes: &Vec<String>) -> (r: Vec<String>)
    ensures
        texts(r@) == distinct_names(texts(routes@)),
{
    let mut r: Vec<String> = Vec::new();
    let mut i: usize = 0;
    while i < routes.len()
        invariant
            i <= routes@.len(),
            texts(r@) == distinct_names(texts(routes@).subrange(0, i as int)),
        decreases routes@.len() - i,
    {
        let ghost sub = texts(routes@).subrange(0, i + 1);
        assert(sub.drop_last() =~= texts(routes@).subrange(0, i as int));
        assert(sub.last() == routes@[i as int]@);
        let mut seen = false;
        let mut j: usize = 0;
        while j < r.len()
            invariant
                j <= r@.len(),
                i < routes@.len(),
                seen == exists|t: int| 0 <= t < j && (#[trigger] r@[t])@ == routes@[i as int]@,
            decreases r@.len() - j,
        {
            if same_text(r[j].as_str(), routes[i].as_str()) {
                seen = true;
            }
            j = j + 1;
        }
        if !seen {
            assert(!texts(r@).contains(routes@[i as int]@)) by {
                if texts(r@).contains(routes@[i as int]@) {
                    let t = choose|t: int| 0 <= t < texts(r@).len() && texts(r@)[t] == routes@[i as int]@;
                    assert(r@[t]@ == routes@[i as int]@);
                }
            }
            let ghost before = texts(r@);
            r.push(routes[i].clone());
            assert(texts(r@) =~= before.push(routes@[i as int]@));
        } else {
            proof {
                let t = choose|t: int| 0 <= t < r@.len() && (#[trigger] r@[t])@ == routes@[i as int]@;
                assert(texts(r@)[t] == routes@[i as int]@);
                assert(texts(r@).contains(routes@[i as int]@));
            }
        }
        i = i + 1;
    }
    assert(texts(routes@).subrange(0, routes@.len() as int) =~= texts(routes@));
    r
}

/// Whether a log mode is one the logger accepts ("day" or "session").
pub fn is_log_mode(mode: &str) -> (r: bool)
    ensures
        r == (mode@ == "day"@ || mode@ == "session"@),
{
    same_text(mode, "day") || same_text(mode, "session")
}

/// The control API and the command bar read route commands alike: a
/// command whose first word is `rm` (in any case) and that has a second
/// word removes the route named by that word, and one whose first word is
/// `add` with at least two more words adds a route with the second word as
/// prefix and the third as target.
pub proof fn law_route_commands_read_alike(cmd: Seq<char>)
    ensures
        ({
            let ws = words(cmd);
            &&& (ws.len() >= 2 && unicode_lower(ws[0]) == "rm"@) ==> {
                &&& api_command(cmd) == CommandView::RemoveRoute { prefix: ws[1] }
                &&& view_command(cmd) == CommandView::RemoveRoute { prefix: ws[1] }
            }
            &&& (ws.len() >= 3 && unicode_lower(ws[0]) == "add"@) ==> {
                &&& api_command(cmd) matches CommandView::AddRoute { prefix, target, .. }
                    && prefix == ws[1] && target == ws[2]
                &&& api_command(cmd) == view_command(cmd)
            }
        }),
{
    reveal_strlit("rm");
    reveal_strlit("add");
    assert("rm"@ != "add"@) by {
        assert("rm"@.len() != "add"@.len());
    }
}

} // verus!
