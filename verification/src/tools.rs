//! The tools that the model can call, and how a call is read.

use vstd::prelude::*;
use crate::json;
use crate::text;

verus! {

/// What a parameter of a tool holds.
#[derive(Debug, Clone, Copy, PartialEq, Eq, Structural)]
pub enum ParamKind {
    Text,
    /// `up` or `down`.
    Direction,
    /// A list of subtasks, each with an id and a description.
    Subtasks,
}

/// A parameter of a tool. Every parameter is required.
#[derive(Debug, Clone, Copy)]
pub struct ParamSpec {
    pub name: &'static str,
    pub kind: ParamKind,
    pub description: Option<&'static str>,
}

/// A tool.
#[derive(Debug)]
pub struct ToolSpec {
    pub name: &'static str,
    pub description: &'static str,
    pub params: Vec<ParamSpec>,
}

/// The contents of a `ParamSpec`.
pub ghost struct ParamView {
    pub name: Seq<char>,
    pub kind: ParamKind,
    pub description: Option<Seq<char>>,
}

/// The contents of a `ToolSpec`.
pub ghost struct ToolView {
    pub name: Seq<char>,
    pub description: Seq<char>,
    pub params: Seq<ParamView>,
}

impl View for ParamSpec {
    type V = ParamView;

    open spec fn view(&self) -> ParamView {
        ParamView {
            name: self.name@,
            kind: self.kind,
            description: match self.description {
                Some(d) => Some(d@),
                None => None,
            },
        }
    }
}

impl View for ToolSpec {
    type V = ToolView;

    open spec fn view(&self) -> ToolView {
        ToolView {
            name: self.name@,
            description: self.description@,
            params: param_views(self.params@),
        }
    }
}

pub open spec fn param_views(v: Seq<ParamSpec>) -> Seq<ParamView> {
    v.map_values(|p: ParamSpec| p@)
}

pub open spec fn tool_views(v: Seq<ToolSpec>) -> Seq<ToolView> {
    v.map_values(|t: ToolSpec| t@)
}

// ---------------------------------------------------------------------------
// The table
// ---------------------------------------------------------------------------

pub const NAVIGATE_HELP: &'static str = "Navigate to a site. Pass the bare name (e.g. 'instagram', 'wikipedia', 'anthropic') or a full URL. The resolver rewrites bare names and routes sensitive platforms (instagram, x/twitter, facebook, linkedin, tiktok) through a Google search entry automatically. Do NOT pass 'site:' operators, search-engine query strings, or the resolved google.com URL — pass the user's actual site name or URL and the resolver will produce the right thing. Examples: navigate(url='instagram'), navigate(url='https://anthropic.com'), navigate(url='openai').";

pub const CLICK_HELP: &'static str = "Click an element by its ref_id";

pub const TYPE_HELP: &'static str = "Type text into an element by its ref_id";

pub const SCROLL_HELP: &'static str = "Scroll the page";

pub const PRESS_KEY_HELP: &'static str = "Press a key";

pub const SNAPSHOT_HELP: &'static str = "Take a snapshot to observe page changes";

pub const VISION_INSPECT_HELP: &'static str = "Inspect a region visually if it lacks an accessible name/role. Returns visual description.";

pub const FINISH_HELP: &'static str = "Complete the task with a final result. Subject to the completeness gate: if you previously called declare_subtasks, every subtask must be in a terminal state (done/skipped/failed) before this call will be honored. The first finish() call while any subtask is still pending is intercepted: the agent will force a fresh snapshot and re-prompt you to resolve each pending item.";

pub const DECLARE_SUBTASKS_HELP: &'static str = "Declare the list of sub-items this \
    task contains. Call this once at the start of a multi-item task with one entry per sub-item. The agent will track this list in code and require each item to be marked done (with a fresh snapshot as evidence), skipped, or failed before finish() is honored. If the task is a single undifferentiated unit, you do not need to call this tool.";

pub const MARK_SUBTASK_DONE_HELP: &'static str = "Mark a previously-declared subtask as done. Requires a fresh snapshot to have been taken since the last mark; the call will be rejected with a stale-evidence error if not. Pass the `snapshot_signature` returned by the most recent snapshot.";

pub const MARK_SUBTASK_SKIPPED_HELP: &'static str = "Mark a subtask as deliberately skipped (out of scope, not applicable, or the user already handled it). Provide a short reason. Skipped is a terminal status and counts as resolved for the finish() gate.";

pub const MARK_SUBTASK_FAILED_HELP: &'static str = "Mark a subtask as failed (attempted but could not verify success on screen). Provide a short reason describing what was tried and what went wrong. Failed is a terminal status and counts as resolved for the finish() gate, but will be reported in the per-subtask end-of-session summary.";

pub const URL_HELP: &'static str = "A bare site name (e.g. 'instagram') or a full URL (e.g. 'https://anthropic.com'). Do not include 'site:' operators, query strings, or already-resolved google.com URLs.";

pub const SUBTASK_ID_HELP: &'static str = "Short identifier for this sub-item, e.g. an underscore-or-hyphen name like msg_to_alice";

pub const SUBTASK_DESCRIPTION_HELP: &'static str = "One-line description of the sub-item";

pub const DONE_ID_HELP: &'static str = "The subtask id (as declared in declare_subtasks)";

pub const DONE_SIGNATURE_HELP: &'static str = "The page-state signature from the most recent snapshot";

/// A required text without further description.
pub open spec fn plain(name: Seq<char>) -> ParamView {
    ParamView { name, kind: ParamKind::Text, description: None }
}

/// A required text with a description.
pub open spec fn described(name: Seq<char>, help: Seq<char>) -> ParamView {
    ParamView { name, kind: ParamKind::Text, description: Some(help) }
}

/// The tools, in the order in which the model sees them.
pub open spec fn tool_table() -> Seq<ToolView> {
    seq![
        ToolView {
            name: "navigate"@,
            description: NAVIGATE_HELP@,
            params: seq![described("url"@, URL_HELP@)],
        },
        ToolView {
            name: "click"@,
            description: CLICK_HELP@,
            params: seq![plain("ref"@)],
        },
        ToolView {
            name: "type"@,
            description: TYPE_HELP@,
            params: seq![plain("ref"@), plain("text"@)],
        },
        ToolView {
            name: "scroll"@,
            description: SCROLL_HELP@,
            params: seq![ParamView { name: "direction"@, kind: ParamKind::Direction, description: None }],
        },
        ToolView {
            name: "press_key"@,
            description: PRESS_KEY_HELP@,
            params: seq![plain("key"@)],
        },
        ToolView {
            name: "snapshot"@,
            description: SNAPSHOT_HELP@,
            params: Seq::empty(),
        },
        ToolView {
            name: "vision_inspect"@,
            description: VISION_INSPECT_HELP@,
            params: seq![plain("ref"@)],
        },
        ToolView {
            name: "finish"@,
            description: FINISH_HELP@,
            params: seq![plain("result"@)],
        },
        ToolView {
            name: "declare_subtasks"@,
            description: DECLARE_SUBTASKS_HELP@,
            params: seq![ParamView { name: "items"@, kind: ParamKind::Subtasks, description: None }],
        },
        ToolView {
            name: "mark_subtask_done"@,
            description: MARK_SUBTASK_DONE_HELP@,
            params: seq![described("id"@, DONE_ID_HELP@), described("snapshot_signature"@, DONE_SIGNATURE_HELP@)],
        },
        ToolView {
            name: "mark_subtask_skipped"@,
            description: MARK_SUBTASK_SKIPPED_HELP@,
            params: seq![plain("id"@), plain("reason"@)],
        },
        ToolView {
            name: "mark_subtask_failed"@,
            description: MARK_SUBTASK_FAILED_HELP@,
            params: seq![plain("id"@), plain("reason"@)],
        },
    ]
}

fn text_param(name: &'static str) -> (r: ParamSpec)
    ensures
        r@ == plain(name@),
{
    ParamSpec { name, kind: ParamKind::Text, description: None }
}

fn text_param_with(name: &'static str, help: &'static str) -> (r: ParamSpec)
    ensures
        r@ == described(name@, help@),
{
    ParamSpec { name, kind: ParamKind::Text, description: Some(help) }
}

fn no_params(name: &'static str, description: &'static str) -> (r: ToolSpec)
    ensures
        r@ == (ToolView { name: name@, description: description@, params: Seq::empty() }),
{
    let params: Vec<ParamSpec> = Vec::new();
    assert(param_views(params@) == Seq::<ParamView>::empty());
    ToolSpec { name, description, params }
}

fn one_param(name: &'static str, description: &'static str, p: ParamSpec) -> (r: ToolSpec)
    ensures
        r@ == (ToolView { name: name@, description: description@, params: seq![p@] }),
{
    let mut params: Vec<ParamSpec> = Vec::new();
    params.push(p);
    assert(param_views(params@) == seq![p@]);
    ToolSpec { name, description, params }
}

fn two_params(
    name: &'static str,
    description: &'static str,
    p: ParamSpec,
    q: ParamSpec,
) -> (r: ToolSpec)
    ensures
        r@ == (ToolView { name: name@, description: description@, params: seq![p@, q@] }),
{
    let mut params: Vec<ParamSpec> = Vec::new();
    params.push(p);
    params.push(q);
    assert(param_views(params@) == seq![p@, q@]);
    ToolSpec { name, description, params }
}

/// The tools, in the order in which the model sees them.
pub fn tools() -> (r: Vec<ToolSpec>)
    ensures
        tool_views(r@) == tool_table(),
{
    let mut out: Vec<ToolSpec> = Vec::new();
    out.push(one_param("navigate", NAVIGATE_HELP, text_param_with("url", URL_HELP)));
    out.push(one_param("click", CLICK_HELP, text_param("ref")));
    out.push(two_params("type", TYPE_HELP, text_param("ref"), text_param("text")));
    out.push(one_param("scroll", SCROLL_HELP, ParamSpec { name: "direction", kind: ParamKind::Direction, description: None }));
    out.push(one_param("press_key", PRESS_KEY_HELP, text_param("key")));
    out.push(no_params("snapshot", SNAPSHOT_HELP));
    out.push(one_param("vision_inspect", VISION_INSPECT_HELP, text_param("ref")));
    out.push(one_param("finish", FINISH_HELP, text_param("result")));
    out.push(one_param("declare_subtasks", DECLARE_SUBTASKS_HELP, ParamSpec { name: "items", kind: ParamKind::Subtasks, description: None }));
    out.push(two_params("mark_subtask_done", MARK_SUBTASK_DONE_HELP, text_param_with("id", DONE_ID_HELP), text_param_with("snapshot_signature", DONE_SIGNATURE_HELP)));
    out.push(two_params("mark_subtask_skipped", MARK_SUBTASK_SKIPPED_HELP, text_param("id"), text_param("reason")));
    out.push(two_params("mark_subtask_failed", MARK_SUBTASK_FAILED_HELP, text_param("id"), text_param("reason")));
    assert(tool_views(out@) == tool_table());
    out
}

/// The names of the tools, in the order of the table.
pub fn tool_names_for_log() -> (r: Vec<&'static str>)
    ensures
        r@.map_values(|s: &'static str| s@) == tool_table().map_values(|t: ToolView| t.name),
{
    let mut out: Vec<&'static str> = Vec::new();
    out.push("navigate");
    out.push("click");
    out.push("type");
    out.push("scroll");
    out.push("press_key");
    out.push("snapshot");
    out.push("vision_inspect");
    out.push("finish");
    out.push("declare_subtasks");
    out.push("mark_subtask_done");
    out.push("mark_subtask_skipped");
    out.push("mark_subtask_failed");
    assert(out@.map_values(|s: &'static str| s@) == tool_table().map_values(|t: ToolView| t.name));
    out
}

// ---------------------------------------------------------------------------
// The schema
// ---------------------------------------------------------------------------

/// The schema of a text, with a description where there is one.
pub open spec fn text_schema(help: Option<Seq<char>>) -> Seq<char> {
    let base = json::with_text("{}"@, "type"@, "string"@);
    match help {
        Some(h) => json::with_text(base, "description"@, h),
        None => base,
    }
}

/// The schema of a list of subtasks.
pub open spec fn subtasks_schema() -> Seq<char> {
    let properties = json::json_with(
        json::json_with("{}"@, "id"@, text_schema(Some(SUBTASK_ID_HELP@))),
        "description"@,
        text_schema(Some(SUBTASK_DESCRIPTION_HELP@)),
    );
    let item = json::json_with(
        json::json_with(
            json::with_text("{}"@, "type"@, "object"@),
            "properties"@,
            properties,
        ),
        "required"@,
        json::array_of(seq![json::json_text("id"@), json::json_text("description"@)]),
    );
    json::json_with(json::with_text("{}"@, "type"@, "array"@), "items"@, item)
}

/// The schema of a parameter.
pub open spec fn param_schema(p: ParamView) -> Seq<char> {
    match p.kind {
        ParamKind::Text => text_schema(p.description),
        ParamKind::Direction => json::json_with(
            text_schema(p.description),
            "enum"@,
            json::array_of(seq![json::json_text("up"@), json::json_text("down"@)]),
        ),
        ParamKind::Subtasks => subtasks_schema(),
    }
}

/// The object that maps the name of each parameter to its schema.
pub open spec fn properties_schema(params: Seq<ParamView>) -> Seq<char>
    decreases params.len(),
{
    if params.len() == 0 {
        "{}"@
    } else {
        json::json_with(
            properties_schema(params.drop_last()),
            params.last().name,
            param_schema(params.last()),
        )
    }
}

/// The schema of the parameters of a tool.
pub open spec fn params_schema(params: Seq<ParamView>) -> Seq<char> {
    json::json_with(
        json::json_with(
            json::with_text("{}"@, "type"@, "object"@),
            "properties"@,
            properties_schema(params),
        ),
        "required"@,
        json::array_of(params.map_values(|p: ParamView| json::json_text(p.name))),
    )
}

/// The schema of a tool. A tool without parameters says nothing of them.
pub open spec fn tool_schema(t: ToolView) -> Seq<char> {
    let bare = json::with_text(
        json::with_text("{}"@, "name"@, t.name),
        "description"@,
        t.description,
    );
    let function = if t.params.len() == 0 {
        bare
    } else {
        json::json_with(bare, "parameters"@, params_schema(t.params))
    };
    json::json_with(json::with_text("{}"@, "type"@, "function"@), "function"@, function)
}

fn two_texts(a: &str, b: &str) -> (r: String)
    ensures
        r@ == json::array_of(seq![json::json_text(a@), json::json_text(b@)]),
{
    let mut items: Vec<String> = Vec::new();
    items.push(json::encode_text(a));
    items.push(json::encode_text(b));
    assert(text::views(items@) == seq![json::json_text(a@), json::json_text(b@)]);
    json::array_text(&items)
}

fn render_text(help: Option<&'static str>) -> (r: String)
    ensures
        r@ == text_schema(
            match help {
                Some(h) => Some(h@),
                None => None,
            },
        ),
{
    let base = json::set_text("{}", "type", "string");
    match help {
        Some(h) => json::set_text(base.as_str(), "description", h),
        None => base,
    }
}

fn render_subtasks() -> (r: String)
    ensures
        r@ == subtasks_schema(),
{
    let id = render_text(Some(SUBTASK_ID_HELP));
    let description = render_text(Some(SUBTASK_DESCRIPTION_HELP));
    let properties = json::with_key("{}", "id", id.as_str());
    let properties = json::with_key(properties.as_str(), "description", description.as_str());
    let item = json::set_text("{}", "type", "object");
    let item = json::with_key(item.as_str(), "properties", properties.as_str());
    let item = json::with_key(
        item.as_str(),
        "required",
        two_texts("id", "description").as_str(),
    );
    let list = json::set_text("{}", "type", "array");
    json::with_key(list.as_str(), "items", item.as_str())
}

fn render_param(p: &ParamSpec) -> (r: String)
    ensures
        r@ == param_schema(p@),
{
    match p.kind {
        ParamKind::Text => render_text(p.description),
        ParamKind::Direction => json::with_key(
            render_text(p.description).as_str(),
            "enum",
            two_texts("up", "down").as_str(),
        ),
        ParamKind::Subtasks => render_subtasks(),
    }
}

fn render_params(params: &Vec<ParamSpec>) -> (r: String)
    ensures
        r@ == params_schema(param_views(params@)),
{
    let ghost all = param_views(params@);
    let ghost name_of = |p: ParamView| json::json_text(p.name);
    let mut properties = text::owned("{}");
    let mut names: Vec<String> = Vec::new();
    let mut i: usize = 0;
    assert(properties_schema(all.take(0)) == "{}"@);
    while i < params.len()
        invariant
            i <= params@.len(),
            all == param_views(params@),
            name_of == (|p: ParamView| json::json_text(p.name)),
            properties@ == properties_schema(all.take(i as int)),
            text::views(names@) == all.take(i as int).map_values(name_of),
        decreases params@.len() - i,
    {
        let p = &params[i];
        let schema = render_param(p);
        properties = json::with_key(properties.as_str(), p.name, schema.as_str());
        let name = json::encode_text(p.name);
        let ghost before = text::views(names@);
        names.push(name);
        assert(text::views(names@) == before.push(name@));
        i += 1;
        assert(all.take(i as int).drop_last() == all.take(i - 1));
        assert(all.take(i as int).last() == p@);
        assert(all.take(i as int).map_values(name_of) == all.take(i - 1).map_values(name_of).push(
            name_of(p@),
        ));
    }
    assert(all.take(all.len() as int) == all);
    let out = json::set_text("{}", "type", "object");
    let out = json::with_key(out.as_str(), "properties", properties.as_str());
    json::with_key(out.as_str(), "required", json::array_text(&names).as_str())
}

fn render_tool(t: &ToolSpec) -> (r: String)
    ensures
        r@ == tool_schema(t@),
{
    let bare = json::set_text("{}", "name", t.name);
    let bare = json::set_text(bare.as_str(), "description", t.description);
    let function = if t.params.len() == 0 {
        bare
    } else {
        json::with_key(bare.as_str(), "parameters", render_params(&t.params).as_str())
    };
    let out = json::set_text("{}", "type", "function");
    json::with_key(out.as_str(), "function", function.as_str())
}

/// The schema of all tools, as JSON text.
pub open spec fn schema_text() -> Seq<char> {
    json::array_of(tool_table().map_values(|t: ToolView| tool_schema(t)))
}

/// Renders the schema of all tools.
pub fn get_tools_schema() -> (r: String)
    ensures
        r@ == schema_text(),
{
    let all = tools();
    let ghost table = tool_table();
    let ghost schema_of = |t: ToolView| tool_schema(t);
    let mut items: Vec<String> = Vec::new();
    let mut i: usize = 0;
    while i < all.len()
        invariant
            i <= all@.len(),
            tool_views(all@) == table,
            table.len() == all@.len(),
            schema_of == (|t: ToolView| tool_schema(t)),
            text::views(items@) == table.take(i as int).map_values(schema_of),
        decreases all@.len() - i,
    {
        let schema = render_tool(&all[i]);
        let ghost before = text::views(items@);
        items.push(schema);
        assert(text::views(items@) == before.push(schema@));
        i += 1;
        assert(table.take(i as int) == table.take(i - 1).push(table[i - 1]));
        assert(table[i - 1] == all@[i - 1]@);
        assert(table.take(i as int).map_values(schema_of) == table.take(i - 1).map_values(
            schema_of,
        ).push(schema_of(table[i - 1])));
    }
    assert(table.take(table.len() as int) == table);
    json::array_text(&items)
}

// ---------------------------------------------------------------------------
// Calls
// ---------------------------------------------------------------------------

/// A call of a tool with its arguments. A missing argument is empty.
#[derive(Debug, PartialEq, Eq)]
pub enum ToolCall {
    Navigate { url: String },
    Click { reference: String },
    Type { reference: String, text: String },
    Scroll { up: bool },
    PressKey { key: String },
    Snapshot,
    VisionInspect { reference: String },
    Finish { result: String },
    /// The declared items, each as JSON text.
    DeclareSubtasks { items: Vec<String> },
    MarkDone { id: String, signature: String },
    MarkSkipped { id: String, reason: String },
    MarkFailed { id: String, reason: String },
    /// No tool has this name.
    Unknown { name: String },
}

/// The contents of a `ToolCall`.
pub ghost enum CallView {
    Navigate { url: Seq<char> },
    Click { reference: Seq<char> },
    Type { reference: Seq<char>, text: Seq<char> },
    Scroll { up: bool },
    PressKey { key: Seq<char> },
    Snapshot,
    VisionInspect { reference: Seq<char> },
    Finish { result: Seq<char> },
    DeclareSubtasks { items: Seq<Seq<char>> },
    MarkDone { id: Seq<char>, signature: Seq<char> },
    MarkSkipped { id: Seq<char>, reason: Seq<char> },
    MarkFailed { id: Seq<char>, reason: Seq<char> },
    Unknown { name: Seq<char> },
}

impl View for ToolCall {
    type V = CallView;

    open spec fn view(&self) -> CallView {
        match *self {
            ToolCall::Navigate { url } => CallView::Navigate { url: url@ },
            ToolCall::Click { reference } => CallView::Click { reference: reference@ },
            ToolCall::Type { reference, text } => CallView::Type {
                reference: reference@,
                text: text@,
            },
            ToolCall::Scroll { up } => CallView::Scroll { up },
            ToolCall::PressKey { key } => CallView::PressKey { key: key@ },
            ToolCall::Snapshot => CallView::Snapshot,
            ToolCall::VisionInspect { reference } => CallView::VisionInspect {
                reference: reference@,
            },
            ToolCall::Finish { result } => CallView::Finish { result: result@ },
            ToolCall::DeclareSubtasks { items } => CallView::DeclareSubtasks {
                items: text::views(items@),
            },
            ToolCall::MarkDone { id, signature } => CallView::MarkDone {
                id: id@,
                signature: signature@,
            },
            ToolCall::MarkSkipped { id, reason } => CallView::MarkSkipped {
                id: id@,
                reason: reason@,
            },
            ToolCall::MarkFailed { id, reason } => CallView::MarkFailed {
                id: id@,
                reason: reason@,
            },
            ToolCall::Unknown { name } => CallView::Unknown { name: name@ },
        }
    }
}

/// The arguments that tools take, as far as a call gives them.
#[derive(Debug)]
pub struct ToolArgs {
    pub url: Option<String>,
    pub reference: Option<String>,
    pub text: Option<String>,
    pub direction: Option<String>,
    pub key: Option<String>,
    pub result: Option<String>,
    /// The declared items, each as JSON text.
    pub items: Option<Vec<String>>,
    pub id: Option<String>,
    pub signature: Option<String>,
    pub reason: Option<String>,
}

/// The contents of `ToolArgs`.
pub ghost struct ArgsView {
    pub url: Option<Seq<char>>,
    pub reference: Option<Seq<char>>,
    pub text: Option<Seq<char>>,
    pub direction: Option<Seq<char>>,
    pub key: Option<Seq<char>>,
    pub result: Option<Seq<char>>,
    pub items: Option<Seq<Seq<char>>>,
    pub id: Option<Seq<char>>,
    pub signature: Option<Seq<char>>,
    pub reason: Option<Seq<char>>,
}

impl View for ToolArgs {
    type V = ArgsView;

    open spec fn view(&self) -> ArgsView {
        ArgsView {
            url: text::opt_view(self.url),
            reference: text::opt_view(self.reference),
            text: text::opt_view(self.text),
            direction: text::opt_view(self.direction),
            key: text::opt_view(self.key),
            result: text::opt_view(self.result),
            items: text::opt_views(self.items),
            id: text::opt_view(self.id),
            signature: text::opt_view(self.signature),
            reason: text::opt_view(self.reason),
        }
    }
}

/// The arguments in a JSON text.
pub open spec fn args_in(args: Seq<char>) -> ArgsView {
    ArgsView {
        url: json::json_string(args, "/url"@),
        reference: json::json_string(args, "/ref"@),
        text: json::json_string(args, "/text"@),
        direction: json::json_string(args, "/direction"@),
        key: json::json_string(args, "/key"@),
        result: json::json_string(args, "/result"@),
        items: json::json_items(args, "/items"@),
        id: json::json_string(args, "/id"@),
        signature: json::json_string(args, "/snapshot_signature"@),
        reason: json::json_string(args, "/reason"@),
    }
}

/// Reads the arguments in a JSON text.
pub fn read_args(args: &str) -> (r: ToolArgs)
    ensures
        r@ == args_in(args@),
{
    ToolArgs {
        url: json::string_at(args, "/url"),
        reference: json::string_at(args, "/ref"),
        text: json::string_at(args, "/text"),
        direction: json::string_at(args, "/direction"),
        key: json::string_at(args, "/key"),
        result: json::string_at(args, "/result"),
        items: json::items_at(args, "/items"),
        id: json::string_at(args, "/id"),
        signature: json::string_at(args, "/snapshot_signature"),
        reason: json::string_at(args, "/reason"),
    }
}

/// An argument that is a text, empty where it is missing.
pub open spec fn given(argument: Option<Seq<char>>) -> Seq<char> {
    match argument {
        Some(s) => s,
        None => Seq::empty(),
    }
}

/// An argument that is a text, empty where it is missing.
pub fn given_or_empty(argument: Option<String>) -> (r: String)
    ensures
        r@ == given(text::opt_view(argument)),
{
    match argument {
        Some(s) => s,
        None => String::new(),
    }
}

/// The call that a name and arguments make. Any direction but `up` scrolls down.
pub open spec fn call_with(name: Seq<char>, a: ArgsView) -> CallView {
    if name == "navigate"@ {
        CallView::Navigate { url: given(a.url) }
    } else if name == "click"@ {
        CallView::Click { reference: given(a.reference) }
    } else if name == "type"@ {
        CallView::Type { reference: given(a.reference), text: given(a.text) }
    } else if name == "scroll"@ {
        CallView::Scroll { up: a.direction == Some("up"@) }
    } else if name == "press_key"@ {
        CallView::PressKey { key: given(a.key) }
    } else if name == "snapshot"@ {
        CallView::Snapshot
    } else if name == "vision_inspect"@ {
        CallView::VisionInspect { reference: given(a.reference) }
    } else if name == "finish"@ {
        CallView::Finish { result: given(a.result) }
    } else if name == "declare_subtasks"@ {
        CallView::DeclareSubtasks {
            items: match a.items {
                Some(items) => items,
                None => Seq::empty(),
            },
        }
    } else if name == "mark_subtask_done"@ {
        CallView::MarkDone { id: given(a.id), signature: given(a.signature) }
    } else if name == "mark_subtask_skipped"@ {
        CallView::MarkSkipped { id: given(a.id), reason: given(a.reason) }
    } else if name == "mark_subtask_failed"@ {
        CallView::MarkFailed { id: given(a.id), reason: given(a.reason) }
    } else {
        CallView::Unknown { name }
    }
}

/// Makes a call of a name and arguments.
pub fn make_call(name: &str, a: ToolArgs) -> (r: ToolCall)
    ensures
        r@ == call_with(name@, a@),
{
    if text::same(name, "navigate") {
        ToolCall::Navigate { url: given_or_empty(a.url) }
    } else if text::same(name, "click") {
        ToolCall::Click { reference: given_or_empty(a.reference) }
    } else if text::same(name, "type") {
        ToolCall::Type { reference: given_or_empty(a.reference), text: given_or_empty(a.text) }
    } else if text::same(name, "scroll") {
        let up = match &a.direction {
            Some(direction) => text::same(direction.as_str(), "up"),
            None => false,
        };
        ToolCall::Scroll { up }
    } else if text::same(name, "press_key") {
        ToolCall::PressKey { key: given_or_empty(a.key) }
    } else if text::same(name, "snapshot") {
        ToolCall::Snapshot
    } else if text::same(name, "vision_inspect") {
        ToolCall::VisionInspect { reference: given_or_empty(a.reference) }
    } else if text::same(name, "finish") {
        ToolCall::Finish { result: given_or_empty(a.result) }
    } else if text::same(name, "declare_subtasks") {
        match a.items {
            Some(items) => ToolCall::DeclareSubtasks { items },
            None => {
                let items: Vec<String> = Vec::new();
                assert(text::views(items@) == Seq::<Seq<char>>::empty());
                ToolCall::DeclareSubtasks { items }
            },
        }
    } else if text::same(name, "mark_subtask_done") {
        ToolCall::MarkDone { id: given_or_empty(a.id), signature: given_or_empty(a.signature) }
    } else if text::same(name, "mark_subtask_skipped") {
        ToolCall::MarkSkipped { id: given_or_empty(a.id), reason: given_or_empty(a.reason) }
    } else if text::same(name, "mark_subtask_failed") {
        ToolCall::MarkFailed { id: given_or_empty(a.id), reason: given_or_empty(a.reason) }
    } else {
        ToolCall::Unknown { name: text::owned(name) }
    }
}

/// The call that a name and a JSON text of arguments make.
pub open spec fn call_of(name: Seq<char>, args: Seq<char>) -> CallView {
    call_with(name, args_in(args))
}

/// Reads a call.
pub fn parse_call(name: &str, args: &str) -> (r: ToolCall)
    ensures
        r@ == call_of(name@, args@),
{
    make_call(name, read_args(args))
}

/// The reference of an element with the `@` that the page map uses before it.
pub open spec fn normalized_ref(r: Seq<char>) -> Seq<char> {
    if "@"@.is_prefix_of(r) {
        r
    } else {
        "@"@ + r
    }
}

/// Adds the `@` to a reference that lacks it.
pub fn normalize_ref(r: &str) -> (out: String)
    ensures
        out@ == normalized_ref(r@),
{
    if text::starts_with(r, "@") {
        text::owned(r)
    } else {
        let mut out = text::owned("@");
        out.append(r);
        out
    }
}

// ---------------------------------------------------------------------------
// Laws
// ---------------------------------------------------------------------------

/// Every tool that the model is told of is a tool that is carried out.
pub proof fn law_every_offered_tool_is_known(i: int, args: Seq<char>)
    requires
        0 <= i < tool_table().len(),
    ensures
        call_of(tool_table()[i].name, args) !is Unknown,
{
}

/// Only the tools that the model is told of are carried out.
pub proof fn law_other_tools_are_unknown(name: Seq<char>, args: Seq<char>)
    requires
        forall|i: int| 0 <= i < tool_table().len() ==> (#[trigger] tool_table()[i]).name != name,
    ensures
        call_of(name, args) == (CallView::Unknown { name }),
{
    let t = tool_table();
    assert(t[0].name != name && t[1].name != name && t[2].name != name && t[3].name != name);
    assert(t[4].name != name && t[5].name != name && t[6].name != name && t[7].name != name);
    assert(t[8].name != name && t[9].name != name && t[10].name != name && t[11].name != name);
}

/// A reference that was normalized stays as it is.
pub proof fn law_normalized_refs_are_stable(r: Seq<char>)
    ensures
        normalized_ref(normalized_ref(r)) == normalized_ref(r),
{
    if !"@"@.is_prefix_of(r) {
        assert(("@"@ + r).subrange(0, "@"@.len() as int) == "@"@);
    }
}

/// The tool that a call is a call of.
pub open spec fn tool_of(c: CallView) -> Option<Seq<char>> {
    match c {
        CallView::Navigate { .. } => Some("navigate"@),
        CallView::Click { .. } => Some("click"@),
        CallView::Type { .. } => Some("type"@),
        CallView::Scroll { .. } => Some("scroll"@),
        CallView::PressKey { .. } => Some("press_key"@),
        CallView::Snapshot => Some("snapshot"@),
        CallView::VisionInspect { .. } => Some("vision_inspect"@),
        CallView::Finish { .. } => Some("finish"@),
        CallView::DeclareSubtasks { .. } => Some("declare_subtasks"@),
        CallView::MarkDone { .. } => Some("mark_subtask_done"@),
        CallView::MarkSkipped { .. } => Some("mark_subtask_skipped"@),
        CallView::MarkFailed { .. } => Some("mark_subtask_failed"@),
        CallView::Unknown { .. } => None,
    }
}

/// The texts that a call carries, in the order of the parameters.
pub open spec fn texts_of(c: CallView) -> Seq<Seq<char>> {
    match c {
        CallView::Navigate { url } => seq![url],
        CallView::Click { reference } => seq![reference],
        CallView::Type { reference, text } => seq![reference, text],
        CallView::PressKey { key } => seq![key],
        CallView::VisionInspect { reference } => seq![reference],
        CallView::Finish { result } => seq![result],
        CallView::MarkDone { id, signature } => seq![id, signature],
        CallView::MarkSkipped { id, reason } => seq![id, reason],
        CallView::MarkFailed { id, reason } => seq![id, reason],
        _ => Seq::empty(),
    }
}

proof fn lemma_tool_names()
    ensures
        "navigate"@.len() == 8 && "navigate"@[0] == 'n',
        "click"@.len() == 5 && "click"@[0] == 'c',
        "type"@.len() == 4 && "type"@[0] == 't',
        "scroll"@.len() == 6 && "scroll"@[0] == 's',
        "press_key"@.len() == 9 && "press_key"@[0] == 'p',
        "snapshot"@.len() == 8 && "snapshot"@[0] == 's',
        "vision_inspect"@.len() == 14 && "vision_inspect"@[0] == 'v',
        "finish"@.len() == 6 && "finish"@[0] == 'f',
        "declare_subtasks"@.len() == 16 && "declare_subtasks"@[0] == 'd',
        "mark_subtask_done"@.len() == 17,
        "mark_subtask_skipped"@.len() == 20,
        "mark_subtask_failed"@.len() == 19,
{
    reveal_strlit("navigate");
    reveal_strlit("click");
    reveal_strlit("type");
    reveal_strlit("scroll");
    reveal_strlit("press_key");
    reveal_strlit("snapshot");
    reveal_strlit("vision_inspect");
    reveal_strlit("finish");
    reveal_strlit("declare_subtasks");
    reveal_strlit("mark_subtask_done");
    reveal_strlit("mark_subtask_skipped");
    reveal_strlit("mark_subtask_failed");
}

proof fn lemma_pointers()
    ensures
        "/"@ + "url"@ == "/url"@,
        "/"@ + "ref"@ == "/ref"@,
        "/"@ + "text"@ == "/text"@,
        "/"@ + "direction"@ == "/direction"@,
        "/"@ + "key"@ == "/key"@,
        "/"@ + "result"@ == "/result"@,
        "/"@ + "items"@ == "/items"@,
        "/"@ + "id"@ == "/id"@,
        "/"@ + "snapshot_signature"@ == "/snapshot_signature"@,
        "/"@ + "reason"@ == "/reason"@,
{
    reveal_strlit("/");
    reveal_strlit("url");
    reveal_strlit("/url");
    reveal_strlit("ref");
    reveal_strlit("/ref");
    reveal_strlit("text");
    reveal_strlit("/text");
    reveal_strlit("direction");
    reveal_strlit("/direction");
    reveal_strlit("key");
    reveal_strlit("/key");
    reveal_strlit("result");
    reveal_strlit("/result");
    reveal_strlit("items");
    reveal_strlit("/items");
    reveal_strlit("id");
    reveal_strlit("/id");
    reveal_strlit("snapshot_signature");
    reveal_strlit("/snapshot_signature");
    reveal_strlit("reason");
    reveal_strlit("/reason");
}

/// A call is a call of the tool that the model named.
pub proof fn law_a_call_is_of_the_tool_it_names(name: Seq<char>, args: Seq<char>)
    ensures
        tool_of(call_of(name, args)) is Some ==> tool_of(call_of(name, args)) == Some(name),
        call_of(name, args) matches CallView::Unknown { name: shown } ==> shown == name,
{
}

/// Every call that is carried out is a call of a tool that the model is told of.
pub proof fn law_the_model_is_told_of_every_tool(c: CallView)
    requires
        tool_of(c) is Some,
    ensures
        exists|i: int| 0 <= i < tool_table().len() && (#[trigger] tool_table()[i]).name == tool_of(c)->0,
{
    let i: int = match c {
        CallView::Navigate { .. } => 0,
        CallView::Click { .. } => 1,
        CallView::Type { .. } => 2,
        CallView::Scroll { .. } => 3,
        CallView::PressKey { .. } => 4,
        CallView::Snapshot => 5,
        CallView::VisionInspect { .. } => 6,
        CallView::Finish { .. } => 7,
        CallView::DeclareSubtasks { .. } => 8,
        CallView::MarkDone { .. } => 9,
        CallView::MarkSkipped { .. } => 10,
        _ => 11,
    };
    assert(tool_table()[i].name == tool_of(c)->0);
}

/// Each argument reaches the call: where the model gives a text under the name of
/// a parameter that the table offers, that text stands in the call at the place of
/// the parameter, and a text that it does not give is empty there.
pub proof fn law_arguments_reach_the_call(i: int, k: int, args: Seq<char>)
    requires
        0 <= i < tool_table().len(),
        0 <= k < tool_table()[i].params.len(),
        tool_table()[i].params[k].kind == ParamKind::Text,
    ensures
        texts_of(call_of(tool_table()[i].name, args)).len() == tool_table()[i].params.len(),
        forall|s: Seq<char>|
            json::json_string(args, "/"@ + tool_table()[i].params[k].name) == Some(s)
                ==> #[trigger] texts_of(call_of(tool_table()[i].name, args))[k] == s,
        json::json_string(args, "/"@ + tool_table()[i].params[k].name) is None ==> texts_of(
            call_of(tool_table()[i].name, args),
        )[k].len() == 0,
{
    lemma_tool_names();
    lemma_pointers();
    let t = tool_table();
    assert(i == 0 || i == 1 || i == 2 || i == 3 || i == 4 || i == 5 || i == 6 || i == 7 || i == 8
        || i == 9 || i == 10 || i == 11);
    assert(k == 0 || k == 1);
}

/// The text of `finish()` is the answer of the task, word for word.
pub proof fn law_finish_carries_its_result(args: Seq<char>, result: Seq<char>)
    requires
        json::json_string(args, "/result"@) == Some(result),
    ensures
        call_of("finish"@, args) == (CallView::Finish { result }),
{
    lemma_tool_names();
}

/// The texts of a call are those that the model gives, each under its own name.
pub proof fn law_calls_carry_what_the_model_gives(args: Seq<char>, s: Seq<char>, t: Seq<char>)
    ensures
        json::json_string(args, "/url"@) == Some(s) ==> call_of("navigate"@, args) == (
        CallView::Navigate { url: s }),
        json::json_string(args, "/ref"@) == Some(s) ==> call_of("click"@, args) == (
        CallView::Click { reference: s }),
        json::json_string(args, "/ref"@) == Some(s) ==> call_of("vision_inspect"@, args) == (
        CallView::VisionInspect { reference: s }),
        json::json_string(args, "/ref"@) == Some(s) && json::json_string(args, "/text"@) == Some(t)
            ==> call_of("type"@, args) == (CallView::Type { reference: s, text: t }),
        json::json_string(args, "/key"@) == Some(s) ==> call_of("press_key"@, args) == (
        CallView::PressKey { key: s }),
        json::json_string(args, "/id"@) == Some(s) && json::json_string(
            args,
            "/snapshot_signature"@,
        ) == Some(t) ==> call_of("mark_subtask_done"@, args) == (CallView::MarkDone {
            id: s,
            signature: t,
        }),
        json::json_string(args, "/id"@) == Some(s) && json::json_string(args, "/reason"@) == Some(t)
            ==> call_of("mark_subtask_skipped"@, args) == (CallView::MarkSkipped {
            id: s,
            reason: t,
        }),
        json::json_string(args, "/id"@) == Some(s) && json::json_string(args, "/reason"@) == Some(t)
            ==> call_of("mark_subtask_failed"@, args) == (CallView::MarkFailed {
            id: s,
            reason: t,
        }),
        call_of("snapshot"@, args) == CallView::Snapshot,
{
    lemma_tool_names();
}

/// The page is scrolled up where the model asks for it, and down otherwise.
pub proof fn law_scrolling_goes_where_it_is_asked_to(args: Seq<char>)
    ensures
        call_of("scroll"@, args) is Scroll,
        json::json_string(args, "/direction"@) == Some("up"@) ==> call_of("scroll"@, args)->up,
        json::json_string(args, "/direction"@) == Some("down"@) ==> !(call_of("scroll"@, args)->up),
        json::json_string(args, "/direction"@) is None ==> !(call_of("scroll"@, args)->up),
{
    lemma_tool_names();
    reveal_strlit("up");
    reveal_strlit("down");
    assert("up"@.len() != "down"@.len());
}

/// A declaration carries all of the items that the model lists, in order.
pub proof fn law_declarations_carry_every_item(args: Seq<char>)
    ensures
        call_of("declare_subtasks"@, args) is DeclareSubtasks,
        forall|items: Seq<Seq<char>>|
            json::json_items(args, "/items"@) == Some(items) ==> #[trigger] call_of(
                "declare_subtasks"@,
                args,
            )->items == items,
        json::json_items(args, "/items"@) is None ==> call_of("declare_subtasks"@, args)->items.len()
            == 0,
{
    lemma_tool_names();
}

/// Every parameter of a tool is required, under its own name.
pub proof fn law_every_parameter_is_required(t: ToolView, names: Seq<Seq<char>>)
    requires
        names.len() == t.params.len(),
        forall|i: int|
            0 <= i < names.len() ==> #[trigger] names[i] == json::json_text(t.params[i].name),
    ensures
        exists|others: Seq<char>|
            params_schema(t.params) == #[trigger] json::json_with(
                others,
                "required"@,
                json::array_of(names),
            ),
{
    assert(t.params.map_values(|p: ParamView| json::json_text(p.name)) == names);
    let others = json::json_with(
        json::with_text("{}"@, "type"@, "object"@),
        "properties"@,
        properties_schema(t.params),
    );
    assert(params_schema(t.params) == json::json_with(
        others,
        "required"@,
        json::array_of(names),
    ));
}

/// A reference that is normalized begins with `@`, and that is all that is added.
pub proof fn law_normalized_refs_keep_the_reference(r: Seq<char>)
    ensures
        normalized_ref(r).len() > 0 && normalized_ref(r)[0] == '@',
        r.is_suffix_of(normalized_ref(r)),
        normalized_ref(r).len() == r.len() + if r.len() > 0 && r[0] == '@' {
            0int
        } else {
            1int
        },
{
    reveal_strlit("@");
    let n = normalized_ref(r);
    assert("@"@.is_prefix_of(r) <==> r.len() > 0 && r[0] == '@') by {
        if r.len() > 0 && r[0] == '@' {
            assert(r.subrange(0, 1) == "@"@);
        }
        if "@"@.is_prefix_of(r) {
            assert(r.subrange(0, 1)[0] == '@');
        }
    }
    assert(n.subrange(n.len() - r.len(), n.len() as int) == r);
}

} // verus!
