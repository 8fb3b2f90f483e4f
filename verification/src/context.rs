//! The system prompt and the message list for a model call.
use vstd::prelude::*;

use crate::approval::maybe_text;
use crate::number::{decimal, is_digits};
use crate::session::{push_all, text_message, Message, MessageV, Role};
use crate::split::{join, join_text, law_joined_texts_hold_each};
use crate::text::{
    contains, law_parts_of_parts, law_texts_hold_their_parts, lemma_holds_middle, put, starts_with,
    text,
};

verus! {

/// The prompt of an agent that was given none of its own.
pub const DEFAULT_SYSTEM_PROMPT: &'static str =
    r#"You are ZeptoClaw, a concise personal AI assistant. Use tools when useful.

Memory: use longterm_memory to save durable facts, user preferences, decisions, and critical pinned facts; recall them with action "search" when relevant.

Use ask_clarification for missing required info, real ambiguity, or destructive/irreversible actions; not trivial choices.

Scheduled messages: `Reminder:` means the scheduler delivered a reminder; notify the user in the reminder's voice. For heartbeat workspace checks, reply `HEARTBEAT_OK` when nothing needs action, otherwise act.

Visuals on a text-only channel: answer charts/dashboards with concise prose and, when useful, a markdown table. Do not emit JSON UI, Mermaid, or plotting code unless requested."#;

/// The part of the prompt for channels that render A2UI surfaces.
pub const A2UI_RENDERING_PROMPT_SUFFIX: &'static str = r#"## A2UI Rendering (HARD RULE)

This client renders A2UI v0.9 surfaces. When the user asks for a chart, a dashboard, a form or another visual, answer with short prose and one fenced block of A2UI messages, one JSON array in each block:

```a2ui
[{"version":"v0.9","createSurface":{"surfaceId":"s1","catalogId":"https://a2ui.org/specification/v0_9/basic_catalog.json"}},{"version":"v0.9","updateComponents":{"surfaceId":"s1","components":[{"id":"root","component":"Column","children":["title"]},{"id":"title","component":"Text","variant":"h3","text":"Hello"}]}}]
```

- Use one `surfaceId` for each surface; its tree starts at the component with the id `root`.
- Do NOT output Mermaid, ASCII art or plotting code in place of a surface.
- Do NOT call `shell` or another tool to draw charts."#;

/// The part of the prompt for the first conversation in a chat.
pub const FIRST_RUN_PERSONA_PROMPT: &'static str = r#"

## First Conversation Setup

This appears to be a new chat. Take a moment to introduce yourself briefly and ask the user what kind of assistant they'd like you to be. Offer these options:

1. **Default** — balanced and helpful
2. **Concise** — short, direct answers
3. **Friendly** — warm and conversational
4. **Professional** — formal and structured
5. **Creative** — playful and imaginative
6. **Technical** — detailed expert mode

Say something like: "Hi! I'm your AI assistant. I can adapt my style to suit you. Would you like me to be concise, friendly, professional, creative, or technical? Or just say 'default' for a balanced approach. You can also describe any custom style you'd like!"

After the user responds, save their preference using longterm_memory with key "persona_pref:{chat_id}" and apply it going forward."#;

/// The pattern of a day: its name, month, number and year, and nothing finer.
pub const DAY_PATTERN: &'static str = "%A, %B %-d, %Y";

/// The pattern of a moment: day name, date, hour and minute, and the offset from UTC.
pub const MOMENT_PATTERN: &'static str = "%A %Y-%m-%d %H:%M %:z";

/// The names of the days of the week, from Sunday on.
pub open spec fn weekday_name(w: nat) -> Seq<char> {
    if w == 0 {
        "Sunday"@
    } else if w == 1 {
        "Monday"@
    } else if w == 2 {
        "Tuesday"@
    } else if w == 3 {
        "Wednesday"@
    } else if w == 4 {
        "Thursday"@
    } else if w == 5 {
        "Friday"@
    } else {
        "Saturday"@
    }
}

/// The names of the months, from January, the first, on.
pub open spec fn month_name(m: nat) -> Seq<char> {
    if m == 1 {
        "January"@
    } else if m == 2 {
        "February"@
    } else if m == 3 {
        "March"@
    } else if m == 4 {
        "April"@
    } else if m == 5 {
        "May"@
    } else if m == 6 {
        "June"@
    } else if m == 7 {
        "July"@
    } else if m == 8 {
        "August"@
    } else if m == 9 {
        "September"@
    } else if m == 10 {
        "October"@
    } else if m == 11 {
        "November"@
    } else {
        "December"@
    }
}

/// A number in decimal digits, with zeros before it up to the given width.
pub open spec fn padded(n: nat, width: nat) -> Seq<char>
    decreases width,
{
    if decimal(n).len() >= width {
        decimal(n)
    } else {
        "0"@ + padded(n, (width - 1) as nat)
    }
}

/// A year in at least four digits; one of more or below zero has a sign.
pub open spec fn year_text(y: int) -> Seq<char> {
    if y < 0 {
        "-"@ + padded((-y) as nat, 4)
    } else if y < 10_000 {
        padded(y as nat, 4)
    } else {
        "+"@ + padded(y as nat, 4)
    }
}

/// A day in words: its name, month, number and year.
pub open spec fn day_text(weekday: nat, month: nat, day: nat, year: int) -> Seq<char> {
    weekday_name(weekday) + ", "@ + month_name(month) + " "@ + decimal(day) + ", "@ + year_text(
        year,
    )
}

/// Whether a text is a day in words, and nothing finer.
pub open spec fn is_day(s: Seq<char>) -> bool {
    exists|weekday: nat, month: nat, day: nat, year: int|
        weekday < 7 && 1 <= month <= 12 && 1 <= day <= 31 && s == #[trigger] day_text(
            weekday,
            month,
            day,
            year,
        )
}

/// A date in digits, behind the name of the day.
pub open spec fn date_text(weekday: nat, year: int, month: nat, day: nat) -> Seq<char> {
    weekday_name(weekday) + " "@ + year_text(year) + "-"@ + padded(month, 2) + "-"@ + padded(
        day,
        2,
    )
}

/// Hours and minutes.
pub open spec fn clock_text(hours: nat, minutes: nat) -> Seq<char> {
    padded(hours, 2) + ":"@ + padded(minutes, 2)
}

/// Whether a text is a date in digits.
pub open spec fn is_date(s: Seq<char>) -> bool {
    exists|weekday: nat, year: int, month: nat, day: nat|
        weekday < 7 && 1 <= month <= 12 && 1 <= day <= 31 && s == #[trigger] date_text(
            weekday,
            year,
            month,
            day,
        )
}

/// Whether a text is a time of day.
pub open spec fn is_time(s: Seq<char>) -> bool {
    exists|hours: nat, minutes: nat|
        hours < 24 && minutes < 60 && s == #[trigger] clock_text(hours, minutes)
}

/// Whether a text is an offset from UTC, rounded to minutes.
pub open spec fn is_offset(s: Seq<char>) -> bool {
    exists|hours: nat, minutes: nat|
        hours <= 24 && minutes < 60 && (s == "+"@ + #[trigger] clock_text(hours, minutes) || s
            == "-"@ + clock_text(hours, minutes))
}

/// A date, a time of day and an offset, with blanks between them.
pub open spec fn moment_text(date: Seq<char>, time: Seq<char>, offset: Seq<char>) -> Seq<char> {
    date + " "@ + time + " "@ + offset
}

/// Whether a text is a moment: a date in digits, the time of day and the offset.
pub open spec fn is_moment(s: Seq<char>) -> bool {
    exists|date: Seq<char>, time: Seq<char>, offset: Seq<char>|
        is_date(date) && is_time(time) && is_offset(offset) && s == #[trigger] moment_text(
            date,
            time,
            offset,
        )
}

/// `chrono::Local::now`, written out with `DateTime::format`: the host's local
/// time in one of the two patterns above. Which day or moment that is depends on
/// the clock and the host's time zone; the shape of the text does not. Names are
/// English, years have at least four digits, and an offset is rounded to minutes.
#[verifier::external_body]
fn local_time(pattern: &str) -> (r: String)
    requires
        pattern@ == DAY_PATTERN@ || pattern@ == MOMENT_PATTERN@,
    ensures
        pattern@ == DAY_PATTERN@ ==> is_day(r@),
        pattern@ == MOMENT_PATTERN@ ==> is_moment(r@),
{
    chrono::Local::now().format(pattern).to_string()
}

/// The day on the host's clock.
pub fn current_day() -> (r: String)
    ensures
        is_day(r@),
{
    local_time(DAY_PATTERN)
}

/// A moment in brackets.
pub open spec fn envelope(moment: Seq<char>) -> Seq<char> {
    "["@ + moment + "]"@
}

/// A moment in brackets.
pub fn envelope_text(moment: &str) -> (r: String)
    ensures
        r@ == envelope(moment@),
{
    let mut s = text("[");
    put(&mut s, moment);
    put(&mut s, "]");
    s
}

/// The present moment in brackets, to stand before a user's message.
pub fn format_message_envelope() -> (r: String)
    ensures
        exists|moment: Seq<char>| is_moment(moment) && r@ == #[trigger] envelope(moment),
{
    let moment = local_time(MOMENT_PATTERN);
    envelope_text(moment.as_str())
}

// ---------------------------------------------------------------------------
// Runtime context
// ---------------------------------------------------------------------------
/// What an agent knows of its environment.
#[derive(Debug)]
pub struct RuntimeContext {
    /// The channel the agent is running on.
    pub channel: Option<String>,
    /// Names of available tools.
    pub available_tools: Vec<String>,
    /// Timezone label; where it is set, the prompt names the day. Minutes and the
    /// offset are left out: they would change the prompt with every call.
    pub timezone: Option<String>,
    /// Workspace path.
    pub workspace: Option<String>,
    /// Operating system and architecture.
    pub os_info: Option<String>,
}

/// The model of a [`RuntimeContext`].
#[verifier::ext_equal]
pub struct CtxV {
    pub channel: Option<Seq<char>>,
    pub tools: Seq<Seq<char>>,
    pub timezone: Option<Seq<char>>,
    pub workspace: Option<Seq<char>>,
    pub os_info: Option<Seq<char>>,
}

impl DeepView for RuntimeContext {
    type V = CtxV;

    open spec fn deep_view(&self) -> CtxV {
        CtxV {
            channel: self.channel.deep_view(),
            tools: self.available_tools.deep_view(),
            timezone: self.timezone.deep_view(),
            workspace: self.workspace.deep_view(),
            os_info: self.os_info.deep_view(),
        }
    }
}

/// Lines with one more after them, if there is one more.
pub open spec fn with_line(lines: Seq<Seq<char>>, line: Option<Seq<char>>) -> Seq<Seq<char>> {
    match line {
        Some(l) => lines.push(l),
        None => lines,
    }
}

/// A labelled value, if there is a value.
pub open spec fn labelled(label: Seq<char>, value: Option<Seq<char>>) -> Option<Seq<char>> {
    match value {
        Some(v) => Some(label + v),
        None => None,
    }
}

/// The rule that goes with a workspace.
pub const WORKSPACE_RULES: &'static str =
    "- Workspace path rules: filesystem tools are scoped here. Prefer relative paths like `.` or `dir/file`; do not invent host paths outside the configured workspace.";

impl CtxV {
    /// The context in which nothing is known.
    pub open spec fn empty() -> CtxV {
        CtxV { channel: None, tools: seq![], timezone: None, workspace: None, os_info: None }
    }

    /// Whether nothing is known.
    pub open spec fn is_empty(self) -> bool {
        !self.has_stable() && self.timezone is None
    }

    /// Whether anything is known that does not change with time.
    pub open spec fn has_stable(self) -> bool {
        self.channel is Some || self.tools.len() > 0 || self.workspace is Some || self.os_info
            is Some
    }

    /// The lines on what does not change with time.
    pub open spec fn stable_lines(self) -> Seq<Seq<char>> {
        let l0 = with_line(seq![], labelled("- Channel: "@, self.channel));
        let l1 = with_line(
            l0,
            if self.tools.len() > 0 {
                Some("- Available tools: "@ + join(self.tools, ", "@))
            } else {
                None
            },
        );
        let l2 = with_line(l1, labelled("- Workspace: "@, self.workspace));
        let l3 = with_line(
            l2,
            if self.workspace is Some {
                Some(WORKSPACE_RULES@)
            } else {
                None
            },
        );
        with_line(l3, labelled("- Platform: "@, self.os_info))
    }

    /// The section on what does not change with time.
    pub open spec fn stable(self) -> Option<Seq<char>> {
        if self.has_stable() {
            Some("## Runtime Context\n\n"@ + join(self.stable_lines(), "\n"@))
        } else {
            None
        }
    }

    /// The section on the present day.
    pub open spec fn volatile(self, day: Seq<char>) -> Option<Seq<char>> {
        if self.timezone is Some {
            Some("## Session Now\n\n- Today is: "@ + day)
        } else {
            None
        }
    }

    /// One section for everything, with the present day in its last line.
    pub open spec fn whole(self, day: Seq<char>) -> Option<Seq<char>> {
        if self.is_empty() {
            None
        } else {
            let lines = with_line(
                self.stable_lines(),
                if self.timezone is Some {
                    Some("- Today is: "@ + day)
                } else {
                    None
                },
            );
            Some("## Runtime Context\n\n"@ + join(lines, "\n"@))
        }
    }
}

/// Adds a line.
fn add_line(lines: &mut Vec<String>, label: &str, value: &str)
    ensures
        final(lines).deep_view() == old(lines).deep_view().push(label@ + value@),
{
    let mut s = text(label);
    put(&mut s, value);
    lines.push(s);
    proof {
        assert(lines.deep_view() =~= old(lines).deep_view().push(label@ + value@));
    }
}

/// Adds a labelled value, if there is a value.
fn add_labelled(lines: &mut Vec<String>, label: &str, value: &Option<String>)
    ensures
        final(lines).deep_view() == with_line(
            old(lines).deep_view(),
            labelled(label@, value.deep_view()),
        ),
{
    if let Some(v) = value {
        add_line(lines, label, v.as_str());
    }
}

/// A heading before lines.
fn section(heading: &str, lines: &Vec<String>) -> (r: String)
    ensures
        r@ == heading@ + join(lines.deep_view(), "\n"@),
{
    let mut s = text(heading);
    put(&mut s, join_text(lines, "\n").as_str());
    s
}

impl RuntimeContext {
    /// A context in which nothing is known.
    pub fn new() -> (r: Self)
        ensures
            r.deep_view() == CtxV::empty(),
    {
        let available_tools: Vec<String> = Vec::new();
        proof {
            assert(available_tools.deep_view() =~= Seq::<Seq<char>>::empty());
        }
        RuntimeContext {
            channel: None,
            available_tools,
            timezone: None,
            workspace: None,
            os_info: None,
        }
    }

    /// The context with a channel name.
    pub fn with_channel(self, channel: &str) -> (r: Self)
        ensures
            r.deep_view() == (CtxV { channel: Some(channel@), ..self.deep_view() }),
    {
        let mut c = self;
        c.channel = Some(text(channel));
        c
    }

    /// The context with the names of the available tools.
    pub fn with_tools(self, tools: Vec<String>) -> (r: Self)
        ensures
            r.deep_view() == (CtxV { tools: tools.deep_view(), ..self.deep_view() }),
    {
        let mut c = self;
        c.available_tools = tools;
        c
    }

    /// The context with the timezone label `UTC`.
    pub fn with_current_time(self) -> (r: Self)
        ensures
            r.deep_view() == (CtxV { timezone: Some("UTC"@), ..self.deep_view() }),
    {
        let mut c = self;
        c.timezone = Some(text("UTC"));
        c
    }

    /// The context with a timezone label, which lets the prompt name the day.
    pub fn with_timezone(self, tz: &str) -> (r: Self)
        ensures
            r.deep_view() == (CtxV { timezone: Some(tz@), ..self.deep_view() }),
    {
        let mut c = self;
        c.timezone = Some(text(tz));
        c
    }

    /// The context with a workspace path.
    pub fn with_workspace(self, workspace: &str) -> (r: Self)
        ensures
            r.deep_view() == (CtxV { workspace: Some(workspace@), ..self.deep_view() }),
    {
        let mut c = self;
        c.workspace = Some(text(workspace));
        c
    }

    /// The context with the names of the operating system and the architecture.
    pub fn with_os_info(self, os: &str, arch: &str) -> (r: Self)
        ensures
            r.deep_view() == (CtxV { os_info: Some(os@ + " "@ + arch@), ..self.deep_view() }),
    {
        let mut c = self;
        let mut s = text(os);
        put(&mut s, " ");
        put(&mut s, arch);
        c.os_info = Some(s);
        c
    }

    /// Whether nothing is known.
    pub fn is_empty(&self) -> (r: bool)
        ensures
            r == self.deep_view().is_empty(),
    {
        self.channel.is_none() && self.available_tools.is_empty() && self.timezone.is_none()
            && self.workspace.is_none() && self.os_info.is_none()
    }

    /// The lines on what does not change with time.
    fn stable_parts(&self) -> (r: Vec<String>)
        ensures
            r.deep_view() == self.deep_view().stable_lines(),
    {
        let mut parts: Vec<String> = Vec::new();
        proof {
            assert(parts.deep_view() =~= Seq::<Seq<char>>::empty());
        }
        add_labelled(&mut parts, "- Channel: ", &self.channel);
        if !self.available_tools.is_empty() {
            let names = join_text(&self.available_tools, ", ");
            add_line(&mut parts, "- Available tools: ", names.as_str());
        }
        add_labelled(&mut parts, "- Workspace: ", &self.workspace);
        if self.workspace.is_some() {
            add_line(&mut parts, WORKSPACE_RULES, "");
            proof {
                reveal_strlit("");
                assert(WORKSPACE_RULES@ + ""@ =~= WORKSPACE_RULES@);
            }
        }
        add_labelled(&mut parts, "- Platform: ", &self.os_info);
        parts
    }

    /// One section for everything, on the given day.
    pub fn render_on(&self, day: &str) -> (r: Option<String>)
        ensures
            r.deep_view() == self.deep_view().whole(day@),
    {
        if self.is_empty() {
            return None;
        }
        let mut parts = self.stable_parts();
        if self.timezone.is_some() {
            add_line(&mut parts, "- Today is: ", day);
        }
        Some(section("## Runtime Context\n\n", &parts))
    }

    /// One section for everything, with the present day where a timezone is set.
    pub fn render(&self) -> (r: Option<String>)
        ensures
            exists|day: Seq<char>|
                is_day(day) && r.deep_view() == #[trigger] self.deep_view().whole(day),
            self.timezone is None ==> forall|day: Seq<char>|
                r.deep_view() == #[trigger] self.deep_view().whole(day),
    {
        let day = local_time(DAY_PATTERN);
        self.render_on(day.as_str())
    }

    /// The section on what does not change with time.
    pub fn render_stable(&self) -> (r: Option<String>)
        ensures
            r.deep_view() == self.deep_view().stable(),
    {
        let has_stable = self.channel.is_some() || !self.available_tools.is_empty()
            || self.workspace.is_some() || self.os_info.is_some();
        if !has_stable {
            return None;
        }
        Some(section("## Runtime Context\n\n", &self.stable_parts()))
    }

    /// The section on the given day.
    pub fn render_volatile_on(&self, day: &str) -> (r: Option<String>)
        ensures
            r.deep_view() == self.deep_view().volatile(day@),
    {
        if self.timezone.is_none() {
            return None;
        }
        let mut s = text("## Session Now\n\n- Today is: ");
        put(&mut s, day);
        Some(s)
    }

    /// The section on the present day, where a timezone is set.
    pub fn render_volatile(&self) -> (r: Option<String>)
        ensures
            r is Some <==> self.timezone is Some,
            exists|day: Seq<char>|
                is_day(day) && r.deep_view() == #[trigger] self.deep_view().volatile(day),
    {
        let day = local_time(DAY_PATTERN);
        self.render_volatile_on(day.as_str())
    }
}

impl Default for RuntimeContext {
    fn default() -> (r: Self)
        ensures
            r.deep_view() == CtxV::empty(),
    {
        RuntimeContext::new()
    }
}

impl Clone for RuntimeContext {
    fn clone(&self) -> (r: Self)
        ensures
            r.deep_view() == self.deep_view(),
    {
        let available_tools = self.available_tools.clone();
        proof {
            assert(available_tools.deep_view() =~= self.available_tools.deep_view());
        }
        RuntimeContext {
            channel: self.channel.clone(),
            available_tools,
            timezone: self.timezone.clone(),
            workspace: self.workspace.clone(),
            os_info: self.os_info.clone(),
        }
    }
}

// ---------------------------------------------------------------------------
// Layers
// ---------------------------------------------------------------------------
/// What the channel of a message can show.
#[derive(Debug, Clone, Copy, PartialEq, Eq, Structural)]
pub struct PromptCapabilities {
    /// Whether the channel renders A2UI surfaces.
    pub a2ui_capable: bool,
}

impl PromptCapabilities {
    /// The capabilities of a channel that renders A2UI surfaces.
    pub fn with_a2ui() -> (r: Self)
        ensures
            r.a2ui_capable,
    {
        PromptCapabilities { a2ui_capable: true }
    }
}

impl Default for PromptCapabilities {
    fn default() -> (r: Self)
        ensures
            !r.a2ui_capable,
    {
        PromptCapabilities { a2ui_capable: false }
    }
}

/// The system prompt in four layers, from the one that never changes to the one
/// that changes every day.
#[derive(Debug)]
pub struct LayeredSystemPrompt {
    /// Persona, base prompt, and the A2UI part.
    pub l1_base: String,
    /// Skills and the stable part of the runtime context.
    pub l2_semi_static: Option<String>,
    /// Memory.
    pub l3_memory: Option<String>,
    /// The present day.
    pub l4_volatile: Option<String>,
}

/// The model of a [`LayeredSystemPrompt`].
#[verifier::ext_equal]
pub struct LayersV {
    pub base: Seq<char>,
    pub semi_static: Option<Seq<char>>,
    pub memory: Option<Seq<char>>,
    pub volatile: Option<Seq<char>>,
}

impl DeepView for LayeredSystemPrompt {
    type V = LayersV;

    open spec fn deep_view(&self) -> LayersV {
        LayersV {
            base: self.l1_base@,
            semi_static: self.l2_semi_static.deep_view(),
            memory: self.l3_memory.deep_view(),
            volatile: self.l4_volatile.deep_view(),
        }
    }
}

/// A text with a layer after a blank line, if there is a layer.
pub open spec fn below(above: Seq<char>, layer: Option<Seq<char>>) -> Seq<char> {
    match layer {
        Some(l) => above + "\n\n"@ + l,
        None => above,
    }
}

impl LayersV {
    /// The layers above the one that changes every day.
    pub open spec fn lasting(self) -> Seq<char> {
        below(below(self.base, self.semi_static), self.memory)
    }

    /// All layers, in order, with blank lines between them.
    pub open spec fn joined(self) -> Seq<char> {
        below(self.lasting(), self.volatile)
    }
}

fn put_layer(s: &mut String, layer: &Option<String>)
    ensures
        final(s)@ == below(old(s)@, layer.deep_view()),
{
    if let Some(l) = layer {
        put(s, "\n\n");
        put(s, l.as_str());
    }
}

impl LayeredSystemPrompt {
    /// All layers, in order, with blank lines between them.
    pub fn join(&self) -> (r: String)
        ensures
            r@ == self.deep_view().joined(),
    {
        let mut s = self.l1_base.clone();
        put_layer(&mut s, &self.l2_semi_static);
        put_layer(&mut s, &self.l3_memory);
        put_layer(&mut s, &self.l4_volatile);
        s
    }
}

impl Clone for LayeredSystemPrompt {
    fn clone(&self) -> (r: Self)
        ensures
            r.deep_view() == self.deep_view(),
    {
        LayeredSystemPrompt {
            l1_base: self.l1_base.clone(),
            l2_semi_static: self.l2_semi_static.clone(),
            l3_memory: self.l3_memory.clone(),
            l4_volatile: self.l4_volatile.clone(),
        }
    }
}

// ---------------------------------------------------------------------------
// Context builder
// ---------------------------------------------------------------------------
/// Builds the messages of a model call.
pub struct ContextBuilder {
    system_prompt: String,
    soul_prompt: Option<String>,
    skills_prompt: Option<String>,
    runtime_context: Option<RuntimeContext>,
    memory_context: Option<String>,
    anchored_summary: Option<String>,
}

/// The model of a [`ContextBuilder`].
#[verifier::ext_equal]
pub struct BuilderV {
    pub system_prompt: Seq<char>,
    /// Identity text that goes before the system prompt.
    pub soul: Option<Seq<char>>,
    pub skills: Option<Seq<char>>,
    pub runtime: Option<CtxV>,
    pub memory: Option<Seq<char>>,
    /// The summary of earlier turns.
    pub summary: Option<Seq<char>>,
}

impl View for ContextBuilder {
    type V = BuilderV;

    closed spec fn view(&self) -> BuilderV {
        BuilderV {
            system_prompt: self.system_prompt@,
            soul: self.soul_prompt.deep_view(),
            skills: self.skills_prompt.deep_view(),
            runtime: self.runtime_context.deep_view(),
            memory: self.memory_context.deep_view(),
            summary: self.anchored_summary.deep_view(),
        }
    }
}

impl BuilderV {
    /// The builder with the default prompt and nothing else.
    pub open spec fn initial() -> BuilderV {
        BuilderV {
            system_prompt: DEFAULT_SYSTEM_PROMPT@,
            soul: None,
            skills: None,
            runtime: None,
            memory: None,
            summary: None,
        }
    }

    /// The layer that never changes.
    pub open spec fn base_layer(self, caps: PromptCapabilities) -> Seq<char> {
        let persona = match self.soul {
            Some(soul) => soul + "\n\n"@ + self.system_prompt,
            None => self.system_prompt,
        };
        if caps.a2ui_capable {
            persona + "\n\n"@ + A2UI_RENDERING_PROMPT_SUFFIX@
        } else {
            persona
        }
    }

    /// The skills and the stable part of the runtime context.
    pub open spec fn semi_static_layer(self) -> Option<Seq<char>> {
        let parts = with_line(
            with_line(seq![], labelled("## Available Skills\n\n"@, self.skills)),
            match self.runtime {
                Some(ctx) => ctx.stable(),
                None => None,
            },
        );
        if parts.len() == 0 {
            None
        } else {
            Some(join(parts, "\n\n"@))
        }
    }

    /// The memory: an override takes the place of what is stored, and an empty
    /// one leaves memory out.
    pub open spec fn memory_layer(self, memory_override: Option<Seq<char>>) -> Option<Seq<char>> {
        match memory_override {
            Some(m) => if m.len() == 0 {
                None
            } else {
                Some(m)
            },
            None => self.memory,
        }
    }

    /// The present day.
    pub open spec fn volatile_layer(self, day: Seq<char>) -> Option<Seq<char>> {
        match self.runtime {
            Some(ctx) => ctx.volatile(day),
            None => None,
        }
    }

    /// All layers.
    pub open spec fn layers(
        self,
        caps: PromptCapabilities,
        memory_override: Option<Seq<char>>,
        day: Seq<char>,
    ) -> LayersV {
        LayersV {
            base: self.base_layer(caps),
            semi_static: self.semi_static_layer(),
            memory: self.memory_layer(memory_override),
            volatile: self.volatile_layer(day),
        }
    }

    /// The system message.
    pub open spec fn system(
        self,
        caps: PromptCapabilities,
        memory_override: Option<Seq<char>>,
        day: Seq<char>,
    ) -> MessageV {
        text_message(Role::System, self.layers(caps, memory_override, day).joined())
    }

    /// Whether the prompt names the day and user messages carry the moment.
    pub open spec fn tells_time(self) -> bool {
        self.runtime matches Some(ctx) && ctx.timezone is Some
    }

    /// The user's message, behind the moment where the agent tells time; none
    /// where the user wrote nothing.
    pub open spec fn input(self, user_input: Seq<char>, moment: Seq<char>) -> Seq<MessageV> {
        if user_input.len() == 0 {
            seq![]
        } else if self.tells_time() {
            seq![text_message(Role::User, envelope(moment) + " "@ + user_input)]
        } else {
            seq![text_message(Role::User, user_input)]
        }
    }

    /// The summary of earlier turns as a message.
    pub open spec fn summary_message(self) -> Seq<MessageV> {
        match self.summary {
            Some(s) => seq![text_message(Role::System, s)],
            None => seq![],
        }
    }

    /// The messages without the summary.
    pub open spec fn messages(
        self,
        history: Seq<MessageV>,
        user_input: Seq<char>,
        day: Seq<char>,
        moment: Seq<char>,
    ) -> Seq<MessageV> {
        seq![self.system(PromptCapabilities { a2ui_capable: false }, None, day)] + history
            + self.input(user_input, moment)
    }

    /// The messages with the summary behind the system message.
    pub open spec fn messages_with(
        self,
        history: Seq<MessageV>,
        user_input: Seq<char>,
        memory_override: Option<Seq<char>>,
        caps: PromptCapabilities,
        day: Seq<char>,
        moment: Seq<char>,
    ) -> Seq<MessageV> {
        seq![self.system(caps, memory_override, day)] + self.summary_message() + history
            + self.input(user_input, moment)
    }

    /// The messages with a summary of the conversation's start in place of the
    /// builder's own.
    pub open spec fn messages_after(
        self,
        history: Seq<MessageV>,
        user_input: Seq<char>,
        memory_override: Option<Seq<char>>,
        caps: PromptCapabilities,
        summary: Option<Seq<char>>,
        day: Seq<char>,
        moment: Seq<char>,
    ) -> Seq<MessageV> {
        match summary {
            Some(s) => (BuilderV {
                summary: Some("[Conversation Summary]\n"@ + s),
                ..self
            }).messages_with(history, user_input, memory_override, caps, day, moment),
            None => self.messages_with(history, user_input, memory_override, caps, day, moment),
        }
    }
}

impl ContextBuilder {
    /// A builder with the default system prompt.
    pub fn new() -> (r: Self)
        ensures
            r@ == BuilderV::initial(),
    {
        ContextBuilder {
            system_prompt: text(DEFAULT_SYSTEM_PROMPT),
            soul_prompt: None,
            skills_prompt: None,
            runtime_context: None,
            memory_context: None,
            anchored_summary: None,
        }
    }

    /// The builder with another system prompt.
    pub fn with_system_prompt(self, prompt: &str) -> (r: Self)
        ensures
            r@ == (BuilderV { system_prompt: prompt@, ..self@ }),
    {
        let mut b = self;
        b.system_prompt = text(prompt);
        b
    }

    /// The builder with identity text before the system prompt.
    pub fn with_soul(self, content: &str) -> (r: Self)
        ensures
            r@ == (BuilderV { soul: Some(content@), ..self@ }),
    {
        let mut b = self;
        b.soul_prompt = Some(text(content));
        b
    }

    /// The builder with a section on skills.
    pub fn with_skills(self, skills_content: &str) -> (r: Self)
        ensures
            r@ == (BuilderV { skills: Some(skills_content@), ..self@ }),
    {
        let mut b = self;
        b.skills_prompt = Some(text(skills_content));
        b
    }

    /// The builder with a runtime context; one in which nothing is known is ignored.
    pub fn with_runtime_context(self, ctx: RuntimeContext) -> (r: Self)
        ensures
            r@ == (if ctx.deep_view().is_empty() {
                self@
            } else {
                BuilderV { runtime: Some(ctx.deep_view()), ..self@ }
            }),
    {
        let mut b = self;
        if !ctx.is_empty() {
            b.runtime_context = Some(ctx);
        }
        b
    }

    /// The builder with a memory section; an empty one is ignored.
    pub fn with_memory_context(self, memory_context: String) -> (r: Self)
        ensures
            r@ == (if memory_context@.len() == 0 {
                self@
            } else {
                BuilderV { memory: Some(memory_context@), ..self@ }
            }),
    {
        let mut b = self;
        if !memory_context.as_str().is_empty() {
            b.memory_context = Some(memory_context);
        }
        b
    }

    /// The builder with more text at the end of its system prompt.
    pub fn with_system_prompt_suffix(self, suffix: &str) -> (r: Self)
        ensures
            r@ == (BuilderV { system_prompt: self@.system_prompt + suffix@, ..self@ }),
    {
        let mut b = self;
        put(&mut b.system_prompt, suffix);
        b
    }

    /// The builder with a summary of earlier turns, or without one.
    pub fn with_anchored_summary(self, summary: Option<String>) -> (r: Self)
        ensures
            r@ == (BuilderV { summary: summary.deep_view(), ..self@ }),
    {
        let mut b = self;
        b.anchored_summary = summary;
        b
    }

    /// The system prompt.
    pub fn system_prompt(&self) -> (r: &str)
        ensures
            r@ == self@.system_prompt,
    {
        self.system_prompt.as_str()
    }

    /// Whether there is identity text.
    pub fn has_soul(&self) -> (r: bool)
        ensures
            r == (self@.soul is Some),
    {
        self.soul_prompt.is_some()
    }

    /// Whether there is a section on skills.
    pub fn has_skills(&self) -> (r: bool)
        ensures
            r == (self@.skills is Some),
    {
        self.skills_prompt.is_some()
    }

    /// The summary of earlier turns.
    pub fn anchored_summary(&self) -> (r: Option<&str>)
        ensures
            maybe_text(r) == self@.summary,
    {
        match &self.anchored_summary {
            Some(s) => Some(s.as_str()),
            None => None,
        }
    }

    fn base_text(&self, caps: PromptCapabilities) -> (r: String)
        ensures
            r@ == self@.base_layer(caps),
    {
        let mut l1 = String::new();
        if let Some(soul) = &self.soul_prompt {
            put(&mut l1, soul.as_str());
            put(&mut l1, "\n\n");
        }
        put(&mut l1, self.system_prompt.as_str());
        proof {
            assert(Seq::<char>::empty() + self@.system_prompt =~= self@.system_prompt);
            if let Some(soul) = self@.soul {
                assert(Seq::<char>::empty() + soul =~= soul);
            }
        }
        if caps.a2ui_capable {
            put(&mut l1, "\n\n");
            put(&mut l1, A2UI_RENDERING_PROMPT_SUFFIX);
        }
        l1
    }

    fn semi_static_text(&self) -> (r: Option<String>)
        ensures
            r.deep_view() == self@.semi_static_layer(),
    {
        let mut parts: Vec<String> = Vec::new();
        proof {
            assert(parts.deep_view() =~= Seq::<Seq<char>>::empty());
        }
        add_labelled(&mut parts, "## Available Skills\n\n", &self.skills_prompt);
        if let Some(ctx) = &self.runtime_context {
            if let Some(stable) = ctx.render_stable() {
                add_line(&mut parts, "", stable.as_str());
                proof {
                    reveal_strlit("");
                    assert(""@ + stable@ =~= stable@);
                }
            }
        }
        proof {
            assert(parts.deep_view().len() == parts@.len());
        }
        if parts.is_empty() {
            None
        } else {
            Some(join_text(&parts, "\n\n"))
        }
    }

    fn memory_text(&self, memory_override: Option<&str>) -> (r: Option<String>)
        ensures
            r.deep_view() == self@.memory_layer(maybe_text(memory_override)),
    {
        match memory_override {
            Some(memory) => if memory.is_empty() {
                None
            } else {
                Some(text(memory))
            },
            None => self.memory_context.clone(),
        }
    }

    /// The system prompt in its layers, on the given day.
    pub fn build_system_layered_on(
        &self,
        caps: PromptCapabilities,
        memory_override: Option<&str>,
        day: &str,
    ) -> (r: LayeredSystemPrompt)
        ensures
            r.deep_view() == self@.layers(caps, maybe_text(memory_override), day@),
    {
        LayeredSystemPrompt {
            l1_base: self.base_text(caps),
            l2_semi_static: self.semi_static_text(),
            l3_memory: self.memory_text(memory_override),
            l4_volatile: match &self.runtime_context {
                Some(ctx) => ctx.render_volatile_on(day),
                None => None,
            },
        }
    }

    /// The system prompt in its layers, with the present day where a timezone is
    /// set.
    pub fn build_system_layered(
        &self,
        caps: PromptCapabilities,
        memory_override: Option<&str>,
    ) -> (r: LayeredSystemPrompt)
        ensures
            exists|day: Seq<char>|
                is_day(day) && r.deep_view() == #[trigger] self@.layers(
                    caps,
                    maybe_text(memory_override),
                    day,
                ),
            !self@.tells_time() ==> forall|day: Seq<char>|
                r.deep_view() == #[trigger] self@.layers(caps, maybe_text(memory_override), day),
    {
        let day = local_time(DAY_PATTERN);
        self.build_system_layered_on(caps, memory_override, day.as_str())
    }

    /// The system message, on the given day.
    fn system_message_on(
        &self,
        caps: PromptCapabilities,
        memory_override: Option<&str>,
        day: &str,
    ) -> (r: Message)
        ensures
            r.deep_view() == self@.system(caps, maybe_text(memory_override), day@),
    {
        let layered = self.build_system_layered_on(caps, memory_override, day);
        Message::system(layered.join().as_str())
    }

    /// The system message.
    pub fn build_system_message(&self) -> (r: Message)
        ensures
            exists|day: Seq<char>|
                is_day(day) && r.deep_view() == #[trigger] self@.system(
                    PromptCapabilities { a2ui_capable: false },
                    None,
                    day,
                ),
            !self@.tells_time() ==> forall|day: Seq<char>|
                r.deep_view() == #[trigger] self@.system(
                    PromptCapabilities { a2ui_capable: false },
                    None,
                    day,
                ),
    {
        self.build_system_message_with_overrides(None, PromptCapabilities { a2ui_capable: false })
    }

    /// The system message with an override of the memory, for a channel with the
    /// given capabilities.
    pub fn build_system_message_with_overrides(
        &self,
        memory_override: Option<&str>,
        caps: PromptCapabilities,
    ) -> (r: Message)
        ensures
            exists|day: Seq<char>|
                is_day(day) && r.deep_view() == #[trigger] self@.system(
                    caps,
                    maybe_text(memory_override),
                    day,
                ),
            !self@.tells_time() ==> forall|day: Seq<char>|
                r.deep_view() == #[trigger] self@.system(caps, maybe_text(memory_override), day),
    {
        let day = local_time(DAY_PATTERN);
        self.system_message_on(caps, memory_override, day.as_str())
    }

    /// Adds the user's message.
    fn push_input(&self, messages: &mut Vec<Message>, user_input: &str, moment: &str)
        ensures
            final(messages).deep_view() == old(messages).deep_view() + self@.input(
                user_input@,
                moment@,
            ),
    {
        if user_input.is_empty() {
            proof {
                assert(messages.deep_view() + Seq::<MessageV>::empty() =~= messages.deep_view());
            }
            return;
        }
        let tells_time = match &self.runtime_context {
            Some(ctx) => ctx.timezone.is_some(),
            None => false,
        };
        let mut content = String::new();
        if tells_time {
            content = envelope_text(moment);
            put(&mut content, " ");
            put(&mut content, user_input);
        } else {
            content = text(user_input);
        }
        messages.push(Message::user(content.as_str()));
        proof {
            assert(messages.deep_view() =~= old(messages).deep_view() + self@.input(
                user_input@,
                moment@,
            ));
        }
    }

    /// The messages of a model call at the given time, without the summary.
    pub fn build_messages_at(
        &self,
        history: &[Message],
        user_input: &str,
        day: &str,
        moment: &str,
    ) -> (r: Vec<Message>)
        ensures
            r.deep_view() == self@.messages(history.deep_view(), user_input@, day@, moment@),
    {
        let mut messages: Vec<Message> = Vec::new();
        messages.push(
            self.system_message_on(PromptCapabilities { a2ui_capable: false }, None, day),
        );
        proof {
            assert(messages.deep_view() =~= seq![
                self@.system(PromptCapabilities { a2ui_capable: false }, None, day@),
            ]);
        }
        push_all(&mut messages, history);
        self.push_input(&mut messages, user_input, moment);
        messages
    }

    /// The messages of a model call: the system message, the history, and the
    /// user's message where the user wrote something.
    pub fn build_messages(&self, history: &[Message], user_input: &str) -> (r: Vec<Message>)
        ensures
            exists|day: Seq<char>, moment: Seq<char>|
                is_day(day) && is_moment(moment) && r.deep_view() == #[trigger] self@.messages(
                    history.deep_view(),
                    user_input@,
                    day,
                    moment,
                ),
            !self@.tells_time() ==> forall|day: Seq<char>, moment: Seq<char>|
                r.deep_view() == #[trigger] self@.messages(
                    history.deep_view(),
                    user_input@,
                    day,
                    moment,
                ),
    {
        let day = local_time(DAY_PATTERN);
        let moment = local_time(MOMENT_PATTERN);
        self.build_messages_at(history, user_input, day.as_str(), moment.as_str())
    }

    /// The messages of a model call at the given time, with the summary, for a
    /// channel with the given capabilities.
    pub fn build_messages_with_overrides_at(
        &self,
        history: &[Message],
        user_input: &str,
        memory_override: Option<&str>,
        caps: PromptCapabilities,
        day: &str,
        moment: &str,
    ) -> (r: Vec<Message>)
        ensures
            r.deep_view() == self@.messages_with(
                history.deep_view(),
                user_input@,
                maybe_text(memory_override),
                caps,
                day@,
                moment@,
            ),
    {
        let mut messages: Vec<Message> = Vec::new();
        messages.push(self.system_message_on(caps, memory_override, day));
        if let Some(summary) = &self.anchored_summary {
            messages.push(Message::system(summary.as_str()));
        }
        proof {
            assert(messages.deep_view() =~= seq![
                self@.system(caps, maybe_text(memory_override), day@),
            ] + self@.summary_message());
        }
        push_all(&mut messages, history);
        self.push_input(&mut messages, user_input, moment);
        messages
    }

    /// The messages of a model call at the given time, with a summary of the
    /// conversation's start in place of the builder's own.
    pub fn build_messages_with_anchored_summary_override_at(
        &self,
        history: &[Message],
        user_input: &str,
        memory_override: Option<&str>,
        caps: PromptCapabilities,
        summary: Option<&str>,
        day: &str,
        moment: &str,
    ) -> (r: Vec<Message>)
        ensures
            r.deep_view() == self@.messages_after(
                history.deep_view(),
                user_input@,
                maybe_text(memory_override),
                caps,
                maybe_text(summary),
                day@,
                moment@,
            ),
    {
        let summary = match summary {
            Some(s) => s,
            None => {
                return self.build_messages_with_overrides_at(
                    history,
                    user_input,
                    memory_override,
                    caps,
                    day,
                    moment,
                );
            },
        };
        let mut heading = text("[Conversation Summary]\n");
        put(&mut heading, summary);
        let mut messages: Vec<Message> = Vec::new();
        messages.push(self.system_message_on(caps, memory_override, day));
        messages.push(Message::system(heading.as_str()));
        proof {
            let other = BuilderV { summary: Some(heading@), ..self@ };
            assert(messages.deep_view() =~= seq![
                self@.system(caps, maybe_text(memory_override), day@),
            ] + other.summary_message());
            assert(other.system(caps, maybe_text(memory_override), day@) == self@.system(
                caps,
                maybe_text(memory_override),
                day@,
            ));
            assert(other.input(user_input@, moment@) == self@.input(user_input@, moment@));
        }
        push_all(&mut messages, history);
        self.push_input(&mut messages, user_input, moment);
        messages
    }

    /// The messages of a model call, with a summary of the conversation's start in
    /// place of the builder's own.
    pub fn build_messages_with_anchored_summary_override(
        &self,
        history: &[Message],
        user_input: &str,
        memory_override: Option<&str>,
        caps: PromptCapabilities,
        summary: Option<&str>,
    ) -> (r: Vec<Message>)
        ensures
            exists|day: Seq<char>, moment: Seq<char>|
                is_day(day) && is_moment(moment) && r.deep_view() == #[trigger] self@.messages_after(
                    history.deep_view(),
                    user_input@,
                    maybe_text(memory_override),
                    caps,
                    maybe_text(summary),
                    day,
                    moment,
                ),
    {
        let day = local_time(DAY_PATTERN);
        let moment = local_time(MOMENT_PATTERN);
        self.build_messages_with_anchored_summary_override_at(
            history,
            user_input,
            memory_override,
            caps,
            summary,
            day.as_str(),
            moment.as_str(),
        )
    }

    /// The messages of a model call with an override of the memory.
    pub fn build_messages_with_memory_override(
        &self,
        history: &[Message],
        user_input: &str,
        memory_override: Option<&str>,
    ) -> (r: Vec<Message>)
        ensures
            exists|day: Seq<char>, moment: Seq<char>|
                is_day(day) && is_moment(moment) && r.deep_view() == #[trigger] self@.messages_with(
                    history.deep_view(),
                    user_input@,
                    maybe_text(memory_override),
                    PromptCapabilities { a2ui_capable: false },
                    day,
                    moment,
                ),
            !self@.tells_time() ==> forall|day: Seq<char>, moment: Seq<char>|
                r.deep_view() == #[trigger] self@.messages_with(
                    history.deep_view(),
                    user_input@,
                    maybe_text(memory_override),
                    PromptCapabilities { a2ui_capable: false },
                    day,
                    moment,
                ),
    {
        self.build_messages_with_overrides(
            history,
            user_input,
            memory_override,
            PromptCapabilities { a2ui_capable: false },
        )
    }

    /// The messages of a model call: the system message, the summary, the history,
    /// and the user's message where the user wrote something.
    pub fn build_messages_with_overrides(
        &self,
        history: &[Message],
        user_input: &str,
        memory_override: Option<&str>,
        caps: PromptCapabilities,
    ) -> (r: Vec<Message>)
        ensures
            exists|day: Seq<char>, moment: Seq<char>|
                is_day(day) && is_moment(moment) && r.deep_view() == #[trigger] self@.messages_with(
                    history.deep_view(),
                    user_input@,
                    maybe_text(memory_override),
                    caps,
                    day,
                    moment,
                ),
            !self@.tells_time() ==> forall|day: Seq<char>, moment: Seq<char>|
                r.deep_view() == #[trigger] self@.messages_with(
                    history.deep_view(),
                    user_input@,
                    maybe_text(memory_override),
                    caps,
                    day,
                    moment,
                ),
    {
        let day = local_time(DAY_PATTERN);
        let moment = local_time(MOMENT_PATTERN);
        self.build_messages_with_overrides_at(
            history,
            user_input,
            memory_override,
            caps,
            day.as_str(),
            moment.as_str(),
        )
    }
}

impl Default for ContextBuilder {
    fn default() -> (r: Self)
        ensures
            r@ == BuilderV::initial(),
    {
        ContextBuilder::new()
    }
}

// ---------------------------------------------------------------------------
// Laws
// ---------------------------------------------------------------------------
/// When the day changes, the prompts of both days still begin with the same text:
/// everything but the layer on the day.
pub proof fn law_day_change_keeps_prefix(
    b: BuilderV,
    caps: PromptCapabilities,
    memory_override: Option<Seq<char>>,
    day: Seq<char>,
    next: Seq<char>,
)
    ensures
        b.layers(caps, memory_override, day).lasting() == b.layers(
            caps,
            memory_override,
            next,
        ).lasting(),
        b.layers(caps, memory_override, day).lasting().is_prefix_of(
            b.layers(caps, memory_override, day).joined(),
        ),
        !b.tells_time() ==> b.layers(caps, memory_override, day) == b.layers(
            caps,
            memory_override,
            next,
        ),
{
    let l = b.layers(caps, memory_override, day);
    if let Some(v) = l.volatile {
        assert(l.lasting() + "\n\n"@ + v =~= l.lasting() + ("\n\n"@ + v));
        assert(l.lasting() =~= l.joined().subrange(0, l.lasting().len() as int));
    } else {
        assert(l.lasting() =~= l.joined().subrange(0, l.lasting().len() as int));
    }
}

/// Without a summary, the overrides that change nothing give the same messages as
/// the plain call.
pub proof fn law_no_overrides_is_plain(
    b: BuilderV,
    history: Seq<MessageV>,
    user_input: Seq<char>,
    day: Seq<char>,
    moment: Seq<char>,
)
    requires
        b.summary is None,
    ensures
        b.messages_with(
            history,
            user_input,
            None,
            PromptCapabilities { a2ui_capable: false },
            day,
            moment,
        ) == b.messages(history, user_input, day, moment),
{
    let s = seq![b.system(PromptCapabilities { a2ui_capable: false }, None, day)];
    assert(s + Seq::<MessageV>::empty() =~= s);
}

/// The history stands in the messages as it is and in its order: behind the
/// system message and the summary, before the user's message.
pub proof fn law_history_is_kept(
    b: BuilderV,
    history: Seq<MessageV>,
    user_input: Seq<char>,
    memory_override: Option<Seq<char>>,
    caps: PromptCapabilities,
    day: Seq<char>,
    moment: Seq<char>,
)
    ensures
        ({
            let all = b.messages_with(history, user_input, memory_override, caps, day, moment);
            let from = if b.summary is Some {
                2int
            } else {
                1int
            };
            &&& all.subrange(from, from + history.len()) == history
            &&& all.len() == from + history.len() + (if user_input.len() > 0 {
                1int
            } else {
                0int
            })
            &&& all[0].role == Role::System
        }),
{
    let all = b.messages_with(history, user_input, memory_override, caps, day, moment);
    let from = if b.summary is Some {
        2int
    } else {
        1int
    };
    assert(all.subrange(from, from + history.len()) =~= history);
}

/// The stable section does not depend on the timezone: a label that lets the
/// prompt name the day leaves it as it is.
pub proof fn law_stable_section_ignores_timezone(ctx: CtxV, tz: Option<Seq<char>>)
    ensures
        (CtxV { timezone: tz, ..ctx }).stable() == ctx.stable(),
        ctx.stable() is None && ctx.timezone is None <==> ctx.is_empty(),
{
    assert((CtxV { timezone: tz, ..ctx }).stable_lines() =~= ctx.stable_lines());
}

/// An empty override leaves memory out, whatever is stored.
pub proof fn law_empty_override_drops_memory(
    b: BuilderV,
    caps: PromptCapabilities,
    day: Seq<char>,
)
    ensures
        b.layers(caps, Some(seq![]), day).memory is None,
        b.layers(caps, None, day).memory == b.memory,
{
}

/// A text without a colon.
spec fn colonless(s: Seq<char>) -> bool {
    forall|i: int| 0 <= i < s.len() ==> s[i] != ':'
}

proof fn lemma_decimal_is_digits(n: nat)
    ensures
        is_digits(decimal(n)),
        colonless(decimal(n)),
    decreases n,
{
    if n >= 10 {
        lemma_decimal_is_digits(n / 10);
    }
}

proof fn lemma_padded_is_colonless(n: nat, width: nat)
    ensures
        colonless(padded(n, width)),
        padded(n, width).len() >= width,
    decreases width,
{
    lemma_decimal_is_digits(n);
    if decimal(n).len() < width {
        lemma_padded_is_colonless(n, (width - 1) as nat);
        reveal_strlit("0");
    }
}

proof fn lemma_weekday_is_colonless(w: nat)
    ensures
        colonless(weekday_name(w)),
{
    reveal_strlit("Sunday");
    reveal_strlit("Monday");
    reveal_strlit("Tuesday");
    reveal_strlit("Wednesday");
    reveal_strlit("Thursday");
    reveal_strlit("Friday");
    reveal_strlit("Saturday");
}

proof fn lemma_month_is_colonless(m: nat)
    ensures
        colonless(month_name(m)),
{
    reveal_strlit("January");
    reveal_strlit("February");
    reveal_strlit("March");
    reveal_strlit("April");
    reveal_strlit("May");
    reveal_strlit("June");
    reveal_strlit("July");
    reveal_strlit("August");
    reveal_strlit("September");
    reveal_strlit("October");
    reveal_strlit("November");
    reveal_strlit("December");
}

/// Only the day shows in a prompt: a day in words holds no clock time and no
/// offset, both of which have a colon, and so changes once a day at most.
pub proof fn law_day_tells_no_time(s: Seq<char>)
    requires
        is_day(s),
    ensures
        !s.contains(':'),
{
    let (weekday, month, day, year) = choose|weekday: nat, month: nat, day: nat, year: int|
        weekday < 7 && 1 <= month <= 12 && 1 <= day <= 31 && s == #[trigger] day_text(
            weekday,
            month,
            day,
            year,
        );
    lemma_weekday_is_colonless(weekday);
    lemma_month_is_colonless(month);
    lemma_decimal_is_digits(day);
    reveal_strlit(", ");
    reveal_strlit(" ");
    reveal_strlit("-");
    reveal_strlit("+");
    let n = (if year < 0 {
        -year
    } else {
        year
    }) as nat;
    lemma_padded_is_colonless(n, 4);
    assert(colonless(year_text(year)));
    assert(colonless(s));
}

/// A moment tells the time of day, so it is never a mere day.
pub proof fn law_moment_tells_the_time(s: Seq<char>)
    requires
        is_moment(s),
    ensures
        s.contains(':'),
        s.len() > 10,
        !is_day(s),
{
    let (date, time, offset) = choose|date: Seq<char>, time: Seq<char>, offset: Seq<char>|
        is_date(date) && is_time(time) && is_offset(offset) && s == #[trigger] moment_text(
            date,
            time,
            offset,
        );
    let (hours, minutes) = choose|hours: nat, minutes: nat|
        hours < 24 && minutes < 60 && time == #[trigger] clock_text(hours, minutes);
    lemma_padded_is_colonless(hours, 2);
    lemma_padded_is_colonless(minutes, 2);
    reveal_strlit(":");
    reveal_strlit(" ");
    reveal_strlit("+");
    reveal_strlit("-");
    let at = date.len() + 1 + padded(hours, 2).len();
    assert(s[at as int] == ':');
    let (h, m) = choose|hours: nat, minutes: nat|
        hours <= 24 && minutes < 60 && (offset == "+"@ + #[trigger] clock_text(hours, minutes)
            || offset == "-"@ + clock_text(hours, minutes));
    lemma_padded_is_colonless(h, 2);
    lemma_padded_is_colonless(m, 2);
    if is_day(s) {
        law_day_tells_no_time(s);
    }
}

/// The runtime section tells what is known: the channel, the tools, the workspace and
/// the platform, each in a line of its own; where nothing of that is known there is
/// none.
pub proof fn law_the_runtime_section_tells_what_is_known(ctx: CtxV)
    ensures
        ctx.stable() is None <==> ctx.channel is None && ctx.tools.len() == 0 && ctx.workspace
            is None && ctx.os_info is None,
        ctx.stable() matches Some(t) ==> {
            &&& starts_with(t, "## Runtime Context\n\n"@)
            &&& ctx.channel matches Some(c) ==> contains(t, "- Channel: "@ + c)
            &&& ctx.tools.len() > 0 ==> contains(t, "- Available tools: "@ + join(ctx.tools, ", "@))
            &&& ctx.workspace matches Some(w) ==> contains(t, "- Workspace: "@ + w)
            &&& ctx.os_info matches Some(o) ==> contains(t, "- Platform: "@ + o)
        },
{
    if let Some(t) = ctx.stable() {
        let lines = ctx.stable_lines();
        let head = "## Runtime Context\n\n"@;
        law_texts_hold_their_parts(seq![], head, join(lines, "\n"@), head);
        let l0 = with_line(seq![], labelled("- Channel: "@, ctx.channel));
        let l1 = with_line(
            l0,
            if ctx.tools.len() > 0 {
                Some("- Available tools: "@ + join(ctx.tools, ", "@))
            } else {
                None
            },
        );
        let l2 = with_line(l1, labelled("- Workspace: "@, ctx.workspace));
        let l3 = with_line(
            l2,
            if ctx.workspace is Some {
                Some(WORKSPACE_RULES@)
            } else {
                None
            },
        );
        if let Some(c) = ctx.channel {
            assert(lines[0] == "- Channel: "@ + c);
            lemma_line_of_section(lines, 0);
        }
        if ctx.tools.len() > 0 {
            let i = l0.len() as int;
            assert(lines[i] == "- Available tools: "@ + join(ctx.tools, ", "@));
            lemma_line_of_section(lines, i);
        }
        if let Some(w) = ctx.workspace {
            let i = l1.len() as int;
            assert(lines[i] == "- Workspace: "@ + w);
            lemma_line_of_section(lines, i);
        }
        if let Some(o) = ctx.os_info {
            let i = l3.len() as int;
            assert(lines[i] == "- Platform: "@ + o);
            lemma_line_of_section(lines, i);
        }
    }
}

proof fn lemma_line_of_section(lines: Seq<Seq<char>>, i: int)
    requires
        0 <= i < lines.len(),
    ensures
        contains("## Runtime Context\n\n"@ + join(lines, "\n"@), lines[i]),
{
    law_joined_texts_hold_each(lines, "\n"@, i);
    law_parts_of_parts("## Runtime Context\n\n"@, join(lines, "\n"@), seq![], lines[i]);
}

/// The day is named exactly where a timezone is set.
pub proof fn law_the_day_is_named(ctx: CtxV, day: Seq<char>)
    ensures
        ctx.timezone is Some ==> ctx.volatile(day) == Some(
            "## Session Now\n\n- Today is: "@ + day,
        ),
        ctx.timezone is None ==> ctx.volatile(day) is None,
        ctx.timezone is Some ==> (ctx.whole(day) matches Some(t) && contains(
            t,
            "- Today is: "@ + day,
        )),
        ctx.timezone is None ==> ctx.whole(day) == ctx.stable(),
{
    if ctx.timezone is Some {
        let lines = ctx.stable_lines().push("- Today is: "@ + day);
        lemma_line_of_section(lines, lines.len() - 1);
    }
}

/// The layers of the system prompt stand one below the other, in this order: the base,
/// what seldom changes, the memory, the day.
pub proof fn law_layers_stand_in_order(layers: LayersV)
    ensures
        starts_with(layers.joined(), layers.base),
        layers.semi_static matches Some(s) ==> starts_with(
            layers.joined(),
            layers.base + "\n\n"@ + s,
        ),
        layers.memory matches Some(m) ==> contains(layers.joined(), "\n\n"@ + m),
        layers.volatile matches Some(v) ==> layers.joined() == layers.lasting() + "\n\n"@ + v,
        layers.volatile is None ==> layers.joined() == layers.lasting(),
        layers.semi_static is None && layers.memory is None && layers.volatile is None
            ==> layers.joined() == layers.base,
{
    let a = layers.base;
    let b = below(a, layers.semi_static);
    let c = below(b, layers.memory);
    let d = below(c, layers.volatile);
    assert(layers.joined() == d);
    lemma_below(a, layers.semi_static);
    lemma_below(b, layers.memory);
    lemma_below(c, layers.volatile);
    lemma_begins_with_beginning(d, c, b);
    lemma_begins_with_beginning(d, b, a);
    if let Some(m) = layers.memory {
        lemma_memory_is_held(b, m, layers.volatile);
    }
}

proof fn lemma_memory_is_held(above: Seq<char>, m: Seq<char>, layer: Option<Seq<char>>)
    ensures
        contains(below(below(above, Some(m)), layer), "\n\n"@ + m),
{
    let part = "\n\n"@ + m;
    let c = above + part;
    assert(below(above, Some(m)) =~= c);
    lemma_holds_middle(above, part, seq![]);
    if let Some(v) = layer {
        law_parts_of_parts(seq![], c, "\n\n"@ + v, part);
        assert(below(c, layer) =~= c + ("\n\n"@ + v));
    }
}

proof fn lemma_below(above: Seq<char>, layer: Option<Seq<char>>)
    ensures
        starts_with(below(above, layer), above),
{
    let n = above.len() as int;
    assert(below(above, layer).subrange(0, n) =~= above);
}

proof fn lemma_begins_with_beginning(s: Seq<char>, p: Seq<char>, q: Seq<char>)
    requires
        starts_with(s, p),
        starts_with(p, q),
    ensures
        starts_with(s, q),
{
    let n = q.len() as int;
    assert(s.subrange(0, n) =~= s.subrange(0, p.len() as int).subrange(0, n));
}

/// What the layers hold. The base is the identity text, where there is one, above the
/// system prompt, and the rules for surfaces below it where the channel renders them.
/// Below it stand the skills and the runtime section. The memory is the override, where
/// there is one, or what is stored; an empty override leaves it out.
pub proof fn law_what_the_layers_hold(
    b: BuilderV,
    caps: PromptCapabilities,
    memory_override: Option<Seq<char>>,
    day: Seq<char>,
)
    ensures
        ({
            let layers = b.layers(caps, memory_override, day);
            let persona = match b.soul {
                Some(soul) => soul + "\n\n"@ + b.system_prompt,
                None => b.system_prompt,
            };
            &&& !caps.a2ui_capable ==> layers.base == persona
            &&& caps.a2ui_capable ==> layers.base == persona + "\n\n"@
                + A2UI_RENDERING_PROMPT_SUFFIX@
            &&& b.skills matches Some(s) ==> (layers.semi_static matches Some(t) && contains(
                t,
                "## Available Skills\n\n"@ + s,
            ))
            &&& b.runtime matches Some(ctx) ==> (ctx.stable() matches Some(r) ==> (
            layers.semi_static matches Some(t) && contains(t, r)))
            &&& b.skills is None && (b.runtime is None || b.runtime.unwrap().stable() is None)
                ==> layers.semi_static is None
            &&& memory_override is None ==> layers.memory == b.memory
            &&& memory_override matches Some(m) ==> (m.len() > 0 ==> layers.memory == Some(m)) && (
            m.len() == 0 ==> layers.memory is None)
            &&& b.runtime is None ==> layers.volatile is None
            &&& b.runtime matches Some(ctx) ==> layers.volatile == ctx.volatile(day)
        }),
        b.system(caps, memory_override, day).role == Role::System,
        b.system(caps, memory_override, day).content == b.layers(
            caps,
            memory_override,
            day,
        ).joined(),
{
    let first = with_line(seq![], labelled("## Available Skills\n\n"@, b.skills));
    let stable = match b.runtime {
        Some(ctx) => ctx.stable(),
        None => None,
    };
    let parts = with_line(first, stable);
    if let Some(s) = b.skills {
        assert(parts[0] == "## Available Skills\n\n"@ + s);
        law_joined_texts_hold_each(parts, "\n\n"@, 0);
    }
    if let Some(r) = stable {
        assert(parts.last() == r);
        law_joined_texts_hold_each(parts, "\n\n"@, parts.len() - 1);
    }
}

/// The messages of a model call: the system message first, then the summary where there
/// is one, then the whole history as it is, and what the user wrote at the end, behind
/// the moment where the agent tells time. Where the user wrote nothing the history comes
/// last.
pub proof fn law_messages_of_a_call(
    b: BuilderV,
    history: Seq<MessageV>,
    input: Seq<char>,
    memory_override: Option<Seq<char>>,
    caps: PromptCapabilities,
    day: Seq<char>,
    moment: Seq<char>,
)
    ensures
        ({
            let all = b.messages_with(history, input, memory_override, caps, day, moment);
            let n: int = if b.summary is Some {
                2
            } else {
                1
            };
            &&& all[0] == b.system(caps, memory_override, day)
            &&& b.summary matches Some(s) ==> all[1].role == Role::System && all[1].content == s
            &&& all.subrange(n, n + history.len()) == history
            &&& input.len() == 0 ==> all.len() == n + history.len()
            &&& input.len() > 0 ==> all.len() == n + history.len() + 1 && all.last().role
                == Role::User
            &&& input.len() > 0 && (b.runtime is None || b.runtime.unwrap().timezone is None)
                ==> all.last().content == input
            &&& input.len() > 0 && (b.runtime matches Some(ctx) && ctx.timezone is Some)
                ==> all.last().content == "["@ + moment + "]"@ + " "@ + input
        }),
        ({
            let all = b.messages(history, input, day, moment);
            &&& all[0] == b.system(PromptCapabilities { a2ui_capable: false }, None, day)
            &&& all.subrange(1, 1 + history.len() as int) == history
            &&& input.len() == 0 ==> all.len() == 1 + history.len()
            &&& input.len() > 0 ==> all.len() == 2 + history.len() && all.last().role == Role::User
            &&& input.len() > 0 && (b.runtime is None || b.runtime.unwrap().timezone is None)
                ==> all.last().content == input
            &&& input.len() > 0 && (b.runtime matches Some(ctx) && ctx.timezone is Some)
                ==> all.last().content == "["@ + moment + "]"@ + " "@ + input
        }),
{
    let all = b.messages_with(history, input, memory_override, caps, day, moment);
    let n: int = if b.summary is Some {
        2
    } else {
        1
    };
    assert(all.subrange(n, n + history.len()) =~= history);
    let plain = b.messages(history, input, day, moment);
    assert(plain.subrange(1, 1 + history.len() as int) =~= history);
}

/// A context and the layers of a prompt hold what their models hold, and a builder
/// begins with the usual prompt and nothing else.
pub proof fn law_contexts_hold_what_is_known(ctx: RuntimeContext, layers: LayeredSystemPrompt)
    ensures
        ctx.channel matches Some(c) ==> ctx.deep_view().channel == Some(c@),
        ctx.channel is None ==> ctx.deep_view().channel is None,
        ctx.deep_view().tools.len() == ctx.available_tools@.len(),
        forall|i: int|
            0 <= i < ctx.available_tools@.len() ==> #[trigger] ctx.deep_view().tools[i]
                == ctx.available_tools@[i]@,
        ctx.timezone is Some <==> ctx.deep_view().timezone is Some,
        ctx.workspace matches Some(w) ==> ctx.deep_view().workspace == Some(w@),
        ctx.os_info matches Some(o) ==> ctx.deep_view().os_info == Some(o@),
        layers.deep_view().base == layers.l1_base@,
        layers.l2_semi_static matches Some(l) ==> layers.deep_view().semi_static == Some(l@),
        layers.l3_memory matches Some(l) ==> layers.deep_view().memory == Some(l@),
        layers.l4_volatile matches Some(l) ==> layers.deep_view().volatile == Some(l@),
        layers.l3_memory is None ==> layers.deep_view().memory is None,
        BuilderV::initial().system_prompt == DEFAULT_SYSTEM_PROMPT@,
        BuilderV::initial().soul is None,
        BuilderV::initial().memory is None,
        BuilderV::initial().summary is None,
        BuilderV::initial().runtime is None,
{
}

/// Days and months have their names, and a day and a moment are written in their order.
pub proof fn law_how_days_are_written(
    weekday: nat,
    month: nat,
    day: nat,
    year: nat,
    date: Seq<char>,
    time: Seq<char>,
    offset: Seq<char>,
)
    ensures
        weekday_name(0) == "Sunday"@ && weekday_name(1) == "Monday"@ && weekday_name(2)
            == "Tuesday"@ && weekday_name(3) == "Wednesday"@ && weekday_name(4) == "Thursday"@
            && weekday_name(5) == "Friday"@ && weekday_name(6) == "Saturday"@,
        month_name(1) == "January"@ && month_name(2) == "February"@ && month_name(3) == "March"@
            && month_name(4) == "April"@ && month_name(5) == "May"@ && month_name(6) == "June"@
            && month_name(7) == "July"@ && month_name(8) == "August"@ && month_name(9)
            == "September"@ && month_name(10) == "October"@ && month_name(11) == "November"@
            && month_name(12) == "December"@,
        1000 <= year <= 9999 ==> day_text(weekday, month, day, year as int) == weekday_name(weekday)
            + ", "@ + month_name(month) + " "@ + decimal(day) + ", "@ + decimal(year),
        1000 <= year <= 9999 && 10 <= month <= 12 && 10 <= day <= 31 ==> date_text(
            weekday,
            year as int,
            month,
            day,
        ) == weekday_name(weekday) + " "@ + decimal(year) + "-"@ + decimal(month) + "-"@ + decimal(
            day,
        ),
        moment_text(date, time, offset) == date + " "@ + time + " "@ + offset,
{
    lemma_width(day);
    lemma_width(month);
    lemma_width(year);
}

proof fn lemma_width(n: nat)
    ensures
        10 <= n < 100 ==> decimal(n).len() == 2,
        1000 <= n < 10_000 ==> decimal(n).len() == 4,
{
    reveal_with_fuel(decimal, 5);
}

} // verus!
