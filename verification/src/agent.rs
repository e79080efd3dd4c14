//! Decisions of the agent loop: conversation set-up, tool routing and the
//! shrinking of old page snapshots.
use vstd::prelude::*;
use vstd::utf8::*;
use crate::api::{
    BlockView, ContentBlock, ImageSource, Message, MessageView, ToolResultContent,
    ToolResultContentView, blocks_view, copy_block, copy_image_source, copy_messages,
    messages_view, results_view,
};
use crate::storage::{Conversation, Usage};
use crate::api::{ApiResult, ImageSourceView, copy_message};
use crate::bash::{BashError, BashOutput, bash_error_message, output_text};
use crate::text::{
    chars_of, contains_chars, contains_seq, decimal, ends_with_chars, join, join_chars,
    lines, lines_of, push_all, push_decimal, push_str, starts_with_chars, str_eq, string_of,
    trim, trim_chars,
};

verus! {

/// How the agent controls the machine.
#[derive(Debug, Clone, Copy, PartialEq, Eq, Structural)]
pub enum AgentMode {
    /// Screenshots plus mouse and keyboard.
    Computer,
    /// A Chrome browser driven over the DevTools protocol.
    Browser,
}

impl Default for AgentMode {
    fn default() -> (r: Self)
        ensures
            r == AgentMode::Computer,
    {
        AgentMode::Computer
    }
}

/// The name a mode is stored under.
pub open spec fn mode_name_spec(mode: AgentMode) -> Seq<char> {
    match mode {
        AgentMode::Computer => "computer"@,
        AgentMode::Browser => "browser"@,
    }
}

/// The name a mode is stored under: `computer` or `browser`.
pub fn mode_name(mode: AgentMode) -> (r: &'static str)
    ensures
        r@ == mode_name_spec(mode),
{
    match mode {
        AgentMode::Computer => "computer",
        AgentMode::Browser => "browser",
    }
}

/// A message of earlier conversation as the front end sends it.
#[derive(Debug, Clone)]
pub struct HistoryMessage {
    pub role: String,
    pub content: String,
}

/// The most model requests one run makes.
pub const MAX_ITERATIONS: usize = 50;

/// The tool names that drive the browser.
pub open spec fn browser_tools() -> Seq<Seq<char>> {
    seq![
        "take_snapshot"@,
        "click"@,
        "hover"@,
        "fill"@,
        "fill_form"@,
        "drag"@,
        "press_key"@,
        "navigate_page"@,
        "wait_for"@,
        "new_page"@,
        "list_pages"@,
        "select_page"@,
        "close_page"@,
        "handle_dialog"@,
        "screenshot"@,
    ]
}

/// Whether `name` is one of the browser tools.
pub fn is_browser_tool(name: &str) -> (r: bool)
    ensures
        r == browser_tools().contains(name@),
{
    let tools = vec![
        "take_snapshot",
        "click",
        "hover",
        "fill",
        "fill_form",
        "drag",
        "press_key",
        "navigate_page",
        "wait_for",
        "new_page",
        "list_pages",
        "select_page",
        "close_page",
        "handle_dialog",
        "screenshot",
    ];
    assert(tools@.map_values(|t: &str| t@) =~= browser_tools());
    let mut i: usize = 0;
    while i < tools.len()
        invariant
            i <= tools@.len(),
            tools@.map_values(|t: &str| t@) == browser_tools(),
            forall|k: int| 0 <= k < i ==> browser_tools()[k] != name@,
        decreases tools@.len() - i,
    {
        assert(browser_tools()[i as int] == tools@[i as int]@);
        if str_eq(tools[i], name) {
            assert(browser_tools()[i as int] == name@);
            return true;
        }
        i = i + 1;
    }
    false
}

/// The accessibility roles whose snapshot lines survive summarising.
pub open spec fn interactive_roles() -> Seq<Seq<char>> {
    seq![
        "link"@,
        "button"@,
        "textbox"@,
        "checkbox"@,
        "radio"@,
        "combobox"@,
        "searchbox"@,
        "slider"@,
        "switch"@,
        "menuitem"@,
        "tab"@,
        "heading"@,
        "WebArea"@,
    ]
}

/// A trimmed snapshot line names `role`: ` role ` or ` role "` occurs in it,
/// or it ends with ` role`.
pub open spec fn names_role(t: Seq<char>, role: Seq<char>) -> bool {
    ||| contains_seq(t, " "@ + role + " "@)
    ||| contains_seq(t, " "@ + role + " \""@)
    ||| (" "@ + role).is_suffix_of(t)
}

/// A snapshot line is kept when its trimmed form names an interactive role.
pub open spec fn keeps_line(line: Seq<char>) -> bool {
    exists|i: int| 0 <= i < interactive_roles().len() && names_role(trim(line), interactive_roles()[i])
}

/// The lines of `ls` that are kept, in order.
pub open spec fn kept_lines(ls: Seq<Seq<char>>) -> Seq<Seq<char>>
    decreases ls.len(),
{
    if ls.len() == 0 {
        Seq::empty()
    } else if keeps_line(ls.last()) {
        kept_lines(ls.drop_last()).push(ls.last())
    } else {
        kept_lines(ls.drop_last())
    }
}

/// A snapshot reduced to its interactive lines, under a header that counts
/// the kept lines and all lines.
pub open spec fn summary_of(snapshot: Seq<char>) -> Seq<char> {
    let ls = lines(snapshot);
    let kept = kept_lines(ls);
    "[snapshot summarized: "@ + decimal(kept.len()) + " interactive elements from "@ + decimal(
        ls.len(),
    ) + " total]\n"@ + join(kept, "\n"@)
}

fn role_needles(role: &str) -> (r: (Vec<char>, Vec<char>, Vec<char>))
    ensures
        r.0@ == " "@ + role@ + " "@,
        r.1@ == " "@ + role@ + " \""@,
        r.2@ == " "@ + role@,
{
    let mut a = chars_of(" ");
    push_str(&mut a, role);
    let c = a.clone();
    let mut b = a.clone();
    push_str(&mut a, " ");
    push_str(&mut b, " \"");
    (a, b, c)
}

fn keeps_line_exec(line: &[char]) -> (r: bool)
    ensures
        r == keeps_line(line@),
{
    let roles = vec![
        "link",
        "button",
        "textbox",
        "checkbox",
        "radio",
        "combobox",
        "searchbox",
        "slider",
        "switch",
        "menuitem",
        "tab",
        "heading",
        "WebArea",
    ];
    assert(roles@.map_values(|t: &str| t@) =~= interactive_roles());
    let t = trim_chars(line);
    let mut i: usize = 0;
    while i < roles.len()
        invariant
            i <= roles@.len(),
            roles@.map_values(|t: &str| t@) == interactive_roles(),
            t@ == trim(line@),
            forall|k: int| 0 <= k < i ==> !names_role(t@, interactive_roles()[k]),
        decreases roles@.len() - i,
    {
        assert(interactive_roles()[i as int] == roles@[i as int]@);
        let (a, b, c) = role_needles(roles[i]);
        if contains_chars(&t, &a) || contains_chars(&t, &b) || ends_with_chars(&t, &c) {
            return true;
        }
        i = i + 1;
    }
    false
}

/// Reduces a page snapshot to the lines of interactive elements.
pub fn summarize_snapshot(snapshot: &str) -> (r: String)
    ensures
        r@ == summary_of(snapshot@),
{
    let s = chars_of(snapshot);
    let ls = lines_of(&s);
    let ghost all = ls.deep_view();
    let mut kept: Vec<Vec<char>> = Vec::new();
    let mut i: usize = 0;
    while i < ls.len()
        invariant
            i <= ls@.len(),
            all == ls.deep_view(),
            all.len() == ls@.len(),
            kept.deep_view() == kept_lines(all.take(i as int)),
        decreases ls@.len() - i,
    {
        proof {
            assert(all.take(i + 1).drop_last() == all.take(i as int));
            assert(all.take(i + 1).last() == all[i as int]);
            crate::text::lemma_chars_deep_view(ls@[i as int]);
        }
        if keeps_line_exec(&ls[i]) {
            let ghost before = kept.deep_view();
            let l = ls[i].clone();
            assert(l@ == ls@[i as int]@);
            kept.push(l);
            proof {
                crate::text::lemma_chars_deep_view(l);
                assert(kept.deep_view() =~= before.push(all[i as int]));
            }
        }
        i = i + 1;
    }
    assert(all.take(ls@.len() as int) == all);
    let mut out = chars_of("[snapshot summarized: ");
    push_decimal(&mut out, kept.len() as u64);
    push_str(&mut out, " interactive elements from ");
    push_decimal(&mut out, ls.len() as u64);
    push_str(&mut out, " total]\n");
    let nl = chars_of("\n");
    let body = join_chars(&kept, &nl);
    push_all(&mut out, &body);
    string_of(&out)
}


/// A tool-result text is replaced by its summary when it is a snapshot
/// (starts with `uid=`) longer than 5000 bytes.
pub open spec fn shrink_text(t: Seq<char>) -> Seq<char> {
    if "uid="@.is_prefix_of(t) && encode_utf8(t).len() > 5000 {
        summary_of(t)
    } else {
        t
    }
}

/// A tool-result piece after shrinking.
pub open spec fn shrink_item(c: ToolResultContentView) -> ToolResultContentView {
    match c {
        ToolResultContentView::Text(t) => ToolResultContentView::Text(shrink_text(t)),
        ToolResultContentView::Image(s) => ToolResultContentView::Image(s),
    }
}

/// A block after shrinking: tool results shrink their text pieces.
pub open spec fn shrink_block(b: BlockView) -> BlockView {
    match b {
        BlockView::ToolResult(id, cs) => BlockView::ToolResult(id, cs.map_values(|c| shrink_item(c))),
        _ => b,
    }
}

/// A message after shrinking: only user messages change.
pub open spec fn shrink_message(m: MessageView) -> MessageView {
    if m.role == "user"@ {
        MessageView { role: m.role, content: m.content.map_values(|b| shrink_block(b)) }
    } else {
        m
    }
}

fn shrink_text_exec(t: &String) -> (r: String)
    ensures
        r@ == shrink_text(t@),
{
    let c = chars_of(t.as_str());
    let p = chars_of("uid=");
    if starts_with_chars(&c, &p) && t.as_str().as_bytes().len() > 5000 {
        summarize_snapshot(t.as_str())
    } else {
        t.clone()
    }
}

fn shrink_results(v: &Vec<ToolResultContent>) -> (r: Vec<ToolResultContent>)
    ensures
        results_view(r@) == results_view(v@).map_values(|c| shrink_item(c)),
{
    let mut r: Vec<ToolResultContent> = Vec::new();
    let mut i: usize = 0;
    while i < v.len()
        invariant
            i <= v@.len(),
            r@.len() == i,
            forall|k: int| 0 <= k < i ==> r@[k]@ == shrink_item(v@[k]@),
        decreases v@.len() - i,
    {
        let c = match &v[i] {
            ToolResultContent::Text { text } => ToolResultContent::Text { text: shrink_text_exec(text) },
            ToolResultContent::Image { source } => ToolResultContent::Image { source: copy_image_source(source) },
        };
        r.push(c);
        i = i + 1;
    }
    assert(results_view(r@) =~= results_view(v@).map_values(|c| shrink_item(c)));
    r
}

fn shrink_blocks(v: &Vec<ContentBlock>) -> (r: Vec<ContentBlock>)
    ensures
        blocks_view(r@) == blocks_view(v@).map_values(|b| shrink_block(b)),
{
    let mut r: Vec<ContentBlock> = Vec::new();
    let mut i: usize = 0;
    while i < v.len()
        invariant
            i <= v@.len(),
            r@.len() == i,
            forall|k: int| 0 <= k < i ==> r@[k]@ == shrink_block(v@[k]@),
        decreases v@.len() - i,
    {
        let c = match &v[i] {
            ContentBlock::ToolResult { tool_use_id, content } => ContentBlock::ToolResult {
                tool_use_id: tool_use_id.clone(),
                content: shrink_results(content),
            },
            other => copy_block(other),
        };
        r.push(c);
        i = i + 1;
    }
    assert(blocks_view(r@) =~= blocks_view(v@).map_values(|b| shrink_block(b)));
    r
}

/// Replaces the long page snapshots in user tool results by their
/// summaries, to keep the context small.
pub fn summarize_old_snapshots(messages: &mut Vec<Message>)
    ensures
        messages_view(final(messages)@) == messages_view(old(messages)@).map_values(|m| shrink_message(m)),
{
    let mut r: Vec<Message> = Vec::new();
    let mut i: usize = 0;
    while i < messages.len()
        invariant
            i <= messages@.len(),
            messages@ == old(messages)@,
            r@.len() == i,
            forall|k: int| 0 <= k < i ==> r@[k]@ == shrink_message(messages@[k]@),
        decreases messages@.len() - i,
    {
        let m = &messages[i];
        let content = if str_eq(m.role.as_str(), "user") {
            shrink_blocks(&m.content)
        } else {
            crate::api::copy_blocks(&m.content)
        };
        r.push(Message { role: m.role.clone(), content });
        i = i + 1;
    }
    assert(messages_view(r@) =~= messages_view(old(messages)@).map_values(|m| shrink_message(m)));
    *messages = r;
}

/// A summary does not look like a snapshot, so shrinking a text twice
/// shrinks it once.
pub proof fn lemma_shrink_text_idempotent(t: Seq<char>)
    ensures
        shrink_text(shrink_text(t)) == shrink_text(t),
{
    broadcast use vstd::string::group_string_axioms;
    if "uid="@.is_prefix_of(t) && encode_utf8(t).len() > 5000 {
        reveal_strlit("uid=");
        reveal_strlit("[snapshot summarized: ");
        let s = summary_of(t);
        let h = "[snapshot summarized: "@;
        assert(s[0] == h[0]);
        assert(!"uid="@.is_prefix_of(s)) by {
            if "uid="@.is_prefix_of(s) {
                assert("uid="@[0] == s[0]);
            }
        }
    }
}

/// Summarising old snapshots twice changes nothing more than doing it once.
pub proof fn lemma_summarize_idempotent(ms: Seq<MessageView>)
    ensures
        ms.map_values(|m| shrink_message(m)).map_values(|m| shrink_message(m)) == ms.map_values(
            |m| shrink_message(m),
        ),
{
    assert forall|i: int| 0 <= i < ms.len() implies #[trigger] shrink_message(shrink_message(ms[i])) == shrink_message(ms[i]) by {
        let m = ms[i];
        if m.role == "user"@ {
            let c1 = m.content.map_values(|b| shrink_block(b));
            let c2 = c1.map_values(|b| shrink_block(b));
            assert forall|j: int| 0 <= j < c1.len() implies c2[j] == c1[j] by {
                let b = m.content[j];
                match b {
                    BlockView::ToolResult(id, cs) => {
                        let d1 = cs.map_values(|c| shrink_item(c));
                        let d2 = d1.map_values(|c| shrink_item(c));
                        assert forall|k: int| 0 <= k < d1.len() implies d2[k] == d1[k] by {
                            match cs[k] {
                                ToolResultContentView::Text(t) => {
                                    lemma_shrink_text_idempotent(t);
                                },
                                _ => {},
                            }
                        }
                        assert(d2 =~= d1);
                    },
                    _ => {},
                }
            }
            assert(c2 =~= c1);
        }
    }
    assert(ms.map_values(|m| shrink_message(m)).map_values(|m| shrink_message(m)) =~= ms.map_values(
        |m| shrink_message(m),
    ));
}

/// A tool-result piece is a snapshot: a text starting with `uid=`.
pub open spec fn is_snapshot_piece(c: ToolResultContentView) -> bool {
    match c {
        ToolResultContentView::Text(t) => "uid="@.is_prefix_of(t),
        _ => false,
    }
}

/// A block is a tool result with a snapshot piece.
pub open spec fn block_has_snapshot(b: BlockView) -> bool {
    match b {
        BlockView::ToolResult(_, cs) => exists|j: int| 0 <= j < cs.len() && is_snapshot_piece(#[trigger] cs[j]),
        _ => false,
    }
}

/// Some tool result carries a text piece that starts with `uid=`.
pub open spec fn has_snapshot(results: Seq<BlockView>) -> bool {
    exists|i: int| 0 <= i < results.len() && block_has_snapshot(#[trigger] results[i])
}

fn result_has_snapshot(cs: &Vec<ToolResultContent>) -> (r: bool)
    ensures
        r == exists|j: int| 0 <= j < cs@.len() && is_snapshot_piece(#[trigger] results_view(cs@)[j]),
{
    let p = chars_of("uid=");
    let mut j: usize = 0;
    while j < cs.len()
        invariant
            j <= cs@.len(),
            p@ == "uid="@,
            forall|k: int| 0 <= k < j ==> !is_snapshot_piece(#[trigger] results_view(cs@)[k]),
        decreases cs@.len() - j,
    {
        assert(results_view(cs@)[j as int] == cs@[j as int]@);
        if let ToolResultContent::Text { text } = &cs[j] {
            let c = chars_of(text.as_str());
            if starts_with_chars(&c, &p) {
                return true;
            }
        }
        j = j + 1;
    }
    false
}

/// Whether a round of tool results includes a new page snapshot.
pub fn has_new_snapshot(results: &Vec<ContentBlock>) -> (r: bool)
    ensures
        r == has_snapshot(blocks_view(results@)),
{
    let mut i: usize = 0;
    while i < results.len()
        invariant
            i <= results@.len(),
            forall|k: int| 0 <= k < i ==> !block_has_snapshot(#[trigger] blocks_view(results@)[k]),
        decreases results@.len() - i,
    {
        assert(blocks_view(results@)[i as int] == results@[i as int]@);
        if let ContentBlock::ToolResult { content, .. } = &results[i] {
            if result_has_snapshot(content) {
                proof {
                    let j = choose|j: int| 0 <= j < content@.len() && is_snapshot_piece(#[trigger] results_view(content@)[j]);
                    let b = blocks_view(results@)[i as int];
                    assert(b == results@[i as int]@);
                    assert(b matches BlockView::ToolResult(_, cs) && cs == results_view(content@));
                    assert(block_has_snapshot(b));
                }
                return true;
            }
        }
        i = i + 1;
    }
    false
}


/// The messages a run starts from when the front end sends `history`:
/// one text message per entry.
pub open spec fn history_view(history: Seq<HistoryMessage>) -> Seq<MessageView> {
    history.map_values(
        |h: HistoryMessage| MessageView { role: h.role@, content: seq![BlockView::Text(h.content@)] },
    )
}

/// Turns front-end history into messages.
pub fn history_messages(history: Vec<HistoryMessage>) -> (r: Vec<Message>)
    ensures
        messages_view(r@) == history_view(history@),
{
    let mut r: Vec<Message> = Vec::new();
    let mut i: usize = 0;
    while i < history.len()
        invariant
            i <= history@.len(),
            r@.len() == i,
            forall|k: int| 0 <= k < i ==> r@[k]@ == history_view(history@)[k],
        decreases history@.len() - i,
    {
        let h = &history[i];
        let m = Message {
            role: h.role.clone(),
            content: {
                let mut c: Vec<ContentBlock> = Vec::new();
                c.push(ContentBlock::Text { text: h.content.clone() });
                c
            },
        };
        assert(blocks_view(m.content@) =~= seq![BlockView::Text(h.content@)]);
        r.push(m);
        i = i + 1;
    }
    assert(messages_view(r@) =~= history_view(history@));
    r
}

/// The messages a run starts from: those stored with the conversation when
/// it has any (they keep tool blocks), else the front end's history.
pub fn starting_messages(conversation: &Conversation, history: Vec<HistoryMessage>) -> (r: Vec<Message>)
    ensures
        conversation.messages@.len() > 0 ==> messages_view(r@) == messages_view(conversation.messages@),
        conversation.messages@.len() == 0 ==> messages_view(r@) == history_view(history@),
{
    if conversation.messages.len() > 0 {
        copy_messages(&conversation.messages)
    } else {
        history_messages(history)
    }
}

/// The text of the user's instruction, wrapped for voice input.
pub open spec fn instruction_text(instructions: Seq<char>, voice_mode: bool) -> Seq<char> {
    if voice_mode {
        "<voice_input>"@ + instructions + "</voice_input>"@
    } else {
        instructions
    }
}

/// The user message that starts a run: the context screenshot as a JPEG
/// image first, if there is one, then the instruction text.
pub open spec fn user_message_view(instructions: Seq<char>, screenshot: Option<Seq<char>>, voice_mode: bool) -> MessageView {
    let text = BlockView::Text(instruction_text(instructions, voice_mode));
    MessageView {
        role: "user"@,
        content: match screenshot {
            Some(d) => seq![
                BlockView::Image(ImageSourceView { source_type: "base64"@, media_type: "image/jpeg"@, data: d }),
                text,
            ],
            None => seq![text],
        },
    }
}

/// Builds the user message that starts a run.
pub fn user_message(instructions: &str, context_screenshot: Option<String>, voice_mode: bool) -> (r: Message)
    ensures
        r@ == user_message_view(
            instructions@,
            match context_screenshot {
                Some(d) => Some(d@),
                None => None,
            },
            voice_mode,
        ),
{
    let mut content: Vec<ContentBlock> = Vec::new();
    let ghost shot = match &context_screenshot {
        Some(d) => Some(d@),
        None => None::<Seq<char>>,
    };
    if let Some(data) = context_screenshot {
        content.push(ContentBlock::Image {
            source: ImageSource {
                source_type: String::from_str("base64"),
                media_type: String::from_str("image/jpeg"),
                data,
            },
        });
    }
    let text = if voice_mode {
        let mut t = String::from_str("<voice_input>");
        t.append(instructions);
        t.append("</voice_input>");
        t
    } else {
        String::from_str(instructions)
    };
    content.push(ContentBlock::Text { text });
    let m = Message { role: String::from_str("user"), content };
    assert(blocks_view(m.content@) =~= user_message_view(instructions@, shot, voice_mode).content);
    m
}

/// A lowercase hexadecimal digit.
pub open spec fn is_lower_hex(c: char) -> bool {
    ('0' <= c && c <= '9') || ('a' <= c && c <= 'f')
}

/// The text form of a random (version 4) UUID: 36 characters, hyphens at
/// 8, 13, 18 and 23, lowercase hexadecimal digits elsewhere, the version
/// digit `4` at 14 and a variant digit `8`, `9`, `a` or `b` at 19.
pub open spec fn uuid_v4_text(s: Seq<char>) -> bool {
    &&& s.len() == 36
    &&& forall|i: int| 0 <= i < 36 ==> (if i == 8 || i == 13 || i == 18 || i == 23 {
        s[i] == '-'
    } else {
        is_lower_hex(#[trigger] s[i])
    })
    &&& s[14] == '4'
    &&& (s[19] == '8' || s[19] == '9' || s[19] == 'a' || s[19] == 'b')
}

/// A fresh conversation id: wraps `uuid::Uuid::new_v4` and its `Display`
/// form. The value is random; every outcome is the hyphenated lowercase
/// text of a version 4 UUID, which is what the contract states.
#[verifier::external_body]
fn new_conversation_id() -> (r: String)
    ensures
        uuid_v4_text(r@),
{
    uuid::Uuid::new_v4().to_string()
}

/// The conversation a run records into: the one loaded from storage, or a
/// new one titled `New Conversation` for the model and mode, with a fresh
/// random id.
pub fn resolve_conversation(loaded: Option<Conversation>, model: &str, mode: AgentMode) -> (r: Conversation)
    ensures
        match loaded {
            Some(c) => r == c,
            None => r.title@ == "New Conversation"@ && r.model@ == model@ && r.mode@ == mode_name_spec(mode)
                && r.messages@.len() == 0 && r.turn_usage@.len() == 0 && r.total_input_tokens == 0
                && r.total_output_tokens == 0 && r.created_at == r.updated_at && uuid_v4_text(r.id@),
        },
{
    match loaded {
        Some(c) => c,
        None => Conversation::new(
            new_conversation_id(),
            String::from_str("New Conversation"),
            String::from_str(model),
            String::from_str(mode_name(mode)),
        ),
    }
}

/// Where a tool call from the model goes.
#[derive(Debug, Clone, Copy, PartialEq, Eq, Structural)]
pub enum ToolRoute {
    Computer,
    Bash,
    /// The browser's `screenshot`, answered with an image.
    BrowserScreenshot,
    /// Another browser tool, answered with text.
    Browser,
    Speak,
    Unknown,
}

/// The route of a tool named `name` in `mode`.
pub open spec fn route_of(name: Seq<char>, mode: AgentMode) -> ToolRoute {
    if name == "computer"@ {
        ToolRoute::Computer
    } else if name == "bash"@ {
        ToolRoute::Bash
    } else if name == "screenshot"@ && mode == AgentMode::Browser {
        ToolRoute::BrowserScreenshot
    } else if browser_tools().contains(name) && mode == AgentMode::Browser {
        ToolRoute::Browser
    } else if name == "speak"@ {
        ToolRoute::Speak
    } else {
        ToolRoute::Unknown
    }
}

/// Routes a tool call: computer, bash, a browser tool (in browser mode
/// only), speech, or unknown.
pub fn route_tool(name: &str, mode: AgentMode) -> (r: ToolRoute)
    ensures
        r == route_of(name@, mode),
{
    if str_eq(name, "computer") {
        ToolRoute::Computer
    } else if str_eq(name, "bash") {
        ToolRoute::Bash
    } else if str_eq(name, "screenshot") && mode == AgentMode::Browser {
        ToolRoute::BrowserScreenshot
    } else if is_browser_tool(name) && mode == AgentMode::Browser {
        ToolRoute::Browser
    } else if str_eq(name, "speak") {
        ToolRoute::Speak
    } else {
        ToolRoute::Unknown
    }
}

/// What a `bash` tool call asks for.
#[derive(Debug)]
pub enum BashStep {
    /// Forget the working directory.
    Restart,
    /// Run this command.
    Run(String),
    /// Neither: the call is answered with this error result.
    Invalid(ContentBlock),
}

/// The error text for a `bash` call that holds neither a command nor a
/// restart.
pub open spec fn missing_command_text() -> Seq<char> {
    "Error: the bash tool needs a command to run or restart: true."@
}

/// Restarting wins over running; a call with neither is answered with an
/// error result for the call `id`.
pub fn bash_step(id: &str, restart: bool, command: Option<String>) -> (r: BashStep)
    ensures
        restart ==> r matches BashStep::Restart,
        !restart ==> match command {
            Some(c) => r == BashStep::Run(c),
            None => r matches BashStep::Invalid(b) && b@ == text_result_view(id@, missing_command_text()),
        },
{
    if restart {
        BashStep::Restart
    } else {
        match command {
            Some(c) => BashStep::Run(c),
            None => BashStep::Invalid(
                text_result(id, String::from_str("Error: the bash tool needs a command to run or restart: true.")),
            ),
        }
    }
}

/// The result of a `computer` call whose input is not an action; `detail`
/// says what was wrong with it.
pub fn action_error_result(id: &str, detail: &str) -> (r: ContentBlock)
    ensures
        r@ == text_result_view(id@, "Error: Failed to parse action: "@ + detail@),
{
    let mut t = String::from_str("Error: Failed to parse action: ");
    t.append(detail);
    text_result(id, t)
}

/// A tool result holding one text.
pub open spec fn text_result_view(id: Seq<char>, text: Seq<char>) -> BlockView {
    BlockView::ToolResult(id, seq![ToolResultContentView::Text(text)])
}

/// A tool result with one text piece.
pub fn text_result(id: &str, text: String) -> (r: ContentBlock)
    ensures
        r@ == text_result_view(id@, text@),
{
    let ghost tv = text@;
    let mut content: Vec<ToolResultContent> = Vec::new();
    content.push(ToolResultContent::Text { text });
    assert(results_view(content@) =~= seq![ToolResultContentView::Text(tv)]);
    ContentBlock::ToolResult { tool_use_id: String::from_str(id), content }
}

/// A tool result with one base64 JPEG image.
pub fn image_result(id: &str, data: String) -> (r: ContentBlock)
    ensures
        r@ == BlockView::ToolResult(
            id@,
            seq![ToolResultContentView::Image(ImageSourceView { source_type: "base64"@, media_type: "image/jpeg"@, data: data@ })],
        ),
{
    let c = ToolResultContent::Image {
        source: ImageSource {
            source_type: String::from_str("base64"),
            media_type: String::from_str("image/jpeg"),
            data,
        },
    };
    let ghost cv = c@;
    let mut content: Vec<ToolResultContent> = Vec::new();
    content.push(c);
    assert(results_view(content@) =~= seq![cv]);
    ContentBlock::ToolResult { tool_use_id: String::from_str(id), content }
}

/// The result of a browser tool other than `screenshot`: its output, or
/// the error it ended with.
pub fn browser_output_result(id: &str, outcome: Result<String, String>) -> (r: ContentBlock)
    ensures
        r@ == text_result_view(
            id@,
            match outcome {
                Ok(o) => o@,
                Err(e) => "Browser error: "@ + e@,
            },
        ),
{
    match outcome {
        Ok(o) => text_result(id, o),
        Err(e) => {
            let mut t = String::from_str("Browser error: ");
            t.append(e.as_str());
            text_result(id, t)
        },
    }
}

/// The result of the browser's `screenshot`: the page as a base64 JPEG, or
/// the error it ended with.
pub fn browser_screenshot_result(id: &str, outcome: Result<String, String>) -> (r: ContentBlock)
    ensures
        match outcome {
            Ok(d) => r@ == BlockView::ToolResult(
                id@,
                seq![ToolResultContentView::Image(ImageSourceView { source_type: "base64"@, media_type: "image/jpeg"@, data: d@ })],
            ),
            Err(e) => r@ == text_result_view(id@, "Screenshot error: "@ + e@),
        },
{
    match outcome {
        Ok(d) => image_result(id, d),
        Err(e) => {
            let mut t = String::from_str("Screenshot error: ");
            t.append(e.as_str());
            text_result(id, t)
        },
    }
}

/// The ids of the tool calls among `blocks`, in order.
pub open spec fn tool_use_ids(blocks: Seq<BlockView>) -> Seq<Seq<char>>
    decreases blocks.len(),
{
    if blocks.len() == 0 {
        Seq::empty()
    } else {
        tool_use_ids(blocks.drop_last()) + match blocks.last() {
            BlockView::ToolUse(id, _, _) => seq![id],
            _ => Seq::empty(),
        }
    }
}

/// The call a block answers: the id of a tool result (empty for any other
/// block).
pub open spec fn answered_id(b: BlockView) -> Seq<char> {
    match b {
        BlockView::ToolResult(id, _) => id,
        _ => Seq::empty(),
    }
}

/// The results gathered for the tool calls of one reply: one per call, in
/// the order of the calls.
pub struct ToolRound {
    calls: Vec<String>,
    results: Vec<ContentBlock>,
}

impl ToolRound {
    /// The ids of the reply's tool calls, in order.
    pub closed spec fn calls(&self) -> Seq<Seq<char>> {
        self.calls@.map_values(|c: String| c@)
    }

    /// The results gathered so far.
    pub closed spec fn results(&self) -> Seq<BlockView> {
        blocks_view(self.results@)
    }

    /// Each result gathered answers the call of its position, and there
    /// are no more results than calls.
    pub open spec fn wf(&self) -> bool {
        &&& self.results().len() <= self.calls().len()
        &&& forall|k: int| 0 <= k < self.results().len() ==> {
            &&& #[trigger] self.results()[k] is ToolResult
            &&& answered_id(self.results()[k]) == self.calls()[k]
        }
    }

    /// The round of `reply`, with no result yet.
    pub fn new(reply: &Vec<ContentBlock>) -> (r: Self)
        ensures
            r.wf(),
            r.calls() == tool_use_ids(blocks_view(reply@)),
            r.results().len() == 0,
    {
        let mut calls: Vec<String> = Vec::new();
        let mut i: usize = 0;
        let ghost all = blocks_view(reply@);
        while i < reply.len()
            invariant
                i <= reply@.len(),
                all == blocks_view(reply@),
                calls@.map_values(|c: String| c@) == tool_use_ids(all.take(i as int)),
            decreases reply@.len() - i,
        {
            proof {
                assert(all.take(i + 1).drop_last() == all.take(i as int));
                assert(all.take(i + 1).last() == reply@[i as int]@);
            }
            let ghost before = calls@;
            match &reply[i] {
                ContentBlock::ToolUse { id, .. } => {
                    calls.push(id.clone());
                    assert(calls@.map_values(|c: String| c@) =~= before.map_values(|c: String| c@).push(id@));
                },
                _ => {
                    assert(calls@ == before);
                },
            }
            i = i + 1;
        }
        assert(all.take(reply@.len() as int) == all);
        let r = ToolRound { calls, results: Vec::new() };
        assert(r.results() =~= Seq::<BlockView>::empty());
        r
    }

    /// Whether every call has its result.
    pub fn is_complete(&self) -> (b: bool)
        ensures
            b == (self.results().len() == self.calls().len()),
    {
        self.results.len() == self.calls.len()
    }

    /// The results gathered so far.
    pub fn results_so_far(&self) -> (r: &Vec<ContentBlock>)
        ensures
            blocks_view(r@) == self.results(),
    {
        &self.results
    }

    /// Adds the result of the next unanswered call. It is taken only when
    /// it is a tool result for that call; otherwise nothing changes and the
    /// answer is `false`.
    pub fn record(&mut self, result: ContentBlock) -> (ok: bool)
        requires
            old(self).wf(),
        ensures
            final(self).wf(),
            final(self).calls() == old(self).calls(),
            ok == (old(self).results().len() < old(self).calls().len() && result@ is ToolResult
                && answered_id(result@) == old(self).calls()[old(self).results().len() as int]),
            ok ==> final(self).results() == old(self).results().push(result@),
            !ok ==> final(self).results() == old(self).results(),
    {
        let n = self.results.len();
        if n >= self.calls.len() {
            return false;
        }
        let matches = match &result {
            ContentBlock::ToolResult { tool_use_id, .. } => str_eq(tool_use_id.as_str(), self.calls[n].as_str()),
            _ => false,
        };
        if !matches {
            return false;
        }
        let ghost before = self.results@;
        self.results.push(result);
        assert(blocks_view(self.results@) =~= blocks_view(before).push(result@));
        true
    }

    /// The results, once every call has one.
    pub fn finish(self) -> (r: Option<Vec<ContentBlock>>)
        requires
            self.wf(),
        ensures
            match r {
                Some(v) => self.results().len() == self.calls().len() && blocks_view(v@) == self.results(),
                None => self.results().len() != self.calls().len(),
            },
    {
        if self.results.len() == self.calls.len() {
            Some(self.results)
        } else {
            None
        }
    }
}

/// A complete round holds one tool result per tool call of the reply, in
/// the order of the calls.
pub proof fn lemma_round_answers_each_call(round: &ToolRound)
    requires
        round.wf(),
        round.results().len() == round.calls().len(),
    ensures
        round.results().map_values(|b: BlockView| answered_id(b)) == round.calls(),
        forall|k: int| 0 <= k < round.results().len() ==> #[trigger] round.results()[k] is ToolResult,
{
    assert(round.results().map_values(|b: BlockView| answered_id(b)) =~= round.calls());
}

/// The result for a tool nobody handles.
pub fn unknown_tool_result(id: &str, name: &str) -> (r: ContentBlock)
    ensures
        r@ == text_result_view(
            id@,
            "Error: Unknown tool '"@ + name@ + "'. Use the available tools: computer, bash, speak."@,
        ),
{
    let mut t = String::from_str("Error: Unknown tool '");
    t.append(name);
    t.append("'. Use the available tools: computer, bash, speak.");
    text_result(id, t)
}

/// The result of a bash call: the output text, or the error message.
pub fn bash_result(id: &str, outcome: &Result<BashOutput, BashError>) -> (r: ContentBlock)
    ensures
        r@ == text_result_view(
            id@,
            match outcome {
                Ok(o) => output_text(o.stdout@, o.stderr@, o.exit_code as int),
                Err(e) => "Error: "@ + bash_error_message(*e),
            },
        ),
{
    let t = match outcome {
        Ok(o) => o.to_string(),
        Err(e) => {
            let mut t = String::from_str("Error: ");
            let m = e.message();
            t.append(m.as_str());
            t
        },
    };
    text_result(id, t)
}

/// How a `speak` call went.
#[derive(Debug)]
pub enum SpeakOutcome {
    /// The audio was produced and sent to the front end.
    Delivered,
    /// Synthesis failed with this message.
    Failed(String),
    /// No speech service is configured.
    Unavailable,
    /// The call held no text to say.
    NoText,
}

/// The result of a `speak` call.
pub fn speak_result(id: &str, outcome: SpeakOutcome) -> (r: ContentBlock)
    ensures
        r@ == text_result_view(
            id@,
            match outcome {
                SpeakOutcome::Delivered => "Speech delivered."@,
                SpeakOutcome::Failed(e) => "TTS error: "@ + e@,
                SpeakOutcome::Unavailable => "TTS not available - ELEVENLABS_API_KEY not set"@,
                SpeakOutcome::NoText => "Error: the speak tool needs a text to say."@,
            },
        ),
{
    let t = match outcome {
        SpeakOutcome::Delivered => String::from_str("Speech delivered."),
        SpeakOutcome::Failed(e) => {
            let mut t = String::from_str("TTS error: ");
            t.append(e.as_str());
            t
        },
        SpeakOutcome::Unavailable => String::from_str("TTS not available - ELEVENLABS_API_KEY not set"),
        SpeakOutcome::NoText => String::from_str("Error: the speak tool needs a text to say."),
    };
    text_result(id, t)
}

/// Whether the loop makes another request.
pub fn keep_going(running: bool, iteration: usize) -> (r: bool)
    ensures
        r == (running && iteration < MAX_ITERATIONS),
{
    running && iteration < MAX_ITERATIONS
}

/// How a round of tool calls ends.
#[derive(Debug, Clone, Copy, PartialEq, Eq, Structural)]
pub enum RoundEnd {
    /// The user stopped the agent.
    Stopped,
    /// The model called no tool: the task is done.
    Completed,
    /// Send the results and continue.
    Continue,
}

/// A stopped agent ends the round; a round with no tool results completes
/// the task; otherwise the loop continues.
pub fn round_end(running: bool, results: &Vec<ContentBlock>) -> (r: RoundEnd)
    ensures
        !running ==> r == RoundEnd::Stopped,
        running && results@.len() == 0 ==> r == RoundEnd::Completed,
        running && results@.len() > 0 ==> r == RoundEnd::Continue,
{
    if !running {
        RoundEnd::Stopped
    } else if results.len() == 0 {
        RoundEnd::Completed
    } else {
        RoundEnd::Continue
    }
}

/// Records the model's reply: the assistant message goes to the history and
/// the conversation, with the usage of the request.
pub fn record_reply(messages: &mut Vec<Message>, conversation: &mut Conversation, reply: ApiResult, model: &str)
    requires
        old(conversation).total_input_tokens + reply.usage.spec_total_input() <= u32::MAX,
        old(conversation).total_output_tokens + reply.usage.output_tokens <= u32::MAX,
    ensures
        messages_view(final(messages)@) == messages_view(old(messages)@).push(
            MessageView { role: "assistant"@, content: blocks_view(reply.content@) },
        ),
        messages_view(final(conversation).messages@) == messages_view(old(conversation).messages@).push(
            MessageView { role: "assistant"@, content: blocks_view(reply.content@) },
        ),
        final(conversation).total_input_tokens == old(conversation).total_input_tokens
            + reply.usage.spec_total_input(),
        final(conversation).total_output_tokens == old(conversation).total_output_tokens
            + reply.usage.output_tokens,
        final(conversation).turn_usage@.len() == old(conversation).turn_usage@.len() + 1,
        final(conversation).turn_usage@.take(old(conversation).turn_usage@.len() as int)
            == old(conversation).turn_usage@,
        final(conversation).turn_usage@.last().turn_index == old(conversation).turn_usage@.len() as u32,
        final(conversation).turn_usage@.last().usage == reply.usage,
        final(conversation).turn_usage@.last().model@ == model@,
        final(conversation).id == old(conversation).id,
        final(conversation).title == old(conversation).title,
        final(conversation).created_at == old(conversation).created_at,
        final(conversation).model == old(conversation).model,
        final(conversation).mode == old(conversation).mode,
{
    let m = Message { role: String::from_str("assistant"), content: reply.content };
    let c = copy_message(&m);
    let ghost before = messages@;
    messages.push(m);
    assert(messages_view(messages@) =~= messages_view(before).push(m@));
    let ghost cbefore = conversation.messages@;
    conversation.add_message(c);
    assert(messages_view(conversation.messages@) =~= messages_view(cbefore).push(m@));
    conversation.add_usage(reply.usage, model);
}

/// Closes a round that continues: shrinks old snapshots when the results
/// bring a new one, then adds the results as a user message to the history
/// and the conversation, and titles the conversation.
pub fn finish_round(messages: &mut Vec<Message>, conversation: &mut Conversation, results: Vec<ContentBlock>)
    ensures
        messages_view(final(messages)@) == (if has_snapshot(blocks_view(results@)) {
            messages_view(old(messages)@).map_values(|m| shrink_message(m))
        } else {
            messages_view(old(messages)@)
        }).push(MessageView { role: "user"@, content: blocks_view(results@) }),
        messages_view(final(conversation).messages@) == messages_view(old(conversation).messages@).push(
            MessageView { role: "user"@, content: blocks_view(results@) },
        ),
        final(conversation).title@ == crate::storage::auto_title_of(
            old(conversation).title@,
            final(conversation).messages@,
        ),
        final(conversation).id == old(conversation).id,
        final(conversation).total_input_tokens == old(conversation).total_input_tokens,
        final(conversation).total_output_tokens == old(conversation).total_output_tokens,
{
    if has_new_snapshot(&results) {
        summarize_old_snapshots(messages);
    }
    let m = Message { role: String::from_str("user"), content: results };
    let c = copy_message(&m);
    let ghost before = messages@;
    messages.push(m);
    assert(messages_view(messages@) =~= messages_view(before).push(m@));
    let ghost cbefore = conversation.messages@;
    conversation.add_message(c);
    assert(messages_view(conversation.messages@) =~= messages_view(cbefore).push(m@));
    conversation.auto_title();
}

} // verus!
