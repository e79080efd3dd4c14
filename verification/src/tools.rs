//! What a request to the model offers: the tool definitions of a mode and
//! the blocks of the system prompt.
use vstd::prelude::*;
use crate::agent::AgentMode;
use crate::text::{chars_of, contains_chars, contains_seq, decimal, push_decimal, push_str, string_of};

verus! {

/// Width of the display the computer tool announces (the size screenshots
/// are scaled to).
pub const DISPLAY_WIDTH: u32 = 1280;

/// Height of the display the computer tool announces.
pub const DISPLAY_HEIGHT: u32 = 800;

/// Most tokens one reply may hold.
pub const MAX_TOKENS: u32 = 16000;

/// Tokens a reply may spend on thinking.
pub const THINKING_BUDGET: u32 = 5000;

/// The messages endpoint.
pub const API_URL: &'static str = "https://api.anthropic.com/v1/messages";

/// The API version requests name.
pub const API_VERSION: &'static str = "2023-06-01";

/// The beta features requests enable: computer use, thinking between tool
/// calls, web fetch and context editing.
pub const BETA_HEADER: &'static str = "computer-use-2025-01-24,interleaved-thinking-2025-05-14,web-fetch-2025-09-10,context-management-2025-06-27";

/// Context editing: drop thinking of all but the last two turns, and clear
/// old tool results once the input passes 80k tokens, keeping the last five
/// and the web tools' results.
pub const CONTEXT_EDITS: &'static str = r#"[
  {
    "type": "clear_thinking_20251015",
    "keep": { "type": "thinking_turns", "value": 2 }
  },
  {
    "type": "clear_tool_uses_20250919",
    "trigger": { "type": "input_tokens", "value": 80000 },
    "keep": { "type": "tool_uses", "value": 5 },
    "clear_at_least": { "type": "input_tokens", "value": 10000 },
    "exclude_tools": ["web_search", "web_fetch"]
  }
]"#;

/// Definition of the shell tool.
pub const BASH_TOOL: &'static str = r#"{
  "type": "bash_20250124",
  "name": "bash"
}"#;

/// Definition of the server-side web search tool.
pub const WEB_SEARCH_TOOL: &'static str = r#"{
  "type": "web_search_20250305",
  "name": "web_search",
  "max_uses": 10
}"#;

/// Definition of the server-side web fetch tool.
pub const WEB_FETCH_TOOL: &'static str = r#"{
  "type": "web_fetch_20250910",
  "name": "web_fetch",
  "max_uses": 10,
  "max_content_tokens": 50000
}"#;

/// Definition of the browser tool to see the current page.
pub const SEE_PAGE_TOOL: &'static str = r#"{
  "name": "see_page",
  "description": "See what's on the page. By default returns all interactive elements (buttons, links, inputs) with element IDs like '3_42'. You MUST call this first before using page_action. Set screenshot=true to get a visual image instead, or list_tabs=true to see open browser tabs.",
  "input_schema": {
    "type": "object",
    "properties": {
      "screenshot": {
        "type": "boolean",
        "description": "Return a screenshot image instead of elements. Use when you need to see visual content like images, charts, or CAPTCHAs."
      },
      "list_tabs": {
        "type": "boolean",
        "description": "Return a list of all open browser tabs with their URLs and tab numbers."
      },
      "verbose": {
        "type": "boolean",
        "description": "Include all elements, not just interactive ones. Default false."
      }
    },
    "required": []
  }
}"#;

/// Definition of the browser tool to interact with the page.
pub const PAGE_ACTION_TOOL: &'static str = r#"{
  "name": "page_action",
  "description": "Interact with the page. Use element IDs from see_page (like '3_42') to click, type, scroll, or press keys. Provide exactly ONE action per call.",
  "input_schema": {
    "type": "object",
    "properties": {
      "click": {
        "type": "string",
        "description": "Click this element. Example: \"3_42\""
      },
      "right_click": {
        "type": "string",
        "description": "Right-click this element to open context menu. Example: \"3_42\""
      },
      "double_click": {
        "type": "string",
        "description": "Double-click this element. Example: \"3_42\""
      },
      "type_into": {
        "type": "string",
        "description": "Type into this input field. Must also provide 'text'. Example: \"3_10\""
      },
      "text": {
        "type": "string",
        "description": "The text to type. Use with type_into. Example: \"hello@email.com\""
      },
      "hover": {
        "type": "string",
        "description": "Move mouse over this element. Example: \"3_42\""
      },
      "drag_from_to": {
        "type": "array",
        "items": {
          "type": "string"
        },
        "description": "Drag from first element to second. Example: [\"3_5\", \"3_10\"]"
      },
      "press_key": {
        "type": "string",
        "description": "Press a key. Examples: \"Enter\", \"Tab\", \"Escape\", \"ArrowDown\", \"Control+a\""
      },
      "scroll": {
        "type": "string",
        "enum": [
          "up",
          "down",
          "left",
          "right"
        ],
        "description": "Scroll the page in this direction"
      },
      "scroll_pixels": {
        "type": "integer",
        "description": "Pixels to scroll (default 500). Use with scroll."
      },
      "fill_form": {
        "type": "array",
        "items": {
          "type": "object",
          "properties": {
            "element": {
              "type": "string"
            },
            "text": {
              "type": "string"
            }
          },
          "required": [
            "element",
            "text"
          ]
        },
        "description": "Fill multiple fields at once. Example: [{\"element\": \"3_10\", \"text\": \"John\"}]"
      },
      "dialog": {
        "type": "string",
        "enum": [
          "accept",
          "dismiss"
        ],
        "description": "Handle popup dialog. accept=OK/Yes, dismiss=Cancel/No"
      },
      "dialog_text": {
        "type": "string",
        "description": "Text for prompt dialogs. Use with dialog=\"accept\"."
      }
    },
    "required": []
  }
}"#;

/// Definition of the browser tool to navigate and manage tabs.
pub const BROWSER_NAVIGATE_TOOL: &'static str = r#"{
  "name": "browser_navigate",
  "description": "Navigate the browser. Go to URLs, go back/forward, reload, manage tabs, or wait for content. Provide exactly ONE action per call.",
  "input_schema": {
    "type": "object",
    "properties": {
      "go_to_url": {
        "type": "string",
        "description": "Navigate to this URL. Example: \"https://google.com\""
      },
      "go_back": {
        "type": "boolean",
        "description": "Go back to previous page"
      },
      "go_forward": {
        "type": "boolean",
        "description": "Go forward to next page"
      },
      "reload": {
        "type": "boolean",
        "description": "Reload current page"
      },
      "reload_skip_cache": {
        "type": "boolean",
        "description": "Reload and bypass cache"
      },
      "open_new_tab": {
        "type": "string",
        "description": "Open new tab with this URL. Example: \"https://github.com\""
      },
      "switch_to_tab": {
        "type": "integer",
        "description": "Switch to this tab number (from see_page list_tabs)"
      },
      "focus_tab": {
        "type": "boolean",
        "description": "Bring the tab to front when switching. Default true."
      },
      "close_tab": {
        "type": "integer",
        "description": "Close this tab number. Cannot close last tab."
      },
      "wait_for_text": {
        "type": "string",
        "description": "Wait for this text to appear on page. Example: \"Success\""
      },
      "wait_timeout_ms": {
        "type": "integer",
        "description": "Max wait time in milliseconds (default 5000)"
      }
    },
    "required": []
  }
}"#;

/// Definition of the browser tool to extract the page text.
pub const GET_PAGE_TEXT_TOOL: &'static str = r#"{
  "name": "get_page_text",
  "description": "Extract all text content from the page. Returns plain text without HTML. Useful for reading articles, documentation, or when you need the full text content.",
  "input_schema": {
    "type": "object",
    "properties": {},
    "required": []
  }
}"#;

/// Definition of the browser tool to search for elements.
pub const FIND_TOOL: &'static str = r#"{
  "name": "find",
  "description": "Find elements on the page matching a search query. Returns element IDs you can use with page_action. Use this to quickly locate specific buttons, links, or inputs.",
  "input_schema": {
    "type": "object",
    "properties": {
      "query": {
        "type": "string",
        "description": "Text to search for in element names/labels. Example: \"login\", \"submit\", \"search\""
      }
    },
    "required": [
      "query"
    ]
  }
}"#;

/// Definition of the browser tool to run JavaScript in the page.
pub const RUN_JAVASCRIPT_TOOL: &'static str = r#"{
  "name": "run_javascript",
  "description": "Execute JavaScript code in the page context. Returns the result as JSON. Use for advanced DOM manipulation, reading page state, or when other tools aren't sufficient.",
  "input_schema": {
    "type": "object",
    "properties": {
      "code": {
        "type": "string",
        "description": "JavaScript code to execute. Can use await. Example: \"return document.title\" or \"return Array.from(document.querySelectorAll('a')).map(a => a.href)\""
      }
    },
    "required": [
      "code"
    ]
  }
}"#;

/// Definition of the speech tool of voice mode.
pub const SPEAK_TOOL: &'static str = r#"{
  "name": "speak",
  "description": "Speak to the user via text-to-speech. This is your only communication channel - the user cannot see any text you write. Use speak() for responses, confirmations, questions, and updates. Keep it conversational and concise (1-3 sentences).",
  "input_schema": {
    "type": "object",
    "properties": {
      "text": {
        "type": "string",
        "description": "Natural spoken text. No markdown, code blocks, URLs, or special characters - just words you would say aloud."
      }
    },
    "required": [
      "text"
    ]
  }
}"#;

/// System prompt of computer mode.
pub const SYSTEM_PROMPT: &'static str = r#"You are taskhomie, a macOS computer control agent. You see the screen, control mouse/keyboard, and run bash.

Keep text responses very concise. Focus on doing, not explaining. Use tools on every turn.

Click to focus before typing. Screenshot after actions to verify. If something fails, try another approach.

Prefer bash for speed: open -a "App", open https://url, pbcopy/pbpaste, mdfind. Use `sleep N` when waiting.

Use computer tool for visual tasks: clicking UI, reading screen content, filling forms."#;

/// System prompt of browser mode.
pub const BROWSER_SYSTEM_PROMPT: &'static str = r#"You are taskhomie in browser mode. You control Chrome via CDP.

Keep text responses very concise. Focus on doing, not explaining. Use tools on every turn.

Use uids from the latest snapshot only—stale uids fail. Take a new snapshot after any action that changes the page.

Use screenshot when:
- You're stuck or something isn't working as expected
- You need to verify a visual result after an action
- Dealing with CAPTCHAs, images, or visual elements not in the a11y tree
- Confirming the page looks correct before reporting success

Use bash for file operations.

If browser tools fail with connection errors, Chrome may have been closed. Run this bash command to relaunch it with debugging enabled:
open -a "Google Chrome" --args --remote-debugging-port=9222 --user-data-dir="$HOME/.taskhomie-chrome" --profile-directory=Default --no-first-run
Then wait a few seconds and retry the browser tool."#;

/// Voice-mode instructions for the larger models.
pub const VOICE_PROMPT_OPUS: &'static str = r#"

You MUST call tools on every single turn. Never respond with just text - always take action.

CRITICAL: ALWAYS call speak() FIRST to tell the user what you're about to do. Keep them in the loop constantly.

Example multi-step task (user asks to play a song on spotify):
Turn 1: [speak: "Opening Spotify and searching for that song"] [bash: open -a "Spotify"]
Turn 2: [computer: click search] [computer: type song name]
Turn 3: [speak: "Found it, playing now"] [computer: click play button]

Call speak() at the START, then every 2-3 tool calls for progress updates, and at the END. The user is BLIND to your text - speak() is your ONLY way to communicate.

Parallel tools: If multiple independent actions exist, call them all simultaneously in one response.

Speech style: Conversational, 1-3 sentences. Say "two hundred" not "200". No markdown or URLs."#;

/// Voice-mode instructions for the small model, spelled out more firmly.
pub const VOICE_PROMPT_HAIKU: &'static str = r#"

<MANDATORY_TOOL_USE>
You MUST call at least one tool on EVERY turn. Text-only responses are FORBIDDEN.
</MANDATORY_TOOL_USE>

<VOICE_MODE>
CRITICAL: ALWAYS call speak() FIRST before any other tool. The user cannot see your text - speak() is your ONLY communication channel.

Example multi-step task (user asks to play a song on spotify):
Turn 1: [speak: "Opening Spotify and searching for that song"] [bash: open -a "Spotify"]
Turn 2: [computer: click search] [computer: type song name]
Turn 3: [speak: "Found it, playing now"] [computer: click play button]

Call speak() at the START, then every 2-3 tool calls for progress updates, and at the END.
Keep spoken responses 1-2 sentences.
</VOICE_MODE>

<PARALLEL_EXECUTION>
When multiple independent actions are possible, call ALL tools in parallel in a single response.
</PARALLEL_EXECUTION>

Speech style: Conversational. Say "two hundred" not "200". No markdown or URLs."#;

/// A tool offered to the model: its name, its definition as a JSON object,
/// and whether the prompt cache breakpoint follows it.
#[derive(Debug, Clone)]
pub struct ToolSpec {
    pub name: String,
    pub definition: String,
    pub cache: bool,
}

/// The definition of the computer tool, for a display of
/// `DISPLAY_WIDTH` x `DISPLAY_HEIGHT`.
pub open spec fn computer_tool_json() -> Seq<char> {
    "{\"type\":\"computer_20250124\",\"name\":\"computer\",\"display_width_px\":"@ + decimal(
        DISPLAY_WIDTH as nat,
    ) + ",\"display_height_px\":"@ + decimal(DISPLAY_HEIGHT as nat) + ",\"display_number\":1}"@
}

/// The browser tools, by name and definition, in the order offered.
pub open spec fn browser_tool_defs() -> Seq<(Seq<char>, Seq<char>)> {
    seq![
        ("see_page"@, SEE_PAGE_TOOL@),
        ("page_action"@, PAGE_ACTION_TOOL@),
        ("browser_navigate"@, BROWSER_NAVIGATE_TOOL@),
        ("get_page_text"@, GET_PAGE_TEXT_TOOL@),
        ("find"@, FIND_TOOL@),
        ("run_javascript"@, RUN_JAVASCRIPT_TOOL@),
    ]
}

/// The tools offered in a mode: the computer tool or the browser tools,
/// then the shell, web search and web fetch, and in voice mode the speech
/// tool last.
pub open spec fn tool_defs(mode: AgentMode, voice_mode: bool) -> Seq<(Seq<char>, Seq<char>)> {
    let lead = match mode {
        AgentMode::Computer => seq![("computer"@, computer_tool_json())],
        AgentMode::Browser => browser_tool_defs(),
    };
    let common = seq![("bash"@, BASH_TOOL@), ("web_search"@, WEB_SEARCH_TOOL@), ("web_fetch"@, WEB_FETCH_TOOL@)];
    let speech = if voice_mode {
        seq![("speak"@, SPEAK_TOOL@)]
    } else {
        Seq::<(Seq<char>, Seq<char>)>::empty()
    };
    lead + common + speech
}

/// The tools as name, definition and cache mark.
pub open spec fn specs_view(v: Seq<ToolSpec>) -> Seq<(Seq<char>, Seq<char>, bool)> {
    v.map_values(|t: ToolSpec| (t.name@, t.definition@, t.cache))
}

fn push_tool(tools: &mut Vec<ToolSpec>, name: &str, definition: String)
    ensures
        specs_view(final(tools)@) == specs_view(old(tools)@).push((name@, definition@, false)),
{
    let ghost before = specs_view(tools@);
    tools.push(ToolSpec { name: String::from_str(name), definition, cache: false });
    assert(specs_view(tools@) =~= before.push((name@, definition@, false)));
}

/// The browser tools, none with the cache mark.
pub fn build_browser_tools() -> (r: Vec<ToolSpec>)
    ensures
        specs_view(r@) == browser_tool_defs().map_values(|d: (Seq<char>, Seq<char>)| (d.0, d.1, false)),
{
    let mut r: Vec<ToolSpec> = Vec::new();
    push_tool(&mut r, "see_page", String::from_str(SEE_PAGE_TOOL));
    push_tool(&mut r, "page_action", String::from_str(PAGE_ACTION_TOOL));
    push_tool(&mut r, "browser_navigate", String::from_str(BROWSER_NAVIGATE_TOOL));
    push_tool(&mut r, "get_page_text", String::from_str(GET_PAGE_TEXT_TOOL));
    push_tool(&mut r, "find", String::from_str(FIND_TOOL));
    push_tool(&mut r, "run_javascript", String::from_str(RUN_JAVASCRIPT_TOOL));
    assert(specs_view(r@) =~= browser_tool_defs().map_values(|d: (Seq<char>, Seq<char>)| (d.0, d.1, false)));
    r
}

/// The definition of the computer tool (see `computer_tool_json`).
fn computer_tool() -> (r: String)
    ensures
        r@ == computer_tool_json(),
{
    let mut v = chars_of("{\"type\":\"computer_20250124\",\"name\":\"computer\",\"display_width_px\":");
    push_decimal(&mut v, DISPLAY_WIDTH as u64);
    push_str(&mut v, ",\"display_height_px\":");
    push_decimal(&mut v, DISPLAY_HEIGHT as u64);
    push_str(&mut v, ",\"display_number\":1}");
    string_of(&v)
}

/// The tools offered to the model in a mode (see `tool_defs`); the last one
/// carries the cache mark, so the prompt cache covers all definitions.
pub fn build_tools(mode: AgentMode, voice_mode: bool) -> (r: Vec<ToolSpec>)
    ensures
        r@.len() == tool_defs(mode, voice_mode).len(),
        forall|i: int|
            0 <= i < r@.len() ==> {
                &&& (#[trigger] r@[i]).name@ == tool_defs(mode, voice_mode)[i].0
                &&& r@[i].definition@ == tool_defs(mode, voice_mode)[i].1
                &&& r@[i].cache == (i == r@.len() - 1)
            },
{
    let mut tools: Vec<ToolSpec> = Vec::new();
    match mode {
        AgentMode::Computer => {
            push_tool(&mut tools, "computer", computer_tool());
        },
        AgentMode::Browser => {
            tools = build_browser_tools();
        },
    }
    push_tool(&mut tools, "bash", String::from_str(BASH_TOOL));
    push_tool(&mut tools, "web_search", String::from_str(WEB_SEARCH_TOOL));
    push_tool(&mut tools, "web_fetch", String::from_str(WEB_FETCH_TOOL));
    if voice_mode {
        push_tool(&mut tools, "speak", String::from_str(SPEAK_TOOL));
    }
    let ghost defs = tool_defs(mode, voice_mode);
    assert(specs_view(tools@) =~= defs.map_values(|d: (Seq<char>, Seq<char>)| (d.0, d.1, false)));
    let n = tools.len();
    let ghost before = tools@;
    let last = n - 1;
    let mut t = tools.remove(last);
    t.cache = true;
    tools.push(t);
    assert forall|i: int| 0 <= i < tools@.len() implies {
        &&& (#[trigger] tools@[i]).name@ == defs[i].0
        &&& tools@[i].definition@ == defs[i].1
        &&& tools@[i].cache == (i == tools@.len() - 1)
    } by {
        if i < last {
            assert(tools@[i] == before[i]);
            assert(specs_view(before)[i] == (defs[i].0, defs[i].1, false));
        } else {
            assert(specs_view(before)[i] == (defs[i].0, defs[i].1, false));
        }
    }
    tools
}

/// A block of the system prompt and whether the prompt cache breakpoint
/// follows it.
#[derive(Debug, Clone)]
pub struct SystemBlock {
    pub text: String,
    pub cache: bool,
}

/// The system prompt of a mode.
pub open spec fn base_prompt(mode: AgentMode) -> Seq<char> {
    match mode {
        AgentMode::Computer => SYSTEM_PROMPT@,
        AgentMode::Browser => BROWSER_SYSTEM_PROMPT@,
    }
}

/// The voice-mode instructions for a model: the firmer ones for a haiku
/// model.
pub open spec fn voice_prompt(model: Seq<char>) -> Seq<char> {
    if contains_seq(model, "haiku"@) {
        VOICE_PROMPT_HAIKU@
    } else {
        VOICE_PROMPT_OPUS@
    }
}

/// The blocks of the system prompt: the mode's prompt, then in voice mode
/// the voice instructions for the model. The cache breakpoint follows the
/// last block, so the mode's prompt is cached on its own outside voice
/// mode.
pub fn system_blocks(mode: AgentMode, voice_mode: bool, model: &str) -> (r: Vec<SystemBlock>)
    ensures
        r@.len() == (if voice_mode { 2int } else { 1int }),
        r@[0].text@ == base_prompt(mode),
        r@[0].cache == !voice_mode,
        voice_mode ==> r@[1].text@ == voice_prompt(model@) && r@[1].cache,
{
    let base = match mode {
        AgentMode::Computer => String::from_str(SYSTEM_PROMPT),
        AgentMode::Browser => String::from_str(BROWSER_SYSTEM_PROMPT),
    };
    let mut r: Vec<SystemBlock> = Vec::new();
    r.push(SystemBlock { text: base, cache: !voice_mode });
    if voice_mode {
        let m = chars_of(model);
        let text = if contains_chars(&m, &chars_of("haiku")) {
            String::from_str(VOICE_PROMPT_HAIKU)
        } else {
            String::from_str(VOICE_PROMPT_OPUS)
        };
        r.push(SystemBlock { text, cache: true });
    }
    r
}

} // verus!
