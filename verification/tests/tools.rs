use taskhomie::agent::AgentMode;
use taskhomie::tools::{
    build_browser_tools, build_tools, system_blocks, ToolSpec, BROWSER_SYSTEM_PROMPT, CONTEXT_EDITS,
    SYSTEM_PROMPT, VOICE_PROMPT_HAIKU, VOICE_PROMPT_OPUS,
};

fn names(tools: &[ToolSpec]) -> Vec<&str> {
    tools.iter().map(|t| t.name.as_str()).collect()
}

#[test]
fn computer_mode_tools() {
    let tools = build_tools(AgentMode::Computer, false);
    assert_eq!(names(&tools), vec!["computer", "bash", "web_search", "web_fetch"]);
    let cached: Vec<bool> = tools.iter().map(|t| t.cache).collect();
    assert_eq!(cached, vec![false, false, false, true]);
    let v: serde_json::Value = serde_json::from_str(&tools[0].definition).unwrap();
    assert_eq!(v["type"], "computer_20250124");
    assert_eq!(v["display_width_px"], 1280);
    assert_eq!(v["display_height_px"], 800);
    assert_eq!(v["display_number"], 1);
}

#[test]
fn voice_mode_adds_speech_last() {
    let tools = build_tools(AgentMode::Computer, true);
    assert_eq!(names(&tools), vec!["computer", "bash", "web_search", "web_fetch", "speak"]);
    assert!(tools[4].cache);
    assert!(!tools[3].cache);
    let v: serde_json::Value = serde_json::from_str(&tools[4].definition).unwrap();
    assert_eq!(v["input_schema"]["required"][0], "text");
}

#[test]
fn browser_mode_tools() {
    let tools = build_tools(AgentMode::Browser, false);
    assert_eq!(
        names(&tools),
        vec![
            "see_page",
            "page_action",
            "browser_navigate",
            "get_page_text",
            "find",
            "run_javascript",
            "bash",
            "web_search",
            "web_fetch"
        ]
    );
    assert_eq!(tools.iter().filter(|t| t.cache).count(), 1);
    assert!(tools.last().unwrap().cache);
}

#[test]
fn every_definition_is_json_naming_its_tool() {
    for mode in [AgentMode::Computer, AgentMode::Browser] {
        for voice in [false, true] {
            for t in build_tools(mode, voice) {
                let v: serde_json::Value = serde_json::from_str(&t.definition).unwrap();
                assert_eq!(v["name"], t.name.as_str());
            }
        }
    }
    assert_eq!(build_browser_tools().len(), 6);
    let edits: serde_json::Value = serde_json::from_str(CONTEXT_EDITS).unwrap();
    assert_eq!(edits.as_array().unwrap().len(), 2);
}

#[test]
fn system_prompt_blocks() {
    let b = system_blocks(AgentMode::Computer, false, "any-sonnet");
    assert_eq!(b.len(), 1);
    assert_eq!(b[0].text, SYSTEM_PROMPT);
    assert!(b[0].cache);
    let b = system_blocks(AgentMode::Browser, true, "model-haiku-4");
    assert_eq!(b.len(), 2);
    assert_eq!(b[0].text, BROWSER_SYSTEM_PROMPT);
    assert!(!b[0].cache);
    assert_eq!(b[1].text, VOICE_PROMPT_HAIKU);
    assert!(b[1].cache);
    let b = system_blocks(AgentMode::Computer, true, "model-opus-4");
    assert_eq!(b[1].text, VOICE_PROMPT_OPUS);
}
