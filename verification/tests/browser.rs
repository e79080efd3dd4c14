use taskhomie::browser::{
    browser_call, click_message, dialog_message, fill_form_message, make_uid, navigation_message,
    page_list_text, parse_cdp_key, parse_u64, plan_navigation, resolve_uid, wait_step,
    ws_url_from_port_file, BrowserCall, BrowserToolArgs, FormElement, Navigation, PageList, WaitStep,
};

fn no_args() -> BrowserToolArgs {
    BrowserToolArgs {
        verbose: None,
        uid: None,
        dbl_click: None,
        value: None,
        key: None,
        nav_type: None,
        url: None,
        ignore_cache: None,
        text: None,
        timeout: None,
        page_idx: None,
        bring_to_front: None,
        from_uid: None,
        to_uid: None,
        elements: None,
        action: None,
        prompt_text: None,
    }
}

#[test]
fn numbers_parse_like_str_parse() {
    let p = |s: &str| parse_u64(&s.chars().collect::<Vec<char>>());
    assert_eq!(p("42"), Some(42));
    assert_eq!(p("+7"), Some(7));
    assert_eq!(p("18446744073709551615"), Some(u64::MAX));
    assert_eq!(p("18446744073709551616"), None);
    assert_eq!(p(""), None);
    assert_eq!(p("+"), None);
    assert_eq!(p("1a"), None);
    assert_eq!(p("-1"), None);
}

#[test]
fn element_ids_resolve_in_their_snapshot() {
    let map = vec![(make_uid(3, 0), 100i64), (make_uid(3, 1), 101)];
    assert_eq!(map[1].0, "3_1");
    assert_eq!(resolve_uid("3_1", 3, &map), Ok(101));
    assert_eq!(
        resolve_uid("2_1", 3, &map),
        Err("stale uid from snapshot 2, current is 3. take a new snapshot first.".to_string())
    );
    assert_eq!(resolve_uid("3_9", 3, &map), Err("uid not found: 3_9".to_string()));
    assert_eq!(resolve_uid("31", 3, &map), Err("invalid uid format: 31".to_string()));
    assert_eq!(resolve_uid("x_1", 3, &map), Err("invalid snapshot id in uid".to_string()));
}

#[test]
fn cdp_keys_carry_modifier_bits() {
    assert_eq!(parse_cdp_key("Enter"), (0, "Enter".to_string()));
    assert_eq!(parse_cdp_key("Control+a"), (2, "a".to_string()));
    assert_eq!(parse_cdp_key("Shift+Alt+Tab"), (9, "Tab".to_string()));
    assert_eq!(parse_cdp_key("Meta+Ctrl+x"), (6, "x".to_string()));
}

#[test]
fn page_list_selection() {
    let mut pages = PageList::new(vec!["a", "b"]);
    assert_eq!(pages.selected_page(), Ok(&"a"));
    assert_eq!(pages.select(1), Ok("Selected page 1".to_string()));
    assert_eq!(pages.select(5), Err("page index 5 out of range (0..2)".to_string()));
    assert_eq!(pages.selected_index(), 1);
    pages.push_new("c");
    assert_eq!(pages.selected_index(), 2);
    assert_eq!(pages.check_close(0), Ok(()));
    assert_eq!(pages.remove_closed(2), "Closed page 2");
    assert_eq!(pages.selected_index(), 1);
    assert_eq!(pages.pages(), &vec!["a", "b"]);
    pages.refresh(vec!["z"]);
    assert_eq!(pages.selected_index(), 0);
    assert_eq!(pages.check_close(0), Err("cannot close the last open page".to_string()));
    let mut empty: PageList<&str> = PageList::new(vec![]);
    assert_eq!(empty.selected_page(), Err("no page selected".to_string()));
    empty.refresh(vec![]);
    assert_eq!(empty.selected_index(), 0);
}

#[test]
fn page_listing_text() {
    let urls = vec!["https://a".to_string(), "https://b".to_string()];
    assert_eq!(page_list_text(&urls, 1), "0: https://a\n1: https://b [selected]\n");
    assert_eq!(page_list_text(&vec![], 0), "No pages open");
}

#[test]
fn port_file_gives_websocket_address() {
    assert_eq!(
        ws_url_from_port_file("9222\n/devtools/browser/abc\n"),
        Some("ws://127.0.0.1:9222/devtools/browser/abc".to_string())
    );
    assert_eq!(ws_url_from_port_file("9222"), None);
}

#[test]
fn navigation_plans_and_messages() {
    let n = plan_navigation("url", Some("https://x".to_string()), false).unwrap();
    assert_eq!(navigation_message(&n), "Successfully navigated to https://x");
    assert_eq!(plan_navigation("url", None, false).err(), Some("url required for type=url".to_string()));
    assert!(matches!(plan_navigation("back", None, false), Ok(Navigation::Back)));
    assert!(matches!(plan_navigation("reload", None, true), Ok(Navigation::Reload { ignore_cache: true })));
    assert_eq!(plan_navigation("sideways", None, false).err(), Some("unknown navigation type: sideways".to_string()));
    assert_eq!(navigation_message(&Navigation::Forward), "Successfully navigated forward");
}

#[test]
fn waiting_and_messages() {
    assert_eq!(wait_step(true, 99999, 10), WaitStep::Found);
    assert_eq!(wait_step(false, 11, 10), WaitStep::TimedOut);
    assert_eq!(wait_step(false, 10, 10), WaitStep::Retry);
    assert_eq!(click_message(false), "Successfully clicked on element");
    assert_eq!(click_message(true), "Successfully double clicked on element");
    assert_eq!(dialog_message(true), "Successfully accepted dialog");
    assert_eq!(dialog_message(false), "Successfully dismissed dialog");
    assert_eq!(fill_form_message(3), "Filled 3 form elements");
}

#[test]
fn browser_calls_check_arguments() {
    let mut a = no_args();
    a.uid = Some("1_2".to_string());
    a.dbl_click = Some(true);
    match browser_call("click", a) {
        Ok(BrowserCall::Click { uid, dbl_click }) => {
            assert_eq!(uid, "1_2");
            assert!(dbl_click);
        },
        other => panic!("unexpected {:?}", other),
    }
    assert_eq!(browser_call("hover", no_args()).err(), Some("uid required".to_string()));
    let mut a = no_args();
    a.uid = Some("1_2".to_string());
    assert_eq!(browser_call("fill", a).err(), Some("value required".to_string()));
    let mut a = no_args();
    a.text = Some("Done".to_string());
    match browser_call("wait_for", a) {
        Ok(BrowserCall::WaitFor { text, timeout_ms }) => {
            assert_eq!(text, "Done");
            assert_eq!(timeout_ms, 5000);
        },
        other => panic!("unexpected {:?}", other),
    }
    let mut a = no_args();
    a.elements = Some(vec![
        FormElement { uid: Some("1_1".to_string()), value: Some("x".to_string()) },
        FormElement { uid: None, value: Some("skipped".to_string()) },
    ]);
    match browser_call("fill_form", a) {
        Ok(BrowserCall::FillForm { elements }) => assert_eq!(elements, vec![("1_1".to_string(), "x".to_string())]),
        other => panic!("unexpected {:?}", other),
    }
    let mut a = no_args();
    a.action = Some("dismiss".to_string());
    assert!(matches!(browser_call("handle_dialog", a), Ok(BrowserCall::HandleDialog { accept: false, .. })));
    assert_eq!(browser_call("teleport", no_args()).err(), Some("unknown browser tool: teleport".to_string()));
    assert!(matches!(browser_call("list_pages", no_args()), Ok(BrowserCall::ListPages)));
}
