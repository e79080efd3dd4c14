use taskhomie::chrome::{chrome_debug_args, restart_begin, restart_step, RestartAction, RestartState};

#[test]
fn debug_launch_arguments() {
    assert_eq!(
        chrome_debug_args("/h/.taskhomie-chrome"),
        vec![
            "-a",
            "Google Chrome",
            "--args",
            "--remote-debugging-port=9222",
            "--user-data-dir=/h/.taskhomie-chrome",
            "--profile-directory=Default",
            "--no-first-run",
            "--no-default-browser-check"
        ]
    );
}

#[test]
fn restart_when_chrome_quits_at_once() {
    let (s, a) = restart_begin();
    assert_eq!(a, RestartAction::WaitAndCheck(500));
    let (s, a) = restart_step(s, false);
    assert_eq!((s, a), (RestartState::AfterQuit, RestartAction::Check));
    let (s, a) = restart_step(s, false);
    assert_eq!((s, a), (RestartState::AfterKill, RestartAction::Check));
    let (s, a) = restart_step(s, false);
    assert_eq!(a, RestartAction::LaunchWaitAndProbe(500));
    let (s, a) = restart_step(s, true);
    assert_eq!((s, a), (RestartState::Connecting, RestartAction::Connect));
}

#[test]
fn restart_kills_and_gives_up_when_chrome_stays() {
    let (mut s, _) = restart_begin();
    let mut steps = 0;
    let mut kills = 0;
    loop {
        let (n, a) = restart_step(s, true);
        steps += 1;
        if a == RestartAction::KillWaitAndCheck(300) {
            kills += 1;
        }
        s = n;
        if a == RestartAction::GiveUp {
            break;
        }
        assert!(steps < 100);
    }
    assert_eq!(kills, 1);
    assert_eq!(s, RestartState::Failed);
    // 5 more quit checks, the check after them, the kill, 9 more kill
    // checks, the check after them, and giving up
    assert_eq!(steps, 5 + 1 + 1 + 9 + 1 + 1);
}

#[test]
fn restart_connects_after_port_never_answers() {
    let (mut s, _) = restart_begin();
    s = restart_step(s, false).0;
    s = restart_step(s, false).0;
    s = restart_step(s, false).0;
    let mut probes = 1;
    loop {
        let (n, a) = restart_step(s, false);
        s = n;
        if a == RestartAction::Connect {
            break;
        }
        assert_eq!(a, RestartAction::WaitAndProbe(500));
        probes += 1;
    }
    assert_eq!(probes, 20);
}
