//! System permissions, the dedicated browser profile, and the API keys kept
//! in the `.env` file.
use vstd::prelude::*;
use crate::text::{chars_of, contains_chars, contains_seq, eq_chars, join, join_chars, lines, lines_of,
    push_str, starts_with_chars, str_eq, string_of, strip_cr, lemma_chars_deep_view, lemma_lines_no_nl,
    lemma_lines_of_join};

verus! {

/// The state of one system permission.
#[derive(Debug, Clone, Copy, PartialEq, Eq, Structural)]
pub enum PermissionStatus {
    Granted,
    Denied,
    NotAsked,
    NotNeeded,
}

/// The states of the permissions the agent needs.
#[derive(Debug, Clone, Copy)]
pub struct PermissionsCheck {
    pub accessibility: PermissionStatus,
    pub screen_recording: PermissionStatus,
    pub microphone: PermissionStatus,
}

impl PermissionsCheck {
    /// Where the system asks for none of them (other systems than macOS).
    pub fn not_needed() -> (r: Self)
        ensures
            r.accessibility == PermissionStatus::NotNeeded,
            r.screen_recording == PermissionStatus::NotNeeded,
            r.microphone == PermissionStatus::NotNeeded,
    {
        PermissionsCheck {
            accessibility: PermissionStatus::NotNeeded,
            screen_recording: PermissionStatus::NotNeeded,
            microphone: PermissionStatus::NotNeeded,
        }
    }
}

/// Granted when a check succeeded, denied otherwise (accessibility trust,
/// a one-pixel screen capture).
pub fn granted_or_denied(granted: bool) -> (r: PermissionStatus)
    ensures
        r == (if granted { PermissionStatus::Granted } else { PermissionStatus::Denied }),
{
    if granted {
        PermissionStatus::Granted
    } else {
        PermissionStatus::Denied
    }
}

/// The microphone's state by what its check printed.
pub open spec fn microphone_status_of(output: Option<Seq<char>>) -> PermissionStatus {
    match output {
        None => PermissionStatus::Denied,
        Some(o) => if contains_seq(o, "granted"@) {
            PermissionStatus::Granted
        } else if contains_seq(o, "notasked"@) {
            PermissionStatus::NotAsked
        } else {
            PermissionStatus::Denied
        },
    }
}

/// The microphone's state from the output of its check; `None` when the
/// check could not run.
pub fn microphone_status(output: Option<&str>) -> (r: PermissionStatus)
    ensures
        r == microphone_status_of(
            match output {
                Some(o) => Some(o@),
                None => None,
            },
        ),
{
    match output {
        None => PermissionStatus::Denied,
        Some(o) => {
            let c = chars_of(o);
            if contains_chars(&c, &chars_of("granted")) {
                PermissionStatus::Granted
            } else if contains_chars(&c, &chars_of("notasked")) {
                PermissionStatus::NotAsked
            } else {
                PermissionStatus::Denied
            }
        },
    }
}

/// A permission the agent asks for.
#[derive(Debug, Clone, Copy, PartialEq, Eq, Structural)]
pub enum Permission {
    Accessibility,
    ScreenRecording,
    Microphone,
}

/// The permission a window names, if any.
pub fn parse_permission(name: &str) -> (r: Option<Permission>)
    ensures
        r == (if name@ == "accessibility"@ {
            Some(Permission::Accessibility)
        } else if name@ == "screenRecording"@ {
            Some(Permission::ScreenRecording)
        } else if name@ == "microphone"@ {
            Some(Permission::Microphone)
        } else {
            None
        }),
{
    if str_eq(name, "accessibility") {
        Some(Permission::Accessibility)
    } else if str_eq(name, "screenRecording") {
        Some(Permission::ScreenRecording)
    } else if str_eq(name, "microphone") {
        Some(Permission::Microphone)
    } else {
        None
    }
}

/// The system settings pane of a permission.
pub open spec fn settings_url_of(p: Permission) -> Seq<char> {
    match p {
        Permission::Accessibility => "x-apple.systempreferences:com.apple.preference.security?Privacy_Accessibility"@,
        Permission::ScreenRecording => "x-apple.systempreferences:com.apple.preference.security?Privacy_ScreenCapture"@,
        Permission::Microphone => "x-apple.systempreferences:com.apple.preference.security?Privacy_Microphone"@,
    }
}

/// The address that opens the settings pane of a permission.
pub fn settings_url(p: Permission) -> (r: &'static str)
    ensures
        r@ == settings_url_of(p),
{
    match p {
        Permission::Accessibility => "x-apple.systempreferences:com.apple.preference.security?Privacy_Accessibility",
        Permission::ScreenRecording => "x-apple.systempreferences:com.apple.preference.security?Privacy_ScreenCapture",
        Permission::Microphone => "x-apple.systempreferences:com.apple.preference.security?Privacy_Microphone",
    }
}

/// What the dedicated browser profile holds.
#[derive(Debug, Clone)]
pub struct BrowserProfileStatus {
    pub exists: bool,
    pub path: String,
    /// Domains with cookies, most recently used first.
    pub sessions: Vec<String>,
}

/// Which API keys are set.
#[derive(Debug, Clone, Copy)]
pub struct ApiKeyStatus {
    pub anthropic: bool,
    pub deepgram: bool,
}

/// The profile directory: `.taskhomie-chrome` in the home directory, which
/// defaults to `/Users`.
pub open spec fn profile_path_of(home: Option<Seq<char>>) -> Seq<char> {
    let base = match home {
        Some(h) => h,
        None => "/Users"@,
    };
    base + "/.taskhomie-chrome"@
}

/// The path of the dedicated browser profile.
pub fn profile_path(home: Option<&str>) -> (r: String)
    ensures
        r@ == profile_path_of(
            match home {
                Some(h) => Some(h@),
                None => None,
            },
        ),
{
    let mut v: Vec<char> = match home {
        Some(h) => chars_of(h),
        None => chars_of("/Users"),
    };
    push_str(&mut v, "/.taskhomie-chrome");
    string_of(&v)
}

/// The arguments that open Chrome on the dedicated profile, then on `url`
/// when one is given.
pub open spec fn chrome_profile_args_of(profile: Seq<char>, url: Option<Seq<char>>) -> Seq<Seq<char>> {
    let base = seq![
        "-a"@,
        "Google Chrome"@,
        "--args"@,
        "--user-data-dir="@ + profile,
        "--profile-directory=Default"@,
        "--no-first-run"@,
        "--no-default-browser-check"@,
    ];
    match url {
        Some(u) => base.push(u),
        None => base,
    }
}

/// The arguments of `open` that start Chrome on the dedicated profile.
pub fn chrome_profile_args(profile: &str, url: Option<&str>) -> (r: Vec<String>)
    ensures
        r.deep_view() == chrome_profile_args_of(
            profile@,
            match url {
                Some(u) => Some(u@),
                None => None,
            },
        ),
{
    let mut dir = chars_of("--user-data-dir=");
    push_str(&mut dir, profile);
    let mut r: Vec<String> = Vec::new();
    r.push(String::from_str("-a"));
    r.push(String::from_str("Google Chrome"));
    r.push(String::from_str("--args"));
    r.push(string_of(&dir));
    r.push(String::from_str("--profile-directory=Default"));
    r.push(String::from_str("--no-first-run"));
    r.push(String::from_str("--no-default-browser-check"));
    if let Some(u) = url {
        r.push(String::from_str(u));
    }
    assert(r.deep_view() =~= chrome_profile_args_of(
        profile@,
        match url {
            Some(u) => Some(u@),
            None => None,
        },
    ));
    r
}

/// `s` without its leading dots.
pub open spec fn strip_dots(s: Seq<char>) -> Seq<char>
    decreases s.len(),
{
    if s.len() > 0 && s[0] == '.' {
        strip_dots(s.drop_first())
    } else {
        s
    }
}

/// The items in order of first occurrence, each once.
pub open spec fn dedup(s: Seq<Seq<char>>) -> Seq<Seq<char>>
    decreases s.len(),
{
    if s.len() == 0 {
        Seq::empty()
    } else {
        let d = dedup(s.drop_last());
        if d.contains(s.last()) {
            d
        } else {
            d.push(s.last())
        }
    }
}

/// The cookie domains of the profile: the hosts without leading dots, each
/// once, in the order they came.
pub open spec fn cookie_domains_of(hosts: Seq<Seq<char>>) -> Seq<Seq<char>> {
    dedup(hosts.map_values(|h: Seq<char>| strip_dots(h)))
}

fn strip_dots_exec(s: &str) -> (r: Vec<char>)
    ensures
        r@ == strip_dots(s@),
{
    let c = chars_of(s);
    let n = c.len();
    let mut i: usize = 0;
    assert(c@.subrange(0, n as int) == c@);
    while i < n && c[i] == '.'
        invariant
            i <= n == c@.len(),
            c@ == s@,
            strip_dots(s@) == strip_dots(c@.subrange(i as int, n as int)),
        decreases n - i,
    {
        assert(c@.subrange(i as int, n as int).drop_first() == c@.subrange(i + 1, n as int));
        i = i + 1;
    }
    let mut r: Vec<char> = Vec::new();
    let mut j = i;
    while j < n
        invariant
            i <= j <= n == c@.len(),
            r@ == c@.subrange(i as int, j as int),
        decreases n - j,
    {
        r.push(c[j]);
        assert(c@.subrange(i as int, j + 1) == c@.subrange(i as int, j as int).push(c@[j as int]));
        j = j + 1;
    }
    r
}

fn contains_entry(list: &Vec<Vec<char>>, x: &Vec<char>) -> (r: bool)
    ensures
        r == list.deep_view().contains(x@),
{
    let mut i: usize = 0;
    while i < list.len()
        invariant
            i <= list@.len(),
            forall|k: int| 0 <= k < i ==> list.deep_view()[k] != x@,
        decreases list@.len() - i,
    {
        assert(list.deep_view()[i as int] == list@[i as int]@);
        if eq_chars(&list[i], x) {
            return true;
        }
        i = i + 1;
    }
    proof {
        if list.deep_view().contains(x@) {
            let k = choose|k: int| 0 <= k < list.deep_view().len() && list.deep_view()[k] == x@;
            assert(list.deep_view()[k] != x@);
        }
    }
    false
}

/// The cookie domains from the cookie hosts as the profile lists them
/// (leading dots dropped, duplicates dropped, order kept).
pub fn cookie_domains(hosts: &Vec<String>) -> (r: Vec<String>)
    ensures
        r.deep_view() == cookie_domains_of(hosts.deep_view()),
{
    let ghost stripped = hosts.deep_view().map_values(|h: Seq<char>| strip_dots(h));
    let mut uniq: Vec<Vec<char>> = Vec::new();
    let mut out: Vec<String> = Vec::new();
    let mut i: usize = 0;
    while i < hosts.len()
        invariant
            i <= hosts@.len(),
            stripped == hosts.deep_view().map_values(|h: Seq<char>| strip_dots(h)),
            uniq.deep_view() == dedup(stripped.take(i as int)),
            out.deep_view() == uniq.deep_view(),
        decreases hosts@.len() - i,
    {
        let d = strip_dots_exec(hosts[i].as_str());
        proof {
            assert(stripped.take(i + 1).drop_last() == stripped.take(i as int));
            assert(stripped.take(i + 1).last() == d@);
        }
        if !contains_entry(&uniq, &d) {
            let ghost u0 = uniq.deep_view();
            let ghost o0 = out.deep_view();
            out.push(string_of(&d));
            uniq.push(d);
            proof {
                lemma_chars_deep_view(d);
                assert(uniq.deep_view() =~= u0.push(d@));
                assert(out.deep_view() =~= o0.push(d@));
            }
        }
        i = i + 1;
    }
    assert(stripped.take(hosts@.len() as int) == stripped);
    out
}

/// No item occurs twice.
pub open spec fn distinct(s: Seq<Seq<char>>) -> bool {
    forall|i: int, j: int| 0 <= i < j < s.len() ==> s[i] != s[j]
}

/// Removing duplicates leaves each item once and loses none.
pub proof fn lemma_dedup(s: Seq<Seq<char>>)
    ensures
        distinct(dedup(s)),
        forall|x: Seq<char>| dedup(s).contains(x) <==> s.contains(x),
    decreases s.len(),
{
    if s.len() > 0 {
        let rest = s.drop_last();
        let v = s.last();
        lemma_dedup(rest);
        let d = dedup(rest);
        assert(s =~= rest.push(v));
        assert forall|x: Seq<char>| dedup(s).contains(x) <==> s.contains(x) by {
            vstd::seq_lib::lemma_seq_contains_after_push(rest, v, x);
            vstd::seq_lib::lemma_seq_contains_after_push(d, v, x);
        }
        if !d.contains(v) {
            let e = d.push(v);
            assert forall|i: int, j: int| 0 <= i < j < e.len() implies e[i] != e[j] by {
                if j == d.len() {
                    assert(e[i] == d[i]);
                    assert(d.contains(d[i]));
                } else {
                    assert(e[i] == d[i] && e[j] == d[j]);
                }
            }
        }
    }
}

/// The variable that holds the key of a service.
pub open spec fn api_key_var_of(service: Seq<char>) -> Option<Seq<char>> {
    if service == "anthropic"@ {
        Some("ANTHROPIC_API_KEY"@)
    } else if service == "deepgram"@ {
        Some("DEEPGRAM_API_KEY"@)
    } else {
        None
    }
}

/// The variable that holds the key of a service; other services are
/// refused with "Unknown service".
pub fn api_key_var(service: &str) -> (r: Result<&'static str, String>)
    ensures
        match r {
            Ok(v) => api_key_var_of(service@) == Some(v@),
            Err(e) => api_key_var_of(service@) is None && e@ == "Unknown service"@,
        },
{
    if str_eq(service, "anthropic") {
        Ok("ANTHROPIC_API_KEY")
    } else if str_eq(service, "deepgram") {
        Ok("DEEPGRAM_API_KEY")
    } else {
        Err(String::from_str("Unknown service"))
    }
}

/// The index of the first line that starts with `prefix`, or the number of
/// lines when none does.
pub open spec fn first_prefixed(ls: Seq<Seq<char>>, prefix: Seq<char>) -> nat
    decreases ls.len(),
{
    if ls.len() == 0 {
        0
    } else if prefix.is_prefix_of(ls[0]) {
        0
    } else {
        1 + first_prefixed(ls.drop_first(), prefix)
    }
}

/// The lines of the `.env` file after saving `key` under `var`: the first
/// line that assigns `var` is replaced, or the assignment is added last.
pub open spec fn env_lines_with_key(ls: Seq<Seq<char>>, var: Seq<char>, key: Seq<char>) -> Seq<Seq<char>> {
    let prefix = var + "="@;
    let entry = var + "="@ + key;
    let i = first_prefixed(ls, prefix);
    if i < ls.len() {
        ls.update(i as int, entry)
    } else {
        ls.push(entry)
    }
}

/// The `.env` text after saving `key` under `var`; its lines are joined by
/// `'\n'`.
pub open spec fn env_with_key(existing: Seq<char>, var: Seq<char>, key: Seq<char>) -> Seq<char> {
    join(env_lines_with_key(lines(existing), var, key), "\n"@)
}

proof fn lemma_first_prefixed_at(ls: Seq<Seq<char>>, prefix: Seq<char>, k: int)
    requires
        0 <= k <= ls.len(),
        forall|i: int| 0 <= i < k ==> !prefix.is_prefix_of(#[trigger] ls[i]),
        k == ls.len() || prefix.is_prefix_of(ls[k]),
    ensures
        first_prefixed(ls, prefix) == k,
    decreases k,
{
    if k > 0 {
        assert forall|i: int| 0 <= i < k - 1 implies !prefix.is_prefix_of(#[trigger] ls.drop_first()[i]) by {
            assert(ls.drop_first()[i] == ls[i + 1]);
        }
        if k < ls.len() {
            assert(ls.drop_first()[k - 1] == ls[k]);
        }
        lemma_first_prefixed_at(ls.drop_first(), prefix, k - 1);
    }
}

/// The `.env` text with `key` saved under `var` (see `env_with_key`).
pub fn update_env_content(existing: &str, var_name: &str, key: &str) -> (r: String)
    ensures
        r@ == env_with_key(existing@, var_name@, key@),
{
    let ex = chars_of(existing);
    let mut ls = lines_of(&ex);
    let mut prefix = chars_of(var_name);
    prefix.push('=');
    let mut entry = chars_of(var_name);
    entry.push('=');
    push_str(&mut entry, key);
    let ghost l0 = ls.deep_view();
    proof {
        assert(prefix@ =~= var_name@ + "="@) by {
            broadcast use vstd::string::group_string_axioms;
            reveal_strlit("=");
        }
        assert(entry@ =~= var_name@ + "="@ + key@) by {
            broadcast use vstd::string::group_string_axioms;
            reveal_strlit("=");
        }
    }
    let mut i: usize = 0;
    let mut pos: Option<usize> = None;
    while i < ls.len() && pos.is_none()
        invariant
            i <= ls@.len() == l0.len(),
            ls.deep_view() == l0,
            pos is None ==> forall|k: int| 0 <= k < i ==> !prefix@.is_prefix_of(#[trigger] l0[k]),
            pos matches Some(p) ==> p < l0.len() && first_prefixed(l0, prefix@) == p,
        decreases ls@.len() - i + (if pos is None { 1int } else { 0int }),
    {
        if starts_with_chars(&ls[i], &prefix) {
            proof {
                lemma_first_prefixed_at(l0, prefix@, i as int);
            }
            pos = Some(i);
        } else {
            i = i + 1;
        }
    }
    match pos {
        Some(p) => {
            ls.set(p, entry);
            proof {
                lemma_chars_deep_view(entry);
                assert(ls.deep_view() =~= l0.update(p as int, entry@));
            }
        },
        None => {
            proof {
                lemma_first_prefixed_at(l0, prefix@, l0.len() as int);
            }
            ls.push(entry);
            proof {
                lemma_chars_deep_view(entry);
                assert(ls.deep_view() =~= l0.push(entry@));
            }
        },
    }
    let sep = chars_of("\n");
    let body = join_chars(&ls, &sep);
    string_of(&body)
}

/// The value a `.env` text gives `var`: what follows `var=` on the first
/// line that starts with it.
pub open spec fn env_value(content: Seq<char>, var: Seq<char>) -> Option<Seq<char>> {
    let ls = lines(content);
    let prefix = var + "="@;
    let i = first_prefixed(ls, prefix);
    if i < ls.len() {
        Some(ls[i as int].skip(prefix.len() as int))
    } else {
        None
    }
}

/// A saved key reads back: after saving `key` under `var`, the `.env` text
/// gives `var` the value `key`. This holds for names and keys without line
/// breaks whose key does not end in a carriage return (which reading a
/// line drops).
pub proof fn lemma_saved_key_reads_back(existing: Seq<char>, var: Seq<char>, key: Seq<char>)
    requires
        forall|i: int| 0 <= i < var.len() ==> var[i] != '\n',
        forall|i: int| 0 <= i < key.len() ==> key[i] != '\n',
        !(key.len() > 0 && key.last() == '\r'),
    ensures
        env_value(env_with_key(existing, var, key), var) == Some(key),
{
    broadcast use vstd::string::group_string_axioms;
    reveal_strlit("=");
    let ls = lines(existing);
    let prefix = var + "="@;
    let entry = var + "="@ + key;
    let i = first_prefixed(ls, prefix);
    let l2 = env_lines_with_key(ls, var, key);
    lemma_lines_no_nl(existing);
    lemma_first_prefixed_props(ls, prefix);
    let pos: int = if i < ls.len() { i as int } else { ls.len() as int };
    assert(l2[pos] == entry);
    assert(l2.len() == (if i < ls.len() { ls.len() } else { ls.len() + 1 }));
    assert(prefix.is_prefix_of(entry));
    assert forall|j: int, c: int| 0 <= j < l2.len() && 0 <= c < l2[j].len() implies #[trigger] l2[j][c] != '\n' by {
        if j == pos {
            assert(l2[j] == entry);
            if c < var.len() {
                assert(entry[c] == var[c]);
            } else if c > var.len() {
                assert(entry[c] == key[c - var.len() - 1]);
            }
        } else {
            assert(l2[j] == ls[j]);
        }
    }
    lemma_lines_of_join(l2);
    let out = lines(join(l2, "\n"@));
    // the entry comes out unchanged
    assert(entry.len() > 0 && entry.last() != '\r');
    assert(out[pos] == entry) by {
        if pos < l2.len() - 1 {
            assert(l2.drop_last()[pos] == entry);
            assert(strip_cr(entry) == entry);
        }
    }
    // no earlier line starts with the prefix
    assert forall|j: int| 0 <= j < pos implies !prefix.is_prefix_of(#[trigger] out[j]) by {
        assert(l2[j] == ls[j]);
        assert(out[j] == strip_cr(ls[j]));
        if prefix.is_prefix_of(strip_cr(ls[j])) {
            assert(prefix.is_prefix_of(ls[j])) by {
                assert forall|c: int| 0 <= c < prefix.len() implies prefix[c] == ls[j][c] by {
                    assert(strip_cr(ls[j])[c] == ls[j][c]);
                }
            }
        }
    }
    lemma_first_prefixed_at(out, prefix, pos);
    assert(entry.skip(prefix.len() as int) == key);
}

/// `first_prefixed` points at the first line that starts with the prefix.
proof fn lemma_first_prefixed_props(ls: Seq<Seq<char>>, prefix: Seq<char>)
    ensures
        first_prefixed(ls, prefix) <= ls.len(),
        forall|j: int| 0 <= j < first_prefixed(ls, prefix) ==> !prefix.is_prefix_of(#[trigger] ls[j]),
        first_prefixed(ls, prefix) < ls.len() ==> prefix.is_prefix_of(ls[first_prefixed(ls, prefix) as int]),
    decreases ls.len(),
{
    if ls.len() > 0 && !prefix.is_prefix_of(ls[0]) {
        let r = ls.drop_first();
        lemma_first_prefixed_props(r, prefix);
        assert forall|j: int| 0 <= j < first_prefixed(ls, prefix) implies !prefix.is_prefix_of(#[trigger] ls[j]) by {
            if j > 0 {
                assert(ls[j] == r[j - 1]);
            }
        }
        if first_prefixed(ls, prefix) < ls.len() {
            assert(ls[first_prefixed(ls, prefix) as int] == r[first_prefixed(r, prefix) as int]);
        }
    }
}

} // verus!
