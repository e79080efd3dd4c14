//! Guarding and formatting shell commands that the agent runs.
use vstd::prelude::*;
use vstd::string::*;
use vstd::utf8::*;
use crate::text::{occurs_at, contains_seq, all_ascii, ascii_lower, in_order, in_order_chars, wild_pieces, wild_pieces_chars, wild_pieces_from, push_all, push_signed_decimal, signed_decimal, chars_of, decimal, lowercase, push_decimal, push_str, string_of, to_lowercase};

verus! {

/// Why a shell command did not produce output.
#[derive(Debug)]
pub enum BashError {
    /// The command matched a blocked pattern; the payload is the reason.
    Blocked(String),
    /// The process could not be run.
    Execution(String),
    /// The command ran longer than the given number of seconds.
    Timeout(u64),
}

/// The message of a `BashError`.
pub open spec fn bash_error_message(e: BashError) -> Seq<char> {
    match e {
        BashError::Blocked(r) => "Command blocked: "@ + r@,
        BashError::Execution(r) => "Execution failed: "@ + r@,
        BashError::Timeout(n) => "Timeout after "@ + decimal(n as nat) + " seconds"@,
    }
}

impl BashError {
    /// The human-readable message of this error.
    pub fn message(&self) -> (m: String)
        ensures
            m@ == bash_error_message(*self),
    {
        match self {
            BashError::Blocked(r) => {
                let mut m = String::from_str("Command blocked: ");
                m.append(r.as_str());
                m
            },
            BashError::Execution(r) => {
                let mut m = String::from_str("Execution failed: ");
                m.append(r.as_str());
                m
            },
            BashError::Timeout(n) => {
                let mut v = chars_of("Timeout after ");
                push_decimal(&mut v, *n);
                push_str(&mut v, " seconds");
                string_of(&v)
            },
        }
    }
}

/// Patterns that make a command refuse to run. A pattern is compared, in
/// lowercase, with the lowercase command, and `.*` in it stands for any run
/// of characters (see `pattern_hits`).
pub open spec fn blocked_patterns() -> Seq<Seq<char>> {
    seq![
        "rm -rf /"@,
        "rm -rf /*"@,
        "rm -rf ~"@,
        "rm -rf $HOME"@,
        ":(){:|:&};:"@,
        "mkfs"@,
        "dd if="@,
        "> /dev/sd"@,
        "chmod -R 777 /"@,
        "sudo rm"@,
        "sudo mkfs"@,
        "sudo dd"@,
        "nc -l"@,
        "nmap"@,
        "curl.*|.*sh"@,
        "wget.*|.*sh"@,
        "csrutil disable"@,
        "SIP"@,
    ]
}

/// Patterns that make a command run with a warning (compared as the
/// blocked patterns are).
pub open spec fn warn_patterns() -> Seq<Seq<char>> {
    seq![
        "sudo"@,
        "rm -rf"@,
        "chmod"@,
        "chown"@,
        "kill -9"@,
        "pkill"@,
        "shutdown"@,
        "reboot"@,
    ]
}

fn blocked_pattern_list() -> (v: Vec<&'static str>)
    ensures
        v@.map_values(|p: &str| p@) == blocked_patterns(),
        forall|i: int| 0 <= i < v@.len() ==> all_ascii(#[trigger] v@[i]@),
{
    proof {
        reveal_strlit("rm -rf /");
        reveal_strlit("rm -rf /*");
        reveal_strlit("rm -rf ~");
        reveal_strlit("rm -rf $HOME");
        reveal_strlit(":(){:|:&};:");
        reveal_strlit("mkfs");
        reveal_strlit("dd if=");
        reveal_strlit("> /dev/sd");
        reveal_strlit("chmod -R 777 /");
        reveal_strlit("sudo rm");
        reveal_strlit("sudo mkfs");
        reveal_strlit("sudo dd");
        reveal_strlit("nc -l");
        reveal_strlit("nmap");
        reveal_strlit("curl.*|.*sh");
        reveal_strlit("wget.*|.*sh");
        reveal_strlit("csrutil disable");
        reveal_strlit("SIP");
    }
    let v = vec![
        "rm -rf /",
        "rm -rf /*",
        "rm -rf ~",
        "rm -rf $HOME",
        ":(){:|:&};:",
        "mkfs",
        "dd if=",
        "> /dev/sd",
        "chmod -R 777 /",
        "sudo rm",
        "sudo mkfs",
        "sudo dd",
        "nc -l",
        "nmap",
        "curl.*|.*sh",
        "wget.*|.*sh",
        "csrutil disable",
        "SIP",
    ];
    assert(v@.map_values(|p: &str| p@) =~= blocked_patterns());
    v
}

fn warn_pattern_list() -> (v: Vec<&'static str>)
    ensures
        v@.map_values(|p: &str| p@) == warn_patterns(),
        forall|i: int| 0 <= i < v@.len() ==> all_ascii(#[trigger] v@[i]@),
{
    proof {
        reveal_strlit("sudo");
        reveal_strlit("rm -rf");
        reveal_strlit("chmod");
        reveal_strlit("chown");
        reveal_strlit("kill -9");
        reveal_strlit("pkill");
        reveal_strlit("shutdown");
        reveal_strlit("reboot");
    }
    let v = vec!["sudo", "rm -rf", "chmod", "chown", "kill -9", "pkill", "shutdown", "reboot"];
    assert(v@.map_values(|p: &str| p@) =~= warn_patterns());
    v
}

/// The lowercase command matches the pattern: the pieces of the lowercase
/// pattern between its `.*` wildcards occur in it in order (a pattern
/// without a wildcard is a plain substring).
pub open spec fn pattern_hits(cmd_lower: Seq<char>, pat: Seq<char>) -> bool {
    in_order(cmd_lower, wild_pieces(ascii_lower(pat)))
}

/// The first pattern that the lowercase command matches.
pub open spec fn first_hit(cmd_lower: Seq<char>, pats: Seq<Seq<char>>) -> Option<Seq<char>>
    decreases pats.len(),
{
    if pats.len() == 0 {
        None
    } else if pattern_hits(cmd_lower, pats[0]) {
        Some(pats[0])
    } else {
        first_hit(cmd_lower, pats.drop_first())
    }
}

/// `first_hit` over a list, with `prefix` in front of the pattern found.
pub open spec fn hit_message(cmd: Seq<char>, pats: Seq<Seq<char>>, prefix: Seq<char>) -> Option<
    Seq<char>,
> {
    match first_hit(lowercase(cmd), pats) {
        Some(p) => Some(prefix + p),
        None => None,
    }
}

/// Shared scan: the first of `pats` that the lowercase command matches.
fn scan_patterns(cmd_lower: &[char], pats: &Vec<&'static str>, prefix: &str) -> (r: Option<String>)
    requires
        forall|i: int| 0 <= i < pats@.len() ==> all_ascii(#[trigger] pats@[i]@),
    ensures
        match r {
            Some(m) => first_hit(cmd_lower@, pats@.map_values(|p: &str| p@)) == Some(
                m@.skip(prefix@.len() as int),
            ) && m@ == prefix@ + m@.skip(prefix@.len() as int),
            None => first_hit(cmd_lower@, pats@.map_values(|p: &str| p@)) is None,
        },
{
    let ghost all = pats@.map_values(|p: &str| p@);
    let mut i: usize = 0;
    assert(all.skip(0) == all);
    while i < pats.len()
        invariant
            i <= pats@.len(),
            all == pats@.map_values(|p: &str| p@),
            forall|k: int| 0 <= k < pats@.len() ==> all_ascii(#[trigger] pats@[k]@),
            first_hit(cmd_lower@, all) == first_hit(cmd_lower@, all.skip(i as int)),
        decreases pats@.len() - i,
    {
        let p = pats[i];
        let lp = to_lowercase(p);
        let lpc = chars_of(lp.as_str());
        let pieces = wild_pieces_chars(&lpc);
        assert(all.skip(i as int)[0] == p@);
        assert(all_ascii(pats@[i as int]@));
        if in_order_chars(cmd_lower, &pieces) {
            let mut m = String::from_str(prefix);
            m.append(p);
            assert(m@.skip(prefix@.len() as int) =~= p@);
            return Some(m);
        }
        assert(all.skip(i as int).drop_first() == all.skip(i + 1));
        i = i + 1;
    }
    None
}

/// Once one of the patterns matches, the scan finds a pattern.
pub proof fn lemma_first_hit_some(s: Seq<char>, pats: Seq<Seq<char>>, k: int)
    requires
        0 <= k < pats.len(),
        pattern_hits(s, pats[k]),
    ensures
        first_hit(s, pats) is Some,
    decreases k,
{
    if k > 0 && !pattern_hits(s, pats[0]) {
        assert(pats.drop_first()[k - 1] == pats[k]);
        lemma_first_hit_some(s, pats.drop_first(), k - 1);
    }
}

/// The scan names the first pattern that matches.
pub proof fn lemma_first_hit_at(s: Seq<char>, pats: Seq<Seq<char>>, k: int)
    requires
        0 <= k < pats.len(),
        pattern_hits(s, pats[k]),
        forall|j: int| 0 <= j < k ==> !pattern_hits(s, #[trigger] pats[j]),
    ensures
        first_hit(s, pats) == Some(pats[k]),
    decreases k,
{
    if k > 0 {
        assert(!pattern_hits(s, pats[0]));
        assert(pats.drop_first()[k - 1] == pats[k]);
        assert forall|j: int| 0 <= j < k - 1 implies !pattern_hits(s, #[trigger] pats.drop_first()[j]) by {
            assert(pats.drop_first()[j] == pats[j + 1]);
        }
        lemma_first_hit_at(s, pats.drop_first(), k - 1);
    }
}

/// The pieces of the piped-download patterns: the fetch command, the pipe,
/// and the shell.
proof fn lemma_download_pieces()
    ensures
        wild_pieces(ascii_lower("curl.*|.*sh"@)) == seq!["curl"@, "|"@, "sh"@],
        wild_pieces(ascii_lower("wget.*|.*sh"@)) == seq!["wget"@, "|"@, "sh"@],
        blocked_patterns()[14] == "curl.*|.*sh"@,
        blocked_patterns()[15] == "wget.*|.*sh"@,
{
    reveal_strlit("curl.*|.*sh");
    reveal_strlit("wget.*|.*sh");
    reveal_strlit("curl");
    reveal_strlit("wget");
    reveal_strlit("|");
    reveal_strlit("sh");
    let c = seq!['c', 'u', 'r', 'l', '.', '*', '|', '.', '*', 's', 'h'];
    let w = seq!['w', 'g', 'e', 't', '.', '*', '|', '.', '*', 's', 'h'];
    assert(ascii_lower(c) =~= c);
    assert(ascii_lower(w) =~= w);
    let dot_star = seq!['.', '*'];
    let sh = seq!['s', 'h'];
    let pipe = seq!['|'];
    let tail = pipe + dot_star + sh;
    let e = Seq::<char>::empty();
    lemma_wild_plain(sh, e);
    lemma_wild_split(pipe, sh, e);
    assert(e + pipe =~= pipe);
    assert(e + sh =~= sh);
    let curl = seq!['c', 'u', 'r', 'l'];
    let wget = seq!['w', 'g', 'e', 't'];
    assert(c =~= curl + dot_star + tail);
    assert(w =~= wget + dot_star + tail);
    lemma_wild_split(curl, tail, e);
    lemma_wild_split(wget, tail, e);
    assert(e + curl =~= curl);
    assert(e + wget =~= wget);
    assert(wild_pieces(c) =~= seq![curl, pipe, sh]);
    assert(wild_pieces(w) =~= seq![wget, pipe, sh]);
    assert("curl.*|.*sh"@ =~= c);
    assert("wget.*|.*sh"@ =~= w);
    assert("curl"@ =~= curl);
    assert("wget"@ =~= wget);
    assert("|"@ =~= pipe);
    assert("sh"@ =~= sh);
    assert(seq!["curl"@, "|"@, "sh"@] =~= seq![curl, pipe, sh]);
    assert(seq!["wget"@, "|"@, "sh"@] =~= seq![wget, pipe, sh]);
}

/// A pattern part without a dot is a single piece.
proof fn lemma_wild_plain(a: Seq<char>, cur: Seq<char>)
    requires
        forall|i: int| 0 <= i < a.len() ==> a[i] != '.',
    ensures
        wild_pieces_from(a, cur) == seq![cur + a],
    decreases a.len(),
{
    if a.len() == 0 {
        assert(cur + a =~= cur);
    } else {
        lemma_wild_plain(a.drop_first(), cur.push(a[0]));
        assert(cur.push(a[0]) + a.drop_first() =~= cur + a);
    }
}

/// A pattern part without a dot, then `.*`, ends the current piece.
proof fn lemma_wild_split(a: Seq<char>, b: Seq<char>, cur: Seq<char>)
    requires
        forall|i: int| 0 <= i < a.len() ==> a[i] != '.',
    ensures
        wild_pieces_from(a + seq!['.', '*'] + b, cur)
            == seq![cur + a] + wild_pieces_from(b, Seq::empty()),
    decreases a.len(),
{
    let p = a + seq!['.', '*'] + b;
    if a.len() == 0 {
        assert(p[0] == '.' && p[1] == '*');
        assert(p.skip(2) =~= b);
        assert(cur + a =~= cur);
    } else {
        assert(p[0] == a[0]);
        assert(p.drop_first() =~= a.drop_first() + seq!['.', '*'] + b);
        lemma_wild_split(a.drop_first(), b, cur.push(a[0]));
        assert(cur.push(a[0]) + a.drop_first() =~= cur + a);
    }
}

/// A command that downloads with `curl` or `wget` and pipes what it got
/// into `sh` is refused. Unless an earlier blocked pattern already matches,
/// the reason names the download pattern.
pub proof fn lemma_piped_download_blocked(cmd: Seq<char>)
    requires
        in_order(lowercase(cmd), seq!["curl"@, "|"@, "sh"@])
            || in_order(lowercase(cmd), seq!["wget"@, "|"@, "sh"@]),
    ensures
        hit_message(cmd, blocked_patterns(), "Command contains blocked pattern: "@) is Some,
        in_order(lowercase(cmd), seq!["curl"@, "|"@, "sh"@])
            && (forall|j: int| 0 <= j < 14 ==> !pattern_hits(lowercase(cmd), #[trigger] blocked_patterns()[j]))
            ==> hit_message(cmd, blocked_patterns(), "Command contains blocked pattern: "@)
                == Some("Command contains blocked pattern: "@ + "curl.*|.*sh"@),
        in_order(lowercase(cmd), seq!["wget"@, "|"@, "sh"@])
            && (forall|j: int| 0 <= j < 15 ==> !pattern_hits(lowercase(cmd), #[trigger] blocked_patterns()[j]))
            ==> hit_message(cmd, blocked_patterns(), "Command contains blocked pattern: "@)
                == Some("Command contains blocked pattern: "@ + "wget.*|.*sh"@),
{
    lemma_download_pieces();
    let lc = lowercase(cmd);
    let pats = blocked_patterns();
    if in_order(lc, seq!["curl"@, "|"@, "sh"@]) {
        assert(pattern_hits(lc, pats[14]));
        lemma_first_hit_some(lc, pats, 14);
        if forall|j: int| 0 <= j < 14 ==> !pattern_hits(lc, #[trigger] pats[j]) {
            lemma_first_hit_at(lc, pats, 14);
        }
    }
    if in_order(lc, seq!["wget"@, "|"@, "sh"@]) {
        assert(pattern_hits(lc, pats[15]));
        lemma_first_hit_some(lc, pats, 15);
        if forall|j: int| 0 <= j < 15 ==> !pattern_hits(lc, #[trigger] pats[j]) {
            lemma_first_hit_at(lc, pats, 15);
        }
    }
}

/// Runs shell commands with a guard against destructive patterns.
pub struct BashExecutor {
    timeout_secs: u64,
    working_dir: Option<String>,
}

impl BashExecutor {
    /// The timeout, in seconds, the executor was configured with.
    pub closed spec fn spec_timeout(&self) -> u64 {
        self.timeout_secs
    }

    /// The directory commands run in, if one was set.
    pub closed spec fn spec_working_dir(&self) -> Option<Seq<char>> {
        match self.working_dir {
            Some(d) => Some(d@),
            None => None,
        }
    }

    /// A fresh executor: 30 s timeout, no working directory.
    pub fn new() -> (r: Self)
        ensures
            r.spec_timeout() == 30,
            r.spec_working_dir() is None,
    {
        BashExecutor { timeout_secs: 30, working_dir: None }
    }

    /// Sets the directory later commands run in.
    pub fn set_working_dir(&mut self, dir: String)
        ensures
            final(self).spec_working_dir() == Some(dir@),
            final(self).spec_timeout() == old(self).spec_timeout(),
    {
        self.working_dir = Some(dir);
    }

    /// Forgets the working directory.
    pub fn restart(&mut self)
        ensures
            final(self).spec_working_dir() is None,
            final(self).spec_timeout() == old(self).spec_timeout(),
    {
        self.working_dir = None;
    }

    /// The working directory, if any.
    pub fn working_dir(&self) -> (r: Option<&str>)
        ensures
            match r {
                Some(d) => self.spec_working_dir() == Some(d@),
                None => self.spec_working_dir() is None,
            },
    {
        match &self.working_dir {
            Some(d) => Some(d.as_str()),
            None => None,
        }
    }

    /// The configured timeout in seconds.
    pub fn timeout_secs(&self) -> (r: u64)
        ensures
            r == self.spec_timeout(),
    {
        self.timeout_secs
    }

    /// The reason a command is refused: the first blocked pattern that its
    /// lowercase form matches.
    pub fn is_blocked(&self, command: &str) -> (r: Option<String>)
        ensures
            match r {
                Some(m) => hit_message(command@, blocked_patterns(), "Command contains blocked pattern: "@)
                    == Some(m@),
                None => hit_message(command@, blocked_patterns(), "Command contains blocked pattern: "@) is None,
            },
    {
        let lower = to_lowercase(command);
        let lc = chars_of(lower.as_str());
        let pats = blocked_pattern_list();
        scan_patterns(&lc, &pats, "Command contains blocked pattern: ")
    }

    /// The warning for a command that uses a risky pattern, if any.
    pub fn has_warning(&self, command: &str) -> (r: Option<String>)
        ensures
            match r {
                Some(m) => hit_message(command@, warn_patterns(), "⚠️ Command uses: "@) == Some(m@),
                None => hit_message(command@, warn_patterns(), "⚠️ Command uses: "@) is None,
            },
    {
        let lower = to_lowercase(command);
        let lc = chars_of(lower.as_str());
        let pats = warn_pattern_list();
        scan_patterns(&lc, &pats, "⚠️ Command uses: ")
    }
}


/// The outcome of a command that ran.
#[derive(Debug, Clone)]
pub struct BashOutput {
    pub stdout: String,
    pub stderr: String,
    pub exit_code: i32,
}

/// The text the model receives for a finished command: stdout, then
/// `stderr: ...` on its own line, then `(exit code: N)` for a non-zero code,
/// or `(no output)` when all of these are absent.
pub open spec fn output_text(stdout: Seq<char>, stderr: Seq<char>, exit_code: int) -> Seq<char> {
    let a = stdout;
    let b = if stderr.len() == 0 {
        a
    } else {
        (if a.len() == 0 {
            a
        } else {
            a + "\n"@
        }) + "stderr: "@ + stderr
    };
    let c = if exit_code == 0 {
        b
    } else {
        (if b.len() == 0 {
            b
        } else {
            b + "\n"@
        }) + "(exit code: "@ + signed_decimal(exit_code) + ")"@
    };
    if c.len() == 0 {
        "(no output)"@
    } else {
        c
    }
}

/// What the model reads of a finished command: the text starts with the
/// command's standard output, holds a non-empty standard error after
/// `stderr: `, and ends with `(exit code: N)` whenever the exit code N is
/// not zero, whatever the outputs are.
pub proof fn lemma_output_text_reports(stdout: Seq<char>, stderr: Seq<char>, code: int)
    ensures
        stdout.is_prefix_of(output_text(stdout, stderr, code)),
        stderr.len() > 0 ==> contains_seq(output_text(stdout, stderr, code), "stderr: "@ + stderr),
        code != 0 ==> ("(exit code: "@ + signed_decimal(code) + ")"@).is_suffix_of(
            output_text(stdout, stderr, code),
        ),
{
    let t = output_text(stdout, stderr, code);
    let a = stdout;
    let sep_a = if a.len() == 0 { a } else { a + "\n"@ };
    let b = if stderr.len() == 0 { a } else { sep_a + "stderr: "@ + stderr };
    let suf = "(exit code: "@ + signed_decimal(code) + ")"@;
    let sep_b = if b.len() == 0 { b } else { b + "\n"@ };
    let c = if code == 0 { b } else { sep_b + suf };
    assert(a.is_prefix_of(sep_a)) by {
        assert forall|i: int| 0 <= i < a.len() implies a[i] == sep_a[i] by {}
    }
    assert(a.is_prefix_of(b)) by {
        if stderr.len() > 0 {
            assert forall|i: int| 0 <= i < a.len() implies a[i] == b[i] by {
                assert(sep_a[i] == a[i]);
            }
        }
    }
    assert(a.is_prefix_of(c)) by {
        if code != 0 {
            assert forall|i: int| 0 <= i < a.len() implies a[i] == c[i] by {
                assert(b[i] == a[i]);
                assert(sep_b[i] == b[i]);
            }
        }
    }
    if code != 0 {
        assert(suf.len() > 0) by {
            reveal_strlit(")");
        }
        assert(c.len() > 0);
        assert(t == c);
        assert(c.subrange(c.len() - suf.len(), c.len() as int) =~= suf);
        assert(suf.is_suffix_of(t));
    } else if c.len() == 0 {
        assert(a.len() == 0);
        assert(a.is_prefix_of(t));
    }
    if stderr.len() > 0 {
        let e = "stderr: "@ + stderr;
        let k = sep_a.len() as int;
        assert(b.subrange(k, k + e.len()) =~= e);
        assert(b.len() > 0);
        if code != 0 {
            assert(c.subrange(k, k + e.len()) =~= e);
            assert(occurs_at(t, e, k));
        } else {
            assert(occurs_at(t, e, k));
        }
    }
}

impl BashOutput {
    /// The text the model receives for this output (see `output_text`).
    pub fn to_string(&self) -> (r: String)
        ensures
            r@ == output_text(self.stdout@, self.stderr@, self.exit_code as int),
    {
        let mut result: Vec<char> = Vec::new();
        let out = chars_of(self.stdout.as_str());
        let err = chars_of(self.stderr.as_str());
        if out.len() > 0 {
            push_all(&mut result, &out);
        }
        assert(result@ == self.stdout@);
        if err.len() > 0 {
            if result.len() > 0 {
                push_str(&mut result, "\n");
            }
            push_str(&mut result, "stderr: ");
            push_all(&mut result, &err);
        }
        if self.exit_code != 0 {
            if result.len() > 0 {
                push_str(&mut result, "\n");
            }
            push_str(&mut result, "(exit code: ");
            push_signed_decimal(&mut result, self.exit_code as i64);
            push_str(&mut result, ")");
        }
        if result.len() == 0 {
            return String::from_str("(no output)");
        }
        string_of(&result)
    }

    /// Builds the output of a finished process: stdout is cut to 5000 bytes
    /// and stderr to 2000 bytes (see `truncate_output`).
    pub fn from_process(stdout: &str, stderr: &str, exit_code: i32) -> (r: BashOutput)
        requires
            cut_ok(stdout@, 5000),
            cut_ok(stderr@, 2000),
        ensures
            r.stdout@ == truncated(stdout@, 5000),
            r.stderr@ == truncated(stderr@, 2000),
            r.exit_code == exit_code,
    {
        BashOutput {
            stdout: truncate_output(stdout, 5000),
            stderr: truncate_output(stderr, 2000),
            exit_code,
        }
    }
}

/// Cutting `s` after `max` bytes lands on a character boundary (or no cut
/// is needed); slicing a `str` elsewhere panics.
pub open spec fn cut_ok(s: Seq<char>, max: nat) -> bool {
    encode_utf8(s).len() > max ==> is_char_boundary(encode_utf8(s), max as int)
}

/// The characters that make up the first `max` bytes of `s`.
pub open spec fn byte_prefix(s: Seq<char>, max: nat) -> Seq<char> {
    decode_utf8(encode_utf8(s).subrange(0, max as int))
}

/// `s` when it has at most `max` bytes, else its first `max` bytes followed
/// by `...` and a note with the full byte length.
pub open spec fn truncated(s: Seq<char>, max: nat) -> Seq<char> {
    if encode_utf8(s).len() <= max {
        s
    } else {
        byte_prefix(s, max) + "...\n[truncated, "@ + decimal(encode_utf8(s).len()) + " total chars]"@
    }
}

/// Shortens `s` to `max` bytes with a note of its length.
pub fn truncate_output(s: &str, max_chars: usize) -> (r: String)
    requires
        cut_ok(s@, max_chars as nat),
    ensures
        r@ == truncated(s@, max_chars as nat),
{
    let n = s.as_bytes().len();
    if n <= max_chars {
        let r = s.to_owned();
        assert(r@ == s@);
        return r;
    }
    let (head, _tail) = s.split_at(max_chars);
    proof {
        broadcast use vstd::utf8::encode_utf8_decode_utf8;
        assert(head@ == decode_utf8(encode_utf8(head@)));
    }
    let mut v = chars_of(head);
    push_str(&mut v, "...\n[truncated, ");
    push_decimal(&mut v, n as u64);
    push_str(&mut v, " total chars]");
    string_of(&v)
}

/// The first `max` bytes of a string whose cut is on a boundary decode to
/// a prefix of it, and encode to exactly `max` bytes.
pub proof fn lemma_byte_prefix(s: Seq<char>, max: nat)
    requires
        cut_ok(s, max),
        encode_utf8(s).len() > max,
    ensures
        byte_prefix(s, max).is_prefix_of(s),
        encode_utf8(byte_prefix(s, max)).len() == max,
{
    broadcast use vstd::utf8::encode_utf8_decode_utf8, vstd::utf8::encode_utf8_valid_utf8,
        vstd::utf8::decode_utf8_split, vstd::utf8::valid_utf8_split,
        vstd::utf8::decode_utf8_encode_utf8;

    let b = encode_utf8(s);
    assert(decode_utf8(b) == s);
    assert(b.subrange(0, max as int) + b.subrange(max as int, b.len() as int) == b);
    assert(decode_utf8(b) == decode_utf8(b.subrange(0, max as int)) + decode_utf8(
        b.subrange(max as int, b.len() as int),
    ));
    assert(valid_utf8(b.subrange(0, max as int)));
}

/// Whether a command may run: refused with the blocked reason, else
/// allowed together with the warning to log, if any.
pub fn check_command(executor: &BashExecutor, command: &str) -> (r: Result<Option<String>, BashError>)
    ensures
        match r {
            Err(BashError::Blocked(m)) => hit_message(command@, blocked_patterns(), "Command contains blocked pattern: "@)
                == Some(m@),
            Err(_) => false,
            Ok(w) => hit_message(command@, blocked_patterns(), "Command contains blocked pattern: "@) is None
                && match w {
                Some(m) => hit_message(command@, warn_patterns(), "⚠️ Command uses: "@) == Some(m@),
                None => hit_message(command@, warn_patterns(), "⚠️ Command uses: "@) is None,
            },
        },
{
    if let Some(reason) = executor.is_blocked(command) {
        return Err(BashError::Blocked(reason));
    }
    Ok(executor.has_warning(command))
}

} // verus!
