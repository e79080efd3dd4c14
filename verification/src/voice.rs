//! Voice input and output: the push-to-talk and continuous transcription
//! sessions, and the cache of synthesized speech.
use vstd::prelude::*;
use crate::media::{base64_of, encode_base64};
use crate::text::{chars_of, push_str, str_eq, string_of};

verus! {

/// A transcript fragment of the continuous mode, as the window receives it.
#[derive(Debug, Clone)]
pub struct TranscriptionEvent {
    pub text: String,
    pub is_final: bool,
}

/// The event for a fragment that the continuous mode received; there is
/// none for an empty fragment.
pub fn transcription_event(text: &str, is_final: bool) -> (r: Option<TranscriptionEvent>)
    ensures
        match r {
            Some(e) => text@.len() > 0 && e.text@ == text@ && e.is_final == is_final,
            None => text@.len() == 0,
        },
{
    let c = chars_of(text);
    if c.len() == 0 {
        None
    } else {
        Some(TranscriptionEvent { text: string_of(&c), is_final })
    }
}

/// `text` after `acc`, separated by one space unless `acc` is empty.
pub open spec fn joined(acc: Seq<char>, text: Seq<char>) -> Seq<char> {
    if acc.len() == 0 {
        text
    } else {
        acc + seq![' '] + text
    }
}

/// A push-to-talk session: whether it records, the final transcripts it has
/// gathered, and the number of the latest session.
pub struct PushToTalkSession {
    running: bool,
    accumulated: Vec<char>,
    session_id: u64,
}

impl PushToTalkSession {
    /// Whether a session is recording.
    pub closed spec fn running(&self) -> bool {
        self.running
    }

    /// The final transcripts gathered so far.
    pub closed spec fn text(&self) -> Seq<char> {
        self.accumulated@
    }

    /// The number of the latest session (0 before the first).
    pub closed spec fn id(&self) -> nat {
        self.session_id as nat
    }

    pub fn new() -> (r: Self)
        ensures
            !r.running(),
            r.text() == Seq::<char>::empty(),
            r.id() == 0,
    {
        PushToTalkSession { running: false, accumulated: Vec::new(), session_id: 0 }
    }

    pub fn is_running(&self) -> (r: bool)
        ensures
            r == self.running(),
    {
        self.running
    }

    /// The number of the latest session.
    pub fn session_id(&self) -> (r: u64)
        ensures
            r == self.id(),
    {
        self.session_id
    }

    /// Starts a new session with an empty transcript and the next number;
    /// refused while one is recording.
    pub fn start(&mut self) -> (r: Result<u64, String>)
        requires
            old(self).running() || old(self).id() < u64::MAX,
        ensures
            old(self).running() ==> (r matches Err(e) && e@ == "already running"@ && *final(self)
                == *old(self)),
            !old(self).running() ==> (r == Ok::<u64, String>((old(self).id() + 1) as u64)
                && final(self).running() && final(self).text() == Seq::<char>::empty()
                && final(self).id() == old(self).id() + 1),
    {
        if self.running {
            return Err(String::from_str("already running"));
        }
        self.session_id = self.session_id + 1;
        self.accumulated = Vec::new();
        self.running = true;
        Ok(self.session_id)
    }

    /// A transcript fragment arrived. A final one is added to the
    /// transcript; an interim one is only shown after it. Returns the text to
    /// show, or nothing for an empty fragment.
    pub fn transcript(&mut self, text: &str, is_final: bool) -> (r: Option<String>)
        ensures
            final(self).running() == old(self).running(),
            final(self).id() == old(self).id(),
            text@.len() == 0 ==> (r is None && final(self).text() == old(self).text()),
            text@.len() > 0 && is_final ==> (final(self).text() == joined(old(self).text(), text@)
                && (r matches Some(d) && d@ == final(self).text())),
            text@.len() > 0 && !is_final ==> (final(self).text() == old(self).text()
                && (r matches Some(d) && d@ == joined(old(self).text(), text@))),
    {
        let t = chars_of(text);
        if t.len() == 0 {
            return None;
        }
        if is_final {
            if self.accumulated.len() > 0 {
                self.accumulated.push(' ');
            }
            push_str(&mut self.accumulated, text);
            Some(string_of(&self.accumulated))
        } else {
            let mut shown: Vec<char> = Vec::new();
            if self.accumulated.len() > 0 {
                let mut i: usize = 0;
                while i < self.accumulated.len()
                    invariant
                        i <= self.accumulated@.len(),
                        shown@ == self.accumulated@.take(i as int),
                    decreases self.accumulated@.len() - i,
                {
                    shown.push(self.accumulated[i]);
                    assert(self.accumulated@.take(i + 1) == self.accumulated@.take(i as int).push(
                        self.accumulated@[i as int],
                    ));
                    i = i + 1;
                }
                assert(self.accumulated@.take(self.accumulated@.len() as int) == self.accumulated@);
                shown.push(' ');
            }
            push_str(&mut shown, text);
            Some(string_of(&shown))
        }
    }

    /// Stops recording; returns the number of the session. Stopping takes
    /// two calls around a wait for the last final transcripts: this one
    /// ends the recording, and `finish_stop` then hands out the transcript.
    /// Final transcripts that arrive in between are still gathered.
    pub fn stop(&mut self) -> (r: u64)
        ensures
            r == old(self).id(),
            !final(self).running(),
            final(self).text() == old(self).text(),
            final(self).id() == old(self).id(),
    {
        self.running = false;
        self.session_id
    }

    /// Ends a stop once the last transcripts are in: returns the gathered
    /// transcript with the number of the session, and empties the
    /// transcript (so a second call returns an empty text).
    pub fn finish_stop(&mut self) -> (r: (String, u64))
        ensures
            r.0@ == old(self).text(),
            r.1 == old(self).id(),
            final(self).text() == Seq::<char>::empty(),
            final(self).running() == old(self).running(),
            final(self).id() == old(self).id(),
    {
        let text = string_of(&self.accumulated);
        self.accumulated = Vec::new();
        (text, self.session_id)
    }
}

/// The transcript that final fragments build, one after the other.
pub open spec fn gathered(acc: Seq<char>, fragments: Seq<Seq<char>>) -> Seq<char>
    decreases fragments.len(),
{
    if fragments.len() == 0 {
        acc
    } else {
        let prev = gathered(acc, fragments.drop_last());
        if fragments.last().len() == 0 {
            prev
        } else {
            joined(prev, fragments.last())
        }
    }
}

/// The fragments that are not empty, in order.
pub open spec fn non_empty(fragments: Seq<Seq<char>>) -> Seq<Seq<char>>
    decreases fragments.len(),
{
    if fragments.len() == 0 {
        Seq::empty()
    } else if fragments.last().len() == 0 {
        non_empty(fragments.drop_last())
    } else {
        non_empty(fragments.drop_last()).push(fragments.last())
    }
}

/// From an empty transcript, the final fragments of a session gather into
/// the non-empty ones joined by single spaces.
pub proof fn lemma_gathered_is_join(fragments: Seq<Seq<char>>)
    ensures
        gathered(Seq::empty(), fragments) == crate::text::join(non_empty(fragments), seq![' ']),
    decreases fragments.len(),
{
    if fragments.len() > 0 {
        let rest = fragments.drop_last();
        lemma_gathered_is_join(rest);
        lemma_join_non_empty_len(rest);
        let ne = non_empty(rest);
        if fragments.last().len() > 0 {
            let ne2 = ne.push(fragments.last());
            assert(ne2.drop_last() == ne);
            if ne.len() == 0 {
                assert(crate::text::join(ne2, seq![' ']) == fragments.last());
            }
        }
    }
}

/// The join of non-empty fragments is empty exactly when there are none.
proof fn lemma_join_non_empty_len(fragments: Seq<Seq<char>>)
    ensures
        (crate::text::join(non_empty(fragments), seq![' ']).len() == 0) == (non_empty(fragments).len()
            == 0),
        forall|i: int| 0 <= i < non_empty(fragments).len() ==> #[trigger] non_empty(fragments)[i].len() > 0,
    decreases fragments.len(),
{
    if fragments.len() > 0 {
        let rest = fragments.drop_last();
        lemma_join_non_empty_len(rest);
        if fragments.last().len() > 0 {
            let ne = non_empty(rest);
            let ne2 = ne.push(fragments.last());
            assert(ne2.drop_last() == ne);
            assert forall|i: int| 0 <= i < ne2.len() implies #[trigger] ne2[i].len() > 0 by {
                if i < ne.len() {
                    assert(ne2[i] == ne[i]);
                }
            }
        }
    }
}

/// The continuous transcription mode: only whether it runs.
pub struct VoiceSession {
    running: bool,
}

impl VoiceSession {
    /// Whether the continuous mode runs.
    pub closed spec fn running(&self) -> bool {
        self.running
    }

    pub fn new() -> (r: Self)
        ensures
            !r.running(),
    {
        VoiceSession { running: false }
    }

    pub fn is_running(&self) -> (r: bool)
        ensures
            r == self.running(),
    {
        self.running
    }

    /// Stops the mode (also when its stream has ended).
    pub fn stop(&mut self)
        ensures
            !final(self).running(),
    {
        self.running = false;
    }

    /// Starts the mode; refused while it runs.
    pub fn start(&mut self) -> (r: Result<(), String>)
        ensures
            old(self).running() ==> (r matches Err(e) && e@ == "already running"@
                && final(self).running()),
            !old(self).running() ==> (r is Ok && final(self).running()),
    {
        if self.running {
            return Err(String::from_str("already running"));
        }
        self.running = true;
        Ok(())
    }
}

/// How many synthesized texts the speech cache keeps.
pub const TTS_CACHE_LIMIT: usize = 50;

/// The cached texts and their audio, as character sequences.
pub open spec fn cache_view(v: Seq<(String, String)>) -> Seq<(Seq<char>, Seq<char>)> {
    v.map_values(|e: (String, String)| (e.0@, e.1@))
}

/// Some entry has the key `k`.
pub open spec fn has_key(s: Seq<(Seq<char>, Seq<char>)>, k: Seq<char>) -> bool {
    exists|i: int| 0 <= i < s.len() && #[trigger] s[i].0 == k
}

/// The position of the entry with the key `k` (meaningful when there is one).
pub open spec fn key_pos(s: Seq<(Seq<char>, Seq<char>)>, k: Seq<char>) -> int {
    choose|i: int| 0 <= i < s.len() && #[trigger] s[i].0 == k
}

/// The audio cached for `k`, if any.
pub open spec fn lookup(s: Seq<(Seq<char>, Seq<char>)>, k: Seq<char>) -> Option<Seq<char>> {
    if has_key(s, k) {
        Some(s[key_pos(s, k)].1)
    } else {
        None
    }
}

/// No key occurs twice.
pub open spec fn keys_distinct(s: Seq<(Seq<char>, Seq<char>)>) -> bool {
    forall|i: int, j: int| 0 <= i < j < s.len() ==> #[trigger] s[i].0 != #[trigger] s[j].0
}

/// The entries that an insertion starts from: the oldest is dropped when
/// the cache is full.
pub open spec fn before_insert(s: Seq<(Seq<char>, Seq<char>)>) -> Seq<(Seq<char>, Seq<char>)> {
    if s.len() >= TTS_CACHE_LIMIT {
        s.drop_first()
    } else {
        s
    }
}

/// The entries after inserting `k` with audio `a`: an entry with that key
/// gets the new audio, otherwise a new entry comes last.
pub open spec fn inserted(s: Seq<(Seq<char>, Seq<char>)>, k: Seq<char>, a: Seq<char>) -> Seq<(Seq<char>, Seq<char>)> {
    let base = before_insert(s);
    if has_key(base, k) {
        base.update(key_pos(base, k), (k, a))
    } else {
        base.push((k, a))
    }
}

/// Synthesized speech, by the text it speaks, at most `TTS_CACHE_LIMIT`
/// entries.
pub struct TtsCache {
    entries: Vec<(String, String)>,
}

impl View for TtsCache {
    type V = Seq<(Seq<char>, Seq<char>)>;

    closed spec fn view(&self) -> Seq<(Seq<char>, Seq<char>)> {
        cache_view(self.entries@)
    }
}

impl TtsCache {
    /// At most `TTS_CACHE_LIMIT` entries, no text twice.
    pub open spec fn wf(&self) -> bool {
        &&& self@.len() <= TTS_CACHE_LIMIT
        &&& keys_distinct(self@)
    }

    pub fn new() -> (r: Self)
        ensures
            r.wf(),
            r@ == Seq::<(Seq<char>, Seq<char>)>::empty(),
    {
        let r = TtsCache { entries: Vec::new() };
        assert(r@ =~= Seq::<(Seq<char>, Seq<char>)>::empty());
        r
    }

    /// The number of cached texts.
    pub fn len(&self) -> (r: usize)
        ensures
            r == self@.len(),
    {
        self.entries.len()
    }

    fn find(&self, text: &str) -> (r: Option<usize>)
        ensures
            match r {
                Some(j) => j < self@.len() && self@[j as int].0 == text@,
                None => !has_key(self@, text@),
            },
    {
        let mut i: usize = 0;
        while i < self.entries.len()
            invariant
                i <= self.entries@.len(),
                self@ == cache_view(self.entries@),
                forall|k: int| 0 <= k < i ==> self@[k].0 != text@,
            decreases self.entries@.len() - i,
        {
            if str_eq(self.entries[i].0.as_str(), text) {
                return Some(i);
            }
            i = i + 1;
        }
        None
    }

    /// The audio cached for `text`.
    pub fn get(&self, text: &str) -> (r: Option<String>)
        requires
            self.wf(),
        ensures
            match r {
                Some(a) => lookup(self@, text@) == Some(a@),
                None => lookup(self@, text@) is None,
            },
    {
        match self.find(text) {
            Some(j) => {
                let a = self.entries[j].1.clone();
                proof {
                    let p = key_pos(self@, text@);
                    assert(0 <= p < self@.len() && self@[p].0 == text@);
                    assert(p == j as int);
                }
                Some(a)
            },
            None => None,
        }
    }

    /// Caches `audio` for `text`. When the cache is full the oldest entry
    /// goes first. Afterwards `text` finds `audio`, and every other text
    /// finds what it found before, unless it was the entry that went.
    pub fn insert(&mut self, text: &str, audio: String)
        requires
            old(self).wf(),
        ensures
            final(self).wf(),
            final(self)@ == inserted(old(self)@, text@, audio@),
            lookup(final(self)@, text@) == Some(audio@),
            forall|k: Seq<char>|
                k != text@ ==> lookup(final(self)@, k) == lookup(before_insert(old(self)@), k),
    {
        let ghost s0 = self@;
        if self.entries.len() >= TTS_CACHE_LIMIT {
            self.entries.remove(0);
            assert(self@ =~= s0.drop_first());
        }
        let ghost base = self@;
        assert(base == before_insert(s0));
        assert(keys_distinct(base)) by {
            if s0.len() >= TTS_CACHE_LIMIT {
                assert forall|i: int, j: int| 0 <= i < j < base.len() implies #[trigger] base[i].0
                    != #[trigger] base[j].0 by {
                    assert(base[i] == s0[i + 1]);
                    assert(base[j] == s0[j + 1]);
                }
            }
        }
        let key = String::from_str(text);
        match self.find(text) {
            Some(j) => {
                self.entries.set(j, (key, audio));
                proof {
                    let p = key_pos(base, text@);
                    assert(0 <= p < base.len() && base[p].0 == text@);
                    assert(p == j as int);
                    assert(self@ =~= base.update(p, (text@, audio@)));
                    lemma_lookup_after_update(base, p, text@, audio@);
                }
            },
            None => {
                self.entries.push((key, audio));
                proof {
                    assert(self@ =~= base.push((text@, audio@)));
                    lemma_lookup_after_push(base, text@, audio@);
                }
            },
        }
    }

    /// Caches the audio bytes as base64 text for `text` (see `insert`) and
    /// returns that text.
    pub fn store(&mut self, text: &str, audio: &[u8]) -> (r: String)
        requires
            old(self).wf(),
            audio@.len() <= isize::MAX,
        ensures
            r@ == base64_of(audio@),
            final(self).wf(),
            final(self)@ == inserted(old(self)@, text@, r@),
    {
        let encoded = encode_base64(audio);
        let kept = encoded.clone();
        self.insert(text, kept);
        encoded
    }
}

/// Updating the entry of `k` makes `k` find the new audio and keeps what
/// every other key finds.
proof fn lemma_lookup_after_update(s: Seq<(Seq<char>, Seq<char>)>, p: int, k: Seq<char>, a: Seq<char>)
    requires
        keys_distinct(s),
        0 <= p < s.len(),
        s[p].0 == k,
    ensures
        keys_distinct(s.update(p, (k, a))),
        lookup(s.update(p, (k, a)), k) == Some(a),
        forall|k2: Seq<char>| k2 != k ==> lookup(s.update(p, (k, a)), k2) == lookup(s, k2),
{
    let t = s.update(p, (k, a));
    assert forall|i: int, j: int| 0 <= i < j < t.len() implies #[trigger] t[i].0 != #[trigger] t[j].0 by {
        assert(s[i].0 != s[j].0);
    }
    assert(t[p].0 == k);
    let q = key_pos(t, k);
    assert(0 <= q < t.len() && t[q].0 == k);
    assert(q == p);
    assert forall|k2: Seq<char>| k2 != k implies lookup(t, k2) == lookup(s, k2) by {
        if has_key(s, k2) {
            let i = key_pos(s, k2);
            assert(t[i].0 == k2);
            let i2 = key_pos(t, k2);
            assert(0 <= i2 < t.len() && t[i2].0 == k2);
            assert(i2 == i);
        } else {
            assert forall|i: int| 0 <= i < t.len() implies #[trigger] t[i].0 != k2 by {
                if i != p {
                    assert(t[i] == s[i]);
                }
            }
        }
    }
}

/// Adding an entry for a new key `k` makes `k` find its audio and keeps
/// what every other key finds.
proof fn lemma_lookup_after_push(s: Seq<(Seq<char>, Seq<char>)>, k: Seq<char>, a: Seq<char>)
    requires
        keys_distinct(s),
        !has_key(s, k),
    ensures
        keys_distinct(s.push((k, a))),
        lookup(s.push((k, a)), k) == Some(a),
        forall|k2: Seq<char>| k2 != k ==> lookup(s.push((k, a)), k2) == lookup(s, k2),
{
    let t = s.push((k, a));
    assert forall|i: int, j: int| 0 <= i < j < t.len() implies #[trigger] t[i].0 != #[trigger] t[j].0 by {
        if j < s.len() {
            assert(t[i] == s[i] && t[j] == s[j]);
        } else {
            assert(t[i] == s[i]);
        }
    }
    assert(t[s.len() as int].0 == k);
    let q = key_pos(t, k);
    assert(0 <= q < t.len() && t[q].0 == k);
    assert(q == s.len());
    assert forall|k2: Seq<char>| k2 != k implies lookup(t, k2) == lookup(s, k2) by {
        if has_key(s, k2) {
            let i = key_pos(s, k2);
            assert(t[i] == s[i]);
            let i2 = key_pos(t, k2);
            assert(0 <= i2 < t.len() && t[i2].0 == k2);
            assert(i2 == i);
        } else {
            assert forall|i: int| 0 <= i < t.len() implies #[trigger] t[i].0 != k2 by {
                if i < s.len() {
                    assert(t[i] == s[i]);
                }
            }
        }
    }
}

/// The state that the push-to-talk commands share: the session, the
/// screenshot and mode captured with the key press, and the number of the
/// session that the last press started.
pub struct PttState {
    pub session: PushToTalkSession,
    pub screenshot: Option<String>,
    pub mode: Option<String>,
    pub current_session_id: u64,
}

/// What a released push-to-talk key yields.
#[derive(Debug, Clone)]
pub struct PttResult {
    pub text: String,
    pub screenshot: Option<String>,
    pub mode: Option<String>,
    pub session_id: u64,
}

impl PttState {
    pub fn new() -> (r: Self)
        ensures
            !r.session.running(),
            r.session.text() == Seq::<char>::empty(),
            r.session.id() == 0,
            r.screenshot is None,
            r.mode is None,
            r.current_session_id == 0,
    {
        PttState { session: PushToTalkSession::new(), screenshot: None, mode: None, current_session_id: 0 }
    }

    /// Keeps what came with a key press: a screenshot replaces the stored
    /// one only when given, and so does a mode.
    pub fn keep_capture(&mut self, screenshot: Option<String>, mode: Option<String>)
        ensures
            final(self).screenshot == (match screenshot {
                Some(s) => Some(s),
                None => old(self).screenshot,
            }),
            final(self).mode == (match mode {
                Some(m) => Some(m),
                None => old(self).mode,
            }),
            final(self).session == old(self).session,
            final(self).current_session_id == old(self).current_session_id,
    {
        if let Some(s) = screenshot {
            self.screenshot = Some(s);
        }
        if let Some(m) = mode {
            self.mode = Some(m);
        }
    }

    /// The key was released: stops the session. Returns the number the
    /// last press recorded and the number of the stopped session.
    pub fn release(&mut self) -> (r: (u64, u64))
        ensures
            r.0 == old(self).current_session_id,
            r.1 == old(self).session.id(),
            !final(self).session.running(),
            final(self).session.text() == old(self).session.text(),
            final(self).session.id() == old(self).session.id(),
            final(self).screenshot == old(self).screenshot,
            final(self).mode == old(self).mode,
            final(self).current_session_id == old(self).current_session_id,
    {
        let expected = self.current_session_id;
        let stopped = self.session.stop();
        (expected, stopped)
    }

    /// Collects the outcome of a release once the last transcripts are in:
    /// takes the transcript, the screenshot and the mode, and yields them
    /// unless the stopped session is not the one the last press started.
    pub fn collect(&mut self, expected: u64, stopped: u64) -> (r: Option<PttResult>)
        ensures
            final(self).session.text() == Seq::<char>::empty(),
            final(self).session.running() == old(self).session.running(),
            final(self).session.id() == old(self).session.id(),
            final(self).screenshot is None,
            final(self).mode is None,
            final(self).current_session_id == old(self).current_session_id,
            match r {
                Some(p) => expected == stopped && p.text@ == old(self).session.text()
                    && p.screenshot == old(self).screenshot && p.mode == old(self).mode
                    && p.session_id == stopped,
                None => expected != stopped,
            },
    {
        let (text, _) = self.session.finish_stop();
        let screenshot = self.screenshot.take();
        let mode = self.mode.take();
        if stopped != expected {
            None
        } else {
            Some(PttResult { text, screenshot, mode, session_id: stopped })
        }
    }
}

/// The state of the continuous mode's commands.
pub struct VoiceState {
    pub session: VoiceSession,
}

} // verus!
