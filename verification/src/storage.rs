//! Conversations, their token usage and their titles.
use vstd::prelude::*;
use crate::api::{ContentBlock, Message};
use crate::text::{chars_of, eq_chars, str_eq, trim, trim_chars, sub_chars, string_of, push_str};

verus! {

/// Token usage the provider reports for one request.
#[derive(Debug, Clone, Copy)]
pub struct Usage {
    pub input_tokens: u32,
    pub output_tokens: u32,
    /// Tokens written to the prompt cache.
    pub cache_creation_input_tokens: u32,
    /// Tokens read from the prompt cache.
    pub cache_read_input_tokens: u32,
}

impl Default for Usage {
    fn default() -> (r: Self)
        ensures
            r.input_tokens == 0,
            r.output_tokens == 0,
            r.cache_creation_input_tokens == 0,
            r.cache_read_input_tokens == 0,
    {
        Usage { input_tokens: 0, output_tokens: 0, cache_creation_input_tokens: 0, cache_read_input_tokens: 0 }
    }
}

impl Usage {
    /// All input tokens: fresh, written to the cache and read from it.
    pub open spec fn spec_total_input(self) -> int {
        self.input_tokens + self.cache_creation_input_tokens + self.cache_read_input_tokens
    }

    /// All tokens of the request.
    pub open spec fn spec_total(self) -> int {
        self.spec_total_input() + self.output_tokens
    }

    /// All input tokens (the sum must fit in `u32`).
    pub fn total_input(&self) -> (r: u32)
        requires
            self.spec_total_input() <= u32::MAX,
        ensures
            r == self.spec_total_input(),
    {
        self.input_tokens + self.cache_creation_input_tokens + self.cache_read_input_tokens
    }

    /// Input and output tokens together (the sum must fit in `u32`).
    pub fn total(&self) -> (r: u32)
        requires
            self.spec_total() <= u32::MAX,
        ensures
            r == self.spec_total(),
    {
        self.total_input() + self.output_tokens
    }
}

/// Usage of one request of a conversation.
#[derive(Debug, Clone)]
pub struct TurnUsage {
    pub turn_index: u32,
    pub usage: Usage,
    pub model: String,
    pub timestamp: i64,
}

/// What a conversation list shows without loading the messages.
#[derive(Debug, Clone)]
pub struct ConversationMeta {
    pub id: String,
    pub title: String,
    pub created_at: i64,
    pub updated_at: i64,
    pub model: String,
    pub mode: String,
    pub message_count: u32,
    pub total_input_tokens: u32,
    pub total_output_tokens: u32,
}

/// A conversation with its messages and per-request usage.
#[derive(Debug, Clone)]
pub struct Conversation {
    pub id: String,
    pub title: String,
    pub created_at: i64,
    pub updated_at: i64,
    pub model: String,
    pub mode: String,
    /// Messages in the provider's format, ready to be sent again.
    pub messages: Vec<Message>,
    /// Usage of each request, in order.
    pub turn_usage: Vec<TurnUsage>,
    pub total_input_tokens: u32,
    pub total_output_tokens: u32,
}

/// A reading of the system clock.
#[verifier::external_type_specification]
#[verifier::external_body]
pub struct ExSystemTime(std::time::SystemTime);

/// Reads the system clock (wraps `SystemTime::now`); the reading is the
/// machine's, so nothing is stated of it.
#[verifier::external_body]
fn clock_now() -> std::time::SystemTime {
    std::time::SystemTime::now()
}

/// The time from the Unix epoch to `t` (wraps `SystemTime::duration_since`
/// with `UNIX_EPOCH`), or `None` when `t` lies before the epoch; a clock
/// reading is opaque here, so nothing is stated of which.
#[verifier::external_body]
fn since_epoch(t: &std::time::SystemTime) -> Option<std::time::Duration> {
    t.duration_since(std::time::UNIX_EPOCH).ok()
}

/// The whole seconds of a duration (wraps `Duration::as_secs`); a duration
/// is opaque here, so nothing is stated of the value.
#[verifier::external_body]
fn whole_seconds(d: &std::time::Duration) -> u64 {
    d.as_secs()
}

/// Seconds since the Unix epoch per the system clock, if the clock is not
/// before the epoch; the value comes from the clock.
fn seconds_since_epoch() -> Option<u64> {
    match since_epoch(&clock_now()) {
        Some(d) => Some(whole_seconds(&d)),
        None => None,
    }
}

/// The stamp recorded for a clock reading: the seconds since the epoch as
/// an `i64`, or 0 when the clock read before the epoch.
pub open spec fn stamp_of(secs: Option<u64>) -> i64 {
    match secs {
        Some(s) => s as i64,
        None => 0,
    }
}

/// The stamp recorded for the clock reading `secs`.
pub fn unix_stamp(secs: Option<u64>) -> (r: i64)
    ensures
        r == stamp_of(secs),
{
    match secs {
        Some(s) => s as i64,
        None => 0,
    }
}

/// The current Unix time in seconds, or 0 when the clock is before 1970.
/// The reading comes from the system clock, so nothing is stated of the
/// value; `unix_stamp` turns the reading into the stamp.
fn timestamp() -> i64 {
    unix_stamp(seconds_since_epoch())
}

/// The title a conversation gets by default.
pub open spec fn default_title() -> Seq<char> {
    "New Conversation"@
}

/// The text of the first text block among `blocks`.
pub open spec fn first_text(blocks: Seq<ContentBlock>) -> Option<Seq<char>>
    decreases blocks.len(),
{
    if blocks.len() == 0 {
        None
    } else {
        match blocks[0] {
            ContentBlock::Text { text } => Some(text@),
            _ => first_text(blocks.drop_first()),
        }
    }
}

/// The text of the first text block of a user message, in message order.
pub open spec fn first_user_text(msgs: Seq<Message>) -> Option<Seq<char>>
    decreases msgs.len(),
{
    if msgs.len() == 0 {
        None
    } else if msgs[0].role@ == "user"@ && first_text(msgs[0].content@) is Some {
        first_text(msgs[0].content@)
    } else {
        first_user_text(msgs.drop_first())
    }
}

/// A title made of a text: its first 50 characters, trimmed, with `...`
/// when the text is longer.
pub open spec fn title_from_text(text: Seq<char>) -> Seq<char> {
    let preview = trim(if text.len() <= 50 { text } else { text.take(50) });
    if text.len() > 50 {
        preview + "..."@
    } else {
        preview
    }
}

/// The title after `auto_title`.
pub open spec fn auto_title_of(title: Seq<char>, msgs: Seq<Message>) -> Seq<char> {
    if title.len() != 0 && title != default_title() {
        title
    } else {
        match first_user_text(msgs) {
            Some(t) => title_from_text(t),
            None => title,
        }
    }
}

/// Naming a conversation twice names it as once: the title chosen from the
/// first user text stays, and so does a title that was kept.
pub proof fn lemma_auto_title_idempotent(title: Seq<char>, msgs: Seq<Message>)
    ensures
        auto_title_of(auto_title_of(title, msgs), msgs) == auto_title_of(title, msgs),
{
}

/// All input tokens of the recorded requests.
pub open spec fn turn_input_sum(turns: Seq<TurnUsage>) -> int
    decreases turns.len(),
{
    if turns.len() == 0 {
        0
    } else {
        turn_input_sum(turns.drop_last()) + turns.last().usage.spec_total_input()
    }
}

/// All output tokens of the recorded requests.
pub open spec fn turn_output_sum(turns: Seq<TurnUsage>) -> int
    decreases turns.len(),
{
    if turns.len() == 0 {
        0
    } else {
        turn_output_sum(turns.drop_last()) + turns.last().usage.output_tokens
    }
}

/// The conversation's totals are the sums over its recorded requests.
pub open spec fn totals_consistent(c: Conversation) -> bool {
    &&& c.total_input_tokens == turn_input_sum(c.turn_usage@)
    &&& c.total_output_tokens == turn_output_sum(c.turn_usage@)
}

fn first_text_exec(blocks: &Vec<ContentBlock>) -> (r: Option<&String>)
    ensures
        match r {
            Some(t) => first_text(blocks@) == Some(t@),
            None => first_text(blocks@) is None,
        },
{
    let mut i: usize = 0;
    assert(blocks@.skip(0) == blocks@);
    while i < blocks.len()
        invariant
            i <= blocks@.len(),
            first_text(blocks@) == first_text(blocks@.skip(i as int)),
        decreases blocks@.len() - i,
    {
        assert(blocks@.skip(i as int)[0] == blocks@[i as int]);
        if let ContentBlock::Text { text } = &blocks[i] {
            return Some(text);
        }
        assert(blocks@.skip(i as int).drop_first() == blocks@.skip(i + 1));
        i = i + 1;
    }
    None
}

impl Conversation {
    /// A new, empty conversation created now.
    pub fn new(id: String, title: String, model: String, mode: String) -> (r: Self)
        ensures
            r.id == id,
            r.title == title,
            r.model == model,
            r.mode == mode,
            r.created_at == r.updated_at,
            r.messages@.len() == 0,
            r.turn_usage@.len() == 0,
            r.total_input_tokens == 0,
            r.total_output_tokens == 0,
            totals_consistent(r),
    {
        let now = timestamp();
        Conversation {
            id,
            title,
            created_at: now,
            updated_at: now,
            model,
            mode,
            messages: Vec::new(),
            turn_usage: Vec::new(),
            total_input_tokens: 0,
            total_output_tokens: 0,
        }
    }

    /// The listing entry of this conversation.
    pub fn to_meta(&self) -> (r: ConversationMeta)
        ensures
            r.id == self.id,
            r.title == self.title,
            r.created_at == self.created_at,
            r.updated_at == self.updated_at,
            r.model == self.model,
            r.mode == self.mode,
            r.message_count == self.messages@.len() as u32,
            r.total_input_tokens == self.total_input_tokens,
            r.total_output_tokens == self.total_output_tokens,
    {
        ConversationMeta {
            id: self.id.clone(),
            title: self.title.clone(),
            created_at: self.created_at,
            updated_at: self.updated_at,
            model: self.model.clone(),
            mode: self.mode.clone(),
            message_count: self.messages.len() as u32,
            total_input_tokens: self.total_input_tokens,
            total_output_tokens: self.total_output_tokens,
        }
    }

    /// Appends a message and stamps the update time.
    pub fn add_message(&mut self, message: Message)
        ensures
            final(self).messages@ == old(self).messages@.push(message),
            final(self).id == old(self).id,
            final(self).title == old(self).title,
            final(self).created_at == old(self).created_at,
            final(self).model == old(self).model,
            final(self).mode == old(self).mode,
            final(self).turn_usage == old(self).turn_usage,
            final(self).total_input_tokens == old(self).total_input_tokens,
            final(self).total_output_tokens == old(self).total_output_tokens,
    {
        self.messages.push(message);
        self.updated_at = timestamp();
    }

    /// Records the usage of one request made with `model`.
    pub fn add_usage(&mut self, usage: Usage, model: &str)
        requires
            old(self).total_input_tokens + usage.spec_total_input() <= u32::MAX,
            old(self).total_output_tokens + usage.output_tokens <= u32::MAX,
        ensures
            final(self).turn_usage@.len() == old(self).turn_usage@.len() + 1,
            final(self).turn_usage@.take(old(self).turn_usage@.len() as int)
                == old(self).turn_usage@,
            final(self).turn_usage@.last().turn_index == old(self).turn_usage@.len() as u32,
            final(self).turn_usage@.last().usage == usage,
            final(self).turn_usage@.last().model@ == model@,
            final(self).total_input_tokens == old(self).total_input_tokens
                + usage.spec_total_input(),
            final(self).total_output_tokens == old(self).total_output_tokens + usage.output_tokens,
            final(self).messages == old(self).messages,
            final(self).id == old(self).id,
            final(self).title == old(self).title,
            final(self).created_at == old(self).created_at,
            final(self).updated_at == old(self).updated_at,
            final(self).model == old(self).model,
            final(self).mode == old(self).mode,
            totals_consistent(*old(self)) ==> totals_consistent(*final(self)),
    {
        let turn = TurnUsage {
            turn_index: self.turn_usage.len() as u32,
            usage,
            model: String::from_str(model),
            timestamp: timestamp(),
        };
        self.turn_usage.push(turn);
        assert(self.turn_usage@.take(old(self).turn_usage@.len() as int) == old(self).turn_usage@);
        assert(self.turn_usage@.drop_last() == old(self).turn_usage@);
        self.total_input_tokens = self.total_input_tokens + usage.total_input();
        self.total_output_tokens = self.total_output_tokens + usage.output_tokens;
    }

    /// Names a conversation that has no title, or the default one, after
    /// the first text a user wrote.
    pub fn auto_title(&mut self)
        ensures
            final(self).title@ == auto_title_of(old(self).title@, old(self).messages@),
            final(self).messages == old(self).messages,
            final(self).id == old(self).id,
            final(self).created_at == old(self).created_at,
            final(self).updated_at == old(self).updated_at,
            final(self).model == old(self).model,
            final(self).mode == old(self).mode,
            final(self).turn_usage == old(self).turn_usage,
            final(self).total_input_tokens == old(self).total_input_tokens,
            final(self).total_output_tokens == old(self).total_output_tokens,
    {
        if !self.title.as_str().is_empty() && !str_eq(self.title.as_str(), "New Conversation") {
            return;
        }
        let mut i: usize = 0;
        let ghost msgs = self.messages@;
        assert(msgs.skip(0) == msgs);
        while i < self.messages.len()
            invariant
                i <= msgs.len(),
                msgs == self.messages@,
                self.title@ == old(self).title@,
                self.messages == old(self).messages,
                self.id == old(self).id,
                self.created_at == old(self).created_at,
                self.updated_at == old(self).updated_at,
                self.model == old(self).model,
                self.mode == old(self).mode,
                self.turn_usage == old(self).turn_usage,
                self.total_input_tokens == old(self).total_input_tokens,
                self.total_output_tokens == old(self).total_output_tokens,
                self.title@.len() == 0 || self.title@ == default_title(),
                first_user_text(msgs) == first_user_text(msgs.skip(i as int)),
            decreases msgs.len() - i,
        {
            assert(msgs.skip(i as int)[0] == msgs[i as int]);
            let is_user = str_eq(self.messages[i].role.as_str(), "user");
            if is_user {
                if let Some(text) = first_text_exec(&self.messages[i].content) {
                    let tc = chars_of(text.as_str());
                    let cut = if tc.len() < 50 { tc.len() } else { 50 };
                    let head = sub_chars(&tc, 0, cut);
                    assert(head@ == (if tc@.len() <= 50 { tc@ } else { tc@.take(50) }));
                    let mut t = trim_chars(&head);
                    if tc.len() > 50 {
                        push_str(&mut t, "...");
                    }
                    self.title = string_of(&t);
                    return;
                }
            }
            assert(msgs.skip(i as int).drop_first() == msgs.skip(i + 1));
            i = i + 1;
        }
    }
}

} // verus!
