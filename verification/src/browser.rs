//! Bookkeeping of the browser tools: element ids, pages, keys and the text
//! form of the accessibility tree.
use vstd::prelude::*;
use crate::text::{
    chars_of, decimal, eq_chars, lines, lines_of, lowercase, push_all, push_decimal, push_str,
    split_chars, split_on, str_eq, string_of, to_lowercase, trim, trim_chars,
};

verus! {

/// The value of a string of decimal digits.
pub open spec fn digits_value(s: Seq<char>) -> nat
    decreases s.len(),
{
    if s.len() == 0 {
        0
    } else {
        digits_value(s.drop_last()) * 10 + ((s.last() as u32) - 48) as nat
    }
}

/// All characters are decimal digits.
pub open spec fn all_digits(s: Seq<char>) -> bool {
    forall|i: int| 0 <= i < s.len() ==> '0' <= #[trigger] s[i] <= '9'
}

/// What `str::parse::<u64>` yields: an optional `+`, then at least one
/// digit and nothing else, with a value that fits in 64 bits.
pub open spec fn parse_u64_spec(s: Seq<char>) -> Option<u64> {
    let d = if s.len() > 0 && s[0] == '+' {
        s.drop_first()
    } else {
        s
    };
    if d.len() > 0 && all_digits(d) && digits_value(d) <= u64::MAX {
        Some(digits_value(d) as u64)
    } else {
        None
    }
}

/// Parses an unsigned 64-bit decimal number.
pub fn parse_u64(s: &[char]) -> (r: Option<u64>)
    ensures
        r == parse_u64_spec(s@),
{
    let start: usize = if s.len() > 0 && s[0] == '+' {
        1
    } else {
        0
    };
    let ghost d = if s@.len() > 0 && s@[0] == '+' {
        s@.drop_first()
    } else {
        s@
    };
    assert(d == s@.subrange(start as int, s@.len() as int));
    if start >= s.len() {
        return None;
    }
    let mut v: u64 = 0;
    let mut i: usize = start;
    while i < s.len()
        invariant
            start <= i <= s@.len(),
            start < s@.len(),
            d == s@.subrange(start as int, s@.len() as int),
            d == (if s@.len() > 0 && s@[0] == '+' {
                s@.drop_first()
            } else {
                s@
            }),
            all_digits(s@.subrange(start as int, i as int)),
            v == digits_value(s@.subrange(start as int, i as int)),
        decreases s@.len() - i,
    {
        let c = s[i];
        assert(s@.subrange(start as int, i + 1).drop_last() == s@.subrange(start as int, i as int));
        if !('0' <= c && c <= '9') {
            proof {
                assert(d[i - start] == c);
                assert(!('0' <= d[i - start] <= '9'));
                assert(!all_digits(d));
            }
            return None;
        }
        let digit: u64 = (c as u32 - 48) as u64;
        if v > (u64::MAX - digit) / 10 {
            proof {
                if all_digits(d) {
                    lemma_digits_grow(d, (i - start + 1) as int);
                    assert(d.take(i - start + 1) == s@.subrange(start as int, i + 1));
                    assert(v * 10 + digit > u64::MAX) by (nonlinear_arith)
                        requires v > (u64::MAX - digit) / 10, digit <= 9;
                }
            }
            return None;
        }
        v = v * 10 + digit;
        i = i + 1;
    }
    Some(v)
}

/// A prefix of a digit string is worth at most the whole.
pub proof fn lemma_digits_grow(s: Seq<char>, k: int)
    requires
        0 <= k <= s.len(),
        all_digits(s),
    ensures
        digits_value(s.take(k)) <= digits_value(s),
    decreases s.len() - k,
{
    if k < s.len() {
        lemma_digits_grow(s, k + 1);
        assert(s.take(k + 1).drop_last() == s.take(k));
        assert(digits_value(s.take(k + 1)) >= digits_value(s.take(k))) by (nonlinear_arith)
            requires digits_value(s.take(k + 1)) == digits_value(s.take(k)) * 10 + ((s.take(k + 1).last() as u32) - 48) as nat;
    } else {
        assert(s.take(k) == s);
    }
}

/// The text of an element id: `<snapshot>_<index>`.
pub open spec fn uid_text(snapshot_id: nat, index: nat) -> Seq<char> {
    decimal(snapshot_id) + "_"@ + decimal(index)
}

/// Builds an element id.
pub fn make_uid(snapshot_id: u64, index: u64) -> (r: String)
    ensures
        r@ == uid_text(snapshot_id as nat, index as nat),
{
    let mut v: Vec<char> = Vec::new();
    push_decimal(&mut v, snapshot_id);
    v.push('_');
    push_decimal(&mut v, index);
    proof {
        assert(v@ =~= decimal(snapshot_id as nat) + "_"@ + decimal(index as nat)) by {
            broadcast use vstd::string::group_string_axioms;
            reveal_strlit("_");
        }
    }
    string_of(&v)
}

/// The decimal form of a number is a non-empty string of digits worth the
/// number.
pub proof fn lemma_decimal_digits(n: nat)
    ensures
        decimal(n).len() > 0,
        all_digits(decimal(n)),
        digits_value(decimal(n)) == n,
    decreases n,
{
    let c = crate::text::digit_char(n % 10);
    assert(c as u32 == 48 + n % 10);
    if n < 10 {
        let e = decimal(n);
        assert(e == seq![c]);
        assert(e.drop_last() =~= Seq::<char>::empty());
        assert(digits_value(e) == digits_value(e.drop_last()) * 10 + ((e.last() as u32) - 48) as nat);
    } else {
        lemma_decimal_digits(n / 10);
        let d = decimal(n / 10);
        let e = decimal(n);
        assert(e == d.push(crate::text::digit_char(n % 10)));
        assert(e.drop_last() == d);
        assert forall|i: int| 0 <= i < e.len() implies '0' <= #[trigger] e[i] <= '9' by {
            if i < d.len() {
                assert(e[i] == d[i]);
            }
        }
        assert((n / 10) * 10 + n % 10 == n) by (nonlinear_arith);
        assert(e.last() == c);
        assert(digits_value(e) == digits_value(d) * 10 + ((c as u32) - 48) as nat);
    }
}

/// Parsing the decimal form of a 64-bit number gives the number back.
pub proof fn lemma_parse_decimal(n: u64)
    ensures
        parse_u64_spec(decimal(n as nat)) == Some(n),
{
    lemma_decimal_digits(n as nat);
    let d = decimal(n as nat);
    assert('0' <= d[0] <= '9');
}

/// An element id splits at its underscore into the snapshot number and the
/// index.
pub proof fn lemma_split_uid(snapshot_id: nat, index: nat)
    ensures
        split_on(uid_text(snapshot_id, index), '_') == seq![decimal(snapshot_id), decimal(index)],
{
    broadcast use vstd::string::group_string_axioms;
    reveal_strlit("_");
    lemma_decimal_digits(snapshot_id);
    lemma_decimal_digits(index);
    let a = decimal(snapshot_id);
    let b = decimal(index);
    let u = uid_text(snapshot_id, index);
    assert(u == a + seq!['_'] + b);
    assert forall|i: int| 0 <= i < a.len() implies u[i] != '_' by {
        assert(u[i] == a[i]);
        assert('0' <= a[i] <= '9');
    }
    crate::text::lemma_first_of_at(u, '_', a.len() as int);
    assert(u.take(a.len() as int) == a);
    assert(u.skip(a.len() as int + 1) == b);
    assert forall|i: int| 0 <= i < b.len() implies b[i] != '_' by {
        assert('0' <= b[i] <= '9');
    }
    crate::text::lemma_first_of_at(b, '_', b.len() as int);
    assert(split_on(b, '_') == seq![b]);
    assert(split_on(u, '_') == seq![a] + split_on(b, '_'));
    assert(seq![a] + seq![b] =~= seq![a, b]);
}

/// Two ids of one snapshot are equal only for equal indices.
pub proof fn lemma_uid_injective(snapshot_id: nat, i: nat, j: nat)
    requires
        uid_text(snapshot_id, i) == uid_text(snapshot_id, j),
    ensures
        i == j,
{
    lemma_split_uid(snapshot_id, i);
    lemma_split_uid(snapshot_id, j);
    lemma_decimal_digits(i);
    lemma_decimal_digits(j);
    assert(decimal(i) == decimal(j));
}

/// In a map whose ids are distinct, each id finds its own entry.
pub proof fn lemma_lookup_distinct(map: Seq<(String, i64)>, k: int)
    requires
        0 <= k < map.len(),
        forall|a: int, b: int| 0 <= a < b < map.len() ==> map[a].0@ != map[b].0@,
    ensures
        lookup_uid(map, map[k].0@) == Some(map[k].1),
    decreases k,
{
    if k > 0 {
        let rest = map.drop_first();
        assert(map[0].0@ != map[k].0@);
        assert forall|a: int, b: int| 0 <= a < b < rest.len() implies rest[a].0@ != rest[b].0@ by {
            assert(rest[a] == map[a + 1] && rest[b] == map[b + 1]);
        }
        assert(rest[k - 1] == map[k]);
        lemma_lookup_distinct(rest, k - 1);
    }
}

/// The backend node recorded for `uid`, if any (the first entry wins).
pub open spec fn lookup_uid(map: Seq<(String, i64)>, uid: Seq<char>) -> Option<i64>
    decreases map.len(),
{
    if map.len() == 0 {
        None
    } else if map[0].0@ == uid {
        Some(map[0].1)
    } else {
        lookup_uid(map.drop_first(), uid)
    }
}

/// How resolving an element id ends.
pub open spec fn resolve_uid_spec(uid: Seq<char>, current: u64, map: Seq<(String, i64)>) -> Result<i64, Seq<char>> {
    let parts = split_on(uid, '_');
    if parts.len() != 2 {
        Err("invalid uid format: "@ + uid)
    } else {
        match parse_u64_spec(parts[0]) {
            None => Err("invalid snapshot id in uid"@),
            Some(sid) => if sid != current {
                Err(
                    "stale uid from snapshot "@ + decimal(sid as nat) + ", current is "@ + decimal(current as nat)
                        + ". take a new snapshot first."@,
                )
            } else {
                match lookup_uid(map, uid) {
                    Some(b) => Ok(b),
                    None => Err("uid not found: "@ + uid),
                }
            },
        }
    }
}

/// The backend node of an element id from the current snapshot.
pub fn resolve_uid(uid: &str, current: u64, map: &Vec<(String, i64)>) -> (r: Result<i64, String>)
    ensures
        match r {
            Ok(b) => resolve_uid_spec(uid@, current, map@) == Ok::<i64, Seq<char>>(b),
            Err(e) => resolve_uid_spec(uid@, current, map@) == Err::<i64, Seq<char>>(e@),
        },
{
    let u = chars_of(uid);
    let parts = split_chars(&u, '_');
    if parts.len() != 2 {
        let mut m = String::from_str("invalid uid format: ");
        m.append(uid);
        return Err(m);
    }
    proof {
        crate::text::lemma_chars_deep_view(parts@[0]);
    }
    let sid = match parse_u64(&parts[0]) {
        None => {
            return Err(String::from_str("invalid snapshot id in uid"));
        },
        Some(s) => s,
    };
    if sid != current {
        let mut v = chars_of("stale uid from snapshot ");
        push_decimal(&mut v, sid);
        push_str(&mut v, ", current is ");
        push_decimal(&mut v, current);
        push_str(&mut v, ". take a new snapshot first.");
        return Err(string_of(&v));
    }
    let mut i: usize = 0;
    assert(map@.skip(0) == map@);
    let ghost expected = match lookup_uid(map@, uid@) {
        Some(b) => Ok::<i64, Seq<char>>(b),
        None => Err::<i64, Seq<char>>("uid not found: "@ + uid@),
    };
    assert(resolve_uid_spec(uid@, current, map@) == expected);
    while i < map.len()
        invariant
            i <= map@.len(),
            u@ == uid@,
            resolve_uid_spec(uid@, current, map@) == expected,
            expected == match lookup_uid(map@, uid@) {
                Some(b) => Ok::<i64, Seq<char>>(b),
                None => Err::<i64, Seq<char>>("uid not found: "@ + uid@),
            },
            lookup_uid(map@, uid@) == lookup_uid(map@.skip(i as int), uid@),
        decreases map@.len() - i,
    {
        assert(map@.skip(i as int)[0] == map@[i as int]);
        let k = chars_of(map[i].0.as_str());
        if eq_chars(&k, &u) {
            return Ok(map[i].1);
        }
        assert(map@.skip(i as int).drop_first() == map@.skip(i + 1));
        i = i + 1;
    }
    let mut m = String::from_str("uid not found: ");
    m.append(uid);
    Err(m)
}

/// The modifier bits a DevTools key press carries for one modifier name:
/// alt 1, control 2, meta 4, shift 8.
pub open spec fn cdp_modifier_bit(lower: Seq<char>) -> nat {
    if lower == "control"@ || lower == "ctrl"@ {
        2
    } else if lower == "alt"@ || lower == "option"@ {
        1
    } else if lower == "shift"@ {
        8
    } else if lower == "meta"@ || lower == "cmd"@ || lower == "command"@ {
        4
    } else {
        0
    }
}

/// Which of the four modifier bits the names set (alt, control, meta, shift).
pub open spec fn cdp_bits_of(mods: Seq<Seq<char>>) -> (bool, bool, bool, bool)
    decreases mods.len(),
{
    if mods.len() == 0 {
        (false, false, false, false)
    } else {
        let (a, c, m, s) = cdp_bits_of(mods.drop_last());
        let b = cdp_modifier_bit(lowercase(mods.last()));
        (a || b == 1, c || b == 2, m || b == 4, s || b == 8)
    }
}

/// The bitwise or of the modifier bits that are set.
pub open spec fn cdp_flags(bits: (bool, bool, bool, bool)) -> i64 {
    ((if bits.0 { 1int } else { 0int }) + (if bits.1 { 2int } else { 0int }) + (if bits.2 { 4int } else { 0int }) + (
    if bits.3 { 8int } else { 0int })) as i64
}

/// A DevTools key press: for `A+B+K`, the modifier bits of `A` and `B` and
/// the key `K`; a string without `+` is the key alone.
pub open spec fn cdp_key_spec(key: Seq<char>) -> (i64, Seq<char>) {
    let parts = split_on(key, '+');
    if parts.len() > 1 {
        (cdp_flags(cdp_bits_of(parts.drop_last())), parts.last())
    } else {
        (0, key)
    }
}

/// Splits a key press like `Control+A` into modifier bits and key name.
pub fn parse_cdp_key(key: &str) -> (r: (i64, String))
    ensures
        r.0 == cdp_key_spec(key@).0,
        r.1@ == cdp_key_spec(key@).1,
{
    let k = chars_of(key);
    let parts = split_chars(&k, '+');
    let ghost all = parts.deep_view();
    if parts.len() <= 1 {
        return (0, String::from_str(key));
    }
    let last = parts.len() - 1;
    let mut alt = false;
    let mut ctrl = false;
    let mut meta = false;
    let mut shift = false;
    let mut i: usize = 0;
    while i < last
        invariant
            i <= last,
            last == parts@.len() - 1,
            all == parts.deep_view(),
            all.len() == parts@.len(),
            cdp_bits_of(all.drop_last().take(i as int)) == (alt, ctrl, meta, shift),
        decreases last - i,
    {
        proof {
            assert(all.drop_last().take(i + 1).drop_last() == all.drop_last().take(i as int));
            assert(all.drop_last().take(i + 1).last() == all[i as int]);
            crate::text::lemma_chars_deep_view(parts@[i as int]);
        }
        let p = string_of(&parts[i]);
        let l = to_lowercase(p.as_str());
        let ls = l.as_str();
        if str_eq(ls, "control") || str_eq(ls, "ctrl") {
            ctrl = true;
        } else if str_eq(ls, "alt") || str_eq(ls, "option") {
            alt = true;
        } else if str_eq(ls, "shift") {
            shift = true;
        } else if str_eq(ls, "meta") || str_eq(ls, "cmd") || str_eq(ls, "command") {
            meta = true;
        }
        i = i + 1;
    }
    assert(all.drop_last().take(last as int) == all.drop_last());
    proof {
        crate::text::lemma_chars_deep_view(parts@[last as int]);
    }
    let flags: i64 = (if alt { 1i64 } else { 0i64 }) + (if ctrl { 2i64 } else { 0i64 }) + (if meta { 4i64 } else { 0i64 }) + (
    if shift { 8i64 } else { 0i64 });
    (flags, string_of(&parts[last]))
}


/// The open pages of the browser and which one the tools act on.
pub struct PageList<P> {
    pages: Vec<P>,
    selected: usize,
}

/// The message for an index past the last page.
pub open spec fn out_of_range_message(idx: nat, count: nat) -> Seq<char> {
    "page index "@ + decimal(idx) + " out of range (0.."@ + decimal(count) + ")"@
}

fn out_of_range(idx: usize, count: usize) -> (r: String)
    ensures
        r@ == out_of_range_message(idx as nat, count as nat),
{
    let mut v = chars_of("page index ");
    push_decimal(&mut v, idx as u64);
    push_str(&mut v, " out of range (0..");
    push_decimal(&mut v, count as u64);
    push_str(&mut v, ")");
    string_of(&v)
}

fn number_message(prefix: &str, n: usize, suffix: &str) -> (r: String)
    ensures
        r@ == prefix@ + decimal(n as nat) + suffix@,
{
    let mut v = chars_of(prefix);
    push_decimal(&mut v, n as u64);
    push_str(&mut v, suffix);
    string_of(&v)
}

impl<P> PageList<P> {
    /// The pages, in browser order.
    pub closed spec fn spec_pages(&self) -> Seq<P> {
        self.pages@
    }

    /// The index of the page the tools act on.
    pub closed spec fn spec_selected(&self) -> nat {
        self.selected as nat
    }

    /// A page list that acts on the first page.
    pub fn new(pages: Vec<P>) -> (r: Self)
        ensures
            r.spec_pages() == pages@,
            r.spec_selected() == 0,
    {
        PageList { pages, selected: 0 }
    }

    /// The pages.
    pub fn pages(&self) -> (r: &Vec<P>)
        ensures
            r@ == self.spec_pages(),
    {
        &self.pages
    }

    /// The index of the page the tools act on.
    pub fn selected_index(&self) -> (r: usize)
        ensures
            r == self.spec_selected(),
    {
        self.selected
    }

    /// The page the tools act on, or `no page selected` when the index is
    /// past the last page.
    pub fn selected_page(&self) -> (r: Result<&P, String>)
        ensures
            self.spec_selected() < self.spec_pages().len() ==> (r matches Ok(p) && *p == self.spec_pages()[self.spec_selected() as int]),
            self.spec_selected() >= self.spec_pages().len() ==> (r matches Err(e) && e@ == "no page selected"@),
    {
        if self.selected < self.pages.len() {
            Ok(&self.pages[self.selected])
        } else {
            Err(String::from_str("no page selected"))
        }
    }

    /// Takes the browser's current page list; a selection past its end
    /// goes back to the first page, unless there are no pages.
    pub fn refresh(&mut self, pages: Vec<P>)
        ensures
            final(self).spec_pages() == pages@,
            final(self).spec_selected() == if old(self).spec_selected() >= pages@.len() && pages@.len() != 0 {
                0
            } else {
                old(self).spec_selected()
            },
    {
        self.pages = pages;
        if self.selected >= self.pages.len() && self.pages.len() != 0 {
            self.selected = 0;
        }
    }

    /// Adds a newly opened page and acts on it.
    pub fn push_new(&mut self, page: P)
        ensures
            final(self).spec_pages() == old(self).spec_pages().push(page),
            final(self).spec_selected() == old(self).spec_pages().len(),
    {
        self.pages.push(page);
        self.selected = self.pages.len() - 1;
    }

    /// Acts on page `idx` from now on.
    pub fn select(&mut self, idx: usize) -> (r: Result<String, String>)
        ensures
            final(self).spec_pages() == old(self).spec_pages(),
            idx < old(self).spec_pages().len() ==> final(self).spec_selected() == idx && (r matches Ok(m) && m@
                == "Selected page "@ + decimal(idx as nat)),
            idx >= old(self).spec_pages().len() ==> final(self).spec_selected() == old(self).spec_selected()
                && (r matches Err(e) && e@ == out_of_range_message(idx as nat, old(self).spec_pages().len())),
    {
        if idx >= self.pages.len() {
            return Err(out_of_range(idx, self.pages.len()));
        }
        self.selected = idx;
        proof {
            crate::text::lemma_empty_literal();
        }
        Ok(number_message("Selected page ", idx, ""))
    }

    /// Whether page `idx` may be closed: not the last open page, and an
    /// index that exists.
    pub fn check_close(&self, idx: usize) -> (r: Result<(), String>)
        ensures
            self.spec_pages().len() <= 1 ==> (r matches Err(e) && e@ == "cannot close the last open page"@),
            self.spec_pages().len() > 1 && idx >= self.spec_pages().len() ==> (r matches Err(e) && e@
                == out_of_range_message(idx as nat, self.spec_pages().len())),
            self.spec_pages().len() > 1 && idx < self.spec_pages().len() ==> r is Ok,
    {
        if self.pages.len() <= 1 {
            return Err(String::from_str("cannot close the last open page"));
        }
        if idx >= self.pages.len() {
            return Err(out_of_range(idx, self.pages.len()));
        }
        Ok(())
    }

    /// Drops page `idx` after it was closed; a selection past the new end
    /// moves to the last page.
    pub fn remove_closed(&mut self, idx: usize) -> (r: String)
        requires
            idx < old(self).spec_pages().len(),
        ensures
            final(self).spec_pages() == old(self).spec_pages().remove(idx as int),
            final(self).spec_selected() == if old(self).spec_selected() >= old(self).spec_pages().len() - 1 {
                if old(self).spec_pages().len() - 1 == 0 { 0 } else { (old(self).spec_pages().len() - 2) as nat }
            } else {
                old(self).spec_selected()
            },
            r@ == "Closed page "@ + decimal(idx as nat),
    {
        self.pages.remove(idx);
        if self.selected >= self.pages.len() {
            self.selected = if self.pages.len() == 0 {
                0
            } else {
                self.pages.len() - 1
            };
        }
        proof {
            crate::text::lemma_empty_literal();
        }
        number_message("Closed page ", idx, "")
    }
}

/// The page listing: one `index: url` line per page, the acted-on page
/// marked ` [selected]`, or `No pages open`.
pub open spec fn page_lines(urls: Seq<String>, selected: nat) -> Seq<char>
    decreases urls.len(),
{
    if urls.len() == 0 {
        Seq::empty()
    } else {
        let k = (urls.len() - 1) as nat;
        page_lines(urls.drop_last(), selected) + decimal(k) + ": "@ + urls.last()@ + (if k == selected {
            " [selected]"@
        } else {
            ""@
        }) + "\n"@
    }
}

/// The page listing text (see `page_lines`).
pub open spec fn page_list_spec(urls: Seq<String>, selected: nat) -> Seq<char> {
    if urls.len() == 0 {
        "No pages open"@
    } else {
        page_lines(urls, selected)
    }
}

/// Lists the pages by their URLs.
pub fn page_list_text(urls: &Vec<String>, selected: usize) -> (r: String)
    ensures
        r@ == page_list_spec(urls@, selected as nat),
{
    proof {
        broadcast use vstd::string::group_string_axioms;
        reveal_strlit("");
        assert(""@.len() == 0);
    }
    let mut v: Vec<char> = Vec::new();
    let mut i: usize = 0;
    while i < urls.len()
        invariant
            i <= urls@.len(),
            v@ == page_lines(urls@.take(i as int), selected as nat),
            v@.len() >= i,
        decreases urls@.len() - i,
    {
        proof {
            assert(urls@.take(i + 1).drop_last() == urls@.take(i as int));
            assert(urls@.take(i + 1).last() == urls@[i as int]);
        }
        push_decimal(&mut v, i as u64);
        push_str(&mut v, ": ");
        push_str(&mut v, urls[i].as_str());
        if i == selected {
            push_str(&mut v, " [selected]");
        } else {
            push_str(&mut v, "");
        }
        push_str(&mut v, "\n");
        proof {
            assert(v@.len() >= i + 1) by {
                reveal_strlit("\n");
                assert("\n"@.len() == 1);
            }
        }
        i = i + 1;
    }
    assert(urls@.take(urls@.len() as int) == urls@);
    if v.len() == 0 {
        return String::from_str("No pages open");
    }
    string_of(&v)
}

/// The DevTools address written in a `DevToolsActivePort` file: the port
/// on the first line and the path on the second, both trimmed.
pub open spec fn ws_url_spec(content: Seq<char>) -> Option<Seq<char>> {
    let ls = lines(content);
    if ls.len() >= 2 {
        Some("ws://127.0.0.1:"@ + trim(ls[0]) + trim(ls[1]))
    } else {
        None
    }
}

/// Reads the DevTools address of a running Chrome from its port file.
pub fn ws_url_from_port_file(content: &str) -> (r: Option<String>)
    ensures
        match r {
            Some(u) => ws_url_spec(content@) == Some(u@),
            None => ws_url_spec(content@) is None,
        },
{
    let c = chars_of(content);
    let ls = lines_of(&c);
    if ls.len() < 2 {
        return None;
    }
    proof {
        crate::text::lemma_chars_deep_view(ls@[0]);
        crate::text::lemma_chars_deep_view(ls@[1]);
    }
    let port = trim_chars(&ls[0]);
    let path = trim_chars(&ls[1]);
    let mut v = chars_of("ws://127.0.0.1:");
    push_all(&mut v, &port);
    push_all(&mut v, &path);
    Some(string_of(&v))
}

/// A navigation of the current page.
#[derive(Debug)]
pub enum Navigation {
    Url(String),
    Back,
    Forward,
    Reload { ignore_cache: bool },
}

/// The navigation a `navigate_page` call asks for.
pub fn plan_navigation(nav_type: &str, url: Option<String>, ignore_cache: bool) -> (r: Result<Navigation, String>)
    ensures
        nav_type@ == "url"@ ==> match url {
            Some(u) => r == Ok::<Navigation, String>(Navigation::Url(u)),
            None => (r matches Err(e) && e@ == "url required for type=url"@),
        },
        nav_type@ != "url"@ && nav_type@ == "back"@ ==> r matches Ok(Navigation::Back),
        nav_type@ != "url"@ && nav_type@ != "back"@ && nav_type@ == "forward"@ ==> r matches Ok(Navigation::Forward),
        nav_type@ != "url"@ && nav_type@ != "back"@ && nav_type@ != "forward"@ && nav_type@ == "reload"@ ==> r
            == Ok::<Navigation, String>(Navigation::Reload { ignore_cache }),
        nav_type@ != "url"@ && nav_type@ != "back"@ && nav_type@ != "forward"@ && nav_type@ != "reload"@ ==> (r matches Err(
            e,
        ) && e@ == "unknown navigation type: "@ + nav_type@),
{
    if str_eq(nav_type, "url") {
        match url {
            Some(u) => Ok(Navigation::Url(u)),
            None => Err(String::from_str("url required for type=url")),
        }
    } else if str_eq(nav_type, "back") {
        Ok(Navigation::Back)
    } else if str_eq(nav_type, "forward") {
        Ok(Navigation::Forward)
    } else if str_eq(nav_type, "reload") {
        Ok(Navigation::Reload { ignore_cache })
    } else {
        let mut m = String::from_str("unknown navigation type: ");
        m.append(nav_type);
        Err(m)
    }
}

/// The message after a navigation succeeded.
pub fn navigation_message(n: &Navigation) -> (r: String)
    ensures
        r@ == match *n {
            Navigation::Url(u) => "Successfully navigated to "@ + u@,
            Navigation::Back => "Successfully navigated back"@,
            Navigation::Forward => "Successfully navigated forward"@,
            Navigation::Reload { .. } => "Successfully reloaded page"@,
        },
{
    match n {
        Navigation::Url(u) => {
            let mut m = String::from_str("Successfully navigated to ");
            m.append(u.as_str());
            m
        },
        Navigation::Back => String::from_str("Successfully navigated back"),
        Navigation::Forward => String::from_str("Successfully navigated forward"),
        Navigation::Reload { .. } => String::from_str("Successfully reloaded page"),
    }
}

/// What waiting for a text does after one snapshot.
#[derive(Debug, Clone, Copy, PartialEq, Eq, Structural)]
pub enum WaitStep {
    Found,
    TimedOut,
    Retry,
}

/// A snapshot that contains the text ends the wait; past the timeout the
/// wait fails; otherwise it tries again.
pub fn wait_step(snapshot_has_text: bool, elapsed_ms: u128, timeout_ms: u64) -> (r: WaitStep)
    ensures
        snapshot_has_text ==> r == WaitStep::Found,
        !snapshot_has_text && elapsed_ms > timeout_ms ==> r == WaitStep::TimedOut,
        !snapshot_has_text && elapsed_ms <= timeout_ms ==> r == WaitStep::Retry,
{
    if snapshot_has_text {
        WaitStep::Found
    } else if elapsed_ms > timeout_ms as u128 {
        WaitStep::TimedOut
    } else {
        WaitStep::Retry
    }
}

/// The message after clicking an element.
pub fn click_message(dbl_click: bool) -> (r: &'static str)
    ensures
        r@ == if dbl_click {
            "Successfully double clicked on element"@
        } else {
            "Successfully clicked on element"@
        },
{
    if dbl_click {
        "Successfully double clicked on element"
    } else {
        "Successfully clicked on element"
    }
}

/// The message after handling a dialog.
pub fn dialog_message(accept: bool) -> (r: &'static str)
    ensures
        r@ == if accept {
            "Successfully accepted dialog"@
        } else {
            "Successfully dismissed dialog"@
        },
{
    if accept {
        "Successfully accepted dialog"
    } else {
        "Successfully dismissed dialog"
    }
}

/// The message after filling `n` form elements.
pub fn fill_form_message(n: usize) -> (r: String)
    ensures
        r@ == "Filled "@ + decimal(n as nat) + " form elements"@,
{
    number_message("Filled ", n, " form elements")
}


/// One entry of a `fill_form` call.
#[derive(Debug, Clone)]
pub struct FormElement {
    pub uid: Option<String>,
    pub value: Option<String>,
}

/// The arguments of a browser tool call; an argument that is absent or
/// of the wrong JSON type is `None`.
#[derive(Debug, Clone)]
pub struct BrowserToolArgs {
    pub verbose: Option<bool>,
    pub uid: Option<String>,
    pub dbl_click: Option<bool>,
    pub value: Option<String>,
    pub key: Option<String>,
    pub nav_type: Option<String>,
    pub url: Option<String>,
    pub ignore_cache: Option<bool>,
    pub text: Option<String>,
    pub timeout: Option<u64>,
    pub page_idx: Option<u64>,
    pub bring_to_front: Option<bool>,
    pub from_uid: Option<String>,
    pub to_uid: Option<String>,
    /// `None` when `elements` is not an array.
    pub elements: Option<Vec<FormElement>>,
    pub action: Option<String>,
    pub prompt_text: Option<String>,
}

/// A browser operation with its arguments checked.
#[derive(Debug)]
pub enum BrowserCall {
    TakeSnapshot { verbose: bool },
    Click { uid: String, dbl_click: bool },
    Hover { uid: String },
    Fill { uid: String, value: String },
    PressKey { key: String },
    Navigate { nav_type: String, url: Option<String>, ignore_cache: bool },
    WaitFor { text: String, timeout_ms: u64 },
    NewPage { url: String },
    ListPages,
    SelectPage { page_idx: usize, bring_to_front: bool },
    ClosePage { page_idx: usize },
    Drag { from_uid: String, to_uid: String },
    FillForm { elements: Vec<(String, String)> },
    HandleDialog { accept: bool, prompt_text: Option<String> },
}

/// The contents of a browser operation.
pub enum BrowserCallView {
    TakeSnapshot(bool),
    Click(Seq<char>, bool),
    Hover(Seq<char>),
    Fill(Seq<char>, Seq<char>),
    PressKey(Seq<char>),
    Navigate(Seq<char>, Option<Seq<char>>, bool),
    WaitFor(Seq<char>, u64),
    NewPage(Seq<char>),
    ListPages,
    SelectPage(usize, bool),
    ClosePage(usize),
    Drag(Seq<char>, Seq<char>),
    FillForm(Seq<(Seq<char>, Seq<char>)>),
    HandleDialog(bool, Option<Seq<char>>),
}

/// An optional string's contents.
pub open spec fn opt_view(o: Option<String>) -> Option<Seq<char>> {
    match o {
        Some(s) => Some(s@),
        None => None,
    }
}

impl View for BrowserCall {
    type V = BrowserCallView;

    open spec fn view(&self) -> BrowserCallView {
        match self {
            BrowserCall::TakeSnapshot { verbose } => BrowserCallView::TakeSnapshot(*verbose),
            BrowserCall::Click { uid, dbl_click } => BrowserCallView::Click(uid@, *dbl_click),
            BrowserCall::Hover { uid } => BrowserCallView::Hover(uid@),
            BrowserCall::Fill { uid, value } => BrowserCallView::Fill(uid@, value@),
            BrowserCall::PressKey { key } => BrowserCallView::PressKey(key@),
            BrowserCall::Navigate { nav_type, url, ignore_cache } => BrowserCallView::Navigate(
                nav_type@,
                opt_view(*url),
                *ignore_cache,
            ),
            BrowserCall::WaitFor { text, timeout_ms } => BrowserCallView::WaitFor(text@, *timeout_ms),
            BrowserCall::NewPage { url } => BrowserCallView::NewPage(url@),
            BrowserCall::ListPages => BrowserCallView::ListPages,
            BrowserCall::SelectPage { page_idx, bring_to_front } => BrowserCallView::SelectPage(*page_idx, *bring_to_front),
            BrowserCall::ClosePage { page_idx } => BrowserCallView::ClosePage(*page_idx),
            BrowserCall::Drag { from_uid, to_uid } => BrowserCallView::Drag(from_uid@, to_uid@),
            BrowserCall::FillForm { elements } => BrowserCallView::FillForm(
                elements@.map_values(|p: (String, String)| (p.0@, p.1@)),
            ),
            BrowserCall::HandleDialog { accept, prompt_text } => BrowserCallView::HandleDialog(*accept, opt_view(*prompt_text)),
        }
    }
}

/// A flag argument, `false` when absent.
pub open spec fn flag(o: Option<bool>) -> bool {
    match o {
        Some(b) => b,
        None => false,
    }
}

/// The form entries that have both an element id and a value.
pub open spec fn form_pairs(els: Seq<FormElement>) -> Seq<(Seq<char>, Seq<char>)>
    decreases els.len(),
{
    if els.len() == 0 {
        Seq::empty()
    } else {
        let rest = form_pairs(els.drop_last());
        match (els.last().uid, els.last().value) {
            (Some(u), Some(v)) => rest.push((u@, v@)),
            _ => rest,
        }
    }
}

/// A required string argument, or the error naming it.
pub open spec fn need(o: Option<String>, err: Seq<char>) -> Result<Seq<char>, Seq<char>> {
    match o {
        Some(s) => Ok(s@),
        None => Err(err),
    }
}

/// The operation a browser tool call denotes, or why it cannot run.
pub open spec fn browser_call_spec(name: Seq<char>, a: BrowserToolArgs) -> Result<BrowserCallView, Seq<char>> {
    if name == "take_snapshot"@ {
        Ok(BrowserCallView::TakeSnapshot(flag(a.verbose)))
    } else if name == "click"@ {
        match need(a.uid, "uid required"@) {
            Ok(u) => Ok(BrowserCallView::Click(u, flag(a.dbl_click))),
            Err(e) => Err(e),
        }
    } else if name == "hover"@ {
        match need(a.uid, "uid required"@) {
            Ok(u) => Ok(BrowserCallView::Hover(u)),
            Err(e) => Err(e),
        }
    } else if name == "fill"@ {
        match need(a.uid, "uid required"@) {
            Ok(u) => match need(a.value, "value required"@) {
                Ok(v) => Ok(BrowserCallView::Fill(u, v)),
                Err(e) => Err(e),
            },
            Err(e) => Err(e),
        }
    } else if name == "press_key"@ {
        match need(a.key, "key required"@) {
            Ok(k) => Ok(BrowserCallView::PressKey(k)),
            Err(e) => Err(e),
        }
    } else if name == "navigate_page"@ {
        match need(a.nav_type, "type required"@) {
            Ok(t) => Ok(BrowserCallView::Navigate(t, opt_view(a.url), flag(a.ignore_cache))),
            Err(e) => Err(e),
        }
    } else if name == "wait_for"@ {
        match need(a.text, "text required"@) {
            Ok(t) => Ok(
                BrowserCallView::WaitFor(
                    t,
                    match a.timeout {
                        Some(n) => n,
                        None => 5000,
                    },
                ),
            ),
            Err(e) => Err(e),
        }
    } else if name == "new_page"@ {
        match need(a.url, "url required"@) {
            Ok(u) => Ok(BrowserCallView::NewPage(u)),
            Err(e) => Err(e),
        }
    } else if name == "list_pages"@ {
        Ok(BrowserCallView::ListPages)
    } else if name == "select_page"@ {
        match a.page_idx {
            Some(i) => Ok(BrowserCallView::SelectPage(i as usize, flag(a.bring_to_front))),
            None => Err("pageIdx required"@),
        }
    } else if name == "close_page"@ {
        match a.page_idx {
            Some(i) => Ok(BrowserCallView::ClosePage(i as usize)),
            None => Err("pageIdx required"@),
        }
    } else if name == "drag"@ {
        match need(a.from_uid, "from_uid required"@) {
            Ok(f) => match need(a.to_uid, "to_uid required"@) {
                Ok(t) => Ok(BrowserCallView::Drag(f, t)),
                Err(e) => Err(e),
            },
            Err(e) => Err(e),
        }
    } else if name == "fill_form"@ {
        match a.elements {
            Some(els) => Ok(BrowserCallView::FillForm(form_pairs(els@))),
            None => Err("elements array required"@),
        }
    } else if name == "handle_dialog"@ {
        match a.action {
            Some(act) => Ok(BrowserCallView::HandleDialog(act@ == "accept"@, opt_view(a.prompt_text))),
            None => Err("action required (accept/dismiss)"@),
        }
    } else {
        Err("unknown browser tool: "@ + name)
    }
}

/// The element tools take their arguments as given, in place: `drag`
/// moves from `from_uid` to `to_uid`, `fill` writes `value` into `uid`,
/// `click` and `hover` act on `uid`; a missing argument is named in the
/// error.
pub proof fn lemma_browser_call_args(a: BrowserToolArgs)
    ensures
        (a.from_uid is Some && a.to_uid is Some) ==> browser_call_spec("drag"@, a)
            == Ok::<BrowserCallView, Seq<char>>(BrowserCallView::Drag(a.from_uid.unwrap()@, a.to_uid.unwrap()@)),
        a.from_uid is None ==> browser_call_spec("drag"@, a) == Err::<BrowserCallView, Seq<char>>("from_uid required"@),
        (a.from_uid is Some && a.to_uid is None) ==> browser_call_spec("drag"@, a)
            == Err::<BrowserCallView, Seq<char>>("to_uid required"@),
        (a.uid is Some && a.value is Some) ==> browser_call_spec("fill"@, a)
            == Ok::<BrowserCallView, Seq<char>>(BrowserCallView::Fill(a.uid.unwrap()@, a.value.unwrap()@)),
        a.uid matches Some(u) ==> browser_call_spec("click"@, a)
            == Ok::<BrowserCallView, Seq<char>>(BrowserCallView::Click(u@, a.dbl_click == Some(true))),
        a.uid matches Some(u) ==> browser_call_spec("hover"@, a)
            == Ok::<BrowserCallView, Seq<char>>(BrowserCallView::Hover(u@)),
        a.uid is None ==> browser_call_spec("click"@, a) == Err::<BrowserCallView, Seq<char>>("uid required"@),
{
    reveal_strlit("take_snapshot");
    reveal_strlit("click");
    reveal_strlit("hover");
    reveal_strlit("fill");
    reveal_strlit("press_key");
    reveal_strlit("navigate_page");
    reveal_strlit("wait_for");
    reveal_strlit("new_page");
    reveal_strlit("list_pages");
    reveal_strlit("select_page");
    reveal_strlit("close_page");
    reveal_strlit("drag");
    assert("drag"@[0] == 'd' && "fill"@[0] == 'f' && "click"@[0] == 'c' && "hover"@[0] == 'h');
    assert("drag"@ != "fill"@);
    assert("hover"@ != "click"@);
}

fn need_exec(o: Option<String>, err: &str) -> (r: Result<String, String>)
    ensures
        match r {
            Ok(s) => need(o, err@) == Ok::<Seq<char>, Seq<char>>(s@),
            Err(e) => need(o, err@) == Err::<Seq<char>, Seq<char>>(e@),
        },
{
    match o {
        Some(s) => Ok(s),
        None => Err(String::from_str(err)),
    }
}

fn flag_exec(o: Option<bool>) -> (r: bool)
    ensures
        r == flag(o),
{
    match o {
        Some(b) => b,
        None => false,
    }
}

fn form_pairs_exec(els: Vec<FormElement>) -> (r: Vec<(String, String)>)
    ensures
        r@.map_values(|p: (String, String)| (p.0@, p.1@)) == form_pairs(els@),
{
    let mut r: Vec<(String, String)> = Vec::new();
    let mut i: usize = 0;
    while i < els.len()
        invariant
            i <= els@.len(),
            r@.map_values(|p: (String, String)| (p.0@, p.1@)) == form_pairs(els@.take(i as int)),
        decreases els@.len() - i,
    {
        proof {
            assert(els@.take(i + 1).drop_last() == els@.take(i as int));
            assert(els@.take(i + 1).last() == els@[i as int]);
        }
        let e = &els[i];
        match (&e.uid, &e.value) {
            (Some(u), Some(v)) => {
                let ghost before = r@;
                r.push((u.clone(), v.clone()));
                assert(r@.map_values(|p: (String, String)| (p.0@, p.1@)) =~= before.map_values(
                    |p: (String, String)| (p.0@, p.1@),
                ).push((u@, v@)));
            },
            _ => {},
        }
        i = i + 1;
    }
    assert(els@.take(els@.len() as int) == els@);
    r
}

/// Checks the arguments of a browser tool call and names the operation.
pub fn browser_call(name: &str, args: BrowserToolArgs) -> (r: Result<BrowserCall, String>)
    ensures
        match r {
            Ok(c) => browser_call_spec(name@, args) == Ok::<BrowserCallView, Seq<char>>(c@),
            Err(e) => browser_call_spec(name@, args) == Err::<BrowserCallView, Seq<char>>(e@),
        },
        (name@ == "drag"@ && args.from_uid is Some && args.to_uid is Some) ==> (r matches Ok(
            BrowserCall::Drag { from_uid, to_uid },
        ) && from_uid@ == args.from_uid.unwrap()@ && to_uid@ == args.to_uid.unwrap()@),
{
    let ghost a = args;
    proof {
        lemma_browser_call_args(args);
    }
    if str_eq(name, "take_snapshot") {
        Ok(BrowserCall::TakeSnapshot { verbose: flag_exec(args.verbose) })
    } else if str_eq(name, "click") {
        let uid = need_exec(args.uid, "uid required")?;
        Ok(BrowserCall::Click { uid, dbl_click: flag_exec(args.dbl_click) })
    } else if str_eq(name, "hover") {
        let uid = need_exec(args.uid, "uid required")?;
        Ok(BrowserCall::Hover { uid })
    } else if str_eq(name, "fill") {
        let uid = need_exec(args.uid, "uid required")?;
        let value = need_exec(args.value, "value required")?;
        Ok(BrowserCall::Fill { uid, value })
    } else if str_eq(name, "press_key") {
        let key = need_exec(args.key, "key required")?;
        Ok(BrowserCall::PressKey { key })
    } else if str_eq(name, "navigate_page") {
        let nav_type = need_exec(args.nav_type, "type required")?;
        Ok(BrowserCall::Navigate { nav_type, url: args.url, ignore_cache: flag_exec(args.ignore_cache) })
    } else if str_eq(name, "wait_for") {
        let text = need_exec(args.text, "text required")?;
        let timeout_ms = match args.timeout {
            Some(n) => n,
            None => 5000,
        };
        Ok(BrowserCall::WaitFor { text, timeout_ms })
    } else if str_eq(name, "new_page") {
        let url = need_exec(args.url, "url required")?;
        Ok(BrowserCall::NewPage { url })
    } else if str_eq(name, "list_pages") {
        Ok(BrowserCall::ListPages)
    } else if str_eq(name, "select_page") {
        match args.page_idx {
            Some(i) => Ok(BrowserCall::SelectPage { page_idx: i as usize, bring_to_front: flag_exec(args.bring_to_front) }),
            None => Err(String::from_str("pageIdx required")),
        }
    } else if str_eq(name, "close_page") {
        match args.page_idx {
            Some(i) => Ok(BrowserCall::ClosePage { page_idx: i as usize }),
            None => Err(String::from_str("pageIdx required")),
        }
    } else if str_eq(name, "drag") {
        let from_uid = need_exec(args.from_uid, "from_uid required")?;
        let to_uid = need_exec(args.to_uid, "to_uid required")?;
        Ok(BrowserCall::Drag { from_uid, to_uid })
    } else if str_eq(name, "fill_form") {
        match args.elements {
            Some(els) => Ok(BrowserCall::FillForm { elements: form_pairs_exec(els) }),
            None => Err(String::from_str("elements array required")),
        }
    } else if str_eq(name, "handle_dialog") {
        match args.action {
            Some(act) => {
                let accept = str_eq(act.as_str(), "accept");
                Ok(BrowserCall::HandleDialog { accept, prompt_text: args.prompt_text })
            },
            None => Err(String::from_str("action required (accept/dismiss)")),
        }
    } else {
        let mut m = String::from_str("unknown browser tool: ");
        m.append(name);
        Err(m)
    }
}

} // verus!
