//! Character-level text utilities that the rest of the library builds on.
use vstd::prelude::*;

verus! {

/// Appends one character to a `String` (wraps `String::push`).
#[verifier::external_body]
pub fn push_char(s: &mut String, c: char)
    ensures
        final(s)@ == old(s)@.push(c),
{
    s.push(c);
}

/// The characters of a string slice, in order.
pub fn chars_of(s: &str) -> (v: Vec<char>)
    ensures
        v@ == s@,
{
    let mut v: Vec<char> = Vec::new();
    for c in it: s.chars()
        invariant
            v@ == it.seq().take(it.index() as int),
            it.seq() == s@,
    {
        v.push(c);
    }
    v
}


/// A `String` holding exactly the given characters.
pub fn string_of(v: &[char]) -> (s: String)
    ensures
        s@ == v@,
{
    let mut s = String::new();
    let mut i: usize = 0;
    while i < v.len()
        invariant
            i <= v@.len(),
            s@ == v@.take(i as int),
        decreases v@.len() - i,
    {
        push_char(&mut s, v[i]);
        assert(v@.take(i + 1) == v@.take(i as int).push(v@[i as int]));
        i = i + 1;
    }
    assert(v@.take(v@.len() as int) == v@);
    s
}

/// `needle` occurs in `hay` starting at position `i`.
pub open spec fn occurs_at(hay: Seq<char>, needle: Seq<char>, i: int) -> bool {
    0 <= i && i + needle.len() <= hay.len() && hay.subrange(i, i + needle.len()) == needle
}

/// `needle` occurs somewhere in `hay` (the empty sequence occurs everywhere).
pub open spec fn contains_seq(hay: Seq<char>, needle: Seq<char>) -> bool {
    exists|i: int| occurs_at(hay, needle, i)
}

/// Whether `needle` occurs in `hay` at position `i` (exec).
fn matches_at(hay: &[char], needle: &[char], i: usize) -> (b: bool)
    requires
        i + needle@.len() <= hay@.len(),
    ensures
        b == occurs_at(hay@, needle@, i as int),
{
    let n = hay.len();
    let mut j: usize = 0;
    while j < needle.len()
        invariant
            i + needle@.len() <= hay@.len(),
            n == hay@.len(),
            j <= needle@.len(),
            forall|k: int| 0 <= k < j ==> hay@[i + k] == needle@[k],
        decreases needle@.len() - j,
    {
        if hay[i + j] != needle[j] {
            assert(hay@.subrange(i as int, i + needle@.len())[j as int] != needle@[j as int]);
            return false;
        }
        j = j + 1;
    }
    assert(hay@.subrange(i as int, i + needle@.len()) =~= needle@);
    true
}

/// Whether `needle` occurs anywhere in `hay`.
pub fn contains_chars(hay: &[char], needle: &[char]) -> (b: bool)
    ensures
        b == contains_seq(hay@, needle@),
{
    if needle.len() > hay.len() {
        assert forall|i: int| !occurs_at(hay@, needle@, i) by {}
        return false;
    }
    let last = hay.len() - needle.len();
    let mut i: usize = 0;
    while i <= last
        invariant
            last == hay@.len() - needle@.len(),
            needle@.len() <= hay@.len(),
            forall|k: int| 0 <= k < i ==> !occurs_at(hay@, needle@, k),
        decreases last + 1 - i,
    {
        if matches_at(hay, needle, i) {
            return true;
        }
        if i == last {
            assert forall|k: int| !occurs_at(hay@, needle@, k) by {}
            return false;
        }
        i = i + 1;
    }
    false
}

/// Whether `prefix` is a prefix of `s`.
pub fn starts_with_chars(s: &[char], prefix: &[char]) -> (b: bool)
    ensures
        b == prefix@.is_prefix_of(s@),
{
    if prefix.len() > s.len() {
        return false;
    }
    let r = matches_at(s, prefix, 0);
    proof {
        if r {
            assert forall|k: int| 0 <= k < prefix@.len() implies prefix@[k] == s@[k] by {
                assert(s@.subrange(0, prefix@.len() as int)[k] == s@[k]);
            }
        } else if prefix@.is_prefix_of(s@) {
            assert(s@.subrange(0, prefix@.len() as int) =~= prefix@);
        }
    }
    r
}

/// Whether `suffix` is a suffix of `s`.
pub fn ends_with_chars(s: &[char], suffix: &[char]) -> (b: bool)
    ensures
        b == suffix@.is_suffix_of(s@),
{
    if suffix.len() > s.len() {
        return false;
    }
    let start = s.len() - suffix.len();
    let r = matches_at(s, suffix, start);
    proof {
        if r {
            assert forall|k: int| 0 <= k < suffix@.len() implies suffix@[k] == s@[s@.len() - suffix@.len() + k] by {
                assert(s@.subrange(start as int, start + suffix@.len())[k] == s@[start + k]);
            }
        } else if suffix@.is_suffix_of(s@) {
            assert(s@.subrange(start as int, start + suffix@.len()) =~= suffix@);
        }
    }
    r
}


/// The characters that carry the Unicode `White_Space` property, which is
/// the set `char::is_whitespace` and `str::trim` use.
pub open spec fn is_ws(c: char) -> bool {
    let u = c as u32;
    ||| 0x09 <= u <= 0x0D
    ||| u == 0x20
    ||| u == 0x85
    ||| u == 0xA0
    ||| u == 0x1680
    ||| 0x2000 <= u <= 0x200A
    ||| u == 0x2028
    ||| u == 0x2029
    ||| u == 0x202F
    ||| u == 0x205F
    ||| u == 0x3000
}

/// Whether `c` is a Unicode white-space character.
pub fn is_whitespace(c: char) -> (b: bool)
    ensures
        b == is_ws(c),
{
    let u = c as u32;
    (0x09 <= u && u <= 0x0D) || u == 0x20 || u == 0x85 || u == 0xA0 || u == 0x1680 || (0x2000
        <= u && u <= 0x200A) || u == 0x2028 || u == 0x2029 || u == 0x202F || u == 0x205F || u
        == 0x3000
}

/// `s` without its leading white space.
pub open spec fn trim_start(s: Seq<char>) -> Seq<char>
    decreases s.len(),
{
    if s.len() > 0 && is_ws(s[0]) {
        trim_start(s.drop_first())
    } else {
        s
    }
}

/// `s` without its trailing white space.
pub open spec fn trim_end(s: Seq<char>) -> Seq<char>
    decreases s.len(),
{
    if s.len() > 0 && is_ws(s.last()) {
        trim_end(s.drop_last())
    } else {
        s
    }
}

/// `s` without leading and trailing white space (what `str::trim` returns).
pub open spec fn trim(s: Seq<char>) -> Seq<char> {
    trim_end(trim_start(s))
}

/// The characters `v[a..b]` as a new vector.
pub fn sub_chars(v: &[char], a: usize, b: usize) -> (r: Vec<char>)
    requires
        a <= b <= v@.len(),
    ensures
        r@ == v@.subrange(a as int, b as int),
{
    let mut r: Vec<char> = Vec::new();
    let mut i = a;
    while i < b
        invariant
            a <= i <= b <= v@.len(),
            r@ == v@.subrange(a as int, i as int),
        decreases b - i,
    {
        r.push(v[i]);
        assert(v@.subrange(a as int, i + 1) == v@.subrange(a as int, i as int).push(v@[i as int]));
        i = i + 1;
    }
    r
}

/// `v` with leading and trailing white space removed.
pub fn trim_chars(v: &[char]) -> (r: Vec<char>)
    ensures
        r@ == trim(v@),
{
    let n = v.len();
    let mut a: usize = 0;
    assert(v@.subrange(0, n as int) == v@);
    while a < n && is_whitespace(v[a])
        invariant
            a <= n == v@.len(),
            trim_start(v@) == trim_start(v@.subrange(a as int, n as int)),
        decreases n - a,
    {
        assert(v@.subrange(a as int, n as int).drop_first() == v@.subrange(a + 1, n as int));
        a = a + 1;
    }
    assert(trim_start(v@.subrange(a as int, n as int)) == v@.subrange(a as int, n as int));
    let mut b: usize = n;
    while b > a && is_whitespace(v[b - 1])
        invariant
            a <= b <= n == v@.len(),
            trim_end(v@.subrange(a as int, n as int)) == trim_end(v@.subrange(a as int, b as int)),
        decreases b - a,
    {
        assert(v@.subrange(a as int, b as int).drop_last() == v@.subrange(a as int, b - 1));
        b = b - 1;
    }
    sub_chars(v, a, b)
}

/// The decimal digit character for `d < 10`.
pub open spec fn digit_char(d: nat) -> char {
    ((48 + d) as u32) as char
}

/// The decimal representation of `n`, without leading zeros.
pub open spec fn decimal(n: nat) -> Seq<char>
    decreases n,
{
    if n < 10 {
        seq![digit_char(n)]
    } else {
        decimal(n / 10).push(digit_char(n % 10))
    }
}

/// The decimal representation of a signed integer.
pub open spec fn signed_decimal(n: int) -> Seq<char> {
    if n < 0 {
        seq!['-'] + decimal((-n) as nat)
    } else {
        decimal(n as nat)
    }
}

fn digit(d: u64) -> (c: char)
    requires
        d < 10,
    ensures
        c == digit_char(d as nat),
{
    let b: u8 = 48u8 + d as u8;
    b as char
}

/// Appends the decimal representation of `n` to `out`.
pub fn push_decimal(out: &mut Vec<char>, n: u64)
    ensures
        final(out)@ == old(out)@ + decimal(n as nat),
    decreases n,
{
    if n >= 10 {
        push_decimal(out, n / 10);
    }
    out.push(digit(n % 10));
    proof {
        if n >= 10 {
            assert(decimal(n as nat) == decimal((n / 10) as nat).push(digit_char((n % 10) as nat)));
        }
    }
}

/// Appends the decimal representation of a signed `n` to `out`.
pub fn push_signed_decimal(out: &mut Vec<char>, n: i64)
    ensures
        final(out)@ == old(out)@ + signed_decimal(n as int),
{
    if n < 0 {
        out.push('-');
        let m: u64 = if n == i64::MIN {
            9223372036854775808u64
        } else {
            (-n) as u64
        };
        push_decimal(out, m);
    } else {
        push_decimal(out, n as u64);
    }
}

/// Appends all of `tail` to `out`.
pub fn push_all(out: &mut Vec<char>, tail: &[char])
    ensures
        final(out)@ == old(out)@ + tail@,
{
    let mut i: usize = 0;
    while i < tail.len()
        invariant
            i <= tail@.len(),
            out@ == old(out)@ + tail@.take(i as int),
        decreases tail@.len() - i,
    {
        out.push(tail[i]);
        assert(tail@.take(i + 1) == tail@.take(i as int).push(tail@[i as int]));
        i = i + 1;
    }
    assert(tail@.take(tail@.len() as int) == tail@);
}

/// Appends the characters of a string slice to `out`.
pub fn push_str(out: &mut Vec<char>, tail: &str)
    ensures
        final(out)@ == old(out)@ + tail@,
{
    let t = chars_of(tail);
    push_all(out, &t);
}

/// The lowercase form of a string as `str::to_lowercase` computes it
/// (the Unicode `Lowercase` mapping).
pub uninterp spec fn lowercase(s: Seq<char>) -> Seq<char>;

/// All characters are ASCII.
pub open spec fn all_ascii(s: Seq<char>) -> bool {
    forall|i: int| 0 <= i < s.len() ==> (s[i] as u32) < 128
}

/// ASCII lowercasing: `A`..`Z` become `a`..`z`, everything else is kept.
pub open spec fn ascii_lower(s: Seq<char>) -> Seq<char> {
    s.map_values(|c: char| if 'A' <= c <= 'Z' { ((c as u32) + 32) as char } else { c })
}

/// Wraps `str::to_lowercase`. Its result is named by `lowercase`; on a
/// string made of ASCII characters only, the Unicode mapping lowercases the
/// letters `A`..`Z` and keeps every other character, which the second
/// clause states.
#[verifier::external_body]
pub fn to_lowercase(s: &str) -> (r: String)
    ensures
        r@ == lowercase(s@),
        all_ascii(s@) ==> r@ == ascii_lower(s@),
{
    s.to_lowercase()
}


/// Index of the first `'\n'` in `s`, or `s.len()` when there is none.
pub open spec fn first_nl(s: Seq<char>) -> nat
    decreases s.len(),
{
    if s.len() == 0 {
        0
    } else if s[0] == '\n' {
        0
    } else {
        1 + first_nl(s.drop_first())
    }
}

/// `first_nl` is at most the length.
pub proof fn lemma_first_nl_bound(s: Seq<char>)
    ensures
        first_nl(s) <= s.len(),
    decreases s.len(),
{
    if s.len() > 0 && s[0] != '\n' {
        lemma_first_nl_bound(s.drop_first());
    }
}

/// Characterises `first_nl` by the position of the first newline.
pub proof fn lemma_first_nl_at(s: Seq<char>, k: int)
    requires
        0 <= k <= s.len(),
        forall|i: int| 0 <= i < k ==> s[i] != '\n',
        k == s.len() || s[k] == '\n',
    ensures
        first_nl(s) == k,
    decreases k,
{
    if k > 0 {
        lemma_first_nl_at(s.drop_first(), k - 1);
    }
}

/// No newline comes before the first one.
pub proof fn lemma_no_nl_before(s: Seq<char>, i: int)
    requires
        0 <= i < first_nl(s),
    ensures
        s[i] != '\n',
    decreases s.len(),
{
    lemma_first_nl_bound(s);
    if i > 0 {
        assert(s.drop_first()[i - 1] == s[i]);
        lemma_no_nl_before(s.drop_first(), i - 1);
    }
}

/// The first newline is a newline, when there is one.
pub proof fn lemma_nl_at_first(s: Seq<char>)
    requires
        first_nl(s) < s.len(),
    ensures
        s[first_nl(s) as int] == '\n',
    decreases s.len(),
{
    if s[0] != '\n' {
        lemma_nl_at_first(s.drop_first());
        assert(s.drop_first()[first_nl(s.drop_first()) as int] == s[first_nl(s) as int]);
    }
}

/// No line of `s` holds a newline.
pub proof fn lemma_lines_no_nl(s: Seq<char>)
    ensures
        forall|j: int, i: int|
            0 <= j < lines(s).len() && 0 <= i < lines(s)[j].len() ==> #[trigger] lines(s)[j][i] != '\n',
    decreases s.len(),
{
    if s.len() > 0 {
        lemma_first_nl_bound(s);
        let k = first_nl(s) as int;
        if k >= s.len() {
            assert forall|i: int| 0 <= i < s.len() implies s[i] != '\n' by {
                lemma_no_nl_before(s, i);
            }
            assert(lines(s) == seq![s]);
        } else {
            lemma_lines_no_nl(s.skip(k + 1));
            let head = strip_cr(s.take(k));
            assert forall|i: int| 0 <= i < head.len() implies head[i] != '\n' by {
                assert(head[i] == s[i]);
                lemma_no_nl_before(s, i);
            }
            let tail = lines(s.skip(k + 1));
            assert(lines(s) == seq![head] + tail);
            assert forall|j: int, i: int| 0 <= j < lines(s).len() && 0 <= i < lines(s)[j].len() implies #[trigger] lines(
                s,
            )[j][i] != '\n' by {
                if j > 0 {
                    assert(lines(s)[j] == tail[j - 1]);
                }
            }
        }
    }
}

/// Joining pieces with a first piece in front of them.
pub proof fn lemma_join_front(a: Seq<char>, rest: Seq<Seq<char>>, sep: Seq<char>)
    ensures
        join(seq![a] + rest, sep) == (if rest.len() == 0 {
            a
        } else {
            a + sep + join(rest, sep)
        }),
    decreases rest.len(),
{
    let l = seq![a] + rest;
    if rest.len() == 0 {
        assert(l == seq![a]);
    } else {
        assert(l.drop_last() == seq![a] + rest.drop_last());
        assert(l.last() == rest.last());
        lemma_join_front(a, rest.drop_last(), sep);
        if rest.len() == 1 {
            assert(rest.drop_last().len() == 0);
            assert(join(rest, sep) == rest[0]);
        } else {
            assert(a + sep + join(rest.drop_last(), sep) + sep + rest.last() == a + sep + (join(
                rest.drop_last(),
                sep,
            ) + sep + rest.last()));
        }
    }
}

/// Splitting pieces joined by newlines gives them back, each but the last
/// without one trailing carriage return, and the last unless it is empty.
pub proof fn lemma_lines_of_join(l: Seq<Seq<char>>)
    requires
        l.len() > 0,
        forall|j: int, i: int| 0 <= j < l.len() && 0 <= i < l[j].len() ==> #[trigger] l[j][i] != '\n',
    ensures
        lines(join(l, "\n"@)) == l.drop_last().map_values(|x: Seq<char>| strip_cr(x)) + (if l.last().len() > 0 {
            seq![l.last()]
        } else {
            Seq::<Seq<char>>::empty()
        }),
    decreases l.len(),
{
    broadcast use vstd::string::group_string_axioms;
    reveal_strlit("\n");
    let a = l[0];
    let r = l.drop_first();
    assert(l == seq![a] + r);
    lemma_join_front(a, r, "\n"@);
    assert forall|i: int| 0 <= i < a.len() implies a[i] != '\n' by {
        assert(l[0][i] == a[i]);
    }
    if r.len() == 0 {
        if a.len() > 0 {
            lemma_first_nl_at(a, a.len() as int);
            assert(lines(a) == seq![a]);
        }
        assert(l.drop_last().map_values(|x: Seq<char>| strip_cr(x)) =~= Seq::<Seq<char>>::empty());
    } else {
        let j = join(r, "\n"@);
        let s = a + "\n"@ + j;
        assert(s[a.len() as int] == '\n');
        lemma_first_nl_at(s, a.len() as int);
        assert(s.take(a.len() as int) == a);
        assert(s.skip(a.len() as int + 1) == j);
        assert forall|jj: int, i: int| 0 <= jj < r.len() && 0 <= i < r[jj].len() implies #[trigger] r[jj][i] != '\n' by {
            assert(r[jj] == l[jj + 1]);
        }
        lemma_lines_of_join(r);
        assert(r.last() == l.last());
        assert(l.drop_last().map_values(|x: Seq<char>| strip_cr(x)) =~= seq![strip_cr(a)] + r.drop_last().map_values(
            |x: Seq<char>| strip_cr(x),
        ));
    }
}

/// `s` without one trailing carriage return.
pub open spec fn strip_cr(s: Seq<char>) -> Seq<char> {
    if s.len() > 0 && s.last() == '\r' {
        s.drop_last()
    } else {
        s
    }
}

/// The lines of `s` as `str::lines` yields them: split at `'\n'`, a `'\r'`
/// right before a `'\n'` is dropped, and a final line ending adds no
/// empty line.
pub open spec fn lines(s: Seq<char>) -> Seq<Seq<char>>
    decreases s.len(),
{
    if s.len() == 0 {
        Seq::empty()
    } else if first_nl(s) >= s.len() {
        seq![s]
    } else {
        seq![strip_cr(s.take(first_nl(s) as int))] + lines(s.skip(first_nl(s) as int + 1))
    }
}

fn strip_cr_chars(v: Vec<char>) -> (r: Vec<char>)
    ensures
        r@ == strip_cr(v@),
{
    let mut v = v;
    if v.len() > 0 && v[v.len() - 1] == '\r' {
        v.pop();
    }
    v
}

/// The lines of `v` (see `lines`).
pub fn lines_of(v: &[char]) -> (r: Vec<Vec<char>>)
    ensures
        r.deep_view() == lines(v@),
{
    let n = v.len();
    let mut out: Vec<Vec<char>> = Vec::new();
    let mut start: usize = 0;
    let mut j: usize = 0;
    assert(v@.subrange(0, n as int) == v@);
    while j < n
        invariant
            start <= j <= n == v@.len(),
            lines(v@) == out.deep_view() + lines(v@.subrange(start as int, n as int)),
            forall|k: int| start <= k < j ==> v@[k] != '\n',
        decreases n - j,
    {
        if v[j] == '\n' {
            let ghost rest = v@.subrange(start as int, n as int);
            proof {
                lemma_first_nl_at(rest, j - start);
                assert(rest.take(j - start) == v@.subrange(start as int, j as int));
                assert(rest.skip(j - start + 1) == v@.subrange(j + 1, n as int));
            }
            let line = strip_cr_chars(sub_chars(v, start, j));
            let ghost before = out.deep_view();
            out.push(line);
            proof {
                lemma_chars_deep_view(line);
                assert(out.deep_view() =~= before.push(line@));
                assert(lines(rest) == seq![line@] + lines(v@.subrange(j + 1, n as int)));
                assert(before + lines(rest) == before.push(line@) + lines(v@.subrange(j + 1, n as int)));
            }
            start = j + 1;
        }
        j = j + 1;
    }
    if start < n {
        let ghost rest = v@.subrange(start as int, n as int);
        proof {
            lemma_first_nl_at(rest, n - start);
        }
        let line = sub_chars(v, start, n);
        let ghost before = out.deep_view();
        out.push(line);
        proof {
            lemma_chars_deep_view(line);
            assert(out.deep_view() =~= before.push(line@));
            assert(before + lines(rest) == before.push(line@));
        }
    } else {
        assert(out.deep_view() + lines(v@.subrange(start as int, n as int)) == out.deep_view());
    }
    out
}

/// A character vector's deep view is its view.
pub proof fn lemma_chars_deep_view(v: Vec<char>)
    ensures
        v.deep_view() == v@,
{
    assert(v.deep_view() =~= v@);
}

/// The pieces of `list` joined by `sep`.
pub open spec fn join(list: Seq<Seq<char>>, sep: Seq<char>) -> Seq<char>
    decreases list.len(),
{
    if list.len() == 0 {
        Seq::empty()
    } else if list.len() == 1 {
        list[0]
    } else {
        join(list.drop_last(), sep) + sep + list.last()
    }
}

/// The pieces of `list` joined by `sep`.
pub fn join_chars(list: &[Vec<char>], sep: &[char]) -> (r: Vec<char>)
    ensures
        r@ == join(list.deep_view(), sep@),
{
    let mut r: Vec<char> = Vec::new();
    let mut i: usize = 0;
    let ghost dv = list.deep_view();
    while i < list.len()
        invariant
            i <= list@.len(),
            dv == list.deep_view(),
            dv.len() == list@.len(),
            r@ == join(dv.take(i as int), sep@),
        decreases list@.len() - i,
    {
        proof {
            assert(dv.take(i + 1).drop_last() == dv.take(i as int));
            assert(dv.take(i + 1).last() == list@[i as int]@);
        }
        if i > 0 {
            push_all(&mut r, sep);
        } else {
            assert(dv.take(1) == seq![dv[0]]);
        }
        push_all(&mut r, &list[i]);
        i = i + 1;
    }
    assert(dv.take(list@.len() as int) == dv);
    r
}


/// Whether two character sequences are equal.
pub fn eq_chars(a: &[char], b: &[char]) -> (r: bool)
    ensures
        r == (a@ == b@),
{
    if a.len() != b.len() {
        return false;
    }
    let mut i: usize = 0;
    while i < a.len()
        invariant
            i <= a@.len() == b@.len(),
            forall|k: int| 0 <= k < i ==> a@[k] == b@[k],
        decreases a@.len() - i,
    {
        if a[i] != b[i] {
            return false;
        }
        i = i + 1;
    }
    assert(a@ =~= b@);
    true
}

/// Whether two string slices hold the same characters.
pub fn str_eq(a: &str, b: &str) -> (r: bool)
    ensures
        r == (a@ == b@),
{
    let x = chars_of(a);
    let y = chars_of(b);
    eq_chars(&x, &y)
}


/// Index of the first `c` in `s`, or `s.len()` when there is none.
pub open spec fn first_of(s: Seq<char>, c: char) -> nat
    decreases s.len(),
{
    if s.len() == 0 {
        0
    } else if s[0] == c {
        0
    } else {
        1 + first_of(s.drop_first(), c)
    }
}

/// Characterises `first_of` by the position of the first `c`.
pub proof fn lemma_first_of_at(s: Seq<char>, c: char, k: int)
    requires
        0 <= k <= s.len(),
        forall|i: int| 0 <= i < k ==> s[i] != c,
        k == s.len() || s[k] == c,
    ensures
        first_of(s, c) == k,
    decreases k,
{
    if k > 0 {
        lemma_first_of_at(s.drop_first(), c, k - 1);
    }
}

/// The pieces of `s` between occurrences of `c` (what `str::split` with a
/// `char` yields; there is always at least one piece).
pub open spec fn split_on(s: Seq<char>, c: char) -> Seq<Seq<char>>
    decreases s.len(),
{
    if first_of(s, c) >= s.len() {
        seq![s]
    } else {
        seq![s.take(first_of(s, c) as int)] + split_on(s.skip(first_of(s, c) as int + 1), c)
    }
}

/// The pieces of `v` between occurrences of `c`.
pub fn split_chars(v: &[char], c: char) -> (r: Vec<Vec<char>>)
    ensures
        r.deep_view() == split_on(v@, c),
{
    let n = v.len();
    let mut out: Vec<Vec<char>> = Vec::new();
    let mut start: usize = 0;
    let mut j: usize = 0;
    assert(v@.subrange(0, n as int) == v@);
    while j < n
        invariant
            start <= j <= n == v@.len(),
            split_on(v@, c) == out.deep_view() + split_on(v@.subrange(start as int, n as int), c),
            forall|k: int| start <= k < j ==> v@[k] != c,
        decreases n - j,
    {
        if v[j] == c {
            let ghost rest = v@.subrange(start as int, n as int);
            proof {
                lemma_first_of_at(rest, c, j - start);
                assert(rest.take(j - start) == v@.subrange(start as int, j as int));
                assert(rest.skip(j - start + 1) == v@.subrange(j + 1, n as int));
            }
            let piece = sub_chars(v, start, j);
            let ghost before = out.deep_view();
            out.push(piece);
            proof {
                lemma_chars_deep_view(piece);
                assert(out.deep_view() =~= before.push(piece@));
            }
            start = j + 1;
        }
        j = j + 1;
    }
    let ghost rest = v@.subrange(start as int, n as int);
    proof {
        lemma_first_of_at(rest, c, n - start);
    }
    let piece = sub_chars(v, start, n);
    let ghost before = out.deep_view();
    out.push(piece);
    proof {
        lemma_chars_deep_view(piece);
        assert(out.deep_view() =~= before.push(piece@));
    }
    out
}


/// Index of the first occurrence of `needle` in `hay`, if there is one.
pub fn find_chars(hay: &[char], needle: &[char]) -> (r: Option<usize>)
    ensures
        match r {
            Some(i) => occurs_at(hay@, needle@, i as int)
                && forall|k: int| 0 <= k < i ==> !occurs_at(hay@, needle@, k),
            None => !contains_seq(hay@, needle@),
        },
{
    if needle.len() > hay.len() {
        assert forall|i: int| !occurs_at(hay@, needle@, i) by {}
        return None;
    }
    let last = hay.len() - needle.len();
    let mut i: usize = 0;
    while i <= last
        invariant
            last == hay@.len() - needle@.len(),
            needle@.len() <= hay@.len(),
            forall|k: int| 0 <= k < i ==> !occurs_at(hay@, needle@, k),
        decreases last + 1 - i,
    {
        if matches_at(hay, needle, i) {
            return Some(i);
        }
        if i == last {
            assert forall|k: int| !occurs_at(hay@, needle@, k) by {}
            return None;
        }
        i = i + 1;
    }
    None
}

/// The `pieces` occur in `s` one after another, in this order and without
/// overlapping; any characters may stand between two of them.
pub open spec fn in_order(s: Seq<char>, pieces: Seq<Seq<char>>) -> bool
    decreases pieces.len(),
{
    if pieces.len() == 0 {
        true
    } else {
        exists|i: int|
            #[trigger] occurs_at(s, pieces[0], i) && in_order(
                s.skip(i + pieces[0].len()),
                pieces.drop_first(),
            )
    }
}

/// Pieces found in order in a suffix of `s` are found in order in `s`.
pub proof fn lemma_in_order_suffix(s: Seq<char>, d: int, pieces: Seq<Seq<char>>)
    requires
        0 <= d <= s.len(),
        in_order(s.skip(d), pieces),
    ensures
        in_order(s, pieces),
{
    if pieces.len() > 0 {
        let t = s.skip(d);
        let n = pieces[0].len();
        let i = choose|i: int|
            #[trigger] occurs_at(t, pieces[0], i) && in_order(t.skip(i + n), pieces.drop_first());
        assert(t.subrange(i, i + n) =~= s.subrange(i + d, i + d + n));
        assert(occurs_at(s, pieces[0], i + d));
        assert(t.skip(i + n) =~= s.skip(i + d + n));
    }
}

/// Looking for the pieces in order, it is enough to take the first
/// occurrence of the first piece and look for the others after it.
pub proof fn lemma_in_order_first(s: Seq<char>, pieces: Seq<Seq<char>>, i0: int)
    requires
        pieces.len() > 0,
        occurs_at(s, pieces[0], i0),
        forall|k: int| 0 <= k < i0 ==> !occurs_at(s, pieces[0], k),
    ensures
        in_order(s, pieces) == in_order(s.skip(i0 + pieces[0].len()), pieces.drop_first()),
{
    let n = pieces[0].len();
    let rest = pieces.drop_first();
    if in_order(s, pieces) {
        let j = choose|j: int| #[trigger] occurs_at(s, pieces[0], j) && in_order(s.skip(j + n), rest);
        assert(j >= i0);
        let a = s.skip(i0 + n);
        assert(a.skip(j - i0) =~= s.skip(j + n));
        lemma_in_order_suffix(a, j - i0, rest);
    }
}

/// Whether the `pieces` occur in `hay` in order (see `in_order`); each
/// piece is taken at its first occurrence after the previous one.
pub fn in_order_chars(hay: &[char], pieces: &Vec<Vec<char>>) -> (b: bool)
    ensures
        b == in_order(hay@, pieces.deep_view()),
{
    let ghost all = pieces.deep_view();
    let mut rest: Vec<char> = sub_chars(hay, 0, hay.len());
    assert(hay@.subrange(0, hay@.len() as int) == hay@);
    assert(all.skip(0) == all);
    let mut j: usize = 0;
    while j < pieces.len()
        invariant
            j <= pieces@.len(),
            all == pieces.deep_view(),
            all.len() == pieces@.len(),
            in_order(hay@, all) == in_order(rest@, all.skip(j as int)),
        decreases pieces@.len() - j,
    {
        let p = &pieces[j];
        let ghost tail = all.skip(j as int);
        proof {
            lemma_chars_deep_view(*p);
            assert(all[j as int] == p.deep_view());
            assert(tail[0] == p@);
            assert(tail.drop_first() == all.skip(j + 1));
        }
        match find_chars(rest.as_slice(), p.as_slice()) {
            Some(i) => {
                proof {
                    lemma_in_order_first(rest@, tail, i as int);
                }
                let n = rest.len();
                let next = sub_chars(rest.as_slice(), i + p.len(), n);
                assert(next@ == rest@.skip(i + p@.len()));
                rest = next;
            },
            None => {
                return false;
            },
        }
        j = j + 1;
    }
    assert(all.skip(j as int).len() == 0);
    true
}

/// The pieces of a pattern between its `.*` wildcards, `cur` being the
/// piece gathered so far.
pub open spec fn wild_pieces_from(p: Seq<char>, cur: Seq<char>) -> Seq<Seq<char>>
    decreases p.len(),
{
    if p.len() == 0 {
        seq![cur]
    } else if p.len() >= 2 && p[0] == '.' && p[1] == '*' {
        seq![cur] + wild_pieces_from(p.skip(2), Seq::empty())
    } else {
        wild_pieces_from(p.drop_first(), cur.push(p[0]))
    }
}

/// The pieces of a pattern between its `.*` wildcards (a pattern without
/// one is a single piece).
pub open spec fn wild_pieces(p: Seq<char>) -> Seq<Seq<char>> {
    wild_pieces_from(p, Seq::empty())
}

/// Splits a pattern at its `.*` wildcards.
pub fn wild_pieces_chars(p: &[char]) -> (r: Vec<Vec<char>>)
    ensures
        r.deep_view() == wild_pieces(p@),
{
    let n = p.len();
    let mut out: Vec<Vec<char>> = Vec::new();
    let mut cur: Vec<char> = Vec::new();
    let mut i: usize = 0;
    assert(p@.skip(0) == p@);
    assert(out.deep_view() =~= Seq::<Seq<char>>::empty());
    assert(cur@ =~= Seq::<char>::empty());
    while i < n
        invariant
            i <= n == p@.len(),
            wild_pieces(p@) == out.deep_view() + wild_pieces_from(p@.skip(i as int), cur@),
        decreases n - i,
    {
        let ghost s = p@.skip(i as int);
        if i + 1 < n && p[i] == '.' && p[i + 1] == '*' {
            assert(s[0] == '.' && s[1] == '*');
            assert(s.skip(2) == p@.skip(i + 2));
            let ghost before = out.deep_view();
            let ghost piece = cur@;
            out.push(cur);
            proof {
                assert(out.deep_view()[before.len() as int] == out@[before.len() as int].deep_view());
                lemma_chars_deep_view(out@[before.len() as int]);
                assert(out.deep_view() =~= before.push(piece));
                assert(before + (seq![piece] + wild_pieces_from(s.skip(2), Seq::empty()))
                    =~= before.push(piece) + wild_pieces_from(s.skip(2), Seq::empty()));
            }
            cur = Vec::new();
            assert(cur@ =~= Seq::<char>::empty());
            i = i + 2;
        } else {
            assert(s[0] == p@[i as int]);
            assert(s.drop_first() == p@.skip(i + 1));
            cur.push(p[i]);
            i = i + 1;
        }
    }
    let ghost before = out.deep_view();
    let ghost piece = cur@;
    assert(p@.skip(i as int).len() == 0);
    out.push(cur);
    proof {
        assert(out.deep_view()[before.len() as int] == out@[before.len() as int].deep_view());
        lemma_chars_deep_view(out@[before.len() as int]);
        assert(out.deep_view() =~= before.push(piece));
    }
    out
}

/// The empty string literal holds no characters.
pub proof fn lemma_empty_literal()
    ensures
        ""@ == Seq::<char>::empty(),
{
    broadcast use vstd::string::group_string_axioms;

    reveal_strlit("");
    assert(""@ =~= Seq::<char>::empty());
}

} // verus!
