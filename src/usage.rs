//! Token accounting of a chat call: a rough estimate of the input, and the
//! usage the upstream service reports in its event stream (or, failing
//! that, an estimate from the bytes streamed).

use crate::text::{chars_of, push_char};
use vstd::prelude::*;

verus! {

/// One chat message.
#[derive(Debug, Clone)]
pub struct Message {
    pub role: String,
    pub content: String,
}

/// Whether `c` has the Unicode `White_Space` property, as
/// `char::is_whitespace` answers: U+0009 to U+000D, U+0020, U+0085, U+00A0,
/// U+1680, U+2000 to U+200A, U+2028, U+2029, U+202F, U+205F and U+3000.
pub open spec fn unicode_whitespace(c: char) -> bool {
    ('\u{9}' <= c && c <= '\u{d}') || c == ' ' || c == '\u{85}' || c == '\u{a0}' || c == '\u{1680}'
        || ('\u{2000}' <= c && c <= '\u{200a}') || c == '\u{2028}' || c == '\u{2029}' || c == '\u{202f}'
        || c == '\u{205f}' || c == '\u{3000}'
}

/// Whether `c` is whitespace in the Unicode sense.
fn is_whitespace(c: char) -> (r: bool)
    ensures
        r == unicode_whitespace(c),
{
    ('\u{9}' <= c && c <= '\u{d}') || c == ' ' || c == '\u{85}' || c == '\u{a0}' || c == '\u{1680}'
        || ('\u{2000}' <= c && c <= '\u{200a}') || c == '\u{2028}' || c == '\u{2029}' || c == '\u{202f}'
        || c == '\u{205f}' || c == '\u{3000}'
}

/// Whether `c` is a CJK unified ideograph (U+4E00 to U+9FFF).
pub open spec fn is_cjk(c: char) -> bool {
    '\u{4e00}' <= c && c <= '\u{9fff}'
}

/// Whether a whitespace-separated word starts at `i`.
pub open spec fn word_starts(s: Seq<char>, i: int) -> bool {
    !unicode_whitespace(s[i]) && (i == 0 || unicode_whitespace(s[i - 1]))
}

/// CJK characters plus whitespace-separated words of `s`.
pub open spec fn text_estimate(s: Seq<char>) -> nat
    decreases s.len(),
{
    if s.len() == 0 {
        0
    } else {
        let i = s.len() - 1;
        text_estimate(s.drop_last()) + (if is_cjk(s[i]) { 1nat } else { 0 }) + (if word_starts(s, i) { 1nat } else { 0 })
    }
}

/// The estimate of all of `msgs`.
pub open spec fn messages_estimate(msgs: Seq<Message>) -> nat
    decreases msgs.len(),
{
    if msgs.len() == 0 {
        0
    } else {
        messages_estimate(msgs.drop_last()) + text_estimate(msgs.last().content@)
    }
}

/// `n`, or `u32::MAX` where it does not fit.
pub open spec fn clip32(n: nat) -> u32 {
    if n <= u32::MAX { n as u32 } else { u32::MAX }
}

fn text_tokens(s: &str) -> (r: u64)
    ensures
        r == if text_estimate(s@) <= u64::MAX { text_estimate(s@) } else { u64::MAX as nat },
{
    let chars = chars_of(s);
    let mut count: u64 = 0;
    let mut i: usize = 0;
    while i < chars.len()
        invariant
            chars@ == s@,
            i <= chars@.len(),
            count == if text_estimate(s@.subrange(0, i as int)) <= u64::MAX {
                text_estimate(s@.subrange(0, i as int))
            } else {
                u64::MAX as nat
            },
        decreases chars@.len() - i,
    {
        let c = chars[i];
        let mut add: u64 = 0;
        if '\u{4e00}' <= c && c <= '\u{9fff}' {
            add = add + 1;
        }
        if !is_whitespace(c) && (i == 0 || is_whitespace(chars[i - 1])) {
            add = add + 1;
        }
        proof {
            let p = s@.subrange(0, i + 1);
            assert(p.drop_last() =~= s@.subrange(0, i as int));
            assert(p[i as int] == c);
            if i > 0 {
                assert(p[i - 1] == chars@[i - 1]);
            }
        }
        count = if count <= u64::MAX - add { count + add } else { u64::MAX };
        i = i + 1;
    }
    proof {
        assert(s@.subrange(0, i as int) =~= s@);
    }
    count
}

/// A rough count of the input tokens of a chat: one per CJK character and
/// one per whitespace-separated word; it stops at `u32::MAX`.
pub fn estimate_input_tokens(messages: &[Message]) -> (r: u32)
    ensures
        r == clip32(messages_estimate(messages@)),
{
    let mut total: u64 = 0;
    let mut i: usize = 0;
    while i < messages.len()
        invariant
            i <= messages@.len(),
            total == if messages_estimate(messages@.subrange(0, i as int)) <= u32::MAX {
                messages_estimate(messages@.subrange(0, i as int))
            } else {
                u32::MAX as nat
            },
        decreases messages@.len() - i,
    {
        let n = text_tokens(messages[i].content.as_str());
        proof {
            assert(messages@.subrange(0, i + 1).drop_last() =~= messages@.subrange(0, i as int));
        }
        total = if n >= u32::MAX as u64 || total + n >= u32::MAX as u64 { u32::MAX as u64 } else { total + n };
        i = i + 1;
    }
    proof {
        assert(messages@.subrange(0, i as int) =~= messages@);
    }
    total as u32
}

/// Token counts the upstream service reports for one call.
#[derive(Debug, Clone, Copy, PartialEq, Eq, Structural)]
pub struct UsageCounts {
    pub prompt_tokens: u32,
    pub completion_tokens: u32,
    pub prompt_cache_hit_tokens: u32,
    pub prompt_cache_miss_tokens: u32,
}

/// `s` without leading whitespace.
pub open spec fn trim_front(s: Seq<char>) -> Seq<char>
    decreases s.len(),
{
    if s.len() > 0 && unicode_whitespace(s[0]) { trim_front(s.subrange(1, s.len() as int)) } else { s }
}

/// `s` without trailing whitespace.
pub open spec fn trim_back(s: Seq<char>) -> Seq<char>
    decreases s.len(),
{
    if s.len() > 0 && unicode_whitespace(s.last()) { trim_back(s.drop_last()) } else { s }
}

/// `s` without whitespace at either end.
pub open spec fn trim(s: Seq<char>) -> Seq<char> {
    trim_back(trim_front(s))
}

/// Whether `s` starts with `data:`.
pub open spec fn starts_data(s: Seq<char>) -> bool {
    s.len() >= 5 && s.subrange(0, 5) == "data:"@
}

/// `s` without every leading `data:`.
pub open spec fn strip_data(s: Seq<char>) -> Seq<char>
    decreases s.len(),
{
    if starts_data(s) { strip_data(s.subrange(5, s.len() as int)) } else { s }
}

/// The JSON text an event-stream line carries: the text after `data:`,
/// trimmed, unless it is the end marker `[DONE]`.
pub open spec fn payload_of(line: Seq<char>) -> Option<Seq<char>> {
    let t = trim(line);
    if starts_data(t) {
        let p = trim(strip_data(t));
        if p == "[DONE]"@ { None } else { Some(p) }
    } else {
        None
    }
}

/// The `prompt_tokens`, `completion_tokens`, `prompt_cache_hit_tokens` and
/// `prompt_cache_miss_tokens` members of the `usage` object of the JSON
/// text `p`, each where it is an unsigned integer; `None` where `p` is no
/// JSON or has no `usage`.
pub uninterp spec fn usage_fields_of(p: Seq<char>) -> Option<(Option<u64>, Option<u64>, Option<u64>, Option<u64>)>;

/// Relies on serde_json's `from_str` into a `Value`, `Value::get` and
/// `Value::as_u64`: reads the four usage members of a JSON text.
#[verifier::external_body]
fn usage_fields(p: &str) -> (r: Option<(Option<u64>, Option<u64>, Option<u64>, Option<u64>)>)
    ensures
        r == usage_fields_of(p@),
{
    let v: serde_json::Value = serde_json::from_str(p).ok()?;
    let u = v.get("usage")?;
    let field = |k: &str| u.get(k).and_then(|x| x.as_u64());
    Some((
        field("prompt_tokens"),
        field("completion_tokens"),
        field("prompt_cache_hit_tokens"),
        field("prompt_cache_miss_tokens"),
    ))
}

/// A missing count is zero; one too large for `u32` is `u32::MAX`.
pub open spec fn count_of(x: Option<u64>) -> u32 {
    match x {
        Some(n) => clip32(n as nat),
        None => 0,
    }
}

fn count(x: Option<u64>) -> (r: u32)
    ensures
        r == count_of(x),
{
    match x {
        Some(n) => if n <= u32::MAX as u64 { n as u32 } else { u32::MAX },
        None => 0,
    }
}

/// The usage a line reports.
pub open spec fn usage_in_line(line: Seq<char>) -> Option<UsageCounts> {
    match payload_of(line) {
        Some(p) => match usage_fields_of(p) {
            Some(f) => Some(UsageCounts {
                prompt_tokens: count_of(f.0),
                completion_tokens: count_of(f.1),
                prompt_cache_hit_tokens: count_of(f.2),
                prompt_cache_miss_tokens: count_of(f.3),
            }),
            None => None,
        },
        None => None,
    }
}

/// The end of the line starting at or after `i`: the next `\n`, or the end.
pub open spec fn line_end(t: Seq<char>, i: int) -> int
    decreases t.len() - i,
{
    if i >= t.len() {
        t.len() as int
    } else if t[i] == '\n' {
        i
    } else {
        line_end(t, i + 1)
    }
}

/// The usage the first reporting line from `start` on carries.
pub open spec fn usage_from(t: Seq<char>, start: int) -> Option<UsageCounts>
    decreases t.len() - start,
{
    if start < 0 || start > t.len() {
        None
    } else {
        let e = line_end(t, start);
        match usage_in_line(t.subrange(start, e)) {
            Some(u) => Some(u),
            None => if e >= t.len() || e < start { None } else { usage_from(t, e + 1) },
        }
    }
}

proof fn lemma_line_end_bounds(t: Seq<char>, i: int)
    requires
        0 <= i <= t.len(),
    ensures
        i <= line_end(t, i) <= t.len(),
        line_end(t, i) < t.len() ==> t[line_end(t, i)] == '\n',
    decreases t.len() - i,
{
    if i < t.len() && t[i] != '\n' {
        lemma_line_end_bounds(t, i + 1);
    }
}

/// Bounds of `s[lo..hi]` without whitespace at either end.
fn trim_bounds(s: &Vec<char>, lo: usize, hi: usize) -> (r: (usize, usize))
    requires
        lo <= hi <= s@.len(),
    ensures
        lo <= r.0 <= r.1 <= hi,
        s@.subrange(r.0 as int, r.1 as int) == trim(s@.subrange(lo as int, hi as int)),
{
    let mut a = lo;
    while a < hi && is_whitespace(s[a])
        invariant
            lo <= a <= hi <= s@.len(),
            trim_front(s@.subrange(a as int, hi as int)) == trim_front(s@.subrange(lo as int, hi as int)),
        decreases hi - a,
    {
        proof {
            assert(s@.subrange(a as int, hi as int).subrange(1, (hi - a) as int) =~= s@.subrange(a + 1, hi as int));
        }
        a = a + 1;
    }
    proof {
        let f = s@.subrange(a as int, hi as int);
        if f.len() > 0 {
            assert(f[0] == s@[a as int]);
        }
        assert(trim_front(f) == f);
    }
    let mut b = hi;
    while b > a && is_whitespace(s[b - 1])
        invariant
            lo <= a <= b <= hi <= s@.len(),
            trim_back(s@.subrange(a as int, b as int)) == trim(s@.subrange(lo as int, hi as int)),
        decreases b - a,
    {
        proof {
            assert(s@.subrange(a as int, b as int).drop_last() =~= s@.subrange(a as int, b - 1));
        }
        b = b - 1;
    }
    proof {
        let g = s@.subrange(a as int, b as int);
        if g.len() > 0 {
            assert(g.last() == s@[b - 1]);
        }
        assert(trim_back(g) == g);
    }
    (a, b)
}

/// Whether `s[a..b]` starts with `data:`.
fn starts_with_data(s: &Vec<char>, a: usize, b: usize) -> (r: bool)
    requires
        a <= b <= s@.len(),
    ensures
        r == starts_data(s@.subrange(a as int, b as int)),
{
    proof { reveal_strlit("data:"); }
    if b - a < 5 {
        return false;
    }
    let r = s[a] == 'd' && s[a + 1] == 'a' && s[a + 2] == 't' && s[a + 3] == 'a' && s[a + 4] == ':';
    proof {
        let p = s@.subrange(a as int, b as int).subrange(0, 5);
        if r {
            assert(p =~= "data:"@);
        } else if p == "data:"@ {
            assert(p[0] == 'd' && p[1] == 'a' && p[2] == 't' && p[3] == 'a' && p[4] == ':');
        }
    }
    r
}

/// Whether `s[a..b]` is `[DONE]`.
fn is_done_marker(s: &Vec<char>, a: usize, b: usize) -> (r: bool)
    requires
        a <= b <= s@.len(),
    ensures
        r == (s@.subrange(a as int, b as int) == "[DONE]"@),
{
    proof { reveal_strlit("[DONE]"); }
    if b - a != 6 {
        proof {
            assert(s@.subrange(a as int, b as int).len() != "[DONE]"@.len());
        }
        return false;
    }
    let r = s[a] == '[' && s[a + 1] == 'D' && s[a + 2] == 'O' && s[a + 3] == 'N' && s[a + 4] == 'E' && s[a + 5] == ']';
    proof {
        let p = s@.subrange(a as int, b as int);
        if r {
            assert(p =~= "[DONE]"@);
        } else if p == "[DONE]"@ {
            assert(p[0] == '[' && p[1] == 'D' && p[2] == 'O' && p[3] == 'N' && p[4] == 'E' && p[5] == ']');
        }
    }
    r
}

/// The text of `s[a..b]`.
fn text_of(s: &Vec<char>, a: usize, b: usize) -> (r: String)
    requires
        a <= b <= s@.len(),
    ensures
        r@ == s@.subrange(a as int, b as int),
{
    let mut out = String::new();
    let mut i = a;
    while i < b
        invariant
            a <= i <= b <= s@.len(),
            out@ == s@.subrange(a as int, i as int),
        decreases b - i,
    {
        push_char(&mut out, s[i]);
        proof {
            assert(s@.subrange(a as int, i + 1) =~= s@.subrange(a as int, i as int).push(s@[i as int]));
        }
        i = i + 1;
    }
    out
}

/// The usage the line `s[lo..hi]` reports.
fn line_usage(s: &Vec<char>, lo: usize, hi: usize) -> (r: Option<UsageCounts>)
    requires
        lo <= hi <= s@.len(),
    ensures
        r == usage_in_line(s@.subrange(lo as int, hi as int)),
{
    let (a, b) = trim_bounds(s, lo, hi);
    if !starts_with_data(s, a, b) {
        return None;
    }
    let mut c = a;
    while starts_with_data(s, c, b)
        invariant
            a <= c <= b <= s@.len(),
            strip_data(s@.subrange(c as int, b as int)) == strip_data(s@.subrange(a as int, b as int)),
        decreases b - c,
    {
        proof {
            assert(s@.subrange(c as int, b as int).subrange(5, (b - c) as int) =~= s@.subrange(c + 5, b as int));
        }
        c = c + 5;
    }
    let (d, e) = trim_bounds(s, c, b);
    if is_done_marker(s, d, e) {
        return None;
    }
    let payload = text_of(s, d, e);
    match usage_fields(payload.as_str()) {
        Some(f) => Some(UsageCounts {
            prompt_tokens: count(f.0),
            completion_tokens: count(f.1),
            prompt_cache_hit_tokens: count(f.2),
            prompt_cache_miss_tokens: count(f.3),
        }),
        None => None,
    }
}

/// The usage the first reporting line of `text` carries.
pub fn scan_usage(text: &str) -> (r: Option<UsageCounts>)
    ensures
        r == usage_from(text@, 0),
{
    let t = chars_of(text);
    let mut start: usize = 0;
    while start <= t.len()
        invariant
            t@ == text@,
            start <= t@.len() + 1,
            usage_from(t@, 0) == usage_from(t@, start as int),
        decreases t@.len() + 1 - start,
    {
        let mut e = start;
        while e < t.len() && t[e] != '\n'
            invariant
                start <= e <= t@.len(),
                line_end(t@, start as int) == line_end(t@, e as int),
            decreases t@.len() - e,
        {
            e = e + 1;
        }
        proof { lemma_line_end_bounds(t@, start as int); }
        match line_usage(&t, start, e) {
            Some(u) => return Some(u),
            None => {},
        }
        if e >= t.len() {
            return None;
        }
        start = e + 1;
    }
    None
}

/// The accounting state of one streamed response.
#[derive(Debug)]
pub struct StreamUsage {
    bytes_acc: usize,
    recorded: bool,
    username: String,
    real_output_recorded: bool,
}

/// The output estimate from streamed bytes: a token per four bytes.
pub open spec fn byte_estimate(bytes: nat) -> u32 {
    clip32(bytes / 4)
}

impl StreamUsage {
    pub closed spec fn bytes(&self) -> nat {
        self.bytes_acc as nat
    }

    /// Whether the upstream service has reported the usage already.
    pub closed spec fn reported(&self) -> bool {
        self.real_output_recorded
    }

    /// Whether the estimate from bytes was handed out.
    pub closed spec fn estimated(&self) -> bool {
        self.recorded
    }

    pub closed spec fn user(&self) -> Seq<char> {
        self.username@
    }

    pub fn new(username: String) -> (r: Self)
        ensures
            r.bytes() == 0,
            !r.reported(),
            !r.estimated(),
            r.user() == username@,
    {
        StreamUsage { bytes_acc: 0, recorded: false, username, real_output_recorded: false }
    }

    /// Counts a chunk of `len` bytes whose text (where it is valid UTF-8) is
    /// `text`, and returns the usage it reports, until the first report:
    /// after that the chunks are only counted.
    pub fn observe_chunk(&mut self, len: usize, text: Option<&str>) -> (r: Option<UsageCounts>)
        ensures
            final(self).bytes() == if old(self).bytes() + len <= usize::MAX { (old(self).bytes() + len) as nat } else { usize::MAX as nat },
            final(self).estimated() == old(self).estimated(),
            final(self).user() == old(self).user(),
            old(self).reported() ==> r is None && final(self).reported(),
            !old(self).reported() ==> r == (match text {
                Some(t) => usage_from(t@, 0),
                None => None,
            }) && final(self).reported() == r is Some,
    {
        self.bytes_acc = if self.bytes_acc <= usize::MAX - len { self.bytes_acc + len } else { usize::MAX };
        if self.real_output_recorded {
            return None;
        }
        let found = match text {
            Some(t) => scan_usage(t),
            None => None,
        };
        if found.is_some() {
            self.real_output_recorded = true;
        }
        found
    }

    /// At the end of the stream: where no usage was reported, the output
    /// estimate from the bytes, handed out once.
    pub fn finish(&mut self) -> (r: Option<u32>)
        ensures
            final(self).estimated() == (old(self).estimated() || !old(self).reported()),
            final(self).reported() == old(self).reported(),
            final(self).bytes() == old(self).bytes(),
            r == if !old(self).estimated() && !old(self).reported() {
                Some(byte_estimate(old(self).bytes()))
            } else {
                None::<u32>
            },
    {
        if !self.recorded && !self.real_output_recorded {
            let tokens = self.bytes_acc / 4;
            self.recorded = true;
            Some(if tokens <= u32::MAX as usize { tokens as u32 } else { u32::MAX })
        } else {
            None
        }
    }
}

} // verus!
