use crate::kernel::{lemma_segment_end_bound, segment_end};
use crate::listing::{trim_ws, ws_trimmed};
use crate::text::{is_prefix, starts_with, str_eq};
use crate::versions::{split_char, split_parts};
use vstd::prelude::*;

verus! {

/// One line of a configuration file.
pub enum Line {
    Comment(String),
    Assignment { key: String, value: String, raw: String },
    Empty,
}

/// A configuration file kept line by line, so that saving preserves its
/// comments and layout.
pub struct ConfigManager {
    pub lines: Vec<Line>,
    pub path: String,
}

/// The key and the raw value that the assignment pattern
/// `^(_\w+)\s*=\s*["']?([^"'#\n]*)["']?` captures in a line, if it matches.
pub uninterp spec fn assignment_captures(line: Seq<char>) -> Option<(Seq<char>, Seq<char>)>;

/// Relies on `regex::Regex::captures` with the assignment pattern: the
/// captures depend on the line alone.
#[verifier::external_body]
fn match_assignment(line: &str) -> (r: Option<(String, String)>)
    ensures
        match r {
            Some((k, v)) => assignment_captures(line@) == Some((k@, v@)),
            None => assignment_captures(line@) is None,
        },
{
    let re = regex::Regex::new(r#"^(_\w+)\s*=\s*["']?([^"'#\n]*)["']?"#).unwrap();
    re.captures(line).map(|c| (c[1].to_string(), c[2].to_string()))
}

pub open spec fn strip_cr(s: Seq<char>) -> Seq<char> {
    if s.len() > 0 && s.last() == '\r' {
        s.drop_last()
    } else {
        s
    }
}

/// The lines of a text as `str::lines` yields them: split at each `\n`, a
/// `\r` before the `\n` removed, no empty line after a final `\n`.
pub open spec fn text_lines(c: Seq<char>) -> Seq<Seq<char>> {
    let parts = split_parts(c, '\n');
    let n = parts.len();
    let body = Seq::new((n - 1) as nat, |i: int| strip_cr(parts[i]));
    if parts[n - 1].len() > 0 {
        body.push(parts[n - 1])
    } else {
        body
    }
}

pub open spec fn line_view(l: Line) -> LineView {
    match l {
        Line::Comment(s) => LineView::Comment(s@),
        Line::Assignment { key, value, raw } => LineView::Assignment(key@, value@, raw@),
        Line::Empty => LineView::Empty,
    }
}

/// A line as plain text values.
pub ghost enum LineView {
    Comment(Seq<char>),
    Assignment(Seq<char>, Seq<char>, Seq<char>),
    Empty,
}

pub open spec fn lines_view(s: Seq<Line>) -> Seq<LineView> {
    s.map_values(|l: Line| line_view(l))
}

/// How one line of text is read: blank, a comment, or an assignment whose
/// value is the captured text trimmed. Anything else is kept as a comment.
pub open spec fn classify(line: Seq<char>) -> LineView {
    let t = ws_trimmed(line);
    if t.len() == 0 {
        LineView::Empty
    } else if is_prefix("#"@, t) {
        LineView::Comment(line)
    } else {
        match assignment_captures(line) {
            Some((k, v)) => LineView::Assignment(k, ws_trimmed(v), line),
            None => LineView::Comment(line),
        }
    }
}

fn classify_line(line: &str) -> (r: Line)
    ensures
        line_view(r) == classify(line@),
{
    let t = trim_ws(line);
    if t.as_str().unicode_len() == 0 {
        return Line::Empty;
    }
    if starts_with(t.as_str(), "#") {
        return Line::Comment(String::from_str(line));
    }
    match match_assignment(line) {
        Some((k, v)) => Line::Assignment {
            key: k,
            value: trim_ws(v.as_str()),
            raw: String::from_str(line),
        },
        None => Line::Comment(String::from_str(line)),
    }
}

/// The lines after setting `key` to `value`: the first assignment to `key`
/// is rewritten as `key="value"`, or such an assignment is appended.
pub open spec fn spec_set_option(s: Seq<LineView>, key: Seq<char>, value: Seq<char>) -> Seq<LineView> {
    let i = first_assignment(s, key);
    let new_line = LineView::Assignment(key, value, quoted_raw(key, value));
    if i >= 0 {
        s.update(i, new_line)
    } else {
        s.push(new_line)
    }
}

pub open spec fn quoted_raw(key: Seq<char>, value: Seq<char>) -> Seq<char> {
    key + "=\""@ + value + "\""@
}

/// The value of the first assignment to `key`.
pub open spec fn lookup(s: Seq<LineView>, key: Seq<char>) -> Option<Seq<char>>
    decreases s.len(),
{
    if s.len() == 0 {
        None
    } else {
        match s[0] {
            LineView::Assignment(k, v, _) => if k == key {
                Some(v)
            } else {
                lookup(s.drop_first(), key)
            },
            _ => lookup(s.drop_first(), key),
        }
    }
}

/// The index of the first assignment to `key`, or -1.
pub open spec fn first_assignment(s: Seq<LineView>, key: Seq<char>) -> int
    decreases s.len(),
{
    if s.len() == 0 {
        -1
    } else {
        let rest = first_assignment(s.drop_last(), key);
        if rest >= 0 {
            rest
        } else {
            match s.last() {
                LineView::Assignment(k, _, _) => if k == key {
                    s.len() - 1
                } else {
                    -1
                },
                _ => -1,
            }
        }
    }
}

pub open spec fn is_assignment_to(l: LineView, key: Seq<char>) -> bool {
    match l {
        LineView::Assignment(k, _, _) => k == key,
        _ => false,
    }
}

proof fn lemma_first_assignment(s: Seq<LineView>, key: Seq<char>)
    ensures
        -1 <= first_assignment(s, key) < s.len(),
        first_assignment(s, key) >= 0 ==> is_assignment_to(s[first_assignment(s, key)], key),
        forall|j: int|
            0 <= j < s.len() && (first_assignment(s, key) == -1 || j < first_assignment(s, key))
                ==> !is_assignment_to(#[trigger] s[j], key),
        lookup(s, key) == (if first_assignment(s, key) >= 0 {
            match s[first_assignment(s, key)] {
                LineView::Assignment(_, v, _) => Some(v),
                _ => None,
            }
        } else {
            None::<Seq<char>>
        }),
    decreases s.len(),
{
    if s.len() > 0 {
        lemma_first_assignment(s.drop_last(), key);
        assert forall|j: int| 0 <= j < s.len() - 1 implies s.drop_last()[j] == s[j] by {}
        lemma_lookup_index(s, key);
    }
}

proof fn lemma_lookup_index(s: Seq<LineView>, key: Seq<char>)
    ensures
        forall|j: int|
            0 <= j < s.len() && is_assignment_to(#[trigger] s[j], key) && (forall|m: int|
                0 <= m < j ==> !is_assignment_to(#[trigger] s[m], key)) ==> lookup(s, key) == match s[j] {
                LineView::Assignment(_, v, _) => Some(v),
                _ => None,
            },
        (forall|m: int| 0 <= m < s.len() ==> !is_assignment_to(#[trigger] s[m], key)) ==> lookup(s, key)
            is None,
    decreases s.len(),
{
    if s.len() > 0 {
        lemma_lookup_index(s.drop_first(), key);
        assert forall|j: int| 1 <= j < s.len() implies s.drop_first()[j - 1] == s[j] by {}
        assert forall|j: int|
            0 <= j < s.len() && is_assignment_to(#[trigger] s[j], key) && (forall|m: int|
                0 <= m < j ==> !is_assignment_to(#[trigger] s[m], key)) implies lookup(s, key) == match s[j] {
                LineView::Assignment(_, v, _) => Some(v),
                _ => None,
            } by {
            if j > 0 {
                assert(!is_assignment_to(s[0], key));
                assert(s.drop_first()[j - 1] == s[j]);
                assert forall|m: int| 0 <= m < j - 1 implies !is_assignment_to(
                    #[trigger] s.drop_first()[m],
                    key,
                ) by {
                    assert(s.drop_first()[m] == s[m + 1]);
                }
            }
        }
        if forall|m: int| 0 <= m < s.len() ==> !is_assignment_to(#[trigger] s[m], key) {
            assert(!is_assignment_to(s[0], key));
            assert forall|m: int| 0 <= m < s.len() - 1 implies !is_assignment_to(
                #[trigger] s.drop_first()[m],
                key,
            ) by {
                assert(s.drop_first()[m] == s[m + 1]);
            }
        }
    }
}

/// Inserts or replaces `key` in an ordered list of unique keys.
pub open spec fn upsert(m: Seq<(Seq<char>, Seq<char>)>, key: Seq<char>, value: Seq<char>) -> Seq<
    (Seq<char>, Seq<char>),
> {
    if exists|i: int| 0 <= i < m.len() && (#[trigger] m[i]).0 == key {
        let i = choose|i: int| 0 <= i < m.len() && (#[trigger] m[i]).0 == key;
        m.update(i, (key, value))
    } else {
        m.push((key, value))
    }
}

/// Every assignment's key with the value of its last assignment, keys in
/// order of first appearance.
pub open spec fn spec_all_options(s: Seq<LineView>) -> Seq<(Seq<char>, Seq<char>)>
    decreases s.len(),
{
    if s.len() == 0 {
        seq![]
    } else {
        let rest = spec_all_options(s.drop_last());
        match s.last() {
            LineView::Assignment(k, v, _) => upsert(rest, k, v),
            _ => rest,
        }
    }
}

pub open spec fn unique_keys(m: Seq<(Seq<char>, Seq<char>)>) -> bool {
    forall|i: int, j: int| 0 <= i < j < m.len() ==> (#[trigger] m[i]).0 != (#[trigger] m[j]).0
}

pub open spec fn pairs_view(v: Seq<(String, String)>) -> Seq<(Seq<char>, Seq<char>)> {
    v.map_values(|p: (String, String)| (p.0@, p.1@))
}

impl ConfigManager {
    /// Reads a configuration from its text, `content`, as loaded from `path`.
    /// A read error is passed on.
    pub fn load(path: &str, content: Result<String, String>) -> (r: Result<ConfigManager, String>)
        ensures
            content is Err ==> r is Err && r->Err_0 == content->Err_0,
            content is Ok ==> r is Ok && r->Ok_0.path@ == path@ && lines_view(r->Ok_0.lines@)
                == text_lines(content->Ok_0@).map_values(|l: Seq<char>| classify(l)),
    {
        let text = match content {
            Ok(t) => t,
            Err(e) => {
                return Err(e);
            },
        };
        let parts = split_char(text.as_str(), '\n');
        let ghost pv = parts@.map_values(|p: String| p@);
        let ghost want = text_lines(text@).map_values(|l: Seq<char>| classify(l));
        let n = parts.len();
        assert(pv.len() == n);
        proof {
            lemma_split_nonempty(text@, '\n');
        }
        let mut lines: Vec<Line> = Vec::new();
        let mut i: usize = 0;
        while i + 1 < n
            invariant
                n == parts@.len(),
                n >= 1,
                pv == parts@.map_values(|p: String| p@),
                pv == split_parts(text@, '\n'),
                i + 1 <= n,
                want == text_lines(text@).map_values(|l: Seq<char>| classify(l)),
                lines_view(lines@) == want.subrange(0, i as int),
            decreases n - i,
        {
            let p = parts[i].as_str();
            let plen = p.unicode_len();
            let piece = if plen > 0 && p.get_char(plen - 1) == '\r' {
                p.substring_char(0, plen - 1)
            } else {
                p
            };
            assert(piece@ == strip_cr(pv[i as int])) by {
                if plen > 0 && p@[plen - 1] == '\r' {
                    assert(piece@ =~= pv[i as int].drop_last());
                }
            }
            let l = classify_line(piece);
            let ghost before = lines_view(lines@);
            lines.push(l);
            assert(lines_view(lines@) =~= before.push(line_view(l)));
            assert(want.subrange(0, i + 1) =~= want.subrange(0, i as int).push(want[i as int]));
            i = i + 1;
        }
        let last = parts[n - 1].as_str();
        if last.unicode_len() > 0 {
            let l = classify_line(last);
            let ghost before = lines_view(lines@);
            lines.push(l);
            assert(lines_view(lines@) =~= before.push(line_view(l)));
        }
        assert(lines_view(lines@) =~= want);
        Ok(ConfigManager { lines, path: String::from_str(path) })
    }

    /// The value of the first assignment to `key`.
    pub fn get_option(&self, key: &str) -> (r: Option<String>)
        ensures
            match lookup(lines_view(self.lines@), key@) {
                Some(v) => r is Some && r->Some_0@ == v,
                None => r is None,
            },
    {
        let ghost s = lines_view(self.lines@);
        proof {
            lemma_first_assignment(s, key@);
        }
        let mut i: usize = 0;
        while i < self.lines.len()
            invariant
                i <= self.lines@.len(),
                s == lines_view(self.lines@),
                forall|m: int| 0 <= m < i ==> !is_assignment_to(#[trigger] s[m], key@),
                -1 <= first_assignment(s, key@) < s.len(),
                first_assignment(s, key@) >= 0 ==> is_assignment_to(s[first_assignment(s, key@)], key@),
                forall|j: int|
                    0 <= j < s.len() && (first_assignment(s, key@) == -1 || j < first_assignment(s, key@))
                        ==> !is_assignment_to(#[trigger] s[j], key@),
                lookup(s, key@) == (if first_assignment(s, key@) >= 0 {
                    match s[first_assignment(s, key@)] {
                        LineView::Assignment(_, v, _) => Some(v),
                        _ => None,
                    }
                } else {
                    None::<Seq<char>>
                }),
            decreases self.lines@.len() - i,
        {
            assert(s[i as int] == line_view(self.lines@[i as int]));
            match &self.lines[i] {
                Line::Assignment { key: k, value, .. } => {
                    if str_eq(k.as_str(), key) {
                        assert(is_assignment_to(s[i as int], key@));
                        assert(first_assignment(s, key@) == i as int);
                        return Some(value.clone());
                    }
                    assert(!is_assignment_to(s[i as int], key@));
                },
                _ => {
                    assert(!is_assignment_to(s[i as int], key@));
                },
            }
            i = i + 1;
        }
        None
    }

    /// Sets `key` to `value`: the first assignment to `key` is rewritten as
    /// `key="value"`; without one, such an assignment is appended.
    pub fn set_option(&mut self, key: &str, value: &str)
        ensures
            final(self).path == old(self).path,
            lines_view(final(self).lines@) == spec_set_option(lines_view(old(self).lines@), key@, value@),
    {
        let ghost s = lines_view(self.lines@);
        proof {
            lemma_first_assignment(s, key@);
        }
        let mut raw = String::from_str(key);
        raw.append("=\"");
        raw.append(value);
        raw.append("\"");
        let mut i: usize = 0;
        while i < self.lines.len()
            invariant
                i <= self.lines@.len(),
                self.path == old(self).path,
                self.lines@ == old(self).lines@,
                raw@ == quoted_raw(key@, value@),
                s == lines_view(self.lines@),
                -1 <= first_assignment(s, key@) < s.len(),
                first_assignment(s, key@) >= 0 ==> is_assignment_to(s[first_assignment(s, key@)], key@),
                forall|j: int|
                    0 <= j < s.len() && (first_assignment(s, key@) == -1 || j < first_assignment(s, key@))
                        ==> !is_assignment_to(#[trigger] s[j], key@),
                forall|m: int| 0 <= m < i ==> !is_assignment_to(#[trigger] s[m], key@),
            decreases self.lines@.len() - i,
        {
            let hit = match &self.lines[i] {
                Line::Assignment { key: k, .. } => str_eq(k.as_str(), key),
                _ => false,
            };
            if hit {
                assert(is_assignment_to(s[i as int], key@));
                assert(first_assignment(s, key@) == i);
                let l = Line::Assignment {
                    key: String::from_str(key),
                    value: String::from_str(value),
                    raw,
                };
                self.lines.set(i, l);
                assert(lines_view(self.lines@) =~= s.update(i as int, line_view(l)));
                return;
            }
            assert(!is_assignment_to(s[i as int], key@));
            i = i + 1;
        }
        assert(first_assignment(s, key@) == -1);
        let l = Line::Assignment { key: String::from_str(key), value: String::from_str(value), raw };
        self.lines.push(l);
        assert(lines_view(self.lines@) =~= s.push(line_view(l)));
    }

    /// Every key with the value of its last assignment, in order of first
    /// appearance.
    pub fn get_all_options(&self) -> (r: Vec<(String, String)>)
        ensures
            pairs_view(r@) == spec_all_options(lines_view(self.lines@)),
            unique_keys(pairs_view(r@)),
    {
        let ghost s = lines_view(self.lines@);
        let mut out: Vec<(String, String)> = Vec::new();
        let mut i: usize = 0;
        while i < self.lines.len()
            invariant
                i <= self.lines@.len(),
                s == lines_view(self.lines@),
                pairs_view(out@) == spec_all_options(s.subrange(0, i as int)),
                unique_keys(pairs_view(out@)),
            decreases self.lines@.len() - i,
        {
            assert(s.subrange(0, i + 1).drop_last() =~= s.subrange(0, i as int));
            assert(s.subrange(0, i + 1).last() == s[i as int]);
            match &self.lines[i] {
                Line::Assignment { key, value, .. } => {
                    upsert_pair(&mut out, key.as_str(), value.as_str());
                },
                _ => {},
            }
            i = i + 1;
        }
        assert(s.subrange(0, s.len() as int) =~= s);
        out
    }

    /// The file's text: every line as read or rewritten, each followed by a
    /// newline.
    pub fn render(&self) -> (r: String)
        ensures
            r@ == rendered(lines_view(self.lines@)),
    {
        let ghost s = lines_view(self.lines@);
        let mut out = String::new();
        let mut i: usize = 0;
        while i < self.lines.len()
            invariant
                i <= self.lines@.len(),
                s == lines_view(self.lines@),
                out@ == rendered(s.subrange(0, i as int)),
            decreases self.lines@.len() - i,
        {
            assert(s.subrange(0, i + 1).drop_last() =~= s.subrange(0, i as int));
            assert(s.subrange(0, i + 1).last() == s[i as int]);
            match &self.lines[i] {
                Line::Comment(c) => out.append(c.as_str()),
                Line::Assignment { raw, .. } => out.append(raw.as_str()),
                Line::Empty => {},
            }
            out.append("\n");
            i = i + 1;
        }
        assert(s.subrange(0, s.len() as int) =~= s);
        out
    }
}

pub open spec fn line_text(l: LineView) -> Seq<char> {
    match l {
        LineView::Comment(c) => c,
        LineView::Assignment(_, _, raw) => raw,
        LineView::Empty => seq![],
    }
}

pub open spec fn rendered(s: Seq<LineView>) -> Seq<char>
    decreases s.len(),
{
    if s.len() == 0 {
        seq![]
    } else {
        rendered(s.drop_last()) + line_text(s.last()) + "\n"@
    }
}

proof fn lemma_split_nonempty(s: Seq<char>, c: char)
    ensures
        split_parts(s, c).len() >= 1,
    decreases s.len(),
{
    let e = segment_end(s, c);
    lemma_segment_end_bound(s, c);
    if e < s.len() {
        lemma_split_nonempty(s.subrange(e + 1int, s.len() as int), c);
    }
}

pub(crate) fn upsert_pair(out: &mut Vec<(String, String)>, key: &str, value: &str)
    requires
        unique_keys(pairs_view(old(out)@)),
    ensures
        pairs_view(final(out)@) == upsert(pairs_view(old(out)@), key@, value@),
        unique_keys(pairs_view(final(out)@)),
{
    let ghost m = pairs_view(out@);
    let mut i: usize = 0;
    while i < out.len()
        invariant
            i <= out@.len(),
            m == pairs_view(out@),
            m == pairs_view(old(out)@),
            unique_keys(m),
            forall|j: int| 0 <= j < i ==> (#[trigger] m[j]).0 != key@,
        decreases out@.len() - i,
    {
        if str_eq(out[i].0.as_str(), key) {
            assert(m[i as int].0 == key@);
            let ghost chosen = choose|j: int| 0 <= j < m.len() && (#[trigger] m[j]).0 == key@;
            assert(chosen == i) by {
                if chosen != i {
                    assert(m[chosen].0 == m[i as int].0);
                }
            }
            let k = out[i].0.clone();
            out.set(i, (k, String::from_str(value)));
            assert(pairs_view(out@) =~= m.update(i as int, (key@, value@)));
            return;
        }
        i = i + 1;
    }
    out.push((String::from_str(key), String::from_str(value)));
    assert(pairs_view(out@) =~= m.push((key@, value@)));
}

} // verus!
