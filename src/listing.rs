use crate::text::{find, find_from, occurs_at, str_eq};
use crate::versions::{
    compare_versions, spec_compare_versions, CommitInfo, FetchResult, ShortlogResult, VersionInfo,
};
use std::cmp::Ordering;
use vstd::prelude::*;

verus! {

/// A row of the tag listing: the text of its first link, and the text of its
/// date cell, where the row has them.
pub struct TagRow {
    pub link_text: Option<String>,
    pub date: Option<String>,
}

/// A row of the shortlog listing that has a subject link: the link's text and
/// target, and the text of the author cell if present.
pub struct ShortlogRow {
    pub subject: String,
    pub href: Option<String>,
    pub author: Option<String>,
}

/// The first element matching a cell selector inside a row: its text and
/// its `href` attribute.
pub struct Cell {
    pub text: String,
    pub href: Option<String>,
}

pub open spec fn cell_view(c: Option<Cell>) -> Option<(Seq<char>, Option<Seq<char>>)> {
    match c {
        Some(cell) => Some((cell.text@, date_view(cell.href))),
        None => None,
    }
}

pub open spec fn row_view(row: Vec<Option<Cell>>) -> Seq<Option<(Seq<char>, Option<Seq<char>>)>> {
    row@.map_values(|c: Option<Cell>| cell_view(c))
}

pub open spec fn rows_view(rows: Seq<Vec<Option<Cell>>>) -> Seq<Seq<Option<(Seq<char>, Option<Seq<char>>)>>> {
    rows.map_values(|r: Vec<Option<Cell>>| row_view(r))
}

/// What an HTML document yields for a row selector and cell selectors: for
/// each element matching the row selector, in document order, the first
/// element inside it matching each cell selector. `None` where a selector
/// does not parse.
pub uninterp spec fn scraped(body: Seq<char>, rows: Seq<char>, cells: Seq<Seq<char>>) -> Option<
    Seq<Seq<Option<(Seq<char>, Option<Seq<char>>)>>>,
>;

pub open spec fn strs_view(v: Seq<&str>) -> Seq<Seq<char>> {
    v.map_values(|c: &str| c@)
}

/// Relies on scraper's `Html::parse_document`, `Selector::parse` and
/// `ElementRef::select`: the rows matching `rows`, and in each the first
/// element matching each of `cells`, with its text and `href`.
#[verifier::external_body]
fn scrape_rows(body: &str, rows: &str, cells: &Vec<&str>) -> (r: Result<Vec<Vec<Option<Cell>>>, String>)
    ensures
        match r {
            Ok(v) => scraped(body@, rows@, strs_view(cells@)) == Some(rows_view(v@)) && forall|i: int|
                0 <= i < v@.len() ==> (#[trigger] v@[i])@.len() == cells@.len(),
            Err(_) => scraped(body@, rows@, strs_view(cells@)) is None,
        },
{
    let doc = scraper::Html::parse_document(body);
    let row_sel = scraper::Selector::parse(rows).map_err(|e| format!("{:?}", e))?;
    let mut sels = Vec::new();
    for c in cells.iter() {
        sels.push(scraper::Selector::parse(c).map_err(|e| format!("{:?}", e))?);
    }
    Ok(doc.select(&row_sel).map(|row| sels.iter().map(|s| row.select(s).next().map(|el| Cell {
        text: el.text().collect(),
        href: el.attr("href").map(|h| h.to_string()),
    })).collect()).collect())
}

pub open spec fn cell_text(c: Option<(Seq<char>, Option<Seq<char>>)>) -> Option<Seq<char>> {
    match c {
        Some((t, _)) => Some(t),
        None => None,
    }
}

pub open spec fn tag_row_view(r: TagRow) -> (Option<Seq<char>>, Option<Seq<char>>) {
    (date_view(r.link_text), date_view(r.date))
}

pub open spec fn tag_rows_view(v: Seq<TagRow>) -> Seq<(Option<Seq<char>>, Option<Seq<char>>)> {
    v.map_values(|t: TagRow| tag_row_view(t))
}

pub open spec fn tag_of_row(row: Seq<Option<(Seq<char>, Option<Seq<char>>)>>) -> (Option<Seq<char>>, Option<Seq<char>>) {
    (cell_text(row[0]), cell_text(row[1]))
}

/// Per scraped row: the text of its link and of its date cell.
pub open spec fn tags_of_rows(s: Seq<Seq<Option<(Seq<char>, Option<Seq<char>>)>>>) -> Seq<(Option<Seq<char>>, Option<Seq<char>>)> {
    s.map_values(|row: Seq<Option<(Seq<char>, Option<Seq<char>>)>>| tag_of_row(row))
}

/// The cell selectors of the tag listing: the tag's link, the date cell.
pub open spec fn tag_cells() -> Seq<Seq<char>> {
    seq!["a"@, "td:nth-child(3)"@]
}

fn take_text(c: &Option<Cell>) -> (r: Option<String>)
    ensures
        date_view(r) == cell_text(cell_view(*c)),
{
    match c {
        Some(cell) => Some(cell.text.clone()),
        None => None,
    }
}

/// The rows of a tag listing page: each table row's first link text and
/// its date cell's text.
pub fn tag_rows_from_html(body: &str) -> (r: Result<Vec<TagRow>, String>)
    ensures
        match scraped(body@, "tr"@, tag_cells()) {
            Some(s) => r is Ok && tag_rows_view(r->Ok_0@) == tags_of_rows(s),
            None => r is Err,
        },
{
    let cells: Vec<&str> = vec!["a", "td:nth-child(3)"];
    proof {
        reveal_strlit("a");
        reveal_strlit("td:nth-child(3)");
        assert(strs_view(cells@) =~= tag_cells());
    }
    let scr = scrape_rows(body, "tr", &cells)?;
    let ghost sv = rows_view(scr@);
    let mut out: Vec<TagRow> = Vec::new();
    let mut i: usize = 0;
    while i < scr.len()
        invariant
            i <= scr@.len(),
            sv == rows_view(scr@),
            forall|k: int| 0 <= k < scr@.len() ==> (#[trigger] scr@[k])@.len() == 2,
            tag_rows_view(out@) == tags_of_rows(sv.subrange(0, i as int)),
        decreases scr@.len() - i,
    {
        let row = &scr[i];
        assert(row@.len() == 2);
        let t = TagRow { link_text: take_text(&row[0]), date: take_text(&row[1]) };
        let ghost before = out@;
        out.push(t);
        proof {
            assert(sv[i as int] == row_view(scr@[i as int]));
            assert(row_view(scr@[i as int])[0] == cell_view(row@[0]));
            assert(row_view(scr@[i as int])[1] == cell_view(row@[1]));
            let a = tag_rows_view(out@);
            let b = tags_of_rows(sv.subrange(0, i + 1));
            let a0 = tag_rows_view(before);
            let b0 = tags_of_rows(sv.subrange(0, i as int));
            assert(out@ == before.push(t));
            assert(a0.len() == before.len());
            assert(b0.len() == i);
            assert(before.len() == i);
            assert(a.len() == i + 1);
            assert(b.len() == i + 1);
            assert forall|j: int| 0 <= j < a.len() implies a[j] == b[j] by {
                if j < i {
                    assert(out@[j] == before[j]);
                    assert(a[j] == a0[j]);
                    assert(sv.subrange(0, i + 1)[j] == sv.subrange(0, i as int)[j]);
                    assert(b[j] == b0[j]);
                }
            }
            assert(a =~= b);
        }
        i = i + 1;
    }
    assert(sv.subrange(0, scr@.len() as int) =~= sv);
    Ok(out)
}

/// The cell selectors of the shortlog page: the subject link, the author cell.
pub open spec fn shortlog_cells() -> Seq<Seq<char>> {
    seq!["td:nth-child(2) a"@, "td:nth-child(3)"@]
}

pub open spec fn shortlog_row_view(r: ShortlogRow) -> (Seq<char>, Option<Seq<char>>, Option<Seq<char>>) {
    (r.subject@, date_view(r.href), date_view(r.author))
}

/// The shortlog rows that have a subject link.
pub open spec fn shortlog_rows_of(s: Seq<Seq<Option<(Seq<char>, Option<Seq<char>>)>>>) -> Seq<
    (Seq<char>, Option<Seq<char>>, Option<Seq<char>>),
>
    decreases s.len(),
{
    if s.len() == 0 {
        seq![]
    } else {
        let rest = shortlog_rows_of(s.drop_last());
        let row = s.last();
        match row[0] {
            Some((subject, href)) => rest.push((subject, href, cell_text(row[1]))),
            None => rest,
        }
    }
}

/// The rows of a shortlog page that have a subject link: the link's text and
/// target, and the author cell's text.
pub fn shortlog_rows_from_html(body: &str) -> (r: Result<Vec<ShortlogRow>, String>)
    ensures
        match scraped(body@, "table.list tr"@, shortlog_cells()) {
            Some(s) => r is Ok && r->Ok_0@.map_values(|t: ShortlogRow| shortlog_row_view(t))
                == shortlog_rows_of(s),
            None => r is Err,
        },
{
    let cells: Vec<&str> = vec!["td:nth-child(2) a", "td:nth-child(3)"];
    proof {
        reveal_strlit("td:nth-child(2) a");
        reveal_strlit("td:nth-child(3)");
        assert(strs_view(cells@) =~= shortlog_cells());
    }
    let scr = scrape_rows(body, "table.list tr", &cells)?;
    let ghost sv = rows_view(scr@);
    let mut out: Vec<ShortlogRow> = Vec::new();
    let mut i: usize = 0;
    while i < scr.len()
        invariant
            i <= scr@.len(),
            sv == rows_view(scr@),
            forall|k: int| 0 <= k < scr@.len() ==> (#[trigger] scr@[k])@.len() == 2,
            out@.map_values(|t: ShortlogRow| shortlog_row_view(t)) == shortlog_rows_of(
                sv.subrange(0, i as int),
            ),
        decreases scr@.len() - i,
    {
        let row = &scr[i];
        assert(row@.len() == 2);
        proof {
            assert(sv.subrange(0, i + 1).drop_last() =~= sv.subrange(0, i as int));
            assert(sv.subrange(0, i + 1).last() == sv[i as int]);
            assert(sv[i as int] == row_view(scr@[i as int]));
            assert(row_view(scr@[i as int])[0] == cell_view(row@[0]));
            assert(row_view(scr@[i as int])[1] == cell_view(row@[1]));
        }
        match &row[0] {
            Some(link) => {
                let ghost before = out@.map_values(|t: ShortlogRow| shortlog_row_view(t));
                let href = match &link.href {
                    Some(h) => Some(h.clone()),
                    None => None,
                };
                let t = ShortlogRow { subject: link.text.clone(), href, author: take_text(&row[1]) };
                out.push(t);
                assert(out@.map_values(|t: ShortlogRow| shortlog_row_view(t)) =~= before.push(
                    shortlog_row_view(t),
                ));
            },
            None => {},
        }
        i = i + 1;
    }
    assert(sv.subrange(0, scr@.len() as int) =~= sv);
    Ok(out)
}

/// Whether a tag reads as a release version: `v`, digits, a dot, digits,
/// and optionally one more dot and digits.
pub uninterp spec fn version_tag_match(s: Seq<char>) -> bool;

/// `s` without leading and trailing whitespace.
pub uninterp spec fn ws_trimmed(s: Seq<char>) -> Seq<char>;

/// Relies on `regex::Regex::is_match` with the pattern
/// `^v\d+\.\d+(\.\d+)?$`: the answer depends on the text alone.
#[verifier::external_body]
fn is_version_tag(s: &str) -> (r: bool)
    ensures
        r == version_tag_match(s@),
{
    regex::Regex::new(r"^v\d+\.\d+(\.\d+)?$").unwrap().is_match(s)
}

/// Relies on `str::trim`: the result depends on the text alone.
#[verifier::external_body]
pub(crate) fn trim_ws(s: &str) -> (r: String)
    ensures
        r@ == ws_trimmed(s@),
{
    s.trim().to_string()
}

/// Newest first: no version is followed by a newer one.
pub open spec fn sorted_newest_first(s: Seq<VersionInfo>) -> bool {
    forall|i: int, j: int|
        0 <= i < j < s.len() ==> spec_compare_versions(
            (#[trigger] s[i]).version@,
            (#[trigger] s[j]).version@,
        ) != Ordering::Less
}

/// Relies on `slice::sort_by`, which reorders the items so that the comparator
/// never says `Greater` of an earlier item against a later one; the
/// comparator, `compare_versions` reversed, is a total order.
#[verifier::external_body]
fn sort_newest_first(v: &mut Vec<VersionInfo>)
    ensures
        final(v)@.to_multiset() == old(v)@.to_multiset(),
        sorted_newest_first(final(v)@),
{
    v.sort_by(|a, b| compare_versions(b.version.as_str(), a.version.as_str()));
}

pub open spec fn trimmed_date(d: Option<String>) -> Option<Seq<char>> {
    match d {
        Some(s) => Some(ws_trimmed(s@)),
        None => None,
    }
}

pub open spec fn date_view(d: Option<String>) -> Option<Seq<char>> {
    match d {
        Some(s) => Some(s@),
        None => None,
    }
}

/// The rows whose link reads as a release version, with trimmed dates.
pub open spec fn tag_versions(rows: Seq<TagRow>) -> Seq<(Seq<char>, Option<Seq<char>>)>
    decreases rows.len(),
{
    if rows.len() == 0 {
        seq![]
    } else {
        let rest = tag_versions(rows.drop_last());
        let r = rows.last();
        match r.link_text {
            Some(t) => if version_tag_match(t@) {
                rest.push((t@, trimmed_date(r.date)))
            } else {
                rest
            },
            None => rest,
        }
    }
}

pub open spec fn info_view(v: VersionInfo) -> (Seq<char>, Option<Seq<char>>) {
    (v.version@, date_view(v.date))
}

pub open spec fn infos_view(s: Seq<VersionInfo>) -> Seq<(Seq<char>, Option<Seq<char>>)> {
    s.map_values(|v: VersionInfo| info_view(v))
}

/// Drops every item whose version equals the one kept just before it.
pub open spec fn dedup_versions(s: Seq<VersionInfo>) -> Seq<VersionInfo>
    decreases s.len(),
{
    if s.len() == 0 {
        s
    } else {
        let d = dedup_versions(s.drop_last());
        if d.len() > 0 && d.last().version@ == s.last().version@ {
            d
        } else {
            d.push(s.last())
        }
    }
}

fn version_rows(rows: Vec<TagRow>) -> (r: Vec<VersionInfo>)
    ensures
        infos_view(r@) == tag_versions(rows@),
{
    let mut out: Vec<VersionInfo> = Vec::new();
    let mut i: usize = 0;
    while i < rows.len()
        invariant
            i <= rows@.len(),
            infos_view(out@) == tag_versions(rows@.subrange(0, i as int)),
        decreases rows@.len() - i,
    {
        let ghost pre = rows@.subrange(0, i as int);
        assert(rows@.subrange(0, i + 1).drop_last() =~= pre);
        let row = &rows[i];
        match &row.link_text {
            Some(t) => {
                if is_version_tag(t.as_str()) {
                    let date = match &row.date {
                        Some(d) => Some(trim_ws(d.as_str())),
                        None => None,
                    };
                    let ghost before = infos_view(out@);
                    let info = VersionInfo { version: t.clone(), date };
                    out.push(info);
                    assert(infos_view(out@) =~= before.push(
                        info_view(info),
                    ));
                }
            },
            None => {},
        }
        i = i + 1;
    }
    assert(rows@.subrange(0, rows@.len() as int) =~= rows@);
    out
}

fn copy_info(v: &VersionInfo) -> (r: VersionInfo)
    ensures
        r == *v,
{
    let date = match &v.date {
        Some(d) => Some(d.clone()),
        None => None,
    };
    VersionInfo { version: v.version.clone(), date }
}

fn dedup(v: &Vec<VersionInfo>) -> (r: Vec<VersionInfo>)
    ensures
        r@ == dedup_versions(v@),
{
    let mut out: Vec<VersionInfo> = Vec::new();
    let mut i: usize = 0;
    while i < v.len()
        invariant
            i <= v@.len(),
            out@ == dedup_versions(v@.subrange(0, i as int)),
        decreases v@.len() - i,
    {
        assert(v@.subrange(0, i + 1).drop_last() =~= v@.subrange(0, i as int));
        assert(v@.subrange(0, i + 1).last() == v@[i as int]);
        let x = &v[i];
        let keep = if out.len() > 0 {
            !str_eq(out[out.len() - 1].version.as_str(), x.version.as_str())
        } else {
            true
        };
        if keep {
            out.push(copy_info(x));
        }
        i = i + 1;
    }
    assert(v@.subrange(0, v@.len() as int) =~= v@);
    out
}

/// Turns the tag listing into the known releases, newest first, each
/// version once: rows whose link reads as a release version are kept, with
/// their dates trimmed. A failed fetch is passed on.
pub fn fetch_tags(page: Result<Vec<TagRow>, String>) -> (r: FetchResult)
    ensures
        page is Err ==> r is Error && r->Error_0 == page->Err_0,
        page is Ok ==> r is Done && exists|sorted: Seq<VersionInfo>|
            {
                &&& infos_view(sorted).to_multiset() == tag_versions(
                    page->Ok_0@,
                ).to_multiset()
                &&& sorted_newest_first(sorted)
                &&& r->Done_0@ == dedup_versions(sorted)
            },
{
    let rows = match page {
        Ok(rows) => rows,
        Err(e) => {
            return FetchResult::Error(e);
        },
    };
    let mut versions = version_rows(rows);
    let ghost unsorted = versions@;
    sort_newest_first(&mut versions);
    proof {
        crate::layout::lemma_map_values_multiset(unsorted, versions@, |v: VersionInfo| info_view(v));
        assert(infos_view(unsorted) =~= unsorted.map_values(|v: VersionInfo| info_view(v)));
        assert(infos_view(versions@) =~= versions@.map_values(|v: VersionInfo| info_view(v)));
    }
    let out = dedup(&versions);
    FetchResult::Done(out)
}

/// The commit hash in a link target: the text between its first "id=" and
/// the next one (or the end), cut to twelve characters; empty without "id=".
pub open spec fn hash_of_href(h: Seq<char>) -> Seq<char> {
    let a = find_from(h, "id="@, 0);
    if a < 0 {
        seq![]
    } else {
        let rest = h.subrange(a + 3, h.len() as int);
        let b = find_from(rest, "id="@, 0);
        let piece = if b < 0 {
            rest
        } else {
            rest.subrange(0, b)
        };
        if piece.len() <= 12 {
            piece
        } else {
            piece.subrange(0, 12)
        }
    }
}

pub open spec fn spec_commit(row: ShortlogRow) -> Option<(Seq<char>, Seq<char>, Seq<char>)> {
    let subject = ws_trimmed(row.subject@);
    if subject.len() == 0 {
        None
    } else {
        Some(
            (
                match row.href {
                    Some(h) => hash_of_href(h@),
                    None => seq![],
                },
                subject,
                match row.author {
                    Some(a) => ws_trimmed(a@),
                    None => seq![],
                },
            ),
        )
    }
}

/// The commits of a shortlog listing; rows with an empty subject (the
/// header) are skipped.
pub open spec fn shortlog_commits(rows: Seq<ShortlogRow>) -> Seq<(Seq<char>, Seq<char>, Seq<char>)>
    decreases rows.len(),
{
    if rows.len() == 0 {
        seq![]
    } else {
        let rest = shortlog_commits(rows.drop_last());
        match spec_commit(rows.last()) {
            Some(c) => rest.push(c),
            None => rest,
        }
    }
}

pub open spec fn commit_view(c: CommitInfo) -> (Seq<char>, Seq<char>, Seq<char>) {
    (c.hash@, c.subject@, c.author@)
}

pub open spec fn commits_view(s: Seq<CommitInfo>) -> Seq<(Seq<char>, Seq<char>, Seq<char>)> {
    s.map_values(|c: CommitInfo| commit_view(c))
}

fn hash_from_href(h: &str) -> (r: String)
    ensures
        r@ == hash_of_href(h@),
{
    proof {
        reveal_strlit("id=");
    }
    let a = match find(h, "id=") {
        Some(a) => a,
        None => {
            return String::new();
        },
    };
    proof {
        lemma_find_from_bounds(h@, "id="@, 0);
    }
    let n = h.unicode_len();
    let rest = h.substring_char(a + 3, n);
    let piece = match find(rest, "id=") {
        Some(b) => {
            proof {
                lemma_find_from_bounds(rest@, "id="@, 0);
            }
            rest.substring_char(0, b)
        },
        None => rest,
    };
    let plen = piece.unicode_len();
    if plen <= 12 {
        String::from_str(piece)
    } else {
        String::from_str(piece.substring_char(0, 12))
    }
}

proof fn lemma_find_from_bounds(s: Seq<char>, p: Seq<char>, i: int)
    ensures
        find_from(s, p, i) >= 0 ==> i <= find_from(s, p, i) && find_from(s, p, i) + p.len()
            <= s.len(),
    decreases s.len() + 1 - i,
{
    if !(i < 0 || i + p.len() > s.len()) && !occurs_at(p, s, i) {
        lemma_find_from_bounds(s, p, i + 1);
    }
}

/// Turns the rows of a shortlog listing into commits. A failed fetch is
/// passed on.
pub fn fetch_shortlog(page: Result<Vec<ShortlogRow>, String>) -> (r: ShortlogResult)
    ensures
        page is Err ==> r is Error && r->Error_0 == page->Err_0,
        page is Ok ==> r is Done && commits_view(r->Done_0@) == shortlog_commits(page->Ok_0@),
{
    let rows = match page {
        Ok(rows) => rows,
        Err(e) => {
            return ShortlogResult::Error(e);
        },
    };
    let mut out: Vec<CommitInfo> = Vec::new();
    let mut i: usize = 0;
    while i < rows.len()
        invariant
            i <= rows@.len(),
            commits_view(out@) == shortlog_commits(rows@.subrange(0, i as int)),
        decreases rows@.len() - i,
    {
        assert(rows@.subrange(0, i + 1).drop_last() =~= rows@.subrange(0, i as int));
        let row = &rows[i];
        let subject = trim_ws(row.subject.as_str());
        if subject.as_str().unicode_len() > 0 {
            let hash = match &row.href {
                Some(h) => hash_from_href(h.as_str()),
                None => String::new(),
            };
            let author = match &row.author {
                Some(a) => trim_ws(a.as_str()),
                None => String::new(),
            };
            let ghost before = commits_view(out@);
            let c = CommitInfo { hash, subject, author };
            out.push(c);
            assert(commits_view(out@) =~= before.push(commit_view(c)));
        }
        i = i + 1;
    }
    assert(rows@.subrange(0, rows@.len() as int) =~= rows@);
    ShortlogResult::Done(out)
}

/// The page listing the commits between two tags.
pub fn shortlog_url(from_version: &str, to_version: &str) -> (r: String)
    ensures
        r@ == "https://git.kernel.org/pub/scm/linux/kernel/git/stable/linux.git/log/?id="@
            + to_version@ + "&id2="@ + from_version@,
{
    let mut u = String::from_str(
        "https://git.kernel.org/pub/scm/linux/kernel/git/stable/linux.git/log/?id=",
    );
    u.append(to_version);
    u.append("&id2=");
    u.append(from_version);
    u
}

/// The page listing the release tags.
pub fn tags_url() -> (r: String)
    ensures
        r@ == "https://git.kernel.org/pub/scm/linux/kernel/git/stable/linux.git/refs/tags"@,
{
    String::from_str("https://git.kernel.org/pub/scm/linux/kernel/git/stable/linux.git/refs/tags")
}


} // verus!
