//! The post-text renderer: four passes over the text turn bare URLs into
//! links, `**bold**` into `<b>`, `*italic*` into `<i>` and blank lines into
//! paragraph breaks, exactly as the spec functions here state.

use vstd::prelude::*;

verus! {

/// A character that may appear in a linked URL after the scheme.
pub open spec fn url_char(c: char) -> bool {
    ('a' <= c && c <= 'z') || ('A' <= c && c <= 'Z') || ('0' <= c && c <= '9') || c == '_' || c
        == '.' || c == '/' || c == '?' || c == '=' || c == '&' || c == '-'
}

pub open spec fn has_prefix(s: Seq<char>, i: int, p: Seq<char>) -> bool {
    0 <= i && i + p.len() <= s.len() && s.subrange(i, i + p.len()) == p
}

/// Length of the run of URL characters starting at `i`.
pub open spec fn run_len(s: Seq<char>, i: int) -> int
    decreases s.len() - i,
{
    if 0 <= i < s.len() && url_char(s[i]) {
        1 + run_len(s, i + 1)
    } else {
        0
    }
}

/// Length of the run of characters other than `*` starting at `i`.
pub open spec fn nonstar_len(s: Seq<char>, i: int) -> int
    decreases s.len() - i,
{
    if 0 <= i < s.len() && s[i] != '*' {
        1 + nonstar_len(s, i + 1)
    } else {
        0
    }
}

pub proof fn lemma_run_len(s: Seq<char>, i: int)
    requires
        0 <= i <= s.len(),
    ensures
        0 <= run_len(s, i),
        i + run_len(s, i) <= s.len(),
    decreases s.len() - i,
{
    if i < s.len() && url_char(s[i]) {
        lemma_run_len(s, i + 1);
    }
}

pub proof fn lemma_nonstar_len(s: Seq<char>, i: int)
    requires
        0 <= i <= s.len(),
    ensures
        0 <= nonstar_len(s, i),
        i + nonstar_len(s, i) <= s.len(),
    decreases s.len() - i,
{
    if i < s.len() && s[i] != '*' {
        lemma_nonstar_len(s, i + 1);
    }
}

/// Total length of the URL match at `i`, if there is one: an `http://` or
/// `https://` scheme followed by at least one URL character.
pub open spec fn url_match_len(s: Seq<char>, i: int) -> Option<int> {
    let p: int = if has_prefix(s, i, "https://"@) {
        8
    } else if has_prefix(s, i, "http://"@) {
        7
    } else {
        0
    };
    if p > 0 && run_len(s, i + p) > 0 {
        Some(p + run_len(s, i + p))
    } else {
        None
    }
}

/// The URL pass from position `i` on: each match `m` becomes
/// `<a href="m" target="_blank" rel="noreferrer">m</a>`.
pub open spec fn url_pass_from(s: Seq<char>, i: int) -> Seq<char>
    decreases s.len() - i,
    via url_pass_from_dec
{
    if !(0 <= i < s.len()) {
        Seq::empty()
    } else {
        match url_match_len(s, i) {
            Some(l) => "<a href=\""@ + s.subrange(i, i + l)
                + "\" target=\"_blank\" rel=\"noreferrer\">"@ + s.subrange(i, i + l) + "</a>"@
                + url_pass_from(s, i + l),
            None => seq![s[i]] + url_pass_from(s, i + 1),
        }
    }
}

#[via_fn]
proof fn url_pass_from_dec(s: Seq<char>, i: int) {
    reveal_strlit("https://");
    reveal_strlit("http://");
    if 0 <= i < s.len() {
        if has_prefix(s, i, "https://"@) {
            lemma_run_len(s, i + 8);
        } else if has_prefix(s, i, "http://"@) {
            lemma_run_len(s, i + 7);
        }
    }
}

/// Inner length of the bold match at `i`, if there is one: `**`, a run
/// without `*`, then `**`.
pub open spec fn bold_match_len(s: Seq<char>, i: int) -> Option<int> {
    if 0 <= i && i + 1 < s.len() && s[i] == '*' && s[i + 1] == '*' {
        let k = nonstar_len(s, i + 2);
        if i + 3 + k < s.len() && s[i + 2 + k] == '*' && s[i + 3 + k] == '*' {
            Some(k)
        } else {
            None
        }
    } else {
        None
    }
}

pub open spec fn bold_pass_from(s: Seq<char>, i: int) -> Seq<char>
    decreases s.len() - i,
    via bold_pass_from_dec
{
    if !(0 <= i < s.len()) {
        Seq::empty()
    } else {
        match bold_match_len(s, i) {
            Some(k) => "<b>"@ + s.subrange(i + 2, i + 2 + k) + "</b>"@ + bold_pass_from(
                s,
                i + k + 4,
            ),
            None => seq![s[i]] + bold_pass_from(s, i + 1),
        }
    }
}

#[via_fn]
proof fn bold_pass_from_dec(s: Seq<char>, i: int) {
    if 0 <= i && i + 1 < s.len() && s[i] == '*' && s[i + 1] == '*' {
        lemma_nonstar_len(s, i + 2);
    }
}

/// Inner length of the italic match at `i`: `*`, a run without `*`, then `*`.
pub open spec fn italic_match_len(s: Seq<char>, i: int) -> Option<int> {
    if 0 <= i < s.len() && s[i] == '*' {
        let k = nonstar_len(s, i + 1);
        if i + 1 + k < s.len() && s[i + 1 + k] == '*' {
            Some(k)
        } else {
            None
        }
    } else {
        None
    }
}

pub open spec fn italic_pass_from(s: Seq<char>, i: int) -> Seq<char>
    decreases s.len() - i,
    via italic_pass_from_dec
{
    if !(0 <= i < s.len()) {
        Seq::empty()
    } else {
        match italic_match_len(s, i) {
            Some(k) => "<i>"@ + s.subrange(i + 1, i + 1 + k) + "</i>"@ + italic_pass_from(
                s,
                i + k + 2,
            ),
            None => seq![s[i]] + italic_pass_from(s, i + 1),
        }
    }
}

#[via_fn]
proof fn italic_pass_from_dec(s: Seq<char>, i: int) {
    if 0 <= i < s.len() && s[i] == '*' {
        lemma_nonstar_len(s, i + 1);
    }
}

/// The paragraph pass: each `\n\n` becomes `</p><p>`.
pub open spec fn para_pass_from(s: Seq<char>, i: int) -> Seq<char>
    decreases s.len() - i,
{
    if !(0 <= i < s.len()) {
        Seq::empty()
    } else if i + 1 < s.len() && s[i] == '\n' && s[i + 1] == '\n' {
        "</p><p>"@ + para_pass_from(s, i + 2)
    } else {
        seq![s[i]] + para_pass_from(s, i + 1)
    }
}

/// What rendering produces: the four passes in order, wrapped in one
/// paragraph.
pub open spec fn spec_render_markdown(s: Seq<char>) -> Seq<char> {
    "<p>"@ + para_pass_from(
        italic_pass_from(bold_pass_from(url_pass_from(s, 0), 0), 0),
        0,
    ) + "</p>"@
}

fn url_char_exec(c: char) -> (r: bool)
    ensures
        r == url_char(c),
{
    ('a' <= c && c <= 'z') || ('A' <= c && c <= 'Z') || ('0' <= c && c <= '9') || c == '_' || c
        == '.' || c == '/' || c == '?' || c == '=' || c == '&' || c == '-'
}

fn url_run(s: &str, from: usize) -> (r: usize)
    requires
        from <= s@.len(),
    ensures
        r == run_len(s@, from as int),
        from + r <= s@.len(),
{
    let n = s.unicode_len();
    let mut i = from;
    while i < n && url_char_exec(s.get_char(i))
        invariant
            from <= i <= n,
            n == s@.len(),
            run_len(s@, from as int) == i - from + run_len(s@, i as int),
        decreases n - i,
    {
        i = i + 1;
    }
    i - from
}

fn nonstar_run(s: &str, from: usize) -> (r: usize)
    requires
        from <= s@.len(),
    ensures
        r == nonstar_len(s@, from as int),
        from + r <= s@.len(),
{
    let n = s.unicode_len();
    let mut i = from;
    while i < n && s.get_char(i) != '*'
        invariant
            from <= i <= n,
            n == s@.len(),
            nonstar_len(s@, from as int) == i - from + nonstar_len(s@, i as int),
        decreases n - i,
    {
        i = i + 1;
    }
    i - from
}

/// Does `p` (an ASCII scheme) stand at `i` in `s`?
pub fn check_prefix(s: &str, i: usize, p: &str) -> (r: bool)
    requires
        i <= s@.len(),
    ensures
        r == has_prefix(s@, i as int, p@),
{
    let n = s.unicode_len();
    let m = p.unicode_len();
    if m > n - i {
        return false;
    }
    let mut j: usize = 0;
    while j < m
        invariant
            j <= m,
            i + m <= n,
            n == s@.len(),
            m == p@.len(),
            forall|k: int| 0 <= k < j ==> s@[i + k] == p@[k],
        decreases m - j,
    {
        if s.get_char(i + j) != p.get_char(j) {
            assert(s@.subrange(i as int, i + p@.len())[j as int] == s@[i + j]);
            return false;
        }
        j = j + 1;
    }
    assert(s@.subrange(i as int, i + p@.len()) =~= p@) by {
        assert(forall|k: int|
            0 <= k < p@.len() ==> #[trigger] s@.subrange(i as int, i + p@.len())[k] == s@[i + k]);
    }
    true
}

fn url_match_at(s: &str, i: usize) -> (r: Option<usize>)
    requires
        i < s@.len(),
    ensures
        match r {
            Some(l) => url_match_len(s@, i as int) == Some(l as int) && i + l <= s@.len() && l
                >= 1,
            None => url_match_len(s@, i as int) is None,
        },
{
    let n = s.unicode_len();
    let p: usize = if check_prefix(s, i, "https://") {
        8
    } else if check_prefix(s, i, "http://") {
        7
    } else {
        return None;
    };
    proof {
        reveal_strlit("https://");
        reveal_strlit("http://");
        assert(p == 8 ==> has_prefix(s@, i as int, "https://"@));
        assert(p == 7 ==> !has_prefix(s@, i as int, "https://"@) && has_prefix(
            s@,
            i as int,
            "http://"@,
        ));
    }
    let run = url_run(s, i + p);
    if run == 0 {
        return None;
    }
    Some(p + run)
}

/// One rewriting pass; which rule it applies is fixed by the caller.
fn url_pass(s: &str) -> (r: String)
    ensures
        r@ == url_pass_from(s@, 0),
{
    let n = s.unicode_len();
    let mut out = String::new();
    let mut i: usize = 0;
    while i < n
        invariant
            i <= n,
            n == s@.len(),
            url_pass_from(s@, 0) == out@ + url_pass_from(s@, i as int),
        decreases n - i,
    {
        match url_match_at(s, i) {
            Some(l) => {
                out.append("<a href=\"");
                out.append(s.substring_char(i, i + l));
                out.append("\" target=\"_blank\" rel=\"noreferrer\">");
                out.append(s.substring_char(i, i + l));
                out.append("</a>");
                i = i + l;
            },
            None => {
                out.append(s.substring_char(i, i + 1));
                assert(s@.subrange(i as int, i + 1) =~= seq![s@[i as int]]);
                i = i + 1;
            },
        }
    }
    assert(url_pass_from(s@, n as int) =~= Seq::<char>::empty());
    assert(out@ =~= url_pass_from(s@, 0));
    out
}

fn bold_pass(s: &str) -> (r: String)
    ensures
        r@ == bold_pass_from(s@, 0),
{
    let n = s.unicode_len();
    let mut out = String::new();
    let mut i: usize = 0;
    while i < n
        invariant
            i <= n,
            n == s@.len(),
            bold_pass_from(s@, 0) == out@ + bold_pass_from(s@, i as int),
        decreases n - i,
    {
        let mut matched = false;
        if i + 1 < n && s.get_char(i) == '*' && s.get_char(i + 1) == '*' {
            let k = nonstar_run(s, i + 2);
            let m = i + 2 + k;
            if n - m >= 2 && s.get_char(m) == '*' && s.get_char(m + 1) == '*' {
                assert(bold_match_len(s@, i as int) == Some(k as int));
                out.append("<b>");
                out.append(s.substring_char(i + 2, m));
                out.append("</b>");
                i = m + 2;
                matched = true;
            }
        }
        if !matched {
            assert(bold_match_len(s@, i as int) is None);
            out.append(s.substring_char(i, i + 1));
            assert(s@.subrange(i as int, i + 1) =~= seq![s@[i as int]]);
            i = i + 1;
        }
    }
    assert(bold_pass_from(s@, n as int) =~= Seq::<char>::empty());
    assert(out@ =~= bold_pass_from(s@, 0));
    out
}

fn italic_pass(s: &str) -> (r: String)
    ensures
        r@ == italic_pass_from(s@, 0),
{
    let n = s.unicode_len();
    let mut out = String::new();
    let mut i: usize = 0;
    while i < n
        invariant
            i <= n,
            n == s@.len(),
            italic_pass_from(s@, 0) == out@ + italic_pass_from(s@, i as int),
        decreases n - i,
    {
        let mut matched = false;
        if s.get_char(i) == '*' {
            let k = nonstar_run(s, i + 1);
            let m = i + 1 + k;
            if n - m >= 1 && s.get_char(m) == '*' {
                assert(italic_match_len(s@, i as int) == Some(k as int));
                out.append("<i>");
                out.append(s.substring_char(i + 1, m));
                out.append("</i>");
                i = m + 1;
                matched = true;
            }
        }
        if !matched {
            assert(italic_match_len(s@, i as int) is None);
            out.append(s.substring_char(i, i + 1));
            assert(s@.subrange(i as int, i + 1) =~= seq![s@[i as int]]);
            i = i + 1;
        }
    }
    assert(italic_pass_from(s@, n as int) =~= Seq::<char>::empty());
    assert(out@ =~= italic_pass_from(s@, 0));
    out
}

fn para_pass(s: &str) -> (r: String)
    ensures
        r@ == para_pass_from(s@, 0),
{
    let n = s.unicode_len();
    let mut out = String::new();
    let mut i: usize = 0;
    while i < n
        invariant
            i <= n,
            n == s@.len(),
            para_pass_from(s@, 0) == out@ + para_pass_from(s@, i as int),
        decreases n - i,
    {
        if i + 1 < n && s.get_char(i) == '\n' && s.get_char(i + 1) == '\n' {
            out.append("</p><p>");
            i = i + 2;
        } else {
            out.append(s.substring_char(i, i + 1));
            assert(s@.subrange(i as int, i + 1) =~= seq![s@[i as int]]);
            i = i + 1;
        }
    }
    assert(para_pass_from(s@, n as int) =~= Seq::<char>::empty());
    assert(out@ =~= para_pass_from(s@, 0));
    out
}

/// Render a post's text to HTML: linked URLs, bold, italic, paragraphs.
pub fn render_markdown(text: &str) -> (r: String)
    ensures
        r@ == spec_render_markdown(text@),
{
    let u = url_pass(text);
    let b = bold_pass(u.as_str());
    let it = italic_pass(b.as_str());
    let p = para_pass(it.as_str());
    let mut out = String::new();
    out.append("<p>");
    out.append(p.as_str());
    out.append("</p>");
    assert(out@ =~= spec_render_markdown(text@));
    out
}

} // verus!
