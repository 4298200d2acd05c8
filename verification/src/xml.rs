//! A scanner for the flat XML documents the upstream station serves: an
//! optional processing instruction, one root element, and a sequence of leaf
//! elements, each a tag name with text content. Unknown leaf names are kept;
//! the decoder picks the ones it needs. Nested elements, attributes and
//! comments are outside the accepted subset and make the document malformed.

use vstd::prelude::*;
use crate::text::is_ws;

verus! {

/// The view of the collected leaves: each pair is (tag name, text content).
pub open spec fn leaves_view(v: Seq<(String, String)>) -> Seq<(Seq<char>, Seq<char>)> {
    Seq::new(v.len(), |i: int| (v[i].0@, v[i].1@))
}

/// The first position at or after `i` holding a non-whitespace character.
pub open spec fn spec_skip_ws(s: Seq<char>, i: int) -> int
    decreases s.len() - i,
{
    if 0 <= i < s.len() && is_ws(s[i]) {
        spec_skip_ws(s, i + 1)
    } else {
        i
    }
}

/// The first position at or after `i` holding `stop`.
pub open spec fn spec_find(s: Seq<char>, i: int, stop: char) -> Option<int>
    decreases s.len() - i,
{
    if i < 0 || i >= s.len() {
        None
    } else if s[i] == stop {
        Some(i)
    } else {
        spec_find(s, i + 1, stop)
    }
}

/// The position just past the first `?>` at or after `i`.
pub open spec fn spec_find_pi_end(s: Seq<char>, i: int) -> Option<int>
    decreases s.len() - i,
{
    if i < 0 || i + 1 >= s.len() {
        None
    } else if s[i] == '?' && s[i + 1] == '>' {
        Some(i + 2)
    } else {
        spec_find_pi_end(s, i + 1)
    }
}

/// A usable tag name: nonempty, no whitespace and no XML structure
/// characters, and not the start of a processing instruction or comment.
pub open spec fn valid_name(n: Seq<char>) -> bool {
    &&& n.len() > 0
    &&& forall|k: int|
        0 <= k < n.len() ==> !is_ws(#[trigger] n[k]) && n[k] != '/' && n[k] != '<' && n[k]
            != '>'
    &&& n[0] != '?'
    &&& n[0] != '!'
}

/// Parses one leaf element starting at `i` (which should hold `<`): either
/// `<name>text</name>` with matching names and no `<` inside the text, or a
/// self-closing `<name/>` with empty text. Yields the name, the text and the
/// position just past the element.
pub open spec fn spec_parse_element(s: Seq<char>, i: int) -> Option<(Seq<char>, Seq<char>, int)> {
    match spec_find(s, i + 1, '>') {
        None => None,
        Some(g) => {
            let seg = s.subrange(i + 1, g);
            if seg.len() == 0 {
                None
            } else if seg.last() == '/' {
                let name = seg.drop_last();
                if valid_name(name) {
                    Some((name, Seq::empty(), g + 1))
                } else {
                    None
                }
            } else if !valid_name(seg) {
                None
            } else {
                match spec_find(s, g + 1, '<') {
                    None => None,
                    Some(t) => {
                        let close_end = t + 2 + seg.len();
                        if t + 1 < s.len() && s[t + 1] == '/' && close_end < s.len()
                            && s.subrange(t + 2, close_end) == seg && s[close_end] == '>' {
                            Some((seg, s.subrange(g + 1, t), close_end + 1))
                        } else {
                            None
                        }
                    },
                }
            }
        },
    }
}

pub proof fn lemma_skip_ws_bounds(s: Seq<char>, i: int)
    requires
        0 <= i <= s.len(),
    ensures
        i <= spec_skip_ws(s, i) <= s.len(),
    decreases s.len() - i,
{
    if i < s.len() && is_ws(s[i]) {
        lemma_skip_ws_bounds(s, i + 1);
    }
}

pub proof fn lemma_find_bounds(s: Seq<char>, i: int, stop: char)
    ensures
        spec_find(s, i, stop) matches Some(j) ==> i <= j < s.len() && s[j] == stop,
    decreases s.len() - i,
{
    if 0 <= i < s.len() && s[i] != stop {
        lemma_find_bounds(s, i + 1, stop);
    }
}

pub proof fn lemma_find_pi_end_bounds(s: Seq<char>, i: int)
    ensures
        spec_find_pi_end(s, i) matches Some(j) ==> i + 2 <= j <= s.len(),
    decreases s.len() - i,
{
    if 0 <= i && i + 1 < s.len() && !(s[i] == '?' && s[i + 1] == '>') {
        lemma_find_pi_end_bounds(s, i + 1);
    }
}

pub proof fn lemma_parse_element_advances(s: Seq<char>, i: int)
    ensures
        spec_parse_element(s, i) matches Some(r) ==> i < r.2 <= s.len(),
{
    lemma_find_bounds(s, i + 1, '>');
    match spec_find(s, i + 1, '>') {
        None => {},
        Some(g) => {
            lemma_find_bounds(s, g + 1, '<');
        },
    }
}

/// Scans leaf elements (whitespace-separated) until a closing tag `</` is in
/// view; yields the leaves and the position of that `<`.
pub open spec fn spec_scan_items(s: Seq<char>, i: int) -> Option<
    (Seq<(Seq<char>, Seq<char>)>, int),
>
    decreases s.len() - i,
    when 0 <= i <= s.len()
    via spec_scan_items_decreases
{
    let j = spec_skip_ws(s, i);
    if j + 1 < s.len() && s[j] == '<' && s[j + 1] == '/' {
        Some((Seq::empty(), j))
    } else if j < s.len() && s[j] == '<' {
        match spec_parse_element(s, j) {
            None => None,
            Some(r) => {
                match spec_scan_items(s, r.2) {
                    None => None,
                    Some(rest) => Some((seq![(r.0, r.1)] + rest.0, rest.1)),
                }
            },
        }
    } else {
        None
    }
}

#[via_fn]
proof fn spec_scan_items_decreases(s: Seq<char>, i: int) {
    lemma_skip_ws_bounds(s, i);
    lemma_parse_element_advances(s, spec_skip_ws(s, i));
}

/// Scans a whole document: optional whitespace and processing instruction,
/// then a root element whose children are the leaves.
pub open spec fn spec_scan_document(s: Seq<char>) -> Option<Seq<(Seq<char>, Seq<char>)>> {
    let i0 = spec_skip_ws(s, 0);
    let pi = if i0 + 1 < s.len() && s[i0] == '<' && s[i0 + 1] == '?' {
        match spec_find_pi_end(s, i0 + 2) {
            None => None,
            Some(p) => Some(spec_skip_ws(s, p)),
        }
    } else {
        Some(i0)
    };
    match pi {
        None => None,
        Some(i1) => {
            if !(i1 < s.len() && s[i1] == '<') {
                None
            } else {
                match spec_find(s, i1 + 1, '>') {
                    None => None,
                    Some(g) => {
                        let root = s.subrange(i1 + 1, g);
                        if !valid_name(root) {
                            None
                        } else {
                            match spec_scan_items(s, g + 1) {
                                None => None,
                                Some(r) => {
                                    let e = r.1 + 2 + root.len();
                                    if e < s.len() && s.subrange(r.1 + 2, e) == root && s[e] == '>'
                                        && spec_skip_ws(s, e + 1) == s.len() {
                                        Some(r.0)
                                    } else {
                                        None
                                    }
                                },
                            }
                        }
                    },
                }
            }
        },
    }
}

/// The text of the first leaf named `name`, if one is present.
pub open spec fn spec_lookup(leaves: Seq<(Seq<char>, Seq<char>)>, name: Seq<char>) -> Option<
    Seq<char>,
>
    decreases leaves.len(),
{
    if leaves.len() == 0 {
        None
    } else if leaves[0].0 == name {
        Some(leaves[0].1)
    } else {
        spec_lookup(leaves.drop_first(), name)
    }
}

fn skip_ws(s: &str, n: usize, i: usize) -> (j: usize)
    requires
        n == s@.len(),
        i <= n,
    ensures
        j as int == spec_skip_ws(s@, i as int),
        i <= j <= n,
    decreases n - i,
{
    if i < n {
        let c = s.get_char(i);
        if c == ' ' || c == '\t' || c == '\r' || c == '\n' {
            return skip_ws(s, n, i + 1);
        }
    }
    i
}

fn find_char(s: &str, n: usize, i: usize, stop: char) -> (r: Option<usize>)
    requires
        n == s@.len(),
        i <= n,
    ensures
        match r {
            Some(j) => spec_find(s@, i as int, stop) == Some(j as int) && i <= j < n,
            None => spec_find(s@, i as int, stop) is None,
        },
    decreases n - i,
{
    if i >= n {
        None
    } else if s.get_char(i) == stop {
        Some(i)
    } else {
        find_char(s, n, i + 1, stop)
    }
}

fn find_pi_end(s: &str, n: usize, i: usize) -> (r: Option<usize>)
    requires
        n == s@.len(),
        i <= n,
    ensures
        match r {
            Some(j) => spec_find_pi_end(s@, i as int) == Some(j as int) && i + 2 <= j <= n,
            None => spec_find_pi_end(s@, i as int) is None,
        },
    decreases n - i,
{
    if i >= n || i + 1 >= n {
        None
    } else if s.get_char(i) == '?' && s.get_char(i + 1) == '>' {
        Some(i + 2)
    } else {
        find_pi_end(s, n, i + 1)
    }
}

/// Checks `valid_name` on `s` between `from` and `to`.
fn check_name(s: &str, n: usize, from: usize, to: usize) -> (r: bool)
    requires
        n == s@.len(),
        from <= to <= n,
    ensures
        r == valid_name(s@.subrange(from as int, to as int)),
{
    let ghost seg = s@.subrange(from as int, to as int);
    if from == to {
        return false;
    }
    let c0 = s.get_char(from);
    if c0 == '?' || c0 == '!' {
        proof {
            assert(seg[0] == s@[from as int]);
        }
        return false;
    }
    let mut i: usize = from;
    while i < to
        invariant
            from <= i <= to <= n,
            n == s@.len(),
            seg == s@.subrange(from as int, to as int),
            forall|k: int|
                from <= k < i ==> !is_ws(#[trigger] s@[k]) && s@[k] != '/' && s@[k] != '<'
                    && s@[k] != '>',
        decreases to - i,
    {
        let c = s.get_char(i);
        if c == ' ' || c == '\t' || c == '\r' || c == '\n' || c == '/' || c == '<' || c == '>' {
            proof {
                assert(seg[i - from] == s@[i as int]);
            }
            return false;
        }
        i = i + 1;
    }
    proof {
        assert(forall|k: int| 0 <= k < seg.len() ==> seg[k] == s@[from + k]);
        assert(seg[0] == s@[from as int]);
    }
    true
}

/// Compares the characters of `s` at `a..a+len` with those at `b..b+len`.
fn match_range(s: &str, n: usize, a: usize, b: usize, len: usize) -> (r: bool)
    requires
        n == s@.len(),
        a + len <= n,
        b + len <= n,
    ensures
        r == (s@.subrange(a as int, (a + len) as int) == s@.subrange(b as int, (b + len) as int)),
{
    let mut i: usize = 0;
    while i < len
        invariant
            i <= len,
            n == s@.len(),
            a + len <= n,
            b + len <= n,
            forall|k: int| 0 <= k < i ==> s@[a + k] == #[trigger] s@[b + k],
        decreases len - i,
    {
        if s.get_char(a + i) != s.get_char(b + i) {
            proof {
                assert(s@.subrange(a as int, (a + len) as int)[i as int] == s@[a + i]);
                assert(s@.subrange(b as int, (b + len) as int)[i as int] == s@[b + i]);
            }
            return false;
        }
        i = i + 1;
    }
    proof {
        assert forall|k: int| 0 <= k < len implies #[trigger] s@.subrange(
            a as int,
            (a + len) as int,
        )[k] == s@.subrange(b as int, (b + len) as int)[k] by {
            assert(s@[a + k] == s@[b + k]);
        }
        assert(s@.subrange(a as int, (a + len) as int) =~= s@.subrange(
            b as int,
            (b + len) as int,
        ));
    }
    true
}

fn parse_element(s: &str, n: usize, i: usize) -> (r: Option<(String, String, usize)>)
    requires
        n == s@.len(),
        i < n,
    ensures
        match r {
            Some(e) => spec_parse_element(s@, i as int) == Some((e.0@, e.1@, e.2 as int)) && i
                < e.2 <= n,
            None => spec_parse_element(s@, i as int) is None,
        },
{
    proof {
        lemma_parse_element_advances(s@, i as int);
    }
    let g = match find_char(s, n, i + 1, '>') {
        None => {
            return None;
        },
        Some(g) => g,
    };
    let ghost seg = s@.subrange(i as int + 1, g as int);
    if g == i + 1 {
        return None;
    }
    let last = s.get_char(g - 1);
    proof {
        assert(seg.last() == s@[g - 1]);
    }
    if last == '/' {
        proof {
            assert(seg.drop_last() =~= s@.subrange(i as int + 1, g as int - 1));
        }
        if !check_name(s, n, i + 1, g - 1) {
            return None;
        }
        let name = s.substring_char(i + 1, g - 1).to_owned();
        return Some((name, String::new(), g + 1));
    }
    if !check_name(s, n, i + 1, g) {
        return None;
    }
    let t = match find_char(s, n, g + 1, '<') {
        None => {
            return None;
        },
        Some(t) => t,
    };
    let name_len = g - (i + 1);
    if t + 1 >= n {
        return None;
    }
    if s.get_char(t + 1) != '/' {
        return None;
    }
    let avail = n - (t + 2);
    if name_len >= avail {
        return None;
    }
    let close_end = t + 2 + name_len;
    if !match_range(s, n, t + 2, i + 1, name_len) {
        return None;
    }
    proof {
        assert(s@.subrange(t as int + 2, close_end as int) == seg <==> s@.subrange(
            t as int + 2,
            close_end as int,
        ) == s@.subrange(i as int + 1, (i + 1 + name_len) as int));
    }
    if s.get_char(close_end) != '>' {
        return None;
    }
    let name = s.substring_char(i + 1, g).to_owned();
    let text = s.substring_char(g + 1, t).to_owned();
    Some((name, text, close_end + 1))
}

fn scan_items(s: &str, n: usize, i: usize) -> (r: Option<(Vec<(String, String)>, usize)>)
    requires
        n == s@.len(),
        i <= n,
    ensures
        match r {
            Some(p) => spec_scan_items(s@, i as int) == Some((leaves_view(p.0@), p.1 as int))
                && p.1 + 1 < n,
            None => spec_scan_items(s@, i as int) is None,
        },
    decreases n - i,
{
    let j = skip_ws(s, n, i);
    if j < n && j + 1 < n {
        if s.get_char(j) == '<' && s.get_char(j + 1) == '/' {
            let empty: Vec<(String, String)> = Vec::new();
            proof {
                assert(leaves_view(empty@) =~= Seq::<(Seq<char>, Seq<char>)>::empty());
            }
            return Some((empty, j));
        }
    }
    if !(j < n) {
        return None;
    }
    if s.get_char(j) != '<' {
        return None;
    }
    match parse_element(s, n, j) {
        None => None,
        Some((name, text, k)) => {
            let ghost gname = name@;
            let ghost gtext = text@;
            match scan_items(s, n, k) {
                None => None,
                Some((mut rest, e)) => {
                    let ghost grest = rest@;
                    rest.insert(0, (name, text));
                    proof {
                        assert(leaves_view(rest@) =~= seq![(gname, gtext)] + leaves_view(grest));
                    }
                    Some((rest, e))
                },
            }
        },
    }
}

/// Scans a document into its leaf elements, or yields `None` where the
/// document is not well-formed in the accepted subset.
pub fn scan_document(s: &str) -> (r: Option<Vec<(String, String)>>)
    ensures
        match r {
            Some(v) => spec_scan_document(s@) == Some(leaves_view(v@)),
            None => spec_scan_document(s@) is None,
        },
{
    let n = s.unicode_len();
    let i0 = skip_ws(s, n, 0);
    let i1: usize = if i0 < n && i0 + 1 < n && s.get_char(i0) == '<' && s.get_char(i0 + 1) == '?' {
        match find_pi_end(s, n, i0 + 2) {
            None => {
                return None;
            },
            Some(p) => skip_ws(s, n, p),
        }
    } else {
        i0
    };
    if !(i1 < n) {
        return None;
    }
    if s.get_char(i1) != '<' {
        return None;
    }
    let g = match find_char(s, n, i1 + 1, '>') {
        None => {
            return None;
        },
        Some(g) => g,
    };
    let ghost root = s@.subrange(i1 as int + 1, g as int);
    if !check_name(s, n, i1 + 1, g) {
        return None;
    }
    let rl = g - (i1 + 1);
    match scan_items(s, n, g + 1) {
        None => None,
        Some((leaves, e0)) => {
            let avail = n - (e0 + 2);
            if rl >= avail {
                return None;
            }
            let e = e0 + 2 + rl;
            if !match_range(s, n, e0 + 2, i1 + 1, rl) {
                return None;
            }
            proof {
                assert(s@.subrange(e0 as int + 2, e as int) == root <==> s@.subrange(
                    e0 as int + 2,
                    e as int,
                ) == s@.subrange(i1 as int + 1, (i1 + 1 + rl) as int));
            }
            if s.get_char(e) != '>' {
                return None;
            }
            if skip_ws(s, n, e + 1) != n {
                return None;
            }
            Some(leaves)
        },
    }
}

/// Looks a tag name up among the scanned leaves; the first match wins.
pub fn lookup(leaves: &Vec<(String, String)>, name: &str) -> (r: Option<String>)
    ensures
        match r {
            Some(t) => spec_lookup(leaves_view(leaves@), name@) == Some(t@),
            None => spec_lookup(leaves_view(leaves@), name@) is None,
        },
{
    let key: String = name.to_owned();
    let end = leaves.len();
    proof {
        assert(leaves_view(leaves@).skip(0) =~= leaves_view(leaves@));
    }
    let mut i: usize = 0;
    while i < end
        invariant
            i <= end,
            end == leaves.len(),
            key@ == name@,
            spec_lookup(leaves_view(leaves@), name@) == spec_lookup(
                leaves_view(leaves@).skip(i as int),
                name@,
            ),
        decreases end - i,
    {
        let ghost suffix = leaves_view(leaves@).skip(i as int);
        proof {
            assert(suffix[0] == (leaves@[i as int].0@, leaves@[i as int].1@));
        }
        if leaves[i].0.as_str().to_owned() == key {
            return Some(leaves[i].1.clone());
        }
        proof {
            assert(suffix.drop_first() =~= leaves_view(leaves@).skip(i as int + 1));
        }
        i = i + 1;
    }
    proof {
        assert(leaves_view(leaves@).skip(i as int) =~= Seq::<(Seq<char>, Seq<char>)>::empty());
    }
    None
}


/// One rendered leaf element: `<name>text</name>`.
pub open spec fn spec_elem(name: Seq<char>, text: Seq<char>) -> Seq<char> {
    "<"@ + name + ">"@ + text + "</"@ + name + ">"@
}

/// A sequence of leaves rendered one after the other.
pub open spec fn render_items(pairs: Seq<(Seq<char>, Seq<char>)>) -> Seq<char>
    decreases pairs.len(),
{
    if pairs.len() == 0 {
        Seq::empty()
    } else {
        spec_elem(pairs[0].0, pairs[0].1) + render_items(pairs.drop_first())
    }
}

/// Leaf text the renderer can emit verbatim: free of `<`.
pub open spec fn xml_text_ok(t: Seq<char>) -> bool {
    forall|i: int| 0 <= i < t.len() ==> t[i] != '<'
}

/// Leaves that render to a well-formed document fragment.
pub open spec fn pairs_renderable(pairs: Seq<(Seq<char>, Seq<char>)>) -> bool {
    forall|i: int|
        0 <= i < pairs.len() ==> valid_name((#[trigger] pairs[i]).0) && xml_text_ok(pairs[i].1)
}

pub proof fn lemma_find_at(s: Seq<char>, i: int, stop: char, j: int)
    requires
        0 <= i <= j < s.len(),
        s[j] == stop,
        forall|k: int| i <= k < j ==> s[k] != stop,
    ensures
        spec_find(s, i, stop) == Some(j),
    decreases j - i,
{
    if i < j {
        lemma_find_at(s, i + 1, stop, j);
    }
}

/// Parsing one element out of its own rendering finds exactly the name, the
/// text, and the position just past it.
pub proof fn lemma_parse_element_at(s: Seq<char>, i: int, name: Seq<char>, text: Seq<char>)
    requires
        0 <= i,
        i + spec_elem(name, text).len() <= s.len(),
        valid_name(name),
        xml_text_ok(text),
        s.subrange(i, i + spec_elem(name, text).len() as int) == spec_elem(name, text),
    ensures
        spec_parse_element(s, i) == Some(
            (name, text, i + spec_elem(name, text).len() as int),
        ),
{
    reveal_strlit("<");
    reveal_strlit(">");
    reveal_strlit("</");
    let e = spec_elem(name, text);
    let nl = name.len() as int;
    let tl = text.len() as int;
    let el = e.len() as int;
    assert(el == 2 * nl + tl + 5);
    assert forall|k: int| 0 <= k < el implies s[i + k] == e[k] by {
        assert(s.subrange(i, i + el)[k] == s[i + k]);
    }
    assert(e[0] == '<');
    assert forall|k: int| 0 <= k < nl implies e[1 + k] == name[k] by {}
    assert(e[1 + nl] == '>');
    assert forall|k: int| 0 <= k < tl implies e[2 + nl + k] == text[k] by {}
    assert(e[2 + nl + tl] == '<');
    assert(e[3 + nl + tl] == '/');
    assert forall|k: int| 0 <= k < nl implies e[4 + nl + tl + k] == name[k] by {}
    assert(e[4 + 2 * nl + tl] == '>');
    let g = i + 1 + nl;
    assert forall|k: int| i + 1 <= k < g implies s[k] != '>' by {
        assert(s[k] == e[k - i]);
        assert(e[k - i] == name[k - i - 1]);
    }
    assert(s[g] == e[1 + nl]);
    lemma_find_at(s, i + 1, '>', g);
    let seg = s.subrange(i + 1, g);
    assert forall|k: int| 0 <= k < nl implies seg[k] == name[k] by {
        assert(seg[k] == s[i + 1 + k]);
        assert(s[i + 1 + k] == e[1 + k]);
    }
    assert(seg =~= name);
    assert(seg.last() != '/');
    let t0 = g + 1 + tl;
    assert forall|k: int| g + 1 <= k < t0 implies s[k] != '<' by {
        assert(s[k] == e[k - i]);
        assert(e[k - i] == text[k - i - (2 + nl)]);
    }
    assert(s[t0] == e[2 + nl + tl]);
    lemma_find_at(s, g + 1, '<', t0);
    assert(s[t0 + 1] == e[3 + nl + tl]);
    let ce = t0 + 2 + nl;
    let back = s.subrange(t0 + 2, ce);
    assert forall|k: int| 0 <= k < nl implies back[k] == name[k] by {
        assert(back[k] == s[t0 + 2 + k]);
        assert(s[t0 + 2 + k] == e[4 + nl + tl + k]);
    }
    assert(back =~= name);
    assert(back == seg);
    assert(s[ce] == e[4 + 2 * nl + tl]);
    assert(ce < s.len());
    let out_text = s.subrange(g + 1, t0);
    assert forall|k: int| 0 <= k < tl implies out_text[k] == text[k] by {
        assert(out_text[k] == s[g + 1 + k]);
        assert(s[g + 1 + k] == e[2 + nl + k]);
    }
    assert(out_text =~= text);
    assert(ce + 1 == i + el);
}

/// Scanning the rendering of a leaf list, up to a closing tag, recovers the
/// list.
pub proof fn lemma_scan_items_at(s: Seq<char>, i: int, pairs: Seq<(Seq<char>, Seq<char>)>)
    requires
        0 <= i,
        i + render_items(pairs).len() + 1 < s.len(),
        pairs_renderable(pairs),
        s.subrange(i, i + render_items(pairs).len() as int) == render_items(pairs),
        s[i + render_items(pairs).len() as int] == '<',
        s[i + render_items(pairs).len() as int + 1] == '/',
    ensures
        spec_scan_items(s, i) == Some((pairs, i + render_items(pairs).len() as int)),
    decreases pairs.len(),
{
    reveal_strlit("<");
    reveal_strlit(">");
    reveal_strlit("</");
    let ml = render_items(pairs).len() as int;
    if pairs.len() == 0 {
        assert(!is_ws(s[i]));
        assert(spec_skip_ws(s, i) == i);
        assert(spec_scan_items(s, i) == Some((Seq::<(Seq<char>, Seq<char>)>::empty(), i)));
        assert(pairs =~= Seq::<(Seq<char>, Seq<char>)>::empty());
    } else {
        let p0 = pairs[0];
        let rest = pairs.drop_first();
        let e0 = spec_elem(p0.0, p0.1);
        let l0 = e0.len() as int;
        assert(render_items(pairs) == e0 + render_items(rest));
        assert forall|k: int| 0 <= k < ml implies s[i + k] == render_items(pairs)[k] by {
            assert(s.subrange(i, i + ml)[k] == s[i + k]);
        }
        assert(s.subrange(i, i + l0) =~= e0);
        assert(valid_name(p0.0) && xml_text_ok(p0.1));
        assert(s[i] == e0[0]);
        assert(e0[0] == '<');
        assert(!is_ws(s[i]));
        assert(spec_skip_ws(s, i) == i);
        assert(e0[1] == p0.0[0]);
        assert(s[i + 1] == e0[1]);
        assert(s[i + 1] != '/');
        lemma_parse_element_at(s, i, p0.0, p0.1);
        assert forall|k: int|
            0 <= k < rest.len() implies valid_name((#[trigger] rest[k]).0) && xml_text_ok(
            rest[k].1,
        ) by {
            assert(rest[k] == pairs[k + 1]);
        }
        assert forall|k: int| 0 <= k < render_items(rest).len() implies s.subrange(
            i + l0,
            i + ml,
        )[k] == render_items(rest)[k] by {
            assert(s.subrange(i + l0, i + ml)[k] == s[i + l0 + k]);
            assert(s[i + l0 + k] == render_items(pairs)[l0 + k]);
            assert(render_items(pairs)[l0 + k] == render_items(rest)[k]);
        }
        assert(s.subrange(i + l0, i + ml) =~= render_items(rest));
        lemma_scan_items_at(s, i + l0, rest);
        assert(p0 == (p0.0, p0.1));
        assert(seq![p0] + rest =~= pairs);
        assert(spec_scan_items(s, i) == Some((pairs, i + ml)));
    }
}


/// The first leaf with a name that no earlier leaf shares is found by
/// `spec_lookup`.
pub proof fn lemma_lookup_at(leaves: Seq<(Seq<char>, Seq<char>)>, j: int)
    requires
        0 <= j < leaves.len(),
        forall|k: int| 0 <= k < j ==> (#[trigger] leaves[k]).0 != leaves[j].0,
    ensures
        spec_lookup(leaves, leaves[j].0) == Some(leaves[j].1),
    decreases j,
{
    if j > 0 {
        let df = leaves.drop_first();
        assert(df[j - 1] == leaves[j]);
        assert forall|k: int| 0 <= k < j - 1 implies (#[trigger] df[k]).0 != df[j - 1].0 by {
            assert(df[k] == leaves[k + 1]);
        }
        lemma_lookup_at(df, j - 1);
        assert(leaves[0].0 != leaves[j].0);
    }
}

} // verus!
