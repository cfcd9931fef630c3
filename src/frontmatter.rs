//! Isolating the metadata block at the head of a note.
use vstd::prelude::*;

verus! {

/// The line that opens and closes a frontmatter block.
pub open spec fn marker() -> Seq<char> {
    seq!['-', '-', '-']
}

/// A line without the one carriage return that may end it.
pub open spec fn strip_cr(l: Seq<char>) -> Seq<char> {
    if l.len() > 0 && l.last() == '\r' {
        l.drop_last()
    } else {
        l
    }
}

/// The lines of `s` that end at or after position `i`, where the line being
/// read began at `start`. A newline ends a line (and a carriage return just
/// before it is dropped); what follows the last newline is a line when it is
/// not empty.
pub open spec fn lines_after(s: Seq<char>, start: int, i: int) -> Seq<Seq<char>>
    decreases s.len() - i,
{
    if i >= s.len() {
        if start < s.len() {
            seq![s.subrange(start, s.len() as int)]
        } else {
            seq![]
        }
    } else if s[i] == '\n' {
        seq![strip_cr(s.subrange(start, i))] + lines_after(s, i + 1, i + 1)
    } else {
        lines_after(s, start, i + 1)
    }
}

/// The lines of a text.
pub open spec fn lines_of(s: Seq<char>) -> Seq<Seq<char>> {
    lines_after(s, 0, 0)
}

/// The first index at or after `i` whose line is a marker, or the number of
/// lines when there is none.
pub open spec fn first_marker_from(ls: Seq<Seq<char>>, i: int) -> int
    decreases ls.len() - i,
{
    if i >= ls.len() {
        ls.len() as int
    } else if ls[i] == marker() {
        i
    } else {
        first_marker_from(ls, i + 1)
    }
}

/// Lines joined with a newline between each two.
pub open spec fn join_lines(ls: Seq<Seq<char>>) -> Seq<char>
    decreases ls.len(),
{
    if ls.len() == 0 {
        Seq::empty()
    } else if ls.len() == 1 {
        ls[0]
    } else {
        join_lines(ls.drop_last()) + seq!['\n'] + ls.last()
    }
}

/// The frontmatter block of a text: the lines strictly between a first line
/// that is a marker and the next marker line, joined by newlines.
pub open spec fn frontmatter_of(s: Seq<char>) -> Option<Seq<char>> {
    let ls = lines_of(s);
    if ls.len() == 0 || ls[0] != marker() {
        None
    } else {
        let k = first_marker_from(ls, 1);
        if k < ls.len() {
            Some(join_lines(ls.subrange(1, k)))
        } else {
            None
        }
    }
}

/// The view of an optional string.
pub open spec fn opt_view(r: Option<String>) -> Option<Seq<char>> {
    match r {
        Some(t) => Some(t@),
        None => None,
    }
}

/// The text that each span of positions covers.
pub open spec fn span_texts(s: Seq<char>, spans: Seq<(usize, usize)>) -> Seq<Seq<char>> {
    spans.map_values(|p: (usize, usize)| s.subrange(p.0 as int, p.1 as int))
}

fn chars_of(s: &str) -> (r: Vec<char>)
    ensures
        r@ == s@,
{
    let mut v: Vec<char> = Vec::new();
    for c in it: s.chars()
        invariant
            v@ == it.seq().take(it.index() as int),
    {
        v.push(c);
    }
    v
}

fn line_spans(s: &Vec<char>) -> (r: Vec<(usize, usize)>)
    ensures
        forall|k: int| 0 <= k < r@.len() ==> #[trigger] r@[k].0 <= r@[k].1 <= s@.len(),
        span_texts(s@, r@) == lines_of(s@),
{
    let mut spans: Vec<(usize, usize)> = Vec::new();
    let mut start: usize = 0;
    let mut i: usize = 0;
    while i < s.len()
        invariant
            start <= i <= s@.len(),
            forall|k: int| 0 <= k < spans@.len() ==> #[trigger] spans@[k].0 <= spans@[k].1 <= start,
            span_texts(s@, spans@) + lines_after(s@, start as int, i as int) == lines_of(s@),
        decreases s@.len() - i,
    {
        if s[i] == '\n' {
            let end: usize = if i > start && s[i - 1] == '\r' {
                i - 1
            } else {
                i
            };
            proof {
                assert(strip_cr(s@.subrange(start as int, i as int)) =~= s@.subrange(
                    start as int,
                    end as int,
                ));
            }
            let ghost before = span_texts(s@, spans@);
            spans.push((start, end));
            proof {
                assert(span_texts(s@, spans@) =~= before.push(s@.subrange(start as int, end as int)));
                assert(span_texts(s@, spans@) + lines_after(s@, (i + 1) as int, (i + 1) as int)
                    =~= before + lines_after(s@, start as int, i as int));
            }
            start = i + 1;
        }
        i += 1;
    }
    if start < s.len() {
        let ghost before = span_texts(s@, spans@);
        spans.push((start, s.len()));
        proof {
            assert(span_texts(s@, spans@) =~= before.push(s@.subrange(start as int, s@.len() as int)));
            assert(span_texts(s@, spans@) =~= before + lines_after(s@, start as int, i as int));
        }
    } else {
        assert(span_texts(s@, spans@) =~= span_texts(s@, spans@) + lines_after(s@, start as int, i as int));
    }
    spans
}

fn is_marker(s: &Vec<char>, span: (usize, usize)) -> (r: bool)
    requires
        span.0 <= span.1 <= s@.len(),
    ensures
        r == (s@.subrange(span.0 as int, span.1 as int) == marker()),
{
    let (a, b) = span;
    if b - a == 3 && s[a] == '-' && s[a + 1] == '-' && s[a + 2] == '-' {
        assert(s@.subrange(a as int, b as int) =~= marker());
        true
    } else {
        proof {
            let sub = s@.subrange(a as int, b as int);
            if sub == marker() {
                assert(marker().len() == 3 && marker()[0] == '-' && marker()[1] == '-'
                    && marker()[2] == '-');
                assert(s@[a as int] == sub[0]);
                assert(s@[a + 1] == sub[1]);
                assert(s@[a + 2] == sub[2]);
            }
        }
        false
    }
}

proof fn lemma_no_marker_between(ls: Seq<Seq<char>>, i: int, k: int)
    requires
        0 <= i <= k <= ls.len(),
        forall|j: int| i <= j < k ==> ls[j] != marker(),
    ensures
        first_marker_from(ls, i) == first_marker_from(ls, k),
    decreases k - i,
{
    if i < k {
        lemma_no_marker_between(ls, i + 1, k);
    }
}

fn join_spans(text: &str, spans: &Vec<(usize, usize)>, k: usize) -> (r: String)
    requires
        1 <= k <= spans@.len(),
        forall|j: int| 0 <= j < spans@.len() ==> #[trigger] spans@[j].0 <= spans@[j].1 <= text@.len(),
    ensures
        r@ == join_lines(span_texts(text@, spans@).subrange(1, k as int)),
{
    let ghost ls = span_texts(text@, spans@);
    let mut out = String::new();
    let mut j: usize = 1;
    while j < k
        invariant
            1 <= j <= k <= spans@.len(),
            ls == span_texts(text@, spans@),
            forall|j: int| 0 <= j < spans@.len() ==> #[trigger] spans@[j].0 <= spans@[j].1 <= text@.len(),
            out@ == join_lines(ls.subrange(1, j as int)),
        decreases k - j,
    {
        let (a, b) = spans[j];
        assert(spans@[j as int].0 <= spans@[j as int].1 <= text@.len());
        if j > 1 {
            out.append("\n");
        }
        out.append(text.substring_char(a, b));
        proof {
            reveal_strlit("\n");
            assert(ls.subrange(1, j + 1).drop_last() =~= ls.subrange(1, j as int));
            if j == 1 {
                assert(out@ =~= ls[1]);
            }
        }
        j += 1;
    }
    out
}

/// The frontmatter block of a note: `None` unless the first line is exactly
/// `---` and a later line is exactly `---`; otherwise the lines between the
/// first two such lines, joined by newlines.
pub fn extract_frontmatter(content: &str) -> (r: Option<String>)
    ensures
        opt_view(r) == frontmatter_of(content@),
{
    let chars = chars_of(content);
    let spans = line_spans(&chars);
    let ghost ls = lines_of(content@);
    assert(span_texts(content@, spans@) == ls);
    if spans.len() == 0 {
        return None;
    }
    assert(spans@[0].0 <= spans@[0].1 <= chars@.len());
    let opening = is_marker(&chars, spans[0]);
    assert(ls[0] == chars@.subrange(spans@[0].0 as int, spans@[0].1 as int));
    if !opening {
        return None;
    }
    let mut k: usize = 1;
    while k < spans.len()
        invariant
            1 <= k <= spans@.len(),
            chars@ == content@,
            span_texts(content@, spans@) == ls,
            forall|j: int| 0 <= j < spans@.len() ==> #[trigger] spans@[j].0 <= spans@[j].1 <= chars@.len(),
            ls == lines_of(content@),
            ls[0] == marker(),
            forall|j: int| 1 <= j < k ==> ls[j] != marker(),
        decreases spans@.len() - k,
    {
        assert(spans@[k as int].0 <= spans@[k as int].1 <= chars@.len());
        if is_marker(&chars, spans[k]) {
            proof {
                assert(ls[k as int] == chars@.subrange(spans@[k as int].0 as int, spans@[k as int].1 as int));
                assert(ls[0] == chars@.subrange(spans@[0].0 as int, spans@[0].1 as int));
                lemma_no_marker_between(ls, 1, k as int);
                assert(first_marker_from(ls, k as int) == k);
            }
            return Some(join_spans(content, &spans, k));
        }
        k += 1;
    }
    proof {
        lemma_no_marker_between(ls, 1, k as int);
    }
    None
}

/// A text whose first line is not the marker has no frontmatter.
pub proof fn lemma_no_opening_marker(s: Seq<char>)
    requires
        lines_of(s).len() == 0 || lines_of(s)[0] != marker(),
    ensures
        frontmatter_of(s) is None,
{
}

/// A text that opens with the marker but has no later marker line has no
/// frontmatter.
pub proof fn lemma_no_closing_marker(s: Seq<char>)
    requires
        lines_of(s).len() > 0,
        lines_of(s)[0] == marker(),
        forall|j: int| 1 <= j < lines_of(s).len() ==> lines_of(s)[j] != marker(),
    ensures
        frontmatter_of(s) is None,
{
    lemma_no_marker_between(lines_of(s), 1, lines_of(s).len() as int);
}

} // verus!
