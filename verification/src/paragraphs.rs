//! The plain-text side of the content conversion: document content is one
//! string whose paragraphs are separated by line breaks. Splitting drops
//! blank paragraphs, so a blank line never produces a block; joining puts
//! one line break after every paragraph.

use vstd::prelude::*;

verus! {

/// The lines of `s`: the segments between line breaks, kept in order and
/// with empty segments preserved. Text without a line break is one line;
/// in particular the empty text is one empty line.
pub open spec fn spec_lines(s: Seq<char>) -> Seq<Seq<char>>
    decreases s.len(),
{
    if s.len() == 0 {
        seq![Seq::<char>::empty()]
    } else if s[0] == '\n' {
        seq![Seq::<char>::empty()] + spec_lines(s.drop_first())
    } else {
        let rest = spec_lines(s.drop_first());
        seq![seq![s[0]] + rest[0]] + rest.drop_first()
    }
}

/// The non-empty elements of `ls`, in order.
pub open spec fn spec_keep_nonempty(ls: Seq<Seq<char>>) -> Seq<Seq<char>>
    decreases ls.len(),
{
    if ls.len() == 0 {
        Seq::empty()
    } else if ls[0].len() > 0 {
        seq![ls[0]] + spec_keep_nonempty(ls.drop_first())
    } else {
        spec_keep_nonempty(ls.drop_first())
    }
}

/// The paragraphs of content `s`: its non-empty lines, in order.
pub open spec fn spec_paragraphs(s: Seq<char>) -> Seq<Seq<char>> {
    spec_keep_nonempty(spec_lines(s))
}

/// The content written for the paragraphs `ps`: each paragraph followed
/// by one line break.
pub open spec fn spec_join(ps: Seq<Seq<char>>) -> Seq<char>
    decreases ps.len(),
{
    if ps.len() == 0 {
        Seq::empty()
    } else {
        ps[0].push('\n') + spec_join(ps.drop_first())
    }
}

/// The number of line breaks in `s`.
pub open spec fn spec_nl_count(s: Seq<char>) -> int
    decreases s.len(),
{
    if s.len() == 0 {
        0
    } else {
        (if s[0] == '\n' {
            1int
        } else {
            0int
        }) + spec_nl_count(s.drop_first())
    }
}

/// The number of lines of `s` as a line iterator reports it: empty text
/// has none, and a final line break closes the last line instead of
/// opening a new one.
pub open spec fn spec_count_lines(s: Seq<char>) -> int {
    if s.len() == 0 {
        0
    } else if s[s.len() - 1] == '\n' {
        spec_nl_count(s)
    } else {
        spec_nl_count(s) + 1
    }
}

/// The position of the first line break of `s`, or `s.len()` if it has none.
pub open spec fn spec_first_nl(s: Seq<char>) -> int
    decreases s.len(),
{
    if s.len() == 0 {
        0
    } else if s[0] == '\n' {
        0
    } else {
        1 + spec_first_nl(s.drop_first())
    }
}

pub proof fn lemma_first_nl(s: Seq<char>)
    ensures
        0 <= spec_first_nl(s) <= s.len(),
        forall|j: int| 0 <= j < spec_first_nl(s) ==> s[j] != '\n',
        spec_first_nl(s) < s.len() ==> s[spec_first_nl(s)] == '\n',
    decreases s.len(),
{
    if s.len() == 0 {
    } else if s[0] == '\n' {
    } else {
        lemma_first_nl(s.drop_first());
        assert forall|j: int| 0 <= j < spec_first_nl(s) implies s[j] != '\n' by {
            if j > 0 {
                assert(s.drop_first()[j - 1] != '\n');
            }
        }
        if spec_first_nl(s) < s.len() {
            assert(s[spec_first_nl(s)] == s.drop_first()[spec_first_nl(s.drop_first())]);
        }
    }
}

/// There are no more line breaks than characters, and strictly fewer when
/// the text does not close with one.
pub proof fn lemma_nl_count_bound(s: Seq<char>)
    ensures
        0 <= spec_nl_count(s) <= s.len(),
        s.len() > 0 && s[s.len() - 1] != '\n' ==> spec_nl_count(s) < s.len(),
    decreases s.len(),
{
    if s.len() == 0 {
    } else {
        lemma_nl_count_bound(s.drop_first());
        if s.len() > 1 {
            assert(s.drop_first()[s.drop_first().len() - 1] == s[s.len() - 1]);
        }
    }
}

/// The empty content has no paragraphs.
pub proof fn lemma_paragraphs_empty()
    ensures
        spec_paragraphs(Seq::<char>::empty()) == Seq::<Seq<char>>::empty(),
{
    let e = Seq::<char>::empty();
    assert(spec_lines(e) == seq![e]);
    assert(seq![e].drop_first() =~= Seq::<Seq<char>>::empty());
    assert(spec_keep_nonempty(Seq::<Seq<char>>::empty()) == Seq::<Seq<char>>::empty());
    assert(spec_keep_nonempty(seq![e]) =~= Seq::<Seq<char>>::empty());
}

/// A text without a line break is a single line.
pub proof fn lemma_lines_single(a: Seq<char>)
    requires
        forall|j: int| 0 <= j < a.len() ==> a[j] != '\n',
    ensures
        spec_lines(a) == seq![a],
    decreases a.len(),
{
    if a.len() == 0 {
        assert(a =~= Seq::<char>::empty());
    } else {
        lemma_lines_single(a.drop_first());
        assert(seq![a[0]] + a.drop_first() =~= a);
        assert(spec_lines(a) =~~= seq![a]);
    }
}

/// Splitting at the first line break: the line before it, then the lines
/// of what follows it.
pub proof fn lemma_lines_break(a: Seq<char>, b: Seq<char>)
    requires
        forall|j: int| 0 <= j < a.len() ==> a[j] != '\n',
    ensures
        spec_lines(a + seq!['\n'] + b) == seq![a] + spec_lines(b),
    decreases a.len(),
{
    let s = a + seq!['\n'] + b;
    if a.len() == 0 {
        assert(s[0] == '\n');
        assert(s.drop_first() =~= b);
        assert(spec_lines(s) =~~= seq![a] + spec_lines(b));
    } else {
        assert(s[0] == a[0]);
        assert(s[0] != '\n');
        assert(s.drop_first() =~= a.drop_first() + seq!['\n'] + b);
        lemma_lines_break(a.drop_first(), b);
        let rest = spec_lines(s.drop_first());
        assert(rest == seq![a.drop_first()] + spec_lines(b));
        assert(rest[0] == a.drop_first());
        assert(seq![s[0]] + rest[0] =~= a);
        assert(rest.drop_first() =~= spec_lines(b));
        assert(spec_lines(s) =~~= seq![a] + spec_lines(b));
    }
}

/// Keeping the non-empty elements distributes over concatenation.
pub proof fn lemma_keep_nonempty_concat(x: Seq<Seq<char>>, y: Seq<Seq<char>>)
    ensures
        spec_keep_nonempty(x + y) == spec_keep_nonempty(x) + spec_keep_nonempty(y),
    decreases x.len(),
{
    if x.len() == 0 {
        assert(x + y =~= y);
        assert(spec_keep_nonempty(x) + spec_keep_nonempty(y) =~= spec_keep_nonempty(y));
    } else {
        assert((x + y).drop_first() =~= x.drop_first() + y);
        lemma_keep_nonempty_concat(x.drop_first(), y);
        if x[0].len() > 0 {
            assert(seq![x[0]] + (spec_keep_nonempty(x.drop_first()) + spec_keep_nonempty(y))
                =~= (seq![x[0]] + spec_keep_nonempty(x.drop_first())) + spec_keep_nonempty(y));
        }
        assert(spec_keep_nonempty(x + y) =~= spec_keep_nonempty(x) + spec_keep_nonempty(y));
    }
}

/// The paragraphs of a text that opens with a break-free line: that line
/// (when non-empty), then the paragraphs of the remainder.
pub proof fn lemma_paragraphs_break(a: Seq<char>, b: Seq<char>)
    requires
        forall|j: int| 0 <= j < a.len() ==> a[j] != '\n',
    ensures
        a.len() > 0 ==> spec_paragraphs(a + seq!['\n'] + b) == seq![a] + spec_paragraphs(b),
        a.len() == 0 ==> spec_paragraphs(a + seq!['\n'] + b) == spec_paragraphs(b),
{
    lemma_lines_break(a, b);
    lemma_keep_nonempty_concat(seq![a], spec_lines(b));
    assert(seq![a].drop_first() =~= Seq::<Seq<char>>::empty());
    assert(spec_keep_nonempty(Seq::<Seq<char>>::empty()) =~= Seq::<Seq<char>>::empty());
    if a.len() > 0 {
        assert(spec_keep_nonempty(seq![a]) =~= seq![a]);
        assert(seq![a] + spec_keep_nonempty(spec_lines(b)) =~= spec_paragraphs(
            a + seq!['\n'] + b,
        ));
    } else {
        assert(spec_keep_nonempty(seq![a]) =~= Seq::<Seq<char>>::empty());
        assert(Seq::<Seq<char>>::empty() + spec_keep_nonempty(spec_lines(b))
            =~= spec_keep_nonempty(spec_lines(b)));
    }
}

/// No two adjacent characters of `s` are both line breaks.
pub open spec fn spec_no_blank_line(s: Seq<char>) -> bool {
    forall|i: int| 0 <= i < s.len() - 1 ==> !((#[trigger] s[i]) == '\n' && s[i + 1] == '\n')
}

/// Round trip: content whose lines are all non-empty and that closes with
/// a line break reads back as the same content after splitting into
/// paragraphs and joining again. (Content that does not close with a line
/// break gains one, and a blank line is dropped: those inputs are left
/// out here and exercised by tests.)
pub proof fn lemma_round_trip(s: Seq<char>)
    requires
        s.len() == 0 || (s[s.len() - 1] == '\n' && s[0] != '\n' && spec_no_blank_line(s)),
    ensures
        spec_join(spec_paragraphs(s)) == s,
    decreases s.len(),
{
    if s.len() == 0 {
        assert(s =~= Seq::<char>::empty());
        lemma_paragraphs_empty();
        assert(spec_join(Seq::<Seq<char>>::empty()) =~= Seq::<char>::empty());
    } else {
        let k = spec_first_nl(s);
        lemma_first_nl(s);
        assert(k < s.len());
        assert(k >= 1);
        let a = s.take(k);
        let rest = s.skip(k + 1);
        assert(s =~= a + seq!['\n'] + rest);
        lemma_paragraphs_break(a, rest);
        if rest.len() == 0 {
            assert(rest =~= Seq::<char>::empty());
            lemma_paragraphs_empty();
            assert(seq![a] + spec_paragraphs(rest) =~= seq![a]);
            assert(spec_paragraphs(s) == seq![a]);
            assert(seq![a].drop_first() =~= Seq::<Seq<char>>::empty());
            assert(spec_join(Seq::<Seq<char>>::empty()) =~= Seq::<char>::empty());
            assert(spec_join(seq![a]) =~= a.push('\n'));
            assert(a.push('\n') =~= s);
        } else {
            assert(rest[0] == s[k + 1]);
            assert(rest[0] != '\n');
            assert(rest[rest.len() - 1] == s[s.len() - 1]);
            assert(spec_no_blank_line(rest)) by {
                assert(forall|i: int|
                    0 <= i < rest.len() - 1 ==> (#[trigger] rest[i]) == s[k + 1 + i] && rest[i + 1]
                        == s[k + 1 + i + 1]);
            }
            lemma_round_trip(rest);
            assert(spec_join(seq![a] + spec_paragraphs(rest)) == a.push('\n') + spec_join(
                spec_paragraphs(rest),
            )) by {
                assert((seq![a] + spec_paragraphs(rest)).drop_first() =~= spec_paragraphs(rest));
                assert((seq![a] + spec_paragraphs(rest))[0] == a);
            }
            assert(a.push('\n') + rest =~= s);
        }
    }
}

/// Round trip in the writing direction: paragraphs that are non-empty
/// and free of line breaks are read back unchanged from the content
/// written for them.
pub proof fn lemma_write_read_paragraphs(ps: Seq<Seq<char>>)
    requires
        forall|k: int| 0 <= k < ps.len() ==> (#[trigger] ps[k]).len() > 0,
        forall|k: int, j: int|
            0 <= k < ps.len() && 0 <= j < ps[k].len() ==> (#[trigger] ps[k][j]) != '\n',
    ensures
        spec_paragraphs(spec_join(ps)) == ps,
    decreases ps.len(),
{
    if ps.len() == 0 {
        assert(spec_join(ps) =~= Seq::<char>::empty());
        lemma_paragraphs_empty();
    } else {
        let a = ps[0];
        let rest = ps.drop_first();
        assert forall|k: int| 0 <= k < rest.len() implies (#[trigger] rest[k]).len() > 0 by {
            assert(rest[k] == ps[k + 1]);
        }
        assert forall|k: int, j: int|
            0 <= k < rest.len() && 0 <= j < rest[k].len() implies (#[trigger] rest[k][j])
            != '\n' by {
            assert(rest[k] == ps[k + 1]);
            assert(ps[k + 1][j] != '\n');
        }
        lemma_write_read_paragraphs(rest);
        assert forall|j: int| 0 <= j < a.len() implies a[j] != '\n' by {
            assert(ps[0][j] != '\n');
        }
        assert(a.push('\n') + spec_join(rest) =~= a + seq!['\n'] + spec_join(rest));
        lemma_paragraphs_break(a, spec_join(rest));
        assert(a.len() > 0);
        assert(seq![a] + rest =~= ps);
    }
}

/// Splits content into its paragraphs: the non-empty lines, in order.
pub fn split_paragraphs(s: &str) -> (r: Vec<String>)
    ensures
        r.deep_view() == spec_paragraphs(s@),
{
    let n = s.unicode_len();
    let mut out: Vec<String> = Vec::new();
    let mut start: usize = 0;
    let mut i: usize = 0;
    proof {
        assert(out.deep_view() =~= Seq::<Seq<char>>::empty());
        assert(s@.skip(0) =~= s@);
    }
    while i < n
        invariant
            n == s@.len(),
            start <= i <= n,
            forall|j: int| start <= j < i ==> s@[j] != '\n',
            out.deep_view() + spec_paragraphs(s@.skip(start as int)) == spec_paragraphs(s@),
        decreases n - i,
    {
        let c = s.get_char(i);
        if c == '\n' {
            let ghost seg = s@.subrange(start as int, i as int);
            proof {
                assert(s@.skip(start as int) =~= seg + seq!['\n'] + s@.skip(i as int + 1));
                lemma_paragraphs_break(seg, s@.skip(i as int + 1));
            }
            if i > start {
                let piece = s.substring_char(start, i).to_owned();
                let ghost before = out.deep_view();
                out.push(piece);
                proof {
                    assert(out.deep_view() =~= before + seq![seg]);
                    assert(before + seq![seg] + spec_paragraphs(s@.skip(i as int + 1)) =~= before
                        + (seq![seg] + spec_paragraphs(s@.skip(i as int + 1))));
                }
            }
            start = i + 1;
        }
        i += 1;
    }
    let ghost seg = s@.subrange(start as int, n as int);
    proof {
        assert(s@.skip(start as int) =~= seg);
        lemma_lines_single(seg);
        assert(spec_paragraphs(seg) == spec_keep_nonempty(seq![seg]));
        assert(seq![seg].drop_first() =~= Seq::<Seq<char>>::empty());
        assert(spec_keep_nonempty(Seq::<Seq<char>>::empty()) =~= Seq::<Seq<char>>::empty());
    }
    if n > start {
        let piece = s.substring_char(start, n).to_owned();
        let ghost before = out.deep_view();
        out.push(piece);
        proof {
            assert(spec_keep_nonempty(seq![seg]) =~= seq![seg]);
            assert(out.deep_view() =~= before + seq![seg]);
        }
    } else {
        proof {
            assert(spec_keep_nonempty(seq![seg]) =~= Seq::<Seq<char>>::empty());
            assert(out.deep_view() + Seq::<Seq<char>>::empty() =~= out.deep_view());
        }
    }
    out
}

/// Lemma form of one joining step: a paragraph added at the end extends
/// the written content by that paragraph and one line break.
pub proof fn lemma_join_snoc(ps: Seq<Seq<char>>, q: Seq<char>)
    ensures
        spec_join(ps.push(q)) == spec_join(ps) + q.push('\n'),
    decreases ps.len(),
{
    if ps.len() == 0 {
        assert(ps.push(q)[0] == q);
        assert(ps.push(q).drop_first() =~= Seq::<Seq<char>>::empty());
        assert(spec_join(Seq::<Seq<char>>::empty()) =~= Seq::<char>::empty());
        assert(spec_join(ps.push(q)) =~= q.push('\n'));
        assert(spec_join(ps) + q.push('\n') =~= q.push('\n'));
    } else {
        assert(ps.push(q).drop_first() =~= ps.drop_first().push(q));
        lemma_join_snoc(ps.drop_first(), q);
        assert(ps.push(q)[0] == ps[0]);
        assert(ps[0].push('\n') + (spec_join(ps.drop_first()) + q.push('\n')) =~= (ps[0].push('\n')
            + spec_join(ps.drop_first())) + q.push('\n'));
    }
}

/// Joins paragraphs back into content, one line break after each.
pub fn join_paragraphs(ps: &Vec<String>) -> (r: String)
    ensures
        r@ == spec_join(ps.deep_view()),
{
    let mut out = String::new();
    let n = ps.len();
    let mut i: usize = 0;
    proof {
        assert(ps.deep_view().take(0) =~= Seq::<Seq<char>>::empty());
    }
    while i < n
        invariant
            n == ps.len(),
            i <= n,
            ps.deep_view().len() == n,
            forall|k: int| 0 <= k < n ==> ps.deep_view()[k] == ps@[k]@,
            out@ == spec_join(ps.deep_view().take(i as int)),
        decreases n - i,
    {
        out.append(ps[i].as_str());
        out.append("\n");
        proof {
            reveal_strlit("\n");
            let dv = ps.deep_view();
            assert(dv.take(i as int + 1) =~= dv.take(i as int).push(dv[i as int]));
            lemma_join_snoc(dv.take(i as int), dv[i as int]);
            assert(out@ =~= spec_join(dv.take(i as int)) + dv[i as int].push('\n'));
        }
        i += 1;
    }
    proof {
        assert(ps.deep_view().take(n as int) =~= ps.deep_view());
    }
    out
}

/// Counts the lines of `s`, as `spec_count_lines` describes.
pub fn count_lines(s: &str) -> (r: usize)
    ensures
        r == spec_count_lines(s@),
{
    let n = s.unicode_len();
    let mut nl: usize = 0;
    let mut i: usize = 0;
    proof {
        assert(s@.skip(0) =~= s@);
    }
    while i < n
        invariant
            n == s@.len(),
            i <= n,
            nl <= i,
            nl + spec_nl_count(s@.skip(i as int)) == spec_nl_count(s@),
        decreases n - i,
    {
        proof {
            assert(s@.skip(i as int).drop_first() =~= s@.skip(i as int + 1));
            assert(s@.skip(i as int)[0] == s@[i as int]);
        }
        if s.get_char(i) == '\n' {
            nl += 1;
        }
        i += 1;
    }
    proof {
        assert(s@.skip(n as int) =~= Seq::<char>::empty());
        assert(spec_nl_count(Seq::<char>::empty()) == 0);
        lemma_nl_count_bound(s@);
    }
    if n == 0 {
        0
    } else if s.get_char(n - 1) == '\n' {
        nl
    } else {
        nl + 1
    }
}

} // verus!
