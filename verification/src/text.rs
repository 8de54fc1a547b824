//! Character-level text utilities: splitting into lines, joining with a
//! separator, whitespace tokenizing, and prefix / suffix / equality tests.
//! Everything is specified over `Seq<char>` views.

use vstd::prelude::*;
use vstd::string::*;

verus! {

/// Characters treated as blank by this crate's trimming and tokenizing:
/// the ASCII whitespace characters that occur in editor buffer lines.
pub open spec fn is_blank(c: char) -> bool {
    c == ' ' || c == '\t' || c == '\r' || c == '\n'
}

/// The views of a sequence of strings.
pub open spec fn line_views(v: Seq<String>) -> Seq<Seq<char>> {
    Seq::new(v.len(), |i: int| v[i]@)
}

pub proof fn lemma_line_views_push(v: Seq<String>, s: String)
    ensures
        line_views(v.push(s)) == line_views(v).push(s@),
{
    assert(line_views(v.push(s)) =~= line_views(v).push(s@));
}

/// Splitting on newlines, one character at a time: `cur` is the line being
/// collected, `acc` the lines already complete.
pub open spec fn split_acc(s: Seq<char>, i: int, cur: Seq<char>, acc: Seq<Seq<char>>) -> Seq<
    Seq<char>,
>
    decreases s.len() - i,
{
    if s.len() <= i {
        acc.push(cur)
    } else if s[i] == '\n' {
        split_acc(s, i + 1, Seq::empty(), acc.push(cur))
    } else {
        split_acc(s, i + 1, cur.push(s[i]), acc)
    }
}

/// The lines of `s`: `s` split on newline characters. The empty sequence
/// splits into one empty line.
pub open spec fn split_lines_spec(s: Seq<char>) -> Seq<Seq<char>> {
    split_acc(s, 0, Seq::empty(), Seq::empty())
}

/// The elements of `ls` joined with `sep` between consecutive elements.
pub open spec fn join_with(ls: Seq<Seq<char>>, sep: Seq<char>) -> Seq<char>
    decreases ls.len(),
{
    if ls.len() == 0 {
        Seq::empty()
    } else if ls.len() == 1 {
        ls[0]
    } else {
        ls[0] + sep + join_with(ls.drop_first(), sep)
    }
}

/// The elements of `ls` joined with single newlines.
pub open spec fn join_lines(ls: Seq<Seq<char>>) -> Seq<char> {
    join_with(ls, seq!['\n'])
}

pub proof fn lemma_join_push(ls: Seq<Seq<char>>, l: Seq<char>, sep: Seq<char>)
    ensures
        ls.len() == 0 ==> join_with(ls.push(l), sep) == l,
        ls.len() > 0 ==> join_with(ls.push(l), sep) == join_with(ls, sep) + sep + l,
    decreases ls.len(),
{
    if ls.len() == 0 {
        assert(ls.push(l)[0] == l);
    } else if ls.len() == 1 {
        assert(ls.push(l)[0] == ls[0]);
        assert(ls.push(l).drop_first() =~= seq![l]);
        assert(join_with(seq![l], sep) == l);
        assert(join_with(ls, sep) == ls[0]);
    } else {
        assert(ls.push(l)[0] == ls[0]);
        assert(ls.push(l).drop_first() =~= ls.drop_first().push(l));
        lemma_join_push(ls.drop_first(), l, sep);
        assert(ls[0] + sep + (join_with(ls.drop_first(), sep) + sep + l) =~= (ls[0] + sep
            + join_with(ls.drop_first(), sep)) + sep + l);
    }
}

/// Whitespace tokenizing, one character at a time: `cur` is the token being
/// collected, `acc` the tokens already complete.
pub open spec fn tokens_acc(s: Seq<char>, i: int, cur: Seq<char>, acc: Seq<Seq<char>>) -> Seq<
    Seq<char>,
>
    decreases s.len() - i,
{
    if s.len() <= i {
        if cur.len() > 0 {
            acc.push(cur)
        } else {
            acc
        }
    } else if is_blank(s[i]) {
        if cur.len() > 0 {
            tokens_acc(s, i + 1, Seq::empty(), acc.push(cur))
        } else {
            tokens_acc(s, i + 1, Seq::empty(), acc)
        }
    } else {
        tokens_acc(s, i + 1, cur.push(s[i]), acc)
    }
}

/// The blank-separated tokens of `s`, in order.
pub open spec fn tokens_of(s: Seq<char>) -> Seq<Seq<char>> {
    tokens_acc(s, 0, Seq::empty(), Seq::empty())
}

pub proof fn lemma_split_acc_app(s: Seq<char>, i: int, cur: Seq<char>, acc: Seq<Seq<char>>)
    ensures
        split_acc(s, i, cur, acc) == acc + split_acc(s, i, cur, Seq::empty()),
    decreases s.len() - i,
{
    if s.len() <= i {
        assert(acc.push(cur) =~= acc + Seq::<Seq<char>>::empty().push(cur));
    } else if s[i] == '\n' {
        lemma_split_acc_app(s, i + 1, Seq::empty(), acc.push(cur));
        lemma_split_acc_app(s, i + 1, Seq::empty(), Seq::<Seq<char>>::empty().push(cur));
        assert(acc.push(cur) + split_acc(s, i + 1, Seq::empty(), Seq::empty()) =~= acc + (Seq::<
            Seq<char>,
        >::empty().push(cur) + split_acc(s, i + 1, Seq::empty(), Seq::empty())));
    } else {
        lemma_split_acc_app(s, i + 1, cur.push(s[i]), acc);
    }
}

pub proof fn lemma_split_skip_clean(s: Seq<char>, i: int, j: int, cur: Seq<char>, acc: Seq<
    Seq<char>,
>)
    requires
        0 <= i <= j <= s.len(),
        forall|k: int| i <= k < j ==> s[k] != '\n',
    ensures
        split_acc(s, i, cur, acc) == split_acc(s, j, cur + s.subrange(i, j), acc),
    decreases j - i,
{
    if i == j {
        assert(cur + s.subrange(i, i) =~= cur);
    } else {
        lemma_split_skip_clean(s, i + 1, j, cur.push(s[i]), acc);
        assert(cur.push(s[i]) + s.subrange(i + 1, j) =~= cur + s.subrange(i, j));
    }
}

pub proof fn lemma_split_drop(s: Seq<char>, i: int, cur: Seq<char>, acc: Seq<Seq<char>>)
    requires
        1 <= i,
        1 <= s.len(),
    ensures
        split_acc(s, i, cur, acc) == split_acc(s.drop_first(), i - 1, cur, acc),
    decreases s.len() - i,
{
    if s.len() <= i {
    } else {
        assert(s.drop_first()[i - 1] == s[i]);
        if s[i] == '\n' {
            lemma_split_drop(s, i + 1, Seq::empty(), acc.push(cur));
        } else {
            lemma_split_drop(s, i + 1, cur.push(s[i]), acc);
        }
    }
}

pub proof fn lemma_split_skip_k(s: Seq<char>, k: int, i: int, cur: Seq<char>, acc: Seq<Seq<char>>)
    requires
        0 <= k <= i,
        k <= s.len(),
    ensures
        split_acc(s, i, cur, acc) == split_acc(s.skip(k), i - k, cur, acc),
    decreases k,
{
    if k == 0 {
        assert(s.skip(0) =~= s);
    } else {
        lemma_split_drop(s, i, cur, acc);
        lemma_split_skip_k(s.drop_first(), k - 1, i - 1, cur, acc);
        assert(s.drop_first().skip(k - 1) =~= s.skip(k));
    }
}

/// Splitting the newline-join of a non-empty sequence of newline-free lines
/// gives those lines back.
pub proof fn lemma_split_join(ls: Seq<Seq<char>>)
    requires
        ls.len() >= 1,
        forall|k: int, j: int|
            0 <= k < ls.len() && 0 <= j < ls[k].len() ==> #[trigger] ls[k][j] != '\n',
    ensures
        split_lines_spec(join_lines(ls)) == ls,
    decreases ls.len(),
{
    let s = join_lines(ls);
    let l0 = ls[0];
    if ls.len() == 1 {
        assert(s == l0);
        assert forall|k: int| 0 <= k < s.len() implies s[k] != '\n' by {
            assert(ls[0][k] != '\n');
        }
        lemma_split_skip_clean(s, 0, s.len() as int, Seq::empty(), Seq::empty());
        assert(Seq::<char>::empty() + s.subrange(0, s.len() as int) =~= s);
        assert(Seq::<Seq<char>>::empty().push(s) =~= ls);
    } else {
        let rest = ls.drop_first();
        let jr = join_with(rest, seq!['\n']);
        assert(s == l0 + seq!['\n'] + jr);
        let n0 = l0.len() as int;
        assert forall|k: int| 0 <= k < n0 implies s[k] != '\n' by {
            assert(s[k] == l0[k]);
            assert(ls[0][k] != '\n');
        }
        lemma_split_skip_clean(s, 0, n0, Seq::empty(), Seq::empty());
        assert(Seq::<char>::empty() + s.subrange(0, n0) =~= l0);
        assert(s[n0] == '\n');
        assert(split_acc(s, n0, l0, Seq::empty()) == split_acc(
            s,
            n0 + 1,
            Seq::empty(),
            Seq::<Seq<char>>::empty().push(l0),
        ));
        lemma_split_acc_app(s, n0 + 1, Seq::empty(), Seq::<Seq<char>>::empty().push(l0));
        lemma_split_skip_k(s, n0 + 1, n0 + 1, Seq::empty(), Seq::empty());
        assert(s.skip(n0 + 1) =~= jr);
        assert forall|k: int, j: int|
            0 <= k < rest.len() && 0 <= j < rest[k].len() implies #[trigger] rest[k][j]
            != '\n' by {
            assert(rest[k] == ls[k + 1]);
            assert(ls[k + 1][j] != '\n');
        }
        lemma_split_join(rest);
        assert(Seq::<Seq<char>>::empty().push(l0) + rest =~= ls);
    }
}

/// Does `s` start with `p`?
pub open spec fn has_prefix(s: Seq<char>, p: Seq<char>) -> bool {
    s.len() >= p.len() && (forall|j: int| 0 <= j < p.len() ==> s[j] == p[j])
}

/// Does `s` end with `p`?
pub open spec fn has_suffix(s: Seq<char>, p: Seq<char>) -> bool {
    s.len() >= p.len() && (forall|j: int| 0 <= j < p.len() ==> s[s.len() - p.len() + j] == p[j])
}

/// Does `c` count as blank?
pub fn is_blank_char(c: char) -> (r: bool)
    ensures
        r == is_blank(c),
{
    c == ' ' || c == '\t' || c == '\r' || c == '\n'
}

/// `text` split on newline characters; an input without any newline yields
/// one line, so the empty input yields one empty line.
pub fn split_lines(text: &str) -> (r: Vec<String>)
    ensures
        line_views(r@) == split_lines_spec(text@),
{
    let n = text.unicode_len();
    let mut r: Vec<String> = Vec::new();
    let mut start: usize = 0;
    let mut i: usize = 0;
    proof {
        assert(text@.subrange(0, 0) =~= Seq::<char>::empty());
        assert(line_views(Seq::<String>::empty()) =~= Seq::<Seq<char>>::empty());
    }
    while i < n
        invariant
            start <= i <= n,
            n == text@.len(),
            split_lines_spec(text@) == split_acc(
                text@,
                i as int,
                text@.subrange(start as int, i as int),
                line_views(r@),
            ),
        decreases n - i,
    {
        let c = text.get_char(i);
        if c == '\n' {
            let line = String::from_str(text.substring_char(start, i));
            proof {
                lemma_line_views_push(r@, line);
            }
            r.push(line);
            start = i + 1;
            proof {
                assert(text@.subrange(start as int, start as int) =~= Seq::<char>::empty());
            }
        } else {
            proof {
                assert(text@.subrange(start as int, i + 1) =~= text@.subrange(
                    start as int,
                    i as int,
                ).push(text@[i as int]));
            }
        }
        i = i + 1;
    }
    let line = String::from_str(text.substring_char(start, n));
    proof {
        lemma_line_views_push(r@, line);
    }
    r.push(line);
    r
}

/// The elements `from .. to` of `lines`, joined with `sep`.
pub fn join_range(lines: &Vec<String>, from: usize, to: usize, sep: &str) -> (r: String)
    requires
        from <= to <= lines@.len(),
    ensures
        r@ == join_with(line_views(lines@).subrange(from as int, to as int), sep@),
{
    let mut r = String::new();
    let mut j: usize = from;
    proof {
        assert(line_views(lines@).subrange(from as int, from as int) =~= Seq::<Seq<char>>::empty());
    }
    while j < to
        invariant
            from <= j <= to <= lines@.len(),
            r@ == join_with(line_views(lines@).subrange(from as int, j as int), sep@),
        decreases to - j,
    {
        if j > from {
            r.append(sep);
        }
        r.append(lines[j].as_str());
        proof {
            let lv = line_views(lines@);
            assert(lv.subrange(from as int, j + 1) =~= lv.subrange(from as int, j as int).push(
                lines@[j as int]@,
            ));
            lemma_join_push(lv.subrange(from as int, j as int), lines@[j as int]@, sep@);
        }
        j = j + 1;
    }
    r
}

/// The blank-separated tokens of `s`.
pub fn tokenize(s: &str) -> (r: Vec<String>)
    ensures
        line_views(r@) == tokens_of(s@),
{
    let n = s.unicode_len();
    let mut r: Vec<String> = Vec::new();
    let mut i: usize = 0;
    let mut start: usize = 0;
    let mut in_tok = false;
    proof {
        assert(line_views(Seq::<String>::empty()) =~= Seq::<Seq<char>>::empty());
    }
    while i < n
        invariant
            i <= n,
            n == s@.len(),
            in_tok ==> start < i,
            tokens_of(s@) == tokens_acc(
                s@,
                i as int,
                if in_tok {
                    s@.subrange(start as int, i as int)
                } else {
                    Seq::<char>::empty()
                },
                line_views(r@),
            ),
        decreases n - i,
    {
        let c = s.get_char(i);
        if is_blank_char(c) {
            if in_tok {
                let tok = String::from_str(s.substring_char(start, i));
                proof {
                    lemma_line_views_push(r@, tok);
                }
                r.push(tok);
                in_tok = false;
            }
        } else {
            if !in_tok {
                start = i;
                in_tok = true;
            }
            proof {
                assert(s@.subrange(start as int, start as int) =~= Seq::<char>::empty());
                assert(s@.subrange(start as int, i + 1) =~= s@.subrange(start as int, i as int).push(
                    s@[i as int],
                ));
            }
        }
        i = i + 1;
    }
    if in_tok {
        let tok = String::from_str(s.substring_char(start, n));
        proof {
            lemma_line_views_push(r@, tok);
        }
        r.push(tok);
    }
    r
}

/// Character-for-character equality of two string slices.
pub fn str_eq(a: &str, b: &str) -> (r: bool)
    ensures
        r == (a@ == b@),
{
    let na = a.unicode_len();
    let nb = b.unicode_len();
    if na != nb {
        return false;
    }
    let mut j: usize = 0;
    while j < na
        invariant
            j <= na,
            na == a@.len(),
            na == b@.len(),
            forall|k: int| 0 <= k < j ==> a@[k] == b@[k],
        decreases na - j,
    {
        if a.get_char(j) != b.get_char(j) {
            return false;
        }
        j = j + 1;
    }
    proof {
        assert(a@ =~= b@);
    }
    true
}

/// Does `s` start with the prefix `p`?
pub fn starts_with_str(s: &str, p: &str) -> (r: bool)
    ensures
        r == has_prefix(s@, p@),
{
    let ns = s.unicode_len();
    let np = p.unicode_len();
    if ns < np {
        return false;
    }
    let mut j: usize = 0;
    while j < np
        invariant
            j <= np <= ns,
            ns == s@.len(),
            np == p@.len(),
            forall|k: int| 0 <= k < j ==> s@[k] == p@[k],
        decreases np - j,
    {
        if s.get_char(j) != p.get_char(j) {
            return false;
        }
        j = j + 1;
    }
    true
}

/// Does `s` end with the suffix `p`?
pub fn ends_with_str(s: &str, p: &str) -> (r: bool)
    ensures
        r == has_suffix(s@, p@),
{
    let ns = s.unicode_len();
    let np = p.unicode_len();
    if ns < np {
        return false;
    }
    let off = ns - np;
    let mut j: usize = 0;
    while j < np
        invariant
            j <= np <= ns,
            ns == s@.len(),
            np == p@.len(),
            off == ns - np,
            forall|k: int| 0 <= k < j ==> s@[off + k] == p@[k],
        decreases np - j,
    {
        if s.get_char(off + j) != p.get_char(j) {
            return false;
        }
        j = j + 1;
    }
    true
}

} // verus!
