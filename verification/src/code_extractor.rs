//! The fenced-code-block extractor: a single forward pass over the lines of
//! a text, recognizing blocks delimited by runs of three or more backticks,
//! with `path=` / `mode=` metadata in the opening fence's info string.

use vstd::prelude::*;
use vstd::string::*;
use crate::text::{
    has_prefix, is_blank, join_lines, join_with, line_views, split_lines_spec, tokens_of,
    split_lines, tokenize, join_range, starts_with_str,
};

verus! {

/// One extracted code block: optional language, target path and mode from
/// the opening fence's info string, the body with the fences excluded, and
/// the 1-based line numbers of the first and last body line. An empty body
/// is marked by `end_line == start_line - 1`.
#[derive(Debug, PartialEq, Clone)]
pub struct CodeBlock {
    pub lang: Option<String>,
    pub path: Option<String>,
    pub mode: Option<String>,
    pub code: String,
    pub start_line: usize,
    pub end_line: usize,
}

/// The mathematical content of a `CodeBlock`.
pub ghost struct CodeBlockModel {
    pub lang: Option<Seq<char>>,
    pub path: Option<Seq<char>>,
    pub mode: Option<Seq<char>>,
    pub code: Seq<char>,
    pub start_line: int,
    pub end_line: int,
}

impl View for CodeBlock {
    type V = CodeBlockModel;

    open spec fn view(&self) -> CodeBlockModel {
        CodeBlockModel {
            lang: self.lang.deep_view(),
            path: self.path.deep_view(),
            mode: self.mode.deep_view(),
            code: self.code@,
            start_line: self.start_line as int,
            end_line: self.end_line as int,
        }
    }
}

/// The views of a sequence of code blocks.
pub open spec fn block_models(bs: Seq<CodeBlock>) -> Seq<CodeBlockModel> {
    Seq::new(bs.len(), |i: int| bs[i]@)
}

pub proof fn lemma_block_models_push(bs: Seq<CodeBlock>, b: CodeBlock)
    ensures
        block_models(bs.push(b)) == block_models(bs).push(b@),
{
    assert(block_models(bs.push(b)) =~= block_models(bs).push(b@));
}

/// The length of the run of backtick characters in `line` starting at `i`.
pub open spec fn tick_run_from(line: Seq<char>, i: int) -> int
    decreases line.len() - i,
{
    if i < 0 || line.len() <= i {
        0
    } else if line[i] == '`' {
        1 + tick_run_from(line, i + 1)
    } else {
        0
    }
}

/// The length of the leading backtick run of `line`.
pub open spec fn fence_width(line: Seq<char>) -> int {
    tick_run_from(line, 0)
}

/// A line opens a fence when it starts with at least three backticks.
pub open spec fn opens_fence(line: Seq<char>) -> bool {
    fence_width(line) >= 3
}

/// Is every character of `line` at or after index `i` blank?
pub open spec fn all_blank_from(line: Seq<char>, i: int) -> bool {
    forall|j: int| i <= j < line.len() ==> is_blank(#[trigger] line[j])
}

/// A line closes a fence of width `w` when its leading backtick run has
/// exactly length `w` (so it starts at column 0) and nothing but blanks
/// follow it.
pub open spec fn closes_fence(line: Seq<char>, w: int) -> bool {
    fence_width(line) == w && all_blank_from(line, w)
}

/// The value of the first token at or after index `i` of `toks` that starts
/// with `key`, with `key` removed; `None` when there is no such token.
pub open spec fn find_value(toks: Seq<Seq<char>>, i: int, key: Seq<char>) -> Option<Seq<char>>
    decreases toks.len() - i,
{
    if i < 0 || toks.len() <= i {
        None
    } else if has_prefix(toks[i], key) {
        Some(toks[i].skip(key.len() as int))
    } else {
        find_value(toks, i + 1, key)
    }
}

/// The block opened by the fence at index `open_at` and closed by the fence
/// at index `close_at`: metadata from the opening line's info string, the
/// body lines strictly between the fences rejoined, and the 1-based line
/// numbers of the body.
pub open spec fn block_model(lines: Seq<Seq<char>>, open_at: int, close_at: int) -> CodeBlockModel {
    let line = lines[open_at];
    let toks = tokens_of(line.skip(fence_width(line)));
    CodeBlockModel {
        lang: if toks.len() > 0 {
            Some(toks[0])
        } else {
            None
        },
        path: find_value(toks, 1, "path="@),
        mode: find_value(toks, 1, "mode="@),
        code: join_lines(lines.subrange(open_at + 1, close_at)),
        start_line: open_at + 2,
        end_line: close_at,
    }
}

/// The scanner's state between lines: outside any block, or inside the
/// block opened at index `open_at` with a fence of width `width`.
pub ghost struct ScanState {
    pub in_block: bool,
    pub open_at: int,
    pub width: int,
}

/// The single-pass scan from line index `i` on: a fence of three or more
/// backticks opens a block; only a backtick run of exactly the opening
/// width followed by nothing but blanks closes it; a block that never
/// closes is discarded entirely.
pub open spec fn scan_st(
    lines: Seq<Seq<char>>,
    i: int,
    st: ScanState,
    acc: Seq<CodeBlockModel>,
) -> Seq<CodeBlockModel>
    decreases lines.len() - i,
{
    if i < 0 || lines.len() <= i {
        acc
    } else if !st.in_block {
        if opens_fence(lines[i]) {
            scan_st(
                lines,
                i + 1,
                (ScanState { in_block: true, open_at: i, width: fence_width(lines[i]) }),
                acc,
            )
        } else {
            scan_st(lines, i + 1, st, acc)
        }
    } else {
        if closes_fence(lines[i], st.width) {
            scan_st(
                lines,
                i + 1,
                (ScanState { in_block: false, open_at: 0, width: 0 }),
                acc.push(block_model(lines, st.open_at, i)),
            )
        } else {
            scan_st(lines, i + 1, st, acc)
        }
    }
}

/// The blocks of a sequence of lines, in document order.
pub open spec fn scan_spec(lines: Seq<Seq<char>>) -> Seq<CodeBlockModel> {
    scan_st(lines, 0, (ScanState { in_block: false, open_at: 0, width: 0 }), Seq::empty())
}

/// What `extract_code_blocks` returns, as a function of the input text.
pub open spec fn extract_model(text: Seq<char>) -> Seq<CodeBlockModel> {
    scan_spec(split_lines_spec(text))
}

/// The length of the leading backtick run of `line`.
fn leading_ticks(line: &str) -> (r: usize)
    ensures
        r as int == fence_width(line@),
        r <= line@.len(),
{
    let n = line.unicode_len();
    let mut k: usize = 0;
    while k < n
        invariant
            k <= n,
            n == line@.len(),
            fence_width(line@) == k + tick_run_from(line@, k as int),
        decreases n - k,
    {
        if line.get_char(k) != '`' {
            proof {
                assert(tick_run_from(line@, k as int) == 0);
            }
            return k;
        }
        proof {
            assert(tick_run_from(line@, k as int) == 1 + tick_run_from(line@, k + 1));
        }
        k = k + 1;
    }
    proof {
        assert(tick_run_from(line@, k as int) == 0);
    }
    k
}

/// Is every character of `line` at or after index `i` blank?
fn blank_from(line: &str, i: usize) -> (r: bool)
    ensures
        r == all_blank_from(line@, i as int),
{
    let n = line.unicode_len();
    if i >= n {
        return true;
    }
    let mut j: usize = i;
    while j < n
        invariant
            i <= j <= n,
            n == line@.len(),
            forall|k: int| i <= k < j ==> is_blank(#[trigger] line@[k]),
        decreases n - j,
    {
        let c = line.get_char(j);
        if !(c == ' ' || c == '\t' || c == '\r' || c == '\n') {
            return false;
        }
        j = j + 1;
    }
    true
}

/// Does `line` close a fence opened with `width` backticks?
fn closes_fence_line(line: &str, width: usize) -> (r: bool)
    ensures
        r == closes_fence(line@, width as int),
{
    let w = leading_ticks(line);
    if w != width {
        return false;
    }
    blank_from(line, w)
}

/// The value of the first token at or after index 1 that starts with `key`,
/// with the key removed.
fn find_kv(toks: &Vec<String>, key: &str) -> (r: Option<String>)
    ensures
        r.deep_view() == find_value(line_views(toks@), 1, key@),
{
    let np = key.unicode_len();
    let mut i: usize = 1;
    while i < toks.len()
        invariant
            1 <= i <= toks@.len() + 1,
            np == key@.len(),
            find_value(line_views(toks@), 1, key@) == find_value(line_views(toks@), i as int, key@),
        decreases toks@.len() - i,
    {
        let t: &String = &toks[i];
        proof {
            assert(line_views(toks@)[i as int] == t@);
        }
        if starts_with_str(t.as_str(), key) {
            let v = String::from_str(t.as_str().substring_char(np, t.as_str().unicode_len()));
            proof {
                assert(t@.subrange(np as int, t@.len() as int) =~= t@.skip(np as int));
            }
            return Some(v);
        }
        i = i + 1;
    }
    None
}

/// The block opened by the fence line at index `open_at` and closed at
/// index `close_at`.
fn parse_block(lines: &Vec<String>, open_at: usize, close_at: usize) -> (r: CodeBlock)
    requires
        open_at < close_at < lines@.len(),
        opens_fence(line_views(lines@)[open_at as int]),
    ensures
        r@ == block_model(line_views(lines@), open_at as int, close_at as int),
{
    let n = lines.len();
    let line: &String = &lines[open_at];
    proof {
        assert(line_views(lines@)[open_at as int] == line@);
        assert(open_at + 2 <= n);
    }
    let w = leading_ticks(line.as_str());
    let info = line.as_str().substring_char(w, line.as_str().unicode_len());
    proof {
        assert(line@.subrange(w as int, line@.len() as int) =~= line@.skip(w as int));
    }
    let toks = tokenize(info);
    let lang: Option<String> = if toks.len() > 0 {
        proof {
            assert(line_views(toks@)[0] == toks@[0]@);
        }
        Some(toks[0].clone())
    } else {
        None
    };
    let path = find_kv(&toks, "path=");
    let mode = find_kv(&toks, "mode=");
    proof {
        reveal_strlit("\n");
        assert(("\n")@ =~= seq!['\n']);
    }
    let code = join_range(lines, open_at + 1, close_at, "\n");
    CodeBlock { lang, path, mode, code, start_line: open_at + 2, end_line: close_at }
}

/// Extract every fenced code block of `text`, in document order. A fence is
/// a line-initial run of three or more backticks; the rest of the opening
/// line is its info string, whose first token is the language and whose
/// later `path=` / `mode=` tokens carry metadata. A block only closes on a
/// column-0 backtick run of exactly the opening width followed by nothing
/// but blanks; an unterminated block yields no record at all.
pub fn extract_code_blocks(text: &str) -> (blocks: Vec<CodeBlock>)
    ensures
        block_models(blocks@) == extract_model(text@),
{
    let lines = split_lines(text);
    let ghost lv = line_views(lines@);
    let mut blocks: Vec<CodeBlock> = Vec::new();
    let mut i: usize = 0;
    let mut in_block = false;
    let mut width: usize = 0;
    let mut open_at: usize = 0;
    proof {
        assert(block_models(Seq::<CodeBlock>::empty()) =~= Seq::<CodeBlockModel>::empty());
    }
    while i < lines.len()
        invariant
            i <= lines@.len(),
            lv == line_views(lines@),
            in_block ==> open_at < i && width as int == fence_width(lv[open_at as int])
                && opens_fence(lv[open_at as int]),
            extract_model(text@) == scan_st(
                lv,
                i as int,
                (ScanState {
                    in_block: in_block,
                    open_at: if in_block {
                        open_at as int
                    } else {
                        0
                    },
                    width: if in_block {
                        width as int
                    } else {
                        0
                    },
                }),
                block_models(blocks@),
            ),
        decreases lines@.len() - i,
    {
        let line: &String = &lines[i];
        proof {
            assert(lv[i as int] == line@);
        }
        if !in_block {
            let w = leading_ticks(line.as_str());
            if w >= 3 {
                in_block = true;
                width = w;
                open_at = i;
            }
        } else {
            if closes_fence_line(line.as_str(), width) {
                let blk = parse_block(&lines, open_at, i);
                proof {
                    lemma_block_models_push(blocks@, blk);
                }
                blocks.push(blk);
                in_block = false;
            }
        }
        i = i + 1;
    }
    blocks
}

/// A block is consistent with the lines it was extracted from: its 1-based
/// line range addresses lines strictly inside the input, an empty body is
/// marked by `end_line == start_line - 1`, and the body is exactly the
/// addressed lines rejoined with newlines.
pub open spec fn block_in_range(lines: Seq<Seq<char>>, b: CodeBlockModel) -> bool {
    &&& 2 <= b.start_line
    &&& b.start_line <= b.end_line + 1
    &&& b.end_line < lines.len()
    &&& b.code == join_lines(lines.subrange(b.start_line - 1, b.end_line))
}

proof fn lemma_scan_blocks_sound(
    lines: Seq<Seq<char>>,
    i: int,
    st: ScanState,
    acc: Seq<CodeBlockModel>,
)
    requires
        0 <= i,
        st.in_block ==> 0 <= st.open_at < i,
        forall|k: int| 0 <= k < acc.len() ==> block_in_range(lines, #[trigger] acc[k]),
    ensures
        forall|k: int|
            0 <= k < scan_st(lines, i, st, acc).len() ==> block_in_range(
                lines,
                #[trigger] scan_st(lines, i, st, acc)[k],
            ),
    decreases lines.len() - i,
{
    let r = scan_st(lines, i, st, acc);
    if lines.len() <= i {
        assert forall|k: int| 0 <= k < r.len() implies block_in_range(lines, #[trigger] r[k]) by {
            assert(r[k] == acc[k]);
        }
    } else if !st.in_block {
        let st2 = if opens_fence(lines[i]) {
            (ScanState { in_block: true, open_at: i, width: fence_width(lines[i]) })
        } else {
            st
        };
        lemma_scan_blocks_sound(lines, i + 1, st2, acc);
        assert(r == scan_st(lines, i + 1, st2, acc));
        assert forall|k: int| 0 <= k < r.len() implies block_in_range(lines, #[trigger] r[k]) by {
            assert(r[k] == scan_st(lines, i + 1, st2, acc)[k]);
        }
    } else if closes_fence(lines[i], st.width) {
        let b = block_model(lines, st.open_at, i);
        assert(block_in_range(lines, b));
        let acc2 = acc.push(b);
        assert forall|k: int| 0 <= k < acc2.len() implies block_in_range(
            lines,
            #[trigger] acc2[k],
        ) by {
            if k < acc.len() {
                assert(acc2[k] == acc[k]);
            } else {
                assert(acc2[k] == b);
            }
        }
        let st2 = ScanState { in_block: false, open_at: 0, width: 0 };
        lemma_scan_blocks_sound(lines, i + 1, st2, acc2);
        assert(r == scan_st(lines, i + 1, st2, acc2));
        assert forall|k: int| 0 <= k < r.len() implies block_in_range(lines, #[trigger] r[k]) by {
            assert(r[k] == scan_st(lines, i + 1, st2, acc2)[k]);
        }
    } else {
        lemma_scan_blocks_sound(lines, i + 1, st, acc);
        assert(r == scan_st(lines, i + 1, st, acc));
        assert forall|k: int| 0 <= k < r.len() implies block_in_range(lines, #[trigger] r[k]) by {
            assert(r[k] == scan_st(lines, i + 1, st, acc)[k]);
        }
    }
}

/// Soundness of the extractor: every block it returns is consistent with
/// re-splitting the input on line breaks, in the sense of `block_in_range`.
pub proof fn lemma_extract_blocks_sound(text: Seq<char>)
    ensures
        forall|k: int|
            0 <= k < extract_model(text).len() ==> block_in_range(
                split_lines_spec(text),
                #[trigger] extract_model(text)[k],
            ),
{
    lemma_scan_blocks_sound(
        split_lines_spec(text),
        0,
        (ScanState { in_block: false, open_at: 0, width: 0 }),
        Seq::empty(),
    );
}

} // verus!
