//! The line-buffer mirror: an in-process copy of one tracked external
//! buffer's lines, together with the non-owning handle of that buffer.

use vstd::prelude::*;
use vstd::string::*;
use crate::text::{
    join_lines, line_views, split_lines_spec, lemma_line_views_push, lemma_split_join, join_range,
};

verus! {

/// The mathematical state of a mirror: the line contents and the handle of
/// the external buffer it tracks, if any.
pub ghost struct MirrorModel {
    pub lines: Seq<Seq<char>>,
    pub target: Option<u64>,
}

/// Replacing the half-open index range `[first, last)` of `ls` with `nl`,
/// clamping both bounds to the length, so a range beyond the end appends.
pub open spec fn spliced(ls: Seq<Seq<char>>, first: int, last: int, nl: Seq<Seq<char>>) -> Seq<
    Seq<char>,
> {
    let f = if first <= ls.len() {
        first
    } else {
        ls.len() as int
    };
    let l = if last <= ls.len() {
        last
    } else {
        ls.len() as int
    };
    ls.take(f) + nl + ls.skip(l)
}

/// An in-memory copy of the tracked buffer's lines. While a target handle is
/// held, the owner keeps `lines` equal to that buffer's content by feeding
/// every edit notification through `apply_range`.
pub struct LineBuffer {
    lines: Vec<String>,
    target: Option<u64>,
}

impl View for LineBuffer {
    type V = MirrorModel;

    closed spec fn view(&self) -> MirrorModel {
        MirrorModel { lines: line_views(self.lines@), target: self.target }
    }
}

impl LineBuffer {
    /// A fresh mirror: no lines, not attached.
    pub fn new() -> (r: LineBuffer)
        ensures
            r@.lines == Seq::<Seq<char>>::empty(),
            r@.target is None,
    {
        let r = LineBuffer { lines: Vec::new(), target: None };
        proof {
            assert(line_views(Seq::<String>::empty()) =~= Seq::<Seq<char>>::empty());
        }
        r
    }

    /// Wholesale overwrite of the mirrored lines; used on attach.
    pub fn replace_all(&mut self, lines: Vec<String>)
        ensures
            final(self)@.lines == line_views(lines@),
            final(self)@.target == old(self)@.target,
    {
        self.lines = lines;
    }

    /// Replace the line range `[first, last)` with `new_lines`, clamping
    /// out-of-range indices so a notification that extends past the current
    /// end appends instead of indexing out of bounds.
    pub fn apply_range(&mut self, first: usize, last: usize, new_lines: Vec<String>)
        requires
            first <= last,
        ensures
            final(self)@.lines == spliced(
                old(self)@.lines,
                first as int,
                last as int,
                line_views(new_lines@),
            ),
            final(self)@.target == old(self)@.target,
    {
        let ghost orig = line_views(self.lines@);
        let ghost nl = line_views(new_lines@);
        let len = self.lines.len();
        let f = if first < len {
            first
        } else {
            len
        };
        let l = if last < len {
            last
        } else {
            len
        };
        let mut out: Vec<String> = Vec::new();
        proof {
            assert(line_views(Seq::<String>::empty()) =~= Seq::<Seq<char>>::empty());
            assert(orig.take(0) =~= Seq::<Seq<char>>::empty());
        }
        let mut i: usize = 0;
        while i < f
            invariant
                i <= f <= len,
                len == self.lines@.len(),
                orig == line_views(self.lines@),
                line_views(out@) == orig.take(i as int),
            decreases f - i,
        {
            let s = self.lines[i].clone();
            proof {
                lemma_line_views_push(out@, s);
                assert(orig.take(i as int).push(orig[i as int]) =~= orig.take(i + 1));
            }
            out.push(s);
            i = i + 1;
        }
        let mut tail = new_lines;
        proof {
            assert(line_views(out@ + tail@) =~= line_views(out@) + line_views(tail@));
        }
        out.append(&mut tail);
        let ghost mid = line_views(out@);
        let mut j: usize = l;
        while j < len
            invariant
                l <= j <= len,
                len == self.lines@.len(),
                orig == line_views(self.lines@),
                line_views(out@) == mid + orig.subrange(l as int, j as int),
            decreases len - j,
        {
            let s = self.lines[j].clone();
            proof {
                lemma_line_views_push(out@, s);
                assert((mid + orig.subrange(l as int, j as int)).push(orig[j as int]) =~= mid
                    + orig.subrange(l as int, j + 1));
            }
            out.push(s);
            j = j + 1;
        }
        proof {
            assert(orig.subrange(l as int, len as int) =~= orig.skip(l as int));
            assert(mid + orig.subrange(l as int, l as int) =~= mid);
        }
        self.lines = out;
        proof {
            assert(line_views(self.lines@) =~= spliced(orig, first as int, last as int, nl));
        }
    }

    /// All mirrored lines, joined with single newlines; a pure read.
    pub fn snapshot(&self) -> (r: String)
        ensures
            r@ == join_lines(self@.lines),
    {
        proof {
            reveal_strlit("\n");
            assert(("\n")@ =~= seq!['\n']);
            assert(line_views(self.lines@).subrange(0, self.lines@.len() as int) =~= line_views(
                self.lines@,
            ));
        }
        join_range(&self.lines, 0, self.lines.len(), "\n")
    }

    /// The number of mirrored lines.
    pub fn line_count(&self) -> (r: usize)
        ensures
            r == self@.lines.len(),
    {
        self.lines.len()
    }

    /// Drop all mirrored lines, keeping the attachment state.
    pub fn clear_lines(&mut self)
        ensures
            final(self)@.lines == Seq::<Seq<char>>::empty(),
            final(self)@.target == old(self)@.target,
    {
        self.lines = Vec::new();
        proof {
            assert(line_views(Seq::<String>::empty()) =~= Seq::<Seq<char>>::empty());
        }
    }

    /// Is some external buffer currently tracked?
    pub fn is_attached(&self) -> (r: bool)
        ensures
            r == (self@.target is Some),
    {
        self.target.is_some()
    }

    /// Is `handle` the buffer currently tracked?
    pub fn attached_to(&self, handle: u64) -> (r: bool)
        ensures
            r == (self@.target == Some(handle)),
    {
        match self.target {
            Some(h) => h == handle,
            None => false,
        }
    }

    /// Start tracking the buffer `handle`.
    pub fn set_attached(&mut self, handle: u64)
        ensures
            final(self)@.lines == old(self)@.lines,
            final(self)@.target == Some(handle),
    {
        self.target = Some(handle);
    }

    /// Forget the tracked buffer, keeping the mirrored lines.
    pub fn set_detached(&mut self)
        ensures
            final(self)@.lines == old(self)@.lines,
            final(self)@.target is None,
    {
        self.target = None;
    }
}

/// Round trip: after `replace_all(ls)`, splitting `snapshot()` on line
/// breaks yields `ls` again, for every non-empty `ls` whose lines are free
/// of newline characters. (An empty `ls` joins to the empty text, which
/// splits into one empty line, not into zero lines.)
pub proof fn lemma_replace_snapshot_round_trip(ls: Seq<Seq<char>>)
    requires
        ls.len() >= 1,
        forall|k: int, j: int|
            0 <= k < ls.len() && 0 <= j < ls[k].len() ==> #[trigger] ls[k][j] != '\n',
    ensures
        split_lines_spec(join_lines(ls)) == ls,
{
    lemma_split_join(ls);
}

} // verus!
