//! The change applier's planning half: which blocks of a transcript are to
//! be written back, to which path, with which lines. The writes themselves
//! are host I/O; the host performs them edit by edit, in order, and stops
//! where the plan stopped.

use vstd::prelude::*;
use vstd::string::*;
use crate::code_extractor::{
    CodeBlock, CodeBlockModel, block_models, extract_model, extract_code_blocks,
};
use crate::session::Session;
use crate::text::{join_lines, line_views, split_lines_spec, split_lines, str_eq};

verus! {

/// One planned write-back: overwrite the buffer at `path` with `lines`.
pub struct Edit {
    pub path: String,
    pub lines: Vec<String>,
}

/// The mathematical content of an `Edit`.
pub ghost struct EditModel {
    pub path: Seq<char>,
    pub lines: Seq<Seq<char>>,
}

impl View for Edit {
    type V = EditModel;

    open spec fn view(&self) -> EditModel {
        EditModel { path: self.path@, lines: line_views(self.lines@) }
    }
}

/// The views of a sequence of edits.
pub open spec fn edit_models(es: Seq<Edit>) -> Seq<EditModel> {
    Seq::new(es.len(), |i: int| es[i]@)
}

pub proof fn lemma_edit_models_push(es: Seq<Edit>, e: Edit)
    ensures
        edit_models(es.push(e)) == edit_models(es).push(e@),
{
    assert(edit_models(es.push(e)) =~= edit_models(es).push(e@));
}

/// Is `b` a block to apply: its mode is the literal "EDIT".
pub open spec fn is_edit_block(b: CodeBlockModel) -> bool {
    b.mode == Some("EDIT"@)
}

/// The planning pass from block index `i` on, with the edits planned so
/// far: every block in EDIT mode contributes one edit — its target path
/// and its body split on newlines — in document order, until the first
/// EDIT block without a path, which stops the batch there with the
/// missing-path flag set.
pub open spec fn plan_acc(bs: Seq<CodeBlockModel>, i: int, acc: Seq<EditModel>) -> (
    Seq<EditModel>,
    bool,
)
    decreases bs.len() - i,
{
    if i < 0 || bs.len() <= i {
        (acc, false)
    } else if is_edit_block(bs[i]) {
        match bs[i].path {
            Some(p) => plan_acc(
                bs,
                i + 1,
                acc.push((EditModel { path: p, lines: split_lines_spec(bs[i].code) })),
            ),
            None => (acc, true),
        }
    } else {
        plan_acc(bs, i + 1, acc)
    }
}

/// The planned batch for `bs`, and whether it was cut short by an EDIT
/// block without a path.
pub open spec fn plan_spec(bs: Seq<CodeBlockModel>) -> (Seq<EditModel>, bool) {
    plan_acc(bs, 0, Seq::empty())
}

/// A planned apply batch: the edits up to the first failure, if any, and
/// whether an EDIT block without a path cut the batch short — in that case
/// the blocks after it contribute nothing (fail fast, no skip-and-go-on).
pub struct ApplyPlan {
    pub edits: Vec<Edit>,
    pub missing_path: bool,
}

/// Plan the apply batch for `blocks`.
pub fn plan_edits(blocks: &Vec<CodeBlock>) -> (r: ApplyPlan)
    ensures
        ({
            let (es, missing) = plan_spec(block_models(blocks@));
            edit_models(r.edits@) == es && r.missing_path == missing
        }),
{
    let ghost bm = block_models(blocks@);
    let mut edits: Vec<Edit> = Vec::new();
    proof {
        assert(edit_models(Seq::<Edit>::empty()) =~= Seq::<EditModel>::empty());
    }
    let mut i: usize = 0;
    while i < blocks.len()
        invariant
            i <= blocks@.len(),
            bm == block_models(blocks@),
            plan_spec(bm) == plan_acc(bm, i as int, edit_models(edits@)),
        decreases blocks@.len() - i,
    {
        let b: &CodeBlock = &blocks[i];
        proof {
            assert(bm[i as int] == b@);
        }
        let is_edit = match &b.mode {
            Some(m) => str_eq(m.as_str(), "EDIT"),
            None => false,
        };
        if is_edit {
            match &b.path {
                Some(p) => {
                    let e = Edit { path: p.clone(), lines: split_lines(b.code.as_str()) };
                    proof {
                        lemma_edit_models_push(edits@, e);
                    }
                    edits.push(e);
                },
                None => {
                    return ApplyPlan { edits, missing_path: true };
                },
            }
        }
        i = i + 1;
    }
    ApplyPlan { edits, missing_path: false }
}

/// Plan the apply batch for the session's current transcript: extract the
/// code blocks of the mirrored text and plan their edits.
pub fn plan_changes(sess: &Session) -> (r: ApplyPlan)
    ensures
        ({
            let (es, missing) = plan_spec(extract_model(join_lines(sess@.lines)));
            edit_models(r.edits@) == es && r.missing_path == missing
        }),
{
    let snap = sess.snapshot();
    let blocks = extract_code_blocks(snap.as_str());
    plan_edits(&blocks)
}

} // verus!
