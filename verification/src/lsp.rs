//! The language-server attach hook's decision: recording each client's
//! workspace root once. The host deserializes the callback payload and
//! reads the client's root directory; the bookkeeping is done here.

use vstd::prelude::*;
use crate::text::{line_views, str_eq};

verus! {

/// The payload of the host's LSP-attach callback.
pub struct LspAttachData {
    pub client_id: u32,
}

/// The arguments of the host's LSP-attach callback.
pub struct LspAttachArgs {
    pub data: LspAttachData,
}

/// Append `root` to the workspace-folder list unless it is already there.
pub fn add_workspace_folder(folders: Vec<String>, root: String) -> (r: Vec<String>)
    ensures
        line_views(folders@).contains(root@) ==> line_views(r@) == line_views(folders@),
        !line_views(folders@).contains(root@) ==> line_views(r@) == line_views(folders@).push(
            root@,
        ),
{
    let ghost fv = line_views(folders@);
    let mut i: usize = 0;
    while i < folders.len()
        invariant
            i <= folders@.len(),
            fv == line_views(folders@),
            forall|k: int| 0 <= k < i ==> #[trigger] fv[k] != root@,
        decreases folders@.len() - i,
    {
        if str_eq(folders[i].as_str(), root.as_str()) {
            proof {
                assert(fv[i as int] == root@);
                assert(fv.contains(root@));
            }
            return folders;
        }
        i = i + 1;
    }
    proof {
        assert(!fv.contains(root@));
        crate::text::lemma_line_views_push(folders@, root);
    }
    let mut r = folders;
    r.push(root);
    r
}

} // verus!
