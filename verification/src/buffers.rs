//! Buffer lookup over plain descriptors. The host enumerates its open
//! buffers as `(handle, name, validity)` triples; the decisions — which
//! buffer is the chat transcript, which buffer a path refers to, and
//! whether the pick is still valid — are made here.

use vstd::prelude::*;
use vstd::string::*;
use crate::error::Error;
use crate::text::{has_suffix, ends_with_str, str_eq};

verus! {

/// One open buffer as the host describes it: its handle, its full name,
/// and whether it is still valid.
pub struct BufferInfo {
    pub handle: u64,
    pub name: String,
    pub valid: bool,
}

/// The mathematical content of a `BufferInfo`.
pub ghost struct BufferInfoModel {
    pub handle: u64,
    pub name: Seq<char>,
    pub valid: bool,
}

impl View for BufferInfo {
    type V = BufferInfoModel;

    open spec fn view(&self) -> BufferInfoModel {
        BufferInfoModel { handle: self.handle, name: self.name@, valid: self.valid }
    }
}

/// The views of a sequence of buffer descriptors.
pub open spec fn buffer_models(bs: Seq<BufferInfo>) -> Seq<BufferInfoModel> {
    Seq::new(bs.len(), |i: int| bs[i]@)
}

/// The name suffix that marks the chat transcript buffer.
pub open spec fn chat_buffer_suffix() -> Seq<char> {
    "AugmentChatHistory"@
}

/// The index of the first buffer at or after `i` whose name ends with the
/// chat transcript suffix, if any.
pub open spec fn first_chat_buffer(bs: Seq<BufferInfoModel>, i: int) -> Option<int>
    decreases bs.len() - i,
{
    if i < 0 || bs.len() <= i {
        None
    } else if has_suffix(bs[i].name, chat_buffer_suffix()) {
        Some(i)
    } else {
        first_chat_buffer(bs, i + 1)
    }
}

/// The index of the first buffer at or after `i` whose name equals `path`
/// or whose canonical path matches it (the host computes `canon`), if any.
pub open spec fn first_path_match(
    bs: Seq<BufferInfoModel>,
    canon: Seq<bool>,
    path: Seq<char>,
    i: int,
) -> Option<int>
    decreases bs.len() - i,
{
    if i < 0 || bs.len() <= i {
        None
    } else if bs[i].name == path || canon[i] {
        Some(i)
    } else {
        first_path_match(bs, canon, path, i + 1)
    }
}

/// Find the chat transcript buffer: the first of `bufs` whose name ends
/// with the transcript suffix. No such buffer is a normal negative result
/// (`Ok(None)`); one that exists but is invalid is an error.
pub fn find_augment_buffer(bufs: &Vec<BufferInfo>) -> (r: Result<Option<u64>, Error>)
    ensures
        ({
            let bm = buffer_models(bufs@);
            match first_chat_buffer(bm, 0) {
                None => r matches Ok(o) && o is None,
                Some(k) => {
                    if bm[k].valid {
                        r matches Ok(o) && o == Some(bm[k].handle)
                    } else {
                        r matches Err(e) && e matches Error::InvalidBuffer(p) && p@ == bm[k].name
                    }
                },
            }
        }),
{
    let ghost bm = buffer_models(bufs@);
    let mut i: usize = 0;
    while i < bufs.len()
        invariant
            i <= bufs@.len(),
            bm == buffer_models(bufs@),
            first_chat_buffer(bm, 0) == first_chat_buffer(bm, i as int),
        decreases bufs@.len() - i,
    {
        let b: &BufferInfo = &bufs[i];
        proof {
            assert(bm[i as int] == b@);
        }
        if ends_with_str(b.name.as_str(), "AugmentChatHistory") {
            if b.valid {
                return Ok(Some(b.handle));
            } else {
                return Err(Error::InvalidBuffer(b.name.clone()));
            }
        }
        i = i + 1;
    }
    Ok(None)
}

/// Find the buffer a target path refers to: the first of `bufs` whose name
/// is exactly `path` or whose canonical filesystem path matches it; the
/// host supplies the canonical comparison, one flag per buffer. A missing
/// buffer and an invalid one are both errors here, named after the path.
pub fn find_buffer_by_path(bufs: &Vec<BufferInfo>, canon: &Vec<bool>, path: &str) -> (r: Result<
    u64,
    Error,
>)
    requires
        bufs@.len() == canon@.len(),
    ensures
        ({
            let bm = buffer_models(bufs@);
            match first_path_match(bm, canon@, path@, 0) {
                None => r matches Err(e) && e matches Error::BufferNotFound(p) && p@ == path@,
                Some(k) => {
                    if bm[k].valid {
                        r matches Ok(h) && h == bm[k].handle
                    } else {
                        r matches Err(e) && e matches Error::InvalidBuffer(p) && p@ == path@
                    }
                },
            }
        }),
{
    let ghost bm = buffer_models(bufs@);
    let mut i: usize = 0;
    while i < bufs.len()
        invariant
            i <= bufs@.len(),
            bufs@.len() == canon@.len(),
            bm == buffer_models(bufs@),
            first_path_match(bm, canon@, path@, 0) == first_path_match(bm, canon@, path@, i as int),
        decreases bufs@.len() - i,
    {
        let b: &BufferInfo = &bufs[i];
        proof {
            assert(bm[i as int] == b@);
        }
        if str_eq(b.name.as_str(), path) || canon[i] {
            if b.valid {
                return Ok(b.handle);
            } else {
                return Err(Error::InvalidBuffer(String::from_str(path)));
            }
        }
        i = i + 1;
    }
    Err(Error::BufferNotFound(String::from_str(path)))
}

} // verus!
