//! The session: the mirror plus the first-round flag, with the attach /
//! edit / detach lifecycle as pure state transitions. The host performs the
//! surrounding I/O — enumerating buffers, reading lines, registering
//! callbacks — and feeds the results in as plain values; every decision is
//! made and specified here.

use vstd::prelude::*;
use crate::mirror::{LineBuffer, spliced};
use crate::text::{join_lines, line_views};

verus! {

/// The mathematical state of a session: the mirrored lines, the tracked
/// buffer handle (if attached), and whether the first chat round — the one
/// that prepends the initial instruction — is already done.
pub ghost struct SessionModel {
    pub lines: Seq<Seq<char>>,
    pub target: Option<u64>,
    pub first_round_done: bool,
}

/// A full read of an external buffer, as the host hands it over: the
/// buffer's handle and its lines.
pub struct BufferSnapshot {
    pub handle: u64,
    pub lines: Vec<String>,
}

/// The view of an optional buffer snapshot.
pub open spec fn snap_model(o: Option<BufferSnapshot>) -> Option<(u64, Seq<Seq<char>>)> {
    match o {
        Some(s) => Some((s.handle, line_views(s.lines@))),
        None => None,
    }
}

/// The attach transition. Already attached with the held handle still
/// valid: nothing changes, no new subscription. Otherwise, with a found
/// transcript buffer: its content replaces the mirror wholesale and one
/// subscription is requested. With none found: the session stays (or
/// becomes) detached, a normal negative result.
pub open spec fn attach_step(
    m: SessionModel,
    held_valid: bool,
    found: Option<(u64, Seq<Seq<char>>)>,
) -> (SessionModel, bool, bool) {
    if m.target is Some && held_valid {
        (m, true, false)
    } else {
        match found {
            Some(f) => (
                (SessionModel {
                    lines: f.1,
                    target: Some(f.0),
                    first_round_done: m.first_round_done,
                }),
                true,
                true,
            ),
            None => (
                (SessionModel {
                    lines: m.lines,
                    target: None,
                    first_round_done: m.first_round_done,
                }),
                false,
                false,
            ),
        }
    }
}

/// The edit-notification transition: only a notification for the tracked
/// buffer touches the mirror; one arriving after a detach is a no-op and
/// stops that subscription.
pub open spec fn edit_step(
    m: SessionModel,
    handle: u64,
    first: int,
    last: int,
    nl: Seq<Seq<char>>,
) -> (SessionModel, bool) {
    if m.target == Some(handle) {
        (
            (SessionModel {
                lines: spliced(m.lines, first, last, nl),
                target: m.target,
                first_round_done: m.first_round_done,
            }),
            true,
        )
    } else {
        (m, false)
    }
}

/// The per-process session state: the line mirror (with its attachment)
/// and the first-round flag.
pub struct Session {
    mirror: LineBuffer,
    first_round_done: bool,
}

impl View for Session {
    type V = SessionModel;

    closed spec fn view(&self) -> SessionModel {
        SessionModel {
            lines: self.mirror@.lines,
            target: self.mirror@.target,
            first_round_done: self.first_round_done,
        }
    }
}

impl Session {
    /// A fresh session: empty mirror, detached, first round still to come.
    pub fn new() -> (r: Session)
        ensures
            r@.lines == Seq::<Seq<char>>::empty(),
            r@.target is None,
            r@.first_round_done == false,
    {
        Session { mirror: LineBuffer::new(), first_round_done: false }
    }

    /// The idempotent attach entry point, as a transition on the session.
    /// `held_valid` says whether the currently held handle is still valid;
    /// `found` is the transcript buffer the host found (with its content),
    /// if any. Returns `(attached, subscribe)`: whether a buffer is tracked
    /// on return, and whether the caller must now register the edit and
    /// detach callbacks on it — never requested when the session was
    /// already attached, so there is at most one live subscription.
    pub fn attach_if_needed(&mut self, held_valid: bool, found: Option<BufferSnapshot>) -> (r: (
        bool,
        bool,
    ))
        ensures
            ({
                let (m2, att, sub) = attach_step(old(self)@, held_valid, snap_model(found));
                final(self)@ == m2 && r.0 == att && r.1 == sub
            }),
    {
        if self.mirror.is_attached() && held_valid {
            return (true, false);
        }
        match found {
            Some(snap) => {
                let BufferSnapshot { handle, lines } = snap;
                self.mirror.replace_all(lines);
                self.mirror.set_attached(handle);
                (true, true)
            },
            None => {
                self.mirror.set_detached();
                (false, false)
            },
        }
    }

    /// Handle one edit notification `(first_line, last_line, new_lines)`
    /// for the buffer `handle`: the affected range of the mirror is
    /// replaced. Returns whether to keep listening.
    pub fn on_edit(&mut self, handle: u64, first_line: usize, last_line: usize, new_lines: Vec<
        String,
    >) -> (keep: bool)
        requires
            first_line <= last_line,
        ensures
            ({
                let (m2, k) = edit_step(
                    old(self)@,
                    handle,
                    first_line as int,
                    last_line as int,
                    line_views(new_lines@),
                );
                final(self)@ == m2 && keep == k
            }),
    {
        if self.mirror.attached_to(handle) {
            self.mirror.apply_range(first_line, last_line, new_lines);
            true
        } else {
            false
        }
    }

    /// Handle the detach notification: forget the tracked buffer and reset
    /// the round flag; the mirrored lines stay until the next attach or
    /// clear.
    pub fn on_detach(&mut self)
        ensures
            final(self)@.lines == old(self)@.lines,
            final(self)@.target is None,
            final(self)@.first_round_done == false,
    {
        self.mirror.set_detached();
        self.first_round_done = false;
    }

    /// Reset the session: drop the mirrored lines, detach, and reset the
    /// round flag.
    pub fn clear_session(&mut self)
        ensures
            final(self)@.lines == Seq::<Seq<char>>::empty(),
            final(self)@.target is None,
            final(self)@.first_round_done == false,
    {
        self.mirror.clear_lines();
        self.mirror.set_detached();
        self.first_round_done = false;
    }

    /// Is some external buffer currently tracked?
    pub fn is_attached(&self) -> (r: bool)
        ensures
            r == (self@.target is Some),
    {
        self.mirror.is_attached()
    }

    /// Is the first chat round (initial instruction) already done?
    pub fn first_round_done(&self) -> (r: bool)
        ensures
            r == self@.first_round_done,
    {
        self.first_round_done
    }

    /// Record that the first chat round went out.
    pub fn mark_first_round_done(&mut self)
        ensures
            final(self)@.lines == old(self)@.lines,
            final(self)@.target == old(self)@.target,
            final(self)@.first_round_done == true,
    {
        self.first_round_done = true;
    }

    /// The mirrored transcript, newline-joined; a pure read.
    pub fn snapshot(&self) -> (r: String)
        ensures
            r@ == join_lines(self@.lines),
    {
        self.mirror.snapshot()
    }

    /// The number of mirrored lines.
    pub fn line_count(&self) -> (r: usize)
        ensures
            r == self@.lines.len(),
    {
        self.mirror.line_count()
    }

    /// Close an apply batch: a batch with at least one applied block clears
    /// the tracked transcript, so the next extraction starts empty; a batch
    /// with none leaves the transcript alone.
    pub fn note_applied(&mut self, applied_count: usize)
        ensures
            applied_count > 0 ==> final(self)@.lines == Seq::<Seq<char>>::empty(),
            applied_count == 0 ==> final(self)@.lines == old(self)@.lines,
            final(self)@.target == old(self)@.target,
            final(self)@.first_round_done == old(self)@.first_round_done,
    {
        if applied_count > 0 {
            self.mirror.clear_lines();
        }
    }
}

/// Attaching is idempotent: whenever a call to `attach_if_needed` reports
/// the session attached, an immediately following call — no detach in
/// between, handle still valid — changes nothing, reports attached again,
/// and requests no second subscription, whatever the host's new lookup
/// returned. So the mirror's content is the same after both calls, and an
/// edit notification is only ever delivered through one subscription.
pub proof fn lemma_attach_idempotent(
    m: SessionModel,
    held_valid: bool,
    found: Option<(u64, Seq<Seq<char>>)>,
    found2: Option<(u64, Seq<Seq<char>>)>,
)
    ensures
        ({
            let (m1, att1, sub1) = attach_step(m, held_valid, found);
            att1 ==> attach_step(m1, true, found2) == (m1, true, false)
        }),
{
    let (m1, att1, sub1) = attach_step(m, held_valid, found);
    if att1 {
        assert(m1.target is Some);
    }
}

} // verus!
