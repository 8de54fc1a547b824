use my_augment::apply::{plan_changes, plan_edits};
use my_augment::buffers::{find_augment_buffer, find_buffer_by_path, BufferInfo};
use my_augment::chat::{chat_command, compose_message};
use my_augment::code_extractor::extract_code_blocks;
use my_augment::error::Error;
use my_augment::lsp::add_workspace_folder;
use my_augment::mirror::LineBuffer;
use my_augment::session::{BufferSnapshot, Session};

fn lines(xs: &[&str]) -> Vec<String> {
    xs.iter().map(|s| s.to_string()).collect()
}

#[test]
fn replace_all_snapshot_round_trip() {
    let mut m = LineBuffer::new();
    m.replace_all(lines(&["alpha", "", "gamma"]));
    let snap = m.snapshot();
    assert_eq!(snap, "alpha\n\ngamma");
    let back: Vec<String> = snap.split('\n').map(|s| s.to_string()).collect();
    assert_eq!(back, lines(&["alpha", "", "gamma"]));
}

#[test]
fn snapshot_of_empty_mirror_is_empty() {
    let m = LineBuffer::new();
    assert_eq!(m.snapshot(), "");
}

#[test]
fn apply_range_replaces_middle() {
    let mut m = LineBuffer::new();
    m.replace_all(lines(&["a", "b", "c", "d"]));
    m.apply_range(1, 3, lines(&["x"]));
    assert_eq!(m.snapshot(), "a\nx\nd");
}

#[test]
fn apply_range_inserts_without_removing() {
    let mut m = LineBuffer::new();
    m.replace_all(lines(&["a", "b"]));
    m.apply_range(1, 1, lines(&["new1", "new2"]));
    assert_eq!(m.snapshot(), "a\nnew1\nnew2\nb");
}

#[test]
fn apply_range_beyond_length_appends() {
    let mut m = LineBuffer::new();
    m.replace_all(lines(&["a"]));
    m.apply_range(5, 9, lines(&["tail"]));
    assert_eq!(m.snapshot(), "a\ntail");
}

#[test]
fn apply_range_matches_naive_splice() {
    let base = ["l0", "l1", "l2", "l3", "l4"];
    let new = ["n0", "n1"];
    for first in 0..=7usize {
        for last in first..=7usize {
            let mut m = LineBuffer::new();
            m.replace_all(lines(&base));
            m.apply_range(first, last, lines(&new));
            let f = first.min(base.len());
            let l = last.min(base.len());
            let mut want: Vec<String> = Vec::new();
            want.extend(lines(&base[..f]));
            want.extend(lines(&new));
            want.extend(lines(&base[l..]));
            assert_eq!(m.snapshot(), want.join("\n"));
        }
    }
}

#[test]
fn attach_is_idempotent_and_edits_apply_once() {
    let mut s = Session::new();
    let first = s.attach_if_needed(
        false,
        Some(BufferSnapshot { handle: 7, lines: lines(&["hello"]) }),
    );
    assert_eq!(first, (true, true));
    assert_eq!(s.snapshot(), "hello");

    // Second call with the handle still valid: same mirror content, and no
    // second subscription is requested.
    let second = s.attach_if_needed(
        true,
        Some(BufferSnapshot { handle: 9, lines: lines(&["other"]) }),
    );
    assert_eq!(second, (true, false));
    assert_eq!(s.snapshot(), "hello");

    // One edit notification, delivered once through the one subscription,
    // updates the mirror exactly once.
    let keep = s.on_edit(7, 0, 1, lines(&["hi", "there"]));
    assert!(keep);
    assert_eq!(s.snapshot(), "hi\nthere");
}

#[test]
fn attach_not_found_is_negative_result() {
    let mut s = Session::new();
    let r = s.attach_if_needed(false, None);
    assert_eq!(r, (false, false));
    assert!(!s.is_attached());
}

#[test]
fn reattach_after_detach_replaces_mirror() {
    let mut s = Session::new();
    s.attach_if_needed(false, Some(BufferSnapshot { handle: 1, lines: lines(&["old"]) }));
    s.on_detach();
    assert!(!s.is_attached());
    let r = s.attach_if_needed(
        false,
        Some(BufferSnapshot { handle: 2, lines: lines(&["fresh"]) }),
    );
    assert_eq!(r, (true, true));
    assert_eq!(s.snapshot(), "fresh");
}

#[test]
fn edit_after_detach_is_noop_and_stops_listening() {
    let mut s = Session::new();
    s.attach_if_needed(false, Some(BufferSnapshot { handle: 1, lines: lines(&["x"]) }));
    s.on_detach();
    let keep = s.on_edit(1, 0, 1, lines(&["y"]));
    assert!(!keep);
    assert_eq!(s.snapshot(), "x");
}

#[test]
fn detach_resets_round_flag() {
    let mut s = Session::new();
    assert!(!s.first_round_done());
    s.mark_first_round_done();
    assert!(s.first_round_done());
    s.on_detach();
    assert!(!s.first_round_done());
}

#[test]
fn clear_session_resets_everything() {
    let mut s = Session::new();
    s.attach_if_needed(false, Some(BufferSnapshot { handle: 3, lines: lines(&["a", "b"]) }));
    s.mark_first_round_done();
    s.clear_session();
    assert!(!s.is_attached());
    assert!(!s.first_round_done());
    assert_eq!(s.line_count(), 0);
}

#[test]
fn apply_flow_plans_edit_and_clears_transcript() {
    let mut s = Session::new();
    let transcript = lines(&["```rust path=a.txt mode=EDIT", "fn main() {}", "```"]);
    s.attach_if_needed(false, Some(BufferSnapshot { handle: 4, lines: transcript }));

    let plan = plan_changes(&s);
    assert!(!plan.missing_path);
    assert_eq!(plan.edits.len(), 1);
    assert_eq!(plan.edits[0].path, "a.txt");
    assert_eq!(plan.edits[0].lines, lines(&["fn main() {}"]));

    // The host resolves the path against its open buffers and overwrites
    // the whole buffer with the planned lines.
    let bufs = vec![BufferInfo { handle: 11, name: "a.txt".to_string(), valid: true }];
    let canon = vec![false];
    assert_eq!(find_buffer_by_path(&bufs, &canon, "a.txt"), Ok(11));

    // One applied block: the transcript is cleared afterwards.
    s.note_applied(plan.edits.len());
    assert_eq!(s.line_count(), 0);
}

#[test]
fn apply_with_no_edit_blocks_is_noop() {
    let mut s = Session::new();
    let transcript = lines(&["```rust", "let x = 5;", "```"]);
    s.attach_if_needed(false, Some(BufferSnapshot { handle: 4, lines: transcript }));
    let plan = plan_changes(&s);
    assert!(!plan.missing_path);
    assert!(plan.edits.is_empty());
    s.note_applied(0);
    assert_eq!(s.line_count(), 3);
}

#[test]
fn edit_block_without_path_stops_batch() {
    let text = "```rust path=ok.txt mode=EDIT\nfirst\n```\n```rust mode=EDIT\nsecond\n```\n```rust path=late.txt mode=EDIT\nthird\n```";
    let blocks = extract_code_blocks(text);
    assert_eq!(blocks.len(), 3);
    let plan = plan_edits(&blocks);
    assert!(plan.missing_path);
    assert_eq!(plan.edits.len(), 1);
    assert_eq!(plan.edits[0].path, "ok.txt");
}

#[test]
fn first_metadata_occurrence_wins() {
    let text = "```rust path=/a path=/b mode=EDIT mode=KEEP\nx\n```";
    let blocks = extract_code_blocks(text);
    assert_eq!(blocks.len(), 1);
    assert_eq!(blocks[0].path, Some("/a".to_string()));
    assert_eq!(blocks[0].mode, Some("EDIT".to_string()));
}

#[test]
fn bare_fence_has_no_lang() {
    let blocks = extract_code_blocks("```\nbody\n```");
    assert_eq!(blocks.len(), 1);
    assert_eq!(blocks[0].lang, None);
    assert_eq!(blocks[0].path, None);
    assert_eq!(blocks[0].mode, None);
}

#[test]
fn indented_opening_fence_is_not_a_fence() {
    let blocks = extract_code_blocks("  ```rust\nlet x = 5;\n```");
    assert!(blocks.is_empty());
}

#[test]
fn shorter_closing_run_does_not_close() {
    // Opened with four backticks, a three-backtick line is body; the block
    // never closes and is discarded.
    let blocks = extract_code_blocks("````rust\n```\nlet x = 5;");
    assert!(blocks.is_empty());
}

#[test]
fn find_augment_buffer_picks_first_suffix_match() {
    let bufs = vec![
        BufferInfo { handle: 1, name: "notes.md".to_string(), valid: true },
        BufferInfo { handle: 2, name: "term://AugmentChatHistory".to_string(), valid: true },
        BufferInfo { handle: 3, name: "otherAugmentChatHistory".to_string(), valid: true },
    ];
    assert_eq!(find_augment_buffer(&bufs), Ok(Some(2)));
}

#[test]
fn find_augment_buffer_none_is_ok_none() {
    let bufs = vec![BufferInfo { handle: 1, name: "notes.md".to_string(), valid: true }];
    assert_eq!(find_augment_buffer(&bufs), Ok(None));
}

#[test]
fn find_augment_buffer_invalid_is_error() {
    let bufs = vec![BufferInfo {
        handle: 1,
        name: "AugmentChatHistory".to_string(),
        valid: false,
    }];
    assert_eq!(
        find_augment_buffer(&bufs),
        Err(Error::InvalidBuffer("AugmentChatHistory".to_string()))
    );
}

#[test]
fn find_buffer_by_path_errors() {
    let bufs = vec![
        BufferInfo { handle: 1, name: "a.txt".to_string(), valid: true },
        BufferInfo { handle: 2, name: "b.txt".to_string(), valid: false },
    ];
    let canon = vec![false, false];
    assert_eq!(
        find_buffer_by_path(&bufs, &canon, "c.txt"),
        Err(Error::BufferNotFound("c.txt".to_string()))
    );
    assert_eq!(
        find_buffer_by_path(&bufs, &canon, "b.txt"),
        Err(Error::InvalidBuffer("b.txt".to_string()))
    );
    // A canonical-path match counts like an exact name match.
    let canon2 = vec![true, false];
    assert_eq!(find_buffer_by_path(&bufs, &canon2, "./a.txt"), Ok(1));
}

#[test]
fn error_messages() {
    assert_eq!(Error::NoPathToEdit.message(), "No path to edit");
    assert_eq!(Error::StateLockFailure.message(), "Plugin state lock is poisoned");
    assert_eq!(
        Error::BufferNotFound("a.txt".to_string()).message(),
        "Buffer not found: a.txt"
    );
    assert_eq!(
        Error::HostApiFailure("boom".to_string()).message(),
        "Host API error: boom"
    );
}

#[test]
fn compose_message_first_round_prepends_instruction() {
    let parts = lines(&["fix", "the", "bug"]);
    assert_eq!(compose_message(&parts, false), "fix the bug");
    assert_eq!(
        compose_message(&parts, true),
        "Always output full files, never just partial code. Never omit code, even if it is unchanged fix the bug"
    );
}

#[test]
fn chat_command_escapes_message() {
    assert_eq!(chat_command("it's 100%!"), "Augment chat 'it'\\''s 100\\%\\!'");
}

#[test]
fn add_workspace_folder_deduplicates() {
    let folders = lines(&["/w1", "/w2"]);
    let with_new = add_workspace_folder(folders.clone(), "/w3".to_string());
    assert_eq!(with_new, lines(&["/w1", "/w2", "/w3"]));
    let unchanged = add_workspace_folder(with_new.clone(), "/w2".to_string());
    assert_eq!(unchanged, with_new);
}
