//! Completing the word at the end of a line.

use clust::term_complete::{
    compute_completions, directory_to_read, CompletionItem, CompletionKind, CompletionResult,
    CompletionState, DirEntry, Executables, InputBuffer, MAX_BUFFER_LEN, POPUP_VISIBLE_ROWS,
};

fn file(name: &str) -> DirEntry {
    DirEntry { name: name.to_string(), is_dir: false }
}

fn dir(name: &str) -> DirEntry {
    DirEntry { name: name.to_string(), is_dir: true }
}

fn complete(buffer: &str, working_dir: &str, entries: Vec<DirEntry>) -> Option<CompletionResult> {
    compute_completions(buffer, working_dir, None, &Vec::new(), &entries)
}

#[test]
fn empty_buffer_yields_none() {
    assert!(complete("", "/tmp", vec![file("a")]).is_none());
    assert!(complete("   ", "/tmp", vec![file("a")]).is_none());
}

#[test]
fn buffer_ending_in_space_yields_none() {
    assert!(complete("ls ", "/tmp", vec![file("a")]).is_none());
}

#[test]
fn path_completion_lists_matching_entries() {
    assert_eq!(directory_to_read("ls al", "/work", None).as_deref(), Some("/work"));
    let entries = vec![file("alpha.txt"), file("alphabet.txt"), dir("alphasrc"), file("beta.txt")];
    let res = complete("ls al", "/work", entries).expect("some matches");
    assert_eq!(res.prefix, "al");
    let names: Vec<_> = res.items.iter().map(|i| i.display.as_str()).collect();
    assert!(names.contains(&"alpha.txt"));
    assert!(names.contains(&"alphabet.txt"));
    assert!(names.contains(&"alphasrc"));
    assert!(!names.iter().any(|n| n == &"beta.txt"));

    let dir_kind = res
        .items
        .iter()
        .find(|i| i.display == "alphasrc")
        .map(|i| i.kind.clone())
        .unwrap();
    assert_eq!(dir_kind, CompletionKind::Directory);
}

#[test]
fn path_completion_into_subdirectory() {
    assert_eq!(directory_to_read("vim src/foo", "/work", None).as_deref(), Some("/work/src"));
    let entries = vec![file("foo.rs"), file("foobar.rs"), file("bar.rs")];
    let res = complete("vim src/foo", "/work", entries).expect("matches");
    assert_eq!(res.prefix, "src/foo");
    let names: Vec<_> = res.items.iter().map(|i| i.display.as_str()).collect();
    assert!(names.contains(&"src/foo.rs"));
    assert!(names.contains(&"src/foobar.rs"));
    assert!(!names.iter().any(|n| n == &"src/bar.rs"));
}

#[test]
fn dotfiles_only_shown_when_prefix_starts_with_dot() {
    let entries = || vec![file(".hidden"), file("visible")];

    // Bare prefix → no dotfile.
    let res = complete("ls v", "/work", entries()).expect("match");
    assert!(res.items.iter().any(|i| i.display == "visible"));
    assert!(complete("ls h", "/work", entries()).is_none());

    // Dot prefix → dotfile shown.
    let res = complete("ls .h", "/work", entries()).expect("match");
    assert!(res.items.iter().any(|i| i.display == ".hidden"));
}

#[test]
fn absolute_path_completion_uses_root_anchor() {
    // Working dir is irrelevant here — the prefix starts with `/`, so we
    // walk from the root.
    assert_eq!(directory_to_read("cat /us", "/tmp", None).as_deref(), Some("/"));
    let res = complete("cat /us", "/tmp", vec![dir("usr"), dir("tmp")]).expect("matches under /usr");
    assert_eq!(res.prefix, "/us");
    assert!(
        res.items.iter().any(|i| i.display == "/usr"),
        "expected /usr in {:?}",
        res.items.iter().map(|i| &i.display).collect::<Vec<_>>()
    );
}

#[test]
fn first_word_path_like_does_path_completion() {
    let res = complete("./scrip", "/work", vec![dir("scripts")]).expect("match");
    assert_eq!(res.prefix, "./scrip");
    assert!(res.items.iter().any(|i| i.display == "./scripts"));
}

#[test]
fn completion_state_navigation() {
    let mut state = CompletionState {
        prefix: "x".to_string(),
        items: (0..20)
            .map(|i| CompletionItem {
                display: format!("x{i:02}"),
                kind: CompletionKind::File,
            })
            .collect(),
        selected: 0,
        scroll: 0,
    };

    // Down past the visible window scrolls.
    for _ in 0..POPUP_VISIBLE_ROWS {
        state.move_down();
    }
    assert_eq!(state.selected, POPUP_VISIBLE_ROWS);
    assert_eq!(state.scroll, 1);

    // Up back to the top resets scroll.
    for _ in 0..state.selected {
        state.move_up();
    }
    assert_eq!(state.selected, 0);
    assert_eq!(state.scroll, 0);

    // Down can't pass the last item.
    for _ in 0..50 {
        state.move_down();
    }
    assert_eq!(state.selected, state.items.len() - 1);
}

#[test]
fn input_buffer_respects_max_len() {
    let mut buf = InputBuffer::new();
    for _ in 0..(MAX_BUFFER_LEN + 100) {
        buf.push_char('a');
    }
    assert_eq!(buf.as_str().len(), MAX_BUFFER_LEN);
    buf.clear();
    assert!(buf.is_empty());
}

#[test]
fn input_buffer_handles_unicode() {
    let mut buf = InputBuffer::new();
    buf.push_char('é');
    buf.push_str("こ");
    assert_eq!(buf.as_str(), "éこ");
    buf.pop_char();
    assert_eq!(buf.as_str(), "é");
}

#[test]
fn first_word_completes_commands() {
    let commands = vec!["cargo".to_string(), "cat".to_string(), "ls".to_string()];
    let res = compute_completions("ca", "/work", None, &commands, &Vec::new()).expect("matches");
    let names: Vec<_> = res.items.iter().map(|i| i.display.as_str()).collect();
    assert_eq!(names, vec!["cargo", "cat"]);
    assert_eq!(res.items[0].kind, CompletionKind::Command);
}

#[test]
fn home_directory_stands_for_tilde() {
    let read = directory_to_read("ls ~/src/x", "/work", Some("/home/me"));
    assert_eq!(read.as_deref(), Some("/home/me/src"));
}
