//! Reading unified diffs.

use clust::gitdiff::{parse_hunk_header, parse_unified_diff, DiffLineKind};


const SAMPLE_DIFF: &str = "\
diff --git a/src/main.rs b/src/main.rs
index abc1234..def5678 100644
--- a/src/main.rs
+++ b/src/main.rs
@@ -1,5 +1,6 @@
 fn main() {
-    println!(\"hello\");
+    println!(\"hello world\");
+    println!(\"goodbye\");
 let x = 1;
 let y = 2;
 }
diff --git a/README.md b/README.md
--- a/README.md
+++ b/README.md
@@ -1,3 +1,3 @@
 # Project
-Old description
+New description
 More text";

#[test]
fn parse_file_count() {
    let diff = parse_unified_diff(SAMPLE_DIFF);
    assert_eq!(diff.file_names.len(), 2);
    assert_eq!(diff.file_names[0], "src/main.rs");
    assert_eq!(diff.file_names[1], "README.md");
}

#[test]
fn parse_file_start_indices() {
    let diff = parse_unified_diff(SAMPLE_DIFF);
    assert_eq!(diff.file_start_indices.len(), 2);
    assert_eq!(diff.lines[diff.file_start_indices[0]].kind, DiffLineKind::FileHeader);
    assert_eq!(diff.lines[diff.file_start_indices[1]].kind, DiffLineKind::FileHeader);
}

#[test]
fn parse_line_kinds() {
    let diff = parse_unified_diff(SAMPLE_DIFF);
    let kinds: Vec<DiffLineKind> = diff.lines.iter().map(|l| l.kind).collect();

    // First file: FileHeader, FileMetadata(index), FileMetadata(---), FileMetadata(+++),
    //             HunkHeader, Context, Delete, Add, Add, Context, Context, Context
    assert_eq!(kinds[0], DiffLineKind::FileHeader);
    assert_eq!(kinds[1], DiffLineKind::FileMetadata); // index
    assert_eq!(kinds[2], DiffLineKind::FileMetadata); // ---
    assert_eq!(kinds[3], DiffLineKind::FileMetadata); // +++
    assert_eq!(kinds[4], DiffLineKind::HunkHeader);
    assert_eq!(kinds[5], DiffLineKind::Context);      // fn main()
    assert_eq!(kinds[6], DiffLineKind::Delete);        // -println
    assert_eq!(kinds[7], DiffLineKind::Add);           // +println hello world
    assert_eq!(kinds[8], DiffLineKind::Add);           // +println goodbye
    assert_eq!(kinds[9], DiffLineKind::Context);       // let x
    assert_eq!(kinds[10], DiffLineKind::Context);      // let y
    assert_eq!(kinds[11], DiffLineKind::Context);      // }
}

#[test]
fn parse_line_numbers() {
    let diff = parse_unified_diff(SAMPLE_DIFF);
    // First hunk: @@ -1,5 +1,6 @@
    // Context " fn main()" => old=1, new=1
    assert_eq!(diff.lines[5].old_lineno, Some(1));
    assert_eq!(diff.lines[5].new_lineno, Some(1));
    // Delete "- println(\"hello\")" => old=2
    assert_eq!(diff.lines[6].old_lineno, Some(2));
    assert_eq!(diff.lines[6].new_lineno, None);
    // Add "+ println(\"hello world\")" => new=2
    assert_eq!(diff.lines[7].old_lineno, None);
    assert_eq!(diff.lines[7].new_lineno, Some(2));
    // Add "+ println(\"goodbye\")" => new=3
    assert_eq!(diff.lines[8].old_lineno, None);
    assert_eq!(diff.lines[8].new_lineno, Some(3));
    // Context " let x" => old=3, new=4
    assert_eq!(diff.lines[9].old_lineno, Some(3));
    assert_eq!(diff.lines[9].new_lineno, Some(4));
}

#[test]
fn parse_hunk_header_basic() {
    assert_eq!(parse_hunk_header("@@ -1,5 +1,6 @@"), Some((1, 1)));
}

#[test]
fn parse_hunk_header_no_count() {
    assert_eq!(parse_hunk_header("@@ -1 +1 @@"), Some((1, 1)));
}

#[test]
fn parse_hunk_header_with_context() {
    assert_eq!(
        parse_hunk_header("@@ -10,6 +10,8 @@ fn some_function()"),
        Some((10, 10))
    );
}

#[test]
fn parse_empty_diff() {
    let diff = parse_unified_diff("");
    assert!(diff.lines.is_empty());
    assert!(diff.file_start_indices.is_empty());
    assert!(diff.file_names.is_empty());
}

#[test]
fn two_diffs_read_one_after_the_other() {
    let first = "diff --git a/x b/x\n@@ -1 +1 @@\n-old\n+new\n";
    let second = "diff --git a/y b/y\nindex 1..2\n@@ -7 +9 @@\n kept\n";
    let (a, b) = (parse_unified_diff(first), parse_unified_diff(second));
    let both = parse_unified_diff(&format!("{first}{second}"));
    assert_eq!(both.file_names, vec!["x", "y"]);
    assert_eq!(both.file_start_indices, vec![0, a.lines.len()]);
    assert_eq!(both.lines.len(), a.lines.len() + b.lines.len());
    for (line, own) in both.lines[a.lines.len()..].iter().zip(&b.lines) {
        assert_eq!(line.file_idx, own.file_idx + 1);
        assert_eq!(line.content, own.content);
        assert_eq!((line.old_lineno, line.new_lineno), (own.old_lineno, own.new_lineno));
    }
}
