use menma::memo::Memo;
use menma::source::{
    create_memo_from_file, create_memo_from_text, create_memo_list, decode_note,
    get_tags_by_line, is_note_extension, split_lines, NoteFile,
};

fn strings(items: &[&str]) -> Vec<String> {
    items.iter().map(|s| s.to_string()).collect()
}

fn tags_of(line: &str) -> Option<Vec<String>> {
    get_tags_by_line(line.to_string())
}

fn lines(text: &str) -> Vec<String> {
    let chars: Vec<char> = text.chars().collect();
    split_lines(&chars).iter().map(|l| l.iter().collect()).collect()
}

fn note(path: &str, text: &str) -> NoteFile {
    NoteFile { path: path.to_string(), bytes: text.as_bytes().to_vec() }
}

fn paths(memos: &Vec<Memo>) -> Vec<String> {
    memos.iter().map(|m| m.get_path().clone()).collect()
}

#[test]
fn tag_line_gives_its_tags() {
    assert_eq!(tags_of(" tags: #foo #bar "), Some(strings(&["foo", "bar"])));
    assert_eq!(tags_of("tags:#a#b#c"), Some(strings(&["a", "b", "c"])));
    assert_eq!(tags_of("   tags:   #one   "), Some(strings(&["one"])));
}

#[test]
fn line_without_the_marker_gives_none() {
    assert_eq!(tags_of("# heading"), None);
    assert_eq!(tags_of(""), None);
    assert_eq!(tags_of("tag: #foo"), None);
    assert_eq!(tags_of("t a g s: #foo"), None);
    assert_eq!(tags_of("TAGS: #foo"), None);
}

#[test]
fn tag_line_without_tags_gives_an_empty_list() {
    assert_eq!(tags_of(" tags: "), Some(strings(&[])));
    assert_eq!(tags_of("tags:"), Some(strings(&[])));
}

#[test]
fn spaces_inside_a_tag_are_taken_out() {
    assert_eq!(tags_of("tags: #two words #x"), Some(strings(&["twowords", "x"])));
}

#[test]
fn other_white_space_is_taken_out_too() {
    assert_eq!(tags_of("tags:\t#a\t#b"), Some(strings(&["a", "b"])));
    assert_eq!(tags_of("tags:\t#foo\t#bar"), Some(strings(&["foo", "bar"])));
    assert_eq!(tags_of("tags: #a\r"), Some(strings(&["a"])));
    assert_eq!(tags_of("\u{3000}tags:\u{3000}#日記\u{a0}#x\u{2003}y"), Some(strings(&["日記", "xy"])));
    assert_eq!(tags_of("tags:\u{b}#a\u{c}#b\u{85}#c\u{2028}"), Some(strings(&["a", "b", "c"])));
}

#[test]
fn characters_that_only_look_like_white_space_stay() {
    assert_eq!(tags_of("tags: #a\u{200b}b #c\u{feff}"), Some(strings(&["a\u{200b}b", "c\u{feff}"])));
}

#[test]
fn empty_pieces_are_tags() {
    assert_eq!(tags_of("tags: ##a#"), Some(strings(&["", "a", ""])));
}

#[test]
fn marker_without_colon_keeps_the_first_piece() {
    assert_eq!(tags_of("my tags #x"), Some(strings(&["mytags", "x"])));
    assert_eq!(tags_of("tags"), Some(strings(&["tags"])));
}

#[test]
fn every_piece_that_holds_the_label_is_dropped() {
    assert_eq!(tags_of("tags: #a #tags: #b"), Some(strings(&["a", "b"])));
    assert_eq!(tags_of("x #tags: #b"), Some(strings(&["x", "b"])));
    assert_eq!(tags_of("tags: #nottags:here #b"), Some(strings(&["b"])));
}

#[test]
fn label_may_be_made_by_taking_spaces_out() {
    assert_eq!(tags_of("tags : #a"), Some(strings(&["a"])));
}

#[test]
fn lines_are_split_as_std_splits_them() {
    for text in [
        "", "a", "a\n", "a\nb", "a\r\nb", "a\r\nb\r\n", "\n", "\n\n", "\r\n", "a\n\nb",
        "a\r", "a\rb\n", "a\r\r\nb", "\r", "\r\n\r", "x\n\r", "日本語\r\nかな\n", " a \n b ",
    ] {
        let expected: Vec<String> = text.lines().map(|l| l.to_string()).collect();
        assert_eq!(lines(text), expected);
    }
}

#[test]
fn lines_by_example() {
    assert_eq!(lines("one\r\ntwo\nthree"), strings(&["one", "two", "three"]));
    assert_eq!(lines("one\n"), strings(&["one"]));
    assert_eq!(lines("one\n\n"), strings(&["one", ""]));
    assert_eq!(lines(""), strings(&[]));
}

#[test]
fn memo_comes_from_the_first_tag_line() {
    let text = "title\n <!---\n tags: #a #b \n --->\n tags: #c\n";
    let memo = create_memo_from_text("notes/x.md", text).unwrap();
    assert_eq!(memo.get_path(), "notes/x.md");
    assert_eq!(memo.get_tags(), &strings(&["a", "b"]));
}

#[test]
fn memo_path_gets_slashes() {
    let memo = create_memo_from_text("E:\\memo\\sub\\x.md", "tags: #a").unwrap();
    assert_eq!(memo.get_path(), "E:/memo/sub/x.md");
    let memo = create_memo_from_text("E:/memo\\x.md", "tags: #a").unwrap();
    assert_eq!(memo.get_path(), "E:/memo/x.md");
}

#[test]
fn text_without_a_tag_line_gives_no_memo() {
    assert!(create_memo_from_text("x.md", "").is_none());
    assert!(create_memo_from_text("x.md", "just\nsome\ntext\n").is_none());
}

#[test]
fn tag_line_with_carriage_return_loses_it() {
    let memo = create_memo_from_text("x.md", "head\r\ntags: #a #b\r\nrest").unwrap();
    assert_eq!(memo.get_tags(), &strings(&["a", "b"]));
}

#[test]
fn tag_line_at_the_end_without_line_feed_counts() {
    let memo = create_memo_from_text("x.md", "head\ntags: #z").unwrap();
    assert_eq!(memo.get_tags(), &strings(&["z"]));
}

#[test]
fn utf8_bytes_are_read_as_utf8() {
    assert_eq!(decode_note(&"tags: #日本語".as_bytes().to_vec()), Some("tags: #日本語".to_string()));
    assert_eq!(decode_note(&Vec::new()), Some(String::new()));
    assert_eq!(decode_note(&vec![0xEF, 0xBB, 0xBF, b'a']), Some("\u{feff}a".to_string()));
}

#[test]
fn other_bytes_are_read_as_shift_jis() {
    let bytes = vec![0x93, 0xFA, 0x96, 0x7B, 0x8C, 0xEA];
    assert_eq!(decode_note(&bytes), Some("日本語".to_string()));
    let bytes = vec![b't', b'a', b'g', b's', b':', b' ', b'#', 0x83, 0x81, 0x83, 0x82];
    assert_eq!(decode_note(&bytes), Some("tags: #メモ".to_string()));
}

#[test]
fn malformed_shift_jis_is_replaced() {
    assert_eq!(decode_note(&vec![b'a', 0xFF, b'b']), Some("a\u{fffd}b".to_string()));
}

#[test]
fn shift_jis_note_gives_a_memo() {
    let mut bytes = b"memo\r\n tags: #".to_vec();
    bytes.extend_from_slice(&[0x93, 0xFA, 0x8B, 0x4C]);
    bytes.extend_from_slice(b" #x\r\n");
    let file = NoteFile { path: "E:\\memo\\n.md".to_string(), bytes };
    let memo = create_memo_from_file(&file).unwrap();
    assert_eq!(memo.get_path(), "E:/memo/n.md");
    assert_eq!(memo.get_tags(), &strings(&["日記", "x"]));
}

#[test]
fn file_without_a_tag_line_gives_no_memo() {
    assert!(create_memo_from_file(&note("a.md", "nothing here")).is_none());
    assert!(create_memo_from_file(&NoteFile { path: "a.md".to_string(), bytes: vec![0x93, 0xFA] })
        .is_none());
}

#[test]
fn list_holds_the_memos_of_the_files_with_tags() {
    let files = vec![
        note("a.md", "tags: #x"),
        note("b.md", "no marker"),
        note("c.md", "intro\ntags: #y #z\n"),
        note("d.md", ""),
        note("e.md", "tags:"),
    ];
    let memos = create_memo_list(&files);
    assert_eq!(paths(&memos), strings(&["a.md", "c.md", "e.md"]));
    assert_eq!(memos[0].get_tags(), &strings(&["x"]));
    assert_eq!(memos[1].get_tags(), &strings(&["y", "z"]));
    assert_eq!(memos[2].get_tags(), &strings(&[]));
}

#[test]
fn list_of_no_files_is_empty() {
    assert_eq!(create_memo_list(&Vec::new()).len(), 0);
}

#[test]
fn only_md_is_a_note_extension() {
    assert!(is_note_extension("md"));
    assert!(!is_note_extension("MD"));
    assert!(!is_note_extension("txt"));
    assert!(!is_note_extension(""));
    assert!(!is_note_extension("m"));
    assert!(!is_note_extension("mdx"));
    assert!(!is_note_extension(".md"));
}
