use menma::cli::{
    editor, launch_target, new_memo, new_memo_at, plan, todo_path, Opt, Plan, Sub, UsageError,
};
use menma::source::get_tags_by_line;
use std::path::PathBuf;

fn strings(items: &[&str]) -> Vec<String> {
    items.iter().map(|s| s.to_string()).collect()
}

#[test]
fn list_with_tags_is_browsed() {
    let planned = plan(Opt { sub: Sub::List { tags: Some(strings(&["a", "b"])) } });
    match planned {
        Ok(Plan::Browse { tags }) => assert_eq!(tags, strings(&["a", "b"])),
        other => panic!("{:?}", other),
    }
}

#[test]
fn list_with_an_empty_query_is_browsed() {
    let planned = plan(Opt { sub: Sub::List { tags: Some(Vec::new()) } });
    match planned {
        Ok(Plan::Browse { tags }) => assert_eq!(tags, strings(&[])),
        other => panic!("{:?}", other),
    }
}

#[test]
fn list_without_tags_is_a_usage_error() {
    let planned = plan(Opt { sub: Sub::List { tags: None } });
    match planned {
        Err(e) => {
            assert_eq!(e, UsageError::MissingTags);
            assert_eq!(e.message(), "tag value is incorrect. please input valid value.");
        }
        other => panic!("{:?}", other),
    }
}

#[test]
fn add_keeps_title_and_tags() {
    let planned = plan(Opt { sub: Sub::Add { title: "t".to_string(), tags: Some(strings(&["x"])) } });
    match planned {
        Ok(Plan::Create { title, tags }) => {
            assert_eq!(title, "t");
            assert_eq!(tags, strings(&["x"]));
        }
        other => panic!("{:?}", other),
    }
}

#[test]
fn add_without_tags_has_an_empty_list() {
    let planned = plan(Opt { sub: Sub::Add { title: "t".to_string(), tags: None } });
    match planned {
        Ok(Plan::Create { title, tags }) => {
            assert_eq!(title, "t");
            assert_eq!(tags, strings(&[]));
        }
        other => panic!("{:?}", other),
    }
}

#[test]
fn set_path_is_not_implemented() {
    let planned = plan(Opt { sub: Sub::SetPath { path: PathBuf::from("x") } });
    match planned {
        Err(e) => {
            assert_eq!(e, UsageError::NotImplemented);
            assert_eq!(e.message(), "this function is not implement;");
        }
        other => panic!("{:?}", other),
    }
}

#[test]
fn todo_and_gui_are_planned() {
    assert!(matches!(plan(Opt { sub: Sub::Todo {} }), Ok(Plan::OpenTodo)));
    assert!(matches!(plan(Opt { sub: Sub::GUI {} }), Ok(Plan::Gui)));
}

#[test]
fn new_memo_has_path_and_header() {
    let file = new_memo("210815_", "idea", &strings(&["rust", "verus"]));
    assert_eq!(file.path, "E:/memo/210815_idea.md");
    assert_eq!(file.contents, " <!---\n tags: #rust #verus \n --->\n");
}

#[test]
fn new_memo_without_tags_has_an_empty_tag_line() {
    let file = new_memo("210815_", "idea", &strings(&[]));
    assert_eq!(file.path, "E:/memo/210815_idea.md");
    assert_eq!(file.contents, " <!---\n tags: \n --->\n");
}

#[test]
fn new_memo_is_stamped_with_the_utc_day() {
    let file = new_memo_at(1431648000, "x", &strings(&["a"])).unwrap();
    assert_eq!(file.path, "E:/memo/150515_x.md");
    assert_eq!(file.contents, " <!---\n tags: #a \n --->\n");
    let file = new_memo_at(0, "epoch", &strings(&[])).unwrap();
    assert_eq!(file.path, "E:/memo/700101_epoch.md");
    let file = new_memo_at(1431648000 + 86_399, "x", &strings(&[])).unwrap();
    assert_eq!(file.path, "E:/memo/150515_x.md");
    let file = new_memo_at(1431648000 + 86_400, "x", &strings(&[])).unwrap();
    assert_eq!(file.path, "E:/memo/150516_x.md");
    let file = new_memo_at(-1, "x", &strings(&[])).unwrap();
    assert_eq!(file.path, "E:/memo/691231_x.md");
}

#[test]
fn second_without_a_date_gives_no_memo() {
    assert!(new_memo_at(i64::MAX, "x", &strings(&[])).is_none());
    assert!(new_memo_at(i64::MIN, "x", &strings(&[])).is_none());
}

#[test]
fn header_is_read_back_as_its_tags() {
    let tags = strings(&["rust", "verus", "日本語"]);
    let file = new_memo("210815_", "idea", &tags);
    let found: Vec<Vec<String>> = file
        .contents
        .lines()
        .filter_map(|l| get_tags_by_line(l.to_string()))
        .collect();
    assert_eq!(found, vec![tags]);
}

#[test]
fn editor_gets_backslashes() {
    assert_eq!(launch_target("E:/memo/todo.md"), "E:\\memo\\todo.md");
    assert_eq!(launch_target("a\\b/c"), "a\\b\\c");
    assert_eq!(launch_target(""), "");
    assert_eq!(editor(), "Code.exe");
    assert_eq!(todo_path(), "E:/memo/todo.md");
}
