//! The commands of the program and what each of them asks for.

use crate::memo::MemoView;
use crate::source::{first_tags, is_tag_piece, lines_of, memo_of_text, slashed, tag_label,
    tag_marker, tags_of_line, without_trailing_cr};
use crate::text::{is_ink, is_substring, is_white_space, lemma_filter_keeps_all,
    lemma_split_after_separator, lemma_split_grows_last_piece, lemma_substring_reflexive,
    occurs_at, replace_char, split_on, views, with_char_replaced, without_white_space};
use std::path::PathBuf;
use vstd::prelude::*;

verus! {

/// `std::path::PathBuf`, carried through and never looked into.
#[verifier::external_type_specification]
#[verifier::external_body]
pub struct ExPathBuf(PathBuf);

/// The command line.
#[derive(Debug)]
pub struct Opt {
    pub sub: Sub,
}

/// The commands.
#[derive(Debug)]
pub enum Sub {
    /// Show the memos that a tag query keeps.
    List { tags: Option<Vec<String>> },
    /// Write a new memo.
    Add { title: String, tags: Option<Vec<String>> },
    /// Set the directory of the memos.
    SetPath { path: PathBuf },
    /// Open the to-do list.
    Todo {},
    /// Start the graphical front-end.
    GUI {},
}

/// A command that cannot be carried out as given.
#[derive(Clone, Copy, Debug, PartialEq, Eq, Structural)]
pub enum UsageError {
    /// A list was asked for without a tag query.
    MissingTags,
    /// The command exists in name only.
    NotImplemented,
}

/// What a command asks for.
#[derive(Debug)]
pub enum Plan {
    /// Show the memos that `tags` keeps in the terminal, and again each time
    /// the terminal front-end is left.
    Browse { tags: Vec<String> },
    /// Write a new memo with this title and these tags, then open it.
    Create { title: String, tags: Vec<String> },
    /// Open the to-do list.
    OpenTodo,
    /// Start the graphical front-end.
    Gui,
}

/// `planned` is what `sub` asks for. A list needs a tag query; setting the
/// path is not implemented; a memo without tags is a memo with an empty list
/// of them.
pub open spec fn plans(sub: Sub, planned: Result<Plan, UsageError>) -> bool {
    match sub {
        Sub::List { tags: Some(tags) } => planned == Ok::<Plan, UsageError>(
            Plan::Browse { tags },
        ),
        Sub::List { tags: None } => planned == Err::<Plan, UsageError>(UsageError::MissingTags),
        Sub::Add { title, tags: Some(tags) } => planned == Ok::<Plan, UsageError>(
            Plan::Create { title, tags },
        ),
        Sub::Add { title, tags: None } => planned matches Ok(Plan::Create { title: kept, tags })
            && kept == title && tags@.len() == 0,
        Sub::SetPath { path } => planned == Err::<Plan, UsageError>(UsageError::NotImplemented),
        Sub::Todo {} => planned == Ok::<Plan, UsageError>(Plan::OpenTodo),
        Sub::GUI {} => planned == Ok::<Plan, UsageError>(Plan::Gui),
    }
}

/// The directory of the memos, with a slash at its end.
pub open spec fn memo_dir() -> Seq<char> {
    "E:/memo/"@
}

/// The ending of a memo's file name.
pub open spec fn memo_suffix() -> Seq<char> {
    ".md"@
}

/// The path of the memo with the title `title` written on the day with the
/// stamp `stamp`.
pub open spec fn memo_path(stamp: Seq<char>, title: Seq<char>) -> Seq<char> {
    memo_dir() + stamp + title + memo_suffix()
}

/// The tags as they stand on the tag line: a `#` in front of each and a
/// space behind it.
pub open spec fn tag_list(tags: Seq<Seq<char>>) -> Seq<char>
    decreases tags.len(),
{
    if tags.len() == 0 {
        Seq::<char>::empty()
    } else {
        tag_list(tags.drop_last()) + seq!['#'] + tags.last() + seq![' ']
    }
}

/// The tag line of a memo with these tags.
pub open spec fn tag_line(tags: Seq<Seq<char>>) -> Seq<char> {
    " tags: "@ + tag_list(tags)
}

/// What a new memo with these tags starts with: a comment of three lines,
/// the tag line in the middle.
pub open spec fn memo_header(tags: Seq<Seq<char>>) -> Seq<char> {
    " <!---\n"@ + tag_line(tags) + "\n --->\n"@
}

/// A tag that comes through the tag line as it is: it holds neither white
/// space nor a `#`, nor the label that stands in front of the tags.
pub open spec fn plain_tag(tag: Seq<char>) -> bool {
    &&& forall|i: int| 0 <= i < tag.len() ==> !is_white_space(tag[i]) && tag[i] != '#'
    &&& !is_substring(tag_label(), tag)
}

/// The tags as they stand on the tag line once the white space is gone.
pub open spec fn packed_tags(tags: Seq<Seq<char>>) -> Seq<char>
    decreases tags.len(),
{
    if tags.len() == 0 {
        Seq::<char>::empty()
    } else {
        packed_tags(tags.drop_last()) + seq!['#'] + tags.last()
    }
}

proof fn lemma_tag_list_packed(tags: Seq<Seq<char>>)
    requires
        forall|i: int| 0 <= i < tags.len() ==> plain_tag(#[trigger] tags[i]),
    ensures
        without_white_space(tag_list(tags)) == packed_tags(tags),
    decreases tags.len(),
{
    reveal(Seq::filter);
    let keep = is_ink();
    if tags.len() > 0 {
        let head = tag_list(tags.drop_last());
        let last = tags.last();
        assert(plain_tag(tags[tags.len() - 1]));
        assert forall|i: int| 0 <= i < tags.drop_last().len() implies plain_tag(
            #[trigger] tags.drop_last()[i],
        ) by {
            assert(plain_tag(tags[i]));
        }
        lemma_tag_list_packed(tags.drop_last());
        lemma_filter_keeps_all(last, keep);
        Seq::filter_distributes_over_add(head, seq!['#'], keep);
        Seq::filter_distributes_over_add(head + seq!['#'], last, keep);
        Seq::filter_distributes_over_add(head + seq!['#'] + last, seq![' '], keep);
        assert(seq!['#'].filter(keep) =~= seq!['#']) by {
            lemma_filter_keeps_all(seq!['#'], keep);
        }
        assert(seq![' '].filter(keep) =~= Seq::<char>::empty()) by {
            Seq::<char>::empty().lemma_filter_push(' ', keep);
            assert(Seq::<char>::empty().push(' ') =~= seq![' ']);
        }
        assert(packed_tags(tags.drop_last()) + seq!['#'] + last + Seq::<char>::empty()
            =~= packed_tags(tags));
    }
}

proof fn lemma_packed_split(label: Seq<char>, tags: Seq<Seq<char>>)
    requires
        forall|i: int| 0 <= i < label.len() ==> label[i] != '#',
        forall|i: int| 0 <= i < tags.len() ==> plain_tag(#[trigger] tags[i]),
    ensures
        split_on(label + packed_tags(tags), '#') == seq![label] + tags,
    decreases tags.len(),
{
    if tags.len() == 0 {
        lemma_split_grows_last_piece(Seq::<char>::empty(), label, '#');
        assert(Seq::<char>::empty() + label =~= label);
        assert(label + packed_tags(tags) =~= label);
        assert(split_on(label, '#') =~= seq![label] + tags);
    } else {
        let init = tags.drop_last();
        let last = tags.last();
        assert(plain_tag(tags[tags.len() - 1]));
        assert forall|i: int| 0 <= i < init.len() implies plain_tag(#[trigger] init[i]) by {
            assert(plain_tag(tags[i]));
        }
        lemma_packed_split(label, init);
        let head = label + packed_tags(init);
        lemma_split_after_separator(head, '#');
        lemma_split_grows_last_piece(head.push('#'), last, '#');
        assert(label + packed_tags(tags) =~= head.push('#') + last);
        assert(Seq::<char>::empty() + last =~= last);
        assert(split_on(head.push('#') + last, '#') =~= seq![label] + tags);
    }
}

proof fn lemma_marker_on_tag_line(rest: Seq<char>)
    ensures
        is_substring(tag_marker(), " tags: "@ + rest),
{
    reveal_strlit(" tags: ");
    reveal_strlit("tags");
    let line = " tags: "@ + rest;
    assert(line.subrange(1, 5) =~= tag_marker());
    assert(occurs_at(line, tag_marker(), 1));
}

proof fn lemma_lead_without_white_space()
    ensures
        without_white_space(" tags: "@) == tag_label(),
        forall|i: int| 0 <= i < tag_label().len() ==> tag_label()[i] != '#',
{
    reveal_strlit(" tags: ");
    reveal_strlit("tags:");
    let keep = is_ink();
    let s0 = Seq::<char>::empty();
    let s1 = s0.push(' ');
    let s2 = s1.push('t');
    let s3 = s2.push('a');
    let s4 = s3.push('g');
    let s5 = s4.push('s');
    let s6 = s5.push(':');
    let s7 = s6.push(' ');
    assert(s0.filter(keep) =~= s0) by {
        reveal(Seq::filter);
    }
    s0.lemma_filter_push(' ', keep);
    s1.lemma_filter_push('t', keep);
    s2.lemma_filter_push('a', keep);
    s3.lemma_filter_push('g', keep);
    s4.lemma_filter_push('s', keep);
    s5.lemma_filter_push(':', keep);
    s6.lemma_filter_push(' ', keep);
    assert(" tags: "@ =~= s7);
    assert(s7.filter(keep) =~= tag_label());
}

proof fn lemma_label_is_dropped(tags: Seq<Seq<char>>)
    requires
        forall|i: int| 0 <= i < tags.len() ==> plain_tag(#[trigger] tags[i]),
    ensures
        (seq![tag_label()] + tags).filter(is_tag_piece()) == tags,
{
    let label = tag_label();
    Seq::filter_distributes_over_add(seq![label], tags, is_tag_piece());
    lemma_substring_reflexive(label);
    assert(seq![label].filter(is_tag_piece()) =~= Seq::<Seq<char>>::empty()) by {
        reveal(Seq::filter);
        Seq::<Seq<char>>::empty().lemma_filter_push(label, is_tag_piece());
        assert(Seq::<Seq<char>>::empty().push(label) =~= seq![label]);
    }
    lemma_filter_keeps_all(tags, is_tag_piece());
    assert(Seq::<Seq<char>>::empty() + tags =~= tags);
}

/// The tags that are written on a tag line are the tags that are read from
/// it, as long as each of them is plain.
pub proof fn lemma_written_tags_are_read_back(tags: Seq<Seq<char>>)
    requires
        forall|i: int| 0 <= i < tags.len() ==> plain_tag(#[trigger] tags[i]),
    ensures
        tags_of_line(tag_line(tags)) == Some(tags),
{
    let line = tag_line(tags);
    lemma_marker_on_tag_line(tag_list(tags));
    lemma_lead_without_white_space();
    lemma_tag_list_packed(tags);
    Seq::filter_distributes_over_add(" tags: "@, tag_list(tags), is_ink());
    assert(without_white_space(line) == tag_label() + packed_tags(tags));
    lemma_packed_split(tag_label(), tags);
    lemma_label_is_dropped(tags);
}

proof fn lemma_header_lines(tags: Seq<Seq<char>>)
    requires
        forall|i: int| 0 <= i < tag_line(tags).len() ==> tag_line(tags)[i] != '\n',
    ensures
        lines_of(memo_header(tags)) == seq![" <!---"@, tag_line(tags), " --->"@],
{
    reveal_strlit(" <!---\n");
    reveal_strlit(" <!---");
    reveal_strlit("\n --->\n");
    reveal_strlit(" --->");
    reveal_strlit(" tags: ");
    let open = " <!---"@;
    let close = " --->"@;
    let line = tag_line(tags);
    let none = Seq::<char>::empty();

    let a = none + open;
    lemma_split_grows_last_piece(none, open, '\n');
    assert(split_on(none, '\n') =~= seq![none]);
    assert(split_on(a, '\n') =~= seq![open]) by {
        assert(none + open =~= open);
    }
    let b = a.push('\n');
    lemma_split_after_separator(a, '\n');
    assert(split_on(b, '\n') =~= seq![open, none]);
    let c = b + line;
    lemma_split_grows_last_piece(b, line, '\n');
    assert(split_on(c, '\n') =~= seq![open, line]) by {
        assert(none + line =~= line);
    }
    let d = c.push('\n');
    lemma_split_after_separator(c, '\n');
    assert(split_on(d, '\n') =~= seq![open, line, none]);
    let e = d + close;
    lemma_split_grows_last_piece(d, close, '\n');
    assert(split_on(e, '\n') =~= seq![open, line, close]) by {
        assert(none + close =~= close);
    }
    let f = e.push('\n');
    lemma_split_after_separator(e, '\n');
    let pieces = split_on(f, '\n');
    assert(pieces =~= seq![open, line, close, none]);
    assert(f =~= memo_header(tags));

    assert(line.last() == ' ') by {
        if tags.len() > 0 {
            assert(tag_list(tags).last() == ' ');
        }
    }
    let ended = pieces.drop_last().map_values(|p: Seq<char>| without_trailing_cr(p));
    assert(ended =~= seq![open, line, close]);
}

proof fn lemma_opening_has_no_marker()
    ensures
        tags_of_line(" <!---"@) is None,
{
    reveal_strlit(" <!---");
    reveal_strlit("tags");
    let open = " <!---"@;
    assert forall|at: int| !occurs_at(open, tag_marker(), at) by {
        if 0 <= at && at + 4 <= open.len() {
            assert(open.subrange(at, at + 4)[0] == open[at]);
            assert(tag_marker()[0] == 't');
        }
    }
}

proof fn lemma_tag_line_is_one_line(tags: Seq<Seq<char>>)
    requires
        forall|i: int, j: int|
            0 <= i < tags.len() && 0 <= j < tags[i].len() ==> (#[trigger] tags[i][j]) != '\n',
    ensures
        forall|k: int| 0 <= k < tag_list(tags).len() ==> tag_list(tags)[k] != '\n',
        forall|k: int| 0 <= k < tag_line(tags).len() ==> tag_line(tags)[k] != '\n',
    decreases tags.len(),
{
    reveal_strlit(" tags: ");
    if tags.len() > 0 {
        let init = tags.drop_last();
        assert forall|i: int, j: int| 0 <= i < init.len() && 0 <= j < init[i].len() implies (
        #[trigger] init[i][j]) != '\n' by {
            assert(tags[i][j] != '\n');
        }
        lemma_tag_line_is_one_line(init);
        let last = tags.last();
        assert forall|k: int| 0 <= k < tag_list(tags).len() implies tag_list(tags)[k]
            != '\n' by {
            let head = tag_list(init).len() as int;
            if k < head {
                assert(tag_list(tags)[k] == tag_list(init)[k]);
            } else if k == head {
                assert(tag_list(tags)[k] == '#');
            } else if k < head + 1 + last.len() {
                assert(tag_list(tags)[k] == tags[tags.len() - 1][k - head - 1]);
            } else {
                assert(tag_list(tags)[k] == ' ');
            }
        }
    }
}

/// A text that is the header of a new memo gives the memo with the tags
/// that the header was written for, as long as each tag is plain.
pub proof fn lemma_new_memo_is_listed(path: Seq<char>, tags: Seq<Seq<char>>)
    requires
        forall|i: int| 0 <= i < tags.len() ==> plain_tag(#[trigger] tags[i]),
    ensures
        memo_of_text(path, memo_header(tags)) == Some(MemoView { path: slashed(path), tags }),
{
    assert forall|i: int, j: int| 0 <= i < tags.len() && 0 <= j < tags[i].len() implies (
    #[trigger] tags[i][j]) != '\n' by {
        assert(plain_tag(tags[i]));
        assert(is_white_space('\n'));
    }
    lemma_tag_line_is_one_line(tags);
    lemma_header_lines(tags);
    lemma_opening_has_no_marker();
    lemma_written_tags_are_read_back(tags);
    let lines = lines_of(memo_header(tags));
    let rest = lines.drop_first();
    assert(rest[0] == tag_line(tags));
    assert(first_tags(rest) == Some(tags));
    assert(first_tags(lines) == first_tags(rest));
}

/// The date stamp that `chrono` makes of the UTC day on which the second
/// `unix_seconds` after the epoch falls, in the format `%y%m%d_`; none where
/// `chrono` has no date for that second.
pub uninterp spec fn date_stamp_text(unix_seconds: int) -> Option<Seq<char>>;

/// A file to write.
pub struct NewMemo {
    pub path: String,
    pub contents: String,
}

/// `chrono::DateTime::from_timestamp` turns the second into a UTC date and
/// time, or none if it is out of range; `chrono::DateTime::format` with
/// `%y%m%d_` and `to_string` turn that into text. The text is a function of
/// the second alone, named `date_stamp_text`.
#[verifier::external_body]
fn date_stamp(unix_seconds: i64) -> (stamp: Option<String>)
    ensures
        match stamp {
            Some(s) => date_stamp_text(unix_seconds as int) == Some(s@),
            None => date_stamp_text(unix_seconds as int) is None,
        },
{
    match chrono::DateTime::from_timestamp(unix_seconds, 0) {
        Some(at) => Some(at.format("%y%m%d_").to_string()),
        None => None,
    }
}

impl UsageError {
    /// The text that tells the user what is wrong.
    pub fn message(&self) -> (text: String)
        ensures
            text@ == (match *self {
                UsageError::MissingTags => "tag value is incorrect. please input valid value."@,
                UsageError::NotImplemented => "this function is not implement;"@,
            }),
    {
        match self {
            UsageError::MissingTags => "tag value is incorrect. please input valid value.".to_owned(),
            UsageError::NotImplemented => "this function is not implement;".to_owned(),
        }
    }
}

/// What the command line asks for, or why it cannot be carried out.
pub fn plan(opt: Opt) -> (planned: Result<Plan, UsageError>)
    ensures
        plans(opt.sub, planned),
{
    match opt.sub {
        Sub::List { tags } => match tags {
            Some(tags) => Ok(Plan::Browse { tags }),
            None => Err(UsageError::MissingTags),
        },
        Sub::Add { title, tags } => match tags {
            Some(tags) => Ok(Plan::Create { title, tags }),
            None => Ok(Plan::Create { title, tags: Vec::new() }),
        },
        Sub::SetPath { path } => Err(UsageError::NotImplemented),
        Sub::Todo {} => Ok(Plan::OpenTodo),
        Sub::GUI {} => Ok(Plan::Gui),
    }
}

/// The tags as they stand on the tag line.
fn write_tag_list(tags: &Vec<String>) -> (out: String)
    ensures
        out@ == tag_list(views(tags@)),
{
    let mut out = String::new();
    let mut i: usize = 0;
    while i < tags.len()
        invariant
            i <= tags.len(),
            out@ == tag_list(views(tags@.take(i as int))),
        decreases tags.len() - i,
    {
        proof {
            let grown = views(tags@.take(i + 1));
            assert(grown.drop_last() =~= views(tags@.take(i as int)));
            assert(grown.last() == tags@[i as int]@);
        }
        out.push('#');
        out.append(tags[i].as_str());
        out.push(' ');
        proof {
            assert(out@ =~= tag_list(views(tags@.take(i as int))) + seq!['#'] + tags@[i as int]@
                + seq![' ']);
        }
        i = i + 1;
    }
    assert(tags@.take(tags.len() as int) =~= tags@);
    out
}

/// The new memo with the title `title` and the tags `tags`, written on the
/// day with the stamp `stamp`: where it goes and what it starts with.
pub fn new_memo(stamp: &str, title: &str, tags: &Vec<String>) -> (file: NewMemo)
    ensures
        file.path@ == memo_path(stamp@, title@),
        file.contents@ == memo_header(views(tags@)),
{
    let mut path = memo_root();
    path.append(stamp);
    path.append(title);
    path.append(".md");
    let mut contents = " <!---\n".to_owned();
    contents.append(" tags: ");
    let list = write_tag_list(tags);
    contents.append(list.as_str());
    contents.append("\n --->\n");
    NewMemo { path, contents }
}

/// The new memo with the title `title` and the tags `tags`, written at the
/// second `unix_seconds` after the epoch; none where that second has no date.
pub fn new_memo_at(unix_seconds: i64, title: &str, tags: &Vec<String>) -> (file: Option<NewMemo>)
    ensures
        match file {
            Some(f) => date_stamp_text(unix_seconds as int) matches Some(stamp) && f.path@
                == memo_path(stamp, title@) && f.contents@ == memo_header(views(tags@)),
            None => date_stamp_text(unix_seconds as int) is None,
        },
{
    match date_stamp(unix_seconds) {
        Some(stamp) => Some(new_memo(stamp.as_str(), title, tags)),
        None => None,
    }
}

/// The directory of the memos, with a slash at its end.
pub fn memo_root() -> (dir: String)
    ensures
        dir@ == memo_dir(),
{
    "E:/memo/".to_owned()
}

/// The path of the to-do list.
pub fn todo_path() -> (path: String)
    ensures
        path@ == "E:/memo/todo.md"@,
{
    "E:/memo/todo.md".to_owned()
}

/// The program that opens a memo.
pub fn editor() -> (program: String)
    ensures
        program@ == "Code.exe"@,
{
    "Code.exe".to_owned()
}

/// The argument that the editor is started with for the file at `path`: the
/// path with backslashes for slashes.
pub fn launch_target(path: &str) -> (target: String)
    ensures
        target@ == with_char_replaced(path@, '/', '\\'),
{
    replace_char(path, '/', '\\')
}

} // verus!
