//! The memo source: from the bytes of note files to memo records.
//!
//! A note carries its tags on one line that holds the marker `tags`, for
//! instance ` tags: #rust #verus `; white space on that line does not count.
//! The first such line of a file gives the memo; a file without one gives
//! none. A file that is not UTF-8 is read as Shift_JIS.

use crate::memo::{memo_views, Memo, MemoView};
use crate::text::{char_views, chars_of, contains_chars, is_substring, remove_white_space,
    replace_char, same_chars, split, split_on, string_of, views, with_char_replaced,
    without_white_space};
use vstd::prelude::*;
use vstd::utf8::{decode_utf8, valid_utf8};

verus! {

/// The marker that makes a line the tag line.
pub open spec fn tag_marker() -> Seq<char> {
    "tags"@
}

/// What the piece in front of the first tag holds.
pub open spec fn tag_label() -> Seq<char> {
    "tags:"@
}

/// The predicate that holds of the pieces of a tag line that are tags: those
/// that do not hold the label.
pub open spec fn is_tag_piece() -> spec_fn(Seq<char>) -> bool {
    |piece: Seq<char>| !is_substring(tag_label(), piece)
}

/// The tags that `line` declares, if it holds the marker: the line without
/// its white space, cut at every `#`, without the pieces that hold the label.
pub open spec fn tags_of_line(line: Seq<char>) -> Option<Seq<Seq<char>>> {
    if is_substring(tag_marker(), line) {
        Some(split_on(without_white_space(line), '#').filter(is_tag_piece()))
    } else {
        None
    }
}

/// `line` without one carriage return at its end, if it ends in one.
pub open spec fn without_trailing_cr(line: Seq<char>) -> Seq<char> {
    if line.len() > 0 && line.last() == '\r' {
        line.drop_last()
    } else {
        line
    }
}

/// The lines of `text`. A line ends at a line feed, or at a carriage return
/// and a line feed; neither belongs to the line. What follows the last line
/// feed is a line too unless it is empty.
pub open spec fn lines_of(text: Seq<char>) -> Seq<Seq<char>> {
    let pieces = split_on(text, '\n');
    let ended = pieces.drop_last().map_values(|p: Seq<char>| without_trailing_cr(p));
    if pieces.last().len() == 0 {
        ended
    } else {
        ended.push(pieces.last())
    }
}

/// The tags of the first line that declares any.
pub open spec fn first_tags(lines: Seq<Seq<char>>) -> Option<Seq<Seq<char>>>
    decreases lines.len(),
{
    if lines.len() == 0 {
        None
    } else {
        match tags_of_line(lines[0]) {
            Some(tags) => Some(tags),
            None => first_tags(lines.drop_first()),
        }
    }
}

/// `path` with every backslash turned into a slash.
pub open spec fn slashed(path: Seq<char>) -> Seq<char> {
    with_char_replaced(path, '\\', '/')
}

/// The memo of the note at `path` whose text is `text`, if the text has a
/// tag line.
pub open spec fn memo_of_text(path: Seq<char>, text: Seq<char>) -> Option<MemoView> {
    match first_tags(lines_of(text)) {
        Some(tags) => Some(MemoView { path: slashed(path), tags }),
        None => None,
    }
}

/// The text that the Shift_JIS decoder of `encoding_rs` makes of `bytes`,
/// with byte order marks sniffed and malformed sequences replaced.
pub uninterp spec fn shift_jis_text(bytes: Seq<u8>) -> Seq<char>;

/// The longest input that is handed to the Shift_JIS decoder: a sixteenth
/// of the address space. The decoder sizes its buffer at up to three bytes
/// for each input byte, and a buffer that has to grow may double; the bound
/// keeps both below what a `String` may hold, with room to spare. No 64-bit
/// machine holds a note that long. Where `usize` has 32 bits, a note of more
/// than 256 MiB that is no UTF-8 gets no text and so no memo.
pub open spec fn fallback_limit() -> nat {
    (usize::MAX / 16) as nat
}

/// The text of a note file: its bytes as UTF-8 if they are UTF-8, else as
/// Shift_JIS, and none if they are too long for that.
pub open spec fn note_text(bytes: Seq<u8>) -> Option<Seq<char>> {
    if valid_utf8(bytes) {
        Some(decode_utf8(bytes))
    } else if bytes.len() <= fallback_limit() {
        Some(shift_jis_text(bytes))
    } else {
        None
    }
}

/// The memo of the note at `path` with the contents `bytes`.
pub open spec fn memo_of_note(path: Seq<char>, bytes: Seq<u8>) -> Option<MemoView> {
    match note_text(bytes) {
        Some(text) => memo_of_text(path, text),
        None => None,
    }
}

/// A note file as read from disk.
pub struct NoteFile {
    pub path: String,
    pub bytes: Vec<u8>,
}

/// The function from a note file to its memo, if it has one.
pub open spec fn memo_of_file() -> spec_fn(NoteFile) -> Option<MemoView> {
    |file: NoteFile| memo_of_note(file.path@, file.bytes@)
}

/// The memos of `files`, in their order, without the files that have none.
pub open spec fn memos_of(files: Seq<NoteFile>) -> Seq<MemoView> {
    files.filter_map(memo_of_file())
}

/// `core::str::from_utf8` accepts exactly the byte strings that are valid
/// UTF-8, and the text it gives is the one that they encode.
#[verifier::external_body]
fn utf8_text(bytes: &[u8]) -> (text: Option<String>)
    ensures
        match text {
            Some(s) => valid_utf8(bytes@) && s@ == decode_utf8(bytes@),
            None => !valid_utf8(bytes@),
        },
{
    match core::str::from_utf8(bytes) {
        Ok(s) => Some(s.to_owned()),
        Err(_) => None,
    }
}

/// `encoding_rs::Encoding::decode` on `encoding_rs::SHIFT_JIS`: the text is
/// a function of the bytes alone, named `shift_jis_text`. The call computes
/// buffer sizes of up to three bytes for each input byte and three more,
/// rounded up to a power of two, and panics where they overflow or exceed
/// what a `String` may hold; inputs of up to a sixteenth of the address space
/// stay clear of both.
#[verifier::external_body]
fn decode_shift_jis(bytes: &[u8]) -> (text: String)
    requires
        bytes@.len() <= fallback_limit(),
    ensures
        text@ == shift_jis_text(bytes@),
{
    let (text, _, _) = encoding_rs::SHIFT_JIS.decode(bytes);
    text.into_owned()
}

/// Whether a file with the extension `extension` is a note.
pub fn is_note_extension(extension: &str) -> (note: bool)
    ensures
        note == (extension@ == "md"@),
{
    let given = chars_of(extension);
    let wanted = chars_of("md");
    same_chars(&given, &wanted)
}

/// The strings made of each of `pieces` that is a tag.
fn tag_pieces(pieces: &Vec<Vec<char>>) -> (tags: Vec<String>)
    ensures
        views(tags@) == char_views(pieces@).filter(is_tag_piece()),
{
    let label = chars_of("tags:");
    let mut tags: Vec<String> = Vec::new();
    let mut i: usize = 0;
    proof {
        reveal(Seq::filter);
        assert(char_views(pieces@.take(0)).len() == 0);
    }
    while i < pieces.len()
        invariant
            i <= pieces.len(),
            label@ == tag_label(),
            views(tags@) == char_views(pieces@.take(i as int)).filter(is_tag_piece()),
        decreases pieces.len() - i,
    {
        let ghost seen = char_views(pieces@.take(i as int));
        proof {
            assert(pieces@.take(i + 1) =~= pieces@.take(i as int).push(pieces@[i as int]));
            assert(char_views(pieces@.take(i + 1)) =~= seen.push(pieces@[i as int]@));
            seen.lemma_filter_push(pieces@[i as int]@, is_tag_piece());
        }
        if !contains_chars(&pieces[i], &label) {
            let tag = string_of(&pieces[i]);
            assert(views(tags@.push(tag)) =~= views(tags@).push(tag@));
            tags.push(tag);
        }
        i = i + 1;
    }
    assert(pieces@.take(pieces.len() as int) =~= pieces@);
    tags
}

/// The tags that the line `chars` declares.
fn tags_of_chars(chars: &Vec<char>) -> (tags: Option<Vec<String>>)
    ensures
        match tags {
            Some(t) => tags_of_line(chars@) == Some(views(t@)),
            None => tags_of_line(chars@) is None,
        },
{
    let marker = chars_of("tags");
    if !contains_chars(chars, &marker) {
        return None;
    }
    let packed = remove_white_space(chars);
    let pieces = split(&packed, '#');
    Some(tag_pieces(&pieces))
}

/// The tags that `line` declares: none if it does not hold `tags`, else the
/// line without its white space, cut at every `#`, without the pieces that
/// hold `tags:`.
pub fn get_tags_by_line(line: String) -> (tags: Option<Vec<String>>)
    ensures
        match tags {
            Some(t) => tags_of_line(line@) == Some(views(t@)),
            None => tags_of_line(line@) is None,
        },
{
    let chars = chars_of(line.as_str());
    tags_of_chars(&chars)
}

/// The lines of `text`.
pub fn split_lines(text: &Vec<char>) -> (lines: Vec<Vec<char>>)
    ensures
        char_views(lines@) == lines_of(text@),
{
    let mut pieces = split(text, '\n');
    proof {
        crate::text::lemma_split_join(text@, '\n');
    }
    let ghost all = char_views(pieces@);
    let last = pieces.pop().unwrap();
    assert(char_views(pieces@) =~= all.drop_last());
    assert(last@ == all.last());
    let ghost strip = |p: Seq<char>| without_trailing_cr(p);
    let mut lines: Vec<Vec<char>> = Vec::new();
    let mut i: usize = 0;
    while i < pieces.len()
        invariant
            i <= pieces.len(),
            strip == (|p: Seq<char>| without_trailing_cr(p)),
            char_views(lines@) == char_views(pieces@.take(i as int)).map_values(strip),
        decreases pieces.len() - i,
    {
        let mut line = pieces[i].clone();
        assert(line@ == pieces@[i as int]@);
        if line.len() > 0 && line[line.len() - 1] == '\r' {
            line.pop();
        }
        proof {
            assert(line@ =~= without_trailing_cr(pieces@[i as int]@));
            assert(pieces@.take(i + 1) =~= pieces@.take(i as int).push(pieces@[i as int]));
            assert(char_views(lines@.push(line)) =~= char_views(lines@).push(line@));
            assert(char_views(pieces@.take(i + 1)).map_values(strip) =~= char_views(
                pieces@.take(i as int),
            ).map_values(strip).push(strip(pieces@[i as int]@)));
        }
        lines.push(line);
        i = i + 1;
    }
    assert(pieces@.take(pieces.len() as int) =~= pieces@);
    if last.len() > 0 {
        let ghost before = lines@;
        lines.push(last);
        assert(char_views(lines@) =~= char_views(before).push(last@));
    }
    lines
}

/// The memo of the note at `path` whose text is `text`: its tags are those
/// of the first line that holds `tags`, its path is `path` with slashes for
/// backslashes. A text without such a line gives no memo.
pub fn create_memo_from_text(path: &str, text: &str) -> (memo: Option<Memo>)
    ensures
        match memo {
            Some(m) => memo_of_text(path@, text@) == Some(m@),
            None => memo_of_text(path@, text@) is None,
        },
{
    let chars = chars_of(text);
    let lines = split_lines(&chars);
    let ghost all = char_views(lines@);
    let mut i: usize = 0;
    assert(all.skip(0) =~= all);
    while i < lines.len()
        invariant
            i <= lines.len(),
            all == char_views(lines@),
            all == lines_of(text@),
            first_tags(all) == first_tags(all.skip(i as int)),
        decreases lines.len() - i,
    {
        proof {
            assert(all.skip(i as int)[0] == lines@[i as int]@);
            assert(all.skip(i as int).drop_first() =~= all.skip(i + 1));
        }
        match tags_of_chars(&lines[i]) {
            Some(tags) => {
                let memo = Memo::new(replace_char(path, '\\', '/'), tags);
                return Some(memo);
            },
            None => {},
        }
        i = i + 1;
    }
    assert(all.skip(lines.len() as int).len() == 0);
    None
}

/// The text of a note file: its bytes as UTF-8 if they are UTF-8, else as
/// Shift_JIS. Bytes that are no UTF-8 and longer than `fallback_limit` give
/// no text.
pub fn decode_note(bytes: &Vec<u8>) -> (text: Option<String>)
    ensures
        match text {
            Some(s) => note_text(bytes@) == Some(s@),
            None => note_text(bytes@) is None,
        },
{
    match utf8_text(bytes.as_slice()) {
        Some(text) => Some(text),
        None => {
            if bytes.len() <= usize::MAX / 16 {
                Some(decode_shift_jis(bytes.as_slice()))
            } else {
                None
            }
        },
    }
}

/// The memo of a note file, if its text can be had and has a tag line.
pub fn create_memo_from_file(file: &NoteFile) -> (memo: Option<Memo>)
    ensures
        match memo {
            Some(m) => memo_of_note(file.path@, file.bytes@) == Some(m@),
            None => memo_of_note(file.path@, file.bytes@) is None,
        },
{
    match decode_note(&file.bytes) {
        Some(text) => create_memo_from_text(file.path.as_str(), text.as_str()),
        None => None,
    }
}

/// The memos of `files`, in their order. A file without a tag line, or
/// whose text cannot be had, is left out.
pub fn create_memo_list(files: &Vec<NoteFile>) -> (memos: Vec<Memo>)
    ensures
        memo_views(memos@) == memos_of(files@),
{
    let mut memos: Vec<Memo> = Vec::new();
    let mut i: usize = 0;
    assert(files@.take(0).filter_map(memo_of_file()) =~= Seq::<MemoView>::empty());
    while i < files.len()
        invariant
            i <= files.len(),
            memo_views(memos@) == memos_of(files@.take(i as int)),
        decreases files.len() - i,
    {
        proof {
            files@.lemma_filter_map_take_succ(memo_of_file(), i as int);
        }
        match create_memo_from_file(&files[i]) {
            Some(memo) => {
                assert(memo_views(memos@.push(memo)) =~= memo_views(memos@).push(memo@));
                memos.push(memo);
            },
            None => {},
        }
        i = i + 1;
    }
    assert(files@.take(files.len() as int) =~= files@);
    memos
}

} // verus!
