//! The lines of the exported chat list: `type;id;title;username`, and what may follow.
use crate::text::{
    ascii_lowercase, ascii_lowercase_text, find_text, has_none, is_white_space, lemma_find, splitn,
    splitn_of_first, splitn_text, starts_with, trim, trim_leaves_trimmed, trim_text, CharKind,
};
use vstd::prelude::*;

verus! {

/// Whether a trimmed line is blank or a comment.
pub open spec fn is_blank_or_comment(line: Seq<char>) -> bool {
    line.len() == 0 || "#"@.is_prefix_of(line)
}

/// Whether a trimmed line is blank or a comment.
pub fn blank_or_comment(line: &str) -> (r: bool)
    ensures
        r == is_blank_or_comment(line@),
{
    line.is_empty() || starts_with(line, "#")
}

/// Whether a trimmed line names the columns.
pub open spec fn is_header(line: Seq<char>) -> bool {
    "type;"@.is_prefix_of(ascii_lowercase_text(line))
}

/// Whether a trimmed line holds no chat. Only the first line of a file can name the
/// columns.
pub open spec fn is_skipped(line: Seq<char>, first: bool) -> bool {
    is_blank_or_comment(line) || (first && is_header(line))
}

/// Whether a trimmed line holds no chat.
pub fn skipped(line: &str, first: bool) -> (r: bool)
    ensures
        r == is_skipped(line@, first),
{
    blank_or_comment(line) || (first && starts_with(&ascii_lowercase(line), "type;"))
}

/// The columns of a line, trimmed; the last of the `n` columns is all that is left.
pub open spec fn columns_text(line: Seq<char>, n: nat) -> Seq<Seq<char>> {
    splitn_text(line, n, CharKind::Semicolon).map_values(|part: Seq<char>| trim_text(part))
}

/// A column; one that is missing is empty.
pub open spec fn column_text(columns: Seq<Seq<char>>, i: int) -> Seq<char> {
    if i < columns.len() {
        columns[i]
    } else {
        seq![]
    }
}

/// The columns of a line, trimmed.
pub fn columns(line: &str, n: usize) -> (r: Vec<String>)
    requires
        n > 0,
    ensures
        r.deep_view() == columns_text(line@, n as nat),
{
    let parts = splitn(line, n, CharKind::Semicolon);
    let ghost views = parts.deep_view();
    let mut r: Vec<String> = Vec::new();
    for i in 0..parts.len()
        invariant
            views == parts.deep_view(),
            r@.len() == i,
            forall|j: int| 0 <= j < i ==> (#[trigger] r@[j])@ == trim_text(views[j]),
    {
        r.push(trim(&parts[i]));
    }
    assert(r.deep_view() =~= columns_text(line@, n as nat));
    r
}

/// A column; one that is missing is empty.
pub fn column(columns: &Vec<String>, i: usize) -> (r: String)
    ensures
        r@ == column_text(columns.deep_view(), i as int),
{
    if i < columns.len() {
        columns[i].clone()
    } else {
        let r = String::new();
        assert(r@ =~= seq![]);
        r
    }
}

// ---------------------------------------------------------------------------
// What a line says
// ---------------------------------------------------------------------------

/// The line of a chat: its type, id and title, and what follows them, each behind a
/// semicolon.
pub open spec fn chat_line_text(
    ctype: Seq<char>,
    id: Seq<char>,
    title: Seq<char>,
    rest: Seq<char>,
) -> Seq<char> {
    ctype.push(';') + (id.push(';') + (title.push(';') + rest))
}

/// Whether the line of a chat is no comment, names no columns, and has no white space around
/// it, and its first columns hold no semicolon.
pub open spec fn tells_a_chat(
    ctype: Seq<char>,
    id: Seq<char>,
    title: Seq<char>,
    rest: Seq<char>,
) -> bool {
    &&& ctype.len() > 0
    &&& !is_white_space(ctype[0])
    &&& ctype[0] != '#'
    &&& ascii_lowercase_text(ctype) != "type"@
    &&& has_none(ctype, CharKind::Semicolon)
    &&& has_none(id, CharKind::Semicolon)
    &&& has_none(title, CharKind::Semicolon)
    &&& rest.len() > 0 ==> !is_white_space(rest.last())
}

/// The columns of the line of a chat are what stands between the semicolons, without white
/// space around it; what follows the last of them is one column.
pub proof fn columns_are_between_semicolons(
    ctype: Seq<char>,
    id: Seq<char>,
    title: Seq<char>,
    name: Seq<char>,
    rest: Seq<char>,
)
    requires
        has_none(ctype, CharKind::Semicolon),
        has_none(id, CharKind::Semicolon),
        has_none(title, CharKind::Semicolon),
        has_none(name, CharKind::Semicolon),
    ensures
        columns_text(chat_line_text(ctype, id, title, rest), 4) == seq![
            trim_text(ctype),
            trim_text(id),
            trim_text(title),
            trim_text(rest),
        ],
        columns_text(chat_line_text(ctype, id, title, name.push(';') + rest), 5) == seq![
            trim_text(ctype),
            trim_text(id),
            trim_text(title),
            trim_text(name),
            trim_text(rest),
        ],
        columns_text(chat_line_text(ctype, id, title, name), 5) == seq![
            trim_text(ctype),
            trim_text(id),
            trim_text(title),
            trim_text(name),
        ],
{
    let kind = CharKind::Semicolon;
    let line = chat_line_text(ctype, id, title, rest);
    splitn_of_first(ctype, ';', id.push(';') + (title.push(';') + rest), 4, kind);
    splitn_of_first(id, ';', title.push(';') + rest, 3, kind);
    splitn_of_first(title, ';', rest, 2, kind);
    assert(splitn_text(line, 4, kind) =~= seq![ctype, id, title, rest]);
    assert(columns_text(line, 4) =~= seq![
        trim_text(ctype),
        trim_text(id),
        trim_text(title),
        trim_text(rest),
    ]);
    let more = name.push(';') + rest;
    let longer = chat_line_text(ctype, id, title, more);
    splitn_of_first(ctype, ';', id.push(';') + (title.push(';') + more), 5, kind);
    splitn_of_first(id, ';', title.push(';') + more, 4, kind);
    splitn_of_first(title, ';', more, 3, kind);
    splitn_of_first(name, ';', rest, 2, kind);
    assert(splitn_text(longer, 5, kind) =~= seq![ctype, id, title, name, rest]);
    assert(columns_text(longer, 5) =~= seq![
        trim_text(ctype),
        trim_text(id),
        trim_text(title),
        trim_text(name),
        trim_text(rest),
    ]);
    let shorter = chat_line_text(ctype, id, title, name);
    splitn_of_first(ctype, ';', id.push(';') + (title.push(';') + name), 5, kind);
    splitn_of_first(id, ';', title.push(';') + name, 4, kind);
    splitn_of_first(title, ';', name, 3, kind);
    lemma_find(name, kind);
    let at = find_text(name, kind) as int;
    if at < name.len() {
        assert(kind.holds(name[at]));
    }
    assert(splitn_text(name, 2, kind) =~= seq![name]);
    assert(splitn_text(shorter, 5, kind) =~= seq![ctype, id, title, name]);
    assert(columns_text(shorter, 5) =~= seq![
        trim_text(ctype),
        trim_text(id),
        trim_text(title),
        trim_text(name),
    ]);
}

/// The line of a chat is read, wherever in a file it stands.
pub proof fn lines_of_chats_are_read(
    ctype: Seq<char>,
    id: Seq<char>,
    title: Seq<char>,
    rest: Seq<char>,
    first: bool,
)
    requires
        tells_a_chat(ctype, id, title, rest),
    ensures
        trim_text(chat_line_text(ctype, id, title, rest)) == chat_line_text(ctype, id, title, rest),
        !is_skipped(chat_line_text(ctype, id, title, rest), first),
{
    let line = chat_line_text(ctype, id, title, rest);
    assert(line[0] == ctype[0]);
    if rest.len() > 0 {
        assert(line.last() == rest.last());
    } else {
        assert(line.last() == ';');
    }
    trim_leaves_trimmed(line, CharKind::Space);
    reveal_strlit("#");
    if "#"@.is_prefix_of(line) {
        assert(line.subrange(0, 1)[0] == '#');
    }
    reveal_strlit("type;");
    reveal_strlit("type");
    let low = ascii_lowercase_text(line);
    let n = ctype.len() as int;
    assert(line[n] == ';');
    if "type;"@.is_prefix_of(low) {
        assert forall|i: int| 0 <= i < 5 implies low[i] == "type;"@[i] by {
            assert(low.subrange(0, 5)[i] == "type;"@[i]);
        }
        assert(low[0] == 't' && low[1] == 'y' && low[2] == 'p' && low[3] == 'e' && low[4] == ';');
        assert(low[n] == ';');
        assert(n >= 4);
        if n > 4 {
            assert(line[4] == ctype[4]);
            assert(!CharKind::Semicolon.holds(ctype[4]));
        }
        assert(ascii_lowercase_text(ctype) =~= "type"@) by {
            assert forall|i: int| 0 <= i < 4 implies ascii_lowercase_text(ctype)[i]
                == "type"@[i] by {
                assert(line[i] == ctype[i]);
                assert("type"@[i] == "type;"@[i]);
            }
        }
    }
}

/// Blank lines and comments hold nothing, nor does a first line that names the columns; any
/// other line is read, also one that names the columns further down.
pub proof fn what_holds_nothing(line: Seq<char>, first: bool)
    ensures
        is_skipped(Seq::<char>::empty(), first),
        is_skipped(seq!['#'] + line, first),
        is_skipped("type;"@ + line, true),
        line.len() > 0 && line[0] != '#' ==> !is_skipped(line, false),
        is_blank_or_comment(line) <==> line.len() == 0 || line[0] == '#',
{
    reveal_strlit("#");
    reveal_strlit("type;");
    let comment = seq!['#'] + line;
    assert("#"@ =~= comment.subrange(0, 1));
    let head = "type;"@ + line;
    let low = ascii_lowercase_text(head);
    assert("type;"@ =~= low.subrange(0, 5)) by {
        assert forall|i: int| 0 <= i < 5 implies low[i] == "type;"@[i] by {
            assert(head[i] == "type;"@[i]);
        }
    }
    if line.len() > 0 {
        if "#"@.is_prefix_of(line) {
            assert(line.subrange(0, 1)[0] == '#');
        }
        if line[0] == '#' {
            assert("#"@ =~= line.subrange(0, 1));
        }
    }
}

} // verus!
