//! Channels as lines of text, and what the database holds of subscriptions.
use crate::export::{
    blank_or_comment, chat_line_text, column, column_text, columns, columns_are_between_semicolons,
    columns_text, is_blank_or_comment, is_skipped, lines_of_chats_are_read, skipped, tells_a_chat,
};
use crate::numbers::{
    int_text, int_text_is_digits, int_text_parses_back, parse_i64, parse_i64_text, show_i64,
};
use crate::text::{
    ascii_lowercase, ascii_lowercase_text, has_none, is_digit, is_white_space, lemma_find, lines,
    lines_of_added, lines_text, same, splitn_of_first, splitn_text, starts_with, to_chars, trim,
    trim_both, trim_both_text, trim_keeps_first, trim_leaves_trimmed, trim_text,
    trimmed_has_no_ends, without_return, CharKind,
};
use vstd::prelude::*;

verus! {

/// Whether a subscription that was paid until a moment, if at all, is active now.
pub open spec fn is_active(paid_until: Option<i64>, now_ts: i64) -> bool {
    paid_until is Some && paid_until->0 > now_ts
}

/// Whether a subscription that was paid until a moment, if at all, is active now.
pub fn is_subscription_active(paid_until: Option<i64>, now_ts: i64) -> (r: bool)
    ensures
        r == is_active(paid_until, now_ts),
{
    match paid_until {
        Some(until) => until > now_ts,
        None => false,
    }
}

// ---------------------------------------------------------------------------
// Reading
// ---------------------------------------------------------------------------

/// A channel: its id, title and username.
pub type Channel = (i64, String, Option<String>);

/// A channel: its id, title and username.
pub type ChannelView = (i64, Seq<char>, Option<Seq<char>>);

/// A chat of an export: its id, title, username and type.
pub type Chat = (i64, String, Option<String>, String);

/// A chat of an export: its id, title, username and type.
pub type ChatView = (i64, Seq<char>, Option<Seq<char>>, Seq<char>);

/// Why a text does not list channels, with the number of the line, from one.
#[derive(Debug, Clone, PartialEq, Eq)]
pub enum CsvErrorOf<T> {
    InvalidId { line: usize, id: T },
    TitleRequired { line: usize },
}

/// Why a text does not list channels.
pub type CsvError = CsvErrorOf<String>;

/// Why a text does not list channels.
pub type CsvErrorView = CsvErrorOf<Seq<char>>;

impl DeepView for CsvErrorOf<String> {
    type V = CsvErrorView;

    open spec fn deep_view(&self) -> CsvErrorView {
        match self {
            CsvErrorOf::InvalidId { line, id } => CsvErrorOf::InvalidId { line: *line, id: id@ },
            CsvErrorOf::TitleRequired { line } => CsvErrorOf::TitleRequired { line: *line },
        }
    }
}

/// A result with what it holds in place of the values.
pub open spec fn result_view<T: DeepView>(r: Result<Vec<T>, CsvError>) -> Result<
    Seq<T::V>,
    CsvErrorView,
> {
    match r {
        Ok(rows) => Ok(rows.deep_view()),
        Err(e) => Err(e.deep_view()),
    }
}

/// The username in a column, without `@` signs around it; none where nothing is left.
pub open spec fn username_of(columns: Seq<Seq<char>>, i: int) -> Option<Seq<char>> {
    let name = trim_both_text(column_text(columns, i), CharKind::At);
    if i < columns.len() && name.len() > 0 {
        Some(name)
    } else {
        None
    }
}

fn parse_username(columns: &Vec<String>, i: usize) -> (r: Option<String>)
    ensures
        r.deep_view() == username_of(columns.deep_view(), i as int),
{
    if i < columns.len() {
        let name = trim_both(&column(columns, i), CharKind::At);
        if name.as_str().is_empty() {
            None
        } else {
            Some(name)
        }
    } else {
        None
    }
}

/// Whether the first column of the first line heads the column: it is called `id`, or it
/// is no number and does not begin like one, with a digit.
pub open spec fn is_id_header(id: Seq<char>) -> bool {
    ||| ascii_lowercase_text(id) == "id"@
    ||| parse_i64_text(id) is None && (id.len() == 0 || !is_digit(id[0]))
}

fn id_header(id: &str) -> (r: bool)
    ensures
        r == is_id_header(id@),
{
    if same(&ascii_lowercase(id), "id") {
        return true;
    }
    let chars = to_chars(id);
    parse_i64(id).is_none() && (chars.len() == 0 || !('0' <= chars[0] && chars[0] <= '9'))
}

/// What a line says: nothing, a row, or what is wrong with it.
pub enum LineOf<R, E> {
    Nothing,
    Row(R),
    Wrong(E),
}

impl<R: DeepView> DeepView for LineOf<R, CsvError> {
    type V = LineOf<R::V, CsvErrorView>;

    open spec fn deep_view(&self) -> LineOf<R::V, CsvErrorView> {
        match self {
            LineOf::Nothing => LineOf::Nothing,
            LineOf::Row(row) => LineOf::Row(row.deep_view()),
            LineOf::Wrong(e) => LineOf::Wrong(e.deep_view()),
        }
    }
}

/// What a line of channels says: `id;title;username`, of which the username is optional.
pub open spec fn channel_line(raw: Seq<char>, n: nat) -> LineOf<ChannelView, CsvErrorView> {
    let line = trim_text(raw);
    let parts = columns_text(line, 3);
    let id = column_text(parts, 0);
    let title = column_text(parts, 1);
    if is_blank_or_comment(line) || (n == 1 && is_id_header(id)) {
        LineOf::Nothing
    } else if parse_i64_text(id) is None {
        LineOf::Wrong(CsvErrorOf::InvalidId { line: n as usize, id })
    } else if title.len() == 0 {
        LineOf::Wrong(CsvErrorOf::TitleRequired { line: n as usize })
    } else {
        LineOf::Row((parse_i64_text(id)->0, title, username_of(parts, 2)))
    }
}

/// What the first `n` lines say: the channels in order, or what is wrong with the first
/// line that is wrong.
pub open spec fn channels_of_lines(lines: Seq<Seq<char>>, n: nat) -> Result<
    Seq<ChannelView>,
    CsvErrorView,
>
    decreases n,
{
    if n == 0 {
        Ok(seq![])
    } else {
        match channels_of_lines(lines, (n - 1) as nat) {
            Ok(rows) => match channel_line(lines[n - 1], n) {
                LineOf::Nothing => Ok(rows),
                LineOf::Row(row) => Ok(rows.push(row)),
                LineOf::Wrong(e) => Err(e),
            },
            Err(e) => Err(e),
        }
    }
}

/// The channels that a text lists, or what is wrong with it.
pub open spec fn channels_of_text(csv: Seq<char>) -> Result<Seq<ChannelView>, CsvErrorView> {
    channels_of_lines(lines_text(csv), lines_text(csv).len())
}

/// What a line of an export says: `type;id;title;username`, of which the username is
/// optional.
pub open spec fn chat_line(raw: Seq<char>, n: nat) -> LineOf<ChatView, CsvErrorView> {
    let line = trim_text(raw);
    let parts = columns_text(line, 4);
    let id = column_text(parts, 1);
    let title = column_text(parts, 2);
    if is_skipped(line, n == 1) {
        LineOf::Nothing
    } else if parse_i64_text(id) is None {
        LineOf::Wrong(CsvErrorOf::InvalidId { line: n as usize, id })
    } else if title.len() == 0 {
        LineOf::Wrong(CsvErrorOf::TitleRequired { line: n as usize })
    } else {
        LineOf::Row(
            (
                parse_i64_text(id)->0,
                title,
                username_of(parts, 3),
                ascii_lowercase_text(column_text(parts, 0)),
            ),
        )
    }
}

/// What the first `n` lines of an export say.
pub open spec fn chats_of_lines(lines: Seq<Seq<char>>, n: nat) -> Result<
    Seq<ChatView>,
    CsvErrorView,
>
    decreases n,
{
    if n == 0 {
        Ok(seq![])
    } else {
        match chats_of_lines(lines, (n - 1) as nat) {
            Ok(rows) => match chat_line(lines[n - 1], n) {
                LineOf::Nothing => Ok(rows),
                LineOf::Row(row) => Ok(rows.push(row)),
                LineOf::Wrong(e) => Err(e),
            },
            Err(e) => Err(e),
        }
    }
}

/// The chats that an export lists, or what is wrong with it.
pub open spec fn chats_of_text(csv: Seq<char>) -> Result<Seq<ChatView>, CsvErrorView> {
    chats_of_lines(lines_text(csv), lines_text(csv).len())
}

/// A wrong line makes the whole text wrong, with the first wrong line's error.
proof fn lemma_channels_error_stays(lines: Seq<Seq<char>>, n: nat, m: nat)
    requires
        n <= m,
        channels_of_lines(lines, n) is Err,
    ensures
        channels_of_lines(lines, m) == channels_of_lines(lines, n),
    decreases m,
{
    if n < m {
        lemma_channels_error_stays(lines, n, (m - 1) as nat);
    }
}

proof fn lemma_chats_error_stays(lines: Seq<Seq<char>>, n: nat, m: nat)
    requires
        n <= m,
        chats_of_lines(lines, n) is Err,
    ensures
        chats_of_lines(lines, m) == chats_of_lines(lines, n),
    decreases m,
{
    if n < m {
        lemma_chats_error_stays(lines, n, (m - 1) as nat);
    }
}

fn parse_channel(raw: &str, n: usize) -> (r: LineOf<Channel, CsvError>)
    ensures
        r.deep_view() == channel_line(raw@, n as nat),
{
    let line = trim(raw);
    if blank_or_comment(&line) {
        return LineOf::Nothing;
    }
    let parts = columns(&line, 3);
    let id_text = column(&parts, 0);
    if n == 1 && id_header(&id_text) {
        return LineOf::Nothing;
    }
    match parse_i64(&id_text) {
        Some(id) => {
            let title = column(&parts, 1);
            if title.as_str().is_empty() {
                LineOf::Wrong(CsvErrorOf::TitleRequired { line: n })
            } else {
                LineOf::Row((id, title, parse_username(&parts, 2)))
            }
        },
        None => LineOf::Wrong(CsvErrorOf::InvalidId { line: n, id: id_text }),
    }
}

fn parse_chat(raw: &str, n: usize) -> (r: LineOf<Chat, CsvError>)
    ensures
        r.deep_view() == chat_line(raw@, n as nat),
{
    let line = trim(raw);
    if skipped(&line, n == 1) {
        return LineOf::Nothing;
    }
    let parts = columns(&line, 4);
    let ctype = ascii_lowercase(&column(&parts, 0));
    let id_text = column(&parts, 1);
    match parse_i64(&id_text) {
        Some(id) => {
            let title = column(&parts, 2);
            if title.as_str().is_empty() {
                LineOf::Wrong(CsvErrorOf::TitleRequired { line: n })
            } else {
                LineOf::Row((id, title, parse_username(&parts, 3), ctype))
            }
        },
        None => LineOf::Wrong(CsvErrorOf::InvalidId { line: n, id: id_text }),
    }
}

/// The channels to put into the database from a text that lists them, or what is wrong
/// with it: then none is put there.
pub fn replace_all_from_csv(csv: &str) -> (r: Result<Vec<Channel>, CsvError>)
    ensures
        result_view(r) == channels_of_text(csv@),
{
    let all = lines(csv);
    let ghost views = all.deep_view();
    let mut rows: Vec<Channel> = Vec::new();
    assert(rows.deep_view() =~= seq![]);
    for i in 0..all.len()
        invariant
            views == all.deep_view(),
            views == lines_text(csv@),
            channels_of_lines(views, i as nat) == Ok::<Seq<ChannelView>, CsvErrorView>(
                rows.deep_view(),
            ),
    {
        let ghost before = rows.deep_view();
        match parse_channel(&all[i], i + 1) {
            LineOf::Nothing => {},
            LineOf::Row(row) => {
                rows.push(row);
                assert(rows.deep_view() =~= before.push(row.deep_view()));
            },
            LineOf::Wrong(e) => {
                proof {
                    lemma_channels_error_stays(views, (i + 1) as nat, views.len());
                }
                return Err(e);
            },
        }
    }
    Ok(rows)
}

/// The chats to put into the database in place of all others from an export, or what is
/// wrong with it: then the database stays.
pub fn replace_all_from_chats_export_csv(csv: &str) -> (r: Result<Vec<Chat>, CsvError>)
    ensures
        result_view(r) == chats_of_text(csv@),
{
    let all = lines(csv);
    let ghost views = all.deep_view();
    let mut rows: Vec<Chat> = Vec::new();
    assert(rows.deep_view() =~= seq![]);
    for i in 0..all.len()
        invariant
            views == all.deep_view(),
            views == lines_text(csv@),
            chats_of_lines(views, i as nat) == Ok::<Seq<ChatView>, CsvErrorView>(
                rows.deep_view(),
            ),
    {
        let ghost before = rows.deep_view();
        match parse_chat(&all[i], i + 1) {
            LineOf::Nothing => {},
            LineOf::Row(row) => {
                rows.push(row);
                assert(rows.deep_view() =~= before.push(row.deep_view()));
            },
            LineOf::Wrong(e) => {
                proof {
                    lemma_chats_error_stays(views, (i + 1) as nat, views.len());
                }
                return Err(e);
            },
        }
    }
    Ok(rows)
}

// ---------------------------------------------------------------------------
// Writing
// ---------------------------------------------------------------------------

/// The line for a channel.
pub open spec fn dump_line(row: ChannelView) -> Seq<char> {
    int_text(row.0 as int) + ";"@ + row.1 + ";"@ + (match row.2 {
        Some(name) => name,
        None => seq![],
    }) + "\n"@
}

/// The lines for the first `n` channels.
pub open spec fn dump_lines(rows: Seq<ChannelView>, n: nat) -> Seq<char>
    decreases n,
{
    if n == 0 {
        seq![]
    } else {
        dump_lines(rows, (n - 1) as nat) + dump_line(rows[n - 1])
    }
}

/// The text that lists the channels, under a comment on its columns.
pub open spec fn dump_text(rows: Seq<ChannelView>) -> Seq<char> {
    "# id;title;username\n"@ + "# username is optional (without @). One channel per line.\n"@
        + dump_lines(rows, rows.len())
}

/// How many of the first `n` lines are neither comments nor blank.
pub open spec fn content_lines(lines: Seq<Seq<char>>, n: nat) -> nat
    decreases n,
{
    if n == 0 {
        0
    } else {
        content_lines(lines, (n - 1) as nat) + (if "#"@.is_prefix_of(lines[n - 1]) || trim_text(
            lines[n - 1],
        ).len() == 0 {
            0nat
        } else {
            1nat
        })
    }
}

proof fn lemma_content_lines(lines: Seq<Seq<char>>, n: nat)
    ensures
        content_lines(lines, n) <= n,
    decreases n,
{
    if n > 0 {
        lemma_content_lines(lines, (n - 1) as nat);
    }
}

/// A text to write to a file, and how many channels it is said to list.
#[derive(Debug, Clone, PartialEq, Eq)]
pub struct CsvFile {
    pub text: String,
    pub count: usize,
}

/// The text that lists the channels, and how many of its lines are neither comments nor
/// blank.
pub fn dump_to_csv_file(list: &Vec<Channel>) -> (r: CsvFile)
    ensures
        r.text@ == dump_text(list.deep_view()),
        r.count == content_lines(lines_text(r.text@), lines_text(r.text@).len()),
{
    let ghost rows = list.deep_view();
    let mut out = String::new();
    out.append("# id;title;username\n");
    out.append("# username is optional (without @). One channel per line.\n");
    let ghost head = out@;
    assert(head =~= "# id;title;username\n"@
        + "# username is optional (without @). One channel per line.\n"@);
    for i in 0..list.len()
        invariant
            rows == list.deep_view(),
            out@ == head + dump_lines(rows, i as nat),
    {
        let row = &list[i];
        out.append(&show_i64(row.0));
        out.append(";");
        out.append(&row.1);
        out.append(";");
        match &row.2 {
            Some(name) => out.append(name),
            None => {},
        }
        out.append("\n");
        assert(out@ =~= head + dump_lines(rows, (i + 1) as nat));
    }
    let all = lines(&out);
    let ghost views = all.deep_view();
    let mut count: usize = 0;
    for i in 0..all.len()
        invariant
            views == all.deep_view(),
            count <= i,
            count == content_lines(views, i as nat),
    {
        if !starts_with(&all[i], "#") && !trim(&all[i]).as_str().is_empty() {
            count = count + 1;
        }
    }
    CsvFile { text: out, count }
}

/// The file that a first run leaves for the administrator to fill in.
pub const SEED_TEMPLATE: &'static str = "# id;title;username\n# Example:\n# -1001234567890;My News Channel;mynewschannel\n# -1009876543210;Another Channel;\n";

/// The text to seed the list of channels with, if the file is missing, and how many
/// channels it lists.
pub fn ensure_seed_file(exists: bool, list: &Vec<Channel>) -> (r: Option<CsvFile>)
    ensures
        match r {
            None => exists,
            Some(file) => {
                &&& !exists
                &&& list@.len() == 0 ==> file.text@ == SEED_TEMPLATE@ && file.count == 0
                &&& list@.len() > 0 ==> file.text@ == dump_text(list.deep_view()) && file.count
                    == content_lines(lines_text(file.text@), lines_text(file.text@).len())
            },
        },
{
    if exists {
        return None;
    }
    if list.is_empty() {
        return Some(CsvFile { text: SEED_TEMPLATE.to_string(), count: 0 });
    }
    Some(dump_to_csv_file(list))
}

// ---------------------------------------------------------------------------
// What is written is read back
// ---------------------------------------------------------------------------

/// Whether a channel can be told from its line: its title is not empty and has neither
/// a semicolon, a line feed nor white space around it; a username is not empty and has
/// neither a line feed nor white space or `@` signs around it.
pub open spec fn can_be_listed(row: ChannelView) -> bool {
    &&& row.1.len() > 0
    &&& trim_text(row.1) == row.1
    &&& has_none(row.1, CharKind::Semicolon)
    &&& has_none(row.1, CharKind::LineFeed)
    &&& row.2 matches Some(name) ==> {
        &&& name.len() > 0
        &&& trim_text(name) == name
        &&& trim_both_text(name, CharKind::At) == name
        &&& has_none(name, CharKind::LineFeed)
    }
}

/// The username on a line; empty where there is none.
spec fn name_or_empty(row: ChannelView) -> Seq<char> {
    match row.2 {
        Some(name) => name,
        None => seq![],
    }
}

/// The line of a channel without its ending.
spec fn dump_body(row: ChannelView) -> Seq<char> {
    int_text(row.0 as int) + ";"@ + row.1 + ";"@ + name_or_empty(row)
}

proof fn lemma_marks()
    ensures
        ";"@ =~= seq![';'],
        "\n"@ =~= seq!['\n'],
        "#"@ =~= seq!['#'],
{
    reveal_strlit(";");
    reveal_strlit("\n");
    reveal_strlit("#");
}

proof fn lemma_dump_body(row: ChannelView)
    requires
        can_be_listed(row),
    ensures
        dump_line(row) == dump_body(row).push('\n'),
        has_none(dump_body(row), CharKind::LineFeed),
        dump_body(row).len() > 0,
        dump_body(row)[0] == int_text(row.0 as int)[0],
        !is_white_space(dump_body(row)[0]),
        !is_white_space(dump_body(row).last()),
        without_return(dump_body(row)) == dump_body(row),
        trim_text(dump_body(row)) == dump_body(row),
        !is_blank_or_comment(dump_body(row)),
{
    let id = int_text(row.0 as int);
    let name = name_or_empty(row);
    let body = dump_body(row);
    lemma_marks();
    int_text_is_digits(row.0 as int);
    assert(dump_line(row) =~= body.push('\n'));
    assert(body =~= id + (seq![';'] + row.1 + seq![';'] + name));
    assert(body[0] == id[0]);
    assert forall|i: int| 0 <= i < body.len() implies !CharKind::LineFeed.holds(
        #[trigger] body[i],
    ) by {
        if i < id.len() {
            assert(body[i] == id[i]);
        } else if i == id.len() {
            assert(body[i] == ';');
        } else if i < id.len() + 1 + row.1.len() {
            assert(body[i] == row.1[i - id.len() - 1]);
        } else if i == id.len() + 1 + row.1.len() {
            assert(body[i] == ';');
        } else {
            assert(body[i] == name[i - id.len() - row.1.len() - 2]);
        }
    }
    if name.len() > 0 {
        trimmed_has_no_ends(name, CharKind::Space);
        assert(body.last() == name.last());
    } else {
        assert(body.last() == ';');
    }
    trim_leaves_trimmed(body, CharKind::Space);
    assert(!("#"@.is_prefix_of(body))) by {
        if "#"@.is_prefix_of(body) {
            assert(body.subrange(0, 1)[0] == '#');
        }
    }
}

proof fn lemma_dump_columns(row: ChannelView)
    requires
        can_be_listed(row),
    ensures
        columns_text(dump_body(row), 3) == seq![
            int_text(row.0 as int),
            row.1,
            name_or_empty(row),
        ],
{
    let id = int_text(row.0 as int);
    let name = name_or_empty(row);
    let body = dump_body(row);
    let kind = CharKind::Semicolon;
    lemma_marks();
    int_text_is_digits(row.0 as int);
    let tail = row.1.push(';') + name;
    assert(body =~= id.push(';') + tail);
    assert(has_none(id, kind));
    splitn_of_first(id, ';', tail, 3, kind);
    splitn_of_first(row.1, ';', name, 2, kind);
    let parts = splitn_text(body, 3, kind);
    assert(parts =~= seq![id, row.1, name]);
    trim_leaves_trimmed(id, CharKind::Space);
    assert(columns_text(body, 3) =~= seq![id, row.1, name]) by {
        assert(trim_text(name) == name);
    }
}

/// The line of a channel says that channel, wherever in a file it stands.
pub proof fn channel_line_is_read(row: ChannelView, n: nat)
    requires
        can_be_listed(row),
    ensures
        channel_line(dump_line(row).drop_last(), n) == LineOf::<ChannelView, CsvErrorView>::Row(
            row,
        ),
{
    let body = dump_body(row);
    lemma_dump_body(row);
    lemma_dump_columns(row);
    assert(dump_line(row).drop_last() =~= body);
    int_text_parses_back(row.0);
    let parts = columns_text(body, 3);
    assert(username_of(parts, 2) == row.2);
    let id = int_text(row.0 as int);
    int_text_is_digits(row.0 as int);
    reveal_strlit("id");
    assert(ascii_lowercase_text(id)[0] != "id"@[0]);
}

spec fn dump_head() -> Seq<char> {
    "# id;title;username\n"@ + "# username is optional (without @). One channel per line.\n"@
}

proof fn lemma_comment(raw: Seq<char>, n: nat)
    requires
        raw.len() > 0,
        raw[0] == '#',
    ensures
        channel_line(raw, n) == LineOf::<ChannelView, CsvErrorView>::Nothing,
        "#"@.is_prefix_of(raw),
{
    lemma_marks();
    trim_keeps_first(raw, CharKind::Space);
    let line = trim_text(raw);
    assert("#"@ =~= line.subrange(0, 1));
    assert("#"@ =~= raw.subrange(0, 1));
}

proof fn lemma_dump_head()
    ensures
        lines_text(dump_head()).len() == 2,
        dump_head().len() > 0,
        dump_head().last() == '\n',
        forall|i: int|
            0 <= i < 2 ==> (#[trigger] lines_text(dump_head())[i]).len() > 0 && lines_text(
                dump_head(),
            )[i][0] == '#',
{
    reveal_strlit("# id;title;username\n");
    reveal_strlit("# username is optional (without @). One channel per line.\n");
    let a = "# id;title;username\n"@;
    let b = "# username is optional (without @). One channel per line.\n"@;
    let x = a.drop_last();
    let y = b.drop_last();
    assert(a =~= x.push('\n'));
    assert(b =~= y.push('\n'));
    assert(has_none(x, CharKind::LineFeed));
    assert(has_none(y, CharKind::LineFeed));
    lines_of_added(Seq::empty(), x);
    assert(Seq::<char>::empty() + x.push('\n') =~= a);
    lines_of_added(a, y);
    assert(a + y.push('\n') =~= dump_head());
    assert(dump_head().last() == b.last());
    assert(x[0] == '#' && y[0] == '#');
    assert(x.len() > 2 && y.len() > 2);
    assert(lines_text(dump_head()) =~= seq![without_return(x), without_return(y)]);
}

proof fn lemma_dump_lines(rows: Seq<ChannelView>, n: nat)
    requires
        n <= rows.len(),
        forall|i: int| 0 <= i < rows.len() ==> can_be_listed(#[trigger] rows[i]),
    ensures
        ({
            let text = dump_head() + dump_lines(rows, n);
            let lines = lines_text(text);
            &&& text.last() == '\n'
            &&& text.len() > 0
            &&& lines.len() == n + 2
            &&& forall|i: int| 0 <= i < 2 ==> (#[trigger] lines[i]).len() > 0 && lines[i][0] == '#'
            &&& forall|i: int| 0 <= i < n ==> #[trigger] lines[i + 2] == dump_body(rows[i])
        }),
    decreases n,
{
    lemma_dump_head();
    if n == 0 {
        assert(dump_head() + dump_lines(rows, 0) =~= dump_head());
    } else {
        let before = dump_head() + dump_lines(rows, (n - 1) as nat);
        let row = rows[n - 1];
        lemma_dump_lines(rows, (n - 1) as nat);
        lemma_dump_body(row);
        let text = dump_head() + dump_lines(rows, n);
        assert(text =~= before + dump_body(row).push('\n'));
        lines_of_added(before, dump_body(row));
        assert forall|i: int| 0 <= i < n implies #[trigger] lines_text(text)[i + 2] == dump_body(
            rows[i],
        ) by {
            if i < n - 1 {
                assert(lines_text(text)[i + 2] == lines_text(before)[i + 2]);
            }
        }
        assert forall|i: int| 0 <= i < 2 implies (#[trigger] lines_text(text)[i]).len() > 0
            && lines_text(text)[i][0] == '#' by {
            assert(lines_text(text)[i] == lines_text(before)[i]);
        }
    }
}

proof fn lemma_channels_read(rows: Seq<ChannelView>, lines: Seq<Seq<char>>, n: nat)
    requires
        n <= rows.len(),
        forall|i: int| 0 <= i < rows.len() ==> can_be_listed(#[trigger] rows[i]),
        lines.len() == rows.len() + 2,
        forall|i: int| 0 <= i < 2 ==> (#[trigger] lines[i]).len() > 0 && lines[i][0] == '#',
        forall|i: int| 0 <= i < rows.len() ==> #[trigger] lines[i + 2] == dump_body(rows[i]),
    ensures
        channels_of_lines(lines, n + 2) == Ok::<Seq<ChannelView>, CsvErrorView>(
            rows.take(n as int),
        ),
        content_lines(lines, n + 2) == n,
    decreases n,
{
    if n == 0 {
        lemma_comment(lines[0], 1);
        lemma_comment(lines[1], 2);
        reveal_with_fuel(channels_of_lines, 3);
        reveal_with_fuel(content_lines, 3);
        assert(rows.take(0) =~= seq![]);
    } else {
        lemma_channels_read(rows, lines, (n - 1) as nat);
        let row = rows[n - 1];
        assert(lines[n - 1 + 2] == dump_body(row));
        lemma_dump_body(row);
        channel_line_is_read(row, n + 2);
        assert(dump_line(row).drop_last() =~= dump_body(row));
        assert(rows.take(n as int) =~= rows.take(n - 1).push(row));
    }
}

/// The text that lists channels is read back as those channels, and the count given
/// with it is theirs, if each of them can be told from its line.
pub proof fn dump_is_read_back(rows: Seq<ChannelView>)
    requires
        forall|i: int| 0 <= i < rows.len() ==> can_be_listed(#[trigger] rows[i]),
    ensures
        channels_of_text(dump_text(rows)) == Ok::<Seq<ChannelView>, CsvErrorView>(rows),
        content_lines(lines_text(dump_text(rows)), lines_text(dump_text(rows)).len())
            == rows.len(),
{
    lemma_dump_lines(rows, rows.len());
    assert(dump_text(rows) =~= dump_head() + dump_lines(rows, rows.len()));
    lemma_channels_read(rows, lines_text(dump_text(rows)), rows.len());
    assert(rows.take(rows.len() as int) =~= rows);
}

// ---------------------------------------------------------------------------
// What the lines say
// ---------------------------------------------------------------------------

/// The line of a chat of an export is read as that chat, wherever in a file it stands; one
/// without a title, or whose id is no number, is wrong, and its number is told.
pub proof fn exported_lines_are_read(
    ctype: Seq<char>,
    id: i64,
    title: Seq<char>,
    name: Seq<char>,
    n: nat,
    other: Seq<char>,
)
    requires
        tells_a_chat(ctype, int_text(id as int), title, name),
        trim_text(ctype) == ctype,
        trim_text(title) == title,
        trim_text(name) == name,
        title.len() > 0,
        has_none(other, CharKind::Semicolon),
        trim_text(other) == other,
        parse_i64_text(other) is None,
    ensures
        ({
            let username = trim_both_text(name, CharKind::At);
            chat_line(chat_line_text(ctype, int_text(id as int), title, name), n) == LineOf::<
                ChatView,
                CsvErrorView,
            >::Row(
                (
                    id,
                    title,
                    if username.len() > 0 {
                        Some(username)
                    } else {
                        None
                    },
                    ascii_lowercase_text(ctype),
                ),
            )
        }),
        chat_line(chat_line_text(ctype, other, title, name), n) == LineOf::<
            ChatView,
            CsvErrorView,
        >::Wrong(CsvErrorOf::InvalidId { line: n as usize, id: other }),
        chat_line(
            chat_line_text(ctype, int_text(id as int), Seq::<char>::empty(), name),
            n,
        ) == LineOf::<ChatView, CsvErrorView>::Wrong(
            CsvErrorOf::TitleRequired { line: n as usize },
        ),
{
    let digits = int_text(id as int);
    let none = Seq::<char>::empty();
    int_text_parses_back(id);
    int_text_is_digits(id as int);
    trim_leaves_trimmed(digits, CharKind::Space);
    lines_of_chats_are_read(ctype, digits, title, name, n == 1);
    columns_are_between_semicolons(ctype, digits, title, none, name);
    lines_of_chats_are_read(ctype, other, title, name, n == 1);
    columns_are_between_semicolons(ctype, other, title, none, name);
    lines_of_chats_are_read(ctype, digits, none, name, n == 1);
    columns_are_between_semicolons(ctype, digits, none, none, name);
    assert(trim_text(none).len() == 0);
}

proof fn lemma_channels(lines: Seq<Seq<char>>, n: nat)
    requires
        n <= lines.len(),
    ensures
        channels_of_lines(lines, n) matches Ok(rows) ==> {
            &&& forall|i: int|
                0 <= i < n ==> !((channel_line(#[trigger] lines[i], (i + 1) as nat)) is Wrong)
            &&& forall|row: ChannelView| #[trigger]
                rows.contains(row) <==> exists|i: int|
                    0 <= i < n && channel_line(#[trigger] lines[i], (i + 1) as nat) == LineOf::<
                        ChannelView,
                        CsvErrorView,
                    >::Row(row)
            &&& rows.len() <= n
        },
        channels_of_lines(lines, n) matches Err(e) ==> exists|i: int|
            0 <= i < n && channel_line(#[trigger] lines[i], (i + 1) as nat) == LineOf::<
                ChannelView,
                CsvErrorView,
            >::Wrong(e) && forall|j: int|
                0 <= j < i ==> !((channel_line(#[trigger] lines[j], (j + 1) as nat)) is Wrong),
    decreases n,
{
    if n > 0 {
        lemma_channels(lines, (n - 1) as nat);
        let last = channel_line(lines[n - 1], n);
        match channels_of_lines(lines, (n - 1) as nat) {
            Ok(before) => {
                match channels_of_lines(lines, n) {
                    Ok(rows) => {
                        assert forall|row: ChannelView| #[trigger]
                            rows.contains(row) <==> exists|i: int|
                                0 <= i < n && channel_line(#[trigger] lines[i], (i + 1) as nat)
                                    == LineOf::<ChannelView, CsvErrorView>::Row(row) by {
                            let said = LineOf::<ChannelView, CsvErrorView>::Row(row);
                            if before.contains(row) {
                                let k = choose|k: int| 0 <= k < before.len() && before[k] == row;
                                assert(rows[k] == row);
                                let i = choose|i: int|
                                    0 <= i < n - 1 && channel_line(
                                        #[trigger] lines[i],
                                        (i + 1) as nat,
                                    ) == said;
                                assert(channel_line(lines[i], (i + 1) as nat) == said);
                            }
                            if last == said {
                                assert(rows[rows.len() - 1] == row);
                                assert(channel_line(lines[n - 1], (n - 1 + 1) as nat) == said);
                            }
                            if rows.contains(row) && !before.contains(row) {
                                let k = choose|k: int| 0 <= k < rows.len() && rows[k] == row;
                                assert(k == rows.len() - 1);
                                assert(channel_line(lines[n - 1], (n - 1 + 1) as nat) == said);
                            }
                            if exists|i: int|
                                0 <= i < n && channel_line(#[trigger] lines[i], (i + 1) as nat)
                                    == said {
                                let i = choose|i: int|
                                    0 <= i < n && channel_line(#[trigger] lines[i], (i + 1) as nat)
                                        == said;
                                if i < n - 1 {
                                    assert(before.contains(row));
                                }
                            }
                        }
                    },
                    Err(e) => {
                        assert(channel_line(lines[n - 1], (n - 1 + 1) as nat) == LineOf::<
                            ChannelView,
                            CsvErrorView,
                        >::Wrong(e));
                    },
                }
            },
            Err(e) => {
                let i = choose|i: int|
                    0 <= i < n - 1 && channel_line(#[trigger] lines[i], (i + 1) as nat) == LineOf::<
                        ChannelView,
                        CsvErrorView,
                    >::Wrong(e) && forall|j: int|
                        0 <= j < i ==> !((channel_line(#[trigger] lines[j], (j + 1) as nat)) is Wrong);
                assert(channel_line(lines[i], (i + 1) as nat) is Wrong);
            },
        }
    }
}

/// A text lists the channels of all its lines that tell one, and no other, if none of its
/// lines is wrong; else it lists none, and the first line that is wrong tells why.
pub proof fn one_wrong_line_is_enough(csv: Seq<char>, row: ChannelView)
    ensures
        ({
            let lines = lines_text(csv);
            &&& channels_of_text(csv) is Ok <==> forall|i: int|
                0 <= i < lines.len() ==> !((channel_line(
                    #[trigger] lines[i],
                    (i + 1) as nat,
                )) is Wrong)
            &&& channels_of_text(csv) matches Ok(rows) ==> (rows.contains(row) <==> exists|i: int|
                0 <= i < lines.len() && channel_line(#[trigger] lines[i], (i + 1) as nat)
                    == LineOf::<ChannelView, CsvErrorView>::Row(row))
            &&& channels_of_text(csv) matches Err(e) ==> exists|i: int|
                0 <= i < lines.len() && channel_line(#[trigger] lines[i], (i + 1) as nat)
                    == LineOf::<ChannelView, CsvErrorView>::Wrong(e) && forall|j: int|
                    0 <= j < i ==> !((channel_line(#[trigger] lines[j], (j + 1) as nat)) is Wrong)
        }),
{
    lemma_channels(lines_text(csv), lines_text(csv).len());
}

/// A line whose id is no number, or that has no title, is wrong, and its number is told, but
/// for the first line, which may name its columns: that is nothing, and so are blank lines
/// and comments.
pub proof fn wrong_lines_are_told(id: i64, title: Seq<char>, other: Seq<char>, n: nat)
    requires
        has_none(other, CharKind::Semicolon),
        other.len() > 0,
        trim_text(other) == other,
        other[0] != '#',
        parse_i64_text(other) is None,
        title.len() > 0,
        !is_white_space(title.last()),
        n > 1,
    ensures
        channel_line(other.push(';') + title, n) == LineOf::<ChannelView, CsvErrorView>::Wrong(
            CsvErrorOf::InvalidId { line: n as usize, id: other },
        ),
        !is_digit(other[0]) ==> channel_line(other.push(';') + title, 1) == LineOf::<
            ChannelView,
            CsvErrorView,
        >::Nothing,
        is_digit(other[0]) && ascii_lowercase_text(other) != "id"@ ==> channel_line(
            other.push(';') + title,
            1,
        ) is Wrong,
        channel_line(int_text(id as int).push(';'), n) == LineOf::<ChannelView, CsvErrorView>::Wrong(
            CsvErrorOf::TitleRequired { line: n as usize },
        ),
        channel_line(int_text(id as int).push(';'), 1) == LineOf::<ChannelView, CsvErrorView>::Wrong(
            CsvErrorOf::TitleRequired { line: 1 },
        ),
        channel_line(Seq::<char>::empty(), n) is Nothing,
        channel_line(seq!['#'] + title, n) is Nothing,
{
    let kind = CharKind::Semicolon;
    let line = other.push(';') + title;
    lemma_marks();
    trimmed_has_no_ends(other, CharKind::Space);
    assert(line[0] == other[0] && line.last() == title.last());
    trim_leaves_trimmed(line, CharKind::Space);
    splitn_of_first(other, ';', title, 3, kind);
    assert(columns_text(line, 3)[0] == other);
    if "#"@.is_prefix_of(line) {
        assert(line.subrange(0, 1)[0] == '#');
    }
    let digits = int_text(id as int);
    let none = Seq::<char>::empty();
    let bare = digits.push(';');
    int_text_parses_back(id);
    int_text_is_digits(id as int);
    trim_leaves_trimmed(digits, CharKind::Space);
    trim_leaves_trimmed(bare, CharKind::Space);
    assert(bare[0] == digits[0]);
    assert(digits.push(';') + none =~= bare);
    splitn_of_first(digits, ';', none, 3, kind);
    lemma_find(none, kind);
    assert(splitn_text(none, 2, kind) =~= seq![none]);
    assert(splitn_text(bare, 3, kind) =~= seq![digits, none]);
    assert(trim_text(none).len() == 0);
    assert(columns_text(bare, 3)[0] == digits && columns_text(bare, 3)[1].len() == 0);
    if "#"@.is_prefix_of(bare) {
        assert(bare.subrange(0, 1)[0] == '#');
    }
    reveal_strlit("id");
    assert(ascii_lowercase_text(digits)[0] != "id"@[0]);
    lemma_comment(seq!['#'] + title, n);
}

/// A subscription is active until the moment that it was paid until, and not from then on;
/// without one it is not.
pub proof fn active_until_it_ends(until: i64, now: i64)
    ensures
        is_active(Some(until), now) <==> now < until,
        !is_active(None, now),
{
}

proof fn lemma_chats(lines: Seq<Seq<char>>, n: nat)
    requires
        n <= lines.len(),
    ensures
        chats_of_lines(lines, n) matches Ok(rows) ==> {
            &&& forall|i: int|
                0 <= i < n ==> !((chat_line(#[trigger] lines[i], (i + 1) as nat)) is Wrong)
            &&& forall|row: ChatView| #[trigger]
                rows.contains(row) <==> exists|i: int|
                    0 <= i < n && chat_line(#[trigger] lines[i], (i + 1) as nat) == LineOf::<
                        ChatView,
                        CsvErrorView,
                    >::Row(row)
            &&& rows.len() <= n
        },
        chats_of_lines(lines, n) matches Err(e) ==> exists|i: int|
            0 <= i < n && chat_line(#[trigger] lines[i], (i + 1) as nat) == LineOf::<
                ChatView,
                CsvErrorView,
            >::Wrong(e) && forall|j: int|
                0 <= j < i ==> !((chat_line(#[trigger] lines[j], (j + 1) as nat)) is Wrong),
    decreases n,
{
    if n > 0 {
        lemma_chats(lines, (n - 1) as nat);
        let last = chat_line(lines[n - 1], n);
        match chats_of_lines(lines, (n - 1) as nat) {
            Ok(before) => {
                match chats_of_lines(lines, n) {
                    Ok(rows) => {
                        assert forall|row: ChatView| #[trigger]
                            rows.contains(row) <==> exists|i: int|
                                0 <= i < n && chat_line(#[trigger] lines[i], (i + 1) as nat)
                                    == LineOf::<ChatView, CsvErrorView>::Row(row) by {
                            let said = LineOf::<ChatView, CsvErrorView>::Row(row);
                            if before.contains(row) {
                                let k = choose|k: int| 0 <= k < before.len() && before[k] == row;
                                assert(rows[k] == row);
                                let i = choose|i: int|
                                    0 <= i < n - 1 && chat_line(
                                        #[trigger] lines[i],
                                        (i + 1) as nat,
                                    ) == said;
                                assert(chat_line(lines[i], (i + 1) as nat) == said);
                            }
                            if last == said {
                                assert(rows[rows.len() - 1] == row);
                                assert(chat_line(lines[n - 1], (n - 1 + 1) as nat) == said);
                            }
                            if rows.contains(row) && !before.contains(row) {
                                let k = choose|k: int| 0 <= k < rows.len() && rows[k] == row;
                                assert(k == rows.len() - 1);
                                assert(chat_line(lines[n - 1], (n - 1 + 1) as nat) == said);
                            }
                            if exists|i: int|
                                0 <= i < n && chat_line(#[trigger] lines[i], (i + 1) as nat)
                                    == said {
                                let i = choose|i: int|
                                    0 <= i < n && chat_line(#[trigger] lines[i], (i + 1) as nat)
                                        == said;
                                if i < n - 1 {
                                    assert(before.contains(row));
                                }
                            }
                        }
                    },
                    Err(e) => {
                        assert(chat_line(lines[n - 1], (n - 1 + 1) as nat) == LineOf::<
                            ChatView,
                            CsvErrorView,
                        >::Wrong(e));
                    },
                }
            },
            Err(e) => {
                let i = choose|i: int|
                    0 <= i < n - 1 && chat_line(#[trigger] lines[i], (i + 1) as nat) == LineOf::<
                        ChatView,
                        CsvErrorView,
                    >::Wrong(e) && forall|j: int|
                        0 <= j < i ==> !((chat_line(#[trigger] lines[j], (j + 1) as nat)) is Wrong);
                assert(chat_line(lines[i], (i + 1) as nat) is Wrong);
            },
        }
    }
}

/// An export lists the chats of all its lines that tell one, and no other, if none of its
/// lines is wrong; else it lists none, and the first line that is wrong tells why.
pub proof fn one_wrong_chat_is_enough(csv: Seq<char>, row: ChatView)
    ensures
        ({
            let lines = lines_text(csv);
            &&& chats_of_text(csv) is Ok <==> forall|i: int|
                0 <= i < lines.len() ==> !((chat_line(
                    #[trigger] lines[i],
                    (i + 1) as nat,
                )) is Wrong)
            &&& chats_of_text(csv) matches Ok(rows) ==> (rows.contains(row) <==> exists|i: int|
                0 <= i < lines.len() && chat_line(#[trigger] lines[i], (i + 1) as nat)
                    == LineOf::<ChatView, CsvErrorView>::Row(row))
            &&& chats_of_text(csv) matches Err(e) ==> exists|i: int|
                0 <= i < lines.len() && chat_line(#[trigger] lines[i], (i + 1) as nat)
                    == LineOf::<ChatView, CsvErrorView>::Wrong(e) && forall|j: int|
                    0 <= j < i ==> !((chat_line(#[trigger] lines[j], (j + 1) as nat)) is Wrong)
        }),
{
    lemma_chats(lines_text(csv), lines_text(csv).len());
}


} // verus!
