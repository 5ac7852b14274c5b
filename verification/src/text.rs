//! Text as sequences of characters: trimming, splitting, numbers and order.
use vstd::prelude::*;

verus! {

// ---------------------------------------------------------------------------
// Trusted facts about the standard library
// ---------------------------------------------------------------------------

/// `String::push` appends one character to the end of the string.
pub assume_specification[ String::push ](s: &mut String, c: char)
    ensures
        final(s)@ == old(s)@.push(c),
;

/// Whether a character is in one of Unicode's general categories for numbers.
pub uninterp spec fn numeric_char(c: char) -> bool;

/// `char::is_numeric` depends on the character alone; among the ASCII characters it
/// holds of the ten decimal digits only.
pub assume_specification[ char::is_numeric ](c: char) -> (b: bool)
    ensures
        b == numeric_char(c),
        c as u32 <= 127 ==> b == is_digit(c),
;

/// The lowercase form that Unicode gives to a text.
pub uninterp spec fn lowercase_text(s: Seq<char>) -> Seq<char>;

/// `str::to_lowercase` depends on the text alone; a text of ASCII characters has its
/// letters `A` to `Z` replaced by `a` to `z` and nothing else changed.
pub assume_specification[ str::to_lowercase ](s: &str) -> (r: String)
    ensures
        r@ == lowercase_text(s@),
        (forall|i: int| 0 <= i < s@.len() ==> s@[i] as u32 <= 127) ==> r@ == ascii_lowercase_text(s@),
;

// ---------------------------------------------------------------------------
// Characters
// ---------------------------------------------------------------------------

/// The decimal digits `0` to `9`.
pub open spec fn is_digit(c: char) -> bool {
    '0' <= c && c <= '9'
}

/// The characters with Unicode's `White_Space` property.
pub open spec fn is_white_space(c: char) -> bool {
    let n = c as u32;
    ||| 0x9 <= n <= 0xd
    ||| n == 0x20
    ||| n == 0x85
    ||| n == 0xa0
    ||| n == 0x1680
    ||| 0x2000 <= n <= 0x200a
    ||| n == 0x2028
    ||| n == 0x2029
    ||| n == 0x202f
    ||| n == 0x205f
    ||| n == 0x3000
}

/// The letters `A` to `Z` become `a` to `z`; any other character stays.
pub open spec fn ascii_lowercase_char(c: char) -> char {
    if 'A' <= c && c <= 'Z' {
        (c as u8 + 32) as char
    } else {
        c
    }
}

/// Every character in its ASCII lowercase form.
pub open spec fn ascii_lowercase_text(s: Seq<char>) -> Seq<char> {
    s.map_values(|c: char| ascii_lowercase_char(c))
}

/// The kinds of characters that trimming and splitting look for.
#[derive(Clone, Copy)]
pub enum CharKind {
    /// White space.
    Space,
    /// `@`
    At,
    /// `"`
    Quote,
    /// Neither numeric nor a minus sign.
    Foreign,
    /// `#`
    Hash,
    /// `;`
    Semicolon,
    /// `,` or `;`
    CommaOrSemicolon,
    /// `|` or `,`
    BarOrComma,
    /// The line feed.
    LineFeed,
}

impl CharKind {
    /// Whether the character is of this kind.
    pub open spec fn holds(self, c: char) -> bool {
        match self {
            CharKind::Space => is_white_space(c),
            CharKind::At => c == '@',
            CharKind::Quote => c == '"',
            CharKind::Foreign => !numeric_char(c) && c != '-',
            CharKind::Hash => c == '#',
            CharKind::Semicolon => c == ';',
            CharKind::CommaOrSemicolon => c == ',' || c == ';',
            CharKind::BarOrComma => c == '|' || c == ',',
            CharKind::LineFeed => c == '\n',
        }
    }

    fn test(self, c: char) -> (r: bool)
        ensures
            r == self.holds(c),
    {
        match self {
            CharKind::Space => {
                let n: u32 = c as u32;
                (0x9 <= n && n <= 0xd) || n == 0x20 || n == 0x85 || n == 0xa0 || n == 0x1680 || (
                0x2000 <= n && n <= 0x200a) || n == 0x2028 || n == 0x2029 || n == 0x202f || n
                    == 0x205f || n == 0x3000
            },
            CharKind::At => c == '@',
            CharKind::Quote => c == '"',
            CharKind::Foreign => !c.is_numeric() && c != '-',
            CharKind::Hash => c == '#',
            CharKind::Semicolon => c == ';',
            CharKind::CommaOrSemicolon => c == ',' || c == ';',
            CharKind::BarOrComma => c == '|' || c == ',',
            CharKind::LineFeed => c == '\n',
        }
    }
}

// ---------------------------------------------------------------------------
// Strings and their characters
// ---------------------------------------------------------------------------

/// The characters of a string.
pub fn to_chars(s: &str) -> (r: Vec<char>)
    ensures
        r@ == s@,
{
    let mut r: Vec<char> = Vec::new();
    for c in it: s.chars()
        invariant
            r@ == it.seq().take(it.index() as int),
            it.seq() == s@,
    {
        r.push(c);
    }
    r
}

/// The string made of the characters from `from` up to, not including, `to`.
fn slice(v: &Vec<char>, from: usize, to: usize) -> (r: String)
    requires
        from <= to <= v@.len(),
    ensures
        r@ == v@.subrange(from as int, to as int),
{
    let mut r = String::new();
    for i in from..to
        invariant
            from <= i <= to <= v@.len(),
            r@ == v@.subrange(from as int, i as int),
    {
        r.push(v[i]);
        assert(v@.subrange(from as int, i + 1) == v@.subrange(from as int, i as int).push(v@[i as int]));
    }
    r
}

/// Whether two texts are the same.
pub fn same(a: &str, b: &str) -> (r: bool)
    ensures
        r == (a@ == b@),
{
    a.to_string() == b.to_string()
}

/// One text after the other.
pub fn join2(a: &str, b: &str) -> (r: String)
    ensures
        r@ == a@ + b@,
{
    let mut r = a.to_string();
    r.append(b);
    r
}

/// Three texts, one after the other.
pub fn join3(a: &str, b: &str, c: &str) -> (r: String)
    ensures
        r@ == a@ + b@ + c@,
{
    let mut r = a.to_string();
    r.append(b);
    r.append(c);
    r
}

/// Whether a text begins with the given one.
pub fn starts_with(s: &str, prefix: &str) -> (r: bool)
    ensures
        r == prefix@.is_prefix_of(s@),
{
    let v = to_chars(s);
    let p = to_chars(prefix);
    if p.len() > v.len() {
        return false;
    }
    for i in 0..p.len()
        invariant
            v@ == s@,
            p@ == prefix@,
            p@.len() <= v@.len(),
            forall|j: int| 0 <= j < i ==> p@[j] == v@[j],
    {
        if p[i] != v[i] {
            assert(prefix@.is_prefix_of(s@) ==> s@.subrange(0, prefix@.len() as int)[i as int] == s@[i as int]);
            return false;
        }
    }
    assert(prefix@ =~= s@.subrange(0, prefix@.len() as int));
    true
}

/// What follows `prefix`, if the text begins with it.
pub open spec fn strip_prefix_text(s: Seq<char>, prefix: Seq<char>) -> Option<Seq<char>> {
    if prefix.is_prefix_of(s) {
        Some(s.skip(prefix.len() as int))
    } else {
        None
    }
}

/// What follows `prefix`, if the text begins with it.
pub fn strip_prefix(s: &str, prefix: &str) -> (r: Option<String>)
    ensures
        r.deep_view() == strip_prefix_text(s@, prefix@),
{
    if starts_with(s, prefix) {
        let v = to_chars(s);
        let p = to_chars(prefix);
        let rest = slice(&v, p.len(), v.len());
        assert(rest@ =~= s@.skip(prefix@.len() as int));
        Some(rest)
    } else {
        None
    }
}

/// Every character in its ASCII lowercase form.
pub fn ascii_lowercase(s: &str) -> (r: String)
    ensures
        r@ == ascii_lowercase_text(s@),
{
    let v = to_chars(s);
    let mut r = String::new();
    for i in 0..v.len()
        invariant
            v@ == s@,
            r@ == ascii_lowercase_text(s@.take(i as int)),
    {
        let c = v[i];
        let low = if 'A' <= c && c <= 'Z' {
            (c as u8 + 32u8) as char
        } else {
            c
        };
        r.push(low);
        assert(s@.take(i + 1) =~= s@.take(i as int).push(c));
        assert(ascii_lowercase_text(s@.take(i + 1)) =~= ascii_lowercase_text(s@.take(i as int)).push(low));
    }
    assert(s@.take(v@.len() as int) =~= s@);
    r
}

// ---------------------------------------------------------------------------
// Trimming
// ---------------------------------------------------------------------------

/// The text without its leading characters of the given kind.
pub open spec fn trim_start_text(s: Seq<char>, kind: CharKind) -> Seq<char>
    decreases s.len(),
{
    if s.len() > 0 && kind.holds(s[0]) {
        trim_start_text(s.drop_first(), kind)
    } else {
        s
    }
}

/// The text without its trailing characters of the given kind.
pub open spec fn trim_end_text(s: Seq<char>, kind: CharKind) -> Seq<char>
    decreases s.len(),
{
    if s.len() > 0 && kind.holds(s.last()) {
        trim_end_text(s.drop_last(), kind)
    } else {
        s
    }
}

/// The text without its leading and trailing characters of the given kind.
pub open spec fn trim_both_text(s: Seq<char>, kind: CharKind) -> Seq<char> {
    trim_end_text(trim_start_text(s, kind), kind)
}

/// The text without leading and trailing white space.
pub open spec fn trim_text(s: Seq<char>) -> Seq<char> {
    trim_both_text(s, CharKind::Space)
}

fn trim_start_index(v: &Vec<char>, kind: CharKind) -> (from: usize)
    ensures
        from <= v@.len(),
        v@.skip(from as int) == trim_start_text(v@, kind),
{
    let mut from: usize = 0;
    assert(v@.skip(0) =~= v@);
    while from < v.len() && kind.test(v[from])
        invariant
            from <= v@.len(),
            trim_start_text(v@.skip(from as int), kind) == trim_start_text(v@, kind),
        ensures
            from <= v@.len(),
            trim_start_text(v@.skip(from as int), kind) == trim_start_text(v@, kind),
            from < v@.len() ==> !kind.holds(v@[from as int]),
        decreases v@.len() - from,
    {
        assert(v@.skip(from as int).drop_first() =~= v@.skip(from + 1));
        from = from + 1;
    }
    from
}

/// The text without its leading characters of the given kind.
pub fn trim_start(s: &str, kind: CharKind) -> (r: String)
    ensures
        r@ == trim_start_text(s@, kind),
{
    let v = to_chars(s);
    let from = trim_start_index(&v, kind);
    assert(v@.skip(from as int) =~= v@.subrange(from as int, v@.len() as int));
    slice(&v, from, v.len())
}

/// The text without its leading and trailing characters of the given kind.
pub fn trim_both(s: &str, kind: CharKind) -> (r: String)
    ensures
        r@ == trim_both_text(s@, kind),
{
    let v = to_chars(s);
    let from = trim_start_index(&v, kind);
    let mut to: usize = v.len();
    assert(v@.skip(from as int) =~= v@.subrange(from as int, v@.len() as int));
    while from < to && kind.test(v[to - 1])
        invariant
            from <= to <= v@.len(),
            trim_end_text(v@.subrange(from as int, to as int), kind) == trim_both_text(v@, kind),
        ensures
            from <= to <= v@.len(),
            trim_end_text(v@.subrange(from as int, to as int), kind) == trim_both_text(v@, kind),
            from < to ==> !kind.holds(v@[to - 1]),
        decreases to,
    {
        assert(v@.subrange(from as int, to as int).drop_last() =~= v@.subrange(
            from as int,
            to - 1,
        ));
        to = to - 1;
    }
    slice(&v, from, to)
}

/// The text without leading and trailing white space.
pub fn trim(s: &str) -> (r: String)
    ensures
        r@ == trim_text(s@),
{
    trim_both(s, CharKind::Space)
}

/// The text without leading white space, trailing white space, and the `@` signs that
/// then lead it.
pub open spec fn handle_text(s: Seq<char>) -> Seq<char> {
    trim_start_text(trim_text(s), CharKind::At)
}

/// The name in a handle that may be written with leading `@` signs, in lowercase.
pub open spec fn handle_key(s: Seq<char>) -> Seq<char> {
    lowercase_text(handle_text(s))
}

/// The name in a handle that may be written with leading `@` signs, in lowercase.
pub fn handle(s: &str) -> (r: String)
    ensures
        r@ == handle_key(s@),
{
    trim_start(&trim(s), CharKind::At).to_lowercase()
}

// ---------------------------------------------------------------------------
// Splitting
// ---------------------------------------------------------------------------

/// The index of the first character of the given kind, or the length if there is none.
pub open spec fn find_text(s: Seq<char>, kind: CharKind) -> nat
    decreases s.len(),
{
    if s.len() == 0 || kind.holds(s[0]) {
        0
    } else {
        1 + find_text(s.drop_first(), kind)
    }
}

/// The index that `find_text` gives is one of the text, or its length; there stands the
/// first character of the kind.
pub proof fn lemma_find(s: Seq<char>, kind: CharKind)
    ensures
        find_text(s, kind) <= s.len(),
        find_text(s, kind) < s.len() ==> kind.holds(s[find_text(s, kind) as int]),
        forall|i: int| 0 <= i < find_text(s, kind) ==> !kind.holds(#[trigger] s[i]),
    decreases s.len(),
{
    if s.len() == 0 || kind.holds(s[0]) {
    } else {
        lemma_find(s.drop_first(), kind);
        assert forall|i: int| 0 <= i < find_text(s, kind) implies !kind.holds(#[trigger] s[i]) by {
            if i > 0 {
                assert(s[i] == s.drop_first()[i - 1]);
            }
        }
    }
}

/// The parts between the characters of the given kind, in order.
pub open spec fn split_text(s: Seq<char>, kind: CharKind) -> Seq<Seq<char>>
    decreases s.len(),
    via split_text_decreases
{
    let at = find_text(s, kind) as int;
    if at >= s.len() {
        seq![s]
    } else {
        seq![s.take(at)] + split_text(s.skip(at + 1), kind)
    }
}

#[via_fn]
proof fn split_text_decreases(s: Seq<char>, kind: CharKind) {
    lemma_find(s, kind);
}

/// At most `n` parts: the last one is all that is left.
pub open spec fn splitn_text(s: Seq<char>, n: nat, kind: CharKind) -> Seq<Seq<char>>
    decreases n,
{
    let at = find_text(s, kind) as int;
    if n == 0 {
        seq![]
    } else if n == 1 || at >= s.len() {
        seq![s]
    } else {
        seq![s.take(at)] + splitn_text(s.skip(at + 1), (n - 1) as nat, kind)
    }
}

/// The text without one trailing carriage return.
pub open spec fn without_return(s: Seq<char>) -> Seq<char> {
    if s.len() > 0 && s.last() == '\r' {
        s.drop_last()
    } else {
        s
    }
}

/// The lines of a text, without their endings. A line ends with a line feed, which a
/// carriage return may precede; the ending of the last line may be missing.
pub open spec fn lines_text(s: Seq<char>) -> Seq<Seq<char>>
    decreases s.len(),
    via lines_text_decreases
{
    let at = find_text(s, CharKind::LineFeed) as int;
    if s.len() == 0 {
        seq![]
    } else if at >= s.len() {
        seq![s]
    } else {
        seq![without_return(s.take(at))] + lines_text(s.skip(at + 1))
    }
}

#[via_fn]
proof fn lines_text_decreases(s: Seq<char>) {
    lemma_find(s, CharKind::LineFeed);
}

fn find_from(v: &Vec<char>, start: usize, kind: CharKind) -> (at: usize)
    requires
        start <= v@.len(),
    ensures
        start <= at <= v@.len(),
        at - start == find_text(v@.skip(start as int), kind),
{
    let mut at: usize = start;
    while at < v.len() && !kind.test(v[at])
        invariant
            start <= at <= v@.len(),
            find_text(v@.skip(start as int), kind) == at - start + find_text(v@.skip(at as int), kind),
        ensures
            start <= at <= v@.len(),
            find_text(v@.skip(start as int), kind) == at - start + find_text(v@.skip(at as int), kind),
            at < v@.len() ==> kind.holds(v@[at as int]),
        decreases v@.len() - at,
    {
        assert(v@.skip(at as int).drop_first() =~= v@.skip(at + 1));
        at = at + 1;
    }
    at
}

/// The parts between the characters of the given kind, in order.
pub fn split(s: &str, kind: CharKind) -> (r: Vec<String>)
    ensures
        r.deep_view() == split_text(s@, kind),
{
    let v = to_chars(s);
    let mut r: Vec<String> = Vec::new();
    let mut start: usize = 0;
    assert(v@.skip(0) =~= v@);
    assert(r.deep_view() + split_text(v@, kind) =~= split_text(v@, kind));
    loop
        invariant
            v@ == s@,
            start <= v@.len(),
            r.deep_view() + split_text(v@.skip(start as int), kind) == split_text(s@, kind),
        decreases v@.len() - start,
    {
        let at = find_from(&v, start, kind);
        let ghost before = r.deep_view();
        let ghost rest = v@.skip(start as int);
        r.push(slice(&v, start, at));
        assert(v@.subrange(start as int, at as int) =~= rest.take(at - start));
        assert(r.deep_view() =~= before.push(rest.take(at - start)));
        if at == v.len() {
            assert(rest.take(at - start) =~= rest);
            assert(r.deep_view() =~= before + split_text(rest, kind));
            return r;
        }
        assert(rest.skip(at - start + 1) =~= v@.skip(at + 1));
        assert(r.deep_view() + split_text(v@.skip(at + 1), kind) =~= before + split_text(rest, kind));
        start = at + 1;
    }
}

/// At most `n` parts: the last one is all that is left.
pub fn splitn(s: &str, n: usize, kind: CharKind) -> (r: Vec<String>)
    requires
        n > 0,
    ensures
        r.deep_view() == splitn_text(s@, n as nat, kind),
{
    let v = to_chars(s);
    let mut r: Vec<String> = Vec::new();
    let mut start: usize = 0;
    let mut left: usize = n;
    assert(v@.skip(0) =~= v@);
    assert(r.deep_view() + splitn_text(v@, n as nat, kind) =~= splitn_text(v@, n as nat, kind));
    loop
        invariant
            v@ == s@,
            start <= v@.len(),
            left > 0,
            r.deep_view() + splitn_text(v@.skip(start as int), left as nat, kind) == splitn_text(
                s@,
                n as nat,
                kind,
            ),
        decreases left,
    {
        let at = if left == 1 {
            v.len()
        } else {
            find_from(&v, start, kind)
        };
        let ghost before = r.deep_view();
        let ghost rest = v@.skip(start as int);
        r.push(slice(&v, start, at));
        assert(v@.subrange(start as int, at as int) =~= rest.take(at - start));
        assert(r.deep_view() =~= before.push(rest.take(at - start)));
        if at == v.len() {
            assert(rest.take(at - start) =~= rest);
            assert(r.deep_view() =~= before + splitn_text(rest, left as nat, kind));
            return r;
        }
        assert(rest.skip(at - start + 1) =~= v@.skip(at + 1));
        assert(r.deep_view() + splitn_text(v@.skip(at + 1), (left - 1) as nat, kind) =~= before
            + splitn_text(rest, left as nat, kind));
        start = at + 1;
        left = left - 1;
    }
}

/// The lines of a text, without their endings.
pub fn lines(s: &str) -> (r: Vec<String>)
    ensures
        r.deep_view() == lines_text(s@),
{
    let v = to_chars(s);
    let mut r: Vec<String> = Vec::new();
    let mut start: usize = 0;
    assert(v@.skip(0) =~= v@);
    assert(r.deep_view() + lines_text(v@) =~= lines_text(v@));
    while start < v.len()
        invariant
            v@ == s@,
            start <= v@.len(),
            r.deep_view() + lines_text(v@.skip(start as int)) == lines_text(s@),
        decreases v@.len() - start,
    {
        let at = find_from(&v, start, CharKind::LineFeed);
        let ghost before = r.deep_view();
        let ghost rest = v@.skip(start as int);
        if at == v.len() {
            r.push(slice(&v, start, at));
            assert(v@.subrange(start as int, at as int) =~= rest);
            assert(r.deep_view() =~= before + lines_text(rest));
            return r;
        }
        let to = if at > start && v[at - 1] == '\r' {
            at - 1
        } else {
            at
        };
        r.push(slice(&v, start, to));
        assert(v@.subrange(start as int, to as int) =~= without_return(rest.take(at - start)));
        assert(r.deep_view() =~= before.push(without_return(rest.take(at - start))));
        assert(rest.skip(at - start + 1) =~= v@.skip(at + 1));
        assert(r.deep_view() + lines_text(v@.skip(at + 1)) =~= before + lines_text(rest));
        start = at + 1;
    }
    assert(v@.skip(start as int) =~= Seq::<char>::empty());
    assert(r.deep_view() + lines_text(v@.skip(start as int)) =~= r.deep_view());
    r
}

// ---------------------------------------------------------------------------
// Facts
// ---------------------------------------------------------------------------

/// Trimming leaves a text alone that begins and ends with other characters.
pub proof fn trim_leaves_trimmed(s: Seq<char>, kind: CharKind)
    requires
        s.len() > 0,
        !kind.holds(s[0]),
        !kind.holds(s.last()),
    ensures
        trim_both_text(s, kind) == s,
{
}

proof fn lemma_trim_end_shrinks(s: Seq<char>, kind: CharKind)
    ensures
        trim_end_text(s, kind).len() <= s.len(),
    decreases s.len(),
{
    if s.len() > 0 && kind.holds(s.last()) {
        lemma_trim_end_shrinks(s.drop_last(), kind);
    }
}

proof fn lemma_trim_start_shrinks(s: Seq<char>, kind: CharKind)
    ensures
        trim_start_text(s, kind).len() <= s.len(),
    decreases s.len(),
{
    if s.len() > 0 && kind.holds(s[0]) {
        lemma_trim_start_shrinks(s.drop_first(), kind);
    }
}

/// A text that trimming leaves alone begins and ends with other characters.
pub proof fn trimmed_has_no_ends(s: Seq<char>, kind: CharKind)
    requires
        s.len() > 0,
        trim_both_text(s, kind) == s,
    ensures
        !kind.holds(s[0]),
        !kind.holds(s.last()),
{
    if kind.holds(s[0]) {
        lemma_trim_start_shrinks(s.drop_first(), kind);
        lemma_trim_end_shrinks(trim_start_text(s, kind), kind);
    } else if kind.holds(s.last()) {
        lemma_trim_end_shrinks(s.drop_last(), kind);
    }
}

proof fn lemma_trim_end_keeps_first(s: Seq<char>, kind: CharKind)
    requires
        s.len() > 0,
        !kind.holds(s[0]),
    ensures
        trim_end_text(s, kind).len() > 0,
        trim_end_text(s, kind)[0] == s[0],
    decreases s.len(),
{
    if kind.holds(s.last()) {
        assert(s.len() > 1);
        lemma_trim_end_keeps_first(s.drop_last(), kind);
    }
}

/// Trimming leaves the first character in its place if it is of another kind.
pub proof fn trim_keeps_first(s: Seq<char>, kind: CharKind)
    requires
        s.len() > 0,
        !kind.holds(s[0]),
    ensures
        trim_both_text(s, kind).len() > 0,
        trim_both_text(s, kind)[0] == s[0],
{
    lemma_trim_end_keeps_first(s, kind);
}

/// Whether no character of a text is of the given kind.
pub open spec fn has_none(s: Seq<char>, kind: CharKind) -> bool {
    forall|i: int| 0 <= i < s.len() ==> !kind.holds(#[trigger] s[i])
}

/// A character of the kind behind a text that has none is the first one.
pub proof fn find_behind(a: Seq<char>, c: char, rest: Seq<char>, kind: CharKind)
    requires
        has_none(a, kind),
        kind.holds(c),
    ensures
        find_text(a.push(c) + rest, kind) == a.len(),
{
    let s = a.push(c) + rest;
    let f = find_text(s, kind);
    lemma_find(s, kind);
    assert(s[a.len() as int] == c);
    if f < a.len() {
        assert(s[f as int] == a[f as int]);
    }
}

/// The lines of a text that begins with a line.
pub proof fn lines_of_first(a: Seq<char>, rest: Seq<char>)
    requires
        has_none(a, CharKind::LineFeed),
    ensures
        lines_text(a.push('\n') + rest) == seq![without_return(a)] + lines_text(rest),
{
    let s = a.push('\n') + rest;
    find_behind(a, '\n', rest, CharKind::LineFeed);
    assert(s.take(a.len() as int) =~= a);
    assert(s.skip(a.len() as int + 1) =~= rest);
}

/// The lines of a text to which a line is added. The text is empty or ends with a line
/// feed.
pub proof fn lines_of_added(s: Seq<char>, a: Seq<char>)
    requires
        s.len() == 0 || s.last() == '\n',
        has_none(a, CharKind::LineFeed),
    ensures
        lines_text(s + a.push('\n')) == lines_text(s).push(without_return(a)),
    decreases s.len(),
{
    if s.len() == 0 {
        lines_of_first(a, Seq::empty());
        assert(a.push('\n') + Seq::<char>::empty() =~= s + a.push('\n'));
        assert(seq![without_return(a)] + lines_text(Seq::empty()) =~= lines_text(s).push(
            without_return(a),
        ));
    } else {
        let at = find_text(s, CharKind::LineFeed) as int;
        lemma_find(s, CharKind::LineFeed);
        if at == s.len() {
            assert(!CharKind::LineFeed.holds(s[s.len() - 1]));
        }
        let first = s.take(at);
        let rest = s.skip(at + 1);
        assert forall|i: int| 0 <= i < first.len() implies !CharKind::LineFeed.holds(
            #[trigger] first[i],
        ) by {
            assert(first[i] == s[i]);
        }
        assert(s =~= first.push('\n') + rest);
        assert(s + a.push('\n') =~= first.push('\n') + (rest + a.push('\n')));
        if rest.len() > 0 {
            assert(rest.last() == s.last());
        }
        lines_of_first(first, rest);
        lines_of_first(first, rest + a.push('\n'));
        lines_of_added(rest, a);
        assert(seq![without_return(first)] + lines_text(rest).push(without_return(a)) =~= (seq![
            without_return(first),
        ] + lines_text(rest)).push(without_return(a)));
    }
}

/// The parts of a text that begins with a part, split at most once more than its rest.
pub proof fn splitn_of_first(a: Seq<char>, c: char, rest: Seq<char>, n: nat, kind: CharKind)
    requires
        n > 1,
        has_none(a, kind),
        kind.holds(c),
    ensures
        splitn_text(a.push(c) + rest, n, kind) == seq![a] + splitn_text(
            rest,
            (n - 1) as nat,
            kind,
        ),
{
    let s = a.push(c) + rest;
    find_behind(a, c, rest, kind);
    assert(s.take(a.len() as int) =~= a);
    assert(s.skip(a.len() as int + 1) =~= rest);
}

// ---------------------------------------------------------------------------
// What the operations on texts do
// ---------------------------------------------------------------------------

/// The kinds of characters are what they are called.
pub proof fn kinds_are_as_named(c: char)
    ensures
        CharKind::At.holds(c) <==> c == '@',
        CharKind::Quote.holds(c) <==> c == '"',
        CharKind::Hash.holds(c) <==> c == '#',
        CharKind::Semicolon.holds(c) <==> c == ';',
        CharKind::CommaOrSemicolon.holds(c) <==> c == ',' || c == ';',
        CharKind::BarOrComma.holds(c) <==> c == '|' || c == ',',
        CharKind::LineFeed.holds(c) <==> c == '\n',
        CharKind::Foreign.holds('-') == false,
        numeric_char(c) ==> !CharKind::Foreign.holds(c),
        !numeric_char(c) && c != '-' ==> CharKind::Foreign.holds(c),
        c as u32 <= 127 ==> (CharKind::Space.holds(c) <==> c == ' ' || c == '\t' || c == '\n' || c
            == '\r' || c as u32 == 0xb || c as u32 == 0xc),
        c as u32 == 0xa0 || c as u32 == 0x3000 || c as u32 == 0x2028 ==> CharKind::Space.holds(c),
        0x3000 < c as u32 ==> !CharKind::Space.holds(c),
{
}

/// The letters `A` to `Z` become their small forms, in order, and nothing else changes; so
/// that a text is no different in any other case of its letters.
pub proof fn small_letters(s: Seq<char>, i: int)
    requires
        0 <= i < s.len(),
    ensures
        ascii_lowercase_text(s).len() == s.len(),
        'A' <= s[i] <= 'Z' ==> ascii_lowercase_text(s)[i] as int - 'a' as int == s[i] as int
            - 'A' as int,
        !('A' <= s[i] <= 'Z') ==> ascii_lowercase_text(s)[i] == s[i],
        !('A' <= ascii_lowercase_text(s)[i] <= 'Z'),
{
}

/// Trimming takes away the characters of a kind at the ends, all of them, and nothing else:
/// what is left is what stands between, and neither begins nor ends with one.
pub proof fn trimming_takes_the_ends(s: Seq<char>, kind: CharKind)
    ensures
        exists|from: int, to: int|
            0 <= from <= to <= s.len() && #[trigger] s.subrange(from, to) == trim_both_text(s, kind)
                && (forall|i: int| 0 <= i < from ==> kind.holds(#[trigger] s[i])) && (forall|i: int|
                to <= i < s.len() ==> kind.holds(#[trigger] s[i])),
        trim_both_text(s, kind).len() > 0 ==> !kind.holds(trim_both_text(s, kind)[0])
            && !kind.holds(trim_both_text(s, kind).last()),
{
    let mid = trim_start_text(s, kind);
    let from = lemma_trimmed_start(s, kind);
    let to = lemma_trimmed_end(mid, kind);
    assert(s.subrange(from, from + to) =~= mid.subrange(0, to));
    assert forall|i: int| from + to <= i < s.len() implies kind.holds(#[trigger] s[i]) by {
        assert(s[i] == mid[i - from]);
    }
    assert(s.subrange(from, from + to) == trim_both_text(s, kind));
}

proof fn lemma_trimmed_start(s: Seq<char>, kind: CharKind) -> (from: int)
    ensures
        0 <= from <= s.len(),
        trim_start_text(s, kind) == s.subrange(from, s.len() as int),
        forall|i: int| 0 <= i < from ==> kind.holds(#[trigger] s[i]),
        from < s.len() ==> !kind.holds(s[from]),
    decreases s.len(),
{
    if s.len() > 0 && kind.holds(s[0]) {
        let rest = s.drop_first();
        let from = lemma_trimmed_start(rest, kind);
        assert(rest.subrange(from, rest.len() as int) =~= s.subrange(from + 1, s.len() as int));
        assert forall|i: int| 0 <= i < from + 1 implies kind.holds(#[trigger] s[i]) by {
            if i > 0 {
                assert(s[i] == rest[i - 1]);
            }
        }
        from + 1
    } else {
        assert(s.subrange(0, s.len() as int) =~= s);
        0
    }
}

proof fn lemma_trimmed_end(s: Seq<char>, kind: CharKind) -> (to: int)
    ensures
        0 <= to <= s.len(),
        trim_end_text(s, kind) == s.subrange(0, to),
        forall|i: int| to <= i < s.len() ==> kind.holds(#[trigger] s[i]),
        to > 0 ==> !kind.holds(s[to - 1]),
    decreases s.len(),
{
    if s.len() > 0 && kind.holds(s.last()) {
        let rest = s.drop_last();
        let to = lemma_trimmed_end(rest, kind);
        assert(rest.subrange(0, to) =~= s.subrange(0, to));
        assert forall|i: int| to <= i < s.len() implies kind.holds(#[trigger] s[i]) by {
            if i < rest.len() {
                assert(s[i] == rest[i]);
            }
        }
        to
    } else {
        assert(s.subrange(0, s.len() as int) =~= s);
        s.len() as int
    }
}

/// A name is the same behind any number of `@` signs and within any white space; and
/// without either it stands for itself, but for its case.
pub proof fn handles_are_names(name: Seq<char>)
    requires
        name.len() > 0,
        !is_white_space(name[0]),
        !is_white_space(name.last()),
    ensures
        handle_text(seq!['@'] + name) == handle_text(name),
        name[0] != '@' ==> handle_text(name) == name,
        handle_key(seq!['@'] + name) == handle_key(name),
        name[0] != '@' ==> handle_key(name) == lowercase_text(name),
{
    let at = seq!['@'] + name;
    assert(at[0] == '@' && at.last() == name.last());
    trim_leaves_trimmed(at, CharKind::Space);
    trim_leaves_trimmed(name, CharKind::Space);
    assert(at.drop_first() =~= name);
}

/// Splitting at a kind of characters gives what stands before the first of them, and then
/// what splitting the rest gives; a text without one is one part.
pub proof fn split_of_first(a: Seq<char>, c: char, rest: Seq<char>, kind: CharKind)
    requires
        has_none(a, kind),
        kind.holds(c),
    ensures
        split_text(a.push(c) + rest, kind) == seq![a] + split_text(rest, kind),
        split_text(a, kind) == seq![a],
{
    let s = a.push(c) + rest;
    find_behind(a, c, rest, kind);
    assert(s.take(a.len() as int) =~= a);
    assert(s.skip(a.len() as int + 1) =~= rest);
    lemma_find(a, kind);
    let at = find_text(a, kind) as int;
    if at < a.len() {
        assert(kind.holds(a[at]));
    }
}

/// A line ends with a line feed, or with a carriage return and a line feed, of which neither
/// belongs to it; the last line need not.
pub proof fn lines_end_either_way(a: Seq<char>, rest: Seq<char>)
    requires
        has_none(a, CharKind::LineFeed),
        a.len() > 0 ==> a.last() != '\r',
    ensures
        lines_text(a.push('\n') + rest) == seq![a] + lines_text(rest),
        lines_text(a.push('\r').push('\n') + rest) == seq![a] + lines_text(rest),
        a.len() > 0 ==> lines_text(a) == seq![a],
        lines_text(Seq::<char>::empty()).len() == 0,
{
    lines_of_first(a, rest);
    assert(has_none(a.push('\r'), CharKind::LineFeed)) by {
        assert forall|i: int| 0 <= i < a.push('\r').len() implies !CharKind::LineFeed.holds(
            #[trigger] a.push('\r')[i],
        ) by {
            if i < a.len() {
                assert(a.push('\r')[i] == a[i]);
            }
        }
    }
    lines_of_first(a.push('\r'), rest);
    assert(a.push('\r').drop_last() =~= a);
    lemma_find(a, CharKind::LineFeed);
    let at = find_text(a, CharKind::LineFeed) as int;
    if at < a.len() {
        assert(CharKind::LineFeed.holds(a[at]));
    }
}

/// A text begins with a prefix exactly where something stands behind it, and that is what
/// is left without it.
pub proof fn prefix_is_taken_off(prefix: Seq<char>, rest: Seq<char>, other: Seq<char>)
    ensures
        strip_prefix_text(prefix + rest, prefix) == Some(rest),
        strip_prefix_text(other, prefix) matches Some(left) ==> other == prefix + left,
{
    assert(prefix.is_prefix_of(prefix + rest)) by {
        assert(prefix =~= (prefix + rest).subrange(0, prefix.len() as int));
    }
    assert(strip_prefix_text(prefix + rest, prefix)->0 =~= rest);
    if strip_prefix_text(other, prefix) is Some {
        assert(other =~= prefix + strip_prefix_text(other, prefix)->0);
    }
}

/// Splitting a text behind which a part without such a character is put gives the same parts
/// and that one.
pub proof fn split_of_last(s: Seq<char>, c: char, a: Seq<char>, kind: CharKind)
    requires
        has_none(a, kind),
        kind.holds(c),
    ensures
        split_text(s.push(c) + a, kind) == split_text(s, kind).push(a),
    decreases s.len(),
{
    lemma_find(s, kind);
    let at = find_text(s, kind) as int;
    split_of_first(a, c, Seq::empty(), kind);
    if at >= s.len() {
        assert(has_none(s, kind));
        split_of_first(s, c, a, kind);
        assert(seq![s] + seq![a] =~= seq![s].push(a));
    } else {
        let head = s.take(at);
        let rest = s.skip(at + 1);
        assert(has_none(head, kind)) by {
            assert forall|i: int| 0 <= i < head.len() implies !kind.holds(#[trigger] head[i]) by {
                assert(head[i] == s[i]);
            }
        }
        split_of_last(rest, c, a, kind);
        split_of_first(head, s[at], rest.push(c) + a, kind);
        assert(s.push(c) + a =~= head.push(s[at]) + (rest.push(c) + a));
        assert(seq![head] + split_text(rest, kind).push(a) =~= (seq![head] + split_text(
            rest,
            kind,
        )).push(a));
    }
}

} // verus!
