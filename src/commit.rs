use vstd::prelude::*;
use colored::Colorize;
use crate::commit_type::{classify, classify_spec, CommitType};
use crate::text::{
    chars_of, find_char, find_char_before, no_parens, no_parens_in, occurs_at, occurs_at_exec,
    string_of_range, trim, trim_bounds,
};

verus! {

/// One commit, classified by the conventional-commit rules.
#[derive(Debug, PartialEq, Eq)]
pub struct Commit {
    /// The abbreviated identifier that the repository gave the commit.
    pub shorthand: String,
    pub commit_type: CommitType,
    /// The parenthesized qualifier of the header, when there is one.
    pub scope: Option<String>,
    /// The summary after the type and scope.
    pub description: String,
    pub body: Option<String>,
    /// The `BREAKING CHANGE:` paragraph and what follows it.
    pub footer: Option<String>,
    /// Whether the header has a `!` marker or the message a breaking footer.
    pub breaking: bool,
    pub author: String,
}

impl Commit {
    /// The record's invariant: a non-empty description, and a scope, when
    /// there is one, that is non-empty and free of parentheses.
    pub open spec fn wf(self) -> bool {
        &&& self.description@.len() > 0
        &&& (self.scope matches Some(s) ==> s@.len() > 0 && no_parens(s@))
    }
}

/// How commits may be ordered for display.
#[derive(Debug, PartialEq, Eq, Clone, Copy)]
pub enum SortCommit {
    ByDate,
    ByType,
    ByScope,
    ByTypeAndScope,
}

/// Why a message is not a conventional commit.
#[derive(Debug, PartialEq, Eq)]
pub enum ParseError {
    /// The header lacks `": "`, its description is blank, or its scope is ill-formed.
    MalformedHeader,
    /// The type key is neither a conventional kind nor a configured one.
    UnknownType(String),
}

pub open spec fn opt_view(o: Option<String>) -> Option<Seq<char>> {
    match o {
        Some(s) => Some(s@),
        None => None,
    }
}

/// The first line of a message.
pub open spec fn header_of(m: Seq<char>) -> Seq<char> {
    match find_char(m, '\n', 0) {
        Some(i) => m.subrange(0, i),
        None => m,
    }
}

/// What follows the first line of a message.
pub open spec fn rest_of(m: Seq<char>) -> Seq<char> {
    match find_char(m, '\n', 0) {
        Some(i) => m.subrange(i + 1, m.len() as int),
        None => Seq::empty(),
    }
}

/// The first index at or after `i` where `": "` stands in `h`.
pub open spec fn sep_from(h: Seq<char>, i: int) -> Option<int>
    decreases h.len() - i,
{
    if i < 0 || i + 1 >= h.len() {
        None
    } else if h[i] == ':' && h[i + 1] == ' ' {
        Some(i)
    } else {
        sep_from(h, i + 1)
    }
}

/// The header before its first `": "` (the whole header when there is none).
pub open spec fn prefix_of(h: Seq<char>) -> Seq<char> {
    match sep_from(h, 0) {
        Some(i) => h.subrange(0, i),
        None => h,
    }
}

/// The trimmed description after the first `": "`.
pub open spec fn description_of(h: Seq<char>) -> Seq<char> {
    match sep_from(h, 0) {
        Some(i) => trim(h.subrange(i + 2, h.len() as int)),
        None => Seq::empty(),
    }
}

/// Whether the prefix ends with the breaking marker `!`.
pub open spec fn has_bang(p: Seq<char>) -> bool {
    p.len() > 0 && p.last() == '!'
}

/// The prefix without its breaking marker.
pub open spec fn core_of(p: Seq<char>) -> Seq<char> {
    if has_bang(p) {
        p.drop_last()
    } else {
        p
    }
}

/// The type key: the core up to its first `(`.
pub open spec fn type_key_of(c: Seq<char>) -> Seq<char> {
    match find_char(c, '(', 0) {
        Some(j) => c.subrange(0, j),
        None => c,
    }
}

/// What follows the first `(` of the core, closing parenthesis included.
pub open spec fn scope_part(c: Seq<char>) -> Option<Seq<char>> {
    match find_char(c, '(', 0) {
        Some(j) => Some(c.subrange(j + 1, c.len() as int)),
        None => None,
    }
}

/// A scope segment is a non-empty text without parentheses, closed by `)`.
pub open spec fn scope_ok(part: Seq<char>) -> bool {
    part.len() >= 2 && part.last() == ')' && no_parens(part.drop_last())
}

/// Whether a header has the shape `type(scope)!: description`, scope and `!` optional.
pub open spec fn header_ok(h: Seq<char>) -> bool {
    &&& sep_from(h, 0) is Some
    &&& description_of(h).len() > 0
    &&& (scope_part(core_of(prefix_of(h))) matches Some(part) ==> scope_ok(part))
}

/// The scope of a well-formed header.
pub open spec fn scope_of(h: Seq<char>) -> Option<Seq<char>> {
    match scope_part(core_of(prefix_of(h))) {
        Some(part) => Some(part.drop_last()),
        None => None,
    }
}

/// The type key of a header.
pub open spec fn header_key(h: Seq<char>) -> Seq<char> {
    type_key_of(core_of(prefix_of(h)))
}

/// Whether index `i` of the text after the header begins a paragraph.
pub open spec fn para_start(r: Seq<char>, i: int) -> bool {
    i == 0 || (i >= 1 && r[i - 1] == '\n' && (i == 1 || r[i - 2] == '\n'))
}

pub open spec fn breaking_marker() -> Seq<char> {
    "BREAKING CHANGE:"@
}

/// The first paragraph at or after `i` that begins with `BREAKING CHANGE:`.
pub open spec fn footer_from(r: Seq<char>, i: int) -> Option<int>
    decreases r.len() - i,
{
    if i < 0 || i >= r.len() {
        None
    } else if para_start(r, i) && occurs_at(r, breaking_marker(), i) {
        Some(i)
    } else {
        footer_from(r, i + 1)
    }
}

/// The trimmed text between the header and the breaking footer, if not blank.
pub open spec fn body_of(r: Seq<char>) -> Option<Seq<char>> {
    let b = match footer_from(r, 0) {
        Some(f) => trim(r.subrange(0, f)),
        None => trim(r),
    };
    if b.len() == 0 {
        None
    } else {
        Some(b)
    }
}

/// The trimmed breaking footer, if there is one.
pub open spec fn footer_of(r: Seq<char>) -> Option<Seq<char>> {
    match footer_from(r, 0) {
        Some(f) => Some(trim(r.subrange(f, r.len() as int))),
        None => None,
    }
}

/// Whether a message parses with the given custom kinds.
pub open spec fn parses(m: Seq<char>, custom: Seq<(String, String)>) -> bool {
    header_ok(header_of(m)) && classify_spec(header_key(header_of(m)), custom) is Some
}

/// What a commit parsed from message `m` holds.
pub open spec fn parsed_from(
    c: Commit,
    m: Seq<char>,
    author: Seq<char>,
    short_id: Seq<char>,
    custom: Seq<(String, String)>,
) -> bool {
    let h = header_of(m);
    let r = rest_of(m);
    &&& Some(c.commit_type) == classify_spec(header_key(h), custom)
    &&& opt_view(c.scope) == scope_of(h)
    &&& c.description@ == description_of(h)
    &&& opt_view(c.body) == body_of(r)
    &&& opt_view(c.footer) == footer_of(r)
    &&& c.breaking == (has_bang(prefix_of(h)) || footer_from(r, 0) is Some)
    &&& c.author@ == author
    &&& c.shorthand@ == short_id
}

/// What parsing message `m` by `author` with id `short_id` gives.
pub open spec fn parse_outcome(
    m: Seq<char>,
    author: Seq<char>,
    short_id: Seq<char>,
    custom: Seq<(String, String)>,
    r: Result<Commit, ParseError>,
) -> bool {
    &&& (r is Ok <==> parses(m, custom))
    &&& (r matches Err(ParseError::MalformedHeader) <==> !header_ok(header_of(m)))
    &&& (r matches Err(ParseError::UnknownType(k)) ==> k@ == header_key(header_of(m)))
    &&& (r matches Ok(c) ==> parsed_from(c, m, author, short_id, custom))
}

/// Whether a paragraph that begins with the breaking marker starts at index
/// `p` of the text `m[rs..]` after the header.
fn footer_starts_at(m: &Vec<char>, rs: usize, p: usize, marker: &Vec<char>) -> (r: bool)
    requires
        rs <= m.len(),
        p < m.len() - rs,
    ensures
        r == (para_start(m@.subrange(rs as int, m@.len() as int), p as int) && occurs_at(
            m@.subrange(rs as int, m@.len() as int),
            marker@,
            p as int,
        )),
{
    let ghost rest = m@.subrange(rs as int, m@.len() as int);
    let starts = p == 0 || (m[rs + p - 1] == '\n' && (p == 1 || m[rs + p - 2] == '\n'));
    let here = occurs_at_exec(m, marker, rs + p);
    assert(here == occurs_at(rest, marker@, p as int)) by {
        if p + marker@.len() <= rest.len() {
            assert(rest.subrange(p as int, p + marker@.len()) =~= m@.subrange(
                rs + p,
                rs + p + marker@.len(),
            ));
        }
    }
    starts && here
}

/// Splits a header `m[..hl]` into its type key, scope, description and
/// breaking marker.
fn split_header(message: &str, m: &Vec<char>, hl: usize) -> (r: Result<
    (String, Option<String>, String, bool),
    ParseError,
>)
    requires
        m@ == message@,
        hl <= m.len(),
    ensures
        r is Err <==> !header_ok(m@.subrange(0, hl as int)),
        r matches Err(e) ==> e is MalformedHeader,
        r matches Ok((key, scope, description, bang)) ==> {
            let h = m@.subrange(0, hl as int);
            &&& key@ == header_key(h)
            &&& opt_view(scope) == scope_of(h)
            &&& description@ == description_of(h)
            &&& bang == has_bang(prefix_of(h))
        },
{
    let len = m.len();
    let ghost h = m@.subrange(0, hl as int);
    // the separator between prefix and description
    let mut i: usize = 0;
    while i < hl && i + 1 < hl && !(m[i] == ':' && m[i + 1] == ' ')
        invariant
            hl <= len == m@.len(),
            h == m@.subrange(0, hl as int),
            i <= hl,
            sep_from(h, 0) == sep_from(h, i as int),
        decreases hl - i,
    {
        i = i + 1;
    }
    if i >= hl || i + 1 >= hl {
        return Err(ParseError::MalformedHeader);
    }
    let sep = i;
    assert(sep_from(h, 0) == Some(sep as int));
    let (dlo, dhi) = trim_bounds(m, sep + 2, hl);
    assert(h.subrange(sep + 2, h.len() as int) =~= m@.subrange(sep + 2, hl as int));
    if dlo == dhi {
        return Err(ParseError::MalformedHeader);
    }
    let bang = sep > 0 && m[sep - 1] == '!';
    let ce: usize = if bang {
        sep - 1
    } else {
        sep
    };
    let ghost core = m@.subrange(0, ce as int);
    assert(prefix_of(h) =~= m@.subrange(0, sep as int));
    assert(core_of(prefix_of(h)) =~= core);
    assert(has_bang(prefix_of(h)) == bang);
    let paren = find_char_before(m, '(', 0, ce);
    let key: String;
    let scope: Option<String>;
    match paren {
        Some(j) => {
            assert(scope_part(core) == Some(m@.subrange(j + 1, ce as int)));
            if ce < j + 3 || m[ce - 1] != ')' {
                return Err(ParseError::MalformedHeader);
            }
            let clean = no_parens_in(m, j + 1, ce - 1);
            assert(m@.subrange(j + 1, ce as int).drop_last() =~= m@.subrange(j + 1, ce - 1));
            if !clean {
                return Err(ParseError::MalformedHeader);
            }
            key = string_of_range(message, 0, j);
            scope = Some(string_of_range(message, j + 1, ce - 1));
            assert(type_key_of(core) =~= m@.subrange(0, j as int));
        },
        None => {
            key = string_of_range(message, 0, ce);
            scope = None;
        },
    }
    let description = string_of_range(message, dlo, dhi);
    Ok((key, scope, description, bang))
}

/// Finds the body and the breaking footer in the text `m[rs..]` after the header.
fn split_rest(message: &str, m: &Vec<char>, rs: usize) -> (r: (Option<String>, Option<String>, bool))
    requires
        m@ == message@,
        rs <= m.len(),
    ensures
        ({
            let rest = m@.subrange(rs as int, m@.len() as int);
            &&& opt_view(r.0) == body_of(rest)
            &&& opt_view(r.1) == footer_of(rest)
            &&& r.2 == footer_from(rest, 0) is Some
        }),
{
    let len = m.len();
    let ghost rest = m@.subrange(rs as int, len as int);
    let marker = chars_of("BREAKING CHANGE:");
    let mut p: usize = 0;
    while p < len - rs && !footer_starts_at(m, rs, p, &marker)
        invariant
            rs <= len == m@.len(),
            rest == m@.subrange(rs as int, len as int),
            marker@ == breaking_marker(),
            p <= len - rs,
            footer_from(rest, 0) == footer_from(rest, p as int),
        decreases len - rs - p,
    {
        p = p + 1;
    }
    let footer_at: Option<usize> = if p < len - rs {
        Some(p)
    } else {
        None
    };
    let fe: usize = match footer_at {
        Some(f) => rs + f,
        None => len,
    };
    assert(footer_at matches Some(f) ==> footer_from(rest, 0) == Some(f as int));
    assert(footer_at is None ==> footer_from(rest, 0) is None);
    let (blo, bhi) = trim_bounds(m, rs, fe);
    assert(m@.subrange(rs as int, fe as int) =~= match footer_from(rest, 0) {
        Some(f) => rest.subrange(0, f),
        None => rest,
    });
    let body = if blo == bhi {
        None
    } else {
        Some(string_of_range(message, blo, bhi))
    };
    let footer = match footer_at {
        Some(f) => {
            let (flo, fhi) = trim_bounds(m, rs + f, len);
            assert(m@.subrange(rs + f, len as int) =~= rest.subrange(f as int, rest.len() as int));
            Some(string_of_range(message, flo, fhi))
        },
        None => None,
    };
    (body, footer, footer_at.is_some())
}

/// Parses a raw commit message, with the abbreviated id and author that the
/// repository gave it, against the conventional kinds and the custom table
/// (key, title).
pub fn parse(message: &str, author: &str, short_id: &str, custom: &Vec<(String, String)>) -> (r:
    Result<Commit, ParseError>)
    ensures
        r is Ok <==> parses(message@, custom@),
        r matches Err(ParseError::MalformedHeader) <==> !header_ok(header_of(message@)),
        r matches Err(ParseError::UnknownType(k)) ==> k@ == header_key(header_of(message@)),
        r matches Ok(c) ==> parsed_from(c, message@, author@, short_id@, custom@),
        parse_outcome(message@, author@, short_id@, custom@, r),
        r matches Ok(c) ==> c.wf(),
{
    let m = chars_of(message);
    let len = m.len();
    assert(m@.subrange(0, len as int) =~= m@);
    let nl = find_char_before(&m, '\n', 0, len);
    let hl: usize = match nl {
        Some(n) => n,
        None => len,
    };
    assert(m@.subrange(0, hl as int) == header_of(m@));
    let (key, scope, description, bang) = match split_header(message, &m, hl) {
        Ok(parts) => parts,
        Err(e) => {
            return Err(e);
        },
    };
    let commit_type = match classify(key.as_str(), custom) {
        Some(t) => t,
        None => {
            return Err(ParseError::UnknownType(key));
        },
    };
    let rs: usize = match nl {
        Some(n) => n + 1,
        None => len,
    };
    assert(m@.subrange(rs as int, len as int) =~= rest_of(m@));
    let (body, footer, has_footer) = split_rest(message, &m, rs);
    Ok(
        Commit {
            shorthand: String::from_str(short_id),
            commit_type,
            scope,
            description,
            body,
            footer,
            breaking: bang || has_footer,
            author: String::from_str(author),
        },
    )
}

/// Parses each raw commit (message, author, id) on its own, so that every
/// offending message is reported and none stops the others.
pub fn parse_all(raw: &Vec<(String, String, String)>, custom: &Vec<(String, String)>) -> (r: Vec<
    Result<Commit, ParseError>,
>)
    ensures
        r@.len() == raw@.len(),
        forall|i: int|
            0 <= i < raw@.len() ==> parse_outcome(
                (#[trigger] raw@[i]).0@,
                raw@[i].1@,
                raw@[i].2@,
                custom@,
                r@[i],
            ),
{
    let mut r: Vec<Result<Commit, ParseError>> = Vec::new();
    let mut i: usize = 0;
    while i < raw.len()
        invariant
            i <= raw@.len(),
            r@.len() == i,
            forall|k: int|
                0 <= k < i ==> parse_outcome(
                    (#[trigger] raw@[k]).0@,
                    raw@[k].1@,
                    raw@[k].2@,
                    custom@,
                    r@[k],
                ),
        decreases raw@.len() - i,
    {
        let entry = &raw[i];
        r.push(parse(entry.0.as_str(), entry.1.as_str(), entry.2.as_str(), custom));
        i = i + 1;
    }
    r
}

/// Whether `r` is `s` as a terminal shows it in the color that escape code
/// `open` starts: `s` itself where coloring is off, else text between `open`
/// and the reset code.
pub open spec fn painted(s: Seq<char>, open: Seq<char>, r: Seq<char>) -> bool {
    r == s || (r.len() >= open.len() + 4 && r.subrange(0, open.len() as int) == open
        && r.subrange(r.len() - 4, r.len() as int) == "\x1B[0m"@)
}

pub open spec fn yellow_code() -> Seq<char> {
    "\x1B[33m"@
}

pub open spec fn blue_code() -> Seq<char> {
    "\x1B[34m"@
}

/// The changelog line of a commit, from its painted id, description and painted author.
pub open spec fn markdown_line_spec(id: Seq<char>, description: Seq<char>, author: Seq<char>) -> Seq<
    char,
> {
    id + " - "@ + description + " - "@ + author + "\n"@
}

/// Relies on colored's `Colorize::yellow` for `&str` and the `Display` of
/// `ColoredString`: the text as it is when coloring is off, else the yellow
/// code, the text, and the reset code.
#[verifier::external_body]
fn paint_yellow(s: &str) -> (r: String)
    ensures
        painted(s@, yellow_code(), r@),
{
    s.yellow().to_string()
}

/// Relies on colored's `Colorize::blue` for `&str` and the `Display` of
/// `ColoredString`: the text as it is when coloring is off, else the blue
/// code, the text, and the reset code.
#[verifier::external_body]
fn paint_blue(s: &str) -> (r: String)
    ensures
        painted(s@, blue_code(), r@),
{
    s.blue().to_string()
}

/// Joins a painted id, a description and a painted author into a changelog line.
pub fn markdown_line(id: &str, description: &str, author: &str) -> (r: String)
    ensures
        r@ == markdown_line_spec(id@, description@, author@),
{
    let mut out = String::from_str(id);
    out.append(" - ");
    out.append(description);
    out.append(" - ");
    out.append(author);
    out.append("\n");
    out
}

impl Commit {
    /// The changelog line of this commit: its id in yellow, its description,
    /// and its author in blue.
    pub fn to_markdown(&self) -> (r: String)
        ensures
            exists|id: Seq<char>, author: Seq<char>|
                painted(self.shorthand@, yellow_code(), id) && painted(
                    self.author@,
                    blue_code(),
                    author,
                ) && r@ == markdown_line_spec(id, self.description@, author),
    {
        let id = paint_yellow(self.shorthand.as_str());
        let author = paint_blue(self.author.as_str());
        let r = markdown_line(id.as_str(), self.description.as_str(), author.as_str());
        assert(painted(self.shorthand@, yellow_code(), id@) && painted(
            self.author@,
            blue_code(),
            author@,
        ) && r@ == markdown_line_spec(id@, self.description@, author@));
        r
    }
}

} // verus!
