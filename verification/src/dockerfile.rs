//! Dockerfile analysis: stage and instruction extraction, final-stage naming,
//! variable substitution, base-image and `USER` resolution, and the build-context
//! support implied by the `syntax` directive.

use vstd::prelude::*;
use crate::text::{
    eq_ignore_case, eq_ignore_case_chars, first_where, from_chars, is_whitespace, is_ws,
    lemma_first_where_is, lines, lines_chars, lower, lower_chars, push_all, push_str, slice_of,
    split_inclusive_nl, split_inclusive_nl_chars, split_once, split_once_chars, starts_with,
    starts_with_str, strip_prefix, strip_prefix_str, to_chars, trim, trim_chars, trim_start,
    trim_start_chars, views, split, split_chars, parse_u64, parse_u64_chars, is_ascii_digit,
    is_ascii_alnum, find_char, find_char_from, lemma_find_char, lemma_first_where, chars_eq,
};

verus! {

/// A whitespace-separated token of a line and the character index where it ends.
pub struct TokenView {
    pub text: Seq<char>,
    pub end: nat,
}

pub struct Token {
    pub text: Vec<char>,
    pub end: usize,
}

impl View for Token {
    type V = TokenView;

    open spec fn view(&self) -> TokenView {
        TokenView { text: self.text@, end: self.end as nat }
    }
}

pub open spec fn token_views(v: Seq<Token>) -> Seq<TokenView> {
    v.map_values(|t: Token| t@)
}

pub open spec fn is_quote(c: char) -> bool {
    c == '\'' || c == '"'
}

/// The tokens of `line` from index `i` on, given whether a token is open
/// (and where it started) and which quote, if any, is open.
/// Whitespace separates tokens, quotes hide whitespace, and a `#` where a token
/// would start ends the line.
pub open spec fn tokens_from(line: Seq<char>, i: nat, start: Option<nat>, quote: Option<char>) -> Seq<TokenView>
    decreases line.len() - i,
{
    if i >= line.len() {
        match start {
            Some(st) => seq![TokenView { text: line.subrange(st as int, line.len() as int), end: line.len() }],
            None => seq![],
        }
    } else {
        let c = line[i as int];
        if start is None && is_ws(c) {
            tokens_from(line, i + 1, None, quote)
        } else if start is None && c == '#' {
            seq![]
        } else {
            let st: nat = match start {
                Some(st) => st,
                None => i,
            };
            match quote {
                Some(q) => if c == q {
                    tokens_from(line, i + 1, Some(st), None)
                } else {
                    tokens_from(line, i + 1, Some(st), quote)
                },
                None => if is_quote(c) {
                    tokens_from(line, i + 1, Some(st), Some(c))
                } else if is_ws(c) {
                    seq![TokenView { text: line.subrange(st as int, i as int), end: i }]
                        + tokens_from(line, i + 1, None, None)
                } else {
                    tokens_from(line, i + 1, Some(st), None)
                },
            }
        }
    }
}

/// The tokens of a Dockerfile line.
pub open spec fn tokens(line: Seq<char>) -> Seq<TokenView> {
    tokens_from(line, 0, None, None)
}

proof fn lemma_token_views_push(v: Seq<Token>, t: Token)
    ensures
        token_views(v.push(t)) == token_views(v).push(t@),
{
    assert(token_views(v.push(t)) =~= token_views(v).push(t@));
}

/// Splits a line into tokens, keeping each token's end index.
pub fn tokenize_line(line: &Vec<char>) -> (r: Vec<Token>)
    ensures
        token_views(r@) == tokens(line@),
{
    let mut r: Vec<Token> = Vec::new();
    let mut start: Option<usize> = None;
    let mut quote: Option<char> = None;
    let mut i: usize = 0;
    while i < line.len()
        invariant
            i <= line.len(),
            start is Some ==> start->0 <= i,
            tokens(line@) == token_views(r@) + tokens_from(
                line@,
                i as nat,
                match start {
                    Some(s) => Some(s as nat),
                    None => None,
                },
                quote,
            ),
        decreases line.len() - i,
    {
        let c = line[i];
        if start.is_none() && is_whitespace(c) {
            i = i + 1;
            continue;
        }
        if start.is_none() && c == '#' {
            assert(token_views(r@) + Seq::<TokenView>::empty() =~= token_views(r@));
            return r;
        }
        let st: usize = match start {
            Some(s) => s,
            None => i,
        };
        match quote {
            Some(q) => {
                if c == q {
                    quote = None;
                }
                start = Some(st);
            },
            None => {
                if c == '\'' || c == '"' {
                    quote = Some(c);
                    start = Some(st);
                } else if is_whitespace(c) {
                    let t = Token { text: slice_of(line, st, i), end: i };
                    proof {
                        lemma_token_views_push(r@, t);
                    }
                    r.push(t);
                    start = None;
                } else {
                    start = Some(st);
                }
            },
        }
        i = i + 1;
    }
    match start {
        Some(st) => {
            let t = Token { text: slice_of(line, st, line.len()), end: line.len() };
            proof {
                lemma_token_views_push(r@, t);
            }
            r.push(t);
        },
        None => {
            assert(token_views(r@) + Seq::<TokenView>::empty() =~= token_views(r@));
        },
    }
    r
}

/// Whether the first token of a line is `FROM`, in any case.
pub open spec fn spec_is_from_line(line: Seq<char>) -> bool {
    let t = tokens(line);
    t.len() > 0 && eq_ignore_case(t[0].text, "FROM"@)
}

pub fn is_from_line(line: &Vec<char>) -> (r: bool)
    ensures
        r == spec_is_from_line(line@),
{
    let t = tokenize_line(line);
    if t.len() == 0 {
        return false;
    }
    assert(token_views(t@)[0] == t@[0]@);
    let from = to_chars("FROM");
    eq_ignore_case_chars(&t[0].text, &from)
}

/// A value without one leading and one trailing quote character, where present.
pub open spec fn spec_strip_edge_quotes(v: Seq<char>) -> Seq<char> {
    let start: int = if v.len() > 0 && is_quote(v[0]) {
        1
    } else {
        0
    };
    let end: int = if v.len() > start && is_quote(v.last()) {
        v.len() - 1
    } else {
        v.len() as int
    };
    v.subrange(start, end)
}

pub fn strip_edge_quotes(v: &Vec<char>) -> (r: Vec<char>)
    ensures
        r@ == spec_strip_edge_quotes(v@),
{
    let mut start: usize = 0;
    let mut end: usize = v.len();
    if v.len() > 0 && (v[0] == '\'' || v[0] == '"') {
        start = 1;
    }
    if end > start && (v[end - 1] == '\'' || v[end - 1] == '"') {
        end = end - 1;
    }
    slice_of(v, start, end)
}

/// The image, optional `--platform=` token and optional stage label of a `FROM` line.
pub struct FromView {
    pub platform: Option<Seq<char>>,
    pub image: Seq<char>,
    pub label: Option<Seq<char>>,
}

pub struct FromLineView {
    pub from: FromView,
    pub matched_end: nat,
}

/// Parses a `FROM [--platform=..] image [AS label]` line; `matched_end` is where
/// the label, or else the image, ends.
pub open spec fn spec_parse_from_line(line: Seq<char>) -> Option<FromLineView> {
    let t = tokens(line);
    if t.len() == 0 || !eq_ignore_case(t[0].text, "FROM"@) {
        None
    } else {
        let has_platform = t.len() > 1 && starts_with(t[1].text, "--platform="@);
        let idx: int = if has_platform {
            2
        } else {
            1
        };
        if idx >= t.len() {
            None
        } else {
            let has_label = idx + 1 < t.len() && eq_ignore_case(t[idx + 1].text, "AS"@) && idx + 2
                < t.len();
            Some(
                FromLineView {
                    from: FromView {
                        platform: if has_platform {
                            Some(t[1].text)
                        } else {
                            None
                        },
                        image: spec_strip_edge_quotes(t[idx].text),
                        label: if has_label {
                            Some(spec_strip_edge_quotes(t[idx + 2].text))
                        } else {
                            None
                        },
                    },
                    matched_end: if has_label {
                        t[idx + 2].end
                    } else {
                        t[idx].end
                    },
                },
            )
        }
    }
}

/// A parsed `FROM` clause of a stage.
#[derive(Debug)]
pub struct From {
    pub platform: Option<String>,
    pub image: String,
    pub label: Option<String>,
}

pub open spec fn opt_view(o: Option<String>) -> Option<Seq<char>> {
    match o {
        Some(s) => Some(s@),
        None => None,
    }
}

impl View for From {
    type V = FromView;

    open spec fn view(&self) -> FromView {
        FromView { platform: opt_view(self.platform), image: self.image@, label: opt_view(self.label) }
    }
}

pub struct FromLine {
    pub from: From,
    pub matched_end: usize,
}

pub fn opt_string(o: Option<Vec<char>>) -> (r: Option<String>)
    ensures
        opt_view(r) == match o {
            Some(v) => Some(v@),
            None => None::<Seq<char>>,
        },
{
    match o {
        Some(v) => Some(from_chars(&v)),
        None => None,
    }
}

pub fn parse_from_line(line: &Vec<char>) -> (r: Option<FromLine>)
    ensures
        match r {
            Some(f) => spec_parse_from_line(line@) == Some(
                FromLineView { from: f.from@, matched_end: f.matched_end as nat },
            ),
            None => spec_parse_from_line(line@) is None,
        },
{
    let t = tokenize_line(line);
    let ghost tv = token_views(t@);
    assert(tv == tokens(line@));
    if t.len() == 0 {
        return None;
    }
    assert(tv[0] == t@[0]@);
    let from_kw = to_chars("FROM");
    if !eq_ignore_case_chars(&t[0].text, &from_kw) {
        return None;
    }
    let has_platform = t.len() > 1 && starts_with_str(&t[1].text, "--platform=");
    proof {
        if t.len() > 1 {
            assert(tv[1] == t@[1]@);
        }
    }
    let idx: usize = if has_platform {
        2
    } else {
        1
    };
    if idx >= t.len() {
        return None;
    }
    assert(tv[idx as int] == t@[idx as int]@);
    let has_label = idx + 1 < t.len() && eq_ignore_case_chars(&t[idx + 1].text, &to_chars("AS"))
        && idx + 2 < t.len();
    proof {
        if idx + 1 < t.len() {
            assert(tv[idx + 1] == t@[idx + 1]@);
        }
        if idx + 2 < t.len() {
            assert(tv[idx + 2] == t@[idx + 2]@);
        }
    }
    let platform = if has_platform {
        Some(from_chars(&t[1].text))
    } else {
        None
    };
    let image = from_chars(&strip_edge_quotes(&t[idx].text));
    let label = if has_label {
        Some(from_chars(&strip_edge_quotes(&t[idx + 2].text)))
    } else {
        None
    };
    let matched_end = if has_label {
        t[idx + 2].end
    } else {
        t[idx].end
    };
    Some(FromLine { from: From { platform, image, label }, matched_end })
}


/// A line without its trailing `\r` and `\n` characters.
pub open spec fn trim_end_crlf(s: Seq<char>) -> Seq<char>
    decreases s.len(),
{
    if s.len() > 0 && (s.last() == '\r' || s.last() == '\n') {
        trim_end_crlf(s.drop_last())
    } else {
        s
    }
}

pub fn trim_end_crlf_chars(s: &Vec<char>) -> (r: Vec<char>)
    ensures
        r@ == trim_end_crlf(s@),
{
    let mut k = s.len();
    assert(s@.take(k as int) =~= s@);
    while k > 0 && (s[k - 1] == '\r' || s[k - 1] == '\n')
        invariant
            k <= s.len(),
            trim_end_crlf(s@) == trim_end_crlf(s@.take(k as int)),
        decreases k,
    {
        assert(s@.take(k as int).drop_last() =~= s@.take(k - 1));
        k = k - 1;
    }
    slice_of(s, 0, k)
}

/// The last `FROM` line among `pieces`, with the index where it starts, given
/// the index where `pieces` start and the result so far.
pub open spec fn last_from_in(pieces: Seq<Seq<char>>, offset: nat, acc: Option<(nat, Seq<char>)>) -> Option<(nat, Seq<char>)>
    decreases pieces.len(),
{
    if pieces.len() == 0 {
        acc
    } else {
        let line = trim_end_crlf(pieces[0]);
        let acc2 = if spec_is_from_line(line) {
            Some((offset, line))
        } else {
            acc
        };
        last_from_in(pieces.drop_first(), offset + pieces[0].len(), acc2)
    }
}

/// The last `FROM` line of a Dockerfile (without its line break) and the index where it starts.
pub open spec fn spec_last_from_line(d: Seq<char>) -> Option<(nat, Seq<char>)> {
    last_from_in(split_inclusive_nl(d), 0, None)
}

pub fn last_from_line(d: &Vec<char>) -> (r: Option<(usize, Vec<char>)>)
    ensures
        match r {
            Some(p) => spec_last_from_line(d@) == Some((p.0 as nat, p.1@)),
            None => spec_last_from_line(d@) is None,
        },
        r is Some ==> r.unwrap().0 <= d.len(),
{
    let pieces = split_inclusive_nl_chars(d);
    let ghost pv = views(pieces@);
    let mut k: usize = 0;
    let mut offset: usize = 0;
    let mut acc: Option<(usize, Vec<char>)> = None;
    assert(pv.skip(0) =~= pv);
    proof {
        lemma_pieces_total(d@);
    }
    while k < pieces.len()
        invariant
            k <= pieces.len(),
            pv == views(pieces@),
            pv == split_inclusive_nl(d@),
            spec_last_from_line(d@) == last_from_in(
                pv.skip(k as int),
                offset as nat,
                match acc {
                    Some(p) => Some((p.0 as nat, p.1@)),
                    None => None,
                },
            ),
            offset + pieces_len(pv.skip(k as int)) == d.len(),
            acc is Some ==> acc.unwrap().0 <= d.len(),
        decreases pieces.len() - k,
    {
        let line = trim_end_crlf_chars(&pieces[k]);
        assert(pv[k as int] == pieces@[k as int]@);
        assert(pv.skip(k as int).drop_first() =~= pv.skip(k + 1));
        assert(pv.skip(k as int)[0] == pv[k as int]);
        if is_from_line(&line) {
            acc = Some((offset, line));
        }
        offset = offset + pieces[k].len();
        k = k + 1;
    }
    acc
}

/// The total length of a list of pieces.
pub open spec fn pieces_len(p: Seq<Seq<char>>) -> nat
    decreases p.len(),
{
    if p.len() == 0 {
        0
    } else {
        p[0].len() + pieces_len(p.drop_first())
    }
}

/// The pieces of `split_inclusive_nl` add up to the whole text.
proof fn lemma_pieces_total(d: Seq<char>)
    ensures
        pieces_len(split_inclusive_nl(d)) == d.len(),
    decreases d.len(),
{
    if d.len() > 0 {
        crate::text::lemma_find_char(d, '\n');
        match crate::text::find_char(d, '\n') {
            Some(i) => {
                let rest = split_inclusive_nl(d.skip(i as int + 1));
                lemma_pieces_total(d.skip(i as int + 1));
                let all = seq![d.take(i as int + 1)] + rest;
                assert(all.drop_first() =~= rest);
                assert(all[0] == d.take(i as int + 1));
                assert(split_inclusive_nl(d) == all);
            },
            None => {
                let all = seq![d];
                assert(all.drop_first() =~= Seq::<Seq<char>>::empty());
                assert(split_inclusive_nl(d) == all);
                assert(pieces_len(all.drop_first()) == 0);
            },
        }
    }
}

/// The final stage's name, and the Dockerfile with a name given to the final
/// stage when it had none.
#[derive(Debug)]
pub struct FinalStageName {
    pub last_stage_name: String,
    pub modified_dockerfile: Option<String>,
}

pub open spec fn no_from_error() -> Seq<char> {
    "Error parsing Dockerfile: Dockerfile contains no FROM instructions"@
}

pub open spec fn bad_from_error() -> Seq<char> {
    "Error parsing Dockerfile: failed to parse final FROM line"@
}

/// The final stage's label, or the default label together with the Dockerfile in
/// which ` AS <default>` follows the image (or platform) of the last `FROM` line.
pub open spec fn spec_final_stage_name(d: Seq<char>, default_name: Seq<char>) -> Result<(Seq<char>, Option<Seq<char>>), Seq<char>> {
    match spec_last_from_line(d) {
        None => Err(no_from_error()),
        Some((start, line)) => match spec_parse_from_line(line) {
            None => Err(bad_from_error()),
            Some(p) => match p.from.label {
                Some(label) => Ok((label, None)),
                None => {
                    let at = start + p.matched_end;
                    Ok((default_name, Some(d.take(at as int) + " AS "@ + default_name + d.skip(at as int))))
                },
            },
        },
    }
}

/// Every token of a line ends inside it.
proof fn lemma_tokens_end_bound(line: Seq<char>, i: nat, start: Option<nat>, quote: Option<char>)
    requires
        i <= line.len(),
        start is Some ==> start->0 <= i,
    ensures
        forall|k: int| 0 <= k < tokens_from(line, i, start, quote).len() ==> #[trigger] tokens_from(line, i, start, quote)[k].end <= line.len(),
    decreases line.len() - i,
{
    if i >= line.len() {
        if start is Some {
            assert(tokens_from(line, i, start, quote)[0].end == line.len());
        }
    } else {
        let c = line[i as int];
        let st: nat = match start {
            Some(st) => st,
            None => i,
        };
        if start is None && is_ws(c) {
            lemma_tokens_end_bound(line, i + 1, None, quote);
            assert(tokens_from(line, i, start, quote) == tokens_from(line, i + 1, None, quote));
        } else if start is None && c == '#' {
        } else {
            match quote {
                Some(q) => if c == q {
                    lemma_tokens_end_bound(line, i + 1, Some(st), None);
                    assert(tokens_from(line, i, start, quote) == tokens_from(line, i + 1, Some(st), None));
                } else {
                    lemma_tokens_end_bound(line, i + 1, Some(st), quote);
                    assert(tokens_from(line, i, start, quote) == tokens_from(line, i + 1, Some(st), quote));
                },
                None => if is_quote(c) {
                    lemma_tokens_end_bound(line, i + 1, Some(st), Some(c));
                    assert(tokens_from(line, i, start, quote) == tokens_from(line, i + 1, Some(st), Some(c)));
                } else if is_ws(c) {
                    lemma_tokens_end_bound(line, i + 1, None, None);
                    let rest = tokens_from(line, i + 1, None, None);
                    let t = TokenView { text: line.subrange(st as int, i as int), end: i };
                    let all = seq![t] + rest;
                    assert(tokens_from(line, i, start, quote) == all);
                    assert forall|k: int| 0 <= k < all.len() implies #[trigger] all[k].end <= line.len() by {
                        if k > 0 {
                            assert(all[k] == rest[k - 1]);
                        }
                    }
                } else {
                    lemma_tokens_end_bound(line, i + 1, Some(st), None);
                    assert(tokens_from(line, i, start, quote) == tokens_from(line, i + 1, Some(st), None));
                },
            }
        }
    }
}

/// The index where a parsed `FROM` line's match ends lies inside the line.
proof fn lemma_matched_end_bound(line: Seq<char>)
    ensures
        spec_parse_from_line(line) is Some ==> spec_parse_from_line(line)->0.matched_end <= line.len(),
{
    lemma_tokens_end_bound(line, 0, None, None);
}

/// The last `FROM` line lies inside the Dockerfile.
proof fn lemma_last_from_bound(pieces: Seq<Seq<char>>, offset: nat, acc: Option<(nat, Seq<char>)>)
    requires
        acc is Some ==> acc.unwrap().0 + acc.unwrap().1.len() <= offset + pieces_len(pieces),
    ensures
        last_from_in(pieces, offset, acc) is Some ==> last_from_in(pieces, offset, acc).unwrap().0
            + last_from_in(pieces, offset, acc).unwrap().1.len() <= offset + pieces_len(pieces),
    decreases pieces.len(),
{
    if pieces.len() > 0 {
        let line = trim_end_crlf(pieces[0]);
        lemma_trim_end_crlf_len(pieces[0]);
        let acc2 = if spec_is_from_line(line) {
            Some((offset, line))
        } else {
            acc
        };
        lemma_last_from_bound(pieces.drop_first(), offset + pieces[0].len(), acc2);
    }
}

proof fn lemma_trim_end_crlf_len(s: Seq<char>)
    ensures
        trim_end_crlf(s).len() <= s.len(),
    decreases s.len(),
{
    if s.len() > 0 && (s.last() == '\r' || s.last() == '\n') {
        lemma_trim_end_crlf_len(s.drop_last());
    }
}

fn ensure_final_stage_name_chars(d: &Vec<char>, default_name: &Vec<char>) -> (r: Result<(Vec<char>, Option<Vec<char>>), Vec<char>>)
    ensures
        spec_final_stage_name(d@, default_name@) == match r {
            Ok((n, m)) => Ok((
                n@,
                match m {
                    Some(v) => Some(v@),
                    None => None::<Seq<char>>,
                },
            )),
            Err(e) => Err::<(Seq<char>, Option<Seq<char>>), Seq<char>>(e@),
        },
{
    let found = last_from_line(d);
    let (line_start, line) = match found {
        None => {
            return Err(to_chars("Error parsing Dockerfile: Dockerfile contains no FROM instructions"));
        },
        Some(p) => p,
    };
    let parsed = match parse_from_line(&line) {
        None => {
            return Err(to_chars("Error parsing Dockerfile: failed to parse final FROM line"));
        },
        Some(p) => p,
    };
    match parsed.from.label {
        Some(label) => Ok((to_chars(label.as_str()), None)),
        None => {
            proof {
                lemma_pieces_total(d@);
                lemma_last_from_bound(split_inclusive_nl(d@), 0, None);
                lemma_matched_end_bound(line@);
            }
            let at = line_start + parsed.matched_end;
            let mut out = slice_of(d, 0, at);
            push_str(&mut out, " AS ");
            push_all(&mut out, default_name);
            let tail = slice_of(d, at, d.len());
            push_all(&mut out, &tail);
            let mut name: Vec<char> = Vec::new();
            push_all(&mut name, default_name);
            assert(name@ =~= default_name@);
            Ok((name, Some(out)))
        },
    }
}

/// Names the final stage of a Dockerfile: its own label when it has one, else
/// `default_last_stage_name`, inserted as ` AS <name>` after the image of the
/// last `FROM` line (before any trailing comment, keeping the spacing).
pub fn ensure_dockerfile_has_final_stage_name(dockerfile: &str, default_last_stage_name: &str) -> (r: Result<FinalStageName, String>)
    ensures
        spec_final_stage_name(dockerfile@, default_last_stage_name@) == match r {
            Ok(f) => Ok((f.last_stage_name@, opt_view(f.modified_dockerfile))),
            Err(e) => Err::<(Seq<char>, Option<Seq<char>>), Seq<char>>(e@),
        },
{
    let d = to_chars(dockerfile);
    let n = to_chars(default_last_stage_name);
    match ensure_final_stage_name_chars(&d, &n) {
        Ok((name, modified)) => Ok(
            FinalStageName { last_stage_name: from_chars(&name), modified_dockerfile: opt_string(modified) },
        ),
        Err(e) => Err(from_chars(&e)),
    }
}


/// An `ARG`, `ENV` or `USER` instruction: its keyword in upper case, the
/// variable (or user) it names, and the first field of its value, unquoted.
pub struct InstructionView {
    pub instruction: Seq<char>,
    pub name: Seq<char>,
    pub value: Option<Seq<char>>,
}

#[derive(Debug)]
pub struct Instruction {
    pub instruction: String,
    pub name: String,
    pub value: Option<String>,
}

impl View for Instruction {
    type V = InstructionView;

    open spec fn view(&self) -> InstructionView {
        InstructionView { instruction: self.instruction@, name: self.name@, value: opt_view(self.value) }
    }
}

pub open spec fn instruction_views(v: Seq<Instruction>) -> Seq<InstructionView> {
    v.map_values(|i: Instruction| i@)
}

/// What follows a keyword at the start of a line, when the keyword is followed by whitespace.
pub open spec fn spec_strip_keyword(line: Seq<char>, kw: Seq<char>) -> Option<Seq<char>> {
    if line.len() < kw.len() {
        None
    } else if !eq_ignore_case(line.take(kw.len() as int), kw) {
        None
    } else {
        let rest = line.skip(kw.len() as int);
        if rest.len() > 0 && is_ws(rest[0]) {
            Some(trim_start(rest))
        } else {
            None
        }
    }
}

/// The first whitespace-separated field of a value.
pub open spec fn spec_first_field(v: Seq<char>) -> Option<Seq<char>> {
    let t = trim_start(v);
    if t.len() == 0 {
        None
    } else {
        Some(t.take(first_where(t, |c: char| is_ws(c)) as int))
    }
}

/// The name of an instruction and the first field of its value, in the forms
/// `name value`, `name=value` and `name = value`.
pub open spec fn spec_name_value(rest: Seq<char>) -> Option<(Seq<char>, Option<Seq<char>>)> {
    let ne = first_where(rest, |c: char| is_ws(c) || c == '=');
    let name = rest.take(ne as int);
    if name.len() == 0 {
        None
    } else {
        let v0 = trim_start(rest.skip(ne as int));
        let v1 = if v0.len() > 0 && v0[0] == '=' {
            trim_start(v0.drop_first())
        } else {
            v0
        };
        Some(
            (
                name,
                match spec_first_field(v1) {
                    Some(f) => Some(spec_strip_edge_quotes(f)),
                    None => None,
                },
            ),
        )
    }
}

pub open spec fn instruction_with(kw: Seq<char>, rest: Seq<char>) -> Option<InstructionView> {
    match spec_name_value(rest) {
        Some((name, value)) => Some(InstructionView { instruction: kw, name, value }),
        None => None,
    }
}

/// The `ARG`, `ENV` or `USER` instruction on a line, if any.
pub open spec fn spec_parse_instruction_line(line: Seq<char>) -> Option<InstructionView> {
    let t = trim_start(line);
    match spec_strip_keyword(t, "ARG"@) {
        Some(rest) => instruction_with("ARG"@, rest),
        None => match spec_strip_keyword(t, "ENV"@) {
            Some(rest) => instruction_with("ENV"@, rest),
            None => match spec_strip_keyword(t, "USER"@) {
                Some(rest) => instruction_with("USER"@, rest),
                None => None,
            },
        },
    }
}

/// Whether taking the first `n` bytes of `s` would cut a character in two.
pub open spec fn cuts_char(s: Seq<char>, n: int) -> bool {
    n <= vstd::utf8::encode_utf8(s).len() && !vstd::utf8::is_char_boundary(
        vstd::utf8::encode_utf8(s),
        n,
    )
}

/// Whether the keyword tests on a line split a character: comparing a line's
/// first bytes with `ARG` and `ENV` takes three bytes, with `USER` four.
pub open spec fn keyword_test_cuts_char(line: Seq<char>) -> bool {
    let t = trim_start(line);
    cuts_char(t, 3) || (spec_strip_keyword(t, "ARG"@) is None && spec_strip_keyword(t, "ENV"@) is None
        && cuts_char(t, 4))
}

/// Whether no line of a section splits a character when compared with a keyword.
pub open spec fn lines_keep_keywords_whole(section: Seq<char>) -> bool {
    forall|i: int| 0 <= i < lines(section).len() ==> !keyword_test_cuts_char(#[trigger] lines(section)[i])
}

/// Whether no line of the preamble or of a stage splits a character when
/// compared with a keyword.
pub open spec fn keywords_whole(d: Seq<char>) -> bool {
    lines_keep_keywords_whole(sections(d).0) && forall|k: int| 0 <= k < sections(d).1.len() ==> lines_keep_keywords_whole(#[trigger] sections(d).1[k])
}

/// The instructions of a list of lines.
pub open spec fn instructions_of(ls: Seq<Seq<char>>) -> Seq<InstructionView>
    decreases ls.len(),
{
    if ls.len() == 0 {
        seq![]
    } else {
        match spec_parse_instruction_line(ls[0]) {
            Some(i) => seq![i] + instructions_of(ls.drop_first()),
            None => instructions_of(ls.drop_first()),
        }
    }
}

fn strip_keyword(line: &Vec<char>, kw: &str) -> (r: Option<Vec<char>>)
    ensures
        match r {
            Some(v) => spec_strip_keyword(line@, kw@) == Some(v@),
            None => spec_strip_keyword(line@, kw@) is None,
        },
{
    let k = to_chars(kw);
    if line.len() < k.len() {
        return None;
    }
    let candidate = slice_of(line, 0, k.len());
    if !eq_ignore_case_chars(&candidate, &k) {
        return None;
    }
    let rest = slice_of(line, k.len(), line.len());
    if rest.len() > 0 && is_whitespace(rest[0]) {
        Some(trim_start_chars(&rest))
    } else {
        None
    }
}

/// The index of the first character for which `stop` holds (whitespace, or also `=`).
fn scan_until_ws(s: &Vec<char>, or_equals: bool) -> (r: usize)
    ensures
        !or_equals ==> r == first_where(s@, |c: char| is_ws(c)),
        or_equals ==> r == first_where(s@, |c: char| is_ws(c) || c == '='),
        r <= s.len(),
{
    let mut i: usize = 0;
    while i < s.len() && !(is_whitespace(s[i]) || (or_equals && s[i] == '='))
        invariant
            i <= s.len(),
            forall|j: int| 0 <= j < i ==> !(is_ws(#[trigger] s@[j]) || (or_equals && s@[j] == '=')),
        decreases s.len() - i,
    {
        i = i + 1;
    }
    proof {
        if or_equals {
            lemma_first_where_is(s@, |c: char| is_ws(c) || c == '=', i as nat);
        } else {
            lemma_first_where_is(s@, |c: char| is_ws(c), i as nat);
        }
    }
    i
}

fn first_field(v: &Vec<char>) -> (r: Option<Vec<char>>)
    ensures
        match r {
            Some(f) => spec_first_field(v@) == Some(f@),
            None => spec_first_field(v@) is None,
        },
{
    let t = trim_start_chars(v);
    if t.len() == 0 {
        return None;
    }
    let end = scan_until_ws(&t, false);
    Some(slice_of(&t, 0, end))
}

fn parse_instruction_name_value(rest: &Vec<char>) -> (r: Option<(Vec<char>, Option<Vec<char>>)>)
    ensures
        match r {
            Some((n, v)) => spec_name_value(rest@) == Some(
                (
                    n@,
                    match v {
                        Some(x) => Some(x@),
                        None => None::<Seq<char>>,
                    },
                ),
            ),
            None => spec_name_value(rest@) is None,
        },
{
    let ne = scan_until_ws(rest, true);
    let name = slice_of(rest, 0, ne);
    if name.len() == 0 {
        return None;
    }
    let tail = slice_of(rest, ne, rest.len());
    let v0 = trim_start_chars(&tail);
    let v1 = if v0.len() > 0 && v0[0] == '=' {
        let after = slice_of(&v0, 1, v0.len());
        assert(after@ == v0@.drop_first());
        trim_start_chars(&after)
    } else {
        v0
    };
    let value = match first_field(&v1) {
        Some(f) => Some(strip_edge_quotes(&f)),
        None => None,
    };
    Some((name, value))
}

fn instruction_from(kw: &str, rest: &Vec<char>) -> (r: Option<Instruction>)
    ensures
        match r {
            Some(i) => instruction_with(kw@, rest@) == Some(i@),
            None => instruction_with(kw@, rest@) is None,
        },
{
    match parse_instruction_name_value(rest) {
        Some((name, value)) => Some(
            Instruction {
                instruction: from_chars(&to_chars(kw)),
                name: from_chars(&name),
                value: opt_string(value),
            },
        ),
        None => None,
    }
}

/// Parses an `ARG`, `ENV` or `USER` line (keywords in any case).
pub fn parse_instruction_line(line: &Vec<char>) -> (r: Option<Instruction>)
    requires
        !keyword_test_cuts_char(line@),
    ensures
        match r {
            Some(i) => spec_parse_instruction_line(line@) == Some(i@),
            None => spec_parse_instruction_line(line@) is None,
        },
{
    let t = trim_start_chars(line);
    match strip_keyword(&t, "ARG") {
        Some(rest) => instruction_from("ARG", &rest),
        None => match strip_keyword(&t, "ENV") {
            Some(rest) => instruction_from("ENV", &rest),
            None => match strip_keyword(&t, "USER") {
                Some(rest) => instruction_from("USER", &rest),
                None => None,
            },
        },
    }
}

proof fn lemma_instruction_views_push(v: Seq<Instruction>, i: Instruction)
    ensures
        instruction_views(v.push(i)) == instruction_views(v).push(i@),
{
    assert(instruction_views(v.push(i)) =~= instruction_views(v).push(i@));
}

/// The instructions found on the lines of a section of a Dockerfile.
pub fn extract_instructions(section: &Vec<char>) -> (r: Vec<Instruction>)
    requires
        lines_keep_keywords_whole(section@),
    ensures
        instruction_views(r@) == instructions_of(lines(section@)),
{
    let ls = lines_chars(section);
    let ghost lv = views(ls@);
    let mut r: Vec<Instruction> = Vec::new();
    let mut k: usize = 0;
    assert(lv.skip(0) =~= lv);
    assert(instruction_views(r@) + instructions_of(lv) =~= instructions_of(lv));
    while k < ls.len()
        invariant
            k <= ls.len(),
            lv == views(ls@),
            lv == lines(section@),
            instruction_views(r@) + instructions_of(lv.skip(k as int)) == instructions_of(lv),
            lines_keep_keywords_whole(section@),
        decreases ls.len() - k,
    {
        assert(lv[k as int] == ls@[k as int]@);
        assert(lv.skip(k as int).drop_first() =~= lv.skip(k + 1));
        assert(lv.skip(k as int)[0] == lv[k as int]);
        match parse_instruction_line(&ls[k]) {
            Some(i) => {
                proof {
                    lemma_instruction_views_push(r@, i);
                    assert(instruction_views(r@).push(i@) + instructions_of(lv.skip(k + 1))
                        =~= instruction_views(r@) + (seq![i@] + instructions_of(lv.skip(k + 1))));
                }
                r.push(i);
            },
            None => {},
        }
        k = k + 1;
    }
    assert(lv.skip(k as int) =~= Seq::<Seq<char>>::empty());
    assert(instruction_views(r@) + Seq::<InstructionView>::empty() =~= instruction_views(r@));
    r
}


/// The value of the first pair with the given key.
pub open spec fn lookup_first(pairs: Seq<(Seq<char>, Seq<char>)>, key: Seq<char>) -> Option<Seq<char>>
    decreases pairs.len(),
{
    if pairs.len() == 0 {
        None
    } else if pairs[0].0 == key {
        Some(pairs[0].1)
    } else {
        lookup_first(pairs.drop_first(), key)
    }
}

/// The leading `# name=value` parser directives of a preamble: names in lower
/// case, values trimmed, the first of each name kept, reading stopping at the
/// first line that is not such a directive.
pub open spec fn directives_in(ls: Seq<Seq<char>>, acc: Seq<(Seq<char>, Seq<char>)>) -> Seq<(Seq<char>, Seq<char>)>
    decreases ls.len(),
{
    if ls.len() == 0 {
        acc
    } else {
        match strip_prefix(trim_start(ls[0]), "#"@) {
            None => acc,
            Some(after) => match split_once(after, '=') {
                None => acc,
                Some((n, v)) => {
                    let name = lower(trim(n));
                    let value = trim(v);
                    if name.len() == 0 || value.len() == 0 {
                        acc
                    } else {
                        directives_in(
                            ls.drop_first(),
                            if lookup_first(acc, name) is Some {
                                acc
                            } else {
                                acc.push((name, value))
                            },
                        )
                    }
                },
            },
        }
    }
}

pub open spec fn spec_extract_directives(preamble: Seq<char>) -> Seq<(Seq<char>, Seq<char>)> {
    directives_in(lines(preamble), seq![])
}

pub open spec fn pair_views(v: Seq<(String, String)>) -> Seq<(Seq<char>, Seq<char>)> {
    v.map_values(|p: (String, String)| (p.0@, p.1@))
}

fn lookup_first_exec(pairs: &Vec<(String, String)>, key: &Vec<char>) -> (r: Option<Vec<char>>)
    ensures
        match r {
            Some(v) => lookup_first(pair_views(pairs@), key@) == Some(v@),
            None => lookup_first(pair_views(pairs@), key@) is None,
        },
{
    let ghost pv = pair_views(pairs@);
    let mut k: usize = 0;
    assert(pv.skip(0) =~= pv);
    while k < pairs.len()
        invariant
            k <= pairs.len(),
            pv == pair_views(pairs@),
            lookup_first(pv, key@) == lookup_first(pv.skip(k as int), key@),
        decreases pairs.len() - k,
    {
        assert(pv.skip(k as int).drop_first() =~= pv.skip(k + 1));
        assert(pv.skip(k as int)[0] == pv[k as int]);
        let kc = to_chars(pairs[k].0.as_str());
        if crate::text::chars_eq(&kc, key) {
            return Some(to_chars(pairs[k].1.as_str()));
        }
        k = k + 1;
    }
    None
}

proof fn lemma_pair_views_push(v: Seq<(String, String)>, p: (String, String))
    ensures
        pair_views(v.push(p)) == pair_views(v).push((p.0@, p.1@)),
{
    assert(pair_views(v.push(p)) =~= pair_views(v).push((p.0@, p.1@)));
}

/// The parser directives at the top of a preamble.
pub fn extract_directives(preamble: &Vec<char>) -> (r: Vec<(String, String)>)
    ensures
        pair_views(r@) == spec_extract_directives(preamble@),
{
    let ls = lines_chars(preamble);
    let ghost lv = views(ls@);
    let mut r: Vec<(String, String)> = Vec::new();
    let mut k: usize = 0;
    assert(lv.skip(0) =~= lv);
    assert(pair_views(r@) =~= Seq::<(Seq<char>, Seq<char>)>::empty());
    while k < ls.len()
        invariant
            k <= ls.len(),
            lv == views(ls@),
            lv == lines(preamble@),
            spec_extract_directives(preamble@) == directives_in(lv.skip(k as int), pair_views(r@)),
        decreases ls.len() - k,
    {
        assert(lv[k as int] == ls@[k as int]@);
        assert(lv.skip(k as int).drop_first() =~= lv.skip(k + 1));
        assert(lv.skip(k as int)[0] == lv[k as int]);
        let t = trim_start_chars(&ls[k]);
        let after = match strip_prefix_str(&t, "#") {
            None => {
                return r;
            },
            Some(a) => a,
        };
        let (n, v) = match split_once_chars(&after, '=') {
            None => {
                return r;
            },
            Some(p) => p,
        };
        let tn = trim_chars(&n);
        let name = lower_chars(&tn);
        let value = trim_chars(&v);
        if name.len() == 0 || value.len() == 0 {
            return r;
        }
        if lookup_first_exec(&r, &name).is_none() {
            let p = (from_chars(&name), from_chars(&value));
            proof {
                lemma_pair_views_push(r@, p);
            }
            r.push(p);
        }
        k = k + 1;
    }
    assert(lv.skip(k as int) =~= Seq::<Seq<char>>::empty());
    r
}

/// The version that a `syntax` directive names for the official Dockerfile
/// frontend (`latest` when it names none), or none for other frontends.
pub open spec fn spec_syntax_version(syntax: Seq<char>) -> Option<Seq<char>> {
    let s = lower(syntax);
    if s == "docker/dockerfile"@ {
        Some("latest"@)
    } else if strip_prefix(s, "docker/dockerfile"@) is Some && strip_prefix(
        strip_prefix(s, "docker/dockerfile"@)->0,
        ":"@,
    ) is Some {
        strip_prefix(strip_prefix(s, "docker/dockerfile"@)->0, ":"@)
    } else if s == "docker.io/docker/dockerfile"@ {
        Some("latest"@)
    } else if strip_prefix(s, "docker.io/docker/dockerfile"@) is Some && strip_prefix(
        strip_prefix(s, "docker.io/docker/dockerfile"@)->0,
        ":"@,
    ) is Some {
        strip_prefix(strip_prefix(s, "docker.io/docker/dockerfile"@)->0, ":"@)
    } else {
        None
    }
}

fn version_after(s: &Vec<char>, prefix: &str) -> (r: Option<Vec<char>>)
    ensures
        match r {
            Some(v) => s@ == prefix@ && v@ == "latest"@ || s@ != prefix@ && strip_prefix(s@, prefix@) is Some
                && strip_prefix(strip_prefix(s@, prefix@)->0, ":"@) == Some(v@),
            None => s@ != prefix@ && (strip_prefix(s@, prefix@) is None || strip_prefix(
                strip_prefix(s@, prefix@)->0,
                ":"@,
            ) is None),
        },
{
    if crate::text::is(s, prefix) {
        return Some(to_chars("latest"));
    }
    match strip_prefix_str(s, prefix) {
        Some(rest) => strip_prefix_str(&rest, ":"),
        None => None,
    }
}

pub fn dockerfile_syntax_version(syntax: &Vec<char>) -> (r: Option<Vec<char>>)
    ensures
        match r {
            Some(v) => spec_syntax_version(syntax@) == Some(v@),
            None => spec_syntax_version(syntax@) is None,
        },
{
    let s = lower_chars(syntax);
    match version_after(&s, "docker/dockerfile") {
        Some(v) => Some(v),
        None => version_after(&s, "docker.io/docker/dockerfile"),
    }
}


/// The preamble text and the text of each stage: a stage runs from a `FROM`
/// line up to the next one, and the preamble is what comes before the first.
pub open spec fn sections_from(pieces: Seq<Seq<char>>, preamble: Seq<char>, stages: Seq<Seq<char>>, current: Option<Seq<char>>) -> (Seq<char>, Seq<Seq<char>>)
    decreases pieces.len(),
{
    if pieces.len() == 0 {
        (
            preamble,
            match current {
                Some(c) => stages.push(c),
                None => stages,
            },
        )
    } else {
        let line = pieces[0];
        if spec_is_from_line(line) {
            sections_from(
                pieces.drop_first(),
                preamble,
                match current {
                    Some(c) => stages.push(c),
                    None => stages,
                },
                Some(line),
            )
        } else {
            match current {
                Some(c) => sections_from(pieces.drop_first(), preamble, stages, Some(c + line)),
                None => sections_from(pieces.drop_first(), preamble + line, stages, None),
            }
        }
    }
}

pub open spec fn sections(d: Seq<char>) -> (Seq<char>, Seq<Seq<char>>) {
    sections_from(split_inclusive_nl(d), seq![], seq![], None)
}

pub open spec fn unknown_from() -> FromView {
    FromView { platform: None, image: "unknown"@, label: None }
}

/// The `FROM` clause of the first line that parses as one.
pub open spec fn first_from(ls: Seq<Seq<char>>) -> FromView
    decreases ls.len(),
{
    if ls.len() == 0 {
        unknown_from()
    } else {
        match spec_parse_from_line(ls[0]) {
            Some(f) => f.from,
            None => first_from(ls.drop_first()),
        }
    }
}

pub struct StageView {
    pub from: FromView,
    pub instructions: Seq<InstructionView>,
}

pub open spec fn stage_view_of(stage: Seq<char>) -> StageView {
    StageView { from: first_from(lines(stage)), instructions: instructions_of(lines(stage)) }
}

pub struct PreambleView {
    pub version: Option<Seq<char>>,
    pub directives: Seq<(Seq<char>, Seq<char>)>,
    pub instructions: Seq<InstructionView>,
}

pub struct DockerfileView {
    pub preamble: PreambleView,
    pub stages: Seq<StageView>,
}

/// The structure of a Dockerfile: its preamble (parser directives, the version
/// of the official frontend named by `syntax`, and its instructions) and its stages.
pub open spec fn spec_extract_dockerfile(d: Seq<char>) -> DockerfileView {
    let (pre, sts) = sections(d);
    let directives = spec_extract_directives(pre);
    DockerfileView {
        preamble: PreambleView {
            version: match lookup_first(directives, "syntax"@) {
                Some(x) => spec_syntax_version(x),
                None => None,
            },
            directives,
            instructions: instructions_of(lines(pre)),
        },
        stages: sts.map_values(|st: Seq<char>| stage_view_of(st)),
    }
}

#[derive(Debug)]
pub struct Stage {
    pub from: From,
    pub instructions: Vec<Instruction>,
}

impl View for Stage {
    type V = StageView;

    open spec fn view(&self) -> StageView {
        StageView { from: self.from@, instructions: instruction_views(self.instructions@) }
    }
}

#[derive(Debug)]
pub struct Preamble {
    pub version: Option<String>,
    pub directives: Vec<(String, String)>,
    pub instructions: Vec<Instruction>,
}

impl View for Preamble {
    type V = PreambleView;

    open spec fn view(&self) -> PreambleView {
        PreambleView {
            version: opt_view(self.version),
            directives: pair_views(self.directives@),
            instructions: instruction_views(self.instructions@),
        }
    }
}

#[derive(Debug)]
pub struct Dockerfile {
    pub preamble: Preamble,
    pub stages: Vec<Stage>,
}

pub open spec fn stage_views(v: Seq<Stage>) -> Seq<StageView> {
    v.map_values(|s: Stage| s@)
}

impl View for Dockerfile {
    type V = DockerfileView;

    open spec fn view(&self) -> DockerfileView {
        DockerfileView { preamble: self.preamble@, stages: stage_views(self.stages@) }
    }
}

fn split_sections(d: &Vec<char>) -> (r: (Vec<char>, Vec<Vec<char>>))
    ensures
        sections(d@) == (r.0@, views(r.1@)),
{
    let pieces = split_inclusive_nl_chars(d);
    let ghost pv = views(pieces@);
    let mut preamble: Vec<char> = Vec::new();
    let mut stages: Vec<Vec<char>> = Vec::new();
    let mut current: Option<Vec<char>> = None;
    let mut k: usize = 0;
    assert(pv.skip(0) =~= pv);
    assert(views(stages@) =~= Seq::<Seq<char>>::empty());
    while k < pieces.len()
        invariant
            k <= pieces.len(),
            pv == views(pieces@),
            pv == split_inclusive_nl(d@),
            sections(d@) == sections_from(
                pv.skip(k as int),
                preamble@,
                views(stages@),
                match current {
                    Some(c) => Some(c@),
                    None => None,
                },
            ),
        decreases pieces.len() - k,
    {
        assert(pv[k as int] == pieces@[k as int]@);
        assert(pv.skip(k as int).drop_first() =~= pv.skip(k + 1));
        assert(pv.skip(k as int)[0] == pv[k as int]);
        let line = slice_of(&pieces[k], 0, pieces[k].len());
        assert(line@ =~= pv[k as int]);
        if is_from_line(&line) {
            match current {
                Some(c) => {
                    proof {
                        crate::text::lemma_views_push_pub(stages@, c);
                    }
                    stages.push(c);
                },
                None => {},
            }
            current = Some(line);
        } else {
            match current {
                Some(c) => {
                    let mut c2 = c;
                    push_all(&mut c2, &line);
                    current = Some(c2);
                },
                None => {
                    push_all(&mut preamble, &line);
                },
            }
        }
        k = k + 1;
    }
    match current {
        Some(c) => {
            proof {
                crate::text::lemma_views_push_pub(stages@, c);
            }
            stages.push(c);
        },
        None => {},
    }
    (preamble, stages)
}

fn stage_from(stage: &Vec<char>) -> (r: From)
    ensures
        r@ == first_from(lines(stage@)),
{
    let ls = lines_chars(stage);
    let ghost lv = views(ls@);
    let mut k: usize = 0;
    assert(lv.skip(0) =~= lv);
    while k < ls.len()
        invariant
            k <= ls.len(),
            lv == views(ls@),
            lv == lines(stage@),
            first_from(lv) == first_from(lv.skip(k as int)),
        decreases ls.len() - k,
    {
        assert(lv[k as int] == ls@[k as int]@);
        assert(lv.skip(k as int).drop_first() =~= lv.skip(k + 1));
        assert(lv.skip(k as int)[0] == lv[k as int]);
        match parse_from_line(&ls[k]) {
            Some(f) => {
                return f.from;
            },
            None => {},
        }
        k = k + 1;
    }
    assert(lv.skip(k as int) =~= Seq::<Seq<char>>::empty());
    From { platform: None, image: from_chars(&to_chars("unknown")), label: None }
}

/// Reads a Dockerfile into its preamble and stages.
pub fn extract_dockerfile(dockerfile: &str) -> (r: Dockerfile)
    requires
        keywords_whole(dockerfile@),
    ensures
        r@ == spec_extract_dockerfile(dockerfile@),
{
    let d = to_chars(dockerfile);
    let (pre, sts) = split_sections(&d);
    let ghost sv = views(sts@);
    let directives = extract_directives(&pre);
    let version = match lookup_first_exec(&directives, &to_chars("syntax")) {
        Some(x) => opt_string(dockerfile_syntax_version(&x)),
        None => None,
    };
    let preamble_instructions = extract_instructions(&pre);
    let mut stages: Vec<Stage> = Vec::new();
    let mut k: usize = 0;
    while k < sts.len()
        invariant
            k <= sts.len(),
            sv == views(sts@),
            stages@.len() == k,
            forall|j: int| 0 <= j < k ==> #[trigger] stages@[j]@ == stage_view_of(sv[j]),
            forall|j: int| 0 <= j < sv.len() ==> lines_keep_keywords_whole(#[trigger] sv[j]),
        decreases sts.len() - k,
    {
        assert(sv[k as int] == sts@[k as int]@);
        let st = Stage { from: stage_from(&sts[k]), instructions: extract_instructions(&sts[k]) };
        stages.push(st);
        k = k + 1;
    }
    let r = Dockerfile {
        preamble: Preamble { version, directives, instructions: preamble_instructions },
        stages,
    };
    assert(stage_views(r.stages@) =~= sv.map_values(|st: Seq<char>| stage_view_of(st)));
    r
}


/// The numbers among the pieces, in order, skipping pieces that do not parse.
pub open spec fn parsed_parts(ps: Seq<Seq<char>>) -> Seq<u64>
    decreases ps.len(),
{
    if ps.len() == 0 {
        seq![]
    } else {
        match parse_u64(ps[0]) {
            Some(n) => seq![n] + parsed_parts(ps.drop_first()),
            None => parsed_parts(ps.drop_first()),
        }
    }
}

/// Whether a dotted numeric frontend version is at least 1.4 (a bare major
/// version at least 1).
pub open spec fn spec_numeric_version_supports(v: Seq<char>) -> bool {
    let p = parsed_parts(split(v, '.'));
    if p.len() == 1 {
        p[0] >= 1
    } else if p.len() >= 2 {
        p[0] > 1 || (p[0] == 1 && p[1] >= 4)
    } else {
        false
    }
}

pub fn numeric_version_supports_build_contexts(v: &Vec<char>) -> (r: bool)
    ensures
        r == spec_numeric_version_supports(v@),
{
    let ps = split_chars(v, '.');
    let ghost pv = views(ps@);
    let mut parts: Vec<u64> = Vec::new();
    let mut k: usize = 0;
    assert(pv.skip(0) =~= pv);
    assert(parts@ + parsed_parts(pv) =~= parsed_parts(pv));
    while k < ps.len()
        invariant
            k <= ps.len(),
            pv == views(ps@),
            pv == split(v@, '.'),
            parts@ + parsed_parts(pv.skip(k as int)) == parsed_parts(pv),
        decreases ps.len() - k,
    {
        assert(pv[k as int] == ps@[k as int]@);
        assert(pv.skip(k as int).drop_first() =~= pv.skip(k + 1));
        assert(pv.skip(k as int)[0] == pv[k as int]);
        match parse_u64_chars(&ps[k]) {
            Some(n) => {
                assert(parts@.push(n) + parsed_parts(pv.skip(k + 1)) =~= parts@ + (seq![n]
                    + parsed_parts(pv.skip(k + 1))));
                parts.push(n);
            },
            None => {},
        }
        k = k + 1;
    }
    assert(pv.skip(k as int) =~= Seq::<Seq<char>>::empty());
    assert(parts@ + Seq::<u64>::empty() =~= parts@);
    if parts.len() == 1 {
        parts[0] >= 1
    } else if parts.len() >= 2 {
        parts[0] > 1 || (parts[0] == 1 && parts[1] >= 4)
    } else {
        false
    }
}

/// Whether a Dockerfile's frontend supports additional build contexts.
#[derive(Debug, PartialEq, Eq, Structural)]
pub enum BuildContextSupport {
    Supported,
    Unsupported,
    Unknown,
}

/// No `syntax` directive: unsupported; a `syntax` directive naming another
/// frontend: unknown; a version without a leading numeric part (such as `latest`):
/// supported; otherwise supported exactly from version 1.4 on.
pub open spec fn spec_supports_build_contexts(d: DockerfileView) -> BuildContextSupport {
    match d.preamble.version {
        None => if lookup_first(d.preamble.directives, "syntax"@) is Some {
            BuildContextSupport::Unknown
        } else {
            BuildContextSupport::Unsupported
        },
        Some(v) => {
            let nv = v.take(first_where(v, |c: char| !(is_ascii_digit(c) || c == '.')) as int);
            if nv.len() == 0 {
                BuildContextSupport::Supported
            } else if spec_numeric_version_supports(nv) {
                BuildContextSupport::Supported
            } else {
                BuildContextSupport::Unsupported
            }
        },
    }
}

pub fn supports_build_contexts(dockerfile: &Dockerfile) -> (r: BuildContextSupport)
    ensures
        r == spec_supports_build_contexts(dockerfile@),
{
    match &dockerfile.preamble.version {
        None => {
            if lookup_first_exec(&dockerfile.preamble.directives, &to_chars("syntax")).is_some() {
                BuildContextSupport::Unknown
            } else {
                BuildContextSupport::Unsupported
            }
        },
        Some(version) => {
            let v = to_chars(version.as_str());
            let mut i: usize = 0;
            while i < v.len() && (('0' <= v[i] && v[i] <= '9') || v[i] == '.')
                invariant
                    i <= v.len(),
                    forall|j: int| 0 <= j < i ==> (is_ascii_digit(#[trigger] v@[j]) || v@[j] == '.'),
                decreases v.len() - i,
            {
                i = i + 1;
            }
            proof {
                lemma_first_where_is(v@, |c: char| !(is_ascii_digit(c) || c == '.'), i as nat);
            }
            let nv = slice_of(&v, 0, i);
            if nv.len() == 0 {
                BuildContextSupport::Supported
            } else if numeric_version_supports_build_contexts(&nv) {
                BuildContextSupport::Supported
            } else {
                BuildContextSupport::Unsupported
            }
        },
    }
}


/// Maps given as lists of pairs: a later pair overrides an earlier one with the same key.
pub open spec fn lookup_last(pairs: Seq<(Seq<char>, Seq<char>)>, key: Seq<char>) -> Option<Seq<char>>
    decreases pairs.len(),
{
    if pairs.len() == 0 {
        None
    } else if pairs.last().0 == key {
        Some(pairs.last().1)
    } else {
        lookup_last(pairs.drop_last(), key)
    }
}

pub fn lookup_last_exec(pairs: &Vec<(String, String)>, key: &Vec<char>) -> (r: Option<Vec<char>>)
    ensures
        match r {
            Some(v) => lookup_last(pair_views(pairs@), key@) == Some(v@),
            None => lookup_last(pair_views(pairs@), key@) is None,
        },
{
    let ghost pv = pair_views(pairs@);
    let mut k: usize = pairs.len();
    assert(pv.take(k as int) =~= pv);
    while k > 0
        invariant
            k <= pairs.len(),
            pv == pair_views(pairs@),
            lookup_last(pv, key@) == lookup_last(pv.take(k as int), key@),
        decreases k,
    {
        assert(pv.take(k as int).drop_last() =~= pv.take(k - 1));
        assert(pv.take(k as int).last() == pv[k - 1]);
        let kc = to_chars(pairs[k - 1].0.as_str());
        if chars_eq(&kc, key) {
            return Some(to_chars(pairs[k - 1].1.as_str()));
        }
        k = k - 1;
    }
    None
}

/// The index of the last stage with the given label.
pub open spec fn label_index(stages: Seq<StageView>, label: Seq<char>) -> Option<nat>
    decreases stages.len(),
{
    if stages.len() == 0 {
        None
    } else if stages.last().from.label == Some(label) {
        Some((stages.len() - 1) as nat)
    } else {
        label_index(stages.drop_last(), label)
    }
}

pub proof fn lemma_label_index_bound(stages: Seq<StageView>, label: Seq<char>)
    ensures
        label_index(stages, label) is Some ==> label_index(stages, label)->0 < stages.len(),
    decreases stages.len(),
{
    if stages.len() > 0 {
        lemma_label_index_bound(stages.drop_last(), label);
    }
}

fn label_index_exec(d: &Dockerfile, label: &Vec<char>) -> (r: Option<usize>)
    ensures
        match r {
            Some(i) => label_index(d@.stages, label@) == Some(i as nat) && i < d.stages.len(),
            None => label_index(d@.stages, label@) is None,
        },
{
    let ghost sv = d@.stages;
    let mut k: usize = d.stages.len();
    assert(sv.take(k as int) =~= sv);
    while k > 0
        invariant
            k <= d.stages.len(),
            sv == d@.stages,
            sv.len() == d.stages.len(),
            label_index(sv, label@) == label_index(sv.take(k as int), label@),
        decreases k,
    {
        assert(sv.take(k as int).drop_last() =~= sv.take(k - 1));
        assert(sv.take(k as int).last() == sv[k - 1]);
        assert(sv[k - 1] == d.stages@[k - 1]@);
        match &d.stages[k - 1].from.label {
            Some(l) => {
                let lc = to_chars(l.as_str());
                if chars_eq(&lc, label) {
                    return Some(k - 1);
                }
            },
            None => {},
        }
        k = k - 1;
    }
    None
}

/// The instructions of a scope: 0 is the preamble, `k + 1` the stage `k`.
pub open spec fn scope_instrs(d: DockerfileView, scope: int) -> Seq<InstructionView> {
    if scope == 0 {
        d.preamble.instructions
    } else {
        d.stages[scope - 1].instructions
    }
}

/// Whether an instruction defines `var`: any `ENV`, and where arguments count,
/// an instruction of that name with a default or a build argument.
pub open spec fn defines(ins: InstructionView, var: Seq<char>, consider_arg: bool, args: Seq<(Seq<char>, Seq<char>)>) -> bool {
    ins.name == var && (ins.instruction == "ENV"@ || (consider_arg && (lookup_last(args, ins.name) is Some
        || ins.value is Some)))
}

/// The last instruction before `bound` that defines `var`.
pub open spec fn last_defining(instrs: Seq<InstructionView>, var: Seq<char>, consider_arg: bool, args: Seq<(Seq<char>, Seq<char>)>, bound: nat) -> Option<nat>
    decreases bound,
{
    if bound == 0 {
        None
    } else if defines(instrs[bound - 1], var, consider_arg, args) {
        Some((bound - 1) as nat)
    } else {
        last_defining(instrs, var, consider_arg, args, (bound - 1) as nat)
    }
}

pub proof fn lemma_last_defining_bound(instrs: Seq<InstructionView>, var: Seq<char>, consider_arg: bool, args: Seq<(Seq<char>, Seq<char>)>, bound: nat)
    ensures
        last_defining(instrs, var, consider_arg, args, bound) is Some ==> last_defining(
            instrs,
            var,
            consider_arg,
            args,
            bound,
        )->0 < bound,
    decreases bound,
{
    if bound > 0 {
        lemma_last_defining_bound(instrs, var, consider_arg, args, (bound - 1) as nat);
    }
}

pub open spec fn is_var_char(c: char) -> bool {
    is_ascii_alnum(c) || c == '_'
}

/// A variable reference: its name, its operator (0 for none, 1 for `:-`, 2 for
/// `:+`) and the word after the operator.
pub struct VarExpr {
    pub name: Seq<char>,
    pub op: int,
    pub word: Seq<char>,
}

/// Parses the inside of `${...}`: a name, optionally followed by `:-word` or `:+word`.
pub open spec fn spec_parse_variable_expression(content: Seq<char>) -> Option<VarExpr> {
    let ve = first_where(content, |c: char| !is_var_char(c));
    if ve == 0 {
        None
    } else {
        let name = content.take(ve as int);
        let rest = content.skip(ve as int);
        if rest.len() == 0 {
            Some(VarExpr { name, op: 0, word: seq![] })
        } else if starts_with(rest, ":-"@) {
            Some(VarExpr { name, op: 1, word: rest.skip(2) })
        } else if starts_with(rest, ":+"@) {
            Some(VarExpr { name, op: 2, word: rest.skip(2) })
        } else {
            None
        }
    }
}

pub type Pairs = Seq<(Seq<char>, Seq<char>)>;

/// The input with each `$name` and `${...}` reference replaced by its value as
/// seen from `before` in `scope`; `fuel` bounds how deeply values that refer to
/// further variables are resolved.
pub open spec fn rv(d: DockerfileView, args: Pairs, env: Pairs, gargs: Pairs, input: Seq<char>, scope: int, before: nat, fuel: nat) -> Seq<char>
    decreases fuel, 1nat, input.len(),
{
    if input.len() == 0 {
        seq![]
    } else if input[0] != '$' {
        seq![input[0]] + rv(d, args, env, gargs, input.drop_first(), scope, before, fuel)
    } else if input.len() > 1 && input[1] == '{' {
        let content = input.skip(2);
        match find_char(content, '}') {
            None => seq!['$'] + rv(d, args, env, gargs, input.drop_first(), scope, before, fuel),
            Some(k) => {
                proof {
                    lemma_find_char(content, '}');
                }
                match spec_parse_variable_expression(content.take(k as int)) {
                    Some(e) => resolve(d, args, env, gargs, e, scope, before, fuel) + rv(
                        d,
                        args,
                        env,
                        gargs,
                        input.skip(k as int + 3),
                        scope,
                        before,
                        fuel,
                    ),
                    None => seq!['$'] + rv(d, args, env, gargs, input.drop_first(), scope, before, fuel),
                }
            },
        }
    } else {
        let rest = input.drop_first();
        let n = first_where(rest, |c: char| !is_var_char(c));
        proof {
            lemma_first_where(rest, |c: char| !is_var_char(c));
        }
        if n == 0 {
            seq!['$'] + rv(d, args, env, gargs, rest, scope, before, fuel)
        } else {
            resolve(d, args, env, gargs, VarExpr { name: rest.take(n as int), op: 0, word: seq![] }, scope, before, fuel)
                + rv(d, args, env, gargs, input.skip(n as int + 1), scope, before, fuel)
        }
    }
}

/// Whether a reference starts at `i`: a `$` followed by a variable character,
/// or by `{`, a valid expression and the next `}`.
pub open spec fn starts_reference(input: Seq<char>, i: int) -> bool {
    0 <= i && i + 1 < input.len() && input[i] == '$' && if input[i + 1] == '{' {
        match find_char(input.skip(i + 2), '}') {
            Some(k) => spec_parse_variable_expression(input.skip(i + 2).take(k as int)) is Some,
            None => false,
        }
    } else {
        is_var_char(input[i + 1])
    }
}

/// Text in which no `$` starts a reference (in particular, text without `$`)
/// comes back unchanged from the replacement of variable references, whatever
/// the Dockerfile, the arguments, the scope and the fuel.
pub proof fn law_replace_without_references_is_identity(
    d: DockerfileView,
    args: Pairs,
    env: Pairs,
    gargs: Pairs,
    input: Seq<char>,
    scope: int,
    before: nat,
    fuel: nat,
)
    requires
        forall|i: int| 0 <= i < input.len() ==> !#[trigger] starts_reference(input, i),
    ensures
        rv(d, args, env, gargs, input, scope, before, fuel) == input,
    decreases input.len(),
{
    if input.len() > 0 {
        let rest = input.drop_first();
        assert forall|i: int| 0 <= i < rest.len() implies !#[trigger] starts_reference(rest, i) by {
            assert(!starts_reference(input, i + 1));
            if i + 1 < rest.len() {
                assert(rest.skip(i + 2) =~= input.skip(i + 3));
            }
        }
        law_replace_without_references_is_identity(d, args, env, gargs, rest, scope, before, fuel);
        assert(!starts_reference(input, 0));
        if input[0] == '$' && !(input.len() > 1 && input[1] == '{') {
            lemma_first_where(rest, |c: char| !is_var_char(c));
            if rest.len() > 0 {
                assert(rest[0] == input[1]);
            }
        }
        assert(input =~= seq![input[0]] + rest);
    }
}

/// A reference's value: the variable's value, or for `:-` the unquoted word when
/// that value is empty, or for `:+` the unquoted word when it is not.
pub open spec fn resolve(d: DockerfileView, args: Pairs, env: Pairs, gargs: Pairs, e: VarExpr, scope: int, before: nat, fuel: nat) -> Seq<char>
    decreases fuel, 1nat, 0nat,
{
    let value = match fv(d, args, env, gargs, e.name, scope, before, true, Set::empty(), fuel) {
        Some(v) => v,
        None => seq![],
    };
    if e.op == 1 {
        if value.len() == 0 {
            spec_strip_edge_quotes(e.word)
        } else {
            value
        }
    } else if e.op == 2 {
        if value.len() == 0 {
            value
        } else {
            spec_strip_edge_quotes(e.word)
        }
    } else {
        value
    }
}

pub open spec fn preamble_len(d: DockerfileView) -> nat {
    d.preamble.instructions.len()
}

/// The value of `var` as seen from `before` in `scope`: the last defining
/// instruction there (an `ENV` value, or a build argument or else the `ARG`
/// default, each resolved in turn), else, in a stage, the same search in the
/// stage its `FROM` image names (or in the preamble), and in the preamble the base
/// image's environment and then the platform arguments. Revisiting a scope gives none.
pub open spec fn fv(d: DockerfileView, args: Pairs, env: Pairs, gargs: Pairs, var: Seq<char>, scope: int, before: nat, consider_arg: bool, seen: Set<int>, fuel: nat) -> Option<Seq<char>>
    decreases fuel, 0nat, d.stages.len() + 1 - seen.len(),
{
    if !(0 <= scope <= d.stages.len()) || !seen.finite() || !seen.subset_of(vstd::set_lib::set_int_range(0, d.stages.len() as int + 1)) || seen.contains(scope) {
        None
    } else {
        let seen2 = seen.insert(scope);
        let instrs = scope_instrs(d, scope);
        let bound: nat = if before < instrs.len() {
            before
        } else {
            instrs.len()
        };
        proof {
            lemma_last_defining_bound(instrs, var, consider_arg, args, bound);
        }
        match last_defining(instrs, var, consider_arg, args, bound) {
            Some(i) if instrs[i as int].instruction == "ENV"@ => match instrs[i as int].value {
                Some(v) => if fuel == 0 {
                    None
                } else {
                    Some(rv(d, args, env, gargs, v, scope, i, (fuel - 1) as nat))
                },
                None => None,
            },
            Some(i) if instrs[i as int].instruction == "ARG"@ => {
                let v = match lookup_last(args, instrs[i as int].name) {
                    Some(a) => Some(a),
                    None => instrs[i as int].value,
                };
                match v {
                    Some(v) => if fuel == 0 {
                        None
                    } else {
                        Some(rv(d, args, env, gargs, v, scope, i, (fuel - 1) as nat))
                    },
                    None => None,
                }
            },
            _ => if scope == 0 {
                match lookup_last(env, var) {
                    Some(v) => Some(v),
                    None => lookup_last(gargs, var),
                }
            } else if fuel == 0 {
                None
            } else {
                let image = rv(d, args, env, gargs, d.stages[scope - 1].from.image, 0, preamble_len(d), (fuel - 1) as nat);
                proof {
                    lemma_label_index_bound(d.stages, image);
                    vstd::set_lib::lemma_int_range(0, d.stages.len() as int + 1);
                    vstd::set_lib::lemma_len_subset(seen2, vstd::set_lib::set_int_range(0, d.stages.len() as int + 1));
                }
                let ns: int = match label_index(d.stages, image) {
                    Some(k) => k as int + 1,
                    None => 0,
                };
                fv(d, args, env, gargs, var, ns, scope_instrs(d, ns).len(), ns == 0, seen2, fuel)
            },
        }
    }
}


fn parse_variable_expression(content: &Vec<char>) -> (r: Option<(Vec<char>, u8, Vec<char>)>)
    ensures
        match r {
            Some((n, op, w)) => spec_parse_variable_expression(content@) == Some(
                VarExpr { name: n@, op: op as int, word: w@ },
            ),
            None => spec_parse_variable_expression(content@) is None,
        },
{
    let ve = var_chars_from(content, 0);
    assert(content@.skip(0) =~= content@);
    if ve == 0 {
        return None;
    }
    let name = slice_of(content, 0, ve);
    let rest = slice_of(content, ve, content.len());
    assert(rest@ == content@.skip(ve as int));
    if rest.len() == 0 {
        return Some((name, 0, Vec::new()));
    }
    if starts_with_str(&rest, ":-") {
        proof {
            reveal_strlit(":-");
        }
        return Some((name, 1, slice_of(&rest, 2, rest.len())));
    }
    if starts_with_str(&rest, ":+") {
        proof {
            reveal_strlit(":+");
        }
        return Some((name, 2, slice_of(&rest, 2, rest.len())));
    }
    None
}

/// The number of variable-name characters starting at `from`.
fn var_chars_from(s: &Vec<char>, from: usize) -> (n: usize)
    requires
        from <= s.len(),
    ensures
        n == first_where(s@.skip(from as int), |c: char| !is_var_char(c)),
        from + n <= s.len(),
{
    let mut i = from;
    while i < s.len() && (('a' <= s[i] && s[i] <= 'z') || ('A' <= s[i] && s[i] <= 'Z') || ('0' <= s[i]
        && s[i] <= '9') || s[i] == '_')
        invariant
            from <= i <= s.len(),
            forall|j: int| from <= j < i ==> is_var_char(#[trigger] s@[j]),
        decreases s.len() - i,
    {
        i = i + 1;
    }
    proof {
        let t = s@.skip(from as int);
        assert forall|j: int| 0 <= j < i - from implies !!is_var_char(#[trigger] t[j]) by {
            assert(t[j] == s@[from + j]);
        }
        if i < s.len() {
            assert(t[i - from] == s@[i as int]);
        }
        lemma_first_where_is(t, |c: char| !is_var_char(c), (i - from) as nat);
    }
    i - from
}

pub open spec fn instrs_of_scope(d: &Dockerfile, scope: int) -> Seq<Instruction> {
    if scope == 0 {
        d.preamble.instructions@
    } else {
        d.stages@[scope - 1].instructions@
    }
}

fn last_defining_exec(instrs: &Vec<Instruction>, var: &Vec<char>, consider_arg: bool, args: &Vec<(String, String)>, bound: usize) -> (r: Option<usize>)
    requires
        bound <= instrs.len(),
    ensures
        match r {
            Some(i) => last_defining(instruction_views(instrs@), var@, consider_arg, pair_views(args@), bound as nat) == Some(i as nat) && i < bound,
            None => last_defining(instruction_views(instrs@), var@, consider_arg, pair_views(args@), bound as nat) is None,
        },
{
    let ghost iv = instruction_views(instrs@);
    let mut k = bound;
    while k > 0
        invariant
            k <= bound <= instrs.len(),
            iv == instruction_views(instrs@),
            last_defining(iv, var@, consider_arg, pair_views(args@), bound as nat) == last_defining(iv, var@, consider_arg, pair_views(args@), k as nat),
        decreases k,
    {
        let ins = &instrs[k - 1];
        assert(iv[k - 1] == ins@);
        let name = to_chars(ins.name.as_str());
        let is_env = crate::text::is(&to_chars(ins.instruction.as_str()), "ENV");
        if chars_eq(&name, var) && (is_env || (consider_arg && (lookup_last_exec(args, &name).is_some()
            || ins.value.is_some()))) {
            return Some(k - 1);
        }
        k = k - 1;
    }
    None
}

proof fn lemma_scope_views(d: &Dockerfile, scope: int)
    requires
        0 <= scope <= d.stages.len(),
    ensures
        instruction_views(instrs_of_scope(d, scope)) == scope_instrs(d@, scope),
{
    if scope > 0 {
        assert(d@.stages[scope - 1] == d.stages@[scope - 1]@);
    }
}

/// Replaces variable references in `input` as `rv` describes.
fn replace_variables(d: &Dockerfile, args: &Vec<(String, String)>, env: &Vec<(String, String)>, gargs: &Vec<(String, String)>, input: &Vec<char>, scope: usize, before: usize, fuel: u64) -> (r: Vec<char>)
    requires
        scope <= d.stages.len(),
    ensures
        r@ == rv(d@, pair_views(args@), pair_views(env@), pair_views(gargs@), input@, scope as int, before as nat, fuel as nat),
    decreases fuel, 1nat,
{
    let ghost a = pair_views(args@);
    let ghost e = pair_views(env@);
    let ghost g = pair_views(gargs@);
    let mut out: Vec<char> = Vec::new();
    let mut i: usize = 0;
    assert(input@.skip(0) =~= input@);
    while i < input.len()
        invariant
            i <= input.len(),
            scope <= d.stages.len(),
            a == pair_views(args@),
            e == pair_views(env@),
            g == pair_views(gargs@),
            rv(d@, a, e, g, input@, scope as int, before as nat, fuel as nat) == out@ + rv(d@, a, e, g, input@.skip(i as int), scope as int, before as nat, fuel as nat),
        decreases input.len() - i,
    {
        let ghost rest = input@.skip(i as int);
        assert(rest[0] == input@[i as int]);
        assert(rest.drop_first() =~= input@.skip(i + 1));
        if input[i] != '$' {
            assert(out@.push(input[i as int]) + rv(d@, a, e, g, input@.skip(i + 1), scope as int, before as nat, fuel as nat) =~= out@ + (seq![input@[i as int]] + rv(d@, a, e, g, input@.skip(i + 1), scope as int, before as nat, fuel as nat)));
            out.push(input[i]);
            i = i + 1;
            continue;
        }
        if i + 1 < input.len() && input[i + 1] == '{' {
            assert(rest[1] == input@[i + 1]);
            match find_char_from(input, '}', i + 2) {
                Some(j) => {
                    let content = slice_of(input, i + 2, j);
                    proof {
                        let c = rest.skip(2);
                        assert(c =~= input@.skip(i + 2));
                        crate::text::lemma_find_char_is(c, '}', Some((j - i - 2) as nat));
                        assert(c.take(j - i - 2) =~= content@);
                        assert(rest.skip(j - i - 2 + 3) =~= input@.skip(j + 1));
                    }
                    match parse_variable_expression(&content) {
                        Some((name, op, word)) => {
                            let value = resolve_exec(d, args, env, gargs, &name, op, &word, scope, before, fuel);
                            proof {
                                assert(out@ + value@ + rv(d@, a, e, g, input@.skip(j + 1), scope as int, before as nat, fuel as nat) =~= out@ + (value@ + rv(d@, a, e, g, input@.skip(j + 1), scope as int, before as nat, fuel as nat)));
                            }
                            push_all(&mut out, &value);
                            i = j + 1;
                        },
                        None => {
                            assert(out@.push('$') + rv(d@, a, e, g, input@.skip(i + 1), scope as int, before as nat, fuel as nat) =~= out@ + (seq!['$'] + rv(d@, a, e, g, input@.skip(i + 1), scope as int, before as nat, fuel as nat)));
                            out.push('$');
                            i = i + 1;
                        },
                    }
                },
                None => {
                    proof {
                        let c = rest.skip(2);
                        assert(c =~= input@.skip(i + 2));
                        crate::text::lemma_find_char_is(c, '}', None);
                    }
                    assert(out@.push('$') + rv(d@, a, e, g, input@.skip(i + 1), scope as int, before as nat, fuel as nat) =~= out@ + (seq!['$'] + rv(d@, a, e, g, input@.skip(i + 1), scope as int, before as nat, fuel as nat)));
                    out.push('$');
                    i = i + 1;
                },
            }
            continue;
        }
        proof {
            if i + 1 < input.len() {
                assert(rest[1] == input@[i + 1]);
            }
        }
        let n = var_chars_from(input, i + 1);
        if n == 0 {
            assert(out@.push('$') + rv(d@, a, e, g, input@.skip(i + 1), scope as int, before as nat, fuel as nat) =~= out@ + (seq!['$'] + rv(d@, a, e, g, input@.skip(i + 1), scope as int, before as nat, fuel as nat)));
            out.push('$');
            i = i + 1;
        } else {
            let name = slice_of(input, i + 1, i + 1 + n);
            assert(name@ =~= rest.drop_first().take(n as int));
            assert(rest.skip(n as int + 1) =~= input@.skip(i + 1 + n));
            let value = resolve_exec(d, args, env, gargs, &name, 0, &Vec::new(), scope, before, fuel);
            assert(out@ + value@ + rv(d@, a, e, g, input@.skip(i + 1 + n), scope as int, before as nat, fuel as nat) =~= out@ + (value@ + rv(d@, a, e, g, input@.skip(i + 1 + n), scope as int, before as nat, fuel as nat)));
            push_all(&mut out, &value);
            i = i + 1 + n;
        }
    }
    assert(rv(d@, a, e, g, input@.skip(i as int), scope as int, before as nat, fuel as nat) =~= Seq::<char>::empty());
    assert(out@ + Seq::<char>::empty() =~= out@);
    out
}

fn resolve_exec(d: &Dockerfile, args: &Vec<(String, String)>, env: &Vec<(String, String)>, gargs: &Vec<(String, String)>, name: &Vec<char>, op: u8, word: &Vec<char>, scope: usize, before: usize, fuel: u64) -> (r: Vec<char>)
    requires
        scope <= d.stages.len(),
    ensures
        r@ == resolve(d@, pair_views(args@), pair_views(env@), pair_views(gargs@), VarExpr { name: name@, op: op as int, word: word@ }, scope as int, before as nat, fuel as nat),
    decreases fuel, 0nat, 1nat,
{
    let value = match find_value(d, args, env, gargs, name, scope, before, fuel) {
        Some(v) => v,
        None => Vec::new(),
    };
    if op == 1 {
        if value.len() == 0 {
            strip_edge_quotes(word)
        } else {
            value
        }
    } else if op == 2 {
        if value.len() == 0 {
            value
        } else {
            strip_edge_quotes(word)
        }
    } else {
        value
    }
}

/// Looks a variable up as `fv` describes, starting with arguments considered and no scope visited.
fn find_value(d: &Dockerfile, args: &Vec<(String, String)>, env: &Vec<(String, String)>, gargs: &Vec<(String, String)>, var: &Vec<char>, scope0: usize, before0: usize, fuel: u64) -> (r: Option<Vec<char>>)
    requires
        scope0 <= d.stages.len(),
    ensures
        match r {
            Some(v) => fv(d@, pair_views(args@), pair_views(env@), pair_views(gargs@), var@, scope0 as int, before0 as nat, true, Set::empty(), fuel as nat) == Some(v@),
            None => fv(d@, pair_views(args@), pair_views(env@), pair_views(gargs@), var@, scope0 as int, before0 as nat, true, Set::empty(), fuel as nat) is None,
        },
    decreases fuel, 0nat, 0nat,
{
    let ghost a = pair_views(args@);
    let ghost e = pair_views(env@);
    let ghost g = pair_views(gargs@);
    let ghost dv = d@;
    let ghost total = vstd::set_lib::set_int_range(0, d.stages.len() as int + 1);
    proof {
        vstd::set_lib::lemma_int_range(0, d.stages.len() as int + 1);
    }
    let mut seen_pre = false;
    let mut seen_st: Vec<bool> = Vec::new();
    while seen_st.len() < d.stages.len()
        invariant
            seen_st.len() <= d.stages.len(),
            forall|k: int| 0 <= k < seen_st.len() ==> !seen_st@[k],
        decreases d.stages.len() - seen_st.len(),
    {
        seen_st.push(false);
    }
    let ghost mut seen: Set<int> = Set::empty();
    let mut scope = scope0;
    let mut before = before0;
    let mut consider_arg = true;
    loop
        invariant
            scope <= d.stages.len(),
            seen_st.len() == d.stages.len(),
            dv == d@,
            a == pair_views(args@),
            e == pair_views(env@),
            g == pair_views(gargs@),
            total == vstd::set_lib::set_int_range(0, d.stages.len() as int + 1),
            total.finite(),
            total.len() == d.stages.len() + 1,
            seen.finite(),
            seen.subset_of(total),
            seen_pre <==> seen.contains(0),
            forall|k: int| 0 <= k < d.stages.len() ==> (seen_st@[k] <==> seen.contains(k + 1)),
            fv(dv, a, e, g, var@, scope0 as int, before0 as nat, true, Set::empty(), fuel as nat) == fv(dv, a, e, g, var@, scope as int, before as nat, consider_arg, seen, fuel as nat),
        decreases d.stages.len() + 1 - seen.len(),
    {
        let already = if scope == 0 {
            seen_pre
        } else {
            seen_st[scope - 1]
        };
        if already {
            return None;
        }
        proof {
            vstd::set_lib::lemma_len_subset(seen.insert(scope as int), total);
        }
        if scope == 0 {
            seen_pre = true;
        } else {
            seen_st.set(scope - 1, true);
        }
        let ghost seen2 = seen.insert(scope as int);
        let instrs = if scope == 0 {
            &d.preamble.instructions
        } else {
            &d.stages[scope - 1].instructions
        };
        proof {
            lemma_scope_views(d, scope as int);
            assert(instrs@ == instrs_of_scope(d, scope as int));
        }
        let bound = if before < instrs.len() {
            before
        } else {
            instrs.len()
        };
        let found = last_defining_exec(instrs, var, consider_arg, args, bound);
        match found {
            Some(i) => {
                let ins = &instrs[i];
                assert(instruction_views(instrs@)[i as int] == ins@);
                if crate::text::is(&to_chars(ins.instruction.as_str()), "ENV") {
                    return match &ins.value {
                        Some(v) => if fuel == 0 {
                            None
                        } else {
                            Some(replace_variables(d, args, env, gargs, &to_chars(v.as_str()), scope, i, fuel - 1))
                        },
                        None => None,
                    };
                }
                if crate::text::is(&to_chars(ins.instruction.as_str()), "ARG") {
                    let name = to_chars(ins.name.as_str());
                    let v = match lookup_last_exec(args, &name) {
                        Some(x) => Some(x),
                        None => match &ins.value {
                            Some(x) => Some(to_chars(x.as_str())),
                            None => None,
                        },
                    };
                    return match v {
                        Some(v) => if fuel == 0 {
                            None
                        } else {
                            Some(replace_variables(d, args, env, gargs, &v, scope, i, fuel - 1))
                        },
                        None => None,
                    };
                }
            },
            None => {},
        }
        if scope == 0 {
            return match lookup_last_exec(env, var) {
                Some(v) => Some(v),
                None => lookup_last_exec(gargs, var),
            };
        }
        if fuel == 0 {
            return None;
        }
        let image_text = to_chars(d.stages[scope - 1].from.image.as_str());
        assert(dv.stages[scope - 1] == d.stages@[scope - 1]@);
        let image = replace_variables(d, args, env, gargs, &image_text, 0, d.preamble.instructions.len(), fuel - 1);
        proof {
            lemma_label_index_bound(dv.stages, image@);
        }
        let ns: usize = match label_index_exec(d, &image) {
            Some(k) => k + 1,
            None => 0,
        };
        proof {
            lemma_scope_views(d, ns as int);
            seen = seen2;
        }
        let nb = if ns == 0 {
            d.preamble.instructions.len()
        } else {
            d.stages[ns - 1].instructions.len()
        };
        scope = ns;
        before = nb;
        consider_arg = ns == 0;
    }
}


/// The number of instructions in a list of stages.
pub open spec fn stage_instr_count(stages: Seq<StageView>) -> nat
    decreases stages.len(),
{
    if stages.len() == 0 {
        0
    } else {
        stages.last().instructions.len() + stage_instr_count(stages.drop_last())
    }
}

/// The depth to which variable values are resolved: `(stages + 2) * (instructions + 2)`,
/// at most `u64::MAX`. A chain of nested lookups is determined by its (scope,
/// instruction) steps and the `FROM` images it resolves, of which there are fewer
/// than this, so a deeper chain repeats a step and never ends.
pub open spec fn fuel_for(d: DockerfileView) -> nat {
    let t = d.preamble.instructions.len() + stage_instr_count(d.stages);
    let f = (d.stages.len() + 2) * (t + 2);
    if f > u64::MAX {
        u64::MAX as nat
    } else {
        f
    }
}

fn fuel_exec(d: &Dockerfile) -> (f: u64)
    ensures
        f == fuel_for(d@),
{
    let ghost sv = d@.stages;
    let ghost pre = d.preamble.instructions.len() as int;
    let mut t: u64 = d.preamble.instructions.len() as u64;
    let mut big = false;
    let mut k: usize = 0;
    assert(sv.take(0) =~= Seq::<StageView>::empty());
    while k < d.stages.len()
        invariant
            k <= d.stages.len(),
            sv == d@.stages,
            pre == d.preamble.instructions.len(),
            !big ==> t == pre + stage_instr_count(sv.take(k as int)),
            big ==> pre + stage_instr_count(sv.take(k as int)) > u64::MAX,
        decreases d.stages.len() - k,
    {
        assert(sv.take(k + 1).drop_last() =~= sv.take(k as int));
        assert(sv.take(k + 1).last() == sv[k as int]);
        assert(sv[k as int] == d.stages@[k as int]@);
        let n = d.stages[k].instructions.len() as u64;
        if !big {
            if t > u64::MAX - n {
                big = true;
            } else {
                t = t + n;
            }
        }
        k = k + 1;
    }
    assert(sv.take(k as int) =~= sv);
    let s = d.stages.len() as u64;
    if big || s > u64::MAX - 2 || t > u64::MAX - 2 {
        proof {
            let tt = pre + stage_instr_count(sv);
            let ss = d.stages.len() as int;
            assert((ss + 2) * (tt + 2) >= tt + 2) by (nonlinear_arith)
                requires
                    tt >= 0,
                    ss >= 0,
            ;
            assert((ss + 2) * (tt + 2) >= ss + 2) by (nonlinear_arith)
                requires
                    tt >= 0,
                    ss >= 0,
            ;
        }
        return u64::MAX;
    }
    let a = s + 2;
    let b = t + 2;
    if a > u64::MAX / b {
        assert(a * b > u64::MAX) by (nonlinear_arith)
            requires
                a > u64::MAX / b,
                b > 0,
        ;
        return u64::MAX;
    }
    assert(a * b <= u64::MAX) by (nonlinear_arith)
        requires
            a <= u64::MAX / b,
            b > 0,
    ;
    a * b
}

/// The stage a build targets: the last stage with the target label, or the last stage.
pub open spec fn spec_target_stage_index(d: DockerfileView, target: Option<Seq<char>>) -> Option<nat> {
    match target {
        Some(t) => label_index(d.stages, t),
        None => if d.stages.len() > 0 {
            Some((d.stages.len() - 1) as nat)
        } else {
            None
        },
    }
}

pub fn target_stage_index(d: &Dockerfile, target: Option<&str>) -> (r: Option<usize>)
    ensures
        match r {
            Some(i) => spec_target_stage_index(d@, match target {
                Some(t) => Some(t@),
                None => None,
            }) == Some(i as nat) && i < d.stages.len(),
            None => spec_target_stage_index(d@, match target {
                Some(t) => Some(t@),
                None => None,
            }) is None,
        },
{
    match target {
        Some(t) => label_index_exec(d, &to_chars(t)),
        None => if d.stages.len() > 0 {
            Some(d.stages.len() - 1)
        } else {
            None
        },
    }
}

/// The image a stage is finally built on: its `FROM` image, resolved, followed
/// through stage labels; none when a stage comes round again.
pub open spec fn base_image_from(d: DockerfileView, args: Pairs, gargs: Pairs, stage: int, seen: Set<int>, fuel: nat) -> Option<Seq<char>>
    decreases d.stages.len() - seen.len(),
{
    if !(0 <= stage < d.stages.len()) || !seen.finite() || !seen.subset_of(vstd::set_lib::set_int_range(0, d.stages.len() as int)) || seen.contains(stage) {
        None
    } else {
        let image = rv(d, args, seq![], gargs, d.stages[stage].from.image, 0, preamble_len(d), fuel);
        proof {
            vstd::set_lib::lemma_int_range(0, d.stages.len() as int);
            vstd::set_lib::lemma_len_subset(seen.insert(stage), vstd::set_lib::set_int_range(0, d.stages.len() as int));
            lemma_label_index_bound(d.stages, image);
        }
        match label_index(d.stages, image) {
            None => Some(image),
            Some(k) => base_image_from(d, args, gargs, k as int, seen.insert(stage), fuel),
        }
    }
}

pub open spec fn spec_find_base_image(d: DockerfileView, args: Pairs, target: Option<Seq<char>>, gargs: Pairs) -> Option<Seq<char>> {
    match spec_target_stage_index(d, target) {
        None => None,
        Some(s) => base_image_from(d, args, gargs, s as int, Set::empty(), fuel_for(d)),
    }
}

pub open spec fn opt_str_view(o: Option<&str>) -> Option<Seq<char>> {
    match o {
        Some(t) => Some(t@),
        None => None,
    }
}

/// The base image of the target stage (or of the last stage), with build
/// arguments and global platform arguments substituted into `FROM` lines and
/// stage aliases followed; none when the target names no stage or aliases loop.
pub fn find_base_image(dockerfile: &Dockerfile, build_args: &Vec<(String, String)>, target: Option<&str>, global_buildx_platform_args: &Vec<(String, String)>) -> (r: Option<String>)
    ensures
        opt_view(r) == spec_find_base_image(dockerfile@, pair_views(build_args@), opt_str_view(target), pair_views(global_buildx_platform_args@)),
{
    let ghost dv = dockerfile@;
    let ghost a = pair_views(build_args@);
    let ghost g = pair_views(global_buildx_platform_args@);
    let no_env: Vec<(String, String)> = Vec::new();
    assert(pair_views(no_env@) =~= Seq::<(Seq<char>, Seq<char>)>::empty());
    let fuel = fuel_exec(dockerfile);
    let mut stage = match target_stage_index(dockerfile, target) {
        Some(s) => s,
        None => {
            return None;
        },
    };
    let ghost total = vstd::set_lib::set_int_range(0, dockerfile.stages.len() as int);
    proof {
        vstd::set_lib::lemma_int_range(0, dockerfile.stages.len() as int);
    }
    let mut seen_st: Vec<bool> = Vec::new();
    while seen_st.len() < dockerfile.stages.len()
        invariant
            seen_st.len() <= dockerfile.stages.len(),
            forall|k: int| 0 <= k < seen_st.len() ==> !seen_st@[k],
        decreases dockerfile.stages.len() - seen_st.len(),
    {
        seen_st.push(false);
    }
    let ghost mut seen: Set<int> = Set::empty();
    loop
        invariant
            stage < dockerfile.stages.len(),
            seen_st.len() == dockerfile.stages.len(),
            dv == dockerfile@,
            a == pair_views(build_args@),
            g == pair_views(global_buildx_platform_args@),
            pair_views(no_env@) == Seq::<(Seq<char>, Seq<char>)>::empty(),
            total == vstd::set_lib::set_int_range(0, dockerfile.stages.len() as int),
            total.finite(),
            total.len() == dockerfile.stages.len(),
            seen.finite(),
            seen.subset_of(total),
            forall|k: int| 0 <= k < dockerfile.stages.len() ==> (seen_st@[k] <==> seen.contains(k)),
            spec_find_base_image(dv, a, opt_str_view(target), g) == base_image_from(dv, a, g, stage as int, seen, fuel as nat),
            fuel == fuel_for(dv),
        decreases dockerfile.stages.len() - seen.len(),
    {
        if seen_st[stage] {
            return None;
        }
        proof {
            vstd::set_lib::lemma_len_subset(seen.insert(stage as int), total);
        }
        seen_st.set(stage, true);
        assert(dv.stages[stage as int] == dockerfile.stages@[stage as int]@);
        let image_text = to_chars(dockerfile.stages[stage].from.image.as_str());
        let image = replace_variables(dockerfile, build_args, &no_env, global_buildx_platform_args, &image_text, 0, dockerfile.preamble.instructions.len(), fuel);
        match label_index_exec(dockerfile, &image) {
            None => {
                return Some(from_chars(&image));
            },
            Some(k) => {
                proof {
                    seen = seen.insert(stage as int);
                }
                stage = k;
            },
        }
    }
}

/// The last `USER` instruction before `bound`.
pub open spec fn last_user(instrs: Seq<InstructionView>, bound: nat) -> Option<nat>
    decreases bound,
{
    if bound == 0 {
        None
    } else if instrs[bound - 1].instruction == "USER"@ {
        Some((bound - 1) as nat)
    } else {
        last_user(instrs, (bound - 1) as nat)
    }
}

pub proof fn lemma_last_user_bound(instrs: Seq<InstructionView>, bound: nat)
    ensures
        last_user(instrs, bound) is Some ==> last_user(instrs, bound)->0 < bound,
    decreases bound,
{
    if bound > 0 {
        lemma_last_user_bound(instrs, (bound - 1) as nat);
    }
}

pub open spec fn non_empty(v: Seq<char>) -> Option<Seq<char>> {
    if v.len() == 0 {
        None
    } else {
        Some(v)
    }
}

/// The user a stage runs as: its last `USER` instruction, resolved (none when
/// that comes out empty), else the user of the stage its `FROM` image names;
/// none when the image names no stage or stages come round again.
pub open spec fn user_from(d: DockerfileView, args: Pairs, env: Pairs, gargs: Pairs, stage: int, seen: Set<int>, fuel: nat) -> Option<Seq<char>>
    decreases d.stages.len() - seen.len(),
{
    if !(0 <= stage < d.stages.len()) || !seen.finite() || !seen.subset_of(vstd::set_lib::set_int_range(0, d.stages.len() as int)) || seen.contains(stage) {
        None
    } else {
        let instrs = d.stages[stage].instructions;
        proof {
            lemma_last_user_bound(instrs, instrs.len());
        }
        match last_user(instrs, instrs.len()) {
            Some(i) => non_empty(rv(d, args, env, gargs, instrs[i as int].name, stage + 1, i, fuel)),
            None => {
                let image = rv(d, args, env, gargs, d.stages[stage].from.image, 0, preamble_len(d), fuel);
                proof {
                    vstd::set_lib::lemma_int_range(0, d.stages.len() as int);
                    vstd::set_lib::lemma_len_subset(seen.insert(stage), vstd::set_lib::set_int_range(0, d.stages.len() as int));
                    lemma_label_index_bound(d.stages, image);
                }
                match label_index(d.stages, image) {
                    None => None,
                    Some(k) => user_from(d, args, env, gargs, k as int, seen.insert(stage), fuel),
                }
            },
        }
    }
}

pub open spec fn spec_find_user_statement(d: DockerfileView, args: Pairs, env: Pairs, gargs: Pairs, target: Option<Seq<char>>) -> Option<Seq<char>> {
    match spec_target_stage_index(d, target) {
        None => None,
        Some(s) => user_from(d, args, env, gargs, s as int, Set::empty(), fuel_for(d)),
    }
}

fn last_user_exec(instrs: &Vec<Instruction>) -> (r: Option<usize>)
    ensures
        match r {
            Some(i) => last_user(instruction_views(instrs@), instrs.len() as nat) == Some(i as nat) && i < instrs.len(),
            None => last_user(instruction_views(instrs@), instrs.len() as nat) is None,
        },
{
    let ghost iv = instruction_views(instrs@);
    let mut k = instrs.len();
    while k > 0
        invariant
            k <= instrs.len(),
            iv == instruction_views(instrs@),
            last_user(iv, instrs.len() as nat) == last_user(iv, k as nat),
        decreases k,
    {
        assert(iv[k - 1] == instrs@[k - 1]@);
        if crate::text::is(&to_chars(instrs[k - 1].instruction.as_str()), "USER") {
            return Some(k - 1);
        }
        k = k - 1;
    }
    None
}

/// The user that the target stage (or the last stage) runs as, from its `USER`
/// instructions or those of the stages it builds on, with build arguments, the
/// base image's environment and global platform arguments substituted.
pub fn find_user_statement(dockerfile: &Dockerfile, build_args: &Vec<(String, String)>, base_image_env: &Vec<(String, String)>, global_buildx_platform_args: &Vec<(String, String)>, target: Option<&str>) -> (r: Option<String>)
    ensures
        opt_view(r) == spec_find_user_statement(dockerfile@, pair_views(build_args@), pair_views(base_image_env@), pair_views(global_buildx_platform_args@), opt_str_view(target)),
{
    let ghost dv = dockerfile@;
    let ghost a = pair_views(build_args@);
    let ghost e = pair_views(base_image_env@);
    let ghost g = pair_views(global_buildx_platform_args@);
    let fuel = fuel_exec(dockerfile);
    let mut stage = match target_stage_index(dockerfile, target) {
        Some(s) => s,
        None => {
            return None;
        },
    };
    let ghost total = vstd::set_lib::set_int_range(0, dockerfile.stages.len() as int);
    proof {
        vstd::set_lib::lemma_int_range(0, dockerfile.stages.len() as int);
    }
    let mut seen_st: Vec<bool> = Vec::new();
    while seen_st.len() < dockerfile.stages.len()
        invariant
            seen_st.len() <= dockerfile.stages.len(),
            forall|k: int| 0 <= k < seen_st.len() ==> !seen_st@[k],
        decreases dockerfile.stages.len() - seen_st.len(),
    {
        seen_st.push(false);
    }
    let ghost mut seen: Set<int> = Set::empty();
    loop
        invariant
            stage < dockerfile.stages.len(),
            seen_st.len() == dockerfile.stages.len(),
            dv == dockerfile@,
            a == pair_views(build_args@),
            e == pair_views(base_image_env@),
            g == pair_views(global_buildx_platform_args@),
            total == vstd::set_lib::set_int_range(0, dockerfile.stages.len() as int),
            total.finite(),
            total.len() == dockerfile.stages.len(),
            seen.finite(),
            seen.subset_of(total),
            forall|k: int| 0 <= k < dockerfile.stages.len() ==> (seen_st@[k] <==> seen.contains(k)),
            spec_find_user_statement(dv, a, e, g, opt_str_view(target)) == user_from(dv, a, e, g, stage as int, seen, fuel as nat),
            fuel == fuel_for(dv),
        decreases dockerfile.stages.len() - seen.len(),
    {
        if seen_st[stage] {
            return None;
        }
        proof {
            vstd::set_lib::lemma_len_subset(seen.insert(stage as int), total);
        }
        seen_st.set(stage, true);
        assert(dv.stages[stage as int] == dockerfile.stages@[stage as int]@);
        let instrs = &dockerfile.stages[stage].instructions;
        match last_user_exec(instrs) {
            Some(i) => {
                assert(instruction_views(instrs@)[i as int] == instrs@[i as int]@);
                let name = to_chars(instrs[i].name.as_str());
                let user = replace_variables(dockerfile, build_args, base_image_env, global_buildx_platform_args, &name, stage + 1, i, fuel);
                return if user.len() == 0 {
                    None
                } else {
                    Some(from_chars(&user))
                };
            },
            None => {},
        }
        let image_text = to_chars(dockerfile.stages[stage].from.image.as_str());
        let image = replace_variables(dockerfile, build_args, base_image_env, global_buildx_platform_args, &image_text, 0, dockerfile.preamble.instructions.len(), fuel);
        match label_index_exec(dockerfile, &image) {
            None => {
                return None;
            },
            Some(k) => {
                proof {
                    seen = seen.insert(stage as int);
                }
                stage = k;
            },
        }
    }
}

} // verus!
