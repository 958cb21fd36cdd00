//! Parsing the provisioning tool's status listing.
//!
//! The raw text is split into lines; the first two lines are a banner and are
//! skipped; box lines follow until an empty line or a line starting with a
//! carriage return; each box line holds the box name and a status keyword as
//! its first two whitespace-separated tokens.

use vstd::prelude::*;

use crate::status::BoxStatus;
use crate::status::spec_status_of_token;

verus! {

/// Line-feed byte, the line separator of the status listing.
pub const LINE_FEED: u8 = 10;

/// Carriage-return byte; a line starting with it ends the box table.
pub const CARRIAGE_RETURN: u8 = 13;

/// ASCII whitespace, as the tokenizer understands it.
pub open spec fn is_ws(b: u8) -> bool {
    b == 9 || b == 10 || b == 11 || b == 12 || b == 13 || b == 32
}

/// Index of the first line-feed byte of `s`, or `s.len()` if there is none.
pub open spec fn first_nl(s: Seq<u8>) -> int
    decreases s.len(),
{
    if s.len() == 0 {
        0
    } else if s[0] == LINE_FEED {
        0
    } else {
        1 + first_nl(s.drop_first())
    }
}

/// Index of the first whitespace byte of `s`, or `s.len()` if there is none.
pub open spec fn first_ws(s: Seq<u8>) -> int
    decreases s.len(),
{
    if s.len() == 0 {
        0
    } else if is_ws(s[0]) {
        0
    } else {
        1 + first_ws(s.drop_first())
    }
}

/// Index of the first non-whitespace byte of `s`, or `s.len()` if there is
/// none.
pub open spec fn first_non_ws(s: Seq<u8>) -> int
    decreases s.len(),
{
    if s.len() == 0 {
        0
    } else if !is_ws(s[0]) {
        0
    } else {
        1 + first_non_ws(s.drop_first())
    }
}

/// The lines of `s`, split at each line-feed byte. The separator is not part
/// of any line; text with no line feed is a single line, so the result is
/// never empty.
pub open spec fn spec_lines(s: Seq<u8>) -> Seq<Seq<u8>>
    decreases s.len(),
{
    let i = first_nl(s);
    if 0 <= i < s.len() {
        seq![s.take(i)] + spec_lines(s.skip(i + 1))
    } else {
        seq![s]
    }
}

/// The whitespace-separated tokens of `s`, in order. Tokens are maximal runs
/// of non-whitespace bytes, so every token is non-empty.
pub open spec fn spec_tokens(s: Seq<u8>) -> Seq<Seq<u8>>
    decreases s.len(),
{
    let p = first_non_ws(s);
    if 0 <= p < s.len() {
        let t = s.skip(p);
        let e = first_ws(t);
        if 0 < e <= t.len() {
            seq![t.take(e)] + spec_tokens(t.skip(e))
        } else {
            seq![t]
        }
    } else {
        Seq::empty()
    }
}

/// A line that ends the box table: empty, or starting with a carriage
/// return.
pub open spec fn is_terminator(line: Seq<u8>) -> bool {
    line.len() == 0 || line[0] == CARRIAGE_RETURN
}

/// Why a status listing failed to parse. Both variants carry the offending
/// line so the operator can see what was rejected.
pub enum SpecParseError {
    /// A retained line with fewer than two whitespace-separated tokens.
    MissingTokens { line: Seq<u8> },
    /// A second token that is none of the four status keywords.
    UnknownStatus { line: Seq<u8>, token: Seq<u8> },
}

/// Parse of one retained box line: first token is the box name, second is
/// the status keyword.
pub open spec fn spec_parse_line(line: Seq<u8>) -> Result<(Seq<u8>, BoxStatus), SpecParseError> {
    let toks = spec_tokens(line);
    if toks.len() < 2 {
        Err(SpecParseError::MissingTokens { line })
    } else {
        match spec_status_of_token(toks[1]) {
            Some(st) => Ok((toks[0], st)),
            None => Err(SpecParseError::UnknownStatus { line, token: toks[1] }),
        }
    }
}

/// Parse of the box lines: records in listing order up to the first
/// terminator line (or the end of input), failing on the first bad line.
pub open spec fn spec_parse_lines(ls: Seq<Seq<u8>>) -> Result<
    Seq<(Seq<u8>, BoxStatus)>,
    SpecParseError,
>
    decreases ls.len(),
{
    if ls.len() == 0 || is_terminator(ls[0]) {
        Ok(Seq::empty())
    } else {
        match spec_parse_line(ls[0]) {
            Ok(p) => match spec_parse_lines(ls.drop_first()) {
                Ok(rest) => Ok(seq![p] + rest),
                Err(e) => Err(e),
            },
            Err(e) => Err(e),
        }
    }
}

/// Parse of a whole status listing: skip the two banner lines, then parse
/// the box lines.
pub open spec fn spec_parse_status(s: Seq<u8>) -> Result<
    Seq<(Seq<u8>, BoxStatus)>,
    SpecParseError,
> {
    let ls = spec_lines(s);
    if ls.len() >= 2 {
        spec_parse_lines(ls.skip(2))
    } else {
        Ok(Seq::empty())
    }
}

/// `first_nl` is the unique index bounded by the length with no line feed
/// before it and a line feed (or the end) at it.
pub proof fn lemma_first_nl_is(t: Seq<u8>, i: int)
    requires
        0 <= i <= t.len(),
        forall|j: int| 0 <= j < i ==> t[j] != LINE_FEED,
        i < t.len() ==> t[i] == LINE_FEED,
    ensures
        first_nl(t) == i,
    decreases i,
{
    if i == 0 {
    } else {
        assert(t[0] != LINE_FEED);
        assert forall|j: int| 0 <= j < i - 1 implies t.drop_first()[j] != LINE_FEED by {
            assert(t.drop_first()[j] == t[j + 1]);
        }
        assert(i - 1 < t.drop_first().len() ==> t.drop_first()[i - 1] == LINE_FEED);
        lemma_first_nl_is(t.drop_first(), i - 1);
    }
}

/// `first_ws` is the unique index bounded by the length with no whitespace
/// before it and whitespace (or the end) at it.
pub proof fn lemma_first_ws_is(t: Seq<u8>, i: int)
    requires
        0 <= i <= t.len(),
        forall|j: int| 0 <= j < i ==> !is_ws(t[j]),
        i < t.len() ==> is_ws(t[i]),
    ensures
        first_ws(t) == i,
    decreases i,
{
    if i == 0 {
    } else {
        assert(!is_ws(t[0]));
        assert forall|j: int| 0 <= j < i - 1 implies !is_ws(t.drop_first()[j]) by {
            assert(t.drop_first()[j] == t[j + 1]);
        }
        assert(i - 1 < t.drop_first().len() ==> is_ws(t.drop_first()[i - 1]));
        lemma_first_ws_is(t.drop_first(), i - 1);
    }
}

/// `first_non_ws` is the unique index bounded by the length with only
/// whitespace before it and a non-whitespace byte (or the end) at it.
pub proof fn lemma_first_non_ws_is(t: Seq<u8>, i: int)
    requires
        0 <= i <= t.len(),
        forall|j: int| 0 <= j < i ==> is_ws(t[j]),
        i < t.len() ==> !is_ws(t[i]),
    ensures
        first_non_ws(t) == i,
    decreases i,
{
    if i == 0 {
    } else {
        assert(is_ws(t[0]));
        assert forall|j: int| 0 <= j < i - 1 implies is_ws(t.drop_first()[j]) by {
            assert(t.drop_first()[j] == t[j + 1]);
        }
        assert(i - 1 < t.drop_first().len() ==> !is_ws(t.drop_first()[i - 1]));
        lemma_first_non_ws_is(t.drop_first(), i - 1);
    }
}

/// The views of a vector of lines, one sequence per line.
pub open spec fn lines_view(v: Seq<Vec<u8>>) -> Seq<Seq<u8>> {
    v.map_values(|l: Vec<u8>| l@)
}

/// If the bytes before `p` are whitespace and `p..e` is a maximal non-empty
/// run of non-whitespace, then that run is the first token and the rest of
/// the tokens are those of the remainder.
pub proof fn lemma_tokens_head(s: Seq<u8>, p: int, e: int)
    requires
        0 <= p < e <= s.len(),
        forall|j: int| 0 <= j < p ==> is_ws(s[j]),
        forall|j: int| p <= j < e ==> !is_ws(s[j]),
        e < s.len() ==> is_ws(s[e]),
    ensures
        spec_tokens(s) == seq![s.subrange(p, e)] + spec_tokens(s.skip(e)),
{
    lemma_first_non_ws_is(s, p);
    let t = s.skip(p);
    assert forall|j: int| 0 <= j < e - p implies !is_ws(t[j]) by {
        assert(t[j] == s[p + j]);
    }
    assert(e - p < t.len() ==> is_ws(t[e - p]));
    lemma_first_ws_is(t, e - p);
    assert(t.take(e - p) =~= s.subrange(p, e));
    assert(t.skip(e - p) =~= s.skip(e));
}

/// All-whitespace (or empty) text has no tokens.
pub proof fn lemma_tokens_all_ws(s: Seq<u8>)
    requires
        forall|j: int| 0 <= j < s.len() ==> is_ws(s[j]),
    ensures
        spec_tokens(s) == Seq::<Seq<u8>>::empty(),
{
    lemma_first_non_ws_is(s, s.len() as int);
}

/// Why a status listing failed to parse; the executable counterpart of
/// `SpecParseError`.
#[derive(Debug, Clone)]
pub enum ParseError {
    /// A retained line with fewer than two whitespace-separated tokens.
    MissingTokens { line: Vec<u8> },
    /// A second token that is none of the four status keywords.
    UnknownStatus { line: Vec<u8>, token: Vec<u8> },
}

impl View for ParseError {
    type V = SpecParseError;

    open spec fn view(&self) -> SpecParseError {
        match self {
            ParseError::MissingTokens { line } => SpecParseError::MissingTokens { line: line@ },
            ParseError::UnknownStatus { line, token } => SpecParseError::UnknownStatus {
                line: line@,
                token: token@,
            },
        }
    }
}

/// Whitespace test on one byte.
fn is_ws_byte(b: u8) -> (r: bool)
    ensures
        r == is_ws(b),
{
    b == 9 || b == 10 || b == 11 || b == 12 || b == 13 || b == 32
}

/// Splits `s` into its lines at each line-feed byte.
fn split_lines(s: &[u8]) -> (r: Vec<Vec<u8>>)
    ensures
        lines_view(r@) == spec_lines(s@),
        r@.len() >= 1,
{
    let n: usize = s.len();
    let mut lines: Vec<Vec<u8>> = Vec::new();
    let mut pos: usize = 0;
    let mut finished = false;
    proof {
        assert(s@.skip(0) =~= s@);
        assert(lines_view(lines@) + spec_lines(s@) =~= spec_lines(s@));
    }
    while !finished
        invariant
            n == s@.len(),
            0 <= pos <= n,
            !finished ==> spec_lines(s@) == lines_view(lines@) + spec_lines(s@.skip(pos as int)),
            finished ==> spec_lines(s@) == lines_view(lines@),
            finished ==> lines@.len() >= 1,
        decreases n - pos + (if finished { 0int } else { 1int }),
    {
        let ghost rest = s@.skip(pos as int);
        let mut j: usize = pos;
        while j < n && s[j] != LINE_FEED
            invariant
                n == s@.len(),
                pos <= j <= n,
                forall|k: int| pos <= k < j ==> s@[k] != LINE_FEED,
            decreases n - j,
        {
            j = j + 1;
        }
        proof {
            assert forall|k: int| 0 <= k < j - pos implies rest[k] != LINE_FEED by {
                assert(rest[k] == s@[pos + k]);
            }
            assert(j - pos < rest.len() ==> rest[j - pos] == LINE_FEED);
            lemma_first_nl_is(rest, j - pos);
        }
        let line: Vec<u8> = vstd::slice::slice_to_vec(vstd::slice::slice_subrange(s, pos, j));
        proof {
            assert(line@ =~= rest.take(j - pos));
        }
        lines.push(line);
        if j == n {
            proof {
                assert(first_nl(rest) == rest.len());
                assert(spec_lines(rest) =~= seq![rest]);
                assert(line@ =~= rest);
                assert(lines_view(lines@) =~= lines_view(lines@.drop_last()) + seq![rest]);
                assert(spec_lines(s@) =~= lines_view(lines@));
            }
            finished = true;
        } else {
            proof {
                assert(0 <= first_nl(rest) < rest.len());
                assert(spec_lines(rest) == seq![rest.take(j - pos)] + spec_lines(
                    rest.skip(j - pos + 1),
                ));
                assert(rest.skip(j - pos + 1) =~= s@.skip(j + 1));
                assert(lines_view(lines@) =~= lines_view(lines@.drop_last()) + seq![line@]);
                assert(spec_lines(s@) =~= lines_view(lines@) + spec_lines(s@.skip(j + 1)));
            }
            pos = j + 1;
        }
    }
    lines
}

/// Parses one retained box line into its name and status.
fn parse_line(line: &[u8]) -> (r: Result<(Vec<u8>, BoxStatus), ParseError>)
    ensures
        (r matches Ok(p) ==> spec_parse_line(line@) == Ok::<(Seq<u8>, BoxStatus), SpecParseError>(
            (p.0@, p.1),
        ) && p.0@.len() > 0),
        (r matches Err(e) ==> spec_parse_line(line@) == Err::<
            (Seq<u8>, BoxStatus),
            SpecParseError,
        >(e@)),
{
    let n: usize = line.len();
    let mut p: usize = 0;
    while p < n && is_ws_byte(line[p])
        invariant
            n == line@.len(),
            0 <= p <= n,
            forall|j: int| 0 <= j < p ==> is_ws(line@[j]),
        decreases n - p,
    {
        p = p + 1;
    }
    if p == n {
        proof {
            lemma_tokens_all_ws(line@);
        }
        return Err(ParseError::MissingTokens { line: vstd::slice::slice_to_vec(line) });
    }
    let mut e1: usize = p;
    while e1 < n && !is_ws_byte(line[e1])
        invariant
            n == line@.len(),
            p <= e1 <= n,
            forall|j: int| p <= j < e1 ==> !is_ws(line@[j]),
        decreases n - e1,
    {
        e1 = e1 + 1;
    }
    proof {
        assert(!is_ws(line@[p as int]));
        lemma_tokens_head(line@, p as int, e1 as int);
    }
    let ghost tail1 = line@.skip(e1 as int);
    let mut p2: usize = e1;
    while p2 < n && is_ws_byte(line[p2])
        invariant
            n == line@.len(),
            e1 <= p2 <= n,
            forall|j: int| e1 <= j < p2 ==> is_ws(line@[j]),
        decreases n - p2,
    {
        p2 = p2 + 1;
    }
    if p2 == n {
        proof {
            assert forall|j: int| 0 <= j < tail1.len() implies is_ws(tail1[j]) by {
                assert(tail1[j] == line@[e1 + j]);
            }
            lemma_tokens_all_ws(tail1);
            assert(spec_tokens(line@).len() == 1);
        }
        return Err(ParseError::MissingTokens { line: vstd::slice::slice_to_vec(line) });
    }
    let mut e2: usize = p2;
    while e2 < n && !is_ws_byte(line[e2])
        invariant
            n == line@.len(),
            p2 <= e2 <= n,
            forall|j: int| p2 <= j < e2 ==> !is_ws(line@[j]),
        decreases n - e2,
    {
        e2 = e2 + 1;
    }
    proof {
        assert forall|j: int| 0 <= j < p2 - e1 implies is_ws(tail1[j]) by {
            assert(tail1[j] == line@[e1 + j]);
        }
        assert forall|j: int| p2 - e1 <= j < e2 - e1 implies !is_ws(tail1[j]) by {
            assert(tail1[j] == line@[e1 + j]);
        }
        assert(e2 - e1 < tail1.len() ==> is_ws(tail1[e2 - e1]));
        assert(!is_ws(tail1[p2 - e1]));
        lemma_tokens_head(tail1, p2 - e1, e2 - e1);
        assert(tail1.subrange(p2 - e1, e2 - e1) =~= line@.subrange(p2 as int, e2 as int));
        assert(spec_tokens(line@).len() >= 2);
        assert(spec_tokens(line@)[0] == line@.subrange(p as int, e1 as int));
        assert(spec_tokens(line@)[1] == line@.subrange(p2 as int, e2 as int));
    }
    let name: Vec<u8> = vstd::slice::slice_to_vec(vstd::slice::slice_subrange(line, p, e1));
    let token: &[u8] = vstd::slice::slice_subrange(line, p2, e2);
    match BoxStatus::from_status_token(token) {
        Some(st) => Ok((name, st)),
        None => Err(
            ParseError::UnknownStatus {
                line: vstd::slice::slice_to_vec(line),
                token: vstd::slice::slice_to_vec(token),
            },
        ),
    }
}

/// Identity and location of one provisioned box.
pub struct VagrantBox {
    /// Name reported by the provisioning tool; never empty.
    pub name: Vec<u8>,
    /// Filesystem path of the working directory this box belongs to.
    pub path: Vec<u8>,
}

/// The name and status of each record, in order.
pub open spec fn records_view(v: Seq<(VagrantBox, BoxStatus)>) -> Seq<(Seq<u8>, BoxStatus)> {
    v.map_values(|p: (VagrantBox, BoxStatus)| (p.0.name@, p.1))
}

/// The records of the first `k` lines of a body whose first `k` lines all
/// parse.
pub open spec fn parsed_prefix(body: Seq<Seq<u8>>, k: int) -> Seq<(Seq<u8>, BoxStatus)> {
    Seq::new(k as nat, |j: int| spec_parse_line(body[j])->Ok_0)
}

/// If the first `k` lines of `body` are non-terminator lines that parse,
/// parsing all of `body` parses those `k` lines and then the rest.
pub proof fn lemma_parse_lines_prefix(body: Seq<Seq<u8>>, k: int)
    requires
        0 <= k <= body.len(),
        forall|j: int| 0 <= j < k ==> !is_terminator(body[j]) && spec_parse_line(body[j]) is Ok,
    ensures
        spec_parse_lines(body.skip(k)) is Ok ==> spec_parse_lines(body) == Ok::<
            Seq<(Seq<u8>, BoxStatus)>,
            SpecParseError,
        >(parsed_prefix(body, k) + spec_parse_lines(body.skip(k))->Ok_0),
        spec_parse_lines(body.skip(k)) is Err ==> spec_parse_lines(body) == spec_parse_lines(
            body.skip(k),
        ),
    decreases k,
{
    if k == 0 {
        assert(body.skip(0) =~= body);
        if spec_parse_lines(body) is Ok {
            assert(parsed_prefix(body, 0) + spec_parse_lines(body)->Ok_0 =~= spec_parse_lines(
                body,
            )->Ok_0);
        }
    } else {
        let rest = body.drop_first();
        assert forall|j: int| 0 <= j < k - 1 implies !is_terminator(rest[j]) && spec_parse_line(
            rest[j],
        ) is Ok by {
            assert(rest[j] == body[j + 1]);
        }
        lemma_parse_lines_prefix(rest, k - 1);
        assert(rest.skip(k - 1) =~= body.skip(k));
        let p0 = spec_parse_line(body[0])->Ok_0;
        if spec_parse_lines(body.skip(k)) is Ok {
            let tail = spec_parse_lines(body.skip(k))->Ok_0;
            assert(spec_parse_lines(rest) == Ok::<Seq<(Seq<u8>, BoxStatus)>, SpecParseError>(
                parsed_prefix(rest, k - 1) + tail,
            ));
            assert(seq![p0] + (parsed_prefix(rest, k - 1) + tail) =~= parsed_prefix(body, k)
                + tail);
        }
    }
}

/// Parses one status listing into box records, in listing order. `directory`
/// is copied into each record as the box's working directory.
pub fn parse_status_output(output: &[u8], directory: &[u8]) -> (r: Result<
    Vec<(VagrantBox, BoxStatus)>,
    ParseError,
>)
    ensures
        (r matches Ok(v) ==> spec_parse_status(output@) == Ok::<
            Seq<(Seq<u8>, BoxStatus)>,
            SpecParseError,
        >(records_view(v@))),
        (r matches Ok(v) ==> forall|i: int|
            0 <= i < v@.len() ==> (#[trigger] v@[i]).0.path@ == directory@
                && v@[i].0.name@.len() > 0),
        (r matches Err(e) ==> spec_parse_status(output@) == Err::<
            Seq<(Seq<u8>, BoxStatus)>,
            SpecParseError,
        >(e@)),
{
    let lines: Vec<Vec<u8>> = split_lines(output);
    let ghost ls = spec_lines(output@);
    let mut records: Vec<(VagrantBox, BoxStatus)> = Vec::new();
    if lines.len() < 2 {
        proof {
            assert(records_view(records@) =~= Seq::<(Seq<u8>, BoxStatus)>::empty());
        }
        return Ok(records);
    }
    let ghost body = ls.skip(2);
    let m: usize = lines.len();
    let mut i: usize = 2;
    while i < m
        invariant
            m == lines@.len(),
            ls == spec_lines(output@),
            lines_view(lines@) == ls,
            ls.len() >= 2,
            body == ls.skip(2),
            2 <= i <= m,
            forall|j: int|
                0 <= j < i - 2 ==> !is_terminator(#[trigger] body[j]) && spec_parse_line(
                    body[j],
                ) is Ok,
            records_view(records@) == parsed_prefix(body, i - 2),
            forall|j: int|
                0 <= j < records@.len() ==> (#[trigger] records@[j]).0.path@ == directory@
                    && records@[j].0.name@.len() > 0,
        decreases m - i,
    {
        proof {
            assert(body[i - 2] == lines@[i as int]@);
        }
        let line: &Vec<u8> = &lines[i];
        if line.len() == 0 || line[0] == CARRIAGE_RETURN {
            proof {
                assert(is_terminator(body[i - 2]));
                assert(body.skip(i - 2)[0] == body[i - 2]);
                assert(spec_parse_lines(body.skip(i - 2)) == Ok::<
                    Seq<(Seq<u8>, BoxStatus)>,
                    SpecParseError,
                >(Seq::empty()));
                lemma_parse_lines_prefix(body, i - 2);
                assert(parsed_prefix(body, i - 2) + Seq::<(Seq<u8>, BoxStatus)>::empty()
                    =~= parsed_prefix(body, i - 2));
                assert(spec_parse_lines(body) == Ok::<Seq<(Seq<u8>, BoxStatus)>, SpecParseError>(
                    parsed_prefix(body, i - 2),
                ));
                assert(spec_parse_status(output@) == Ok::<
                    Seq<(Seq<u8>, BoxStatus)>,
                    SpecParseError,
                >(records_view(records@)));
            }
            return Ok(records);
        }
        match parse_line(line.as_slice()) {
            Ok((name, st)) => {
                let ghost nmv = name@;
                proof {
                    assert(spec_parse_line(body[i - 2]) == Ok::<
                        (Seq<u8>, BoxStatus),
                        SpecParseError,
                    >((nmv, st)));
                }
                let ghost old_records = records@;
                let record = VagrantBox { name, path: vstd::slice::slice_to_vec(directory) };
                records.push((record, st));
                proof {
                    assert(records_view(old_records).len() == parsed_prefix(body, i - 2).len());
                    assert(old_records.len() == i - 2);
                    assert(records@.len() == i - 1);
                    assert forall|j: int|
                        0 <= j < i - 1 implies records_view(records@)[j] == parsed_prefix(
                        body,
                        i - 1,
                    )[j] by {
                        if j < i - 2 {
                            assert(records@[j] == old_records[j]);
                            assert(records_view(old_records)[j] == parsed_prefix(body, i - 2)[j]);
                        } else {
                            assert(records@[j].0.name@ == nmv);
                            assert(records@[j].1 == st);
                        }
                    }
                    assert(records_view(records@) =~= parsed_prefix(body, i - 1));
                }
            },
            Err(e) => {
                proof {
                    assert(!is_terminator(body[i - 2]));
                    assert(body.skip(i - 2)[0] == body[i - 2]);
                    assert(body.skip(i - 2).drop_first() =~= body.skip(i - 1));
                    assert(spec_parse_lines(body.skip(i - 2)) == Err::<
                        Seq<(Seq<u8>, BoxStatus)>,
                        SpecParseError,
                    >(e@));
                    lemma_parse_lines_prefix(body, i - 2);
                }
                return Err(e);
            },
        }
        i = i + 1;
    }
    proof {
        assert(body.skip(m - 2).len() == 0);
        assert(spec_parse_lines(body.skip(m - 2)) == Ok::<
            Seq<(Seq<u8>, BoxStatus)>,
            SpecParseError,
        >(Seq::empty()));
        lemma_parse_lines_prefix(body, m - 2);
        assert(parsed_prefix(body, m - 2) + Seq::<(Seq<u8>, BoxStatus)>::empty() =~= parsed_prefix(
            body,
            m - 2,
        ));
    }
    Ok(records)
}

/// A status listing shaped as a two-line banner, `n` parsable non-terminator
/// box lines, and a terminator line.
pub open spec fn well_formed_status(s: Seq<u8>, n: int) -> bool {
    let ls = spec_lines(s);
    &&& 0 <= n
    &&& ls.len() > 2 + n
    &&& (forall|j: int|
        2 <= j < 2 + n ==> !is_terminator(#[trigger] ls[j]) && spec_parse_line(ls[j]) is Ok)
    &&& is_terminator(ls[2 + n])
}

/// A well-formed listing with `n` box lines parses to exactly `n` records,
/// in listing order: the `j`th record comes from the `j`th box line.
pub proof fn lemma_well_formed_status_parses(s: Seq<u8>, n: int)
    requires
        well_formed_status(s, n),
    ensures
        spec_parse_status(s) is Ok,
        spec_parse_status(s)->Ok_0.len() == n,
        forall|j: int|
            0 <= j < n ==> spec_parse_status(s)->Ok_0[j] == spec_parse_line(
                spec_lines(s)[2 + j],
            )->Ok_0,
{
    let ls = spec_lines(s);
    let body = ls.skip(2);
    assert forall|j: int| 0 <= j < n implies !is_terminator(#[trigger] body[j]) && spec_parse_line(
        body[j],
    ) is Ok by {
        assert(body[j] == ls[j + 2]);
    }
    assert(body.skip(n)[0] == ls[2 + n]);
    assert(spec_parse_lines(body.skip(n)) == Ok::<Seq<(Seq<u8>, BoxStatus)>, SpecParseError>(
        Seq::empty(),
    ));
    lemma_parse_lines_prefix(body, n);
    assert(parsed_prefix(body, n) + Seq::<(Seq<u8>, BoxStatus)>::empty() =~= parsed_prefix(
        body,
        n,
    ));
    assert forall|j: int| 0 <= j < n implies spec_parse_status(s)->Ok_0[j] == spec_parse_line(
        ls[2 + j],
    )->Ok_0 by {
        assert(body[j] == ls[j + 2]);
    }
}

} // verus!
