//! Pass registration and the parsing of textual pass pipelines.
//!
//! A pipeline is a comma-separated list of elements. An element is a pass
//! name, or an operation name followed by a parenthesised, possibly empty,
//! pipeline that is scoped to that operation: `builtin.module(func.func(cse),
//! canonicalize)`. A name is a run of letters, digits, `_`, `.` and `-`.

use vstd::prelude::*;
use crate::error::Error;
use crate::ir::{contains_name, name_views};

verus! {

/// The passes that can stand in a pipeline, and whether the passes of the
/// library have been registered.
#[derive(Debug)]
pub struct PassRegistry {
    pub passes: Vec<String>,
    pub all_registered: bool,
}

/// The passes of the library, in the order they are registered.
pub open spec fn library_passes() -> Seq<Seq<char>> {
    seq!["canonicalize"@, "cse"@, "inline"@, "sccp"@, "symbol-dce"@, "loop-invariant-code-motion"@]
}

/// The pass names and flag of a registry after `register_all_passes`: the
/// library's passes are appended the first time only.
pub open spec fn after_registration(passes: Seq<Seq<char>>, all_registered: bool) -> (Seq<Seq<char>>, bool) {
    if all_registered {
        (passes, true)
    } else {
        (passes + library_passes(), true)
    }
}

impl PassRegistry {
    /// Creates a registry without passes.
    pub fn new() -> (r: PassRegistry)
        ensures
            r.passes@.len() == 0,
            !r.all_registered,
    {
        PassRegistry { passes: Vec::new(), all_registered: false }
    }
}

/// Registers the passes of the library. The registration happens once per
/// registry: later calls change nothing.
pub fn register_all_passes(registry: &mut PassRegistry)
    ensures
        (name_views(final(registry).passes@), final(registry).all_registered)
            == after_registration(name_views(old(registry).passes@), old(registry).all_registered),
{
    if registry.all_registered {
        return;
    }
    let ghost before = name_views(registry.passes@);
    registry.passes.push(String::from_str("canonicalize"));
    registry.passes.push(String::from_str("cse"));
    registry.passes.push(String::from_str("inline"));
    registry.passes.push(String::from_str("sccp"));
    registry.passes.push(String::from_str("symbol-dce"));
    registry.passes.push(String::from_str("loop-invariant-code-motion"));
    registry.all_registered = true;
    assert(name_views(registry.passes@) =~= before + library_passes());
}

/// Registering the passes any number of times more has the effect of
/// registering them once.
pub proof fn lemma_registration_idempotent(passes: Seq<Seq<char>>, all_registered: bool)
    ensures
        after_registration(after_registration(passes, all_registered).0, after_registration(passes, all_registered).1)
            == after_registration(passes, all_registered),
{
}

/// Adds one chunk of diagnostic text to an accumulated message. The first
/// chunk starts the message and later chunks are appended; a chunk that could
/// not be decoded (`None`) leaves an existing message as it is and, as a first
/// chunk, leaves the message absent.
pub fn handle_parse_error(message: &mut Option<String>, chunk: Option<&str>)
    ensures
        match (*old(message), chunk) {
            (Some(m), Some(c)) => *final(message) matches Some(f) && f@ == m@ + c@,
            (Some(m), None) => *final(message) == Some(m),
            (None, Some(c)) => *final(message) matches Some(f) && f@ == c@,
            (None, None) => final(message).is_none(),
        },
{
    match chunk {
        Some(c) => {
            match message {
                Some(m) => m.append(c),
                None => {
                    *message = Some(String::from_str(c));
                },
            }
        },
        None => {},
    }
}


/// A token of pipeline text.
#[derive(Debug)]
pub enum Token {
    /// A run of name characters.
    Name(String),
    /// `(`
    Open,
    /// `)`
    Close,
    /// `,`
    Comma,
    /// Any other character but a space.
    Other(char),
}

/// A token of pipeline text, as a mathematical value.
pub enum TokenView {
    Name(Seq<char>),
    Open,
    Close,
    Comma,
    Other(char),
}

pub open spec fn token_view(t: Token) -> TokenView {
    match t {
        Token::Name(n) => TokenView::Name(n@),
        Token::Open => TokenView::Open,
        Token::Close => TokenView::Close,
        Token::Comma => TokenView::Comma,
        Token::Other(c) => TokenView::Other(c),
    }
}

pub open spec fn token_views(ts: Seq<Token>) -> Seq<TokenView> {
    ts.map_values(|t: Token| token_view(t))
}

/// A character that can stand in a name.
pub open spec fn is_name_char(c: char) -> bool {
    ('a' <= c && c <= 'z') || ('A' <= c && c <= 'Z') || ('0' <= c && c <= '9') || c == '_' || c == '.' || c == '-'
}

/// The length of the run of name characters that starts a text.
pub open spec fn name_len(s: Seq<char>) -> nat
    decreases s.len(),
{
    if s.len() > 0 && is_name_char(s[0]) {
        1 + name_len(s.subrange(1, s.len() as int))
    } else {
        0
    }
}

/// The tokens of a text: maximal runs of name characters, the three
/// punctuation characters, and any other character but a space.
pub open spec fn tokens(s: Seq<char>) -> Seq<TokenView>
    decreases s.len() via tokens_decreases
{
    if s.len() == 0 {
        Seq::empty()
    } else if is_name_char(s[0]) {
        seq![TokenView::Name(s.subrange(0, name_len(s) as int))] + tokens(s.subrange(name_len(s) as int, s.len() as int))
    } else if s[0] == ' ' {
        tokens(s.subrange(1, s.len() as int))
    } else {
        seq![if s[0] == '(' {
            TokenView::Open
        } else if s[0] == ')' {
            TokenView::Close
        } else if s[0] == ',' {
            TokenView::Comma
        } else {
            TokenView::Other(s[0])
        }] + tokens(s.subrange(1, s.len() as int))
    }
}

/// A run of name characters is no longer than its text.
proof fn lemma_name_len_bounded(s: Seq<char>)
    ensures
        name_len(s) <= s.len(),
    decreases s.len(),
{
    if s.len() > 0 && is_name_char(s[0]) {
        lemma_name_len_bounded(s.subrange(1, s.len() as int));
    }
}

#[via_fn]
proof fn tokens_decreases(s: Seq<char>) {
    lemma_name_len_bounded(s);
}

/// What the grammar expects next.
#[derive(Clone, Copy, Debug, PartialEq, Eq, Structural)]
pub enum Expect {
    /// An element: after a comma.
    Element,
    /// An element or a closing parenthesis: after an opening one.
    ElementOrClose,
    /// An element or the end of the text: at the start.
    ElementOrEnd,
    /// A comma, a closing parenthesis or the end: after an element.
    Separator,
}

/// The tokens form a pipeline, given what is expected first and how many
/// parentheses are open; every pass name is in `passes`.
pub open spec fn accepts(ts: Seq<TokenView>, expect: Expect, depth: nat, passes: Seq<Seq<char>>) -> bool
    decreases ts.len(),
{
    if ts.len() == 0 {
        depth == 0 && (expect == Expect::Separator || expect == Expect::ElementOrEnd)
    } else if expect == Expect::Separator {
        match ts[0] {
            TokenView::Comma => accepts(ts.subrange(1, ts.len() as int), Expect::Element, depth, passes),
            TokenView::Close => depth > 0 && accepts(ts.subrange(1, ts.len() as int), Expect::Separator, (depth - 1) as nat, passes),
            _ => false,
        }
    } else {
        match ts[0] {
            TokenView::Name(n) => if ts.len() > 1 && ts[1] is Open {
                accepts(ts.subrange(2, ts.len() as int), Expect::ElementOrClose, depth + 1, passes)
            } else {
                passes.contains(n) && accepts(ts.subrange(1, ts.len() as int), Expect::Separator, depth, passes)
            },
            TokenView::Close => expect == Expect::ElementOrClose && depth > 0
                && accepts(ts.subrange(1, ts.len() as int), Expect::Separator, (depth - 1) as nat, passes),
            _ => false,
        }
    }
}

/// The pass names of a token sequence, in order: the names that do not open
/// a scope.
pub open spec fn pass_names(ts: Seq<TokenView>) -> Seq<Seq<char>>
    decreases ts.len(),
{
    if ts.len() == 0 {
        Seq::empty()
    } else {
        match ts[0] {
            TokenView::Name(n) => if ts.len() > 1 && ts[1] is Open {
                pass_names(ts.subrange(1, ts.len() as int))
            } else {
                seq![n] + pass_names(ts.subrange(1, ts.len() as int))
            },
            _ => pass_names(ts.subrange(1, ts.len() as int)),
        }
    }
}

/// The text is a pipeline whose passes are all in `passes`.
pub open spec fn pipeline_valid(passes: Seq<Seq<char>>, s: Seq<char>) -> bool {
    accepts(tokens(s), Expect::ElementOrEnd, 0, passes)
}

fn is_name_character(c: char) -> (r: bool)
    ensures
        r == is_name_char(c),
{
    ('a' <= c && c <= 'z') || ('A' <= c && c <= 'Z') || ('0' <= c && c <= '9') || c == '_' || c == '.' || c == '-'
}

/// Splits a text into tokens.
pub fn tokenize(source: &str) -> (ts: Vec<Token>)
    ensures
        token_views(ts@) == tokens(source@),
{
    let ghost s = source@;
    let n = source.unicode_len();
    let mut ts: Vec<Token> = Vec::new();
    let mut i: usize = 0;
    assert(s.subrange(0, n as int) == s);
    assert(token_views(ts@) + tokens(s) == tokens(s));
    while i < n
        invariant
            s == source@,
            n == s.len(),
            i <= n,
            tokens(s) == token_views(ts@) + tokens(s.subrange(i as int, n as int)),
        decreases n - i,
    {
        let ghost rest = s.subrange(i as int, n as int);
        let ghost before = token_views(ts@);
        let c = source.get_char(i);
        if is_name_character(c) {
            let mut j: usize = i + 1;
            proof {
                assert(rest.subrange(1, rest.len() as int) == s.subrange(i + 1, n as int));
            }
            while j < n && is_name_character(source.get_char(j))
                invariant
                    s == source@,
                    n == s.len(),
                    i < j <= n,
                    rest == s.subrange(i as int, n as int),
                    name_len(rest) == (j - i) + name_len(s.subrange(j as int, n as int)),
                decreases n - j,
            {
                proof {
                    let t = s.subrange(j as int, n as int);
                    assert(t.subrange(1, t.len() as int) == s.subrange(j + 1, n as int));
                }
                j = j + 1;
            }
            proof {
                let t = s.subrange(j as int, n as int);
                if j < n {
                    assert(t[0] == s[j as int]);
                }
                assert(name_len(t) == 0);
                assert(rest.subrange(0, name_len(rest) as int) == s.subrange(i as int, j as int));
                assert(rest.subrange(name_len(rest) as int, rest.len() as int) == t);
            }
            let name = String::from_str(source.substring_char(i, j));
            ts.push(Token::Name(name));
            proof {
                assert(token_views(ts@) == before.push(TokenView::Name(s.subrange(i as int, j as int))));
            }
            i = j;
        } else {
            proof {
                assert(rest.subrange(1, rest.len() as int) == s.subrange(i + 1, n as int));
            }
            if c != ' ' {
                let t = if c == '(' {
                    Token::Open
                } else if c == ')' {
                    Token::Close
                } else if c == ',' {
                    Token::Comma
                } else {
                    Token::Other(c)
                };
                ts.push(t);
                proof {
                    assert(token_views(ts@) == before.push(token_view(t)));
                }
            }
            i = i + 1;
        }
    }
    proof {
        assert(s.subrange(n as int, n as int).len() == 0);
        assert(token_views(ts@) + Seq::<TokenView>::empty() == token_views(ts@));
    }
    ts
}


/// Appends one chunk of printed text to a writer, unless an earlier chunk
/// failed. A chunk that could not be decoded (`None`) records the failure and
/// stops later chunks.
pub fn print_string_callback(writer: &mut String, result: &mut Result<(), Error>, chunk: Option<&str>)
    ensures
        old(result).is_err() ==> *final(writer) == *old(writer) && *final(result) == *old(result),
        old(result).is_ok() ==> match chunk {
            Some(c) => final(writer)@ == old(writer)@ + c@ && final(result).is_ok(),
            None => *final(writer) == *old(writer) && (*final(result) matches Err(Error::OperationBuild)),
        },
{
    if result.is_err() {
        return;
    }
    match chunk {
        Some(c) => writer.append(c),
        None => {
            *result = Err(Error::OperationBuild);
        },
    }
}

/// A pass manager anchored on an operation name, holding the passes of the
/// pipelines parsed into it, in order.
#[derive(Debug)]
pub struct OperationPassManager {
    pub anchor: String,
    pub passes: Vec<String>,
}

impl OperationPassManager {
    /// Creates a pass manager without passes.
    pub fn new(anchor: &str) -> (r: OperationPassManager)
        ensures
            r.anchor@ == anchor@,
            r.passes@.len() == 0,
    {
        OperationPassManager { anchor: String::from_str(anchor), passes: Vec::new() }
    }

    /// The number of passes.
    pub fn pass_count(&self) -> (r: usize)
        ensures
            r == self.passes@.len(),
    {
        self.passes.len()
    }
}

/// The diagnostic for a text that is not a valid pipeline.
pub open spec fn invalid_pipeline_message(s: Seq<char>) -> Seq<char> {
    "'"@ + s + "' is not a valid pass pipeline"@
}

/// Checks tokens against the pipeline grammar and collects their pass names.
fn check_tokens(ts: &Vec<Token>, registry: &PassRegistry) -> (r: Option<Vec<String>>)
    ensures
        r is Some <==> accepts(token_views(ts@), Expect::ElementOrEnd, 0, name_views(registry.passes@)),
        r matches Some(found) ==> name_views(found@) == pass_names(token_views(ts@)),
{
    let ghost all = token_views(ts@);
    let ghost passes = name_views(registry.passes@);
    let mut found: Vec<String> = Vec::new();
    let mut expect = Expect::ElementOrEnd;
    let mut depth: usize = 0;
    let mut k: usize = 0;
    assert(all.subrange(0, all.len() as int) == all);
    while k < ts.len()
        invariant
            all == token_views(ts@),
            passes == name_views(registry.passes@),
            k <= ts@.len(),
            depth <= k,
            accepts(all, Expect::ElementOrEnd, 0, passes) == accepts(all.subrange(k as int, all.len() as int), expect, depth as nat, passes),
            pass_names(all) == name_views(found@) + pass_names(all.subrange(k as int, all.len() as int)),
        decreases ts@.len() - k,
    {
        let ghost rest = all.subrange(k as int, all.len() as int);
        let ghost before = name_views(found@);
        assert(rest[0] == token_view(ts@[k as int]));
        assert(rest.subrange(1, rest.len() as int) == all.subrange(k + 1, all.len() as int));
        if expect == Expect::Separator {
            match &ts[k] {
                Token::Comma => {
                    expect = Expect::Element;
                },
                Token::Close => {
                    if depth == 0 {
                        return None;
                    }
                    depth = depth - 1;
                },
                _ => {
                    return None;
                },
            }
            k = k + 1;
        } else {
            match &ts[k] {
                Token::Name(n) => {
                    let opens = k + 1 < ts.len() && matches!(ts[k + 1], Token::Open);
                    if k + 1 < ts.len() {
                        assert(rest[1] == token_view(ts@[k + 1]));
                    }
                    if opens {
                        proof {
                            let r1 = rest.subrange(1, rest.len() as int);
                            assert(r1[0] is Open);
                            assert(r1.subrange(1, r1.len() as int) == all.subrange(k + 2, all.len() as int));
                            assert(rest.subrange(2, rest.len() as int) == all.subrange(k + 2, all.len() as int));
                        }
                        expect = Expect::ElementOrClose;
                        depth = depth + 1;
                        k = k + 2;
                    } else {
                        if !contains_name(&registry.passes, n) {
                            return None;
                        }
                        found.push(n.clone());
                        proof {
                            assert(name_views(found@) == before.push(n@));
                            assert(before.push(n@) + pass_names(all.subrange(k + 1, all.len() as int))
                                == before + (seq![n@] + pass_names(all.subrange(k + 1, all.len() as int))));
                        }
                        expect = Expect::Separator;
                        k = k + 1;
                    }
                },
                Token::Close => {
                    if expect != Expect::ElementOrClose || depth == 0 {
                        return None;
                    }
                    expect = Expect::Separator;
                    depth = depth - 1;
                    k = k + 1;
                },
                _ => {
                    return None;
                },
            }
        }
    }
    if depth != 0 || !(expect == Expect::Separator || expect == Expect::ElementOrEnd) {
        return None;
    }
    proof {
        assert(all.subrange(k as int, all.len() as int).len() == 0);
        assert(name_views(found@) + Seq::<Seq<char>>::empty() == name_views(found@));
    }
    Some(found)
}

/// Parses a pipeline text into a pass manager. On success the text's passes
/// are appended to the manager, in order. On failure the manager is left as
/// it was and the error carries the diagnostic text, which is handed over in
/// chunks and accumulated.
pub fn parse_pass_pipeline(manager: &mut OperationPassManager, registry: &PassRegistry, source: &str) -> (r: Result<(), Error>)
    ensures
        r is Ok <==> pipeline_valid(name_views(registry.passes@), source@),
        r is Ok ==> final(manager).anchor == old(manager).anchor
            && name_views(final(manager).passes@) == name_views(old(manager).passes@) + pass_names(tokens(source@)),
        r matches Err(e) ==> (*final(manager) == *old(manager)
            && (e matches Error::ParsePassPipeline(m) && m@ == invalid_pipeline_message(source@))),
{
    let ts = tokenize(source);
    match check_tokens(&ts, registry) {
        Some(found) => {
            let ghost before = name_views(manager.passes@);
            let mut i: usize = 0;
            while i < found.len()
                invariant
                    i <= found@.len(),
                    name_views(manager.passes@) == before + name_views(found@.subrange(0, i as int)),
                    manager.anchor == old(manager).anchor,
                    before == name_views(old(manager).passes@),
                decreases found@.len() - i,
            {
                let ghost prior = manager.passes@;
                manager.passes.push(found[i].clone());
                proof {
                    assert(manager.passes@ == prior.push(found@[i as int]));
                    assert(name_views(manager.passes@) == name_views(prior).push(found@[i as int]@));
                    assert(found@.subrange(0, i as int + 1) == found@.subrange(0, i as int).push(found@[i as int]));
                    assert(name_views(found@.subrange(0, i as int + 1)) == name_views(found@.subrange(0, i as int)).push(found@[i as int]@));
                }
                i = i + 1;
            }
            assert(found@.subrange(0, found@.len() as int) == found@);
            Ok(())
        },
        None => {
            let mut message: Option<String> = None;
            handle_parse_error(&mut message, Some("'"));
            handle_parse_error(&mut message, Some(source));
            handle_parse_error(&mut message, Some("' is not a valid pass pipeline"));
            match message {
                Some(m) => Err(Error::ParsePassPipeline(m)),
                None => Err(Error::ParsePassPipeline(String::from_str("failed to parse error message in UTF-8"))),
            }
        },
    }
}

/// A text that is not a valid pipeline gives a non-empty diagnostic, and a
/// valid one gives none.
pub proof fn lemma_parse_diagnostics(passes: Seq<Seq<char>>, s: Seq<char>, r: Result<(), Error>)
    requires
        r is Ok <==> pipeline_valid(passes, s),
        r matches Err(e) ==> (e matches Error::ParsePassPipeline(m) && m@ == invalid_pipeline_message(s)),
    ensures
        !pipeline_valid(passes, s) ==> (r matches Err(Error::ParsePassPipeline(m)) && m@.len() > 0),
        pipeline_valid(passes, s) ==> r is Ok,
{
    reveal_strlit("'");
}

} // verus!
