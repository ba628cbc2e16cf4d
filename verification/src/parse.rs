use vstd::prelude::*;
use vstd::string::StringExecFns;

use crate::ast::ElemView;
use crate::ast::ElementNode;
use crate::ast::ElementType;
use crate::ast::Node;
use crate::ast::NodeView;
use crate::ast::TyView;
use crate::ast::children_view;
use crate::ast::children_wf;
use crate::ast::elem_view;
use crate::ast::elem_wf;
use crate::ast::lemma_children_view;
use crate::ast::node_view;
use crate::ast::node_wf;
use crate::error::ErrView;
use crate::error::TemplateError;
use crate::token::Token;
use crate::token::path_text;
use crate::token::render_path;
use crate::token::render_text;
use crate::token::tokens_text;

verus! {

/// True exactly when `c` is a lowercase character.
pub uninterp spec fn lowercase(c: char) -> bool;

/// Relies on char::is_lowercase: true exactly for the characters with the
/// Unicode property Lowercase; every ASCII letter a-z has it, and no ASCII
/// uppercase letter, digit or underscore does.
#[verifier::external_body]
pub fn char_is_lowercase(c: char) -> (r: bool)
    ensures
        r == lowercase(c),
        'a' <= c && c <= 'z' ==> r,
        'A' <= c && c <= 'Z' ==> !r,
        '0' <= c && c <= '9' ==> !r,
        c == '_' ==> !r,
{
    c.is_lowercase()
}

/// A word of lowercase characters only.
pub open spec fn lowercase_word(s: Seq<char>) -> bool {
    forall|i: int| 0 <= i < s.len() ==> lowercase(#[trigger] s[i])
}

/// A one-token-lookahead view over a linear token stream: an index into an
/// immutable token array.
pub struct Cursor {
    pub tokens: Vec<Token>,
    pub pos: usize,
}

impl Cursor {
    /// The lookahead index never passes the end of the stream.
    pub open spec fn wf(self) -> bool {
        self.pos <= self.tokens@.len()
    }

    /// The whole token stream.
    pub open spec fn toks(self) -> Seq<Token> {
        self.tokens@
    }

    /// The current position.
    pub open spec fn at(self) -> int {
        self.pos as int
    }

    /// A cursor at the start of `tokens`.
    pub fn new(tokens: Vec<Token>) -> (c: Cursor)
        ensures
            c.wf(),
            c.toks() == tokens@,
            c.at() == 0,
    {
        Cursor { tokens, pos: 0 }
    }

    /// Non-consuming single-token lookahead.
    pub fn peek(&self) -> (r: Option<&Token>)
        requires
            self.wf(),
        ensures
            self.at() < self.toks().len() ==> (r matches Some(t) && *t == self.toks()[self.at()]),
            self.at() == self.toks().len() ==> r is None,
    {
        if self.pos < self.tokens.len() {
            Some(&self.tokens[self.pos])
        } else {
            None
        }
    }

    /// True when the next token is the punctuation unit `s`.
    pub fn peek_is_punct(&self, s: &str) -> (r: bool)
        requires
            self.wf(),
        ensures
            r == (self.at() < self.toks().len() && self.toks()[self.at()].is_punct(s@)),
    {
        match self.peek() {
            Some(t) => t.matches_punct(s),
            None => false,
        }
    }

    /// Consumes one token.
    pub fn advance(&mut self)
        requires
            old(self).wf(),
            old(self).at() < old(self).toks().len(),
        ensures
            final(self).wf(),
            final(self).toks() == old(self).toks(),
            final(self).at() == old(self).at() + 1,
    {
        proof {
            assert(self.tokens.len() == self.tokens@.len());
        }
        self.pos = self.pos + 1;
    }

    /// The current position as an index.
    pub fn position(&self) -> (r: usize)
        ensures
            r as int == self.at(),
    {
        self.pos
    }

    /// True when the stream is exhausted.
    pub fn at_end(&self) -> (r: bool)
        requires
            self.wf(),
        ensures
            r == (self.at() == self.toks().len()),
    {
        self.pos == self.tokens.len()
    }
}

/// One step of path accumulation: given the next token, the current nesting
/// depth of angle brackets and whether the previous accumulated token was an
/// identifier, either stop (`None`) or continue with the new depth.
///
/// Accumulation stops at depth zero on non-path punctuation, on a group, on
/// two identifiers back to back (the boundary between a tag name and its
/// content), and on any literal.
pub open spec fn scan_step(t: Token, depth: int, last_ident: bool) -> Option<int> {
    match t {
        Token::Punct(p) => if p@ == "<"@ {
            Some(depth + 1)
        } else if p@ == ">"@ && depth > 0 {
            Some(depth - 1)
        } else if p@ == "::"@ || p@ == "."@ {
            Some(depth)
        } else if depth == 0 {
            None
        } else {
            Some(depth)
        },
        Token::Group(_) => if depth > 0 {
            Some(depth)
        } else {
            None
        },
        Token::Ident(_) => if depth == 0 && last_ident {
            None
        } else {
            Some(depth)
        },
        Token::Literal(_) => None,
    }
}

/// Where path accumulation beginning at `i` stops: the first index at or
/// after `i` whose token ends the accumulation, or the end of the stream.
pub open spec fn scan_end(ts: Seq<Token>, i: int, depth: int, last_ident: bool) -> int
    decreases ts.len() - i,
{
    if i < 0 || i >= ts.len() {
        i
    } else {
        match scan_step(ts[i], depth, last_ident) {
            Option::None => i,
            Option::Some(d) => scan_end(ts, i + 1, d, ts[i] is Ident),
        }
    }
}

/// The position just after the angle-bracket argument run that opened
/// before `i` and is open at the given nesting depth: the index after the
/// `>` that closes it, or one past the end of the tokens when the run
/// never closes.
pub open spec fn args_end(ts: Seq<Token>, i: int, depth: int) -> int
    decreases ts.len() - i,
{
    if i < 0 || i >= ts.len() {
        ts.len() as int + 1
    } else if ts[i].is_punct(">"@) {
        if depth <= 1 {
            i + 1
        } else {
            args_end(ts, i + 1, depth - 1)
        }
    } else if ts[i].is_punct("<"@) {
        args_end(ts, i + 1, depth + 1)
    } else {
        args_end(ts, i + 1, depth)
    }
}

/// An argument run, if it closes, reaches past its first token and no
/// further than the end of the tokens.
proof fn lemma_args_end_bounds(ts: Seq<Token>, i: int, depth: int)
    requires
        0 <= i <= ts.len(),
    ensures
        i + 1 <= args_end(ts, i, depth) <= ts.len() + 1,
    decreases ts.len() - i,
{
    if i < ts.len() {
        if ts[i].is_punct(">"@) {
            if depth > 1 {
                lemma_args_end_bounds(ts, i + 1, depth - 1);
            }
        } else if ts[i].is_punct("<"@) {
            lemma_args_end_bounds(ts, i + 1, depth + 1);
        } else {
            lemma_args_end_bounds(ts, i + 1, depth);
        }
    }
}

/// Where the path grammar first fails from `i` on, where a segment is
/// owed, or `None` where the tokens are a valid run of segments.  A path
/// is identifier segments separated by `::`; each identifier may carry one
/// balanced angle-bracket argument run, the generic-style syntax the
/// accumulation tolerates.  Tokens that end where an identifier was owed,
/// or inside an unclosed argument run, fail at their last position.
pub open spec fn seg_fault(ts: Seq<Token>, i: int) -> Option<int>
    decreases ts.len() - i, 2int,
{
    if i < 0 || i >= ts.len() {
        Some(ts.len() - 1)
    } else if !(ts[i] is Ident) {
        Some(i)
    } else {
        seg_tail_fault(ts, i + 1)
    }
}

/// Continues after a segment's identifier: a separator, an argument run or
/// the end of the path may follow.
pub open spec fn seg_tail_fault(ts: Seq<Token>, i: int) -> Option<int>
    decreases ts.len() - i, 1int,
    via seg_tail_fault_dec
{
    if i < 0 {
        Some(ts.len() - 1)
    } else if i >= ts.len() {
        None
    } else if ts[i].is_punct("::"@) {
        seg_fault(ts, i + 1)
    } else if ts[i].is_punct("<"@) {
        let j = args_end(ts, i + 1, 1);
        if j > ts.len() {
            Some(ts.len() - 1)
        } else {
            args_tail_fault(ts, j)
        }
    } else {
        Some(i)
    }
}

/// Continues after a segment's closed argument run: a separator or the end
/// of the path may follow.
pub open spec fn args_tail_fault(ts: Seq<Token>, i: int) -> Option<int>
    decreases ts.len() - i, 0int,
{
    if i < 0 {
        Some(ts.len() - 1)
    } else if i >= ts.len() {
        None
    } else if ts[i].is_punct("::"@) {
        seg_fault(ts, i + 1)
    } else {
        Some(i)
    }
}

#[via_fn]
proof fn seg_tail_fault_dec(ts: Seq<Token>, i: int) {
    if 0 <= i && i < ts.len() {
        lemma_args_end_bounds(ts, i + 1, 1);
    }
}

/// What a path resolves to: the empty path is the fragment; a single
/// all-lowercase identifier is a host tag name; every other path shape is a
/// component, kept by its canonical text.  A malformed path fails at its
/// first offending token, `base` tokens into the stream.
pub open spec fn classify(path: Seq<Token>, base: int) -> Result<TyView, ErrView> {
    if path.len() == 0 {
        Result::Ok(TyView::Fragment)
    } else {
        match seg_fault(path, 0) {
            Some(f) => Result::Err(ErrView::MalformedPath((base + f) as usize)),
            None => if path.len() == 1 && lowercase_word(path[0].text()) {
                Result::Ok(TyView::TagName(path[0].text()))
            } else {
                Result::Ok(TyView::Component(path_text(path)))
            },
        }
    }
}

/// The view of a resolver or parser result.
pub open spec fn ty_res_view(r: Result<ElementType, TemplateError>) -> Result<TyView, ErrView> {
    match r {
        Result::Ok(t) => Result::Ok(t@),
        Result::Err(e) => Result::Err(e@),
    }
}

/// True when every character of `s[0..n]` is lowercase so far.
fn all_lowercase(s: &String) -> (r: bool)
    ensures
        r == lowercase_word(s@),
{
    let n = s.as_str().unicode_len();
    let mut i: usize = 0;
    while i < n
        invariant
            i <= n,
            n == s@.len(),
            forall|j: int| 0 <= j < i ==> lowercase(#[trigger] s@[j]),
        decreases n - i,
    {
        if !char_is_lowercase(s.as_str().get_char(i)) {
            assert(!lowercase_word(s@));
            return false;
        }
        i = i + 1;
    }
    true
}

/// Resolves the type of the tag beginning at the cursor: accumulates the
/// tokens of a path, tolerating nested angle brackets, then classifies the
/// accumulated run as `classify` says.
pub fn parse_element_type(c: &mut Cursor) -> (r: Result<ElementType, TemplateError>)
    requires
        old(c).wf(),
    ensures
        final(c).wf(),
        final(c).toks() == old(c).toks(),
        final(c).at() == scan_end(old(c).toks(), old(c).at(), 0, false),
        old(c).at() <= final(c).at() <= final(c).toks().len(),
        ty_res_view(r) == classify(
            old(c).toks().subrange(old(c).at(), final(c).at()),
            old(c).at(),
        ),
{
    let ghost ts = c.toks();
    let ghost p0 = c.at();
    let start = c.position();
    proof {
        assert(c.tokens.len() == ts.len());
    }
    let mut depth: usize = 0;
    let mut last_ident = false;
    loop
        invariant
            c.wf(),
            c.toks() == ts,
            ts.len() <= usize::MAX,
            0 <= p0 <= c.at() <= ts.len(),
            depth <= c.at() - p0,
            scan_end(ts, p0, 0, false) == scan_end(ts, c.at(), depth as int, last_ident),
        ensures
            c.wf(),
            c.toks() == ts,
            p0 <= c.at() <= ts.len(),
            c.at() == scan_end(ts, p0, 0, false),
        decreases ts.len() - c.at(),
    {
        match c.peek() {
            None => {
                break ;
            },
            Some(t) => {
                proof {
                    assert(c.at() < ts.len());
                    assert(*t == ts[c.at()]);
                    assert(depth < usize::MAX);
                }
                let step_continue: bool;
                let mut new_depth: usize = depth;
                match t {
                    Token::Punct(p) => {
                        if p.eq(&String::from_str("<")) {
                            step_continue = true;
                            new_depth = depth + 1;
                        } else if p.eq(&String::from_str(">")) && depth > 0 {
                            step_continue = true;
                            new_depth = depth - 1;
                        } else if p.eq(&String::from_str("::")) || p.eq(&String::from_str(".")) {
                            step_continue = true;
                        } else if depth == 0 {
                            step_continue = false;
                        } else {
                            step_continue = true;
                        }
                    },
                    Token::Group(_) => {
                        step_continue = depth > 0;
                    },
                    Token::Ident(_) => {
                        step_continue = !(depth == 0 && last_ident);
                    },
                    Token::Literal(_) => {
                        step_continue = false;
                    },
                }
                if !step_continue {
                    proof {
                        assert(scan_step(ts[c.at()], depth as int, last_ident) is None);
                        assert(scan_end(ts, c.at(), depth as int, last_ident) == c.at());
                    }
                    break ;
                }
                let is_ident = match t {
                    Token::Ident(_) => true,
                    _ => false,
                };
                proof {
                    assert(scan_step(ts[c.at()], depth as int, last_ident) == Some(
                        new_depth as int,
                    ));
                    assert(scan_end(ts, c.at(), depth as int, last_ident) == scan_end(
                        ts,
                        c.at() + 1,
                        new_depth as int,
                        ts[c.at()] is Ident,
                    ));
                    assert(is_ident == ts[c.at()] is Ident);
                }
                depth = new_depth;
                last_ident = is_ident;
                c.advance();
            },
        }
    }
    let end = c.position();
    classify_run(&c.tokens, start, end)
}

/// Classifies the accumulated path run `tokens[from..to]`, exactly as the
/// spec function `classify` says.
fn classify_run(tokens: &Vec<Token>, from: usize, to: usize) -> (r: Result<
    ElementType,
    TemplateError,
>)
    requires
        from <= to <= tokens@.len(),
    ensures
        ty_res_view(r) == classify(tokens@.subrange(from as int, to as int), from as int),
{
    let ghost path = tokens@.subrange(from as int, to as int);
    let n = to - from;
    if n == 0 {
        return Result::Ok(ElementType::Fragment);
    }
    match seg_fault_run(tokens, from, to, 0) {
        Some(f) => {
            return Result::Err(TemplateError::MalformedPath(from + f));
        },
        None => {},
    }
    if n == 1 {
        assert(path[0] == tokens@[from as int]);
        let is_tag = match &tokens[from] {
            Token::Ident(s) => all_lowercase(s),
            _ => false,
        };
        if is_tag {
            return Result::Ok(ElementType::TagName(tokens[from].text_string()));
        }
    }
    Result::Ok(ElementType::Component(render_path(tokens, from, to)))
}

/// Checks a segment beginning at `i` of the path run `tokens[from..to]`,
/// exactly as `seg_fault` says.
fn seg_fault_run(tokens: &Vec<Token>, from: usize, to: usize, i: usize) -> (r: Option<usize>)
    requires
        from < to <= tokens@.len(),
        i <= to - from,
    ensures
        ({
            let path = tokens@.subrange(from as int, to as int);
            match seg_fault(path, i as int) {
                Some(f) => r matches Some(u) && u as int == f,
                None => r is None,
            }
        }),
        r matches Some(u) ==> u < to - from,
    decreases to - from - i, 2int,
{
    let ghost path = tokens@.subrange(from as int, to as int);
    let n = to - from;
    if i >= n {
        return Some(n - 1);
    }
    assert(path[i as int] == tokens@[from + i]);
    match &tokens[from + i] {
        Token::Ident(_) => seg_tail_run(tokens, from, to, i + 1),
        _ => Some(i),
    }
}

/// Checks what follows a segment's identifier, exactly as
/// `seg_tail_fault` says.
fn seg_tail_run(tokens: &Vec<Token>, from: usize, to: usize, i: usize) -> (r: Option<usize>)
    requires
        from < to <= tokens@.len(),
        i <= to - from,
    ensures
        ({
            let path = tokens@.subrange(from as int, to as int);
            match seg_tail_fault(path, i as int) {
                Some(f) => r matches Some(u) && u as int == f,
                None => r is None,
            }
        }),
        r matches Some(u) ==> u < to - from,
    decreases to - from - i, 1int,
{
    let ghost path = tokens@.subrange(from as int, to as int);
    let n = to - from;
    if i >= n {
        return None;
    }
    assert(path[i as int] == tokens@[from + i]);
    if tokens[from + i].matches_punct("::") {
        return seg_fault_run(tokens, from, to, i + 1);
    }
    if !tokens[from + i].matches_punct("<") {
        return Some(i);
    }
    let mut j = i + 1;
    let mut depth: usize = 1;
    loop
        invariant_except_break
            args_end(path, i + 1, 1) == args_end(path, j as int, depth as int),
        invariant
            from < to <= tokens@.len(),
            n == to - from,
            path == tokens@.subrange(from as int, to as int),
            i < n,
            !path[i as int].is_punct("::"@),
            path[i as int].is_punct("<"@),
            i + 1 <= j <= n,
            1 <= depth <= j - i,
        ensures
            from < to <= tokens@.len(),
            n == to - from,
            i < n,
            !path[i as int].is_punct("::"@),
            path[i as int].is_punct("<"@),
            i + 1 <= j <= n,
            args_end(path, i + 1, 1) == j,
        decreases n - j,
    {
        if j >= n {
            proof {
                assert(args_end(path, j as int, depth as int) == n + 1);
            }
            return Some(n - 1);
        }
        assert(path[j as int] == tokens@[from + j]);
        if tokens[from + j].matches_punct(">") {
            if depth == 1 {
                proof {
                    assert(args_end(path, j as int, depth as int) == j + 1);
                }
                j = j + 1;
                break ;
            }
            depth = depth - 1;
        } else if tokens[from + j].matches_punct("<") {
            depth = depth + 1;
        }
        j = j + 1;
    }
    args_tail_run(tokens, from, to, j)
}

/// Checks what follows a segment's closed argument run, exactly as
/// `args_tail_fault` says.
fn args_tail_run(tokens: &Vec<Token>, from: usize, to: usize, i: usize) -> (r: Option<usize>)
    requires
        from < to <= tokens@.len(),
        i <= to - from,
    ensures
        ({
            let path = tokens@.subrange(from as int, to as int);
            match args_tail_fault(path, i as int) {
                Some(f) => r matches Some(u) && u as int == f,
                None => r is None,
            }
        }),
        r matches Some(u) ==> u < to - from,
    decreases to - from - i, 0int,
{
    let ghost path = tokens@.subrange(from as int, to as int);
    let n = to - from;
    if i >= n {
        return None;
    }
    assert(path[i as int] == tokens@[from + i]);
    if tokens[from + i].matches_punct("::") {
        return seg_fault_run(tokens, from, to, i + 1);
    }
    Some(i)
}

/// What matching an end tag against `expected` from position `p` yields:
/// the position after the closing `>`, or the error owed.  The closing
/// path is resolved exactly as an opening path is; a structural mismatch
/// fails at the start of the closing tag, an exhausted stream at the
/// invocation site.
pub open spec fn end_tag_outcome(ts: Seq<Token>, p: int, expected: TyView) -> Result<int, ErrView> {
    if p >= ts.len() {
        Result::Err(ErrView::EndTagMismatch { at: None, expected })
    } else {
        let e = scan_end(ts, p, 0, false);
        match classify(ts.subrange(p, e), p) {
            Result::Err(err) => Result::Err(err),
            Result::Ok(found) => if found != expected {
                Result::Err(ErrView::EndTagMismatch { at: Some(p as usize), expected })
            } else if e < ts.len() && ts[e].is_punct(">"@) {
                Result::Ok(e + 1)
            } else if e < ts.len() {
                Result::Err(ErrView::ExpectedClose(Some(e as usize)))
            } else {
                Result::Err(ErrView::EndTagMismatch { at: Some(p as usize), expected })
            },
        }
    }
}

/// The first position at or after `i` whose token is the punctuation `<`,
/// or the end of the stream.
pub open spec fn next_open(ts: Seq<Token>, i: int) -> int
    decreases ts.len() - i,
{
    if i < 0 || i >= ts.len() {
        ts.len() as int
    } else if ts[i].is_punct("<"@) {
        i
    } else {
        next_open(ts, i + 1)
    }
}

/// Path accumulation never moves backwards nor past the end.
pub proof fn lemma_scan_end_bounds(ts: Seq<Token>, i: int, depth: int, last_ident: bool)
    requires
        0 <= i <= ts.len(),
    ensures
        i <= scan_end(ts, i, depth, last_ident) <= ts.len(),
    decreases ts.len() - i,
{
    if i < ts.len() {
        match scan_step(ts[i], depth, last_ident) {
            Option::None => {},
            Option::Some(d) => {
                lemma_scan_end_bounds(ts, i + 1, d, ts[i] is Ident);
            },
        }
    }
}

/// The next opening bracket never lies backwards nor past the end.
pub proof fn lemma_next_open_bounds(ts: Seq<Token>, i: int)
    requires
        0 <= i <= ts.len(),
    ensures
        i <= next_open(ts, i) <= ts.len(),
    decreases ts.len() - i,
{
    if i < ts.len() && !ts[i].is_punct("<"@) {
        lemma_next_open_bounds(ts, i + 1);
    }
}

/// Tokens that are not `<` do not move the next opening bracket.
pub proof fn lemma_next_open_run(ts: Seq<Token>, a: int, b: int)
    requires
        0 <= a <= b <= ts.len(),
        forall|j: int| a <= j < b ==> !(#[trigger] ts[j]).is_punct("<"@),
    ensures
        next_open(ts, a) == next_open(ts, b),
    decreases b - a,
{
    if a < b {
        lemma_next_open_run(ts, a + 1, b);
    }
}

/// What the content parser yields from `i`: the ordered children parsed
/// and the position after them.  A pending run of free tokens reaching to
/// the next `<` is flushed as exactly one merged text node — none when the
/// run is empty or renders as the empty text.  On `</` the children end,
/// with the closing path left unconsumed; a nested element is parsed whole
/// and its parse resumes the content after its end tag.
pub open spec fn spec_content(ts: Seq<Token>, i: int) -> Result<(Seq<NodeView>, int), ErrView>
    decreases ts.len() - i, 1int,
    via spec_content_dec
{
    let j = next_open(ts, i);
    let text = tokens_text(ts.subrange(i, j));
    let pre: Seq<NodeView> = if j > i && text.len() > 0 {
        seq![NodeView::Text(text)]
    } else {
        Seq::empty()
    };
    if j >= ts.len() {
        Result::Ok((pre, ts.len() as int))
    } else if j + 1 < ts.len() && ts[j + 1].is_punct("/"@) {
        Result::Ok((pre, j + 2))
    } else {
        match spec_body(ts, j + 1) {
            Result::Err(e) => Result::Err(e),
            Result::Ok((elem, k)) => {
                let lo = if k >= j + 2 {
                    k
                } else {
                    j + 2
                };
                // the parse of an element always lands past its opening and
                // inside the stream (`lemma_spec_body_bounds`), so this
                // clamping serves only the termination measure
                let kc = if lo <= ts.len() {
                    lo
                } else {
                    ts.len() as int
                };
                match spec_content(ts, kc) {
                    Result::Err(e) => Result::Err(e),
                    Result::Ok((rest, m)) => Result::Ok(
                        (pre.push(NodeView::Element(elem)) + rest, m),
                    ),
                }
            },
        }
    }
}

/// What parsing an element body from `i` yields (the leading `<` already
/// consumed): the element and the position after its end tag, or the error
/// owed — the resolver's own failure, the missing or unsupported token
/// after the opening path, a failure inside the children, or the end-tag
/// matcher's failure.
pub open spec fn spec_body(ts: Seq<Token>, i: int) -> Result<(ElemView, int), ErrView>
    decreases ts.len() - i, 0int,
    via spec_body_dec
{
    let e = scan_end(ts, i, 0, false);
    match classify(ts.subrange(i, e), i) {
        Result::Err(err) => Result::Err(err),
        Result::Ok(ty) => if e >= ts.len() {
            Result::Err(ErrView::ExpectedClose(None))
        } else if !ts[e].is_punct(">"@) {
            Result::Err(ErrView::ExpectedClose(Some(e as usize)))
        } else {
            match spec_content(ts, e + 1) {
                Result::Err(err) => Result::Err(err),
                Result::Ok((children, q)) => match end_tag_outcome(ts, q, ty) {
                    Result::Err(err) => Result::Err(err),
                    Result::Ok(k) => Result::Ok(
                        (ElemView { ty, props: Seq::empty(), children }, k),
                    ),
                },
            }
        },
    }
}

#[via_fn]
proof fn spec_content_dec(ts: Seq<Token>, i: int) {
    if 0 <= i && i <= ts.len() {
        lemma_next_open_bounds(ts, i);
    }
}

#[via_fn]
proof fn spec_body_dec(ts: Seq<Token>, i: int) {
    if 0 <= i && i <= ts.len() {
        lemma_scan_end_bounds(ts, i, 0, false);
    }
}

/// What parsing one full element from `i` yields: the stream must begin a
/// template node with `<`, whose body is parsed whole.
pub open spec fn spec_element(ts: Seq<Token>, i: int) -> Result<(NodeView, int), ErrView> {
    if i >= ts.len() {
        Result::Err(ErrView::ExpectedNode(None))
    } else if !ts[i].is_punct("<"@) {
        Result::Err(ErrView::ExpectedNode(Some(i as usize)))
    } else {
        match spec_body(ts, i + 1) {
            Result::Err(e) => Result::Err(e),
            Result::Ok((elem, k)) => Result::Ok((NodeView::Element(elem), k)),
        }
    }
}

/// Prefixes already-parsed children onto what a content parse yields.
pub open spec fn with_prefix(
    done: Seq<NodeView>,
    r: Result<(Seq<NodeView>, int), ErrView>,
) -> Result<(Seq<NodeView>, int), ErrView> {
    match r {
        Result::Ok((rest, m)) => Result::Ok((done + rest, m)),
        Result::Err(e) => Result::Err(e),
    }
}

proof fn lemma_with_prefix_empty(r: Result<(Seq<NodeView>, int), ErrView>)
    ensures
        with_prefix(Seq::empty(), r) == r,
{
    match r {
        Result::Ok((rest, m)) => {
            assert(Seq::<NodeView>::empty() + rest =~= rest);
        },
        Result::Err(_) => {},
    }
}

proof fn lemma_with_prefix_assoc(
    a: Seq<NodeView>,
    b: Seq<NodeView>,
    r: Result<(Seq<NodeView>, int), ErrView>,
)
    ensures
        with_prefix(a, with_prefix(b, r)) == with_prefix(a + b, r),
{
    match r {
        Result::Ok((rest, m)) => {
            assert(a + (b + rest) =~= (a + b) + rest);
        },
        Result::Err(_) => {},
    }
}

/// A successful element-body parse lands past its opening and inside the
/// stream, so the parse of its surrounding content always advances.
pub proof fn lemma_spec_body_bounds(ts: Seq<Token>, i: int)
    requires
        0 <= i <= ts.len(),
    ensures
        spec_body(ts, i) matches Ok((ev, k)) ==> i + 2 <= k <= ts.len(),
    decreases ts.len() - i, 0int,
{
    let e = scan_end(ts, i, 0, false);
    lemma_scan_end_bounds(ts, i, 0, false);
    if classify(ts.subrange(i, e), i) is Ok && e < ts.len() && ts[e].is_punct(">"@) {
        lemma_spec_content_bounds(ts, e + 1);
        match spec_content(ts, e + 1) {
            Result::Ok((children, q)) => {
                if 0 <= q <= ts.len() {
                    lemma_scan_end_bounds(ts, q, 0, false);
                }
            },
            Result::Err(_) => {},
        }
    }
}

/// A successful content parse never moves backwards nor past the end.
pub proof fn lemma_spec_content_bounds(ts: Seq<Token>, i: int)
    requires
        0 <= i <= ts.len(),
    ensures
        spec_content(ts, i) matches Ok((cs, m)) ==> i <= m <= ts.len(),
    decreases ts.len() - i, 1int,
{
    let j = next_open(ts, i);
    lemma_next_open_bounds(ts, i);
    if j < ts.len() && !(j + 1 < ts.len() && ts[j + 1].is_punct("/"@)) {
        lemma_spec_body_bounds(ts, j + 1);
        match spec_body(ts, j + 1) {
            Result::Ok((elem, k)) => {
                let lo = if k >= j + 2 {
                    k
                } else {
                    j + 2
                };
                let kc = if lo <= ts.len() {
                    lo
                } else {
                    ts.len() as int
                };
                lemma_spec_content_bounds(ts, kc);
            },
            Result::Err(_) => {},
        }
    }
}

/// Well-formed child lists concatenate when no text node meets another
/// text node at the seam.
proof fn lemma_children_wf_concat(a: Seq<NodeView>, b: Seq<NodeView>)
    requires
        children_wf(a),
        children_wf(b),
        a.len() > 0 && b.len() > 0 ==> !(a.last() is Text && b.first() is Text),
    ensures
        children_wf(a + b),
{
    assert forall|idx: int| 0 <= idx < (a + b).len() implies node_wf(#[trigger] (a + b)[idx]) by {
        if idx < a.len() {
            assert((a + b)[idx] == a[idx]);
        } else {
            assert((a + b)[idx] == b[idx - a.len()]);
        }
    }
    assert forall|idx: int| 0 <= idx && idx + 1 < (a + b).len() implies !((#[trigger] (a
        + b)[idx]) is Text && (a + b)[idx + 1] is Text) by {
        if idx + 1 < a.len() {
            assert((a + b)[idx] == a[idx] && (a + b)[idx + 1] == a[idx + 1]);
        } else if idx >= a.len() {
            assert((a + b)[idx] == b[idx - a.len()] && (a + b)[idx + 1] == b[idx + 1 - a.len()]);
        } else {
            assert((a + b)[idx] == a[a.len() - 1] && (a + b)[idx + 1] == b[0]);
        }
    }
}

/// Whatever the spec-level content parse yields is well-formed: every run
/// of free tokens becomes at most one merged text node and never an empty
/// one, so no two neighbouring children are text nodes.
pub proof fn lemma_spec_content_wf(ts: Seq<Token>, i: int)
    requires
        0 <= i <= ts.len(),
    ensures
        spec_content(ts, i) matches Ok((cs, m)) ==> children_wf(cs),
    decreases ts.len() - i, 1int,
{
    let j = next_open(ts, i);
    lemma_next_open_bounds(ts, i);
    let text = tokens_text(ts.subrange(i, j));
    let pre: Seq<NodeView> = if j > i && text.len() > 0 {
        seq![NodeView::Text(text)]
    } else {
        Seq::empty()
    };
    assert(children_wf(pre));
    if j < ts.len() && !(j + 1 < ts.len() && ts[j + 1].is_punct("/"@)) {
        lemma_spec_body_wf(ts, j + 1);
        lemma_spec_body_bounds(ts, j + 1);
        match spec_body(ts, j + 1) {
            Result::Ok((elem, k)) => {
                let lo = if k >= j + 2 {
                    k
                } else {
                    j + 2
                };
                let kc = if lo <= ts.len() {
                    lo
                } else {
                    ts.len() as int
                };
                lemma_spec_content_wf(ts, kc);
                match spec_content(ts, kc) {
                    Result::Ok((rest, m)) => {
                        let one = pre.push(NodeView::Element(elem));
                        assert(children_wf(one));
                        lemma_children_wf_concat(one, rest);
                    },
                    Result::Err(_) => {},
                }
            },
            Result::Err(_) => {},
        }
    }
}

/// Whatever the spec-level element parse yields is well-formed, with the
/// placeholder empty property list.
pub proof fn lemma_spec_body_wf(ts: Seq<Token>, i: int)
    requires
        0 <= i <= ts.len(),
    ensures
        spec_body(ts, i) matches Ok((ev, k)) ==> elem_wf(ev),
    decreases ts.len() - i, 0int,
{
    let e = scan_end(ts, i, 0, false);
    lemma_scan_end_bounds(ts, i, 0, false);
    if classify(ts.subrange(i, e), i) is Ok && e < ts.len() && ts[e].is_punct(">"@) {
        lemma_spec_content_wf(ts, e + 1);
    }
}

/// A closing tag the end-tag matcher accepts resolves to exactly the
/// opening type: acceptance is owed only on structural equality.
pub proof fn lemma_end_tag_equality(ts: Seq<Token>, p: int, expected: TyView)
    requires
        end_tag_outcome(ts, p, expected) is Ok,
    ensures
        classify(ts.subrange(p, scan_end(ts, p, 0, false)), p) == Result::<TyView, ErrView>::Ok(
            expected,
        ),
{
}

/// A closing tag that resolves to a structurally different type is refused,
/// and the failure stands at the start of the closing tag.
pub proof fn lemma_end_tag_mismatch(ts: Seq<Token>, p: int, expected: TyView)
    requires
        0 <= p < ts.len(),
        classify(ts.subrange(p, scan_end(ts, p, 0, false)), p) matches Result::Ok(found)
            && found != expected,
    ensures
        end_tag_outcome(ts, p, expected) == Result::<int, ErrView>::Err(
            ErrView::EndTagMismatch { at: Some(p as usize), expected },
        ),
{
}

/// Only a path of exactly one identifier whose characters are all lowercase
/// resolves to a tag name: any uppercase character, any other token shape
/// and any multi-token path force a component or a failure, never a tag
/// name.
pub proof fn lemma_tag_name_is_single_lowercase_ident(path: Seq<Token>, base: int)
    requires
        classify(path, base) matches Result::Ok(t) && t is TagName,
    ensures
        path.len() == 1,
        path[0] is Ident,
        lowercase_word(path[0].text()),
{
}

/// Matches the end tag whose leading `</` was already consumed: re-resolves
/// a path, asserts structural equality with `expected`, and consumes the
/// final `>`, exactly as `end_tag_outcome` says.
pub fn parse_end_tag_body(c: &mut Cursor, expected: &ElementType) -> (r: Result<
    (),
    TemplateError,
>)
    requires
        old(c).wf(),
    ensures
        final(c).wf(),
        final(c).toks() == old(c).toks(),
        old(c).at() <= final(c).at() <= final(c).toks().len(),
        match end_tag_outcome(old(c).toks(), old(c).at(), expected@) {
            Result::Ok(p) => r is Ok && final(c).at() == p,
            Result::Err(e) => r matches Err(err) && err@ == e,
        },
{
    let ghost ts = c.toks();
    let ghost p0 = c.at();
    if c.at_end() {
        return Result::Err(
            TemplateError::EndTagMismatch { at: None, expected: expected.duplicate() },
        );
    }
    let start = c.position();
    let found = match parse_element_type(c) {
        Result::Ok(t) => t,
        Result::Err(e) => {
            return Result::Err(e);
        },
    };
    if !found.eq(expected) {
        return Result::Err(
            TemplateError::EndTagMismatch { at: Some(start), expected: expected.duplicate() },
        );
    }
    if c.peek_is_punct(">") {
        c.advance();
        return Result::Ok(());
    }
    if c.at_end() {
        return Result::Err(
            TemplateError::EndTagMismatch { at: Some(start), expected: expected.duplicate() },
        );
    }
    Result::Err(TemplateError::ExpectedClose(Some(c.position())))
}

/// Parses interleaved free text and nested elements into an ordered child
/// list.  A pending run of free tokens is flushed as one merged text node
/// whenever a tag begins and when the stream ends; an empty rendering is
/// never pushed, so the children are well-formed.  On `</` the run of the
/// enclosing close tag is left for the end-tag matcher and the list is
/// returned.
pub fn parse_content(c: &mut Cursor) -> (r: Result<Vec<Node>, TemplateError>)
    requires
        old(c).wf(),
    ensures
        final(c).wf(),
        final(c).toks() == old(c).toks(),
        old(c).at() <= final(c).at() <= final(c).toks().len(),
        r matches Ok(ns) ==> children_wf(children_view(ns@)),
        match spec_content(old(c).toks(), old(c).at()) {
            Result::Ok((cs, m)) => r matches Ok(ns) && children_view(ns@) == cs && final(c).at()
                == m,
            Result::Err(e) => r matches Err(err) && err@ == e,
        },
    decreases old(c).toks().len() - old(c).at(),
{
    let ghost ts = c.toks();
    let ghost p0 = c.at();
    proof {
        assert(c.tokens.len() == ts.len());
        lemma_with_prefix_empty(spec_content(ts, p0));
        assert(children_view(Seq::<Node>::empty()) =~= Seq::<NodeView>::empty());
    }
    let mut nodes: Vec<Node> = Vec::new();
    let mut run_start = c.position();
    loop
        invariant
            c.wf(),
            c.toks() == ts,
            ts == old(c).toks(),
            p0 == old(c).at(),
            ts.len() <= usize::MAX,
            0 <= p0 <= run_start <= c.at() <= ts.len(),
            children_wf(children_view(nodes@)),
            nodes@.len() > 0 ==> !(children_view(nodes@).last() is Text),
            forall|j: int| run_start <= j < c.at() ==> !(#[trigger] ts[j]).is_punct("<"@),
            with_prefix(children_view(nodes@), spec_content(ts, run_start as int))
                == spec_content(ts, p0),
        ensures
            c.wf(),
            c.toks() == ts,
            0 <= p0 <= run_start <= c.at() <= ts.len(),
            c.at() == ts.len(),
            children_wf(children_view(nodes@)),
            nodes@.len() > 0 ==> !(children_view(nodes@).last() is Text),
            forall|j: int| run_start <= j < c.at() ==> !(#[trigger] ts[j]).is_punct("<"@),
            with_prefix(children_view(nodes@), spec_content(ts, run_start as int))
                == spec_content(ts, p0),
        decreases ts.len() - c.at(),
    {
        if c.at_end() {
            break ;
        }
        if c.peek_is_punct("<") {
            let here = c.position();
            proof {
                lemma_next_open_run(ts, run_start as int, here as int);
                assert(next_open(ts, run_start as int) == here as int);
            }
            let ghost done = children_view(nodes@);
            let ghost pre = if here > run_start && tokens_text(
                ts.subrange(run_start as int, here as int),
            ).len() > 0 {
                seq![NodeView::Text(tokens_text(ts.subrange(run_start as int, here as int)))]
            } else {
                Seq::<NodeView>::empty()
            };
            if run_start < here {
                let text = render_text(&c.tokens, run_start, here);
                if !text.as_str().is_empty() {
                    proof {
                        lemma_children_view(nodes@);
                        crate::ast::lemma_children_view_push(nodes@, Node::Text(text));
                    }
                    nodes.push(Node::Text(text));
                }
            }
            proof {
                assert(children_view(nodes@) =~= done + pre);
            }
            c.advance();
            if c.peek_is_punct("/") {
                c.advance();
                proof {
                    assert(spec_content(ts, run_start as int) == Result::<
                        (Seq<NodeView>, int),
                        ErrView,
                    >::Ok((pre, here + 2)));
                    lemma_with_prefix_assoc(done, pre, spec_content(ts, here + 2));
                    assert(children_view(nodes@) + Seq::<NodeView>::empty() =~= children_view(
                        nodes@,
                    ));
                }
                return Result::Ok(nodes);
            }
            match parse_element_body(c) {
                Result::Ok(elem) => {
                    proof {
                        lemma_spec_body_bounds(ts, here + 1);
                        lemma_children_view(nodes@);
                        crate::ast::lemma_children_view_push(nodes@, Node::Element(elem));
                        let ghost k = c.at();
                        assert(spec_content(ts, run_start as int) == with_prefix(
                            pre.push(NodeView::Element(elem_view(elem))),
                            spec_content(ts, k),
                        ));
                        lemma_with_prefix_assoc(
                            done,
                            pre.push(NodeView::Element(elem_view(elem))),
                            spec_content(ts, k),
                        );
                        assert(done + pre.push(NodeView::Element(elem_view(elem))) =~= (done
                            + pre).push(NodeView::Element(elem_view(elem))));
                    }
                    nodes.push(Node::Element(elem));
                },
                Result::Err(e) => {
                    proof {
                        assert(spec_content(ts, run_start as int) == Result::<
                            (Seq<NodeView>, int),
                            ErrView,
                        >::Err(e@));
                    }
                    return Result::Err(e);
                },
            }
            run_start = c.position();
        } else {
            c.advance();
        }
    }
    proof {
        lemma_next_open_run(ts, run_start as int, ts.len() as int);
        assert(next_open(ts, run_start as int) == ts.len() as int);
    }
    let ghost done = children_view(nodes@);
    let ghost pre = if c.at() > run_start && tokens_text(
        ts.subrange(run_start as int, ts.len() as int),
    ).len() > 0 {
        seq![NodeView::Text(tokens_text(ts.subrange(run_start as int, ts.len() as int)))]
    } else {
        Seq::<NodeView>::empty()
    };
    if run_start < c.position() {
        let text = render_text(&c.tokens, run_start, c.position());
        if !text.as_str().is_empty() {
            proof {
                lemma_children_view(nodes@);
                crate::ast::lemma_children_view_push(nodes@, Node::Text(text));
            }
            nodes.push(Node::Text(text));
        }
    }
    proof {
        assert(children_view(nodes@) =~= done + pre);
        assert(spec_content(ts, run_start as int) == Result::<(Seq<NodeView>, int), ErrView>::Ok(
            (pre, ts.len() as int),
        ));
    }
    Result::Ok(nodes)
}

/// Parses one element whose leading `<` was already consumed: resolves the
/// element type, requires the `>` that must directly follow (anything else
/// is unsupported attribute syntax), parses the children, and matches the
/// end tag against the opening type.  A returned element is well-formed,
/// carries the placeholder empty property list, and its type is exactly
/// what the opening path classifies to.
pub fn parse_element_body(c: &mut Cursor) -> (r: Result<ElementNode, TemplateError>)
    requires
        old(c).wf(),
    ensures
        final(c).wf(),
        final(c).toks() == old(c).toks(),
        old(c).at() <= final(c).at() <= final(c).toks().len(),
        r matches Ok(elem) ==> elem_wf(elem@) && elem@.props.len() == 0,
        match spec_body(old(c).toks(), old(c).at()) {
            Result::Ok((ev, k)) => r matches Ok(elem) && elem_view(elem) == ev && final(c).at()
                == k,
            Result::Err(e) => r matches Err(err) && err@ == e,
        },
    decreases old(c).toks().len() - old(c).at(),
{
    let ghost ts = c.toks();
    let ghost p0 = c.at();
    let ty = match parse_element_type(c) {
        Result::Ok(t) => t,
        Result::Err(e) => {
            return Result::Err(e);
        },
    };
    if c.at_end() {
        return Result::Err(TemplateError::ExpectedClose(None));
    }
    if !c.peek_is_punct(">") {
        return Result::Err(TemplateError::ExpectedClose(Some(c.position())));
    }
    c.advance();
    let children = match parse_content(c) {
        Result::Ok(ns) => ns,
        Result::Err(e) => {
            return Result::Err(e);
        },
    };
    match parse_end_tag_body(c, &ty) {
        Result::Ok(_) => {},
        Result::Err(e) => {
            return Result::Err(e);
        },
    }
    let elem = ElementNode { ty, props: Vec::new(), children };
    proof {
        assert(elem.props@.map(|i: int, p: (String, crate::ast::Prop)| (p.0@, p.1@)).len() == 0);
        assert(elem_view(elem).props =~= Seq::<(Seq<char>, crate::ast::PropView)>::empty());
        assert(elem_view(elem).ty == elem.ty@);
        assert(elem_view(elem).children == children_view(elem.children@));
    }
    Result::Ok(elem)
}

/// Parses one full element: requires the next token to be `<`, consumes it
/// and delegates to the body parser.  The errors owed when the stream is
/// empty or begins with anything else are pinned exactly.
pub fn parse_element(c: &mut Cursor) -> (r: Result<Node, TemplateError>)
    requires
        old(c).wf(),
    ensures
        final(c).wf(),
        final(c).toks() == old(c).toks(),
        old(c).at() <= final(c).at() <= final(c).toks().len(),
        r matches Ok(n) ==> (n@ matches NodeView::Element(ev) && elem_wf(ev)),
        match spec_element(old(c).toks(), old(c).at()) {
            Result::Ok((nv, k)) => r matches Ok(n) && node_view(n) == nv && final(c).at() == k,
            Result::Err(e) => r matches Err(err) && err@ == e,
        },
    decreases old(c).toks().len() - old(c).at() + 1,
{
    if c.at_end() {
        return Result::Err(TemplateError::ExpectedNode(None));
    }
    if !c.peek_is_punct("<") {
        return Result::Err(TemplateError::ExpectedNode(Some(c.position())));
    }
    c.advance();
    match parse_element_body(c) {
        Result::Ok(elem) => Result::Ok(Node::Element(elem)),
        Result::Err(e) => Result::Err(e),
    }
}

} // verus!
