use vstd::prelude::*;
use vstd::string::StringExecFns;

verus! {

/// One lexical unit of a DSL invocation.
///
/// The parser works over a linear stream of these tokens.  Punctuation is
/// carried as text so that a multi-character unit such as the path separator
/// `::` is a single token; a delimited group such as `{a}` is carried as its
/// source text, delimiters included.
#[derive(Debug, Clone)]
pub enum Token {
    /// An identifier such as `span` or `Main`.
    Ident(String),
    /// A punctuation unit such as `<`, `>`, `/`, `.` or `::`.
    Punct(String),
    /// A literal such as `1` or `"x"`, by its source text.
    Literal(String),
    /// A delimited group such as `{a}` or `(a)`, by its source text.
    Group(String),
}

impl Token {
    /// The source text of this token.
    pub open spec fn text(self) -> Seq<char> {
        match self {
            Token::Ident(s) => s@,
            Token::Punct(s) => s@,
            Token::Literal(s) => s@,
            Token::Group(s) => s@,
        }
    }

    /// True when this token is the punctuation unit whose text is `s`.
    pub open spec fn is_punct(self, s: Seq<char>) -> bool {
        self matches Token::Punct(p) && p@ == s
    }

    /// True when this token is the punctuation unit whose text is `s`.
    pub fn matches_punct(&self, s: &str) -> (r: bool)
        ensures
            r == self.is_punct(s@),
    {
        match self {
            Token::Punct(p) => p.eq(&String::from_str(s)),
            _ => false,
        }
    }

    /// The source text of this token, as an owned string.
    pub fn text_string(&self) -> (r: String)
        ensures
            r@ == self.text(),
    {
        match self {
            Token::Ident(s) => s.clone(),
            Token::Punct(s) => s.clone(),
            Token::Literal(s) => s.clone(),
            Token::Group(s) => s.clone(),
        }
    }
}

/// The text of a run of free tokens, re-stringified in order with a single
/// space between neighbouring tokens.  Source whitespace is not recorded in
/// the tokens, so it is not preserved here.
pub open spec fn tokens_text(ts: Seq<Token>) -> Seq<char>
    decreases ts.len(),
{
    if ts.len() == 0 {
        Seq::empty()
    } else if ts.len() == 1 {
        ts[0].text()
    } else {
        tokens_text(ts.drop_last()) + seq![' '] + ts.last().text()
    }
}

/// The text of a path, re-stringified in order with nothing between tokens,
/// so that `mod :: Main` renders canonically as `mod::Main`.
pub open spec fn path_text(ts: Seq<Token>) -> Seq<char>
    decreases ts.len(),
{
    if ts.len() == 0 {
        Seq::empty()
    } else {
        path_text(ts.drop_last()) + ts.last().text()
    }
}

/// Renders `tokens[from..to]` as free text, one space between tokens.
pub fn render_text(tokens: &Vec<Token>, from: usize, to: usize) -> (r: String)
    requires
        from <= to <= tokens@.len(),
    ensures
        r@ == tokens_text(tokens@.subrange(from as int, to as int)),
{
    let mut acc = String::new();
    let mut i = from;
    while i < to
        invariant
            from <= i <= to <= tokens@.len(),
            acc@ == tokens_text(tokens@.subrange(from as int, i as int)),
        decreases to - i,
    {
        if i > from {
            acc.append(" ");
            proof {
                reveal_strlit(" ");
                assert(" "@ =~= seq![' ']);
            }
        }
        let t = tokens[i].text_string();
        acc.append(t.as_str());
        proof {
            let full = tokens@.subrange(from as int, i + 1);
            assert(full.drop_last() =~= tokens@.subrange(from as int, i as int));
            assert(full.last() == tokens@[i as int]);
        }
        i = i + 1;
    }
    proof {
        assert(tokens@.subrange(from as int, from as int) =~= Seq::<Token>::empty());
    }
    acc
}

/// Renders `tokens[from..to]` as a path, nothing between tokens.
pub fn render_path(tokens: &Vec<Token>, from: usize, to: usize) -> (r: String)
    requires
        from <= to <= tokens@.len(),
    ensures
        r@ == path_text(tokens@.subrange(from as int, to as int)),
{
    let mut acc = String::new();
    let mut i = from;
    while i < to
        invariant
            from <= i <= to <= tokens@.len(),
            acc@ == path_text(tokens@.subrange(from as int, i as int)),
        decreases to - i,
    {
        let t = tokens[i].text_string();
        acc.append(t.as_str());
        proof {
            let full = tokens@.subrange(from as int, i + 1);
            assert(full.drop_last() =~= tokens@.subrange(from as int, i as int));
            assert(full.last() == tokens@[i as int]);
        }
        i = i + 1;
    }
    proof {
        assert(tokens@.subrange(from as int, from as int) =~= Seq::<Token>::empty());
    }
    acc
}

} // verus!
