//! The condition-expression language of a rule: a boolean formula over
//! selection names, with `and`, `or`, `not` and parentheses. The text is
//! tokenized and parsed at load time into a small expression tree held as an
//! arena of nodes; evaluation against per-selection truth values is exact.

use vstd::prelude::*;
use vstd::string::StrSliceExecFns;
use crate::value::{path_view, str_eq};

verus! {

/// A token of the condition language, at the specification level.
pub enum Tok {
    Id(Seq<char>),
    AndKw,
    OrKw,
    NotKw,
    Open,
    Close,
}

/// A token of the condition language, as produced by the tokenizer.
#[derive(Debug, PartialEq)]
pub enum Token {
    Ident(String),
    AndKw,
    OrKw,
    NotKw,
    Open,
    Close,
}

pub open spec fn tok_view(t: Token) -> Tok {
    match t {
        Token::Ident(s) => Tok::Id(s@),
        Token::AndKw => Tok::AndKw,
        Token::OrKw => Tok::OrKw,
        Token::NotKw => Tok::NotKw,
        Token::Open => Tok::Open,
        Token::Close => Tok::Close,
    }
}

pub open spec fn toks_view(ts: Seq<Token>) -> Seq<Tok> {
    ts.map_values(|t: Token| tok_view(t))
}

/// Space separates tokens; parentheses stand alone.
pub open spec fn is_delim(c: char) -> bool {
    c == ' ' || c == '(' || c == ')'
}

/// Length of the maximal word (delimiter-free prefix) at the head of `s`.
pub open spec fn take_word(s: Seq<char>) -> nat
    decreases s.len(),
{
    if s.len() == 0 || is_delim(s[0]) {
        0
    } else {
        1 + take_word(s.drop_first())
    }
}

/// The keywords `and`, `or`, `not`; every other word is an identifier.
pub open spec fn word_tok(w: Seq<char>) -> Tok {
    if w == "and"@ {
        Tok::AndKw
    } else if w == "or"@ {
        Tok::OrKw
    } else if w == "not"@ {
        Tok::NotKw
    } else {
        Tok::Id(w)
    }
}

/// The token sequence of a condition text. Tokenization never fails: an
/// unknown word becomes an identifier, which validation then rejects.
pub open spec fn spec_tokenize(s: Seq<char>) -> Seq<Tok>
    decreases s.len(),
    via spec_tokenize_dec
{
    if s.len() == 0 {
        Seq::empty()
    } else if s[0] == ' ' {
        spec_tokenize(s.drop_first())
    } else if s[0] == '(' {
        seq![Tok::Open] + spec_tokenize(s.drop_first())
    } else if s[0] == ')' {
        seq![Tok::Close] + spec_tokenize(s.drop_first())
    } else {
        seq![word_tok(s.take(take_word(s) as int))] + spec_tokenize(s.skip(take_word(s) as int))
    }
}

proof fn lemma_take_word_le(s: Seq<char>)
    ensures
        take_word(s) <= s.len(),
    decreases s.len(),
{
    if s.len() == 0 || is_delim(s[0]) {
    } else {
        lemma_take_word_le(s.drop_first());
    }
}

#[via_fn]
proof fn spec_tokenize_dec(s: Seq<char>) {
    if s.len() > 0 && s[0] != ' ' && s[0] != '(' && s[0] != ')' {
        lemma_take_word_le(s);
    }
}

proof fn lemma_take_word_is(s: Seq<char>, k: int)
    requires
        0 <= k <= s.len(),
        forall|m: int| 0 <= m < k ==> !is_delim(s[m]),
        k == s.len() || is_delim(s[k]),
    ensures
        take_word(s) == k,
    decreases k,
{
    if k > 0 {
        lemma_take_word_is(s.drop_first(), k - 1);
    }
}

fn is_delim_char(c: char) -> (b: bool)
    ensures
        b == is_delim(c),
{
    c == ' ' || c == '(' || c == ')'
}

/// Splits a condition text into its tokens.
pub fn tokenize(s: &str) -> (toks: Vec<Token>)
    ensures
        toks_view(toks@) == spec_tokenize(s@),
{
    let n = s.unicode_len();
    let mut out: Vec<Token> = Vec::new();
    let mut i: usize = 0;
    proof {
        assert(s@.skip(0) =~= s@);
        assert(toks_view(out@) =~= Seq::<Tok>::empty());
    }
    while i < n
        invariant
            i <= n,
            n == s@.len(),
            spec_tokenize(s@) == toks_view(out@) + spec_tokenize(s@.skip(i as int)),
        decreases n - i,
    {
        let ghost pre = out@;
        let c = s.get_char(i);
        if c == ' ' {
            proof {
                assert(s@.skip(i as int).drop_first() =~= s@.skip(i + 1));
            }
            i = i + 1;
        } else if c == '(' {
            out.push(Token::Open);
            proof {
                assert(s@.skip(i as int).drop_first() =~= s@.skip(i + 1));
                assert(toks_view(out@) =~= toks_view(pre) + seq![Tok::Open]);
                assert(toks_view(out@) + spec_tokenize(s@.skip(i + 1)) =~= toks_view(pre)
                    + spec_tokenize(s@.skip(i as int)));
            }
            i = i + 1;
        } else if c == ')' {
            out.push(Token::Close);
            proof {
                assert(s@.skip(i as int).drop_first() =~= s@.skip(i + 1));
                assert(toks_view(out@) =~= toks_view(pre) + seq![Tok::Close]);
                assert(toks_view(out@) + spec_tokenize(s@.skip(i + 1)) =~= toks_view(pre)
                    + spec_tokenize(s@.skip(i as int)));
            }
            i = i + 1;
        } else {
            let mut j: usize = i + 1;
            while j < n
                invariant_except_break
                    i + 1 <= j <= n,
                    n == s@.len(),
                    forall|m: int| i + 1 <= m < j ==> !is_delim(s@[m]),
                ensures
                    i + 1 <= j <= n,
                    n == s@.len(),
                    forall|m: int| i + 1 <= m < j ==> !is_delim(s@[m]),
                    j == n || is_delim(s@[j as int]),
                decreases n - j,
            {
                if is_delim_char(s.get_char(j)) {
                    break ;
                }
                j = j + 1;
            }
            proof {
                let tail = s@.skip(i as int);
                assert forall|m: int| 0 <= m < j - i implies !is_delim(tail[m]) by {
                    assert(tail[m] == s@[i + m]);
                }
                if j < n {
                    assert(tail[j - i] == s@[j as int]);
                }
                lemma_take_word_is(tail, j - i);
                assert(tail.take((j - i) as int) =~= s@.subrange(i as int, j as int));
                assert(tail.skip((j - i) as int) =~= s@.skip(j as int));
            }
            let w = s.substring_char(i, j);
            let tok: Token = if str_eq(w, "and") {
                Token::AndKw
            } else if str_eq(w, "or") {
                Token::OrKw
            } else if str_eq(w, "not") {
                Token::NotKw
            } else {
                Token::Ident(String::from_str(w))
            };
            proof {
                assert(tok_view(tok) == word_tok(s@.subrange(i as int, j as int)));
            }
            out.push(tok);
            proof {
                assert(toks_view(out@) =~= toks_view(pre) + seq![tok_view(tok)]);
                assert(toks_view(out@) + spec_tokenize(s@.skip(j as int)) =~= toks_view(pre)
                    + spec_tokenize(s@.skip(i as int)));
            }
            i = j;
        }
    }
    proof {
        assert(s@.skip(n as int) =~= Seq::<char>::empty());
        assert(spec_tokenize(s@.skip(n as int)) =~= Seq::<Tok>::empty());
        assert(toks_view(out@) + spec_tokenize(s@.skip(n as int)) =~= toks_view(out@));
    }
    out
}

/// The first position of `id` among `names`, if it occurs.
pub open spec fn find_name(names: Seq<Seq<char>>, id: Seq<char>) -> Option<int>
    decreases names.len(),
{
    if names.len() == 0 {
        None
    } else if names[0] == id {
        Some(0int)
    } else {
        match find_name(names.drop_first(), id) {
            Some(k) => Some(k + 1),
            None => None,
        }
    }
}

proof fn lemma_find_name_skip(names: Seq<Seq<char>>, id: Seq<char>, i: int)
    requires
        0 <= i <= names.len(),
        forall|m: int| 0 <= m < i ==> names[m] != id,
    ensures
        find_name(names, id) == match find_name(names.skip(i), id) {
            Some(k) => Some(k + i),
            None => None::<int>,
        },
    decreases i,
{
    if i > 0 {
        lemma_find_name_skip(names.drop_first(), id, i - 1);
        assert(names.drop_first().skip(i - 1) =~= names.skip(i));
    } else {
        assert(names.skip(0) =~= names);
    }
}

/// Looks `id` up among the selection names, first occurrence.
fn find_name_vec(names: &Vec<String>, id: &str) -> (r: Option<usize>)
    ensures
        match r {
            Some(k) => find_name(path_view(names@), id@) == Some(k as int),
            None => find_name(path_view(names@), id@) is None,
        },
{
    let n = names.len();
    let mut i: usize = 0;
    while i < n
        invariant
            i <= n,
            n == names.len(),
            forall|m: int| 0 <= m < i ==> path_view(names@)[m] != id@,
        decreases n - i,
    {
        if str_eq(names[i].as_str(), id) {
            proof {
                lemma_find_name_skip(path_view(names@), id@, i as int);
                assert(path_view(names@).skip(i as int)[0] == path_view(names@)[i as int]);
            }
            return Some(i);
        }
        i = i + 1;
    }
    proof {
        lemma_find_name_skip(path_view(names@), id@, n as int);
        assert(path_view(names@).skip(n as int) =~= Seq::<Seq<char>>::empty());
    }
    None
}

/// One node of a compiled condition expression. Children are earlier
/// positions in the same arena, so a node's meaning depends only on the
/// nodes before it.
#[derive(Debug, PartialEq, Clone, Copy)]
pub enum ExprNode {
    Sel(usize),
    Not(usize),
    And(usize, usize),
    Or(usize, usize),
}

/// A compiled condition expression: an arena of nodes and the root position.
#[derive(Debug, PartialEq)]
pub struct CondExpr {
    pub nodes: Vec<ExprNode>,
    pub root: usize,
}

/// The truth value of node `i` under the per-selection values `vals`.
/// A child reference that does not point strictly backwards, an out-of-range
/// node, or a selection index past `vals` reads as false; the parser never
/// produces such nodes.
pub open spec fn eval_node(nodes: Seq<ExprNode>, i: int, vals: Seq<bool>) -> bool
    decreases i,
{
    if 0 <= i < nodes.len() {
        match nodes[i] {
            ExprNode::Sel(k) => k < vals.len() && vals[k as int],
            ExprNode::Not(a) => a < i && !eval_node(nodes, a as int, vals),
            ExprNode::And(a, b) => a < i && b < i && eval_node(nodes, a as int, vals) && eval_node(
                nodes,
                b as int,
                vals,
            ),
            ExprNode::Or(a, b) => a < i && b < i && (eval_node(nodes, a as int, vals) || eval_node(
                nodes,
                b as int,
                vals,
            )),
        }
    } else {
        false
    }
}

/// The truth value of a compiled expression under `vals`.
pub open spec fn eval_expr_spec(e: CondExpr, vals: Seq<bool>) -> bool {
    eval_node(e.nodes@, e.root as int, vals)
}

impl CondExpr {
    /// Evaluates this expression over the selections' truth values.
    pub fn eval(&self, vals: &Vec<bool>) -> (r: bool)
        ensures
            r == eval_expr_spec(*self, vals@),
    {
        let n = self.nodes.len();
        let mut res: Vec<bool> = Vec::new();
        let mut i: usize = 0;
        while i < n
            invariant
                i <= n,
                n == self.nodes.len(),
                res@.len() == i,
                forall|j: int| 0 <= j < i ==> res@[j] == eval_node(self.nodes@, j, vals@),
            decreases n - i,
        {
            let v: bool = match self.nodes[i] {
                ExprNode::Sel(k) => k < vals.len() && vals[k],
                ExprNode::Not(a) => a < i && !res[a],
                ExprNode::And(a, b) => a < i && b < i && res[a] && res[b],
                ExprNode::Or(a, b) => a < i && b < i && (res[a] || res[b]),
            };
            res.push(v);
            i = i + 1;
        }
        if self.root < n {
            res[self.root]
        } else {
            false
        }
    }
}

/// Why a condition text was rejected at load time.
#[derive(Debug, PartialEq)]
pub enum ParseError {
    /// The condition names a selection that the rule does not define.
    UnknownSelection(String),
    /// A token stands where the grammar does not allow it.
    UnexpectedToken,
    /// The condition text ended before the expression was complete.
    UnexpectedEnd,
    /// A complete expression was followed by further tokens.
    TrailingTokens,
}

// The grammar, lowest precedence first:
//   or-expr  := and-expr ("or" and-expr)*
//   and-expr := unary ("and" unary)*
//   unary    := "not" unary | "(" or-expr ")" | identifier
//
// Each specification parser takes the token sequence, the selection names,
// the current position and the arena built so far, and yields the extended
// arena, the root of what it parsed, and the next position.

pub open spec fn sp_unary(
    toks: Seq<Tok>,
    names: Seq<Seq<char>>,
    pos: int,
    nodes: Seq<ExprNode>,
) -> Option<(Seq<ExprNode>, usize, int)>
    decreases toks.len() - pos, 1int,
{
    if pos < 0 || pos >= toks.len() {
        None
    } else {
        match toks[pos] {
            Tok::NotKw => match sp_unary(toks, names, pos + 1, nodes) {
                Some((ns, r, p)) => Some((ns.push(ExprNode::Not(r)), ns.len() as usize, p)),
                None => None,
            },
            Tok::Open => match sp_or(toks, names, pos + 1, nodes) {
                Some((ns, r, p)) => if p < toks.len() && toks[p] is Close {
                    Some((ns, r, p + 1))
                } else {
                    None
                },
                None => None,
            },
            Tok::Id(w) => match find_name(names, w) {
                Some(k) => Some((nodes.push(ExprNode::Sel(k as usize)), nodes.len() as usize, pos + 1)),
                None => None,
            },
            _ => None,
        }
    }
}

pub open spec fn sp_and_rest(
    toks: Seq<Tok>,
    names: Seq<Seq<char>>,
    acc: usize,
    pos: int,
    nodes: Seq<ExprNode>,
) -> Option<(Seq<ExprNode>, usize, int)>
    decreases toks.len() - pos, 2int,
{
    if 0 <= pos < toks.len() && toks[pos] is AndKw {
        match sp_unary(toks, names, pos + 1, nodes) {
            Some((ns, r, p)) => if pos < p <= toks.len() {
                sp_and_rest(toks, names, (ns.len() as usize), p, ns.push(ExprNode::And(acc, r)))
            } else {
                None
            },
            None => None,
        }
    } else {
        Some((nodes, acc, pos))
    }
}

pub open spec fn sp_and(
    toks: Seq<Tok>,
    names: Seq<Seq<char>>,
    pos: int,
    nodes: Seq<ExprNode>,
) -> Option<(Seq<ExprNode>, usize, int)>
    decreases toks.len() - pos, 3int,
{
    match sp_unary(toks, names, pos, nodes) {
        Some((ns, r, p)) => if pos < p <= toks.len() {
            sp_and_rest(toks, names, r, p, ns)
        } else {
            None
        },
        None => None,
    }
}

pub open spec fn sp_or_rest(
    toks: Seq<Tok>,
    names: Seq<Seq<char>>,
    acc: usize,
    pos: int,
    nodes: Seq<ExprNode>,
) -> Option<(Seq<ExprNode>, usize, int)>
    decreases toks.len() - pos, 4int,
{
    if 0 <= pos < toks.len() && toks[pos] is OrKw {
        match sp_and(toks, names, pos + 1, nodes) {
            Some((ns, r, p)) => if pos < p <= toks.len() {
                sp_or_rest(toks, names, (ns.len() as usize), p, ns.push(ExprNode::Or(acc, r)))
            } else {
                None
            },
            None => None,
        }
    } else {
        Some((nodes, acc, pos))
    }
}

pub open spec fn sp_or(
    toks: Seq<Tok>,
    names: Seq<Seq<char>>,
    pos: int,
    nodes: Seq<ExprNode>,
) -> Option<(Seq<ExprNode>, usize, int)>
    decreases toks.len() - pos, 5int,
{
    match sp_and(toks, names, pos, nodes) {
        Some((ns, r, p)) => if pos < p <= toks.len() {
            sp_or_rest(toks, names, r, p, ns)
        } else {
            None
        },
        None => None,
    }
}

/// The compiled expression of a condition's token sequence: the whole
/// sequence must form one or-expression.
pub open spec fn sp_parse(toks: Seq<Tok>, names: Seq<Seq<char>>) -> Option<(Seq<ExprNode>, usize)> {
    match sp_or(toks, names, 0, Seq::empty()) {
        Some((ns, r, p)) => if p == toks.len() {
            Some((ns, r))
        } else {
            None
        },
        None => None,
    }
}

fn p_unary(toks: &Vec<Token>, names: &Vec<String>, pos: usize, nodes: &mut Vec<ExprNode>) -> (r:
    Result<(usize, usize), ParseError>)
    ensures
        match r {
            Ok((root, p)) => sp_unary(toks_view(toks@), path_view(names@), pos as int, old(nodes)@)
                == Some((final(nodes)@, root, p as int)),
            Err(_) => sp_unary(toks_view(toks@), path_view(names@), pos as int, old(nodes)@)
                is None,
        },
    decreases toks@.len() - pos, 1int,
{
    if pos >= toks.len() {
        return Err(ParseError::UnexpectedEnd);
    }
    proof {
        assert(toks_view(toks@)[pos as int] == tok_view(toks@[pos as int]));
    }
    match &toks[pos] {
        Token::NotKw => {
            match p_unary(toks, names, pos + 1, nodes) {
                Ok((r1, p1)) => {
                    let root = nodes.len();
                    nodes.push(ExprNode::Not(r1));
                    Ok((root, p1))
                },
                Err(e) => Err(e),
            }
        },
        Token::Open => {
            match p_or(toks, names, pos + 1, nodes) {
                Ok((r1, p1)) => {
                    if p1 < toks.len() {
                        proof {
                            assert(toks_view(toks@)[p1 as int] == tok_view(toks@[p1 as int]));
                        }
                        match &toks[p1] {
                            Token::Close => Ok((r1, p1 + 1)),
                            _ => Err(ParseError::UnexpectedToken),
                        }
                    } else {
                        Err(ParseError::UnexpectedEnd)
                    }
                },
                Err(e) => Err(e),
            }
        },
        Token::Ident(w) => {
            match find_name_vec(names, w.as_str()) {
                Some(k) => {
                    let root = nodes.len();
                    nodes.push(ExprNode::Sel(k));
                    Ok((root, pos + 1))
                },
                None => Err(ParseError::UnknownSelection(w.clone())),
            }
        },
        _ => Err(ParseError::UnexpectedToken),
    }
}

fn p_and_rest(
    toks: &Vec<Token>,
    names: &Vec<String>,
    acc: usize,
    pos: usize,
    nodes: &mut Vec<ExprNode>,
) -> (r: Result<(usize, usize), ParseError>)
    ensures
        match r {
            Ok((root, p)) => sp_and_rest(
                toks_view(toks@),
                path_view(names@),
                acc,
                pos as int,
                old(nodes)@,
            ) == Some((final(nodes)@, root, p as int)),
            Err(_) => sp_and_rest(toks_view(toks@), path_view(names@), acc, pos as int, old(nodes)@)
                is None,
        },
    decreases toks@.len() - pos, 2int,
{
    if pos < toks.len() {
        proof {
            assert(toks_view(toks@)[pos as int] == tok_view(toks@[pos as int]));
        }
        let is_and: bool = match &toks[pos] {
            Token::AndKw => true,
            _ => false,
        };
        if is_and {
            match p_unary(toks, names, pos + 1, nodes) {
                Ok((r1, p1)) => {
                    if p1 > pos && p1 <= toks.len() {
                        let root = nodes.len();
                        nodes.push(ExprNode::And(acc, r1));
                        return p_and_rest(toks, names, root, p1, nodes);
                    }
                    return Err(ParseError::UnexpectedToken);
                },
                Err(e) => {
                    return Err(e);
                },
            }
        }
    }
    Ok((acc, pos))
}

fn p_and(toks: &Vec<Token>, names: &Vec<String>, pos: usize, nodes: &mut Vec<ExprNode>) -> (r:
    Result<(usize, usize), ParseError>)
    ensures
        match r {
            Ok((root, p)) => sp_and(toks_view(toks@), path_view(names@), pos as int, old(nodes)@)
                == Some((final(nodes)@, root, p as int)),
            Err(_) => sp_and(toks_view(toks@), path_view(names@), pos as int, old(nodes)@) is None,
        },
    decreases toks@.len() - pos, 3int,
{
    match p_unary(toks, names, pos, nodes) {
        Ok((r1, p1)) => {
            if p1 > pos && p1 <= toks.len() {
                p_and_rest(toks, names, r1, p1, nodes)
            } else {
                Err(ParseError::UnexpectedToken)
            }
        },
        Err(e) => Err(e),
    }
}

fn p_or_rest(
    toks: &Vec<Token>,
    names: &Vec<String>,
    acc: usize,
    pos: usize,
    nodes: &mut Vec<ExprNode>,
) -> (r: Result<(usize, usize), ParseError>)
    ensures
        match r {
            Ok((root, p)) => sp_or_rest(
                toks_view(toks@),
                path_view(names@),
                acc,
                pos as int,
                old(nodes)@,
            ) == Some((final(nodes)@, root, p as int)),
            Err(_) => sp_or_rest(toks_view(toks@), path_view(names@), acc, pos as int, old(nodes)@)
                is None,
        },
    decreases toks@.len() - pos, 4int,
{
    if pos < toks.len() {
        proof {
            assert(toks_view(toks@)[pos as int] == tok_view(toks@[pos as int]));
        }
        let is_or: bool = match &toks[pos] {
            Token::OrKw => true,
            _ => false,
        };
        if is_or {
            match p_and(toks, names, pos + 1, nodes) {
                Ok((r1, p1)) => {
                    if p1 > pos && p1 <= toks.len() {
                        let root = nodes.len();
                        nodes.push(ExprNode::Or(acc, r1));
                        return p_or_rest(toks, names, root, p1, nodes);
                    }
                    return Err(ParseError::UnexpectedToken);
                },
                Err(e) => {
                    return Err(e);
                },
            }
        }
    }
    Ok((acc, pos))
}

fn p_or(toks: &Vec<Token>, names: &Vec<String>, pos: usize, nodes: &mut Vec<ExprNode>) -> (r:
    Result<(usize, usize), ParseError>)
    ensures
        match r {
            Ok((root, p)) => sp_or(toks_view(toks@), path_view(names@), pos as int, old(nodes)@)
                == Some((final(nodes)@, root, p as int)),
            Err(_) => sp_or(toks_view(toks@), path_view(names@), pos as int, old(nodes)@) is None,
        },
    decreases toks@.len() - pos, 5int,
{
    match p_and(toks, names, pos, nodes) {
        Ok((r1, p1)) => {
            if p1 > pos && p1 <= toks.len() {
                p_or_rest(toks, names, r1, p1, nodes)
            } else {
                Err(ParseError::UnexpectedToken)
            }
        },
        Err(e) => Err(e),
    }
}

/// Parses a whole token sequence as one condition expression over the given
/// selection names.
pub fn parse_condition(toks: &Vec<Token>, names: &Vec<String>) -> (r: Result<CondExpr, ParseError>)
    ensures
        match r {
            Ok(e) => sp_parse(toks_view(toks@), path_view(names@)) == Some((e.nodes@, e.root)),
            Err(_) => sp_parse(toks_view(toks@), path_view(names@)) is None,
        },
{
    let mut nodes: Vec<ExprNode> = Vec::new();
    proof {
        assert(nodes@ =~= Seq::<ExprNode>::empty());
    }
    match p_or(toks, names, 0, &mut nodes) {
        Ok((root, p)) => {
            if p == toks.len() {
                Ok(CondExpr { nodes, root })
            } else {
                Err(ParseError::TrailingTokens)
            }
        },
        Err(e) => Err(e),
    }
}

/// Tokenizes and parses a condition text in one step.
pub fn compile_condition(text: &str, names: &Vec<String>) -> (r: Result<CondExpr, ParseError>)
    ensures
        match r {
            Ok(e) => sp_parse(spec_tokenize(text@), path_view(names@)) == Some((e.nodes@, e.root)),
            Err(_) => sp_parse(spec_tokenize(text@), path_view(names@)) is None,
        },
{
    let toks = tokenize(text);
    parse_condition(&toks, names)
}

} // verus!
