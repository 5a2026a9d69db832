//! The frontmatter tokenizer: lexes a YAML-like header into a flat
//! stream of tokens (key, list-item marker, indent, line break, text).
//! Assembling the tokens into a value tree is a separate concern; the
//! value types are defined here for such a builder to target.

use vstd::prelude::*;

use crate::text::{
    Span, SpanModel, ScanKind, span_at, scan_end, scan, match2_at, has2, B_LF, B_SPACE, B_DASH,
    B_COLON,
};

verus! {

/// A mapping key: the text before the first colon on a line.
#[derive(Clone, Copy, PartialEq, Eq, Structural, Debug)]
pub struct Key(pub Span);

/// A two-space indentation step.
#[derive(Clone, Copy, PartialEq, Eq, Structural, Debug)]
pub struct Indent;

/// A `- ` list-item marker.
#[derive(Clone, Copy, PartialEq, Eq, Structural, Debug)]
pub struct ListItem;

/// A line feed.
#[derive(Clone, Copy, PartialEq, Eq, Structural, Debug)]
pub struct LineBreak;

/// A run of text up to the end of the line.
#[derive(Clone, Copy, PartialEq, Eq, Structural, Debug)]
pub struct Text(pub Span);

/// One lexed token of the frontmatter header.
#[derive(Clone, Copy, PartialEq, Eq, Structural, Debug)]
pub enum Token {
    Key(Key),
    ListItem(ListItem),
    Indent(Indent),
    LineBreak(LineBreak),
    Text(Text),
}

pub enum TokenModel {
    Key(SpanModel),
    ListItem,
    Indent,
    LineBreak,
    Text(SpanModel),
}

impl Token {
    pub open spec fn model(self) -> TokenModel {
        match self {
            Token::Key(k) => TokenModel::Key(k.0.model()),
            Token::ListItem(_) => TokenModel::ListItem,
            Token::Indent(_) => TokenModel::Indent,
            Token::LineBreak(_) => TokenModel::LineBreak,
            Token::Text(t) => TokenModel::Text(t.0.model()),
        }
    }
}

/// The whole header as its token stream.
#[derive(PartialEq, Eq, Debug)]
pub struct Tokens(pub Vec<Token>);

pub open spec fn models_of_tokens(v: Seq<Token>) -> Seq<TokenModel> {
    v.map_values(|t: Token| t.model())
}

pub proof fn lemma_models_of_tokens_push(v: Seq<Token>, x: Token)
    ensures
        models_of_tokens(v.push(x)) == models_of_tokens(v).push(x.model()),
{
    assert(models_of_tokens(v.push(x)) =~= models_of_tokens(v).push(x.model()));
}

/// A key: non-empty text up to the first colon, with no line feed
/// before it; the colon and the byte after it are consumed.
pub open spec fn spec_key(s: Seq<u8>, pos: int) -> Option<(SpanModel, int)> {
    let j = scan_end(s, pos, s.len() as int, ScanKind::KeyStop);
    if j >= s.len() {
        None
    } else if s[j] != B_COLON {
        None
    } else if j == pos {
        None
    } else if j + 2 > s.len() {
        None
    } else {
        Some((span_at(pos, j), j + 2))
    }
}

/// A run of text up to (excluding) the next line-break byte; at least
/// one byte, so that the tokenizer always makes progress.
pub open spec fn spec_fm_text(s: Seq<u8>, pos: int) -> Option<(SpanModel, int)> {
    let e = scan_end(s, pos, s.len() as int, ScanKind::LineBreak);
    if e == pos {
        None
    } else {
        Some((span_at(pos, e), e))
    }
}

/// One token: line break, indent, list-item marker, key and plain
/// text, tried in that order.
pub open spec fn spec_token(s: Seq<u8>, pos: int) -> Option<(TokenModel, int)> {
    if 0 <= pos < s.len() && s[pos] == B_LF {
        Some((TokenModel::LineBreak, pos + 1))
    } else if match2_at(s, pos, s.len() as int, B_SPACE, B_SPACE) {
        Some((TokenModel::Indent, pos + 2))
    } else if match2_at(s, pos, s.len() as int, B_DASH, B_SPACE) {
        Some((TokenModel::ListItem, pos + 2))
    } else {
        match spec_key(s, pos) {
            Some((k, p)) => Some((TokenModel::Key(k), p)),
            None => match spec_fm_text(s, pos) {
                Some((t, p)) => Some((TokenModel::Text(t), p)),
                None => None,
            },
        }
    }
}

/// The whole header as tokens, or `None` when some position is reached
/// where no token matches.
pub open spec fn spec_tokens(s: Seq<u8>, pos: int) -> Option<Seq<TokenModel>>
    decreases s.len() - pos,
{
    if pos == s.len() {
        Some(Seq::empty())
    } else {
        match spec_token(s, pos) {
            None => None,
            Some((t, p)) => if !(pos < p <= s.len()) {
                None
            } else {
                match spec_tokens(s, p) {
                    None => None,
                    Some(rest) => Some(seq![t] + rest),
                }
            },
        }
    }
}

impl Key {
    /// Parses a key at `pos`.
    pub fn parse(input: &Vec<u8>, pos: usize) -> (r: Option<(Key, usize)>)
        requires
            pos <= input@.len(),
        ensures
            match r {
                Some(t) => {
                    &&& spec_key(input@, pos as int) == Some((t.0.0.model(), t.1 as int))
                    &&& pos < t.1 <= input@.len()
                },
                None => spec_key(input@, pos as int) is None,
            },
    {
        let len = input.len();
        let j = scan(input, pos, len, ScanKind::KeyStop);
        if j >= len {
            None
        } else if input[j] != B_COLON {
            None
        } else if j == pos {
            None
        } else if len - j < 2 {
            None
        } else {
            Some((Key(Span { start: pos, len: j - pos }), j + 2))
        }
    }
}

impl Indent {
    /// Parses a two-space indent at `pos`.
    pub fn parse(input: &Vec<u8>, pos: usize) -> (r: Option<(Indent, usize)>)
        requires
            pos <= input@.len(),
        ensures
            match r {
                Some(t) => match2_at(input@, pos as int, input@.len() as int, B_SPACE, B_SPACE)
                    && t.1 == pos + 2 && t.1 <= input@.len(),
                None => !match2_at(input@, pos as int, input@.len() as int, B_SPACE, B_SPACE),
            },
    {
        let len = input.len();
        if has2(input, pos, len, B_SPACE, B_SPACE) {
            Some((Indent, pos + 2))
        } else {
            None
        }
    }
}

impl ListItem {
    /// Parses a `- ` marker at `pos`.
    pub fn parse(input: &Vec<u8>, pos: usize) -> (r: Option<(ListItem, usize)>)
        requires
            pos <= input@.len(),
        ensures
            match r {
                Some(t) => match2_at(input@, pos as int, input@.len() as int, B_DASH, B_SPACE)
                    && t.1 == pos + 2 && t.1 <= input@.len(),
                None => !match2_at(input@, pos as int, input@.len() as int, B_DASH, B_SPACE),
            },
    {
        let len = input.len();
        if has2(input, pos, len, B_DASH, B_SPACE) {
            Some((ListItem, pos + 2))
        } else {
            None
        }
    }
}

impl LineBreak {
    /// Parses a line feed at `pos`.
    pub fn parse(input: &Vec<u8>, pos: usize) -> (r: Option<(LineBreak, usize)>)
        requires
            pos <= input@.len(),
        ensures
            match r {
                Some(t) => pos < input@.len() && input@[pos as int] == B_LF && t.1 == pos + 1,
                None => !(pos < input@.len() && input@[pos as int] == B_LF),
            },
    {
        let len = input.len();
        if pos < len && input[pos] == B_LF {
            Some((LineBreak, pos + 1))
        } else {
            None
        }
    }
}

impl Text {
    /// Parses a text run at `pos`.
    pub fn parse(input: &Vec<u8>, pos: usize) -> (r: Option<(Text, usize)>)
        requires
            pos <= input@.len(),
        ensures
            match r {
                Some(t) => {
                    &&& spec_fm_text(input@, pos as int) == Some((t.0.0.model(), t.1 as int))
                    &&& pos < t.1 <= input@.len()
                },
                None => spec_fm_text(input@, pos as int) is None,
            },
    {
        let len = input.len();
        let e = scan(input, pos, len, ScanKind::LineBreak);
        if e == pos {
            None
        } else {
            Some((Text(Span { start: pos, len: e - pos }), e))
        }
    }
}

impl Token {
    /// Parses one token at `pos`.
    pub fn parse(input: &Vec<u8>, pos: usize) -> (r: Option<(Token, usize)>)
        requires
            pos <= input@.len(),
        ensures
            match r {
                Some(t) => {
                    &&& spec_token(input@, pos as int) == Some((t.0.model(), t.1 as int))
                    &&& pos < t.1 <= input@.len()
                },
                None => spec_token(input@, pos as int) is None,
            },
    {
        match LineBreak::parse(input, pos) {
            Some((x, p)) => {
                return Some((Token::LineBreak(x), p));
            },
            None => {},
        }
        match Indent::parse(input, pos) {
            Some((x, p)) => {
                return Some((Token::Indent(x), p));
            },
            None => {},
        }
        match ListItem::parse(input, pos) {
            Some((x, p)) => {
                return Some((Token::ListItem(x), p));
            },
            None => {},
        }
        match Key::parse(input, pos) {
            Some((x, p)) => {
                return Some((Token::Key(x), p));
            },
            None => {},
        }
        match Text::parse(input, pos) {
            Some((x, p)) => {
                return Some((Token::Text(x), p));
            },
            None => {},
        }
        None
    }
}

impl Tokens {
    /// Lexes the whole header: its token stream, or `None` when some
    /// position matches no token.
    pub fn parse(input: &Vec<u8>) -> (r: Option<Tokens>)
        ensures
            match r {
                Some(tokens) => {
                    &&& spec_tokens(input@, 0) matches Some(m)
                    &&& models_of_tokens(tokens.0@) == spec_tokens(input@, 0)->0
                },
                None => spec_tokens(input@, 0) is None,
            },
    {
        let len = input.len();
        let mut tokens: Vec<Token> = Vec::new();
        let ghost mut prefix: Seq<TokenModel> = Seq::empty();
        let mut cur: usize = 0;
        loop
            invariant
                cur <= len,
                len == input@.len(),
                models_of_tokens(tokens@) == prefix,
                (match spec_tokens(input@, cur as int) {
                    Some(rest) => spec_tokens(input@, 0) == Some(prefix + rest),
                    None => spec_tokens(input@, 0) is None,
                }),
            decreases len - cur,
        {
            if cur == len {
                proof {
                    assert(spec_tokens(input@, cur as int) == Some(Seq::<TokenModel>::empty()));
                    assert(prefix + Seq::<TokenModel>::empty() =~= prefix);
                }
                return Some(Tokens(tokens));
            }
            match Token::parse(input, cur) {
                None => {
                    return None;
                },
                Some((t, p)) => {
                    let ghost prevt = tokens@;
                    let ghost prevp = prefix;
                    tokens.push(t);
                    proof {
                        prefix = prefix.push(t.model());
                        lemma_models_of_tokens_push(prevt, t);
                        if spec_tokens(input@, p as int) is Some {
                            let rest = spec_tokens(input@, p as int)->0;
                            assert(spec_tokens(input@, cur as int) == Some(
                                seq![t.model()] + rest,
                            ));
                            assert(prevp + (seq![t.model()] + rest) =~= prefix + rest);
                        }
                    }
                    cur = p;
                },
            }
        }
    }
}

/// An ordered key/value mapping of the frontmatter value tree.
#[derive(Debug)]
pub struct Mapping(pub Vec<(Key, Value)>);

/// An ordered list of the frontmatter value tree.
#[derive(Debug)]
pub struct List(pub Vec<Value>);

/// One value of the frontmatter value tree: a scalar text, a list, or
/// a mapping.
#[derive(Debug)]
pub enum Value {
    Text(Text),
    List(List),
    Mapping(Mapping),
}

/// A frontmatter document: the values a tree builder over the token
/// stream would produce.
#[derive(Debug)]
pub struct Document(pub Vec<Value>);

} // verus!
