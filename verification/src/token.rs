//! Token trees: the lexical data model shared by every stage.

use vstd::prelude::*;

verus! {

/// The bracket kind that encloses a group of tokens.
#[derive(Clone, Copy, Debug, PartialEq, Eq, Structural)]
pub enum Delimiter {
    /// `( ... )`
    Paren,
    /// `{ ... }`
    Brace,
    /// `[ ... ]`
    Bracket,
    /// No visible bracket; the group only marks a boundary.
    Invisible,
}

/// One token tree. A group owns the tokens between its brackets, so a whole
/// subtree can be moved without looking inside it.
#[derive(Debug, PartialEq, Eq)]
pub enum Token {
    /// A bracketed sequence of tokens.
    Group(Delimiter, Vec<Token>),
    /// An identifier or keyword.
    Ident(String),
    /// A single punctuation character; the flag is set when the next token
    /// is glued to it without a space, as the first `:` of `::` is.
    Punct(char, bool),
    /// A literal, kept as its source text.
    Literal(String),
}

/// The mathematical value of a [`Token`].
pub enum Tree {
    Group(Delimiter, Seq<Tree>),
    Ident(Seq<char>),
    Punct(char, bool),
    Literal(Seq<char>),
}

/// The values of a sequence of tokens, in order.
pub open spec fn trees(tokens: Seq<Token>) -> Seq<Tree>
    decreases tokens,
{
    Seq::new(tokens.len(), |i: int| if 0 <= i < tokens.len() { tokens[i].view() } else { arbitrary() })
}

impl View for Token {
    type V = Tree;

    open spec fn view(&self) -> Tree
        decreases self,
    {
        match self {
            Token::Group(delimiter, inner) => Tree::Group(*delimiter, trees(inner@)),
            Token::Ident(text) => Tree::Ident(text@),
            Token::Punct(ch, joint) => Tree::Punct(*ch, *joint),
            Token::Literal(text) => Tree::Literal(text@),
        }
    }
}

impl Tree {
    /// Whether this is the punctuation character `ch`, glued or not.
    pub open spec fn is_punct(self, ch: char) -> bool {
        self matches Tree::Punct(c, _) && c == ch
    }

    /// Whether this is the identifier or keyword spelled `word`.
    pub open spec fn is_word(self, word: Seq<char>) -> bool {
        self matches Tree::Ident(text) && text == word
    }

    /// Whether this is a group enclosed by `delimiter`.
    pub open spec fn is_group(self, delimiter: Delimiter) -> bool {
        self matches Tree::Group(d, _) && d == delimiter
    }
}

/// The value of a stand-alone punctuation token.
pub open spec fn punct_tree(ch: char) -> Tree {
    Tree::Punct(ch, false)
}

/// The value of an identifier token.
pub open spec fn word_tree(word: Seq<char>) -> Tree {
    Tree::Ident(word)
}

/// Appending one token appends its value.
pub proof fn lemma_trees_push(tokens: Seq<Token>, last: Token)
    ensures
        trees(tokens.push(last)) == trees(tokens).push(last@),
{
    assert(trees(tokens.push(last)) =~= trees(tokens).push(last@));
}

/// The values of a concatenation are the concatenation of the values.
pub proof fn lemma_trees_concat(left: Seq<Token>, right: Seq<Token>)
    ensures
        trees(left + right) == trees(left) + trees(right),
{
    assert(trees(left + right) =~= trees(left) + trees(right));
}

/// Whether two strings hold the same characters.
pub fn same_text(left: &str, right: &str) -> (same: bool)
    ensures
        same == (left@ == right@),
{
    let n: usize = left.unicode_len();
    if n != right.unicode_len() {
        return false;
    }
    let mut i: usize = 0;
    while i < n
        invariant
            n == left@.len(),
            n == right@.len(),
            i <= n,
            forall|k: int| 0 <= k < i ==> left@[k] == right@[k],
        decreases n - i,
    {
        if left.get_char(i) != right.get_char(i) {
            return false;
        }
        i += 1;
    }
    assert(left@ =~= right@);
    true
}

impl Clone for Token {
    fn clone(&self) -> (copy: Self)
        ensures
            copy@ == self@,
        decreases self,
    {
        match self {
            Token::Group(delimiter, inner) => Token::Group(*delimiter, clone_tokens(inner)),
            Token::Ident(text) => Token::Ident(text.clone()),
            Token::Punct(ch, joint) => Token::Punct(*ch, *joint),
            Token::Literal(text) => Token::Literal(text.clone()),
        }
    }
}

impl Token {
    /// A stand-alone punctuation token.
    pub fn punct(ch: char) -> (token: Token)
        ensures
            token@ == punct_tree(ch),
    {
        Token::Punct(ch, false)
    }

    /// An identifier token spelled `word`.
    pub fn word(word: &str) -> (token: Token)
        ensures
            token@ == word_tree(word@),
    {
        Token::Ident(word.to_owned())
    }

    /// Whether this is the punctuation character `ch`, glued or not.
    pub fn is_punct(&self, ch: char) -> (yes: bool)
        ensures
            yes == self@.is_punct(ch),
    {
        match self {
            Token::Punct(c, _) => *c == ch,
            _ => false,
        }
    }

    /// Whether this is the identifier or keyword spelled `word`.
    pub fn is_word(&self, word: &str) -> (yes: bool)
        ensures
            yes == self@.is_word(word@),
    {
        match self {
            Token::Ident(text) => same_text(text.as_str(), word),
            _ => false,
        }
    }

    /// Whether this is a group enclosed by `delimiter`.
    pub fn is_group(&self, delimiter: Delimiter) -> (yes: bool)
        ensures
            yes == self@.is_group(delimiter),
    {
        match self {
            Token::Group(d, _) => *d == delimiter,
            _ => false,
        }
    }
}

/// A deep copy of a token sequence.
pub fn clone_tokens(tokens: &Vec<Token>) -> (copy: Vec<Token>)
    ensures
        trees(copy@) == trees(tokens@),
    decreases tokens,
{
    let mut copy: Vec<Token> = Vec::new();
    let mut i: usize = 0;
    while i < tokens.len()
        invariant
            i <= tokens.len(),
            copy.len() == i,
            forall|k: int| 0 <= k < i ==> copy@[k]@ == tokens@[k]@,
        decreases tokens.len() - i,
    {
        let item = tokens[i].clone();
        copy.push(item);
        i += 1;
    }
    assert(trees(copy@) =~= trees(tokens@));
    copy
}

/// Appends deep copies of `more` to `out`.
pub fn append_tokens(out: &mut Vec<Token>, more: &Vec<Token>)
    ensures
        trees(final(out)@) == trees(old(out)@) + trees(more@),
{
    let mut i: usize = 0;
    while i < more.len()
        invariant
            i <= more.len(),
            trees(out@) == trees(old(out)@) + trees(more@.take(i as int)),
        decreases more.len() - i,
    {
        let item = more[i].clone();
        proof {
            lemma_trees_push(out@, item);
            assert(more@.take(i as int + 1) =~= more@.take(i as int).push(more@[i as int]));
            lemma_trees_push(more@.take(i as int), more@[i as int]);
        }
        out.push(item);
        i += 1;
    }
    assert(more@.take(more.len() as int) =~= more@);
}

} // verus!
