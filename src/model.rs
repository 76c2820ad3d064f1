use vstd::prelude::*;

verus! {

/// The delimiter of a bracketed token group.
#[derive(Clone, Copy, Debug, PartialEq, Eq, Structural)]
pub enum Delim {
    Paren,
    Bracket,
    Brace,
    Invisible,
}

/// One token of a declaration. Groups are flattened into an opening and a
/// closing marker around their contents.
#[derive(Clone, Debug, PartialEq, Eq)]
pub enum Token {
    Ident(String),
    /// A punctuation character, and whether it is joined to the next one.
    Punct(char, bool),
    Literal(String),
    Open(Delim),
    Close(Delim),
}

/// A top-level declaration of a module.
#[derive(Clone, Debug, PartialEq, Eq)]
pub enum Decl {
    /// A function item, with its name.
    Function { name: String, tokens: Vec<Token> },
    /// A `use` item.
    Import { tokens: Vec<Token> },
    /// Any other item, carried through untouched.
    Opaque { tokens: Vec<Token> },
}

/// The mathematical value of a token.
pub ghost enum TokenV {
    Ident(Seq<char>),
    Punct(char, bool),
    Literal(Seq<char>),
    Open(Delim),
    Close(Delim),
}

/// The mathematical value of a declaration.
pub ghost enum DeclV {
    Function { name: Seq<char>, tokens: Seq<TokenV> },
    Import { tokens: Seq<TokenV> },
    Opaque { tokens: Seq<TokenV> },
}

impl View for Token {
    type V = TokenV;

    open spec fn view(&self) -> TokenV {
        match self {
            Token::Ident(s) => TokenV::Ident(s@),
            Token::Punct(c, j) => TokenV::Punct(*c, *j),
            Token::Literal(s) => TokenV::Literal(s@),
            Token::Open(d) => TokenV::Open(*d),
            Token::Close(d) => TokenV::Close(*d),
        }
    }
}

pub open spec fn tokens_view(s: Seq<Token>) -> Seq<TokenV> {
    s.map_values(|t: Token| t@)
}

impl View for Decl {
    type V = DeclV;

    open spec fn view(&self) -> DeclV {
        match self {
            Decl::Function { name, tokens } => DeclV::Function {
                name: name@,
                tokens: tokens_view(tokens@),
            },
            Decl::Import { tokens } => DeclV::Import { tokens: tokens_view(tokens@) },
            Decl::Opaque { tokens } => DeclV::Opaque { tokens: tokens_view(tokens@) },
        }
    }
}

pub open spec fn decls_view(s: Seq<Decl>) -> Seq<DeclV> {
    s.map_values(|d: Decl| d@)
}

impl DeclV {
    pub open spec fn tokens(self) -> Seq<TokenV> {
        match self {
            DeclV::Function { tokens, .. } => tokens,
            DeclV::Import { tokens } => tokens,
            DeclV::Opaque { tokens } => tokens,
        }
    }
}

impl Token {
    /// A copy of the token.
    pub fn duplicate(&self) -> (r: Token)
        ensures
            r@ == self@,
    {
        match self {
            Token::Ident(s) => Token::Ident(s.clone()),
            Token::Punct(c, j) => Token::Punct(*c, *j),
            Token::Literal(s) => Token::Literal(s.clone()),
            Token::Open(d) => Token::Open(*d),
            Token::Close(d) => Token::Close(*d),
        }
    }

    /// Whether two tokens are the same.
    pub fn same(&self, other: &Token) -> (r: bool)
        ensures
            r == (self@ == other@),
    {
        match self {
            Token::Ident(a) => match other {
                Token::Ident(b) => a.eq(b),
                _ => false,
            },
            Token::Punct(a, x) => match other {
                Token::Punct(b, y) => *a == *b && *x == *y,
                _ => false,
            },
            Token::Literal(a) => match other {
                Token::Literal(b) => a.eq(b),
                _ => false,
            },
            Token::Open(a) => match other {
                Token::Open(b) => *a == *b,
                _ => false,
            },
            Token::Close(a) => match other {
                Token::Close(b) => *a == *b,
                _ => false,
            },
        }
    }
}

/// A copy of a token sequence.
pub fn duplicate_tokens(v: &Vec<Token>) -> (r: Vec<Token>)
    ensures
        tokens_view(r@) == tokens_view(v@),
{
    let mut r: Vec<Token> = Vec::new();
    let mut i: usize = 0;
    while i < v.len()
        invariant
            0 <= i <= v.len(),
            r@.len() == i,
            forall|k: int| 0 <= k < i ==> r@[k]@ == v@[k]@,
        decreases v.len() - i,
    {
        r.push(v[i].duplicate());
        i = i + 1;
    }
    proof {
        assert(tokens_view(r@) =~= tokens_view(v@));
    }
    r
}

impl Decl {
    /// A copy of the declaration.
    pub fn duplicate(&self) -> (r: Decl)
        ensures
            r@ == self@,
    {
        match self {
            Decl::Function { name, tokens } => Decl::Function {
                name: name.clone(),
                tokens: duplicate_tokens(tokens),
            },
            Decl::Import { tokens } => Decl::Import { tokens: duplicate_tokens(tokens) },
            Decl::Opaque { tokens } => Decl::Opaque { tokens: duplicate_tokens(tokens) },
        }
    }
}

/// Whether two token sequences are the same.
pub fn same_tokens(a: &Vec<Token>, b: &Vec<Token>) -> (r: bool)
    ensures
        r == (tokens_view(a@) == tokens_view(b@)),
{
    if a.len() != b.len() {
        proof {
            assert(tokens_view(a@).len() != tokens_view(b@).len());
        }
        return false;
    }
    let mut i: usize = 0;
    while i < a.len()
        invariant
            a.len() == b.len(),
            0 <= i <= a.len(),
            forall|k: int| 0 <= k < i ==> a@[k]@ == b@[k]@,
        decreases a.len() - i,
    {
        if !a[i].same(&b[i]) {
            proof {
                assert(tokens_view(a@)[i as int] != tokens_view(b@)[i as int]);
            }
            return false;
        }
        i = i + 1;
    }
    proof {
        assert(tokens_view(a@) =~= tokens_view(b@));
    }
    true
}

} // verus!
