use vstd::prelude::*;
use crate::collect::strings_view;
use crate::remove::{kept, lemma_kept_all, lemma_kept_append, superseded};
use crate::model::{Decl, DeclV, Token, TokenV, decls_view, same_tokens, tokens_view};

verus! {

/// The end of the run of imports that starts at `i`.
pub open spec fn run_end(s: Seq<DeclV>, i: int) -> int
    decreases s.len() - i,
{
    if i < 0 || i >= s.len() {
        s.len() as int
    } else if s[i] is Import {
        run_end(s, i + 1)
    } else {
        i
    }
}

/// The number of imports that open the module, which is where new imports go.
pub open spec fn leading_imports(s: Seq<DeclV>) -> int {
    run_end(s, 0)
}

pub open spec fn path_sep() -> Seq<TokenV> {
    seq![TokenV::Punct(':', true), TokenV::Punct(':', false)]
}

/// The name of the override module of `source` for `fork`.
pub open spec fn patch_module(source: Seq<char>, fork: Seq<char>) -> Seq<char> {
    source + "_"@ + fork
}

/// `pub use crate::<fork>::<source>_<fork>::<name> as <name>;`
pub open spec fn override_import(fork: Seq<char>, source: Seq<char>, name: Seq<char>) -> DeclV {
    DeclV::Import {
        tokens: seq![
            TokenV::Ident("pub"@),
            TokenV::Ident("use"@),
            TokenV::Ident("crate"@),
        ] + path_sep() + seq![TokenV::Ident(fork)] + path_sep() + seq![
            TokenV::Ident(patch_module(source, fork)),
        ] + path_sep() + seq![
            TokenV::Ident(name),
            TokenV::Ident("as"@),
            TokenV::Ident(name),
            TokenV::Punct(';', false),
        ],
    }
}

/// The imports that re-export the overriding functions, in the order of
/// their names.
pub open spec fn override_imports(fork: Seq<char>, source: Seq<char>, names: Seq<Seq<char>>) -> Seq<
    DeclV,
> {
    names.map_values(|n: Seq<char>| override_import(fork, source, n))
}

/// `s` with the re-export imports of `names` inserted at `at`.
pub open spec fn spliced(
    s: Seq<DeclV>,
    at: int,
    fork: Seq<char>,
    source: Seq<char>,
    names: Seq<Seq<char>>,
) -> Seq<DeclV> {
    s.subrange(0, at) + override_imports(fork, source, names) + s.subrange(at, s.len() as int)
}

/// `use crate::<module> as spec;`
pub open spec fn spec_import(module: Seq<char>) -> DeclV {
    DeclV::Import {
        tokens: seq![TokenV::Ident("use"@), TokenV::Ident("crate"@)] + path_sep() + seq![
            TokenV::Ident(module),
            TokenV::Ident("as"@),
            TokenV::Ident("spec"@),
            TokenV::Punct(';', false),
        ],
    }
}

/// The fork-neutral import of the base module: `use crate::phase0 as spec;`.
pub open spec fn sentinel() -> DeclV {
    spec_import("phase0"@)
}

/// How many times `d` occurs in `s`.
pub open spec fn count_of(s: Seq<DeclV>, d: DeclV) -> nat
    decreases s.len(),
{
    if s.len() == 0 {
        0
    } else {
        count_of(s.drop_last(), d) + if s.last() == d {
            1nat
        } else {
            0nat
        }
    }
}

/// The index of the last occurrence of `d` in `s`, `-1` where there is none.
pub open spec fn last_index_of(s: Seq<DeclV>, d: DeclV) -> int
    decreases s.len(),
{
    if s.len() == 0 {
        -1
    } else if s.last() == d {
        s.len() - 1
    } else {
        last_index_of(s.drop_last(), d)
    }
}

/// The module with its one sentinel import pointed at `fork`.
pub open spec fn finalized(s: Seq<DeclV>, fork: Seq<char>) -> Seq<DeclV> {
    s.update(last_index_of(s, sentinel()), spec_import(fork))
}

/// Why a module cannot be assembled.
#[derive(Clone, Copy, Debug, PartialEq, Eq, Structural)]
pub enum AssembleError {
    /// The base module does not open with an import.
    NoLeadingImports,
    /// The base module has no sentinel import.
    MissingSentinel,
    /// The base module has more than one sentinel import.
    DuplicateSentinel,
}

/// The number of imports that open the module.
pub fn leading_import_count(decls: &Vec<Decl>) -> (r: usize)
    ensures
        r as int == leading_imports(decls_view(decls@)),
{
    let ghost s = decls_view(decls@);
    let mut i: usize = 0;
    while i < decls.len()
        invariant
            s == decls_view(decls@),
            0 <= i <= decls.len(),
            run_end(s, i as int) == run_end(s, 0),
        decreases decls.len() - i,
    {
        match &decls[i] {
            Decl::Import { .. } => {},
            _ => {
                return i;
            },
        }
        i = i + 1;
    }
    i
}

fn ident(x: &str) -> (r: Token)
    ensures
        r@ == TokenV::Ident(x@),
{
    Token::Ident(String::from_str(x))
}

fn push_token(v: &mut Vec<Token>, t: Token)
    ensures
        tokens_view(final(v)@) == tokens_view(old(v)@).push(t@),
{
    let ghost before = tokens_view(v@);
    v.push(t);
    proof {
        assert(tokens_view(v@) =~= before.push(t@));
    }
}

fn push_path_sep(v: &mut Vec<Token>)
    ensures
        tokens_view(final(v)@) == tokens_view(old(v)@) + path_sep(),
{
    let ghost before = tokens_view(v@);
    v.push(Token::Punct(':', true));
    v.push(Token::Punct(':', false));
    proof {
        assert(tokens_view(v@) =~= before + path_sep());
    }
}

/// The name of the override module of `source` for `fork`:
/// `<source>_<fork>`.
pub fn patch_module_name(source: &str, fork: &str) -> (r: String)
    ensures
        r@ == patch_module(source@, fork@),
{
    let mut m = String::from_str(source);
    m.append("_");
    m.append(fork);
    m
}

/// The import that re-exports `name` from the override module of `source`
/// for `fork`.
pub fn make_override_import(fork: &str, source: &str, name: &str) -> (r: Decl)
    ensures
        r@ == override_import(fork@, source@, name@),
{
    let mut v: Vec<Token> = Vec::new();
    push_token(&mut v, ident("pub"));
    push_token(&mut v, ident("use"));
    push_token(&mut v, ident("crate"));
    push_path_sep(&mut v);
    push_token(&mut v, ident(fork));
    push_path_sep(&mut v);
    push_token(&mut v, Token::Ident(patch_module_name(source, fork)));
    push_path_sep(&mut v);
    push_token(&mut v, ident(name));
    push_token(&mut v, ident("as"));
    push_token(&mut v, ident(name));
    push_token(&mut v, Token::Punct(';', false));
    proof {
        assert(tokens_view(v@) =~= override_import(fork@, source@, name@).tokens());
    }
    Decl::Import { tokens: v }
}

/// `use crate::<module> as spec;`
pub fn make_spec_import(module: &str) -> (r: Decl)
    ensures
        r@ == spec_import(module@),
{
    let mut v: Vec<Token> = Vec::new();
    push_token(&mut v, ident("use"));
    push_token(&mut v, ident("crate"));
    push_path_sep(&mut v);
    push_token(&mut v, ident(module));
    push_token(&mut v, ident("as"));
    push_token(&mut v, ident("spec"));
    push_token(&mut v, Token::Punct(';', false));
    proof {
        assert(tokens_view(v@) =~= spec_import(module@).tokens());
    }
    Decl::Import { tokens: v }
}

proof fn lemma_run_end(s: Seq<DeclV>, i: int)
    requires
        0 <= i <= s.len(),
    ensures
        i <= run_end(s, i) <= s.len(),
        forall|j: int| i <= j < run_end(s, i) ==> #[trigger] s[j] is Import,
    decreases s.len() - i,
{
    if i < s.len() && s[i] is Import {
        lemma_run_end(s, i + 1);
    }
}

/// The opening imports of a module survive removal, in front.
pub proof fn lemma_leading_imports_kept(s: Seq<DeclV>, overrides: Seq<Seq<char>>)
    ensures
        0 <= leading_imports(s) <= s.len(),
        kept(s, overrides) == s.subrange(0, leading_imports(s)) + kept(
            s.subrange(leading_imports(s), s.len() as int),
            overrides,
        ),
{
    let at = leading_imports(s);
    lemma_run_end(s, 0);
    let a = s.subrange(0, at);
    let b = s.subrange(at, s.len() as int);
    assert(a + b =~= s);
    lemma_kept_append(a, b, overrides);
    assert forall|i: int| 0 <= i < a.len() implies !superseded(#[trigger] a[i], overrides) by {
        assert(a[i] == s[i]);
        assert(s[i] is Import);
    }
    lemma_kept_all(a, overrides);
}

fn same_decl(a: &Decl, b: &Decl) -> (r: bool)
    ensures
        r == (a@ == b@),
{
    match a {
        Decl::Function { name, tokens } => match b {
            Decl::Function { name: n, tokens: t } => name.eq(n) && same_tokens(tokens, t),
            _ => false,
        },
        Decl::Import { tokens } => match b {
            Decl::Import { tokens: t } => same_tokens(tokens, t),
            _ => false,
        },
        Decl::Opaque { tokens } => match b {
            Decl::Opaque { tokens: t } => same_tokens(tokens, t),
            _ => false,
        },
    }
}

/// Inserts, at `at`, an import that re-exports each name in `names` from the
/// override module of `source` for `fork`, in the order of `names`.
pub fn import_overrides(
    decls: Vec<Decl>,
    at: usize,
    names: &Vec<String>,
    fork: &str,
    source: &str,
) -> (r: Vec<Decl>)
    requires
        at <= decls@.len(),
    ensures
        decls_view(r@) == spliced(decls_view(decls@), at as int, fork@, source@, strings_view(names@)),
{
    let ghost s = decls_view(decls@);
    let mut head = decls;
    let mut tail = head.split_off(at);
    let mut imports: Vec<Decl> = Vec::new();
    let mut k: usize = 0;
    while k < names.len()
        invariant
            0 <= k <= names.len(),
            imports@.len() == k,
            forall|j: int|
                0 <= j < k ==> #[trigger] imports@[j]@ == override_import(fork@, source@, names@[j]@),
        decreases names.len() - k,
    {
        imports.push(make_override_import(fork, source, names[k].as_str()));
        k = k + 1;
    }
    let ghost h = head@;
    let ghost t = tail@;
    let ghost m = imports@;
    head.append(&mut imports);
    head.append(&mut tail);
    proof {
        assert(head@ == h + m + t);
        assert(decls_view(h) =~= s.subrange(0, at as int));
        assert(decls_view(t) =~= s.subrange(at as int, s.len() as int));
        assert(decls_view(m) =~= override_imports(fork@, source@, strings_view(names@)));
        assert(decls_view(head@) =~= decls_view(h) + decls_view(m) + decls_view(t));
    }
    head
}

/// Points the module's one sentinel import at `fork`; fails where the module
/// holds no sentinel import or more than one.
pub fn finalize(decls: Vec<Decl>, fork: &str) -> (r: Result<Vec<Decl>, AssembleError>)
    ensures
        count_of(decls_view(decls@), sentinel()) == 0 ==> r == Err::<Vec<Decl>, AssembleError>(
            AssembleError::MissingSentinel,
        ),
        count_of(decls_view(decls@), sentinel()) > 1 ==> r == Err::<Vec<Decl>, AssembleError>(
            AssembleError::DuplicateSentinel,
        ),
        count_of(decls_view(decls@), sentinel()) == 1 ==> (r matches Ok(v) && decls_view(v@)
            == finalized(decls_view(decls@), fork@)),
{
    let ghost s = decls_view(decls@);
    let marker = make_spec_import("phase0");
    let mut count: usize = 0;
    let mut found: usize = 0;
    let mut i: usize = 0;
    while i < decls.len()
        invariant
            s == decls_view(decls@),
            marker@ == sentinel(),
            0 <= i <= decls.len(),
            count as nat == count_of(s.subrange(0, i as int), sentinel()),
            count <= i,
            count > 0 ==> found < i && last_index_of(s.subrange(0, i as int), sentinel())
                == found as int,
        decreases decls.len() - i,
    {
        proof {
            assert(s.subrange(0, i + 1).drop_last() =~= s.subrange(0, i as int));
        }
        if same_decl(&decls[i], &marker) {
            count = count + 1;
            found = i;
        }
        i = i + 1;
    }
    proof {
        assert(s.subrange(0, s.len() as int) =~= s);
    }
    if count == 0 {
        return Err(AssembleError::MissingSentinel);
    }
    if count > 1 {
        return Err(AssembleError::DuplicateSentinel);
    }
    let mut out = decls;
    out.set(found, make_spec_import(fork));
    proof {
        assert(decls_view(out@) =~= finalized(s, fork@));
    }
    Ok(out)
}

} // verus!
