use vstd::prelude::*;
use crate::model::{Decl, DeclV, Token, TokenV, decls_view, tokens_view, duplicate_tokens};
use crate::text::{contains_text, has_infix};

verus! {

/// The fork whose block types carry the sync committee size.
pub open spec fn generics_fork() -> Seq<char> {
    "altair"@
}

/// The name part that marks a block type.
pub open spec fn trigger_name() -> Seq<char> {
    "BeaconBlock"@
}

/// The generic bound that the sync committee size replaces.
pub open spec fn retired_ident() -> Seq<char> {
    "PENDING_ATTESTATIONS_BOUND"@
}

/// The generic argument that block types gain.
pub open spec fn sync_ident() -> Seq<char> {
    "SYNC_COMMITTEE_SIZE"@
}

pub open spec fn is_punct(t: TokenV, c: char) -> bool {
    t matches TokenV::Punct(d, _) && d == c
}

pub open spec fn names_trigger(t: TokenV) -> bool {
    match t {
        TokenV::Ident(x) => has_infix(trigger_name(), x),
        _ => false,
    }
}

/// Token `i` opens the generic argument list of a block type, written
/// `Name<` or `Name::<`.
pub open spec fn opens_trigger(s: Seq<TokenV>, i: int) -> bool {
    0 <= i < s.len() && is_punct(s[i], '<') && ((i >= 1 && names_trigger(s[i - 1])) || (i >= 3
        && is_punct(s[i - 1], ':') && is_punct(s[i - 2], ':') && names_trigger(s[i - 3])))
}

/// Token `k` is the `>` of an arrow (`->` or `=>`).
pub open spec fn arrow_tail(s: Seq<TokenV>, k: int) -> bool {
    1 <= k < s.len() && (s[k - 1] == TokenV::Punct('-', true) || s[k - 1] == TokenV::Punct(
        '=',
        true,
    ))
}

/// The index of the `>` that closes an angle list, scanning from `k` with
/// `angle` open angle brackets and `group` open delimited groups; `-1` where
/// the list does not close before a `;`, a group's end, or the end.
pub open spec fn close_from(s: Seq<TokenV>, k: int, angle: nat, group: nat) -> int
    decreases s.len() - k,
{
    if k < 0 || k >= s.len() {
        -1
    } else {
        match s[k] {
            TokenV::Open(_) => close_from(s, k + 1, angle, group + 1),
            TokenV::Close(_) => if group == 0 {
                -1
            } else {
                close_from(s, k + 1, angle, (group - 1) as nat)
            },
            TokenV::Punct(c, _) => if group > 0 {
                close_from(s, k + 1, angle, group)
            } else if c == '<' {
                close_from(s, k + 1, angle + 1, group)
            } else if c == '>' && !arrow_tail(s, k) {
                if angle <= 1 {
                    k
                } else {
                    close_from(s, k + 1, (angle - 1) as nat, group)
                }
            } else if c == ';' {
                -1
            } else {
                close_from(s, k + 1, angle, group)
            },
            _ => close_from(s, k + 1, angle, group),
        }
    }
}

/// Token `j` closes the generic argument list of a block type.
pub open spec fn closes_trigger(s: Seq<TokenV>, j: int) -> bool {
    exists|i: int| #[trigger] opens_trigger(s, i) && close_from(s, i + 1, 1, 0) == j
}

pub open spec fn renamed(t: TokenV) -> TokenV {
    if t == TokenV::Ident(retired_ident()) {
        TokenV::Ident(sync_ident())
    } else {
        t
    }
}

/// What is written before the `>` at `j`: the new argument, with a comma
/// unless the list is empty or already ends in one.
pub open spec fn appended(s: Seq<TokenV>, j: int) -> Seq<TokenV> {
    if j >= 1 && (is_punct(s[j - 1], ',') || is_punct(s[j - 1], '<')) {
        seq![TokenV::Ident(sync_ident())]
    } else {
        seq![TokenV::Punct(',', false), TokenV::Ident(sync_ident())]
    }
}

/// The first `n` tokens of `s` after the generic fix.
pub open spec fn fixed_upto(s: Seq<TokenV>, n: int) -> Seq<TokenV>
    decreases n,
{
    if n <= 0 {
        Seq::empty()
    } else {
        fixed_upto(s, n - 1) + (if closes_trigger(s, n - 1) {
            appended(s, n - 1)
        } else {
            Seq::empty()
        }) + seq![renamed(s[n - 1])]
    }
}

/// A token sequence after the generic fix: every block type's generic list
/// gains the sync committee size as its last argument, and the retired bound
/// is renamed wherever it occurs.
pub open spec fn fixed_tokens(s: Seq<TokenV>) -> Seq<TokenV> {
    fixed_upto(s, s.len() as int)
}

pub open spec fn fixed_decl(d: DeclV) -> DeclV {
    match d {
        DeclV::Function { name, tokens } => DeclV::Function {
            name: if name == retired_ident() {
                sync_ident()
            } else {
                name
            },
            tokens: fixed_tokens(tokens),
        },
        DeclV::Import { tokens } => DeclV::Import { tokens: fixed_tokens(tokens) },
        DeclV::Opaque { tokens } => DeclV::Opaque { tokens: fixed_tokens(tokens) },
    }
}

/// The module after the generic fix, which only the generics fork receives.
pub open spec fn fixed_module(s: Seq<DeclV>, fork: Seq<char>) -> Seq<DeclV> {
    if fork == generics_fork() {
        s.map_values(|d: DeclV| fixed_decl(d))
    } else {
        s
    }
}

fn is_punct_token(t: &Token, c: char) -> (r: bool)
    ensures
        r == is_punct(t@, c),
{
    match t {
        Token::Punct(d, _) => *d == c,
        _ => false,
    }
}

fn token_names_trigger(t: &Token) -> (r: bool)
    ensures
        r == names_trigger(t@),
{
    match t {
        Token::Ident(x) => contains_text(x.as_str(), "BeaconBlock"),
        _ => false,
    }
}

fn token_opens_trigger(v: &Vec<Token>, i: usize) -> (r: bool)
    requires
        i < v@.len(),
    ensures
        r == opens_trigger(tokens_view(v@), i as int),
{
    if !is_punct_token(&v[i], '<') {
        return false;
    }
    if i >= 1 && token_names_trigger(&v[i - 1]) {
        return true;
    }
    i >= 3 && is_punct_token(&v[i - 1], ':') && is_punct_token(&v[i - 2], ':')
        && token_names_trigger(&v[i - 3])
}

fn token_arrow_tail(v: &Vec<Token>, k: usize) -> (r: bool)
    requires
        k < v@.len(),
    ensures
        r == arrow_tail(tokens_view(v@), k as int),
{
    if k == 0 {
        return false;
    }
    match &v[k - 1] {
        Token::Punct(c, j) => *j && (*c == '-' || *c == '='),
        _ => false,
    }
}

/// The index of the `>` that closes the angle list opened just before
/// `start`.
fn find_close(v: &Vec<Token>, start: usize) -> (r: Option<usize>)
    requires
        1 <= start,
    ensures
        match r {
            Some(j) => j < v@.len() && close_from(tokens_view(v@), start as int, 1, 0) == j,
            None => close_from(tokens_view(v@), start as int, 1, 0) == -1,
        },
{
    let ghost s = tokens_view(v@);
    let mut k: usize = start;
    let mut angle: usize = 1;
    let mut group: usize = 0;
    while k < v.len()
        invariant
            s == tokens_view(v@),
            1 <= start <= k,
            1 <= angle <= k - start + 1,
            group <= k - start,
            close_from(s, k as int, angle as nat, group as nat) == close_from(
                s,
                start as int,
                1,
                0,
            ),
        decreases v.len() - k,
    {
        match &v[k] {
            Token::Open(_) => {
                group = group + 1;
            },
            Token::Close(_) => {
                if group == 0 {
                    return None;
                }
                group = group - 1;
            },
            Token::Punct(c, _) => {
                if group > 0 {
                } else if *c == '<' {
                    angle = angle + 1;
                } else if *c == '>' && !token_arrow_tail(v, k) {
                    if angle <= 1 {
                        return Some(k);
                    }
                    angle = angle - 1;
                } else if *c == ';' {
                    return None;
                }
            },
            _ => {},
        }
        k = k + 1;
    }
    None
}

/// Some token before `i` opens a block type's generic list that `j` closes.
pub open spec fn closes_trigger_before(s: Seq<TokenV>, j: int, i: int) -> bool {
    exists|m: int| 0 <= m < i && #[trigger] opens_trigger(s, m) && close_from(s, m + 1, 1, 0) == j
}

/// For each token, whether it closes the generic list of a block type.
fn closing_marks(v: &Vec<Token>) -> (marks: Vec<bool>)
    ensures
        marks@.len() == v@.len(),
        forall|j: int| 0 <= j < v@.len() ==> marks@[j] == closes_trigger(tokens_view(v@), j),
{
    let ghost s = tokens_view(v@);
    let mut marks: Vec<bool> = Vec::new();
    let mut i: usize = 0;
    while i < v.len()
        invariant
            0 <= i <= v.len(),
            marks@.len() == i,
            forall|j: int| 0 <= j < i ==> !marks@[j],
        decreases v.len() - i,
    {
        marks.push(false);
        i = i + 1;
    }
    i = 0;
    while i < v.len()
        invariant
            s == tokens_view(v@),
            0 <= i <= v.len(),
            marks@.len() == v@.len(),
            forall|j: int| 0 <= j < v@.len() ==> marks@[j] == closes_trigger_before(s, j, i as int),
        decreases v.len() - i,
    {
        let ghost old_marks = marks@;
        let mut closed: Option<usize> = None;
        if token_opens_trigger(v, i) {
            closed = find_close(v, i + 1);
            match closed {
                Some(c) => {
                    marks.set(c, true);
                },
                None => {},
            }
        }
        proof {
            assert forall|j: int| 0 <= j < v@.len() implies marks@[j] == closes_trigger_before(
                s,
                j,
                i + 1,
            ) by {
                if closes_trigger_before(s, j, i + 1) && !closes_trigger_before(s, j, i as int) {
                    let m = choose|m: int|
                        0 <= m < i + 1 && #[trigger] opens_trigger(s, m) && close_from(s, m + 1, 1, 0)
                            == j;
                    assert(m == i);
                }
                if closed == Some(j as usize) {
                    assert(opens_trigger(s, i as int));
                    assert(closes_trigger_before(s, j, i + 1));
                }
                if closes_trigger_before(s, j, i as int) {
                    let m = choose|m: int|
                        0 <= m < i && #[trigger] opens_trigger(s, m) && close_from(s, m + 1, 1, 0) == j;
                    assert(0 <= m < i + 1 && opens_trigger(s, m));
                }
            }
        }
        i = i + 1;
    }
    proof {
        assert forall|j: int| 0 <= j < v@.len() implies marks@[j] == closes_trigger(s, j) by {
            if closes_trigger(s, j) {
                let m = choose|m: int| #[trigger] opens_trigger(s, m) && close_from(s, m + 1, 1, 0) == j;
                assert(0 <= m < v@.len() && opens_trigger(s, m));
            }
        }
    }
    marks
}

fn renamed_token(t: &Token) -> (r: Token)
    ensures
        r@ == renamed(t@),
{
    match t {
        Token::Ident(x) => {
            if x.eq(&String::from_str("PENDING_ATTESTATIONS_BOUND")) {
                Token::Ident(String::from_str("SYNC_COMMITTEE_SIZE"))
            } else {
                Token::Ident(x.clone())
            }
        },
        _ => t.duplicate(),
    }
}

/// Applies the generic fix to a token sequence: every generic list of a type
/// whose name contains `BeaconBlock` gains `SYNC_COMMITTEE_SIZE` as its last
/// argument, and `PENDING_ATTESTATIONS_BOUND` becomes `SYNC_COMMITTEE_SIZE`
/// wherever it occurs.
pub fn fix_generics(v: &Vec<Token>) -> (r: Vec<Token>)
    ensures
        tokens_view(r@) == fixed_tokens(tokens_view(v@)),
{
    let ghost s = tokens_view(v@);
    let marks = closing_marks(v);
    let mut r: Vec<Token> = Vec::new();
    let mut i: usize = 0;
    while i < v.len()
        invariant
            s == tokens_view(v@),
            0 <= i <= v.len(),
            marks@.len() == v@.len(),
            forall|j: int| 0 <= j < v@.len() ==> marks@[j] == closes_trigger(s, j),
            tokens_view(r@) == fixed_upto(s, i as int),
        decreases v.len() - i,
    {
        let ghost before = tokens_view(r@);
        if marks[i] {
            let bare = i >= 1 && (is_punct_token(&v[i - 1], ',') || is_punct_token(&v[i - 1], '<'));
            if !bare {
                r.push(Token::Punct(',', false));
            }
            r.push(Token::Ident(String::from_str("SYNC_COMMITTEE_SIZE")));
        }
        let ghost mid = tokens_view(r@);
        proof {
            assert(mid == before + (if closes_trigger(s, i as int) {
                appended(s, i as int)
            } else {
                Seq::empty()
            }));
        }
        r.push(renamed_token(&v[i]));
        proof {
            assert(tokens_view(r@) =~= mid.push(renamed(s[i as int])));
        }
        i = i + 1;
    }
    r
}

fn fix_decl(d: &Decl) -> (r: Decl)
    ensures
        r@ == fixed_decl(d@),
{
    match d {
        Decl::Function { name, tokens } => {
            let retired = String::from_str("PENDING_ATTESTATIONS_BOUND");
            let new_name = if name.eq(&retired) {
                String::from_str("SYNC_COMMITTEE_SIZE")
            } else {
                name.clone()
            };
            Decl::Function { name: new_name, tokens: fix_generics(tokens) }
        },
        Decl::Import { tokens } => Decl::Import { tokens: fix_generics(tokens) },
        Decl::Opaque { tokens } => Decl::Opaque { tokens: fix_generics(tokens) },
    }
}

/// Whether `fork` is the fork whose block types gain the sync committee size.
pub fn widens_generics(fork: &str) -> (r: bool)
    ensures
        r == (fork@ == generics_fork()),
{
    let f = String::from_str(fork);
    f.eq(&String::from_str("altair"))
}

/// The generic fix over a whole module, for the fork that receives it; any
/// other fork gets the module unchanged.
pub fn fix_module_generics(decls: &Vec<Decl>, fork: &str) -> (r: Vec<Decl>)
    ensures
        decls_view(r@) == fixed_module(decls_view(decls@), fork@),
{
    let active = widens_generics(fork);
    let ghost s = decls_view(decls@);
    let mut r: Vec<Decl> = Vec::new();
    let mut i: usize = 0;
    while i < decls.len()
        invariant
            s == decls_view(decls@),
            active == (fork@ == generics_fork()),
            0 <= i <= decls.len(),
            r@.len() == i,
            forall|j: int|
                0 <= j < i ==> #[trigger] r@[j]@ == (if active {
                    fixed_decl(s[j])
                } else {
                    s[j]
                }),
        decreases decls.len() - i,
    {
        if active {
            r.push(fix_decl(&decls[i]));
        } else {
            r.push(decls[i].duplicate());
        }
        i = i + 1;
    }
    proof {
        assert(decls_view(r@) =~= fixed_module(s, fork@));
    }
    r
}

} // verus!
