use vstd::prelude::*;
use crate::collect::{is_function_named, strings_view};
use crate::model::{Decl, DeclV, decls_view};
use crate::text::{is_prefix, starts_with_text};

verus! {

/// The name prefix of the deprecated helper family that no fork keeps.
pub open spec fn expiration_prefix() -> Seq<char> {
    "get_matching_"@
}

/// `d` is a function that the override names or that has expired.
pub open spec fn superseded(d: DeclV, overrides: Seq<Seq<char>>) -> bool {
    match d {
        DeclV::Function { name, .. } => overrides.contains(name) || is_prefix(
            expiration_prefix(),
            name,
        ),
        _ => false,
    }
}

/// The declarations of `s` that are not superseded, in their order.
pub open spec fn kept(s: Seq<DeclV>, overrides: Seq<Seq<char>>) -> Seq<DeclV>
    decreases s.len(),
{
    if s.len() == 0 {
        Seq::empty()
    } else {
        let r = kept(s.drop_last(), overrides);
        if superseded(s.last(), overrides) {
            r
        } else {
            r.push(s.last())
        }
    }
}

fn is_superseded(d: &Decl, overrides: &Vec<String>) -> (r: bool)
    ensures
        r == superseded(d@, strings_view(overrides@)),
{
    match d {
        Decl::Function { name, .. } => {
            let mut k: usize = 0;
            while k < overrides.len()
                invariant
                    is_function_named(d@, name@),
                    0 <= k <= overrides.len(),
                    forall|m: int| 0 <= m < k ==> overrides@[m]@ != name@,
                decreases overrides.len() - k,
            {
                if overrides[k].eq(name) {
                    proof {
                        assert(strings_view(overrides@)[k as int] == name@);
                        assert(strings_view(overrides@).contains(name@));
                    }
                    return true;
                }
                k = k + 1;
            }
            proof {
                assert forall|m: int| 0 <= m < overrides@.len() implies strings_view(
                    overrides@,
                )[m] != name@ by {}
            }
            starts_with_text(name.as_str(), "get_matching_")
        },
        _ => false,
    }
}

/// Drops every function whose name the override module defines or that
/// carries the expiration prefix. Everything else stays, in its order.
pub fn remove_overrides(base: &Vec<Decl>, overrides: &Vec<String>) -> (r: Vec<Decl>)
    ensures
        decls_view(r@) == kept(decls_view(base@), strings_view(overrides@)),
{
    let ghost ovr = strings_view(overrides@);
    let mut r: Vec<Decl> = Vec::new();
    let mut i: usize = 0;
    while i < base.len()
        invariant
            0 <= i <= base.len(),
            ovr == strings_view(overrides@),
            decls_view(r@) == kept(decls_view(base@).subrange(0, i as int), ovr),
        decreases base.len() - i,
    {
        proof {
            assert(decls_view(base@).subrange(0, i + 1).drop_last() =~= decls_view(
                base@,
            ).subrange(0, i as int));
        }
        if !is_superseded(&base[i], overrides) {
            let ghost before = decls_view(r@);
            r.push(base[i].duplicate());
            proof {
                assert(decls_view(r@) =~= before.push(base@[i as int]@));
            }
        }
        i = i + 1;
    }
    proof {
        assert(decls_view(base@).subrange(0, base@.len() as int) =~= decls_view(base@));
    }
    r
}

/// Removal distributes over concatenation.
pub proof fn lemma_kept_append(a: Seq<DeclV>, b: Seq<DeclV>, overrides: Seq<Seq<char>>)
    ensures
        kept(a + b, overrides) == kept(a, overrides) + kept(b, overrides),
    decreases b.len(),
{
    if b.len() == 0 {
        assert(a + b =~= a);
        assert(kept(a, overrides) + kept(b, overrides) =~= kept(a, overrides));
    } else {
        assert((a + b).drop_last() =~= a + b.drop_last());
        assert((a + b).last() == b.last());
        lemma_kept_append(a, b.drop_last(), overrides);
        if !superseded(b.last(), overrides) {
            assert(kept(a, overrides) + kept(b.drop_last(), overrides).push(b.last()) =~= (kept(
                a,
                overrides,
            ) + kept(b.drop_last(), overrides)).push(b.last()));
        }
    }
}

/// Removal keeps a sequence of which nothing is superseded.
pub proof fn lemma_kept_all(s: Seq<DeclV>, overrides: Seq<Seq<char>>)
    requires
        forall|i: int| 0 <= i < s.len() ==> !superseded(#[trigger] s[i], overrides),
    ensures
        kept(s, overrides) == s,
    decreases s.len(),
{
    if s.len() > 0 {
        lemma_kept_all(s.drop_last(), overrides);
        assert(s.drop_last().push(s.last()) =~= s);
    }
}

} // verus!
