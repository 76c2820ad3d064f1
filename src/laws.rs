use vstd::prelude::*;
use crate::collect::{function_names, lemma_function_names};
use crate::generics::{fixed_module, generics_fork};
use crate::model::DeclV;
use crate::pipeline::{assembled, composed};
use crate::remove::{expiration_prefix, kept, superseded};
use crate::splice::{
    count_of, last_index_of, leading_imports, override_import,
    override_imports, sentinel, spec_import,
};
use crate::text::is_prefix;

verus! {

/// Assembly is a function of its inputs: equal inputs give equal outputs.
pub proof fn lemma_assembly_deterministic(
    fork: Seq<char>,
    source: Seq<char>,
    base1: Seq<DeclV>,
    base2: Seq<DeclV>,
    overrides1: Seq<DeclV>,
    overrides2: Seq<DeclV>,
)
    requires
        base1 == base2,
        overrides1 == overrides2,
    ensures
        assembled(fork, source, base1, function_names(overrides1)) == assembled(
            fork,
            source,
            base2,
            function_names(overrides2),
        ),
{
}

/// After removal no function remains whose name the override module defines
/// or that carries the expiration prefix.
pub proof fn lemma_removal_complete(base: Seq<DeclV>, names: Seq<Seq<char>>)
    ensures
        forall|i: int|
            0 <= i < kept(base, names).len() ==> match #[trigger] kept(base, names)[i] {
                DeclV::Function { name, .. } => !names.contains(name) && !is_prefix(
                    expiration_prefix(),
                    name,
                ),
                _ => true,
            },
    decreases base.len(),
{
    if base.len() > 0 {
        lemma_removal_complete(base.drop_last(), names);
        let r = kept(base.drop_last(), names);
        if !superseded(base.last(), names) {
            assert forall|i: int| 0 <= i < r.len() + 1 implies #[trigger] r.push(base.last())[i]
                == (if i < r.len() {
                r[i]
            } else {
                base.last()
            }) by {}
        }
    }
}

/// For any fork but the generics fork the generic fix changes nothing.
pub proof fn lemma_generics_fork_gated(fork: Seq<char>, decls: Seq<DeclV>)
    requires
        fork != generics_fork(),
    ensures
        fixed_module(decls, fork) == decls,
{
}

proof fn lemma_count_append(a: Seq<DeclV>, b: Seq<DeclV>, d: DeclV)
    ensures
        count_of(a + b, d) == count_of(a, d) + count_of(b, d),
    decreases b.len(),
{
    if b.len() == 0 {
        assert(a + b =~= a);
    } else {
        assert((a + b).drop_last() =~= a + b.drop_last());
        lemma_count_append(a, b.drop_last(), d);
    }
}

proof fn lemma_count_update(s: Seq<DeclV>, i: int, v: DeclV, d: DeclV)
    requires
        0 <= i < s.len(),
    ensures
        count_of(s.update(i, v), d) + (if s[i] == d {
            1int
        } else {
            0
        }) == count_of(s, d) + (if v == d {
            1int
        } else {
            0
        }),
    decreases s.len(),
{
    if i == s.len() - 1 {
        assert(s.update(i, v).drop_last() =~= s.drop_last());
    } else {
        assert(s.update(i, v).drop_last() =~= s.drop_last().update(i, v));
        lemma_count_update(s.drop_last(), i, v, d);
    }
}

proof fn lemma_last_index(s: Seq<DeclV>, d: DeclV)
    requires
        count_of(s, d) > 0,
    ensures
        0 <= last_index_of(s, d) < s.len(),
        s[last_index_of(s, d)] == d,
    decreases s.len(),
{
    if s.last() != d {
        lemma_last_index(s.drop_last(), d);
    }
}

proof fn lemma_import_names_differ(fork: Seq<char>, source: Seq<char>, a: Seq<char>, b: Seq<char>)
    requires
        override_import(fork, source, a) == override_import(fork, source, b),
    ensures
        a == b,
{
    assert(override_import(fork, source, a).tokens()[11] == crate::model::TokenV::Ident(a));
    assert(override_import(fork, source, b).tokens()[11] == crate::model::TokenV::Ident(b));
}

proof fn lemma_count_imports(
    fork: Seq<char>,
    source: Seq<char>,
    names: Seq<Seq<char>>,
    name: Seq<char>,
)
    requires
        names.no_duplicates(),
    ensures
        count_of(override_imports(fork, source, names), override_import(fork, source, name)) == (
        if names.contains(name) {
            1nat
        } else {
            0nat
        }),
    decreases names.len(),
{
    if names.len() > 0 {
        let t = names.drop_last();
        assert(override_imports(fork, source, names).drop_last() =~= override_imports(
            fork,
            source,
            t,
        ));
        assert(t.no_duplicates());
        lemma_count_imports(fork, source, t, name);
        if override_import(fork, source, names.last()) == override_import(fork, source, name) {
            lemma_import_names_differ(fork, source, names.last(), name);
        }
        if names.contains(name) && names.last() != name {
            let j = choose|j: int| 0 <= j < names.len() && names[j] == name;
            assert(t[j] == name);
        }
        if t.contains(name) {
            let j = choose|j: int| 0 <= j < t.len() && t[j] == name;
            assert(names[j] == t[j]);
            if names.last() == name {
                assert(names[names.len() - 1] == names[j]);
            }
        }
        if names.last() == name {
            assert(names[names.len() - 1] == name);
        }
    }
}

proof fn lemma_distinct_shapes(fork: Seq<char>, source: Seq<char>, name: Seq<char>, m: Seq<char>)
    ensures
        override_import(fork, source, name) != spec_import(m),
{
    assert(override_import(fork, source, name).tokens().len() == 15);
    assert(spec_import(m).tokens().len() == 8);
}

/// Where assembly succeeds, each name that the override module defines is
/// re-exported by exactly one import of the output, unless the base already
/// held that very import.
pub proof fn lemma_overrides_reexported(
    fork: Seq<char>,
    source: Seq<char>,
    base: Seq<DeclV>,
    overrides: Seq<DeclV>,
    name: Seq<char>,
)
    requires
        function_names(overrides).contains(name),
        assembled(fork, source, base, function_names(overrides)) is Ok,
        count_of(
            fixed_module(kept(base, function_names(overrides)), fork),
            override_import(fork, source, name),
        ) == 0,
    ensures
        count_of(
            assembled(fork, source, base, function_names(overrides))->Ok_0,
            override_import(fork, source, name),
        ) == 1,
{
    let names = function_names(overrides);
    let x = override_import(fork, source, name);
    let f = fixed_module(kept(base, names), fork);
    let at = leading_imports(base);
    let mid = composed(fork, source, base, names);
    lemma_function_names(overrides);
    crate::splice::lemma_leading_imports_kept(base, names);
    assert(f.subrange(0, at) + f.subrange(at, f.len() as int) =~= f);
    lemma_count_append(f.subrange(0, at), f.subrange(at, f.len() as int), x);
    lemma_count_append(
        f.subrange(0, at) + override_imports(fork, source, names),
        f.subrange(at, f.len() as int),
        x,
    );
    lemma_count_append(f.subrange(0, at), override_imports(fork, source, names), x);
    lemma_count_imports(fork, source, names, name);
    assert(count_of(mid, x) == 1);
    lemma_last_index(mid, sentinel());
    let idx = last_index_of(mid, sentinel());
    lemma_count_update(mid, idx, spec_import(fork), x);
    lemma_distinct_shapes(fork, source, name, fork);
    lemma_distinct_shapes(fork, source, name, "phase0"@);
}

/// Where assembly succeeds, the output holds no sentinel import and exactly
/// one import that binds the fork's module under the sentinel's alias, unless
/// the base already held that import.
pub proof fn lemma_sentinel_substituted(
    fork: Seq<char>,
    source: Seq<char>,
    base: Seq<DeclV>,
    names: Seq<Seq<char>>,
)
    requires
        assembled(fork, source, base, names) is Ok,
        count_of(composed(fork, source, base, names), spec_import(fork)) == 0,
    ensures
        count_of(assembled(fork, source, base, names)->Ok_0, sentinel()) == 0,
        count_of(assembled(fork, source, base, names)->Ok_0, spec_import(fork)) == 1,
{
    let mid = composed(fork, source, base, names);
    lemma_last_index(mid, sentinel());
    let idx = last_index_of(mid, sentinel());
    lemma_count_update(mid, idx, spec_import(fork), sentinel());
    lemma_count_update(mid, idx, spec_import(fork), spec_import(fork));
}

} // verus!
