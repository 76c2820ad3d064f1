use vstd::prelude::*;
use crate::model::{Decl, DeclV, decls_view};

verus! {

pub open spec fn strings_view(s: Seq<String>) -> Seq<Seq<char>> {
    s.map_values(|x: String| x@)
}

/// The names of the top-level functions of a module, each once, in the order
/// of their first declaration.
pub open spec fn function_names(s: Seq<DeclV>) -> Seq<Seq<char>>
    decreases s.len(),
{
    if s.len() == 0 {
        Seq::empty()
    } else {
        let r = function_names(s.drop_last());
        match s.last() {
            DeclV::Function { name, .. } => if r.contains(name) {
                r
            } else {
                r.push(name)
            },
            _ => r,
        }
    }
}

/// `d` is a function named `name`.
pub open spec fn is_function_named(d: DeclV, name: Seq<char>) -> bool {
    d matches DeclV::Function { name: n, .. } && n == name
}

/// `name` is the name of a top-level function of the module.
pub open spec fn declares_function(s: Seq<DeclV>, name: Seq<char>) -> bool {
    exists|i: int| 0 <= i < s.len() && is_function_named(#[trigger] s[i], name)
}

pub proof fn lemma_function_names(s: Seq<DeclV>)
    ensures
        function_names(s).no_duplicates(),
        forall|name: Seq<char>| function_names(s).contains(name) <==> declares_function(s, name),
    decreases s.len(),
{
    if s.len() > 0 {
        let t = s.drop_last();
        lemma_function_names(t);
        assert forall|name: Seq<char>| declares_function(t, name) implies declares_function(s, name) by {
            if declares_function(t, name) {
                let i = choose|i: int| 0 <= i < t.len() && is_function_named(t[i], name);
                assert(s[i] == t[i]);
            }
        }
        assert forall|name: Seq<char>| declares_function(s, name) implies function_names(s).contains(name) by {
            if declares_function(s, name) {
                let i = choose|i: int| 0 <= i < s.len() && is_function_named(s[i], name);
                let r = function_names(t);
                if i < t.len() {
                    assert(t[i] == s[i]);
                    assert(is_function_named(t[i], name));
                    assert(declares_function(t, name));
                    assert(r.contains(name));
                    let j = choose|j: int| 0 <= j < r.len() && r[j] == name;
                    match s.last() {
                        DeclV::Function { name: n, .. } => {
                            if !r.contains(n) {
                                assert(r.push(n)[j] == name);
                            }
                        },
                        _ => {},
                    }
                } else {
                    if !r.contains(name) {
                        assert(r.push(name)[r.len() as int] == name);
                    }
                }
            }
        }
        let r = function_names(t);
        match s.last() {
            DeclV::Function { name, .. } => {
                if !r.contains(name) {
                    assert forall|a: Seq<char>| r.push(name).contains(a) implies declares_function(s, a) by {
                        if r.push(name).contains(a) {
                            let j = choose|j: int| 0 <= j < r.push(name).len() && r.push(name)[j] == a;
                            if j < r.len() {
                                assert(r.contains(a));
                            } else {
                                assert(s[s.len() - 1] == s.last());
                            }
                        }
                    }
                }
            },
            _ => {},
        }
    }
}

/// The names that a module's top-level functions define: each name once, in
/// the order of its first declaration. Imports, other items and whatever a
/// function body declares are not collected.
pub fn collect_overrides(module: &Vec<Decl>) -> (r: Vec<String>)
    ensures
        strings_view(r@) == function_names(decls_view(module@)),
        strings_view(r@).no_duplicates(),
        forall|name: Seq<char>|
            strings_view(r@).contains(name) <==> declares_function(decls_view(module@), name),
{
    let mut r: Vec<String> = Vec::new();
    let mut i: usize = 0;
    while i < module.len()
        invariant
            0 <= i <= module.len(),
            strings_view(r@) == function_names(decls_view(module@).subrange(0, i as int)),
        decreases module.len() - i,
    {
        let ghost before = strings_view(r@);
        proof {
            assert(decls_view(module@).subrange(0, i + 1).drop_last() =~= decls_view(
                module@,
            ).subrange(0, i as int));
        }
        match &module[i] {
            Decl::Function { name, .. } => {
                let mut seen = false;
                let mut k: usize = 0;
                while k < r.len()
                    invariant
                        0 <= k <= r.len(),
                        strings_view(r@) == before,
                        seen == (exists|m: int| 0 <= m < k && r@[m]@ == name@),
                    decreases r.len() - k,
                {
                    if r[k].eq(name) {
                        seen = true;
                    }
                    k = k + 1;
                }
                proof {
                    if seen {
                        let m = choose|m: int| 0 <= m < k && r@[m]@ == name@;
                        assert(before[m] == name@);
                    } else {
                        assert forall|m: int| 0 <= m < before.len() implies before[m] != name@ by {
                            assert(before[m] == r@[m]@);
                        }
                    }
                }
                if !seen {
                    r.push(name.clone());
                    proof {
                        assert(strings_view(r@) =~= before.push(name@));
                    }
                }
            },
            _ => {},
        }
        i = i + 1;
    }
    proof {
        assert(decls_view(module@).subrange(0, module@.len() as int) =~= decls_view(module@));
        lemma_function_names(decls_view(module@));
    }
    r
}

} // verus!
