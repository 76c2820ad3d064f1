use vstd::prelude::*;
use crate::collect::{collect_overrides, function_names, strings_view};
use crate::generics::{fix_module_generics, fixed_module};
use crate::model::{Decl, DeclV, decls_view};
use crate::remove::{kept, remove_overrides};
use crate::splice::{
    AssembleError, count_of, finalize, finalized, import_overrides, leading_import_count,
    leading_imports, lemma_leading_imports_kept, sentinel, spliced,
};

verus! {

/// The names that an optional override module defines.
pub open spec fn override_names(overrides: Option<Seq<DeclV>>) -> Seq<Seq<char>> {
    match overrides {
        Some(m) => function_names(m),
        None => Seq::empty(),
    }
}

pub open spec fn module_view(m: Option<Vec<Decl>>) -> Option<Seq<DeclV>> {
    match m {
        Some(v) => Some(decls_view(v@)),
        None => None,
    }
}

/// The base module after removal, the generic fix and the re-export imports,
/// before its sentinel import is replaced.
pub open spec fn composed(
    fork: Seq<char>,
    source: Seq<char>,
    base: Seq<DeclV>,
    names: Seq<Seq<char>>,
) -> Seq<DeclV> {
    spliced(fixed_module(kept(base, names), fork), leading_imports(base), fork, source, names)
}

/// The module derived for `fork` from the base module of `source` and the
/// names that the override module defines, or why there is none.
pub open spec fn assembled(
    fork: Seq<char>,
    source: Seq<char>,
    base: Seq<DeclV>,
    names: Seq<Seq<char>>,
) -> Result<Seq<DeclV>, AssembleError> {
    if leading_imports(base) == 0 {
        Err(AssembleError::NoLeadingImports)
    } else {
        let mid = composed(fork, source, base, names);
        let c = count_of(mid, sentinel());
        if c == 0 {
            Err(AssembleError::MissingSentinel)
        } else if c > 1 {
            Err(AssembleError::DuplicateSentinel)
        } else {
            Ok(finalized(mid, fork))
        }
    }
}

/// Derives the module of `source` for `fork` from its base module and the
/// optional override module: the four passes in their order.
pub fn assemble(
    fork: &str,
    source: &str,
    base: &Vec<Decl>,
    overrides: &Option<Vec<Decl>>,
) -> (r: Result<Vec<Decl>, AssembleError>)
    ensures
        match r {
            Ok(v) => assembled(fork@, source@, decls_view(base@), override_names(
                module_view(*overrides),
            )) == Ok::<Seq<DeclV>, AssembleError>(decls_view(v@)),
            Err(e) => assembled(fork@, source@, decls_view(base@), override_names(
                module_view(*overrides),
            )) == Err::<Seq<DeclV>, AssembleError>(e),
        },
{
    let names: Vec<String> = match overrides {
        Some(m) => collect_overrides(m),
        None => Vec::new(),
    };
    proof {
        assert(strings_view(names@) =~= override_names(module_view(*overrides)));
    }
    let at = leading_import_count(base);
    if at == 0 {
        return Err(AssembleError::NoLeadingImports);
    }
    let removed = remove_overrides(base, &names);
    proof {
        lemma_leading_imports_kept(decls_view(base@), strings_view(names@));
    }
    let fixed = fix_module_generics(&removed, fork);
    let spliced_decls = import_overrides(fixed, at, &names, fork, source);
    finalize(spliced_decls, fork)
}

/// The provenance banner that heads every derived module.
pub open spec fn banner() -> Seq<char> {
    "// WARNING: This file was derived by the `gen-spec` utility. DO NOT EDIT MANUALLY.\n\n"@
}

/// The text of a derived module: the banner, then the rendered module.
pub fn with_banner(body: &str) -> (r: String)
    ensures
        r@ == banner() + body@,
{
    let mut out = String::from_str(
        "// WARNING: This file was derived by the `gen-spec` utility. DO NOT EDIT MANUALLY.\n\n",
    );
    out.append(body);
    out
}

} // verus!
