use gen_spec::{
    assemble, collect_overrides, contains_text, finalize, fix_generics, fix_module_generics,
    import_overrides, leading_import_count, make_override_import, patch_module_name,
    remove_overrides, starts_with_text, widens_generics, with_banner, AssembleError, Decl, Delim,
    Token,
};

fn toks(text: &str) -> Vec<Token> {
    let mut out = Vec::new();
    for word in text.split_whitespace() {
        match word {
            "::" => {
                out.push(Token::Punct(':', true));
                out.push(Token::Punct(':', false));
            }
            "->" => {
                out.push(Token::Punct('-', true));
                out.push(Token::Punct('>', false));
            }
            "(" => out.push(Token::Open(Delim::Paren)),
            ")" => out.push(Token::Close(Delim::Paren)),
            "[" => out.push(Token::Open(Delim::Bracket)),
            "]" => out.push(Token::Close(Delim::Bracket)),
            "{" => out.push(Token::Open(Delim::Brace)),
            "}" => out.push(Token::Close(Delim::Brace)),
            _ => {
                let c = word.chars().next().unwrap();
                if c.is_ascii_digit() || c == '"' {
                    out.push(Token::Literal(word.to_string()));
                } else if c.is_alphabetic() || c == '_' {
                    out.push(Token::Ident(word.to_string()));
                } else {
                    assert_eq!(word.chars().count(), 1);
                    out.push(Token::Punct(c, false));
                }
            }
        }
    }
    out
}

fn import(text: &str) -> Decl {
    Decl::Import { tokens: toks(text) }
}

fn opaque(text: &str) -> Decl {
    Decl::Opaque { tokens: toks(text) }
}

fn function(name: &str, rest: &str) -> Decl {
    Decl::Function {
        name: name.to_string(),
        tokens: toks(&format!("pub fn {name} {rest}")),
    }
}

const SENTINEL: &str = "use crate :: phase0 as spec ;";

fn names(v: &[&str]) -> Vec<String> {
    v.iter().map(|s| s.to_string()).collect()
}

fn count(decls: &[Decl], d: &Decl) -> usize {
    decls.iter().filter(|x| *x == d).count()
}

#[test]
fn scenario_expired_and_overridden_functions() {
    let base = vec![
        import(SENTINEL),
        import("use crate :: primitives :: Gwei ;"),
        function("get_matching_source_attestations", "( ) { }"),
        function("get_total_balance", "( ) -> Gwei { 0 }"),
        opaque("pub const X : u64 = 1 ;"),
    ];
    let overrides = vec![
        import("use crate :: primitives :: Gwei ;"),
        function("get_total_balance", "( ) -> Gwei { 1 }"),
    ];
    let out = assemble("altair", "epoch_processing", &base, &Some(overrides)).unwrap();
    let expected = vec![
        import("use crate :: altair as spec ;"),
        import("use crate :: primitives :: Gwei ;"),
        import(
            "pub use crate :: altair :: epoch_processing_altair :: get_total_balance as get_total_balance ;",
        ),
        opaque("pub const X : u64 = 1 ;"),
    ];
    assert_eq!(out, expected);
}

#[test]
fn scenario_generic_fix_on_generics_fork() {
    let base = vec![
        import(SENTINEL),
        opaque("pub type Block = BeaconBlock < A , B , C > ;"),
        function(
            "process",
            "< const PENDING_ATTESTATIONS_BOUND : usize > ( b : List < u8 , PENDING_ATTESTATIONS_BOUND > ) { }",
        ),
    ];
    let out = assemble("altair", "helpers", &base, &None).unwrap();
    assert_eq!(out[0], import("use crate :: altair as spec ;"));
    assert_eq!(
        out[1],
        opaque("pub type Block = BeaconBlock < A , B , C , SYNC_COMMITTEE_SIZE > ;")
    );
    assert_eq!(
        out[2],
        function(
            "process",
            "< const SYNC_COMMITTEE_SIZE : usize > ( b : List < u8 , SYNC_COMMITTEE_SIZE > ) { }"
        )
    );
    assert_eq!(out.len(), 3);
}

#[test]
fn other_fork_gets_no_generic_fix() {
    let body = vec![
        opaque("pub type Block = BeaconBlock < A , B , C > ;"),
        opaque("pub const N : usize = PENDING_ATTESTATIONS_BOUND ;"),
    ];
    assert_eq!(fix_module_generics(&body, "bellatrix"), body);
    let mut base = vec![import(SENTINEL)];
    base.extend(body.clone());
    let out = assemble("bellatrix", "helpers", &base, &None).unwrap();
    assert_eq!(out[1..].to_vec(), body);
    assert!(widens_generics("altair"));
    assert!(!widens_generics("bellatrix"));
}

#[test]
fn scenario_no_override_module() {
    let base = vec![
        import(SENTINEL),
        import("use std :: fmt ;"),
        function("get_total_balance", "( ) { }"),
        opaque("pub struct S ;"),
    ];
    let out = assemble("bellatrix", "helpers", &base, &None).unwrap();
    let mut expected = base.clone();
    expected[0] = import("use crate :: bellatrix as spec ;");
    assert_eq!(out, expected);
}

#[test]
fn scenario_two_sentinels_abort() {
    let base = vec![import(SENTINEL), opaque("pub struct S ;"), import(SENTINEL)];
    assert_eq!(
        assemble("altair", "helpers", &base, &None),
        Err(AssembleError::DuplicateSentinel)
    );
}

#[test]
fn missing_sentinel_aborts() {
    let base = vec![import("use std :: fmt ;"), opaque("pub struct S ;")];
    assert_eq!(
        assemble("altair", "helpers", &base, &None),
        Err(AssembleError::MissingSentinel)
    );
}

#[test]
fn no_leading_import_aborts() {
    let base = vec![opaque("pub struct S ;"), import(SENTINEL)];
    assert_eq!(
        assemble("altair", "helpers", &base, &None),
        Err(AssembleError::NoLeadingImports)
    );
    assert_eq!(
        assemble("altair", "helpers", &Vec::new(), &None),
        Err(AssembleError::NoLeadingImports)
    );
}

#[test]
fn assembly_is_deterministic() {
    let base = vec![
        import(SENTINEL),
        function("a", "( ) { }"),
        function("b", "( ) { }"),
        opaque("pub type T = BeaconBlock < X > ;"),
    ];
    let overrides = vec![function("b", "( ) { }"), function("a", "( ) { }")];
    let first = assemble("altair", "genesis", &base, &Some(overrides.clone()));
    let second = assemble("altair", "genesis", &base, &Some(overrides));
    assert_eq!(first, second);
}

#[test]
fn removal_drops_overridden_and_expired_functions() {
    let base = vec![
        import(SENTINEL),
        function("get_matching_target_attestations", "( ) { }"),
        function("keep_me", "( ) { }"),
        function("replace_me", "( ) { }"),
        opaque("pub const get_matching_value : u64 = 1 ;"),
    ];
    let out = remove_overrides(&base, &names(&["replace_me"]));
    assert_eq!(
        out,
        vec![
            import(SENTINEL),
            function("keep_me", "( ) { }"),
            opaque("pub const get_matching_value : u64 = 1 ;"),
        ]
    );
}

#[test]
fn each_override_reexported_once() {
    let base = vec![
        import(SENTINEL),
        import("use crate :: primitives :: Slot ;"),
        function("first", "( ) { }"),
        function("second", "( ) { }"),
        opaque("pub struct S ;"),
    ];
    let overrides = vec![
        function("second", "( ) { }"),
        opaque("pub struct Helper ;"),
        function("first", "( ) { }"),
        function("second", "( ) { }"),
    ];
    let out = assemble("bellatrix", "block_processing", &base, &Some(overrides)).unwrap();
    for name in ["first", "second"] {
        let reexport = make_override_import("bellatrix", "block_processing", name);
        assert_eq!(count(&out, &reexport), 1);
    }
    assert_eq!(
        out[2],
        import("pub use crate :: bellatrix :: block_processing_bellatrix :: second as second ;")
    );
    assert_eq!(
        out[3],
        import("pub use crate :: bellatrix :: block_processing_bellatrix :: first as first ;")
    );
    assert_eq!(out[4], opaque("pub struct S ;"));
    assert_eq!(out.len(), 5);
}

#[test]
fn sentinel_is_replaced() {
    let base = vec![import("use std :: fmt ;"), import(SENTINEL), opaque("pub struct S ;")];
    let out = assemble("altair", "slot_processing", &base, &None).unwrap();
    assert_eq!(count(&out, &import(SENTINEL)), 0);
    assert_eq!(count(&out, &import("use crate :: altair as spec ;")), 1);
    assert_eq!(out[1], import("use crate :: altair as spec ;"));
}

#[test]
fn finalize_counts_sentinels() {
    assert_eq!(finalize(vec![], "altair"), Err(AssembleError::MissingSentinel));
    let out = finalize(vec![opaque("x ;"), import(SENTINEL)], "bellatrix").unwrap();
    assert_eq!(out, vec![opaque("x ;"), import("use crate :: bellatrix as spec ;")]);
}

#[test]
fn collector_takes_top_level_functions_once() {
    let module = vec![
        import("use crate :: x :: y ;"),
        function("b", "( ) { fn inner ( ) { } }"),
        opaque("pub const a : u64 = 1 ;"),
        function("a", "( ) { }"),
        function("b", "( ) { }"),
    ];
    assert_eq!(collect_overrides(&module), names(&["b", "a"]));
    assert!(collect_overrides(&vec![opaque("x ;")]).is_empty());
}

#[test]
fn insertion_point_follows_leading_imports() {
    let base = vec![
        import("use a ;"),
        import("use b ;"),
        function("f", "( ) { }"),
        import("use c ;"),
    ];
    assert_eq!(leading_import_count(&base), 2);
    assert_eq!(leading_import_count(&vec![import("use a ;")]), 1);
    assert_eq!(leading_import_count(&vec![opaque("x ;"), import("use a ;")]), 0);
    let out = import_overrides(base.clone(), 2, &names(&["g"]), "altair", "genesis");
    assert_eq!(out.len(), 5);
    assert_eq!(
        out[2],
        import("pub use crate :: altair :: genesis_altair :: g as g ;")
    );
    assert_eq!(out[3], function("f", "( ) { }"));
}

#[test]
fn insertion_point_taken_from_base_before_removal() {
    let base = vec![
        import(SENTINEL),
        function("get_matching_head_attestations", "( ) { }"),
        import("use b ;"),
        opaque("x ;"),
    ];
    let out = assemble("altair", "helpers", &base, &Some(vec![function("h", "( ) { }")])).unwrap();
    assert_eq!(
        out,
        vec![
            import("use crate :: altair as spec ;"),
            import("pub use crate :: altair :: helpers_altair :: h as h ;"),
            import("use b ;"),
            opaque("x ;"),
        ]
    );
}

#[test]
fn generic_fix_nested_and_turbofish() {
    let input = toks("f :: < BeaconBlock < A , BeaconBlock < B > > > ( BeaconBlock :: < C > )");
    let expected = toks(
        "f :: < BeaconBlock < A , BeaconBlock < B , SYNC_COMMITTEE_SIZE > , SYNC_COMMITTEE_SIZE > > ( BeaconBlock :: < C , SYNC_COMMITTEE_SIZE > )",
    );
    assert_eq!(fix_generics(&input), expected);
}

#[test]
fn generic_fix_leaves_unrelated_lists() {
    let input = toks("SignedBeaconBlock < Vec < u8 > , Box < Fn ( ) -> u8 > , [ u8 ; 4 ] >");
    let expected = toks(
        "SignedBeaconBlock < Vec < u8 > , Box < Fn ( ) -> u8 > , [ u8 ; 4 ] , SYNC_COMMITTEE_SIZE >",
    );
    assert_eq!(fix_generics(&input), expected);
    let plain = toks("Vec < u8 > ; BeaconBlockHeader ;");
    assert_eq!(fix_generics(&plain), plain);
}

#[test]
fn generic_fix_trailing_comma_and_empty_list() {
    assert_eq!(
        fix_generics(&toks("BeaconBlock < A , >")),
        toks("BeaconBlock < A , SYNC_COMMITTEE_SIZE >")
    );
    assert_eq!(
        fix_generics(&toks("BeaconBlock < >")),
        toks("BeaconBlock < SYNC_COMMITTEE_SIZE >")
    );
    assert_eq!(fix_generics(&toks("BeaconBlock < A ;")), toks("BeaconBlock < A ;"));
}

#[test]
fn generic_fix_renames_everywhere() {
    assert_eq!(
        fix_generics(&toks("x = PENDING_ATTESTATIONS_BOUND * 2 ;")),
        toks("x = SYNC_COMMITTEE_SIZE * 2 ;")
    );
    assert_eq!(fix_generics(&Vec::new()), Vec::<Token>::new());
}

#[test]
fn banner_heads_the_output() {
    assert_eq!(
        with_banner("pub struct S;\n"),
        "// WARNING: This file was derived by the `gen-spec` utility. DO NOT EDIT MANUALLY.\n\npub struct S;\n"
    );
}

#[test]
fn patch_module_names() {
    assert_eq!(patch_module_name("helpers", "altair"), "helpers_altair");
    assert_eq!(patch_module_name("genesis", "bellatrix"), "genesis_bellatrix");
}

#[test]
fn text_helpers() {
    assert!(starts_with_text("get_matching_source", "get_matching_"));
    assert!(!starts_with_text("get_match", "get_matching_"));
    assert!(contains_text("SignedBeaconBlock", "BeaconBlock"));
    assert!(!contains_text("BeaconState", "BeaconBlock"));
    assert!(contains_text("", ""));
}
