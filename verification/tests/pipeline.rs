use cderive::ast::{check_wf, Ast, Decl, DeclKind, Ty};
use cderive::cc::{
    cc_base, cc_ptr_target, container_target, fields, is_isupports, refcnt_field, refptr_target,
    should_traverse_unlink, CycleCollect,
};
use cderive::deriver::{Deriver, RunError, RunOutput};

fn decl(
    kind: DeclKind,
    name: Option<&str>,
    template_name: Option<&str>,
    ty: Option<Ty>,
    definition: Option<usize>,
    children: Vec<usize>,
) -> Decl {
    Decl {
        kind,
        name: name.map(|s| s.to_string()),
        template_name: template_name.map(|s| s.to_string()),
        ty,
        definition,
        children,
    }
}

fn leaf_ty(name: &str) -> Ty {
    Ty { name: name.to_string(), decl: None, template_args: None }
}

fn decl_ty(name: &str, d: usize) -> Ty {
    Ty { name: name.to_string(), decl: Some(d), template_args: None }
}

fn tmpl_ty(name: &str, d: usize, arg: Ty) -> Ty {
    Ty { name: name.to_string(), decl: Some(d), template_args: Some(vec![Some(arg)]) }
}

fn class(name: &str, me: usize, children: Vec<usize>) -> Decl {
    decl(DeclKind::Class, Some(name), None, None, Some(me), children)
}

fn field(name: &str, ty: Ty) -> Decl {
    decl(DeclKind::Field, Some(name), None, Some(ty), None, vec![])
}

fn base(ty: Ty) -> Decl {
    decl(DeclKind::BaseSpecifier, None, None, Some(ty), None, vec![])
}

fn alias_marker(target: Ty, children: Vec<usize>) -> Decl {
    decl(DeclKind::TypeAlias, Some("marker"), None, Some(target), None, children)
}

fn annotation(text: &str) -> Decl {
    decl(DeclKind::Annotation, Some(text), None, None, None, vec![])
}

fn template_decl(template: &str) -> Decl {
    decl(DeclKind::Other, None, Some(template), None, None, vec![])
}

fn root(children: Vec<usize>) -> Decl {
    decl(DeclKind::Other, None, None, None, None, children)
}

fn run_cc(ast: &Ast, filename: &str) -> Result<RunOutput, RunError> {
    assert!(check_wf(ast));
    let mut deriver: Deriver<CycleCollect> = Deriver::new();
    deriver.register("CycleCollection".to_string(), CycleCollect);
    deriver.run(ast, filename)
}

/// Class A holds the reserved refcount field; class B holds `RefPtr<A> mA`
/// and is annotated.
fn refptr_scenario() -> Ast {
    Ast {
        decls: vec![
            root(vec![1, 3]),
            class("A", 1, vec![2]),
            field("mRefCnt", leaf_ty("nsCycleCollectingAutoRefCnt")),
            class("B", 3, vec![4, 5]),
            field("mA", tmpl_ty("RefPtr<A>", 7, decl_ty("A", 1))),
            alias_marker(decl_ty("B", 3), vec![6]),
            annotation("DERIVE=CycleCollection"),
            template_decl("RefPtr"),
        ],
        root: 0,
    }
}

#[test]
fn end_to_end_refptr_field() {
    let ast = refptr_scenario();
    let out = run_cc(&ast, "test.cpp").unwrap();
    let expected = [
        "#include \"test.cpp\"\n",
        "\n",
        "NS_IMPL_CYCLE_COLLECTION_UNLINK_BEGIN(B)\n",
        "  NS_IMPL_CYCLE_COLLECTION_UNLINK(mA)\n",
        "NS_IMPL_CYCLE_COLLECTION_UNLINK_END\n",
        "\n",
        "NS_IMPL_CYCLE_COLLECTION_TRAVERSE_BEGIN(B)\n",
        "  NS_IMPL_CYCLE_COLLECTION_TRAVERSE(mA)\n",
        "NS_IMPL_CYCLE_COLLECTION_TRAVERSE_END\n",
    ]
    .concat();
    assert_eq!(out.text, expected);
    assert!(out.unknown.is_empty());
}

#[test]
fn end_to_end_non_collectable() {
    // Class C holds `RefPtr<int> mI`: int has no reachable definition, so the
    // blocks carry no field line.
    let ast = Ast {
        decls: vec![
            root(vec![1]),
            class("C", 1, vec![2, 3]),
            field("mI", tmpl_ty("RefPtr<int>", 5, leaf_ty("int"))),
            alias_marker(decl_ty("C", 1), vec![4]),
            annotation("DERIVE=CycleCollection"),
            template_decl("RefPtr"),
        ],
        root: 0,
    };
    let out = run_cc(&ast, "c.cpp").unwrap();
    let expected = [
        "#include \"c.cpp\"\n",
        "\n",
        "NS_IMPL_CYCLE_COLLECTION_UNLINK_BEGIN(C)\n",
        "NS_IMPL_CYCLE_COLLECTION_UNLINK_END\n",
        "\n",
        "NS_IMPL_CYCLE_COLLECTION_TRAVERSE_BEGIN(C)\n",
        "NS_IMPL_CYCLE_COLLECTION_TRAVERSE_END\n",
    ]
    .concat();
    assert_eq!(out.text, expected);
}

#[test]
fn idempotent_runs() {
    let ast = refptr_scenario();
    let first = run_cc(&ast, "test.cpp").unwrap();
    let second = run_cc(&ast, "test.cpp").unwrap();
    assert_eq!(first.text, second.text);
    assert_eq!(first.unknown, second.unknown);
}

#[test]
fn field_order_preserved() {
    // Eligible fields mA and mB around an ineligible mX: the emitted lines
    // keep declaration order, and unlink and traverse use the same order.
    let ast = Ast {
        decls: vec![
            root(vec![1, 3]),
            class("A", 1, vec![2]),
            field("mRefCnt", leaf_ty("nsCycleCollectingAutoRefCnt")),
            class("D", 3, vec![4, 5, 6, 7]),
            field("mA", tmpl_ty("RefPtr<A>", 9, decl_ty("A", 1))),
            field("mX", leaf_ty("int")),
            field("mB", tmpl_ty("RefPtr<A>", 9, decl_ty("A", 1))),
            alias_marker(decl_ty("D", 3), vec![8]),
            annotation("DERIVE=CycleCollection"),
            template_decl("RefPtr"),
        ],
        root: 0,
    };
    let out = run_cc(&ast, "d.cpp").unwrap();
    let expected = [
        "#include \"d.cpp\"\n",
        "\n",
        "NS_IMPL_CYCLE_COLLECTION_UNLINK_BEGIN(D)\n",
        "  NS_IMPL_CYCLE_COLLECTION_UNLINK(mA)\n",
        "  NS_IMPL_CYCLE_COLLECTION_UNLINK(mB)\n",
        "NS_IMPL_CYCLE_COLLECTION_UNLINK_END\n",
        "\n",
        "NS_IMPL_CYCLE_COLLECTION_TRAVERSE_BEGIN(D)\n",
        "  NS_IMPL_CYCLE_COLLECTION_TRAVERSE(mA)\n",
        "  NS_IMPL_CYCLE_COLLECTION_TRAVERSE(mB)\n",
        "NS_IMPL_CYCLE_COLLECTION_TRAVERSE_END\n",
    ]
    .concat();
    assert_eq!(out.text, expected);
}

#[test]
fn refcnt_search_prefers_parent() {
    // Grandparent and Parent both declare mRefCnt: searching from Child
    // returns Parent's field, never Grandparent's.
    let ast = Ast {
        decls: vec![
            root(vec![1, 3, 6]),
            class("Grandparent", 1, vec![2]),
            field("mRefCnt", leaf_ty("nsCycleCollectingAutoRefCnt")),
            class("Parent", 3, vec![4, 5]),
            base(decl_ty("Grandparent", 1)),
            field("mRefCnt", leaf_ty("nsCycleCollectingAutoRefCnt")),
            class("Child", 6, vec![7]),
            base(decl_ty("Parent", 3)),
        ],
        root: 0,
    };
    assert!(check_wf(&ast));
    assert_eq!(refcnt_field(&ast, 6), Some(5));
}

#[test]
fn refcnt_search_falls_back_to_grandparent() {
    // Only Grandparent declares mRefCnt: searching from Child returns its
    // field.
    let ast = Ast {
        decls: vec![
            root(vec![1, 3, 5]),
            class("Grandparent", 1, vec![2]),
            field("mRefCnt", leaf_ty("nsCycleCollectingAutoRefCnt")),
            class("Parent", 3, vec![4]),
            base(decl_ty("Grandparent", 1)),
            class("Child", 5, vec![6]),
            base(decl_ty("Parent", 3)),
        ],
        root: 0,
    };
    assert!(check_wf(&ast));
    assert_eq!(refcnt_field(&ast, 5), Some(2));
}

#[test]
fn inherited_emission_shape() {
    // Base declares a nested class named cycleCollection, so Derived emits
    // the inherited begin and end forms naming Base.
    let ast = Ast {
        decls: vec![
            root(vec![1, 3]),
            class("Base", 1, vec![2]),
            class("cycleCollection", 2, vec![]),
            class("Derived", 3, vec![4, 5]),
            base(decl_ty("Base", 1)),
            alias_marker(decl_ty("Derived", 3), vec![6]),
            annotation("DERIVE=CycleCollection"),
        ],
        root: 0,
    };
    let out = run_cc(&ast, "i.cpp").unwrap();
    let expected = [
        "#include \"i.cpp\"\n",
        "\n",
        "NS_IMPL_CYCLE_COLLECTION_UNLINK_BEGIN(Derived)\n",
        "NS_IMPL_CYCLE_COLLECTION_UNLINK_END_INHERITED(Base)\n",
        "\n",
        "NS_IMPL_CYCLE_COLLECTION_TRAVERSE_BEGIN_INHERITED(Derived, Base)\n",
        "NS_IMPL_CYCLE_COLLECTION_TRAVERSE_END\n",
    ]
    .concat();
    assert_eq!(out.text, expected);
}

#[test]
fn unregistered_generator_tolerated() {
    // One annotation bound to the registered generator, one to an unknown
    // name: the run succeeds with the first generator's text and a
    // diagnostic for the second.
    let ast = Ast {
        decls: vec![
            root(vec![1, 3, 6]),
            class("A", 1, vec![2]),
            field("mRefCnt", leaf_ty("nsCycleCollectingAutoRefCnt")),
            class("B", 3, vec![4]),
            alias_marker(decl_ty("B", 3), vec![5]),
            annotation("DERIVE=CycleCollection"),
            class("E", 6, vec![7]),
            alias_marker(decl_ty("E", 6), vec![8]),
            annotation("DERIVE=ListFields"),
        ],
        root: 0,
    };
    let out = run_cc(&ast, "u.cpp").unwrap();
    let expected = [
        "#include \"u.cpp\"\n",
        "\n",
        "NS_IMPL_CYCLE_COLLECTION_UNLINK_BEGIN(B)\n",
        "NS_IMPL_CYCLE_COLLECTION_UNLINK_END\n",
        "\n",
        "NS_IMPL_CYCLE_COLLECTION_TRAVERSE_BEGIN(B)\n",
        "NS_IMPL_CYCLE_COLLECTION_TRAVERSE_END\n",
    ]
    .concat();
    assert_eq!(out.text, expected);
    assert_eq!(out.unknown, vec!["ListFields".to_string()]);
}

#[test]
fn unresolved_target_aborts() {
    // The annotation's parent has no underlying type: the run stops,
    // identifying the offending annotation and its parent.
    let ast = Ast {
        decls: vec![
            root(vec![1]),
            class("B", 1, vec![2]),
            decl(DeclKind::TypeAlias, Some("marker"), None, None, None, vec![3]),
            annotation("DERIVE=CycleCollection"),
        ],
        root: 0,
    };
    assert!(check_wf(&ast));
    let mut deriver: Deriver<CycleCollect> = Deriver::new();
    deriver.register("CycleCollection".to_string(), CycleCollect);
    match deriver.run(&ast, "r.cpp") {
        Err(RunError::UnresolvedTarget { annotation, parent }) => {
            assert_eq!(annotation, 3);
            assert_eq!(parent, 2);
        }
        other => panic!("expected an unresolved-target failure, got {:?}", other.err()),
    }
}

#[test]
fn generator_failure_aborts() {
    // The annotated class has no readable display name: the generator fails
    // and the run stops, naming the generator and the target.
    let ast = Ast {
        decls: vec![
            root(vec![1]),
            decl(DeclKind::Class, None, None, None, Some(1), vec![2]),
            alias_marker(decl_ty("anon", 1), vec![3]),
            annotation("DERIVE=CycleCollection"),
        ],
        root: 0,
    };
    assert!(check_wf(&ast));
    let mut deriver: Deriver<CycleCollect> = Deriver::new();
    deriver.register("CycleCollection".to_string(), CycleCollect);
    match deriver.run(&ast, "g.cpp") {
        Err(RunError::GeneratorFailed { name, target }) => {
            assert_eq!(name, "CycleCollection");
            assert_eq!(target, 1);
        }
        other => panic!("expected a generator failure, got {:?}", other.err()),
    }
}

/// An arena with class A collectable, plus template declarations for the
/// smart pointer and the container.
fn container_arena() -> Ast {
    Ast {
        decls: vec![
            root(vec![1]),
            class("A", 1, vec![2]),
            field("mRefCnt", leaf_ty("nsCycleCollectingAutoRefCnt")),
            template_decl("RefPtr"),
            template_decl("nsTArray"),
        ],
        root: 0,
    }
}

#[test]
fn container_of_eligible_target_is_eligible() {
    let ast = container_arena();
    assert!(check_wf(&ast));
    let inner = tmpl_ty("RefPtr<A>", 3, decl_ty("A", 1));
    let list = tmpl_ty("nsTArray<RefPtr<A>>", 4, inner);
    assert!(should_traverse_unlink(&ast, &list));
}

#[test]
fn nested_container_is_eligible() {
    let ast = container_arena();
    let inner = tmpl_ty("RefPtr<A>", 3, decl_ty("A", 1));
    let list = tmpl_ty("nsTArray<RefPtr<A>>", 4, inner);
    let nested = tmpl_ty("nsTArray<nsTArray<RefPtr<A>>>", 4, list);
    assert!(should_traverse_unlink(&ast, &nested));
}

#[test]
fn container_of_plain_leaf_is_not_eligible() {
    let ast = container_arena();
    let ints = tmpl_ty("nsTArray<int>", 4, leaf_ty("int"));
    assert!(!should_traverse_unlink(&ast, &ints));
}

#[test]
fn nscomptr_is_recognized() {
    let ast = Ast {
        decls: vec![
            root(vec![1]),
            class("A", 1, vec![2]),
            field("mRefCnt", leaf_ty("nsCycleCollectingAutoRefCnt")),
            template_decl("nsCOMPtr"),
        ],
        root: 0,
    };
    assert!(check_wf(&ast));
    let t = tmpl_ty("nsCOMPtr<A>", 3, decl_ty("A", 1));
    assert!(should_traverse_unlink(&ast, &t));
}

#[test]
fn unknown_template_is_not_eligible() {
    let ast = Ast {
        decls: vec![
            root(vec![1]),
            class("A", 1, vec![2]),
            field("mRefCnt", leaf_ty("nsCycleCollectingAutoRefCnt")),
            template_decl("UniquePtr"),
        ],
        root: 0,
    };
    assert!(check_wf(&ast));
    let t = tmpl_ty("UniquePtr<A>", 3, decl_ty("A", 1));
    assert!(!should_traverse_unlink(&ast, &t));
}

#[test]
fn isupports_without_refcnt_field_is_collectable() {
    // An abstract refcounting base: derives from the well-known base and no
    // refcount field of any name is found, so it is conservatively assumed
    // collectable.
    let ast = Ast {
        decls: vec![
            root(vec![1, 2]),
            class("nsISupports", 1, vec![]),
            class("F", 2, vec![3]),
            base(decl_ty("nsISupports", 1)),
        ],
        root: 0,
    };
    assert!(check_wf(&ast));
    assert!(cc_ptr_target(&ast, &decl_ty("F", 2)));
}

#[test]
fn isupports_with_wrong_refcnt_type_is_not_collectable() {
    // A refcount field is found but its type is not the cycle-collecting
    // one: the target is not cycle collected.
    let ast = Ast {
        decls: vec![
            root(vec![1, 2]),
            class("nsISupports", 1, vec![]),
            class("G", 2, vec![3, 4]),
            base(decl_ty("nsISupports", 1)),
            field("mRefCnt", leaf_ty("uint32_t")),
        ],
        root: 0,
    };
    assert!(check_wf(&ast));
    assert!(!cc_ptr_target(&ast, &decl_ty("G", 2)));
}

#[test]
fn undefined_target_is_not_collectable() {
    let ast = container_arena();
    assert!(!cc_ptr_target(&ast, &leaf_ty("int")));
}

#[test]
fn other_annotation_text_is_ignored() {
    // Neither a different marker nor the bare marker without `=` is a
    // discovery hit.
    let ast = Ast {
        decls: vec![
            root(vec![1]),
            class("B", 1, vec![2, 4]),
            alias_marker(decl_ty("B", 1), vec![3]),
            annotation("NOTDERIVE=CycleCollection"),
            annotation("DERIVE"),
        ],
        root: 0,
    };
    let out = run_cc(&ast, "n.cpp").unwrap();
    assert_eq!(out.text, "#include \"n.cpp\"\n\n");
    assert!(out.unknown.is_empty());
}

#[test]
fn empty_generator_name_is_discovered() {
    // `DERIVE=` carries an empty generator name, which is simply not
    // registered.
    let ast = Ast {
        decls: vec![
            root(vec![1]),
            class("B", 1, vec![2]),
            alias_marker(decl_ty("B", 1), vec![3]),
            annotation("DERIVE="),
        ],
        root: 0,
    };
    let out = run_cc(&ast, "e.cpp").unwrap();
    assert_eq!(out.text, "#include \"e.cpp\"\n\n");
    assert_eq!(out.unknown, vec![String::new()]);
}

#[test]
fn fields_are_collected_in_declaration_order() {
    let ast = Ast {
        decls: vec![
            root(vec![1]),
            class("D", 1, vec![2, 3, 4, 5]),
            field("mA", leaf_ty("int")),
            class("cycleCollection", 3, vec![]),
            field("mB", leaf_ty("int")),
            annotation("other"),
        ],
        root: 0,
    };
    assert!(check_wf(&ast));
    assert_eq!(fields(&ast, 1), vec![2, 4]);
}

#[test]
fn cc_base_found_and_isupports_detected() {
    let ast = Ast {
        decls: vec![
            root(vec![1, 3]),
            class("Base", 1, vec![2]),
            class("cycleCollection", 2, vec![]),
            class("Derived", 3, vec![4]),
            base(decl_ty("Base", 1)),
            class("nsISupports", 5, vec![]),
        ],
        root: 0,
    };
    assert!(check_wf(&ast));
    assert_eq!(cc_base(&ast, 3), Some(1));
    // The nested class is on Base itself, not on an ancestor of Base.
    assert_eq!(cc_base(&ast, 1), None);
    assert!(!is_isupports(&ast, 3));
    assert!(is_isupports(&ast, 5));
}

#[test]
fn template_targets_are_extracted() {
    let ast = container_arena();
    let inner = tmpl_ty("RefPtr<A>", 3, decl_ty("A", 1));
    let list = tmpl_ty("nsTArray<RefPtr<A>>", 4, tmpl_ty("RefPtr<A>", 3, decl_ty("A", 1)));
    assert_eq!(refptr_target(&ast, &inner).map(|t| t.name.as_str()), Some("A"));
    assert_eq!(container_target(&ast, &list).map(|t| t.name.as_str()), Some("RefPtr<A>"));
    assert!(refptr_target(&ast, &list).is_none());
    assert!(container_target(&ast, &inner).is_none());
}

#[test]
fn multiple_classes_concatenated_in_discovery_order() {
    let ast = Ast {
        decls: vec![
            root(vec![1, 3, 6]),
            class("A", 1, vec![2]),
            field("mRefCnt", leaf_ty("nsCycleCollectingAutoRefCnt")),
            class("B", 3, vec![4]),
            alias_marker(decl_ty("B", 3), vec![5]),
            annotation("DERIVE=CycleCollection"),
            class("C", 6, vec![7]),
            alias_marker(decl_ty("C", 6), vec![8]),
            annotation("DERIVE=CycleCollection"),
        ],
        root: 0,
    };
    let out = run_cc(&ast, "m.cpp").unwrap();
    let expected = [
        "#include \"m.cpp\"\n",
        "\n",
        "NS_IMPL_CYCLE_COLLECTION_UNLINK_BEGIN(B)\n",
        "NS_IMPL_CYCLE_COLLECTION_UNLINK_END\n",
        "\n",
        "NS_IMPL_CYCLE_COLLECTION_TRAVERSE_BEGIN(B)\n",
        "NS_IMPL_CYCLE_COLLECTION_TRAVERSE_END\n",
        "NS_IMPL_CYCLE_COLLECTION_UNLINK_BEGIN(C)\n",
        "NS_IMPL_CYCLE_COLLECTION_UNLINK_END\n",
        "\n",
        "NS_IMPL_CYCLE_COLLECTION_TRAVERSE_BEGIN(C)\n",
        "NS_IMPL_CYCLE_COLLECTION_TRAVERSE_END\n",
    ]
    .concat();
    assert_eq!(out.text, expected);
}

#[test]
fn discovery_reaches_nested_scopes() {
    // The annotated class sits inside two nested scopes; discovery still
    // finds it.
    let ast = Ast {
        decls: vec![
            root(vec![1]),
            decl(DeclKind::Other, Some("outer"), None, None, None, vec![2]),
            decl(DeclKind::Other, Some("inner"), None, None, None, vec![3]),
            class("B", 3, vec![4]),
            alias_marker(decl_ty("B", 3), vec![5]),
            annotation("DERIVE=CycleCollection"),
        ],
        root: 0,
    };
    let out = run_cc(&ast, "s.cpp").unwrap();
    let expected = [
        "#include \"s.cpp\"\n",
        "\n",
        "NS_IMPL_CYCLE_COLLECTION_UNLINK_BEGIN(B)\n",
        "NS_IMPL_CYCLE_COLLECTION_UNLINK_END\n",
        "\n",
        "NS_IMPL_CYCLE_COLLECTION_TRAVERSE_BEGIN(B)\n",
        "NS_IMPL_CYCLE_COLLECTION_TRAVERSE_END\n",
    ]
    .concat();
    assert_eq!(out.text, expected);
}
