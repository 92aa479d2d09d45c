//! Laws of the analysis and of the pipeline, stated over the spec functions
//! the executable contracts are written against.

use vstd::prelude::*;

use crate::ast::Ast;
use crate::ast::Ty;
use crate::cc::{
    spec_base_defn, spec_base_match, spec_base_match_bases, spec_cc_basename, spec_derive_text,
    spec_eligible_names, spec_eligible_names_upto, spec_field_line_name, spec_pred,
    spec_refcnt_field_ty_name, spec_should_traverse_unlink, spec_template_target,
    spec_traverse_block, spec_unlink_block, BasePred, TemplateSet,
};
use crate::deriver::{Derive, Deriver};

verus! {

/// A run's observable outcome is a function of the registry, the tree and
/// the filename alone, so running discovery and emission twice on an
/// unchanged tree yields byte-identical output: any two outcomes that meet
/// `Deriver::run`'s contract (`spec_run_ok`) on the same inputs are equal.
pub proof fn lemma_run_deterministic<D: Derive>(
    d: Deriver<D>,
    ast: Ast,
    filename: Seq<char>,
    t1: Seq<char>,
    u1: Seq<Seq<char>>,
    t2: Seq<char>,
    u2: Seq<Seq<char>>,
)
    requires
        d.spec_run_ok(ast, filename, t1, u1),
        d.spec_run_ok(ast, filename, t2, u2),
    ensures
        t1 == t2,
        u1 == u2,
{
}

/// The field predicate the emitted lines are filtered by.
pub open spec fn eligible_pred(ast: Ast) -> spec_fn(usize) -> bool {
    |c: usize| spec_field_line_name(ast, c as int) is Some
}

/// The name a kept field contributes.
pub open spec fn eligible_name(ast: Ast) -> spec_fn(usize) -> Seq<char> {
    |c: usize| spec_field_line_name(ast, c as int)->Some_0
}

proof fn lemma_eligible_upto_is_filter(ast: Ast, cs: Seq<usize>, j: int)
    requires
        0 <= j <= cs.len(),
    ensures
        spec_eligible_names_upto(ast, cs, j) == cs.take(j).filter(eligible_pred(ast)).map_values(
            eligible_name(ast),
        ),
    decreases j,
{
    reveal(Seq::filter);
    if j == 0 {
        assert(cs.take(0) =~= Seq::<usize>::empty());
        assert(cs.take(0).filter(eligible_pred(ast)) =~= Seq::<usize>::empty());
        assert(spec_eligible_names_upto(ast, cs, 0) =~= Seq::<usize>::empty().filter(
            eligible_pred(ast),
        ).map_values(eligible_name(ast)));
    } else {
        lemma_eligible_upto_is_filter(ast, cs, j - 1);
        let c = cs[j - 1];
        assert(cs.take(j).drop_last() =~= cs.take(j - 1));
        assert(cs.take(j).last() == c);
        if eligible_pred(ast)(c) {
            assert(cs.take(j).filter(eligible_pred(ast)) == cs.take(j - 1).filter(
                eligible_pred(ast),
            ).push(c));
            assert(spec_eligible_names_upto(ast, cs, j) =~= cs.take(j).filter(
                eligible_pred(ast),
            ).map_values(eligible_name(ast)));
        } else {
            assert(cs.take(j).filter(eligible_pred(ast)) == cs.take(j - 1).filter(
                eligible_pred(ast),
            ));
            assert(spec_eligible_names_upto(ast, cs, j) =~= cs.take(j).filter(
                eligible_pred(ast),
            ).map_values(eligible_name(ast)));
        }
    }
}

/// Field-order preservation: the emitted field names are the class's
/// children in declaration order, restricted to the eligible fields; and the
/// unlink and the traverse block of one class are built from that same one
/// sequence, so their field lines come in the same order.
pub proof fn lemma_field_order(ast: Ast, i: int, cn: Seq<char>)
    requires
        0 <= i < ast.decls.len(),
        ast.decls[i].name matches Some(n) && n@ == cn,
    ensures
        spec_eligible_names(ast, i) == ast.decls[i].children@.filter(
            eligible_pred(ast),
        ).map_values(eligible_name(ast)),
        spec_derive_text(ast, i) == Some(
            spec_unlink_block(cn, spec_eligible_names(ast, i), spec_cc_basename(ast, i)) + "\n"@
                + spec_traverse_block(cn, spec_eligible_names(ast, i), spec_cc_basename(ast, i)),
        ),
{
    let cs = ast.decls[i].children@;
    lemma_eligible_upto_is_filter(ast, cs, cs.len() as int);
    assert(cs.take(cs.len() as int) =~= cs);
}

/// Smart-pointer eligibility: a field of a recognized smart-pointer template
/// wrapping a type whose definition's nearest refcount field has the
/// reserved cycle-collecting refcount type is traversed and unlinked.
pub proof fn lemma_smart_pointer_eligible(ast: Ast, t: Ty, tt: Ty, d: usize, defn: usize)
    requires
        spec_template_target(ast, t, TemplateSet::SmartPtr) == Some(tt),
        tt.decl == Some(d),
        d < ast.decls.len(),
        ast.decls[d as int].definition == Some(defn),
        defn < ast.decls.len(),
        spec_refcnt_field_ty_name(ast, defn as int) == Some("nsCycleCollectingAutoRefCnt"@),
    ensures
        spec_should_traverse_unlink(ast, t),
{
}

/// Smart-pointer non-eligibility: a recognized smart pointer wrapping a type
/// with no reachable definition is never traversed or unlinked.
pub proof fn lemma_smart_pointer_unresolved_not_eligible(ast: Ast, t: Ty, tt: Ty)
    requires
        spec_template_target(ast, t, TemplateSet::SmartPtr) == Some(tt),
        match tt.decl {
            Some(d) => d < ast.decls.len() && ast.decls[d as int].definition is None,
            None => true,
        },
    ensures
        !spec_should_traverse_unlink(ast, t),
{
}

/// Container recursion: a field of a recognized container template is
/// traversed and unlinked exactly when its element type is, so a container
/// of an eligible target is eligible, a container of such a container is
/// eligible, and a container of a non-collectable leaf is not.
pub proof fn lemma_container_recursion(ast: Ast, t: Ty, e: Ty)
    requires
        spec_template_target(ast, t, TemplateSet::SmartPtr) is None,
        spec_template_target(ast, t, TemplateSet::Container) == Some(e),
    ensures
        spec_should_traverse_unlink(ast, t) == spec_should_traverse_unlink(ast, e),
{
}

/// Self before bases: where the predicate matches the starting declaration
/// itself, the base search returns that match and looks at no base.
pub proof fn lemma_base_match_self_first(ast: Ast, p: BasePred, i: int, r: int, fuel: nat)
    requires
        spec_pred(ast, p, i) == Some(r),
    ensures
        spec_base_match(ast, p, i, fuel) == Some(r),
{
}

/// Base short-circuit: searching from a declaration with a single resolvable
/// base, a non-matching start passes the whole search to that base — so the
/// nearest ancestor declaring the searched-for item wins, and an ancestor
/// above it is never consulted once the nearer one matches.
pub proof fn lemma_base_match_single_base(ast: Ast, p: BasePred, i: int, bs: usize, b: int, fuel: nat)
    requires
        0 <= i < ast.decls.len(),
        spec_pred(ast, p, i) is None,
        fuel > 0,
        ast.decls[i].children@ == seq![bs],
        spec_base_defn(ast, bs as int) == Some(b),
    ensures
        spec_base_match(ast, p, i, fuel) == spec_base_match(ast, p, b, (fuel - 1) as nat),
{
    let cs = ast.decls[i].children@;
    assert(spec_base_match(ast, p, i, fuel) == spec_base_match_bases(ast, p, cs, 0, fuel));
    match spec_base_match(ast, p, b, (fuel - 1) as nat) {
        Some(_) => {},
        None => {
            assert(spec_base_match_bases(ast, p, cs, 1, fuel) is None);
        },
    }
}

proof fn lemma_bases_skip_unresolved(ast: Ast, p: BasePred, cs: Seq<usize>, j: int, fuel: nat)
    requires
        0 <= j <= cs.len(),
        forall|k: int| 0 <= k < j ==> spec_base_defn(ast, (#[trigger] cs[k]) as int) is None,
    ensures
        spec_base_match_bases(ast, p, cs, 0, fuel) == spec_base_match_bases(
            ast,
            p,
            cs,
            j,
            fuel,
        ),
    decreases j,
{
    if j > 0 {
        lemma_bases_skip_unresolved(ast, p, cs, j - 1, fuel);
    }
}

/// Base short-circuit, in general: where the starting declaration does not
/// match, its base specifiers before position `j` resolve to nothing, and
/// the base at `j` resolves to a definition whose own search matches, the
/// whole search returns that match — the bases after `j` and the ancestors
/// beyond the match are never consulted.
pub proof fn lemma_base_match_first_base(
    ast: Ast,
    p: BasePred,
    i: int,
    j: int,
    b: int,
    fuel: nat,
)
    requires
        0 <= i < ast.decls.len(),
        spec_pred(ast, p, i) is None,
        fuel > 0,
        0 <= j < ast.decls[i].children@.len(),
        forall|k: int|
            0 <= k < j ==> spec_base_defn(ast, (#[trigger] ast.decls[i].children@[k]) as int)
                is None,
        spec_base_defn(ast, ast.decls[i].children@[j] as int) == Some(b),
        spec_base_match(ast, p, b, (fuel - 1) as nat) is Some,
    ensures
        spec_base_match(ast, p, i, fuel) == spec_base_match(ast, p, b, (fuel - 1) as nat),
{
    let cs = ast.decls[i].children@;
    lemma_bases_skip_unresolved(ast, p, cs, j, fuel);
}

/// Inherited emission shape: a class whose nearest cycle-collection base is
/// named emits the inherited begin and end forms naming that base; a class
/// with no such base emits the plain forms.
pub proof fn lemma_inherited_emission_shape(ast: Ast, i: int, cn: Seq<char>)
    requires
        0 <= i < ast.decls.len(),
        ast.decls[i].name matches Some(n) && n@ == cn,
    ensures
        spec_cc_basename(ast, i) matches Some(bn) ==> spec_derive_text(ast, i) == Some(
            spec_unlink_block(cn, spec_eligible_names(ast, i), Some(bn)) + "\n"@
                + spec_traverse_block(cn, spec_eligible_names(ast, i), Some(bn)),
        ),
        spec_cc_basename(ast, i) is None ==> spec_derive_text(ast, i) == Some(
            spec_unlink_block(cn, spec_eligible_names(ast, i), None) + "\n"@ + spec_traverse_block(
                cn,
                spec_eligible_names(ast, i),
                None,
            ),
        ),
{
}

/// Unregistered-generator tolerance: where every discovered name that is
/// registered has a generator that succeeds on its target, the dispatch
/// succeeds — an unregistered name never makes the run fail, it only adds a
/// diagnostic.
pub proof fn lemma_unregistered_nonfatal<D: Derive>(
    d: Deriver<D>,
    ast: Ast,
    pairs: Seq<(int, Seq<char>)>,
    j: int,
)
    requires
        0 <= j <= pairs.len(),
        forall|k: int| j <= k < pairs.len() ==> match d.spec_lookup((#[trigger] pairs[k]).1, 0) {
            Some(g) => d.entries()[g].1.derive_spec(ast, pairs[k].0) is Some,
            None => true,
        },
    ensures
        d.spec_dispatch(ast, pairs, j) is Ok,
    decreases pairs.len() - j,
{
    if j < pairs.len() {
        lemma_unregistered_nonfatal(d, ast, pairs, j + 1);
    }
}

} // verus!
