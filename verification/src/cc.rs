//! The cycle-collection generator: eligibility analysis and code emission.
//!
//! For an annotated class it decides, field by field, whether the field can
//! hold a reference that participates in reference cycles, and emits the
//! textual unlink and traverse procedures listing exactly those fields.

use vstd::prelude::*;

use crate::ast::{Ast, DeclKind, Ty};
use crate::strutil::str_eq;

verus! {

// ---------------------------------------------------------------------------
// Base matching: one depth-first, first-match search over the inheritance
// graph, reused with three predicates.
// ---------------------------------------------------------------------------

/// The three predicates the base search is run with.
pub enum BasePred {
    /// Matches a declaration whose display name is the well-known refcounted
    /// base type; the result is that declaration.
    Isupports,
    /// Matches an ancestor of `orig` (never `orig` itself) that directly
    /// contains a nested class with the reserved cycle-collection name; the
    /// result is that ancestor.
    CcInner { orig: usize },
    /// Matches a declaration that directly owns a field with the reserved
    /// refcount name; the result is that field.
    Refcnt,
}

/// Is `c` a direct child declaring the reserved nested cycle-collection
/// class?
pub open spec fn spec_is_cc_inner(ast: Ast, c: int) -> bool {
    &&& 0 <= c < ast.decls.len()
    &&& ast.decls[c].kind is Class
    &&& (ast.decls[c].name matches Some(n) && n@ == "cycleCollection"@)
}

/// Is `c` a field named with the reserved refcount name?
pub open spec fn spec_is_refcnt_field(ast: Ast, c: int) -> bool {
    &&& 0 <= c < ast.decls.len()
    &&& ast.decls[c].kind is Field
    &&& (ast.decls[c].name matches Some(n) && n@ == "mRefCnt"@)
}

/// First direct child of interest in `cs` from position `j` on, under the
/// given child predicate: the nested cycle-collection class or the reserved
/// refcount field.
pub open spec fn spec_first_child_match(ast: Ast, cs: Seq<usize>, j: int, want_field: bool) -> Option<
    int,
>
    decreases cs.len() - j,
{
    if !(0 <= j < cs.len()) {
        None
    } else if want_field && spec_is_refcnt_field(ast, cs[j] as int) {
        Some(cs[j] as int)
    } else if !want_field && spec_is_cc_inner(ast, cs[j] as int) {
        Some(cs[j] as int)
    } else {
        spec_first_child_match(ast, cs, j + 1, want_field)
    }
}

/// What one predicate says of declaration `i`: `None` for no match, or the
/// matched declaration (the declaration itself, or its refcount field).
pub open spec fn spec_pred(ast: Ast, p: BasePred, i: int) -> Option<int> {
    match p {
        BasePred::Isupports => if ast.decls[i].name matches Some(n) && n@ == "nsISupports"@ {
            Some(i)
        } else {
            None
        },
        BasePred::CcInner { orig } => if i == orig {
            None
        } else if spec_first_child_match(ast, ast.decls[i].children@, 0, false) is Some {
            Some(i)
        } else {
            None
        },
        BasePred::Refcnt => spec_first_child_match(ast, ast.decls[i].children@, 0, true),
    }
}

/// Resolve a base specifier to the definition of its base class: through the
/// specifier's type to the declaration, then to that declaration's
/// definition.  `None` where any step is missing.
pub open spec fn spec_base_defn(ast: Ast, c: int) -> Option<int> {
    if !(0 <= c < ast.decls.len()) {
        None
    } else if !(ast.decls[c].kind is BaseSpecifier) {
        None
    } else {
        match ast.decls[c].ty {
            Some(t) => match t.decl {
                Some(d) => if d < ast.decls.len() {
                    match ast.decls[d as int].definition {
                        Some(b) => if b < ast.decls.len() {
                            Some(b as int)
                        } else {
                            None
                        },
                        None => None,
                    }
                } else {
                    None
                },
                None => None,
            },
            None => None,
        }
    }
}

/// Depth-first, first-match base search from declaration `i`: the predicate
/// on `i` itself first, then each base specifier in declared order,
/// recursing into the base's definition, short-circuiting on the first
/// match.  `fuel` bounds the descent against pathological inheritance depth;
/// callers pass the arena size, which no acyclic inheritance path exceeds.
pub open spec fn spec_base_match(ast: Ast, p: BasePred, i: int, fuel: nat) -> Option<int>
    decreases fuel, 1int, 0int,
{
    if spec_pred(ast, p, i) is Some {
        spec_pred(ast, p, i)
    } else if fuel == 0 || !(0 <= i < ast.decls.len()) {
        None
    } else {
        spec_base_match_bases(ast, p, ast.decls[i].children@, 0, fuel)
    }
}

/// The base-specifier part of the search: children of the starting
/// declaration from position `j` on, left to right.
pub open spec fn spec_base_match_bases(ast: Ast, p: BasePred, cs: Seq<usize>, j: int, fuel: nat) -> Option<
    int,
>
    decreases fuel, 0int, cs.len() - j,
{
    if !(0 <= j < cs.len()) {
        None
    } else {
        let here = match spec_base_defn(ast, cs[j] as int) {
            Some(b) => if fuel > 0 {
                spec_base_match(ast, p, b, (fuel - 1) as nat)
            } else {
                None
            },
            None => None,
        };
        if here is Some {
            here
        } else {
            spec_base_match_bases(ast, p, cs, j + 1, fuel)
        }
    }
}

/// Evaluate one predicate on one declaration.
fn eval_pred(ast: &Ast, p: &BasePred, i: usize) -> (r: Option<usize>)
    requires
        ast.wf(),
        i < ast.decls.len(),
    ensures
        match r {
            Some(x) => spec_pred(*ast, *p, i as int) == Some(x as int),
            None => spec_pred(*ast, *p, i as int) is None,
        },
{
    let d = &ast.decls[i];
    match p {
        BasePred::Isupports => {
            match &d.name {
                Some(n) => if str_eq(n.as_str(), "nsISupports") {
                    Some(i)
                } else {
                    None
                },
                None => None,
            }
        },
        BasePred::CcInner { orig } => {
            if *orig == i {
                return None;
            }
            match first_child_match(ast, i, false) {
                Some(_) => Some(i),
                None => None,
            }
        },
        BasePred::Refcnt => first_child_match(ast, i, true),
    }
}

/// Scan the direct children of `i` for the first match of the child
/// predicate selected by `want_field`.
fn first_child_match(ast: &Ast, i: usize, want_field: bool) -> (r: Option<usize>)
    requires
        ast.wf(),
        i < ast.decls.len(),
    ensures
        match r {
            Some(x) => spec_first_child_match(*ast, ast.decls[i as int].children@, 0, want_field)
                == Some(x as int),
            None => spec_first_child_match(*ast, ast.decls[i as int].children@, 0, want_field)
                is None,
        },
{
    let cs = &ast.decls[i].children;
    let n = cs.len();
    let mut j: usize = 0;
    while j < n
        invariant
            ast.wf(),
            i < ast.decls.len(),
            cs == &ast.decls[i as int].children,
            n == cs.len(),
            j <= n,
            spec_first_child_match(*ast, cs@, 0, want_field) == spec_first_child_match(
                *ast,
                cs@,
                j as int,
                want_field,
            ),
        decreases n - j,
    {
        let c = cs[j];
        let cd = &ast.decls[c];
        let kind_ok = if want_field {
            matches!(cd.kind, DeclKind::Field)
        } else {
            matches!(cd.kind, DeclKind::Class)
        };
        if kind_ok {
            let name_ok = match &cd.name {
                Some(nm) => if want_field {
                    str_eq(nm.as_str(), "mRefCnt")
                } else {
                    str_eq(nm.as_str(), "cycleCollection")
                },
                None => false,
            };
            if name_ok {
                return Some(c);
            }
        }
        j = j + 1;
    }
    None
}

/// Resolve a base specifier to the definition of its base class.
fn base_defn(ast: &Ast, c: usize) -> (r: Option<usize>)
    requires
        ast.wf(),
        c < ast.decls.len(),
    ensures
        match r {
            Some(b) => spec_base_defn(*ast, c as int) == Some(b as int) && b < ast.decls.len(),
            None => spec_base_defn(*ast, c as int) is None,
        },
{
    let d = &ast.decls[c];
    if !matches!(d.kind, DeclKind::BaseSpecifier) {
        return None;
    }
    match &d.ty {
        Some(t) => match t.decl {
            Some(dd) => {
                if dd >= ast.decls.len() {
                    return None;
                }
                match ast.decls[dd].definition {
                    Some(b) => if b < ast.decls.len() {
                        Some(b)
                    } else {
                        None
                    },
                    None => None,
                }
            },
            None => None,
        },
        None => None,
    }
}

/// Run `p` over declaration `i` and its ancestors, depth first, left to
/// right, returning the first match.
pub fn base_matching(ast: &Ast, p: &BasePred, i: usize, fuel: usize) -> (r: Option<usize>)
    requires
        ast.wf(),
        i < ast.decls.len(),
    ensures
        match r {
            Some(x) => spec_base_match(*ast, *p, i as int, fuel as nat) == Some(x as int) && x
                < ast.decls.len(),
            None => spec_base_match(*ast, *p, i as int, fuel as nat) is None,
        },
    decreases fuel,
{
    match eval_pred(ast, p, i) {
        Some(x) => {
            proof {
                pred_result_in_bounds(*ast, *p, i as int);
            }
            return Some(x);
        },
        None => {},
    }
    if fuel == 0 {
        return None;
    }
    let n = ast.decls[i].children.len();
    let mut j: usize = 0;
    while j < n
        invariant
            ast.wf(),
            i < ast.decls.len(),
            fuel > 0,
            n == ast.decls[i as int].children.len(),
            j <= n,
            spec_pred(*ast, *p, i as int) is None,
            spec_base_match_bases(*ast, *p, ast.decls[i as int].children@, 0, fuel as nat)
                == spec_base_match_bases(*ast, *p, ast.decls[i as int].children@, j as int, fuel as nat),
        decreases n - j,
    {
        let c = ast.decls[i].children[j];
        match base_defn(ast, c) {
            Some(b) => {
                match base_matching(ast, p, b, fuel - 1) {
                    Some(x) => {
                        return Some(x);
                    },
                    None => {},
                }
            },
            None => {},
        }
        j = j + 1;
    }
    None
}

/// A matched result is itself an index into the arena.
proof fn pred_result_in_bounds(ast: Ast, p: BasePred, i: int)
    requires
        ast.wf(),
        0 <= i < ast.decls.len(),
    ensures
        spec_pred(ast, p, i) matches Some(x) ==> 0 <= x < ast.decls.len(),
{
    match p {
        BasePred::Refcnt => {
            first_child_match_in_bounds(ast, ast.decls[i].children@, 0, true);
        },
        _ => {},
    }
}

proof fn first_child_match_in_bounds(ast: Ast, cs: Seq<usize>, j: int, want_field: bool)
    ensures
        spec_first_child_match(ast, cs, j, want_field) matches Some(x) ==> 0 <= x
            < ast.decls.len(),
    decreases cs.len() - j,
{
    if 0 <= j < cs.len() {
        first_child_match_in_bounds(ast, cs, j + 1, want_field);
    }
}

// ---------------------------------------------------------------------------
// The three searches.
// ---------------------------------------------------------------------------

/// Does the class transitively derive from the well-known refcounted base?
pub open spec fn spec_is_isupports(ast: Ast, i: int) -> bool {
    spec_base_match(ast, BasePred::Isupports, i, ast.decls.len() as nat) is Some
}

/// The nearest ancestor that already participates in cycle collection, when
/// there is one: the first ancestor, depth first and left to right, with a
/// nested class of the reserved cycle-collection name.
pub open spec fn spec_cc_base(ast: Ast, i: int) -> Option<int> {
    spec_base_match(ast, BasePred::CcInner { orig: i as usize }, i, ast.decls.len() as nat)
}

/// The nearest reserved refcount field on the class or its ancestors.
pub open spec fn spec_refcnt_field(ast: Ast, i: int) -> Option<int> {
    spec_base_match(ast, BasePred::Refcnt, i, ast.decls.len() as nat)
}

/// Does the class at `i` transitively derive from the well-known refcounted
/// base type?
pub fn is_isupports(ast: &Ast, i: usize) -> (r: bool)
    requires
        ast.wf(),
        i < ast.decls.len(),
    ensures
        r == spec_is_isupports(*ast, i as int),
{
    base_matching(ast, &BasePred::Isupports, i, ast.decls.len()).is_some()
}

/// The nearest cycle-collection base of the class at `orig`, if any.
pub fn cc_base(ast: &Ast, orig: usize) -> (r: Option<usize>)
    requires
        ast.wf(),
        orig < ast.decls.len(),
    ensures
        match r {
            Some(b) => spec_cc_base(*ast, orig as int) == Some(b as int) && b < ast.decls.len(),
            None => spec_cc_base(*ast, orig as int) is None,
        },
{
    base_matching(ast, &BasePred::CcInner { orig }, orig, ast.decls.len())
}

/// The reserved refcount field of the class at `i` or of its nearest
/// ancestor declaring one, if any.
pub fn refcnt_field(ast: &Ast, i: usize) -> (r: Option<usize>)
    requires
        ast.wf(),
        i < ast.decls.len(),
    ensures
        match r {
            Some(f) => spec_refcnt_field(*ast, i as int) == Some(f as int) && f
                < ast.decls.len(),
            None => spec_refcnt_field(*ast, i as int) is None,
        },
{
    base_matching(ast, &BasePred::Refcnt, i, ast.decls.len())
}

// ---------------------------------------------------------------------------
// Eligibility analysis.
// ---------------------------------------------------------------------------

/// Which template allow-list a name is held against.
#[derive(Clone, Copy, PartialEq, Eq, Structural)]
pub enum TemplateSet {
    /// The recognized single-argument smart-pointer templates.
    SmartPtr,
    /// The recognized single-argument container templates.
    Container,
}

/// Is `n` on the given allow-list?
pub open spec fn spec_template_name_matches(n: Seq<char>, which: TemplateSet) -> bool {
    match which {
        TemplateSet::SmartPtr => n == "RefPtr"@ || n == "nsCOMPtr"@,
        TemplateSet::Container => n == "nsTArray"@,
    }
}

/// The single template argument of `t`, when `t`'s declaration instantiates
/// a template on the given allow-list and the first argument is resolved;
/// `None` otherwise.
pub open spec fn spec_template_target(ast: Ast, t: Ty, which: TemplateSet) -> Option<Ty> {
    match t.decl {
        Some(d) => if d < ast.decls.len() {
            match ast.decls[d as int].template_name {
                Some(tn) => if spec_template_name_matches(tn@, which) {
                    match t.template_args {
                        Some(args) => if args.len() > 0 {
                            match args[0] {
                                Some(a) => Some(a),
                                None => None,
                            }
                        } else {
                            None
                        },
                        None => None,
                    }
                } else {
                    None
                },
                None => None,
            }
        } else {
            None
        },
        None => None,
    }
}

/// Check one template name against an allow-list.
fn template_name_matches(n: &str, which: TemplateSet) -> (r: bool)
    ensures
        r == spec_template_name_matches(n@, which),
{
    match which {
        TemplateSet::SmartPtr => str_eq(n, "RefPtr") || str_eq(n, "nsCOMPtr"),
        TemplateSet::Container => str_eq(n, "nsTArray"),
    }
}

/// The single template argument of `t` under the given allow-list, when
/// there is one.
pub fn single_template_target<'a>(ast: &Ast, t: &'a Ty, which: TemplateSet) -> (r: Option<&'a Ty>)
    requires
        ast.wf(),
    ensures
        match r {
            Some(a) => spec_template_target(*ast, *t, which) == Some(*a),
            None => spec_template_target(*ast, *t, which) is None,
        },
{
    let d = match t.decl {
        Some(d) => d,
        None => {
            return None;
        },
    };
    if d >= ast.decls.len() {
        return None;
    }
    let tn = match &ast.decls[d].template_name {
        Some(tn) => tn,
        None => {
            return None;
        },
    };
    if !template_name_matches(tn.as_str(), which) {
        return None;
    }
    let args = match &t.template_args {
        Some(args) => args,
        None => {
            return None;
        },
    };
    if args.len() == 0 {
        return None;
    }
    match &args[0] {
        Some(a) => Some(a),
        None => None,
    }
}

/// The target of a recognized smart-pointer type, when `t` is one.
pub fn refptr_target<'a>(ast: &Ast, t: &'a Ty) -> (r: Option<&'a Ty>)
    requires
        ast.wf(),
    ensures
        match r {
            Some(a) => spec_template_target(*ast, *t, TemplateSet::SmartPtr) == Some(*a),
            None => spec_template_target(*ast, *t, TemplateSet::SmartPtr) is None,
        },
{
    single_template_target(ast, t, TemplateSet::SmartPtr)
}

/// The element type of a recognized container type, when `t` is one.
pub fn container_target<'a>(ast: &Ast, t: &'a Ty) -> (r: Option<&'a Ty>)
    requires
        ast.wf(),
    ensures
        match r {
            Some(a) => spec_template_target(*ast, *t, TemplateSet::Container) == Some(*a),
            None => spec_template_target(*ast, *t, TemplateSet::Container) is None,
        },
{
    single_template_target(ast, t, TemplateSet::Container)
}

/// The display name of the type of the nearest refcount field of the class
/// defined at `defn`: `None` where no such field is found, and also where
/// the field has no resolvable type.
pub open spec fn spec_refcnt_field_ty_name(ast: Ast, defn: int) -> Option<Seq<char>> {
    match spec_refcnt_field(ast, defn) {
        Some(f) => match ast.decls[f].ty {
            Some(ft) => Some(ft.name@),
            None => None,
        },
        None => None,
    }
}

/// Must the referents of a pointer to `t` be traced for cycles?  `t` must
/// resolve to a definition; the definition's nearest refcount field must
/// have the reserved cycle-collecting refcount type; failing that, the
/// definition must derive from the well-known refcounted base while no
/// refcount field of any type was found.
pub open spec fn spec_cc_ptr_target(ast: Ast, t: Ty) -> bool {
    match t.decl {
        Some(d) => d < ast.decls.len() && match ast.decls[d as int].definition {
            Some(defn) => defn < ast.decls.len() && {
                let rc_name = spec_refcnt_field_ty_name(ast, defn as int);
                if rc_name == Some("nsCycleCollectingAutoRefCnt"@) {
                    true
                } else {
                    spec_is_isupports(ast, defn as int) && rc_name is None
                }
            },
            None => false,
        },
        None => false,
    }
}

/// Should a field whose type is `t` be traversed and unlinked?  Yes iff `t`
/// is a recognized smart pointer whose target must be traced for cycles, or
/// a recognized container whose element type should itself be traversed and
/// unlinked.
pub open spec fn spec_should_traverse_unlink(ast: Ast, t: Ty) -> bool
    decreases t,
{
    match spec_template_target(ast, t, TemplateSet::SmartPtr) {
        Some(tt) => spec_cc_ptr_target(ast, tt),
        None => match spec_template_target(ast, t, TemplateSet::Container) {
            Some(ct) => spec_should_traverse_unlink(ast, ct),
            None => false,
        },
    }
}

/// Decide whether a pointer target must be traced for cycles.
pub fn cc_ptr_target(ast: &Ast, t: &Ty) -> (r: bool)
    requires
        ast.wf(),
    ensures
        r == spec_cc_ptr_target(*ast, *t),
{
    let d = match t.decl {
        Some(d) => d,
        None => {
            return false;
        },
    };
    if d >= ast.decls.len() {
        return false;
    }
    let defn = match ast.decls[d].definition {
        Some(defn) => defn,
        None => {
            return false;
        },
    };
    if defn >= ast.decls.len() {
        return false;
    }
    let rc_name: Option<&String> = match refcnt_field(ast, defn) {
        Some(f) => match &ast.decls[f].ty {
            Some(ft) => Some(&ft.name),
            None => None,
        },
        None => None,
    };
    match rc_name {
        Some(n) => str_eq(n.as_str(), "nsCycleCollectingAutoRefCnt"),
        None => is_isupports(ast, defn),
    }
}

/// Decide whether a field of type `t` is traversed and unlinked.
pub fn should_traverse_unlink(ast: &Ast, t: &Ty) -> (r: bool)
    requires
        ast.wf(),
    ensures
        r == spec_should_traverse_unlink(*ast, *t),
    decreases *t,
{
    match refptr_target(ast, t) {
        Some(tt) => {
            return cc_ptr_target(ast, tt);
        },
        None => {},
    }
    match container_target(ast, t) {
        Some(ct) => should_traverse_unlink(ast, ct),
        None => false,
    }
}

// ---------------------------------------------------------------------------
// Fields.
// ---------------------------------------------------------------------------

/// The direct children of `i` that are fields, in declaration order.
pub open spec fn spec_fields(ast: Ast, i: int) -> Seq<usize> {
    ast.decls[i].children@.filter(
        |c: usize| 0 <= c < ast.decls.len() && ast.decls[c as int].kind is Field,
    )
}

/// Collect the fields of the class at `i`, in declaration order.
pub fn fields(ast: &Ast, i: usize) -> (r: Vec<usize>)
    requires
        ast.wf(),
        i < ast.decls.len(),
    ensures
        r@ == spec_fields(*ast, i as int),
        forall|k: int| 0 <= k < r@.len() ==> #[trigger] r@[k] < ast.decls.len(),
{
    let cs = &ast.decls[i].children;
    let n = cs.len();
    let mut out: Vec<usize> = Vec::new();
    let ghost pred = |c: usize| 0 <= c < ast.decls.len() && ast.decls[c as int].kind is Field;
    let mut j: usize = 0;
    while j < n
        invariant
            ast.wf(),
            i < ast.decls.len(),
            cs == &ast.decls[i as int].children,
            n == cs.len(),
            j <= n,
            pred == (|c: usize| 0 <= c < ast.decls.len() && ast.decls[c as int].kind is Field),
            out@ == cs@.take(j as int).filter(pred),
        decreases n - j,
    {
        let c = cs[j];
        proof {
            reveal_with_fuel(Seq::filter, 2);
            assert(cs@.take(j + 1).drop_last() =~= cs@.take(j as int));
            assert(cs@.take(j + 1).last() == cs@[j as int]);
        }
        if matches!(ast.decls[c].kind, DeclKind::Field) {
            out.push(c);
        }
        j = j + 1;
    }
    proof {
        assert(cs@.take(n as int) =~= cs@);
    }
    out
}

// ---------------------------------------------------------------------------
// Code emission.
// ---------------------------------------------------------------------------

/// The begin marker of an unlink block.
pub open spec fn spec_unlink_begin(cls: Seq<char>) -> Seq<char> {
    "NS_IMPL_CYCLE_COLLECTION_UNLINK_BEGIN("@ + cls + ")\n"@
}

/// One field line of an unlink block.
pub open spec fn spec_unlink_line(n: Seq<char>) -> Seq<char> {
    "  NS_IMPL_CYCLE_COLLECTION_UNLINK("@ + n + ")\n"@
}

/// The end marker of an unlink block: the inherited form naming the
/// cycle-collection base when there is one, the plain form otherwise.
pub open spec fn spec_unlink_end(base: Option<Seq<char>>) -> Seq<char> {
    match base {
        Some(b) => "NS_IMPL_CYCLE_COLLECTION_UNLINK_END_INHERITED("@ + b + ")\n"@,
        None => "NS_IMPL_CYCLE_COLLECTION_UNLINK_END\n"@,
    }
}

/// The begin marker of a traverse block: the inherited form names both the
/// class and its cycle-collection base.
pub open spec fn spec_traverse_begin(cls: Seq<char>, base: Option<Seq<char>>) -> Seq<char> {
    match base {
        Some(b) => "NS_IMPL_CYCLE_COLLECTION_TRAVERSE_BEGIN_INHERITED("@ + cls + ", "@ + b
            + ")\n"@,
        None => "NS_IMPL_CYCLE_COLLECTION_TRAVERSE_BEGIN("@ + cls + ")\n"@,
    }
}

/// One field line of a traverse block.
pub open spec fn spec_traverse_line(n: Seq<char>) -> Seq<char> {
    "  NS_IMPL_CYCLE_COLLECTION_TRAVERSE("@ + n + ")\n"@
}

/// The end marker of a traverse block; traverse has no inherited end form.
pub open spec fn spec_traverse_end() -> Seq<char> {
    "NS_IMPL_CYCLE_COLLECTION_TRAVERSE_END\n"@
}

/// The unlink field lines for the given field names, in order.
pub open spec fn spec_unlink_lines(names: Seq<Seq<char>>) -> Seq<char>
    decreases names.len(),
{
    if names.len() == 0 {
        Seq::empty()
    } else {
        spec_unlink_lines(names.drop_last()) + spec_unlink_line(names.last())
    }
}

/// The traverse field lines for the given field names, in order.
pub open spec fn spec_traverse_lines(names: Seq<Seq<char>>) -> Seq<char>
    decreases names.len(),
{
    if names.len() == 0 {
        Seq::empty()
    } else {
        spec_traverse_lines(names.drop_last()) + spec_traverse_line(names.last())
    }
}

/// A whole unlink block.
pub open spec fn spec_unlink_block(
    cls: Seq<char>,
    names: Seq<Seq<char>>,
    base: Option<Seq<char>>,
) -> Seq<char> {
    spec_unlink_begin(cls) + spec_unlink_lines(names) + spec_unlink_end(base)
}

/// A whole traverse block.
pub open spec fn spec_traverse_block(
    cls: Seq<char>,
    names: Seq<Seq<char>>,
    base: Option<Seq<char>>,
) -> Seq<char> {
    spec_traverse_begin(cls, base) + spec_traverse_lines(names) + spec_traverse_end()
}

/// The name a field contributes to the emitted blocks: present iff the child
/// is a field with a readable name, a resolvable type, and an eligible type.
/// A field missing its name or type is skipped, not an error.
pub open spec fn spec_field_line_name(ast: Ast, c: int) -> Option<Seq<char>> {
    if 0 <= c < ast.decls.len() && ast.decls[c].kind is Field {
        match ast.decls[c].name {
            Some(n) => match ast.decls[c].ty {
                Some(t) => if spec_should_traverse_unlink(ast, t) {
                    Some(n@)
                } else {
                    None
                },
                None => None,
            },
            None => None,
        }
    } else {
        None
    }
}

/// The names of the eligible fields among the first `j` children, in
/// declaration order.
pub open spec fn spec_eligible_names_upto(ast: Ast, cs: Seq<usize>, j: int) -> Seq<Seq<char>>
    decreases j,
{
    if j <= 0 {
        Seq::empty()
    } else {
        spec_eligible_names_upto(ast, cs, j - 1) + match spec_field_line_name(
            ast,
            cs[j - 1] as int,
        ) {
            Some(n) => seq![n],
            None => Seq::empty(),
        }
    }
}

/// The names of the eligible fields of the class at `i`, in declaration
/// order.
pub open spec fn spec_eligible_names(ast: Ast, i: int) -> Seq<Seq<char>> {
    spec_eligible_names_upto(ast, ast.decls[i].children@, ast.decls[i].children@.len() as int)
}

/// The display name of the nearest cycle-collection base, when that base
/// exists and has one.
pub open spec fn spec_cc_basename(ast: Ast, i: int) -> Option<Seq<char>> {
    match spec_cc_base(ast, i) {
        Some(b) => match ast.decls[b].name {
            Some(n) => Some(n@),
            None => None,
        },
        None => None,
    }
}

/// The full text the cycle-collection generator emits for the class at `i`:
/// the unlink block, one blank line, then the traverse block.  `None` when
/// the class has no readable display name, the one failure the generator
/// reports.
pub open spec fn spec_derive_text(ast: Ast, i: int) -> Option<Seq<char>> {
    match ast.decls[i].name {
        Some(cn) => {
            let names = spec_eligible_names(ast, i);
            let base = spec_cc_basename(ast, i);
            Some(
                spec_unlink_block(cn@, names, base) + "\n"@ + spec_traverse_block(cn@, names, base),
            )
        },
        None => None,
    }
}

/// Emit the unlink and traverse blocks for the annotated class at `i`.
pub fn derive_cc(ast: &Ast, i: usize) -> (r: Result<String, ()>)
    requires
        ast.wf(),
        i < ast.decls.len(),
    ensures
        match r {
            Ok(s) => spec_derive_text(*ast, i as int) == Some(s@),
            Err(_) => spec_derive_text(*ast, i as int) is None,
        },
{
    let cn: &String = match &ast.decls[i].name {
        Some(cn) => cn,
        None => {
            return Err(());
        },
    };
    let basename: Option<&String> = match cc_base(ast, i) {
        Some(b) => match &ast.decls[b].name {
            Some(n) => Some(n),
            None => None,
        },
        None => None,
    };
    let ghost base_spec: Option<Seq<char>> = match basename {
        Some(n) => Some(n@),
        None => None,
    };
    proof {
        assert(base_spec == spec_cc_basename(*ast, i as int));
    }

    let mut unlink = String::new();
    let mut traverse = String::new();

    unlink.append("NS_IMPL_CYCLE_COLLECTION_UNLINK_BEGIN(");
    unlink.append(cn.as_str());
    unlink.append(")\n");
    proof {
        assert(unlink@ =~= spec_unlink_begin(cn@));
    }
    match basename {
        Some(b) => {
            traverse.append("NS_IMPL_CYCLE_COLLECTION_TRAVERSE_BEGIN_INHERITED(");
            traverse.append(cn.as_str());
            traverse.append(", ");
            traverse.append(b.as_str());
            traverse.append(")\n");
        },
        None => {
            traverse.append("NS_IMPL_CYCLE_COLLECTION_TRAVERSE_BEGIN(");
            traverse.append(cn.as_str());
            traverse.append(")\n");
        },
    }
    proof {
        assert(traverse@ =~= spec_traverse_begin(cn@, base_spec));
    }

    let cs = &ast.decls[i].children;
    let n = cs.len();
    let mut j: usize = 0;
    while j < n
        invariant
            ast.wf(),
            i < ast.decls.len(),
            cs == &ast.decls[i as int].children,
            n == cs.len(),
            j <= n,
            cn@ == ast.decls[i as int].name->Some_0@,
            unlink@ == spec_unlink_begin(cn@) + spec_unlink_lines(
                spec_eligible_names_upto(*ast, cs@, j as int),
            ),
            traverse@ == spec_traverse_begin(cn@, base_spec) + spec_traverse_lines(
                spec_eligible_names_upto(*ast, cs@, j as int),
            ),
        decreases n - j,
    {
        let ghost names_j = spec_eligible_names_upto(*ast, cs@, j as int);
        let c = cs[j];
        let cd = &ast.decls[c];
        let mut line_name: Option<&String> = None;
        if matches!(cd.kind, DeclKind::Field) {
            match (&cd.name, &cd.ty) {
                (Some(nm), Some(t)) => {
                    if should_traverse_unlink(ast, t) {
                        line_name = Some(nm);
                    }
                },
                _ => {},
            }
        }
        match line_name {
            Some(nm) => {
                proof {
                    assert(spec_field_line_name(*ast, cs@[j as int] as int) == Some(nm@));
                    assert(spec_eligible_names_upto(*ast, cs@, j + 1) =~= names_j.push(nm@));
                    assert(names_j.push(nm@).drop_last() =~= names_j);
                }
                unlink.append("  NS_IMPL_CYCLE_COLLECTION_UNLINK(");
                unlink.append(nm.as_str());
                unlink.append(")\n");
                traverse.append("  NS_IMPL_CYCLE_COLLECTION_TRAVERSE(");
                traverse.append(nm.as_str());
                traverse.append(")\n");
                proof {
                    assert(unlink@ =~= spec_unlink_begin(cn@) + spec_unlink_lines(
                        spec_eligible_names_upto(*ast, cs@, j + 1),
                    ));
                    assert(traverse@ =~= spec_traverse_begin(cn@, base_spec)
                        + spec_traverse_lines(spec_eligible_names_upto(*ast, cs@, j + 1)));
                }
            },
            None => {
                proof {
                    assert(spec_field_line_name(*ast, cs@[j as int] as int) is None);
                    assert(spec_eligible_names_upto(*ast, cs@, j + 1) =~= names_j);
                }
            },
        }
        j = j + 1;
    }

    let ghost names = spec_eligible_names(*ast, i as int);

    traverse.append("NS_IMPL_CYCLE_COLLECTION_TRAVERSE_END\n");
    match basename {
        Some(b) => {
            unlink.append("NS_IMPL_CYCLE_COLLECTION_UNLINK_END_INHERITED(");
            unlink.append(b.as_str());
            unlink.append(")\n");
        },
        None => {
            unlink.append("NS_IMPL_CYCLE_COLLECTION_UNLINK_END\n");
        },
    }
    proof {
        assert(unlink@ =~= spec_unlink_block(cn@, names, base_spec));
        assert(traverse@ =~= spec_traverse_block(cn@, names, base_spec));
    }

    let mut out = unlink;
    out.append("\n");
    out.append(traverse.as_str());
    proof {
        assert(out@ =~= spec_unlink_block(cn@, names, base_spec) + "\n"@ + spec_traverse_block(
            cn@,
            names,
            base_spec,
        ));
    }
    Ok(out)
}

/// The cycle-collection generator.
pub struct CycleCollect;

impl crate::deriver::Derive for CycleCollect {
    /// What the generator emits: exactly the unlink and traverse blocks of
    /// `spec_derive_text`.
    open spec fn derive_spec(&self, ast: Ast, target: int) -> Option<Seq<char>> {
        spec_derive_text(ast, target)
    }

    fn derive(&self, ast: &Ast, target: usize) -> (r: Result<String, ()>) {
        derive_cc(ast, target)
    }
}

} // verus!
