//! Annotation discovery: a depth-first walk of the declaration tree that
//! finds attribute annotations of the form `DERIVE=<name>` and resolves each
//! to the class the generator is to run on.
//!
//! The annotation decorates a marker type alias nested directly inside the
//! class to generate for: the target is the definition behind the underlying
//! type of the annotation's parent.  An annotation whose target cannot be
//! resolved is a fatal condition identifying the offending declaration; any
//! other annotation text is simply not a hit.

use vstd::prelude::*;

use crate::ast::{Ast, Decl, DeclKind};
use crate::strutil::str_starts_with;

verus! {

/// The display text of `d`, when `d` is an attribute annotation with one.
pub open spec fn spec_annotation(d: Decl) -> Option<Seq<char>> {
    if d.kind is Annotation {
        match d.name {
            Some(n) => Some(n@),
            None => None,
        }
    } else {
        None
    }
}

/// The generator name carried by `d`, when `d` is an annotation whose text
/// is exactly the literal marker, one `=`, then the name.
pub open spec fn spec_derive_name(d: Decl) -> Option<Seq<char>> {
    match spec_annotation(d) {
        Some(s) => if s.len() >= "DERIVE="@.len() && s.subrange(0, "DERIVE="@.len() as int)
            == "DERIVE="@ {
            Some(s.subrange("DERIVE="@.len() as int, s.len() as int))
        } else {
            None
        },
        None => None,
    }
}

/// The display text of `d` when `d` is an attribute annotation.
pub fn get_annotation<'a>(d: &'a Decl) -> (r: Option<&'a String>)
    ensures
        match r {
            Some(s) => spec_annotation(*d) == Some(s@),
            None => spec_annotation(*d) is None,
        },
{
    if matches!(d.kind, DeclKind::Annotation) {
        match &d.name {
            Some(n) => Some(n),
            None => None,
        }
    } else {
        None
    }
}

/// The generator name carried by `d`, when there is one.
pub fn get_derive_name(d: &Decl) -> (r: Option<String>)
    ensures
        match r {
            Some(s) => spec_derive_name(*d) == Some(s@),
            None => spec_derive_name(*d) is None,
        },
{
    let ann: &String = match get_annotation(d) {
        Some(a) => a,
        None => {
            return None;
        },
    };
    let marker = "DERIVE=";
    if !str_starts_with(ann.as_str(), marker) {
        return None;
    }
    let ml = marker.unicode_len();
    let al = ann.as_str().unicode_len();
    Some(String::from_str(ann.as_str().substring_char(ml, al)))
}

/// Resolve the target of an annotation whose parent is `p`: the underlying
/// type of the parent, its declaration, and that declaration's definition.
pub open spec fn spec_resolve_target(ast: Ast, p: int) -> Option<int> {
    if !(0 <= p < ast.decls.len()) {
        None
    } else {
        match ast.decls[p].ty {
            Some(t) => match t.decl {
                Some(d) => if d < ast.decls.len() {
                    match ast.decls[d as int].definition {
                        Some(x) => if x < ast.decls.len() {
                            Some(x as int)
                        } else {
                            None
                        },
                        None => None,
                    }
                } else {
                    None
                },
                None => None,
            },
            None => None,
        }
    }
}

/// Resolve the target class for an annotation under parent `p`.
pub fn resolve_target(ast: &Ast, p: usize) -> (r: Option<usize>)
    requires
        ast.wf(),
        p < ast.decls.len(),
    ensures
        match r {
            Some(t) => spec_resolve_target(*ast, p as int) == Some(t as int) && t
                < ast.decls.len(),
            None => spec_resolve_target(*ast, p as int) is None,
        },
{
    let t = match &ast.decls[p].ty {
        Some(t) => t,
        None => {
            return None;
        },
    };
    let d = match t.decl {
        Some(d) => d,
        None => {
            return None;
        },
    };
    if d >= ast.decls.len() {
        return None;
    }
    match ast.decls[d].definition {
        Some(x) => if x < ast.decls.len() {
            Some(x)
        } else {
            None
        },
        None => None,
    }
}

/// The discovered pairs contributed by node `i` (visited with parent `p`)
/// and its whole subtree, in pre-order: the node's own hit first, then each
/// child's subtree left to right.  `Err` identifies the first annotation, in
/// that order, whose target does not resolve, as (annotation, parent).
pub open spec fn spec_visit(ast: Ast, i: int, p: int) -> Result<Seq<(int, Seq<char>)>, (int, int)>
    decreases ast.decls.len() - i, 1int, 0int,
{
    if !(0 <= i < ast.decls.len()) {
        Ok(Seq::empty())
    } else {
        let here: Result<Seq<(int, Seq<char>)>, (int, int)> = match spec_derive_name(
            ast.decls[i],
        ) {
            Some(nm) => match spec_resolve_target(ast, p) {
                Some(t) => Ok(seq![(t, nm)]),
                None => Err((i, p)),
            },
            None => Ok(Seq::empty()),
        };
        match here {
            Err(e) => Err(e),
            Ok(h) => match spec_visit_children(ast, ast.decls[i].children@, 0, i) {
                Ok(rest) => Ok(h + rest),
                Err(e) => Err(e),
            },
        }
    }
}

/// The pairs contributed by the children `cs[j..]` of the node at `p`, left
/// to right.
pub open spec fn spec_visit_children(ast: Ast, cs: Seq<usize>, j: int, p: int) -> Result<
    Seq<(int, Seq<char>)>,
    (int, int),
>
    decreases ast.decls.len() - p, 0int, cs.len() - j,
{
    if !(0 <= j < cs.len()) {
        Ok(Seq::empty())
    } else {
        let sub: Result<Seq<(int, Seq<char>)>, (int, int)> = if p < cs[j]
            < ast.decls.len() {
            spec_visit(ast, cs[j] as int, p)
        } else {
            Ok(Seq::empty())
        };
        match sub {
            Err(e) => Err(e),
            Ok(s) => match spec_visit_children(ast, cs, j + 1, p) {
                Ok(rest) => Ok(s + rest),
                Err(e) => Err(e),
            },
        }
    }
}

/// Everything discovered under the root, in discovery (pre-)order.
pub open spec fn spec_discover(ast: Ast) -> Result<Seq<(int, Seq<char>)>, (int, int)> {
    spec_visit_children(ast, ast.decls[ast.root as int].children@, 0, ast.root as int)
}

/// The mathematical view of a vector of discovered pairs.
pub open spec fn pairs_view(s: Seq<(usize, String)>) -> Seq<(int, Seq<char>)> {
    s.map_values(|q: (usize, String)| (q.0 as int, q.1@))
}

/// Visit node `i` (child of `p`) and its subtree, appending discovered
/// pairs to `out` in discovery order.
fn visit_decl(ast: &Ast, i: usize, p: usize, out: &mut Vec<(usize, String)>) -> (r: Result<
    (),
    (usize, usize),
>)
    requires
        ast.wf(),
        i < ast.decls.len(),
        p < ast.decls.len(),
    ensures
        match r {
            Ok(_) => spec_visit(*ast, i as int, p as int) matches Ok(s) && pairs_view(final(out)@)
                == pairs_view(old(out)@) + s,
            Err(e) => spec_visit(*ast, i as int, p as int) == Err::<Seq<(int, Seq<char>)>, _>(
                (e.0 as int, e.1 as int),
            ),
        },
    decreases ast.decls.len() - i,
{
    let ghost mut acc: Seq<(int, Seq<char>)> = Seq::empty();
    match get_derive_name(&ast.decls[i]) {
        Some(nm) => {
            match resolve_target(ast, p) {
                Some(t) => {
                    proof {
                        acc = seq![(t as int, nm@)];
                    }
                    out.push((t, nm));
                    proof {
                        assert(pairs_view(out@) =~= pairs_view(old(out)@) + acc);
                    }
                },
                None => {
                    return Err((i, p));
                },
            }
        },
        None => {},
    }

    let n = ast.decls[i].children.len();
    let mut j: usize = 0;
    while j < n
        invariant
            ast.wf(),
            i < ast.decls.len(),
            p < ast.decls.len(),
            n == ast.decls[i as int].children.len(),
            j <= n,
            pairs_view(out@) == pairs_view(old(out)@) + acc,
            match spec_visit_children(*ast, ast.decls[i as int].children@, j as int, i as int) {
                Ok(rest) => spec_visit(*ast, i as int, p as int) == Ok::<_, (int, int)>(acc + rest),
                Err(e) => spec_visit(*ast, i as int, p as int) == Err::<Seq<(int, Seq<char>)>, _>(
                    e,
                ),
            },
        decreases n - j,
    {
        let c = ast.decls[i].children[j];
        proof {
            assert(decl_wf_holds(*ast, i as int));
        }
        match visit_decl(ast, c, i, out) {
            Ok(_) => {
                proof {
                    let sub = spec_visit(*ast, c as int, i as int)->Ok_0;
                    match spec_visit_children(*ast, ast.decls[i as int].children@, j + 1, i as int) {
                        Ok(rest) => {
                            assert((acc + sub) + rest =~= acc + (sub + rest));
                        },
                        Err(_) => {},
                    }
                    acc = acc + sub;
                }
            },
            Err(e) => {
                return Err(e);
            },
        }
        j = j + 1;
    }
    proof {
        assert(acc + Seq::<(int, Seq<char>)>::empty() =~= acc);
    }
    Ok(())
}

/// A helper naming the well-formedness of one declaration, to steer the
/// quantifier in `Ast::wf`.
pub open spec fn decl_wf_holds(ast: Ast, i: int) -> bool {
    crate::ast::decl_wf(ast.decls[i], i, ast.decls.len() as int)
}

/// Walk the whole tree under the root and return every discovered
/// (target, generator-name) pair, in discovery order; or the first
/// annotation whose target does not resolve, as (annotation, parent).
pub fn discover_derives(ast: &Ast) -> (r: Result<Vec<(usize, String)>, (usize, usize)>)
    requires
        ast.wf(),
    ensures
        match r {
            Ok(v) => spec_discover(*ast) matches Ok(s) && pairs_view(v@) == s && forall|k: int|
                0 <= k < v@.len() ==> (#[trigger] v@[k]).0 < ast.decls.len(),
            Err(e) => spec_discover(*ast) == Err::<Seq<(int, Seq<char>)>, _>(
                (e.0 as int, e.1 as int),
            ),
        },
{
    let mut out: Vec<(usize, String)> = Vec::new();
    let root = ast.root;
    let n = ast.decls[root].children.len();
    let ghost mut acc: Seq<(int, Seq<char>)> = Seq::empty();
    let mut j: usize = 0;
    while j < n
        invariant
            ast.wf(),
            root == ast.root,
            root < ast.decls.len(),
            n == ast.decls[root as int].children.len(),
            j <= n,
            pairs_view(out@) == acc,
            forall|k: int| 0 <= k < out@.len() ==> (#[trigger] out@[k]).0 < ast.decls.len(),
            match spec_visit_children(*ast, ast.decls[root as int].children@, j as int, root as int) {
                Ok(rest) => spec_discover(*ast) == Ok::<_, (int, int)>(acc + rest),
                Err(e) => spec_discover(*ast) == Err::<Seq<(int, Seq<char>)>, _>(e),
            },
        decreases n - j,
    {
        let c = ast.decls[root].children[j];
        proof {
            assert(decl_wf_holds(*ast, root as int));
        }
        let ghost before = out@;
        match visit_decl(ast, c, root, &mut out) {
            Ok(_) => {
                proof {
                    let sub = spec_visit(*ast, c as int, root as int)->Ok_0;
                    match spec_visit_children(
                        *ast,
                        ast.decls[root as int].children@,
                        j + 1,
                        root as int,
                    ) {
                        Ok(rest) => {
                            assert((acc + sub) + rest =~= acc + (sub + rest));
                        },
                        Err(_) => {},
                    }
                    let pv_before = pairs_view(before);
                    lemma_visit_targets_in_bounds(*ast, c as int, root as int);
                    assert(pv_before.len() == before.len());
                    assert(pairs_view(out@).len() == out@.len());
                    assert forall|k: int| 0 <= k < out@.len() implies (#[trigger] out@[k]).0
                        < ast.decls.len() by {
                        assert(pairs_view(out@)[k] == (out@[k].0 as int, out@[k].1@));
                        if k < before.len() {
                            assert(pairs_view(out@)[k] == pv_before[k]);
                            assert(pv_before[k] == (before[k].0 as int, before[k].1@));
                        } else {
                            assert(pairs_view(out@)[k] == sub[k - before.len()]);
                        }
                    }
                    acc = acc + sub;
                }
            },
            Err(e) => {
                return Err(e);
            },
        }
        j = j + 1;
    }
    proof {
        assert(acc + Seq::<(int, Seq<char>)>::empty() =~= acc);
    }
    Ok(out)
}

/// Every discovered target is an index into the arena.
proof fn lemma_visit_targets_in_bounds(ast: Ast, i: int, p: int)
    ensures
        spec_visit(ast, i, p) matches Ok(s) ==> forall|k: int|
            0 <= k < s.len() ==> 0 <= (#[trigger] s[k]).0 < ast.decls.len(),
    decreases ast.decls.len() - i, 1int, 0int,
{
    if 0 <= i < ast.decls.len() {
        lemma_visit_children_targets_in_bounds(ast, ast.decls[i].children@, 0, i);
    }
}

proof fn lemma_visit_children_targets_in_bounds(ast: Ast, cs: Seq<usize>, j: int, p: int)
    ensures
        spec_visit_children(ast, cs, j, p) matches Ok(s) ==> forall|k: int|
            0 <= k < s.len() ==> 0 <= (#[trigger] s[k]).0 < ast.decls.len(),
    decreases ast.decls.len() - p, 0int, cs.len() - j,
{
    if 0 <= j < cs.len() {
        if p < cs[j] < ast.decls.len() {
            lemma_visit_targets_in_bounds(ast, cs[j] as int, p);
        }
        lemma_visit_children_targets_in_bounds(ast, cs, j + 1, p);
    }
}

} // verus!
