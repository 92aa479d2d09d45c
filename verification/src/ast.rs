//! A plain-value model of the parsed C++ declaration tree.
//!
//! Declarations live in an arena, `Ast::decls`, and refer to one another by
//! index: a declaration's children, its definition, and the declaration
//! behind a type are all indices into the arena.  Children come after their
//! parent in the arena (`wf` below), which is the natural order when the
//! arena is filled by a depth-first walk of the source tree and bounds every
//! descent through the tree.

use vstd::prelude::*;

verus! {

/// The kinds of declaration the analysis distinguishes.  Everything else is
/// `Other`.
#[derive(Clone, Copy, PartialEq, Eq, Structural)]
pub enum DeclKind {
    /// A class or struct definition.
    Class,
    /// A field of a class.
    Field,
    /// A base-class specifier inside a class, pointing at the base's type.
    BaseSpecifier,
    /// An attribute annotation; its display text may carry a generator
    /// binding.
    Annotation,
    /// A type alias; its `ty` is the underlying type.
    TypeAlias,
    /// Anything the analysis never inspects beyond walking its children.
    Other,
}

/// The type of a field, base specifier or template argument.
pub struct Ty {
    /// Display name of the type.
    pub name: String,
    /// Index of the declaration this type refers to, when it has one.
    pub decl: Option<usize>,
    /// Template arguments, when the type has a template identity: each
    /// argument is itself a type, or `None` where the front end could not
    /// resolve it.
    pub template_args: Option<Vec<Option<Ty>>>,
}

/// One declaration in the arena.
pub struct Decl {
    pub kind: DeclKind,
    /// Display name; absent for anonymous or unresolved entities.
    pub name: Option<String>,
    /// Name of the template this declaration instantiates, when it has one.
    pub template_name: Option<String>,
    /// For a field or a base specifier, its type; for a type alias, the
    /// underlying type.
    pub ty: Option<Ty>,
    /// Index of the defining declaration, when one is reachable.
    pub definition: Option<usize>,
    /// Direct children, in declaration order.
    pub children: Vec<usize>,
}

/// The whole declaration tree of one translation unit.
pub struct Ast {
    pub decls: Vec<Decl>,
    /// Index of the translation-unit root.
    pub root: usize,
}

/// Every declaration index inside `t` is in bounds for an arena of `n`
/// declarations.
pub open spec fn ty_wf(t: Ty, n: int) -> bool
    decreases t,
{
    &&& (t.decl matches Some(d) ==> d < n)
    &&& (t.template_args matches Some(args) ==> forall|k: int|
        0 <= k < args.len() ==> (#[trigger] args[k] matches Some(a) ==> ty_wf(a, n)))
}

/// Well-formedness of one declaration at index `i` in an arena of `n`
/// declarations: indices are in bounds, and children come strictly after
/// their parent.
pub open spec fn decl_wf(d: Decl, i: int, n: int) -> bool {
    &&& (forall|j: int| 0 <= j < d.children.len() ==> i < #[trigger] d.children[j] < n)
    &&& (d.definition matches Some(x) ==> x < n)
    &&& (d.ty matches Some(t) ==> ty_wf(t, n))
}

impl Ast {
    /// Well-formedness of the whole arena.
    pub open spec fn wf(self) -> bool {
        &&& self.root < self.decls.len()
        &&& forall|i: int|
            0 <= i < self.decls.len() ==> decl_wf(#[trigger] self.decls[i], i, self.decls.len() as int)
    }
}

/// Check that every declaration index inside `t` is in bounds.
pub fn ty_check(t: &Ty, n: usize) -> (r: bool)
    ensures
        r == ty_wf(*t, n as int),
    decreases *t,
{
    match t.decl {
        Some(d) => if d >= n {
            return false;
        },
        None => {},
    }
    match &t.template_args {
        Some(args) => {
            let m = args.len();
            let mut k: usize = 0;
            while k < m
                invariant
                    m == args@.len(),
                    k <= m,
                    t.template_args matches Some(a) && a@ == args@,
                    t.decl matches Some(d) ==> d < n,
                    forall|l: int| 0 <= l < k ==> (#[trigger] args@[l] matches Some(a) ==> ty_wf(a, n as int)),
                decreases m - k,
            {
                match &args[k] {
                    Some(a) => {
                        if !ty_check(a, n) {
                            return false;
                        }
                    },
                    None => {},
                }
                k = k + 1;
            }
            true
        },
        None => true,
    }
}

/// Check the well-formedness of one declaration at index `i`.
fn decl_check(d: &Decl, i: usize, n: usize) -> (r: bool)
    ensures
        r == decl_wf(*d, i as int, n as int),
{
    let m = d.children.len();
    let mut k: usize = 0;
    while k < m
        invariant
            m == d.children@.len(),
            k <= m,
            forall|l: int| 0 <= l < k ==> i < #[trigger] d.children@[l] < n,
        decreases m - k,
    {
        let c = d.children[k];
        if c <= i || c >= n {
            return false;
        }
        k = k + 1;
    }
    match d.definition {
        Some(x) => if x >= n {
            return false;
        },
        None => {},
    }
    match &d.ty {
        Some(t) => ty_check(t, n),
        None => true,
    }
}

/// Check the well-formedness of the whole arena, as `Ast::wf` states it.
pub fn check_wf(ast: &Ast) -> (r: bool)
    ensures
        r == ast.wf(),
{
    let n = ast.decls.len();
    if ast.root >= n {
        return false;
    }
    let mut i: usize = 0;
    while i < n
        invariant
            n == ast.decls@.len(),
            ast.root < n,
            i <= n,
            forall|l: int| 0 <= l < i ==> decl_wf(#[trigger] ast.decls@[l], l, n as int),
        decreases n - i,
    {
        if !decl_check(&ast.decls[i], i, n) {
            return false;
        }
        i = i + 1;
    }
    true
}

} // verus!
