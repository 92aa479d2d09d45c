//! The generator registry and the run pipeline: discovered (target, name)
//! pairs are dispatched to registered generators and their outputs
//! concatenated, in discovery order, behind a preamble that includes the
//! original source file.

use vstd::prelude::*;

use crate::ast::Ast;
use crate::discover::{discover_derives, pairs_view, spec_discover};

verus! {

/// A code generator: given the declaration tree and the index of an
/// annotated class, it produces the text to emit for that class, or fails.
/// `derive_spec` is the generator's mathematical meaning; `derive` must
/// return exactly it.
pub trait Derive {
    /// What the generator emits for the class at `target`, or `None` where
    /// it fails on that class.
    spec fn derive_spec(&self, ast: Ast, target: int) -> Option<Seq<char>>;

    /// Emit the generator's text for the class at `target`.
    fn derive(&self, ast: &Ast, target: usize) -> (r: Result<String, ()>)
        requires
            ast.wf(),
            target < ast.decls.len(),
        ensures
            match r {
                Ok(s) => self.derive_spec(*ast, target as int) == Some(s@),
                Err(_) => self.derive_spec(*ast, target as int) is None,
            },
    ;
}

/// Why a run stopped with no output.
#[derive(Debug)]
pub enum RunError {
    /// An annotation's marker alias could not be traced to a defined type:
    /// the offending annotation and its parent.
    UnresolvedTarget { annotation: usize, parent: usize },
    /// A registered generator failed on its target: the generator's name and
    /// the target it was given.
    GeneratorFailed { name: String, target: usize },
}

/// A successful run: the emitted text, and a diagnostic list of the
/// generator names that were discovered but not registered, in discovery
/// order.
pub struct RunOutput {
    pub text: String,
    pub unknown: Vec<String>,
}

/// The mathematical view of the unknown-generator diagnostics.
pub open spec fn names_view(s: Seq<String>) -> Seq<Seq<char>> {
    s.map_values(|x: String| x@)
}

/// The fixed preamble of a run's output: an inclusion of the original
/// source path.
pub open spec fn spec_preamble(filename: Seq<char>) -> Seq<char> {
    "#include \""@ + filename + "\"\n\n"@
}

/// A registry of named generators, exclusively owned by one run.
pub struct Deriver<D: Derive> {
    derives: Vec<(String, D)>,
}

impl<D: Derive> Deriver<D> {
    /// The registered (name, generator) entries, in registration order.
    pub closed spec fn entries(self) -> Seq<(String, D)> {
        self.derives@
    }

    /// The position of the first entry registered under `name`, if any.
    pub open spec fn spec_lookup(self, name: Seq<char>, j: int) -> Option<int>
        decreases self.entries().len() - j,
    {
        if !(0 <= j < self.entries().len()) {
            None
        } else if self.entries()[j].0@ == name {
            Some(j)
        } else {
            self.spec_lookup(name, j + 1)
        }
    }

    /// What one discovered pair contributes from position `j` on: the texts
    /// of the found generators, concatenated in discovery order, and the
    /// names that were not found, in discovery order.  `Err(j)` when the
    /// generator of pair `j` fails: the run is aborted, no partial output.
    pub open spec fn spec_dispatch(self, ast: Ast, pairs: Seq<(int, Seq<char>)>, j: int) -> Result<
        (Seq<char>, Seq<Seq<char>>),
        int,
    >
        decreases pairs.len() - j,
    {
        if !(0 <= j < pairs.len()) {
            Ok((Seq::empty(), Seq::empty()))
        } else {
            match self.spec_lookup(pairs[j].1, 0) {
                Some(k) => match self.entries()[k].1.derive_spec(ast, pairs[j].0) {
                    Some(txt) => match self.spec_dispatch(ast, pairs, j + 1) {
                        Ok(r) => Ok((txt + r.0, r.1)),
                        Err(e) => Err(e),
                    },
                    None => Err(j),
                },
                None => match self.spec_dispatch(ast, pairs, j + 1) {
                    Ok(r) => Ok((r.0, seq![pairs[j].1] + r.1)),
                    Err(e) => Err(e),
                },
            }
        }
    }

    /// A successful run's observable outcome, exactly as `run` promises it
    /// of a result `Ok(out)`: the text and the diagnostics are determined by
    /// the registry, the tree and the filename alone.
    pub open spec fn spec_run_ok(
        self,
        ast: Ast,
        filename: Seq<char>,
        text: Seq<char>,
        unknown: Seq<Seq<char>>,
    ) -> bool {
        match spec_discover(ast) {
            Ok(pairs) => match self.spec_dispatch(ast, pairs, 0) {
                Ok(tu) => text == spec_preamble(filename) + tu.0 && unknown == tu.1,
                Err(_) => false,
            },
            Err(_) => false,
        }
    }

    /// An empty registry.
    pub fn new() -> (r: Self)
        ensures
            r.entries() == Seq::<(String, D)>::empty(),
    {
        Deriver { derives: Vec::new() }
    }

    /// Associate `derive` with `name`, overwriting a prior registration of
    /// the same name.
    pub fn register(&mut self, name: String, derive: D)
        ensures
            match old(self).spec_lookup(name@, 0) {
                Some(k) => final(self).entries() == old(self).entries().update(k, (name, derive)),
                None => final(self).entries() == old(self).entries().push((name, derive)),
            },
    {
        match self.lookup(&name) {
            Some(k) => {
                let ghost before = self.derives@;
                self.derives.remove(k);
                self.derives.insert(k, (name, derive));
                proof {
                    assert(self.derives@ =~= before.update(k as int, self.derives@[k as int]));
                }
            },
            None => {
                self.derives.push((name, derive));
            },
        }
    }

    /// Find the generator registered under `name`.
    fn lookup(&self, name: &String) -> (r: Option<usize>)
        ensures
            match r {
                Some(k) => self.spec_lookup(name@, 0) == Some(k as int) && k
                    < self.entries().len(),
                None => self.spec_lookup(name@, 0) is None,
            },
    {
        let n = self.derives.len();
        let mut j: usize = 0;
        while j < n
            invariant
                n == self.derives@.len(),
                j <= n,
                self.spec_lookup(name@, 0) == self.spec_lookup(name@, j as int),
            decreases n - j,
        {
            if crate::strutil::str_eq(self.derives[j].0.as_str(), name.as_str()) {
                return Some(j);
            }
            j = j + 1;
        }
        None
    }

    /// Drive the whole pipeline over an already-parsed declaration tree:
    /// discover every annotation, dispatch each discovered pair to its
    /// registered generator, and return the preamble followed by all
    /// generator outputs in discovery order, together with the names of the
    /// unregistered generators that were skipped.  A resolution failure or a
    /// generator failure aborts the run with no output.
    pub fn run(&self, ast: &Ast, filename: &str) -> (r: Result<RunOutput, RunError>)
        requires
            ast.wf(),
        ensures
            match spec_discover(*ast) {
                Err(e) => r matches Err(RunError::UnresolvedTarget { annotation, parent })
                    && annotation as int == e.0 && parent as int == e.1,
                Ok(pairs) => match self.spec_dispatch(*ast, pairs, 0) {
                    Ok(tu) => r matches Ok(out) && out.text@ == spec_preamble(filename@) + tu.0
                        && names_view(out.unknown@) == tu.1,
                    Err(j) => r matches Err(RunError::GeneratorFailed { name, target }) && name@
                        == pairs[j].1 && target as int == pairs[j].0,
                },
            },
            r matches Ok(out) ==> self.spec_run_ok(
                *ast,
                filename@,
                out.text@,
                names_view(out.unknown@),
            ),
    {
        let pairs: Vec<(usize, String)> = match discover_derives(ast) {
            Ok(v) => v,
            Err((a, p)) => {
                return Err(RunError::UnresolvedTarget { annotation: a, parent: p });
            },
        };
        let ghost spairs = pairs_view(pairs@);

        let mut text = String::new();
        text.append("#include \"");
        text.append(filename);
        text.append("\"\n\n");
        proof {
            assert(text@ =~= spec_preamble(filename@));
        }

        let mut unknown: Vec<String> = Vec::new();
        let ghost mut acc_text: Seq<char> = Seq::empty();
        proof {
            assert(text@ =~= spec_preamble(filename@) + acc_text);
        }
        let n = pairs.len();
        let mut j: usize = 0;
        while j < n
            invariant
                ast.wf(),
                n == pairs@.len(),
                spairs == pairs_view(pairs@),
                spairs.len() == n,
                spec_discover(*ast) == Ok::<Seq<(int, Seq<char>)>, (int, int)>(spairs),
                forall|k: int| 0 <= k < pairs@.len() ==> (#[trigger] pairs@[k]).0
                    < ast.decls.len(),
                j <= n,
                text@ == spec_preamble(filename@) + acc_text,
                match self.spec_dispatch(*ast, spairs, j as int) {
                    Ok(tu) => self.spec_dispatch(*ast, spairs, 0) == Ok::<_, int>(
                        (acc_text + tu.0, names_view(unknown@) + tu.1),
                    ),
                    Err(e) => self.spec_dispatch(*ast, spairs, 0) == Err::<
                        (Seq<char>, Seq<Seq<char>>),
                        _,
                    >(e),
                },
            decreases n - j,
        {
            let t = pairs[j].0;
            let nm = &pairs[j].1;
            proof {
                assert(spairs[j as int] == (pairs@[j as int].0 as int, pairs@[j as int].1@));
            }
            match self.lookup(nm) {
                Some(k) => {
                    let g = &self.derives[k].1;
                    match g.derive(ast, t) {
                        Ok(s) => {
                            text.append(s.as_str());
                            proof {
                                match self.spec_dispatch(*ast, spairs, j + 1) {
                                    Ok(r) => {
                                        assert((acc_text + s@) + r.0 =~= acc_text + (s@ + r.0));
                                    },
                                    Err(_) => {},
                                }
                                acc_text = acc_text + s@;
                            }
                        },
                        Err(_) => {
                            proof {
                                assert(self.spec_lookup(spairs[j as int].1, 0) == Some(k as int));
                                assert(self.entries()[k as int].1.derive_spec(
                                    *ast,
                                    spairs[j as int].0,
                                ) is None);
                                assert(self.spec_dispatch(*ast, spairs, j as int) == Err::<
                                    (Seq<char>, Seq<Seq<char>>),
                                    int,
                                >(j as int));
                            }
                            return Err(RunError::GeneratorFailed { name: nm.clone(), target: t });
                        },
                    }
                },
                None => {
                    let ghost before = unknown@;
                    unknown.push(nm.clone());
                    proof {
                        assert(names_view(unknown@) =~= names_view(before).push(nm@));
                        match self.spec_dispatch(*ast, spairs, j + 1) {
                            Ok(r) => {
                                assert(names_view(before).push(nm@) + r.1 =~= names_view(before)
                                    + (seq![spairs[j as int].1] + r.1));
                            },
                            Err(_) => {},
                        }
                    }
                },
            }
            j = j + 1;
        }
        proof {
            assert(acc_text + Seq::<char>::empty() =~= acc_text);
            assert(names_view(unknown@) + Seq::<Seq<char>>::empty() =~= names_view(unknown@));
        }
        Ok(RunOutput { text, unknown })
    }
}

} // verus!
