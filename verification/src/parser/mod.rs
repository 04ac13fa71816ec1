//! From syntax tree to abstract syntax tree.
use vstd::prelude::*;
use nonempty_collections::NEVec;
use crate::ast::{procs_model, AnnProc, AnnProcV};
use crate::cst::CstNode;
use crate::parser::ast_builder::ASTBuilder;
use crate::parser::errors::{
    errors_model, listed_errors, nonempty_errors, AnnParsingError, AnnParsingErrorV,
};
use crate::parser::parsing::{drive, errors_of};
use crate::parser::semantics::eval;

pub mod ast_builder;
pub mod errors;
pub mod rules;
pub mod plan;
pub mod order;
pub mod semantics;
pub mod parsing;

verus! {

/// What becomes of the top-level processes of a program.
pub ghost struct Program {
    /// The trees of the processes, in the order of the text.
    pub trees: Seq<AnnProcV>,
    /// Whether every construct of the program has operands of the shape it
    /// needs.
    pub ok: bool,
    /// Every error of the program, process by process.
    pub errors: Seq<AnnParsingErrorV>,
}

/// What becomes of the named children of `root` from position `from` on.
pub open spec fn program_from(root: CstNode, from: int) -> Program
    decreases root.children@.len() - from,
{
    if from < 0 || from >= root.children@.len() {
        Program { trees: Seq::empty(), ok: true, errors: Seq::empty() }
    } else if root.children@[from].named {
        let child = root.children@[from];
        let rest = program_from(root, from + 1);
        Program {
            trees: seq![eval(child).tree] + rest.trees,
            ok: eval(child).ok && rest.ok,
            errors: errors_of(child, root.error) + rest.errors,
        }
    } else {
        program_from(root, from + 1)
    }
}

/// What becomes of the program whose syntax tree has the root `root`.
pub open spec fn program(root: CstNode) -> Program {
    program_from(root, 0)
}

/// A parser with the arena in which its trees live.
pub struct RholangParser<'a> {
    ast_builder: ASTBuilder<'a>,
}

impl<'a> RholangParser<'a> {
    /// The number of nodes that the arena of the parser was made for.
    pub closed spec fn capacity_spec(&self) -> usize {
        self.ast_builder.capacity_spec()
    }

    /// The number of nodes that the arena of the parser was made for.
    pub fn capacity(&self) -> (r: usize)
        ensures
            r == self.capacity_spec(),
    {
        self.ast_builder.capacity()
    }

    /// A parser whose arena has room for 64 nodes before it grows.
    pub fn new() -> (r: Self)
        ensures
            r.capacity_spec() == 64,
    {
        RholangParser { ast_builder: ASTBuilder::new() }
    }

    /// Evaluates a program: every named child of the root of its syntax
    /// tree is one process.
    ///
    /// Gives `None` where some construct has an operand that is not of the
    /// shape that the construct needs. Else it gives the trees of all the
    /// processes if nothing is wrong with any of them, and else every error
    /// of the program.
    pub fn parse(&'a self, root: &'a CstNode) -> (r: Option<
        Result<Vec<AnnProc<'a>>, NEVec<AnnParsingError>>,
    >)
        ensures
            r is None <==> !program(*root).ok,
            r matches Some(Ok(trees)) ==> procs_model(trees@) == program(*root).trees && program(
                *root,
            ).errors.len() == 0,
            r matches Some(Err(errors)) ==> errors_model(listed_errors(errors)) == program(
                *root,
            ).errors && listed_errors(errors).len() > 0,
    {
        let mut trees: Vec<AnnProc<'a>> = Vec::new();
        let mut errors: Vec<AnnParsingError> = Vec::new();
        let mut i: usize = 0;
        proof {
            let all = program_from(*root, 0);
            assert(procs_model(trees@) + all.trees =~= all.trees);
            assert(errors_model(errors@) + all.errors =~= all.errors);
        }
        while i < root.children.len()
            invariant
                i <= root.children@.len(),
                program(*root).ok == program_from(*root, i as int).ok,
                program(*root).trees == procs_model(trees@) + program_from(*root, i as int).trees,
                program(*root).errors == errors_model(errors@) + program_from(
                    *root,
                    i as int,
                ).errors,
            decreases root.children@.len() - i,
        {
            let child = &root.children[i];
            if child.named {
                let ghost before = errors_model(errors@);
                match drive(child, root.error, &self.ast_builder, &mut errors) {
                    None => {
                        return None;
                    },
                    Some(tree) => {
                        proof {
                            let rest = program_from(*root, i + 1);
                            assert(procs_model(trees@) + (seq![tree@] + rest.trees) =~= procs_model(
                                trees@.push(tree),
                            ) + rest.trees);
                            assert(before + (errors_of(*child, root.error) + rest.errors) =~= (before
                                + errors_of(*child, root.error)) + rest.errors);
                        }
                        trees.push(tree);
                    },
                }
            }
            i += 1;
        }
        proof {
            assert(procs_model(trees@) + Seq::<AnnProcV>::empty() =~= procs_model(trees@));
            assert(errors_model(errors@) + Seq::<AnnParsingErrorV>::empty() =~= errors_model(
                errors@,
            ));
        }
        match nonempty_errors(errors) {
            Some(list) => Some(Err(list)),
            None => Some(Ok(trees)),
        }
    }
}

} // verus!
