use vstd::prelude::*;

pub mod ast;
pub mod constant_propagation;
pub mod dead_code;
pub mod format;
pub mod lexer;
pub mod loop_visitor;
pub mod parser;
pub mod pretty;
pub mod reporting;
pub mod settings;
pub mod symtab;
pub mod type_visitor;
pub mod tokens;
pub mod types;

use crate::ast::{functions_model, sp_toplevel_function, Function, FunctionV, Script};
use crate::constant_propagation::{constant_propagation, sp_constant_propagation};
use crate::dead_code::{dead_code_eliminate, sp_dead_code_eliminate};
use crate::lexer::{sp_tokenise, tokenise};
use crate::loop_visitor::{sp_mark_function, visit_loop_check};
use crate::parser::{parse_top_level, sp_parse};
use crate::reporting::{Diagnostics, MessageV};
use crate::settings::{properties_model, CompileSettings};
use crate::symtab::{
    sp_assign_ids, sp_initial_symbols, sp_property_scope, sp_register_functions,
    sp_resolve_function, FunctionEntryV, ResolveStateV, SymTab, SymTabVisitor,
};
use crate::tokens::{FileId, LexicalError};
use crate::type_visitor::{
    sp_finalize_from, sp_sig_of, sp_tc_function, SigV, TcContextV, TcStateV, TypeTable,
    TypeVisitor,
};
use crate::types::Type;

verus! {

// ---------------------------------------------------------------------------
// The front end, whole: source text in, a checked and optimized script
// out, with every fault of every stage in one log. No fault stops the
// pipeline; the caller must treat a non-empty log as a failed build.
// ---------------------------------------------------------------------------

/// What a successful compilation hands the code generator: the checked,
/// optimized script, the symbol registry, and the finished type table.
#[derive(Debug)]
pub struct CheckedScript {
    pub script: Script,
    pub symtab: SymTab,
    pub type_table: TypeTable,
}

/// The lexical faults of a scan, appended to the log in source order.
pub open spec fn sp_lex_messages(errors: Seq<LexicalError>, msgs: Seq<MessageV>) -> Seq<MessageV>
    decreases errors,
{
    if errors.len() == 0 {
        msgs
    } else {
        sp_lex_messages(
            errors.skip(1),
            msgs.push(
                MessageV {
                    span: errors[0].span,
                    error: crate::reporting::MessageKindV::LexerError(errors[0].kind),
                },
            ),
        )
    }
}

/// One function through the per-function pipeline: loop reachability,
/// symbol resolution, type checking, and, when enabled, constant
/// propagation (once: a second pass provably finds nothing) and dead
/// code elimination.
pub open spec fn sp_compile_function(
    f: FunctionV,
    rst: ResolveStateV,
    types: Seq<Option<Type>>,
    ftable: Seq<FunctionEntryV>,
    sigs: Seq<SigV>,
    optimise: bool,
    np: int,
) -> (FunctionV, ResolveStateV, Seq<Option<Type>>) {
    let f1 = sp_mark_function(f);
    let (f2, rst2) = sp_resolve_function(f1, rst, ftable);
    let (f3, tst2) = sp_tc_function(
        f2,
        TcStateV { types, msgs: rst2.msgs },
        TcContextV { sigs },
    );
    let f5 = if optimise {
        let (f4, changed) = sp_constant_propagation(f3, np);
        sp_dead_code_eliminate(f4, rst2.symbols.len() as int, np)
    } else {
        f3
    };
    (f5, ResolveStateV { msgs: tst2.msgs, ..rst2 }, tst2.types)
}

/// Every function through the pipeline, in declaration order.
pub open spec fn sp_compile_functions(
    fs: Seq<FunctionV>,
    rst: ResolveStateV,
    types: Seq<Option<Type>>,
    ftable: Seq<FunctionEntryV>,
    sigs: Seq<SigV>,
    optimise: bool,
    np: int,
) -> (Seq<FunctionV>, ResolveStateV, Seq<Option<Type>>)
    decreases fs,
{
    if fs.len() == 0 {
        (fs, rst, types)
    } else {
        let (f2, rst2, types2) = sp_compile_function(fs[0], rst, types, ftable, sigs, optimise, np);
        let (rest2, rst3, types3) = sp_compile_functions(
            fs.skip(1),
            rst2,
            types2,
            ftable,
            sigs,
            optimise,
            np,
        );
        (seq![f2] + rest2, rst3, types3)
    }
}

fn append_lex_errors(errors: Vec<LexicalError>, diagnostics: &mut Diagnostics)
    ensures
        final(diagnostics).model() == sp_lex_messages(errors@, old(diagnostics).model()),
    decreases errors@.len(),
{
    let ghost e0 = errors@;
    let mut rest = errors;
    let ghost m0 = diagnostics.model();
    if rest.len() == 0 {
        return ;
    }
    let first = rest.remove(0);
    proof {
        assert(rest@ =~= e0.skip(1));
    }
    diagnostics.add_message(first.into_message());
    append_lex_errors(rest, diagnostics);
}

/// The per-function pipeline over a whole script's functions, in order.
fn compile_functions(
    functions: Vec<Function>,
    symtab_visitor: &mut SymTabVisitor,
    type_visitor: &mut TypeVisitor,
    diagnostics: &mut Diagnostics,
    settings: &CompileSettings,
) -> (r: Vec<Function>)
    requires
        old(symtab_visitor).scopes_model().len() >= 1,
        forall|i: int, j: int|
            0 <= i < functions@.len() && 0 <= j < functions@[i].arguments@.len() ==> (#[trigger]
            functions@[i].arguments@[j]).name is Unresolved,
    ensures
        ({
            let (fs2, rst2, types2) = sp_compile_functions(
                functions_model(functions@),
                old(symtab_visitor).state_model(*old(diagnostics)),
                old(type_visitor).types_model(),
                old(symtab_visitor).ftable_model(),
                old(type_visitor).sigs_model(),
                settings.enable_optimisations,
                settings.properties@.len() as int,
            );
            functions_model(r@) == fs2 && final(symtab_visitor).state_model(*final(diagnostics))
                == rst2 && final(type_visitor).types_model() == types2
        }),
        final(symtab_visitor).ftable_model() == old(symtab_visitor).ftable_model(),
        final(symtab_visitor).symtab_properties_model() == old(
            symtab_visitor,
        ).symtab_properties_model(),
        final(symtab_visitor).scopes_model().len() == old(symtab_visitor).scopes_model().len(),
        final(type_visitor).sigs_model() == old(type_visitor).sigs_model(),
    decreases functions@,
{
    let ghost fs0 = functions@;
    let mut rest = functions;
    if rest.len() == 0 {
        proof {
            assert(functions_model(fs0).len() == 0);
        }
        return rest;
    }
    let first = rest.remove(0);
    proof {
        assert(rest@ =~= fs0.skip(1));
        assert(functions_model(rest@) =~= functions_model(fs0).skip(1));
        assert(first.model() == functions_model(fs0)[0]);
    }
    let marked = visit_loop_check(first);
    proof {
        assert(crate::ast::args_model(marked.arguments@) == crate::ast::args_model(
            first.arguments@,
        ));
        assert(marked.arguments@.len() == first.arguments@.len());
        assert forall|j: int| 0 <= j < marked.arguments@.len() implies (#[trigger]
        marked.arguments@[j]).name is Unresolved by {
            assert(crate::ast::args_model(marked.arguments@)[j] == marked.arguments@[j].model());
            assert(crate::ast::args_model(first.arguments@)[j] == first.arguments@[j].model());
            assert(first == fs0[0]);
            assert(first.arguments@[j].name is Unresolved);
            assert(marked.arguments@[j].model().name == first.arguments@[j].model().name);
        }
    }
    let resolved = symtab_visitor.visit_function(marked, diagnostics);
    let checked = type_visitor.visit_function(resolved, diagnostics);
    let optimised = if settings.enable_optimisations {
        let (propagated, _changed) = constant_propagation(checked, settings);
        let num_symbols = symtab_visitor.get_symtab().symbol_count();
        dead_code_eliminate(propagated, settings, num_symbols)
    } else {
        checked
    };
    let mut rest2 = compile_functions(rest, symtab_visitor, type_visitor, diagnostics, settings);
    let ghost pre = rest2@;
    rest2.insert(0, optimised);
    proof {
        assert(rest2@ =~= seq![optimised] + pre);
        crate::ast::lemma_functions_model_prepend(optimised, pre);
    }
    rest2
}

/// Compiles one whole script: source text to a checked, optimized
/// script, or the full log of what was wrong with it. The pipeline never
/// stops at a fault; a compilation with any fault at all is an error.
pub fn compile(source: &str, file_id: FileId, settings: &CompileSettings) -> (r: Result<
    CheckedScript,
    Diagnostics,
>)
    ensures
        ({
            let (tokens, lex_errors) = sp_tokenise(source@, file_id);
            let msgs1 = sp_lex_messages(lex_errors, Seq::empty());
            let (stmts, msgs2) = sp_parse(tokens, file_id, msgs1);
            let script0 = seq![sp_toplevel_function(stmts, file_id)];
            let (table, msgs3) = sp_register_functions(script0, 0, Seq::empty(), msgs2);
            let fs1 = sp_assign_ids(script0);
            let sigs = fs1.map_values(|f: FunctionV| sp_sig_of(f));
            let rst0 = ResolveStateV {
                scopes: seq![sp_property_scope(properties_model(settings.properties@))],
                symbols: sp_initial_symbols(properties_model(settings.properties@)),
                msgs: msgs3,
            };
            let types0 = Seq::new(
                settings.properties@.len(),
                |i: int| Some(settings.properties@[i].ty),
            );
            let (fs2, rst2, types2) = sp_compile_functions(
                fs1,
                rst0,
                types0,
                table,
                sigs,
                settings.enable_optimisations,
                settings.properties@.len() as int,
            );
            let (final_types, msgs4) = sp_finalize_from(
                types2,
                rst2.symbols,
                0,
                Seq::empty(),
                rst2.msgs,
            );
            match r {
                Ok(checked) => msgs4.len() == 0 && functions_model(checked.script.functions@)
                    == fs2 && checked.symtab.names_model() == rst2.symbols
                    && checked.type_table.types_model() == final_types
                    && checked.type_table.rets_model() == sigs.map_values(
                    |s: SigV| (s.name, s.rets.len()),
                ),
                Err(diagnostics) => diagnostics.model() == msgs4 && msgs4.len() > 0,
            }
        }),
{
    let mut diagnostics = Diagnostics::new();
    let (tokens, lex_errors) = tokenise(source, file_id);
    append_lex_errors(lex_errors, &mut diagnostics);
    let top_level = parse_top_level(&tokens, file_id, &mut diagnostics);
    let script = Script::from_top_level(top_level, file_id);
    let mut functions = script.functions;
    proof {
        let stmts = sp_parse(
            sp_tokenise(source@, file_id).0,
            file_id,
            sp_lex_messages(sp_tokenise(source@, file_id).1, Seq::empty()),
        ).0;
        assert(seq![sp_toplevel_function(stmts, file_id)] + Seq::<FunctionV>::empty()
            =~= seq![sp_toplevel_function(stmts, file_id)]);
        assert(functions_model(functions@).len() == 1);
        assert(functions@.len() == 1);
        assert(functions_model(functions@)[0] == functions@[0].model());
        assert(functions@[0].model().arguments =~= Seq::<crate::ast::FunctionArgumentV>::empty());
        assert(crate::ast::args_model(functions@[0].arguments@).len() == 0);
        assert(functions@[0].arguments@.len() == 0);
    }
    let mut symtab_visitor = SymTabVisitor::new(settings, &mut functions, &mut diagnostics);
    let mut type_visitor = TypeVisitor::new(settings, &functions);
    proof {
        assert(functions_model(functions@).len() == 1);
        assert(functions@.len() == 1);
        assert(crate::ast::args_model(functions@[0].arguments@)
            == functions_model(functions@)[0].arguments);
        assert(functions@[0].arguments@.len() == 0);
        assert(forall|i: int, j: int|
            0 <= i < functions@.len() && 0 <= j < functions@[i].arguments@.len()
                ==> (#[trigger] functions@[i].arguments@[j]).name is Unresolved);
    }
    let compiled = compile_functions(
        functions,
        &mut symtab_visitor,
        &mut type_visitor,
        &mut diagnostics,
        settings,
    );
    let symtab = symtab_visitor.into_symtab();
    let type_table = type_visitor.into_type_table(&symtab, &mut diagnostics);
    if diagnostics.has_any() {
        Err(diagnostics)
    } else {
        Ok(CheckedScript { script: Script { functions: compiled }, symtab, type_table })
    }
}


/// One externally triggerable entry point: an event-handler function's
/// name and its argument names and types, for the host's dispatch table.
#[derive(Debug)]
pub struct EventHandler {
    pub name: String,
    pub arguments: Vec<(String, Type)>,
}

/// The written name of a handler argument: the name its symbol was
/// registered under once resolution bound it, the written name before.
pub open spec fn sp_handler_arg_name(
    a: crate::ast::FunctionArgumentV,
    symbols: Seq<crate::symtab::SymbolRecordV>,
) -> Seq<char> {
    match a.name {
        crate::ast::MaybeResolvedV::Unresolved(name) => name,
        crate::ast::MaybeResolvedV::Resolved(id) => if id.0 < symbols.len() {
            symbols[id.0 as int].0
        } else {
            Seq::empty()
        },
    }
}

impl CheckedScript {
    /// The functions marked as event handlers, in declaration order, each
    /// with its arguments' written names and declared types: what the
    /// host keys its externally triggered entry points by.
    pub fn event_handlers(&self) -> (r: Vec<EventHandler>)
        ensures
            ({
                let handlers = self.script.model().functions.filter(
                    |f: FunctionV| f.modifiers.is_event_handler is Some,
                );
                let symbols = self.symtab.names_model();
                r@.len() == handlers.len() && forall|i: int, j: int|
                    0 <= i < r@.len() && 0 <= j < r@[i].arguments@.len() ==> (#[trigger]
                    r@[i].arguments@[j]).0@ == sp_handler_arg_name(
                        handlers[i].arguments[j],
                        symbols,
                    ) && r@[i].arguments@[j].1 == handlers[i].arguments[j].t.t
            }),
            ({
                let handlers = self.script.model().functions.filter(
                    |f: FunctionV| f.modifiers.is_event_handler is Some,
                );
                forall|i: int|
                    0 <= i < r@.len() ==> (#[trigger] r@[i]).name@ == handlers[i].name
                        && r@[i].arguments@.len() == handlers[i].arguments.len()
            }),
    {
        let ghost fs = self.script.model().functions;
        let ghost symbols = self.symtab.names_model();
        let mut out: Vec<EventHandler> = Vec::new();
        let mut i: usize = 0;
        proof {
            reveal(Seq::filter);
            assert(fs.take(0int) =~= Seq::<FunctionV>::empty());
            assert(fs.take(0int).filter(|f: FunctionV| f.modifiers.is_event_handler is Some)
                =~= Seq::<FunctionV>::empty());
        }
        while i < self.script.functions.len()
            invariant
                i <= self.script.functions@.len(),
                fs == self.script.model().functions,
                symbols == self.symtab.names_model(),
                fs.len() == self.script.functions@.len(),
                ({
                    let handlers = fs.take(i as int).filter(
                        |f: FunctionV| f.modifiers.is_event_handler is Some,
                    );
                    out@.len() == handlers.len() && (forall|j: int|
                        0 <= j < out@.len() ==> (#[trigger] out@[j]).name@ == handlers[j].name
                            && out@[j].arguments@.len() == handlers[j].arguments.len()) && (forall|
                        j: int,
                        k: int,
                    |
                        0 <= j < out@.len() && 0 <= k < out@[j].arguments@.len() ==> (#[trigger]
                        out@[j].arguments@[k]).0@ == sp_handler_arg_name(
                            handlers[j].arguments[k],
                            symbols,
                        ) && out@[j].arguments@[k].1 == handlers[j].arguments[k].t.t)
                }),
            decreases self.script.functions@.len() - i,
        {
            let f = &self.script.functions[i];
            proof {
                assert(fs[i as int] == self.script.functions@[i as int].model());
            }
            let is_handler = f.modifiers.is_event_handler.is_some();
            if is_handler {
                let ghost argsm = crate::ast::args_model(f.arguments@);
                let mut arguments: Vec<(String, Type)> = Vec::new();
                let mut a: usize = 0;
                while a < f.arguments.len()
                    invariant
                        a <= f.arguments@.len(),
                        symbols == self.symtab.names_model(),
                        argsm == crate::ast::args_model(f.arguments@),
                        argsm.len() == f.arguments@.len(),
                        arguments@.len() == a,
                        forall|k: int|
                            0 <= k < a ==> (#[trigger] arguments@[k]).0@ == sp_handler_arg_name(
                                argsm[k],
                                symbols,
                            ) && arguments@[k].1 == argsm[k].t.t,
                    decreases f.arguments@.len() - a,
                {
                    let arg = &f.arguments[a];
                    proof {
                        assert(argsm[a as int] == f.arguments@[a as int].model());
                    }
                    let arg_name = match &arg.name {
                        crate::ast::MaybeResolved::Unresolved(name) => name.clone(),
                        crate::ast::MaybeResolved::Resolved(id) => {
                            if id.0 < self.symtab.symbol_count() {
                                self.symtab.name_for_symbol(*id)
                            } else {
                                String::new()
                            }
                        },
                    };
                    arguments.push((arg_name, arg.t.t));
                    a += 1;
                }
                proof {
                    assert(arguments@.len() == fs[i as int].arguments.len()) by {
                        assert(crate::ast::args_model(f.arguments@).len() == f.arguments@.len());
                    }
                    assert(fs[i as int].arguments == argsm);
                }
                out.push(EventHandler { name: f.name.clone(), arguments });
            }
            i += 1;
            proof {
                reveal(Seq::filter);
                let pred = |fv: FunctionV| fv.modifiers.is_event_handler is Some;
                assert(fs.take(i as int).drop_last() =~= fs.take(i - 1));
                assert(fs.take(i as int).last() == fs[i - 1]);
                assert(fs.take(i as int).filter(pred) == if pred(fs[i - 1]) {
                    fs.take(i - 1).filter(pred).push(fs[i - 1])
                } else {
                    fs.take(i - 1).filter(pred)
                });
            }
        }
        proof {
            assert(fs.take(fs.len() as int) =~= fs);
        }
        out
    }
}

} // verus!
