use vstd::prelude::*;
use crate::ir::{Ir, RSTypeMap};
use crate::options::TypeScriptOptions;
use crate::resolver::{
    ReferenceGraph, resolve_references, table_refs_spec, table_resolve_spec,
};
use crate::source_ast::Program;
use crate::table::{KeyedMap, pairs_contains_key, pairs_index_of, pairs_upsert};
use crate::visitor::{SrcTypeMapping, TypeScriptToRustVisitor, visit_items_spec};

verus! {

/// The symbol table a module's statement list produces, starting from
/// nothing.
pub open spec fn module_table_spec(
    items: Seq<crate::source_ast::SrcItem>,
    ignore_unsupported: bool,
) -> Seq<(Seq<char>, Ir)> {
    visit_items_spec(Seq::empty(), Seq::empty(), items, ignore_unsupported).0
}

/// The alias table a module's statement list produces, starting from
/// nothing.
pub open spec fn module_mappings_spec(
    items: Seq<crate::source_ast::SrcItem>,
    ignore_unsupported: bool,
) -> Seq<(Seq<char>, SrcTypeMapping)> {
    visit_items_spec(Seq::empty(), Seq::empty(), items, ignore_unsupported).1
}

/// The resolved paths of the modules that the alias records point into, in
/// record order: the modules the walker must visit next.
pub open spec fn dep_paths(maps: Seq<(Seq<char>, SrcTypeMapping)>) -> Seq<Seq<char>>
    decreases maps,
{
    if maps.len() == 0 {
        Seq::empty()
    } else {
        dep_paths(maps.drop_last()) + match maps.last().1.original_module {
            Option::Some(p) => seq![p],
            Option::None => Seq::empty(),
        }
    }
}

/// The references of every module's table, each resolved against its own
/// module.
pub open spec fn all_refs_spec(mods: Seq<(Seq<char>, Seq<(Seq<char>, Ir)>)>) -> Set<
    crate::ir::IrReference,
>
    decreases mods,
{
    if mods.len() == 0 {
        Set::empty()
    } else {
        all_refs_spec(mods.drop_last()).union(
            table_refs_spec(mods.last().1, mods.last().0),
        )
    }
}

/// The obligation on the forest handed over to emission: every declaration
/// a module's statement list produces is structurally well formed — no
/// nested Optional, no empty Record — and stays so through resolution.
pub proof fn lemma_module_table_well_formed(
    items: Seq<crate::source_ast::SrcItem>,
    ignore_unsupported: bool,
    module: Seq<char>,
)
    ensures
        forall|i: int| 0 <= i < module_table_spec(items, ignore_unsupported).len()
            ==> crate::ir::ir_wf(
            (#[trigger] module_table_spec(items, ignore_unsupported)[i]).1,
        ),
        forall|i: int|
            0 <= i < table_resolve_spec(module_table_spec(items, ignore_unsupported), module).len()
                ==> crate::ir::ir_wf(
                (#[trigger] table_resolve_spec(
                    module_table_spec(items, ignore_unsupported),
                    module,
                )[i]).1,
            ),
{
    let empty_types = Seq::<(Seq<char>, Ir)>::empty();
    let empty_maps = Seq::<(Seq<char>, SrcTypeMapping)>::empty();
    crate::visitor::lemma_visit_items_well_formed(
        empty_types,
        empty_maps,
        items,
        ignore_unsupported,
    );
    crate::resolver::lemma_table_resolution_preserves_well_formed(
        module_table_spec(items, ignore_unsupported),
        module,
    );
}

/// The builder: tracks the modules of one build, each under its canonical
/// path, and lowers them one by one.
pub struct TypeScriptToRustBuilder {
    pub options: TypeScriptOptions,
    /// The symbol table of every module seen so far, keyed by canonical
    /// path. A slot is reserved before its module is lowered, so a module
    /// whose parse fails stays present and empty.
    pub modules: KeyedMap<RSTypeMap>,
}

impl Default for TypeScriptToRustBuilder {
    /// A builder with no modules and default options.
    fn default() -> (r: Self)
        ensures
            r.wf(),
            r.options.ignore_unimplemented == true,
            r.modules.spec_len() == 0,
    {
        TypeScriptToRustBuilder::new(TypeScriptOptions::default())
    }
}

impl TypeScriptToRustBuilder {
    /// The path table has unique keys, and every stored module table does
    /// too.
    pub open spec fn wf(self) -> bool {
        self.modules.wf() && forall|i: int|
            0 <= i < self.modules.entries@.len() ==> (
            #[trigger] self.modules.entries@[i]).1.wf()
    }

    pub fn new(options: TypeScriptOptions) -> (r: Self)
        ensures
            r.wf(),
            r.options == options,
            r.modules.pair_view_seq() == Seq::<(Seq<char>, Seq<(Seq<char>, Ir)>)>::empty(),
            r.modules.spec_len() == 0,
    {
        let r = TypeScriptToRustBuilder { options, modules: KeyedMap::new() };
        proof {
            assert(r.modules.pair_view_seq() =~= Seq::<
                (Seq<char>, Seq<(Seq<char>, Ir)>),
            >::empty());
        }
        r
    }

    /// Has this canonical path been entered already?
    pub fn contains_module(&self, path: &String) -> (r: bool)
        ensures
            r == self.modules.dom().contains(path@),
    {
        self.modules.contains_key(path)
    }

    /// The memoization guard of the walk: a path already present leaves the
    /// table exactly as it was, and an unseen path gets an empty slot
    /// reserved before its body is lowered. Only a fresh path needs parsing.
    pub fn begin_module(&mut self, path: &String) -> (fresh: bool)
        requires
            old(self).wf(),
        ensures
            final(self).wf(),
            final(self).options == old(self).options,
            fresh == !old(self).modules.dom().contains(path@),
            final(self).modules.dom() == old(self).modules.dom().insert(path@),
            !fresh ==> *final(self) == *old(self),
            fresh ==> final(self).modules.pair_view_seq() == old(
                self,
            ).modules.pair_view_seq().push((path@, Seq::<(Seq<char>, Ir)>::empty())),
            fresh ==> final(self).modules.key_seq() == old(self).modules.key_seq().push(path@),
    {
        if self.contains_module(path) {
            proof {
                assert(self.modules.dom().insert(path@) =~= self.modules.dom());
            }
            false
        } else {
            let empty_table: RSTypeMap = KeyedMap::new();
            proof {
                assert(empty_table.pair_view_seq() =~= Seq::<(Seq<char>, Ir)>::empty());
                if pairs_contains_key(self.modules.pair_view_seq(), path@) {
                    let i = pairs_index_of(self.modules.pair_view_seq(), path@);
                    assert(self.modules.key_seq()[i] == path@);
                    assert(self.modules.key_seq().contains(path@));
                }
            }
            self.modules.insert(path.clone(), empty_table);
            true
        }
    }

    /// Lower one parsed module into its reserved slot and say which modules
    /// its alias records point into, in record order. The caller visits
    /// those next; `begin_module` keeps that recursion from ever revisiting
    /// this path.
    #[verifier::loop_isolation(false)]
    pub fn visit_module(&mut self, path: &String, program: &Program) -> (deps: Vec<String>)
        requires
            old(self).wf(),
            old(self).modules.dom().contains(path@),
        ensures
            final(self).wf(),
            final(self).options == old(self).options,
            final(self).modules.key_seq() == old(self).modules.key_seq(),
            final(self).modules.pair_view_seq() == pairs_upsert(
                old(self).modules.pair_view_seq(),
                path@,
                module_table_spec(program@, old(self).options.ignore_unimplemented),
            ),
            deps.deep_view() == dep_paths(
                module_mappings_spec(program@, old(self).options.ignore_unimplemented),
            ),
    {
        let mut visitor = TypeScriptToRustVisitor::new(path.clone(), String::new(), self.options);
        visitor.visit_program(program);
        let ghost maps = visitor.type_mappings.pair_view_seq();
        proof {
            assert(visitor.types.pair_view_seq() == module_table_spec(
                program@,
                self.options.ignore_unimplemented,
            ));
            assert(maps == module_mappings_spec(program@, self.options.ignore_unimplemented));
        }
        let mut deps: Vec<String> = Vec::new();
        let mut i: usize = 0;
        proof {
            assert(deps.deep_view() =~= dep_paths(maps.take(0)));
        }
        while i < visitor.type_mappings.len()
            invariant
                0 <= i <= maps.len(),
                maps == visitor.type_mappings.pair_view_seq(),
                maps.len() == visitor.type_mappings.spec_len(),
                deps.deep_view() == dep_paths(maps.take(i as int)),
            decreases maps.len() - i,
        {
            proof {
                assert(maps.take(i + 1).drop_last() =~= maps.take(i as int));
                assert(maps.take(i + 1).last() == maps[i as int]);
            }
            let mapping = visitor.type_mappings.value_at(i);
            proof {
                assert(mapping@ == maps[i as int].1);
            }
            match &mapping.original_module {
                Some(p) => {
                    let ghost d_old = deps.deep_view();
                    deps.push(p.clone());
                    proof {
                        assert(deps.deep_view() =~= d_old.push(p@));
                        assert(deps.deep_view() =~= dep_paths(maps.take(i + 1)));
                    }
                }
                None => {}
            }
            i += 1;
        }
        proof {
            assert(maps.take(maps.len() as int) =~= maps);
        }
        self.modules.insert(path.clone(), visitor.types);
        deps
    }

    /// Resolve every module's references against that module's own table,
    /// and report all references encountered across the build.
    #[verifier::loop_isolation(false)]
    pub fn resolve_references(&mut self) -> (r: ReferenceGraph)
        requires
            old(self).wf(),
        ensures
            final(self).wf(),
            final(self).options == old(self).options,
            final(self).modules.key_seq() == old(self).modules.key_seq(),
            final(self).modules.spec_len() == old(self).modules.spec_len(),
            forall|m: int| 0 <= m < old(self).modules.spec_len()
                ==> #[trigger] final(self).modules.pair_view_seq()[m] == (
                old(self).modules.pair_view_seq()[m].0,
                table_resolve_spec(
                    old(self).modules.pair_view_seq()[m].1,
                    old(self).modules.pair_view_seq()[m].0,
                ),
            ),
            r.wf(),
            r@ == all_refs_spec(old(self).modules.pair_view_seq()),
    {
        let ghost mods0 = old(self).modules.pair_view_seq();
        let mut total = ReferenceGraph::new();
        let mut m: usize = 0;
        proof {
            assert(total@ =~= all_refs_spec(mods0.take(0)));
        }
        while m < self.modules.len()
            invariant
                0 <= m <= mods0.len(),
                self.wf(),
                self.options == old(self).options,
                self.modules.spec_len() == mods0.len(),
                self.modules.key_seq() == old(self).modules.key_seq(),
                forall|j: int| 0 <= j < m ==> #[trigger] self.modules.pair_view_seq()[j] == (
                    mods0[j].0,
                    table_resolve_spec(mods0[j].1, mods0[j].0),
                ),
                forall|j: int| m <= j < mods0.len() ==> #[trigger] self.modules.pair_view_seq()[j]
                    == mods0[j],
                total.wf(),
                total@ == all_refs_spec(mods0.take(m as int)),
            decreases mods0.len() - m,
        {
            proof {
                assert(mods0.take(m + 1).drop_last() =~= mods0.take(m as int));
                assert(mods0.take(m + 1).last() == mods0[m as int]);
                assert(self.modules.pair_view_seq()[m as int] == mods0[m as int]);
            }
            let path = self.modules.key_at(m).clone();
            let placeholder: RSTypeMap = KeyedMap::new();
            let ghost pre = *self;
            let mut table = self.modules.swap_value_at(m, placeholder);
            proof {
                assert(table == pre.modules.entries@[m as int].1);
                assert(pre.modules.pair_view_seq()[m as int].1 == table.pair_view_seq());
                assert(table.pair_view_seq() == mods0[m as int].1);
                assert(path@ == mods0[m as int].0);
                assert(table.wf());
            }
            let graph = resolve_references(&mut table, &path);
            total.merge_from(&graph);
            self.modules.set_value_at(m, table);
            proof {
                assert(total@ =~= all_refs_spec(mods0.take(m + 1)));
            }
            m += 1;
        }
        proof {
            assert(mods0.take(mods0.len() as int) =~= mods0);
        }
        total
    }
}

} // verus!
