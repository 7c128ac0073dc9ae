//! The framework bundle and the isolated state view that a session reads
//! from. A view only ever grows, and only before it is handed to a session.

use crate::bytes::{bytes_eq, copy_bytes};
use vstd::prelude::*;

verus! {

/// Identifier of a framework module: the publishing account and the name.
#[derive(Debug, PartialEq, Eq)]
pub struct ModuleId {
    pub address: [u8; 32],
    pub name: Vec<u8>,
}

impl View for ModuleId {
    type V = (Seq<u8>, Seq<u8>);

    open spec fn view(&self) -> (Seq<u8>, Seq<u8>) {
        (self.address@, self.name@)
    }
}

/// One module of the framework: its identifier, taken from the compiled
/// module, and its bytecode.
#[derive(Debug, PartialEq, Eq)]
pub struct FrameworkModule {
    pub id: ModuleId,
    pub bytecode: Vec<u8>,
}

/// The built-in code of the system, in publication order.
#[derive(Debug, PartialEq, Eq)]
pub struct FrameworkBundle {
    pub modules: Vec<FrameworkModule>,
}

/// What an execution engine may ask a state view for.
#[derive(Debug, PartialEq, Eq)]
pub enum StateKey {
    /// The bytecode of a module.
    Module(ModuleId),
    /// An on-chain resource, named by its access path.
    Resource(Vec<u8>),
}

/// The mapping that a sequence of modules stands for: each module is stored
/// under its identifier, a later one replacing an earlier one of the same
/// identifier.
pub open spec fn modules_map(modules: Seq<FrameworkModule>) -> Map<(Seq<u8>, Seq<u8>), Seq<u8>>
    decreases modules.len(),
{
    if modules.len() == 0 {
        Map::empty()
    } else {
        modules_map(modules.drop_last()).insert(modules.last().id@, modules.last().bytecode@)
    }
}

/// Modules after position `from` that are not stored under `id` do not
/// change what is found under `id`.
proof fn lemma_modules_map_tail(modules: Seq<FrameworkModule>, id: (Seq<u8>, Seq<u8>), from: int)
    requires
        0 <= from <= modules.len(),
        forall|j: int| from <= j < modules.len() ==> modules[j].id@ != id,
    ensures
        modules_map(modules).contains_key(id) == modules_map(modules.take(from)).contains_key(id),
        modules_map(modules).contains_key(id) ==> modules_map(modules)[id] == modules_map(
            modules.take(from),
        )[id],
    decreases modules.len() - from,
{
    if from == modules.len() {
        assert(modules.take(from) =~= modules);
    } else {
        let shorter = modules.drop_last();
        assert(shorter.take(from) =~= modules.take(from));
        lemma_modules_map_tail(shorter, id, from);
    }
}

/// An in-memory state view: module identifier to bytecode, and nothing
/// else. No resource exists before genesis.
#[derive(Debug)]
pub struct GenesisStateView {
    entries: Vec<FrameworkModule>,
}

impl View for GenesisStateView {
    type V = Map<(Seq<u8>, Seq<u8>), Seq<u8>>;

    closed spec fn view(&self) -> Map<(Seq<u8>, Seq<u8>), Seq<u8>> {
        modules_map(self.entries@)
    }
}

/// Whether two module identifiers name the same module.
pub fn module_id_eq(a: &ModuleId, b: &ModuleId) -> (same: bool)
    ensures
        same == (a@ == b@),
{
    bytes_eq(a.address.as_slice(), b.address.as_slice()) && bytes_eq(
        a.name.as_slice(),
        b.name.as_slice(),
    )
}

impl GenesisStateView {
    /// An empty view.
    pub fn new() -> (view: GenesisStateView)
        ensures
            view@ == Map::<(Seq<u8>, Seq<u8>), Seq<u8>>::empty(),
    {
        GenesisStateView { entries: Vec::new() }
    }

    /// Stores `blob` as the bytecode of the module `id`. Nothing is ever
    /// removed; a second blob for the same module replaces the first.
    pub fn add_module(&mut self, id: &ModuleId, blob: &[u8])
        ensures
            final(self)@ == old(self)@.insert(id@, blob@),
    {
        let entry = FrameworkModule {
            id: ModuleId { address: id.address, name: copy_bytes(id.name.as_slice()) },
            bytecode: copy_bytes(blob),
        };
        proof {
            assert(self.entries@.push(entry).drop_last() =~= self.entries@);
        }
        self.entries.push(entry);
    }

    /// The bytecode stored for the module `id`, if any.
    pub fn get_module(&self, id: &ModuleId) -> (found: Option<&Vec<u8>>)
        ensures
            found is Some <==> self@.contains_key(id@),
            found matches Some(bytecode) ==> bytecode@ == self@[id@],
    {
        let mut i: usize = self.entries.len();
        while i > 0
            invariant
                i <= self.entries@.len(),
                forall|j: int| i <= j < self.entries@.len() ==> self.entries@[j].id@ != id@,
            decreases i,
        {
            i -= 1;
            if module_id_eq(&self.entries[i].id, id) {
                proof {
                    let upto = self.entries@.take(i + 1);
                    lemma_modules_map_tail(self.entries@, id@, i + 1);
                    assert(upto.last() == self.entries@[i as int]);
                }
                return Some(&self.entries[i].bytecode);
            }
        }
        proof {
            lemma_modules_map_tail(self.entries@, id@, 0);
        }
        None
    }

    /// What the view answers to a read of the execution engine: the
    /// bytecode of a stored module, and "not found" for everything else,
    /// every resource included.
    pub fn get_state_value(&self, key: &StateKey) -> (value: Option<Vec<u8>>)
        ensures
            value is Some <==> (key matches StateKey::Module(id) && self@.contains_key(id@)),
            value matches Some(bytes) ==> (key matches StateKey::Module(id) && bytes@
                == self@[id@]),
    {
        match key {
            StateKey::Module(id) => match self.get_module(id) {
                Some(bytecode) => Some(copy_bytes(bytecode.as_slice())),
                None => None,
            },
            StateKey::Resource(_) => None,
        }
    }

    /// The modules that make up the view; where two share an identifier,
    /// the later one is the one that the view holds.
    pub fn modules(&self) -> (stored: &Vec<FrameworkModule>)
        ensures
            modules_map(stored@) == self@,
    {
        &self.entries
    }

    /// A fresh view that holds every module of `framework`.
    pub fn seeded(framework: &FrameworkBundle) -> (view: GenesisStateView)
        ensures
            view@ == modules_map(framework.modules@),
    {
        let mut view = GenesisStateView::new();
        let mut i: usize = 0;
        while i < framework.modules.len()
            invariant
                i <= framework.modules@.len(),
                view@ == modules_map(framework.modules@.take(i as int)),
            decreases framework.modules@.len() - i,
        {
            let module = &framework.modules[i];
            view.add_module(&module.id, module.bytecode.as_slice());
            proof {
                let next = framework.modules@.take(i + 1);
                assert(next.drop_last() =~= framework.modules@.take(i as int));
                assert(next.last() == framework.modules@[i as int]);
            }
            i += 1;
        }
        assert(framework.modules@.take(framework.modules@.len() as int) =~= framework.modules@);
        view
    }
}

} // verus!
