//! The registry of names: every name in scope with its type slot.
use vstd::prelude::*;
use crate::semantic::hir::{
    hir_bound_name_views, hir_type_views, hir_views, lemma_hir_model, lemma_hir_type_model,
    lemma_type_instance_model, type_instance_views, HIRType, HIRTypeDef, HIRTypeDefView,
    HIRTypeView, HIRTypedBoundName, HIRTypedBoundNameView, HIRView, TypeInstance,
    TypeInstanceView, HIR,
};
use crate::semantic::type_db::{TypeDatabase, TypeDatabaseView};
use crate::text::str_eq;

verus! {

/// A name with its type slot.
#[derive(Debug)]
pub struct RegistryEntry {
    pub name: String,
    pub typedef: HIRTypeDef,
}

/// A mapping from names to type slots.
#[derive(Debug)]
pub struct NameRegistry {
    pub entries: Vec<RegistryEntry>,
}

impl NameRegistry {
    /// Entry `i` is the entry of `name`.
    pub open spec fn holds(&self, name: Seq<char>, i: int) -> bool {
        0 <= i < self.entries@.len() && self.entries@[i].name@ == name
    }

    /// Every name has one entry, with its type slot beside it.
    pub open spec fn wf(&self) -> bool {
        forall|i: int, j: int|
            0 <= i < j < self.entries@.len() ==> (#[trigger] self.entries@[i]).name@ != (
            #[trigger] self.entries@[j]).name@
    }
}

impl View for NameRegistry {
    type V = Map<Seq<char>, HIRTypeDefView>;

    open spec fn view(&self) -> Map<Seq<char>, HIRTypeDefView> {
        Map::new(
            |name: Seq<char>| exists|i: int| #[trigger] self.holds(name, i),
            |name: Seq<char>| self.entries@[choose|i: int| #[trigger] self.holds(name, i)].typedef@,
        )
    }
}

impl NameRegistry {
    /// The entry of a name is the only one, and gives the type of the name.
    pub proof fn lemma_entry(&self, name: Seq<char>, i: int)
        requires
            self.wf(),
            self.holds(name, i),
        ensures
            self@.contains_key(name),
            self@[name] == self.entries@[i].typedef@,
    {
        let k = choose|k: int| #[trigger] self.holds(name, k);
        assert(self.holds(name, k));
        if k < i {
            assert(self.entries@[k].name@ != self.entries@[i].name@);
        } else if i < k {
            assert(self.entries@[i].name@ != self.entries@[k].name@);
        }
    }

    /// The empty registry.
    pub fn new() -> (registry: NameRegistry)
        ensures
            registry.wf(),
            registry@ == Map::<Seq<char>, HIRTypeDefView>::empty(),
    {
        let registry = NameRegistry { entries: Vec::new() };
        assert(registry@ =~= Map::<Seq<char>, HIRTypeDefView>::empty()) by {
            assert forall|name: Seq<char>| !registry@.contains_key(name) by {
                assert forall|i: int| !#[trigger] registry.holds(name, i) by {}
            }
        }
        registry
    }

    /// Position of the entry of `name`.
    fn position(&self, name: &str) -> (found: Option<usize>)
        requires
            self.wf(),
        ensures
            match found {
                Some(i) => self.holds(name@, i as int),
                None => !self@.contains_key(name@),
            },
    {
        let mut i: usize = 0;
        while i < self.entries.len()
            invariant
                0 <= i <= self.entries.len(),
                forall|k: int| 0 <= k < i ==> !#[trigger] self.holds(name@, k),
            decreases self.entries.len() - i,
        {
            if str_eq(self.entries[i].name.as_str(), name) {
                return Some(i);
            }
            i += 1;
        }
        None
    }

    /// The type slot of `name`, if the registry holds the name.
    pub fn get(&self, name: &str) -> (found: Option<&HIRTypeDef>)
        requires
            self.wf(),
        ensures
            found is Some == self@.contains_key(name@),
            found matches Some(typedef) ==> typedef@ == self@[name@],
    {
        match self.position(name) {
            Some(i) => {
                proof {
                    self.lemma_entry(name@, i as int);
                }
                Some(&self.entries[i].typedef)
            },
            None => None,
        }
    }

    /// Whether the registry holds `name`.
    pub fn contains(&self, name: &str) -> (found: bool)
        requires
            self.wf(),
        ensures
            found == self@.contains_key(name@),
    {
        self.position(name).is_some()
    }

    /// Sets the type slot of `name`, whether the registry held the name
    /// before or not.
    pub fn insert(&mut self, name: String, typedef: HIRTypeDef)
        requires
            old(self).wf(),
        ensures
            final(self).wf(),
            final(self)@ == old(self)@.insert(name@, typedef@),
    {
        let ghost before = *self;
        match self.position(name.as_str()) {
            Some(i) => {
                self.entries[i] = RegistryEntry { name, typedef };
                proof {
                    assert forall|n: Seq<char>, k: int| self.holds(n, k) == before.holds(n, k) by {}
                    assert forall|n: Seq<char>| #[trigger]
                        self@.contains_key(n) == before@.insert(name@, typedef@).contains_key(
                            n,
                        ) by {
                        if before@.contains_key(n) {
                            let k = choose|k: int| #[trigger] before.holds(n, k);
                            assert(self.holds(n, k));
                        }
                        if self@.contains_key(n) {
                            let k = choose|k: int| #[trigger] self.holds(n, k);
                            assert(before.holds(n, k));
                        }
                        if n == name@ {
                            assert(self.holds(n, i as int));
                        }
                    }
                    assert forall|n: Seq<char>| self@.contains_key(n) implies #[trigger] self@[n]
                        == before@.insert(name@, typedef@)[n] by {
                        let k = choose|k: int| #[trigger] self.holds(n, k);
                        self.lemma_entry(n, k);
                        assert(before.holds(n, k));
                        before.lemma_entry(n, k);
                        if k != i {
                            if k < i {
                                assert(self.entries@[k].name@ != self.entries@[i as int].name@);
                            } else {
                                assert(self.entries@[i as int].name@ != self.entries@[k].name@);
                            }
                        }
                    }
                    assert(self@ =~= before@.insert(name@, typedef@));
                }
            },
            None => {
                let ghost position = self.entries@.len() as int;
                self.entries.push(RegistryEntry { name, typedef });
                proof {
                    assert forall|i: int, j: int| 0 <= i < j < self.entries@.len() implies (
                    #[trigger] self.entries@[i]).name@ != (#[trigger] self.entries@[j]).name@ by {
                        if j == position {
                            assert(!before.holds(name@, i));
                        } else {
                            assert(before.entries@[i].name@ != before.entries@[j].name@);
                        }
                    }
                    assert forall|n: Seq<char>| #[trigger]
                        self@.contains_key(n) == before@.insert(name@, typedef@).contains_key(
                            n,
                        ) by {
                        if before@.contains_key(n) {
                            let k = choose|k: int| #[trigger] before.holds(n, k);
                            assert(self.holds(n, k));
                        }
                        if self@.contains_key(n) {
                            let k = choose|k: int| #[trigger] self.holds(n, k);
                            if k < position {
                                assert(before.holds(n, k));
                            }
                        }
                        if n == name@ {
                            assert(self.holds(n, position));
                        }
                    }
                    assert forall|n: Seq<char>| self@.contains_key(n) implies #[trigger] self@[n]
                        == before@.insert(name@, typedef@)[n] by {
                        let k = choose|k: int| #[trigger] self.holds(n, k);
                        self.lemma_entry(n, k);
                        if k < position {
                            assert(before.holds(n, k));
                            before.lemma_entry(n, k);
                        }
                    }
                    assert(self@ =~= before@.insert(name@, typedef@));
                }
            },
        }
    }

    /// Makes the names of `other` visible: every name of `other` that this
    /// registry does not hold is added with its type slot. A name that
    /// both hold keeps the type slot it has here.
    pub fn merge(&mut self, other: &NameRegistry)
        requires
            old(self).wf(),
            other.wf(),
        ensures
            final(self).wf(),
            final(self)@ == other@.union_prefer_right(old(self)@),
    {
        let ghost before = self@;
        let mut i: usize = 0;
        while i < other.entries.len()
            invariant
                0 <= i <= other.entries.len(),
                self.wf(),
                other.wf(),
                forall|n: Seq<char>| #[trigger]
                    self@.contains_key(n) <==> before.contains_key(n) || exists|k: int|
                        0 <= k < i && #[trigger] other.holds(n, k),
                forall|n: Seq<char>|
                    self@.contains_key(n) ==> #[trigger] self@[n] == (if before.contains_key(n) {
                        before[n]
                    } else {
                        other@[n]
                    }),
            decreases other.entries.len() - i,
        {
            let ghost current = self@;
            let ghost added = other.entries@[i as int].name@;
            proof {
                assert(other.holds(added, i as int));
                other.lemma_entry(added, i as int);
            }
            if !self.contains(other.entries[i].name.as_str()) {
                self.insert(other.entries[i].name.clone(), other.entries[i].typedef.clone());
            }
            i += 1;
            proof {
                assert forall|n: Seq<char>| #[trigger]
                    self@.contains_key(n) <==> before.contains_key(n) || exists|k: int|
                        0 <= k < i && #[trigger] other.holds(n, k) by {
                    if current.contains_key(n) && !before.contains_key(n) {
                        let k = choose|k: int| 0 <= k < i - 1 && #[trigger] other.holds(n, k);
                        assert(other.holds(n, k));
                    }
                    if exists|k: int| 0 <= k < i && #[trigger] other.holds(n, k) {
                        let k = choose|k: int| 0 <= k < i && #[trigger] other.holds(n, k);
                        if k == i - 1 {
                            assert(n == added);
                        }
                    }
                }
            }
        }
        proof {
            let merged = other@.union_prefer_right(before);
            assert forall|n: Seq<char>| #[trigger] self@.contains_key(n) == merged.contains_key(
                n,
            ) by {
                if other@.contains_key(n) {
                    let k = choose|k: int| #[trigger] other.holds(n, k);
                    assert(other.holds(n, k));
                }
                if exists|k: int| 0 <= k < i && #[trigger] other.holds(n, k) {
                    let k = choose|k: int| 0 <= k < i && #[trigger] other.holds(n, k);
                    assert(other.holds(n, k));
                }
            }
            assert(self@ =~= merged);
        }
    }

    /// The names that the registry holds.
    pub fn get_names(&self) -> (names: Vec<String>)
        ensures
            names@.len() == self.entries@.len(),
            forall|i: int|
                0 <= i < names@.len() ==> (#[trigger] names@[i])@ == self.entries@[i].name@,
    {
        let mut names: Vec<String> = Vec::new();
        let mut i: usize = 0;
        while i < self.entries.len()
            invariant
                0 <= i <= self.entries.len(),
                names@.len() == i,
                forall|k: int| 0 <= k < i ==> (#[trigger] names@[k])@ == self.entries@[k].name@,
            decreases self.entries.len() - i,
        {
            names.push(self.entries[i].name.clone());
            i += 1;
        }
        names
    }
}

impl Clone for NameRegistry {
    fn clone(&self) -> (copy: Self)
        ensures
            self.wf() ==> copy.wf() && copy@ == self@,
    {
        let mut entries: Vec<RegistryEntry> = Vec::new();
        let mut i: usize = 0;
        while i < self.entries.len()
            invariant
                0 <= i <= self.entries.len(),
                entries@.len() == i,
                forall|k: int|
                    0 <= k < i ==> (#[trigger] entries@[k]).name@ == self.entries@[k].name@
                        && entries@[k].typedef@ == self.entries@[k].typedef@,
            decreases self.entries.len() - i,
        {
            entries.push(
                RegistryEntry {
                    name: self.entries[i].name.clone(),
                    typedef: self.entries[i].typedef.clone(),
                },
            );
            i += 1;
        }
        let copy = NameRegistry { entries };
        proof {
            if self.wf() {
                assert forall|n: Seq<char>, k: int| copy.holds(n, k) == self.holds(n, k) by {}
                assert forall|a: int, b: int| 0 <= a < b < copy.entries@.len() implies (
                #[trigger] copy.entries@[a]).name@ != (#[trigger] copy.entries@[b]).name@ by {
                    assert(self.entries@[a].name@ != self.entries@[b].name@);
                }
                assert forall|n: Seq<char>| #[trigger] copy@.contains_key(n) == self@.contains_key(
                    n,
                ) by {
                    if copy@.contains_key(n) {
                        let k = choose|k: int| #[trigger] copy.holds(n, k);
                        assert(self.holds(n, k));
                    }
                    if self@.contains_key(n) {
                        let k = choose|k: int| #[trigger] self.holds(n, k);
                        assert(copy.holds(n, k));
                    }
                }
                assert forall|n: Seq<char>| copy@.contains_key(n) implies #[trigger] copy@[n]
                    == self@[n] by {
                    let k = choose|k: int| #[trigger] copy.holds(n, k);
                    copy.lemma_entry(n, k);
                    assert(self.holds(n, k));
                    self.lemma_entry(n, k);
                }
                assert(copy@ =~= self@);
            }
        }
        copy
    }
}

/// The written types of the first `n` parameters; none if one of them has
/// no written type.
pub open spec fn written_types(parameters: Seq<HIRTypedBoundNameView>, n: nat) -> Option<
    Seq<HIRTypeView>,
>
    decreases n,
{
    if n == 0 || n > parameters.len() {
        Some(Seq::empty())
    } else {
        match written_types(parameters, (n - 1) as nat) {
            Some(before) => match parameters[n - 1].typename {
                HIRTypeDefView::Unresolved(t) => Some(before.push(t)),
                _ => None,
            },
            None => None,
        }
    }
}

/// The type of a function as its declaration writes it; none if a
/// parameter or the result has no written type.
pub open spec fn written_signature(
    parameters: Seq<HIRTypedBoundNameView>,
    return_type: HIRTypeDefView,
) -> Option<HIRTypeView> {
    match written_types(parameters, parameters.len()) {
        Some(args) => match return_type {
            HIRTypeDefView::Unresolved(t) => Some(HIRTypeView::Function(args, Box::new(t))),
            _ => None,
        },
        None => None,
    }
}

/// The names that are in scope before any declaration of the program:
/// the function `print`, from an `i32` to `Void`, if the database has
/// these types.
pub open spec fn builtin_names(type_db: TypeDatabaseView) -> Map<Seq<char>, HIRTypeDefView> {
    if type_db.has_name("i32"@) && type_db.has_name("Void"@) {
        Map::<Seq<char>, HIRTypeDefView>::empty().insert(
            "print"@,
            HIRTypeDefView::Resolved(
                TypeInstanceView::Function(
                    seq![TypeInstanceView::Simple(type_db.id_of("i32"@))],
                    Box::new(TypeInstanceView::Simple(type_db.id_of("Void"@))),
                ),
            ),
        )
    } else {
        Map::empty()
    }
}

/// The registry with the declaration `statement` of the top level: a
/// function under its name with its type as written, a struct under its
/// name as a type of that name.
pub open spec fn with_declaration(
    registry: Map<Seq<char>, HIRTypeDefView>,
    statement: HIRView,
) -> Map<Seq<char>, HIRTypeDefView> {
    match statement {
        HIRView::DeclareFunction { function_name, parameters, return_type, .. } => {
            match written_signature(parameters, return_type) {
                Some(signature) => registry.insert(
                    function_name,
                    HIRTypeDefView::Unresolved(signature),
                ),
                None => registry,
            }
        },
        HIRView::StructDeclaration { struct_name, .. } => registry.insert(
            struct_name,
            HIRTypeDefView::Unresolved(HIRTypeView::Simple(struct_name)),
        ),
        _ => registry,
    }
}

/// The registry of the global names after the first `n` statements of the
/// top level.
pub open spec fn global_names(type_db: TypeDatabaseView, mir: Seq<HIRView>, n: nat) -> Map<
    Seq<char>,
    HIRTypeDefView,
>
    decreases n,
{
    if n == 0 || n > mir.len() {
        builtin_names(type_db)
    } else {
        with_declaration(global_names(type_db, mir, (n - 1) as nat), mir[n - 1])
    }
}

/// The type of a function as its declaration writes it.
fn signature_of(parameters: &Vec<HIRTypedBoundName>, return_type: &HIRTypeDef) -> (signature:
    Option<HIRType>)
    ensures
        match signature {
            Some(t) => written_signature(hir_bound_name_views(parameters@), return_type@) == Some(
                t@,
            ),
            None => written_signature(hir_bound_name_views(parameters@), return_type@) is None,
        },
{
    let ghost views = hir_bound_name_views(parameters@);
    let mut args: Vec<HIRType> = Vec::new();
    let mut i: usize = 0;
    assert(hir_type_views(args@) =~= Seq::<HIRTypeView>::empty());
    while i < parameters.len()
        invariant
            0 <= i <= parameters.len(),
            views == hir_bound_name_views(parameters@),
            written_types(views, i as nat) == Some(hir_type_views(args@)),
        decreases parameters.len() - i,
    {
        let ghost before = hir_type_views(args@);
        assert(views[i as int] == parameters@[i as int]@);
        match &parameters[i].typename {
            HIRTypeDef::Unresolved(t) => {
                let written = t.clone();
                args.push(written);
                assert(hir_type_views(args@) =~= before.push(written@));
            },
            _ => {
                proof {
                    lemma_written_types_none(views, (i + 1) as nat, parameters@.len());
                }
                return None;
            },
        }
        i += 1;
    }
    match return_type {
        HIRTypeDef::Unresolved(t) => {
            let signature = HIRType::Function(args, Box::new(t.clone()));
            proof {
                lemma_hir_type_model(&signature);
            }
            Some(signature)
        },
        _ => None,
    }
}

/// Once a parameter has no written type, the parameters have none.
proof fn lemma_written_types_none(parameters: Seq<HIRTypedBoundNameView>, i: nat, n: nat)
    requires
        i <= n <= parameters.len(),
        written_types(parameters, i) is None,
    ensures
        written_types(parameters, n) is None,
    decreases n,
{
    if i < n {
        lemma_written_types_none(parameters, i, (n - 1) as nat);
    }
}

/// Collects the global names of a program: the built-in function `print`,
/// every function of the top level with its type as written, and every
/// struct of the top level. What is declared inside a body is not
/// collected.
pub fn build_name_registry(type_db: &TypeDatabase, mir: &Vec<HIR>) -> (registry: NameRegistry)
    requires
        type_db@.wf(),
    ensures
        registry.wf(),
        registry@ == global_names(type_db@, hir_views(mir@), mir@.len()),
{
    let ghost views = hir_views(mir@);
    let mut registry = NameRegistry::new();
    match type_db.find_by_name("i32") {
        Some(number) => {
            match type_db.find_by_name("Void") {
                Some(nothing) => {
                    let mut args: Vec<TypeInstance> = Vec::new();
                    args.push(TypeInstance::Simple(number.id));
                    let signature = TypeInstance::Function(
                        args,
                        Box::new(TypeInstance::Simple(nothing.id)),
                    );
                    proof {
                        lemma_type_instance_model(&signature);
                        assert(type_instance_views(args@) =~= seq![
                            TypeInstanceView::Simple(type_db@.id_of("i32"@)),
                        ]);
                    }
                    registry.insert("print".to_owned(), HIRTypeDef::Resolved(signature));
                },
                None => {},
            }
        },
        None => {},
    }
    let mut i: usize = 0;
    while i < mir.len()
        invariant
            0 <= i <= mir.len(),
            registry.wf(),
            views == hir_views(mir@),
            registry@ == global_names(type_db@, views, i as nat),
        decreases mir.len() - i,
    {
        assert(views[i as int] == mir@[i as int]@);
        proof {
            lemma_hir_model(&mir@[i as int]);
        }
        match &mir[i] {
            HIR::DeclareFunction { function_name, parameters, return_type, .. } => {
                match signature_of(parameters, return_type) {
                    Some(signature) => {
                        registry.insert(function_name.clone(), HIRTypeDef::Unresolved(signature));
                    },
                    None => {},
                }
            },
            HIR::StructDeclaration { struct_name, .. } => {
                registry.insert(
                    struct_name.clone(),
                    HIRTypeDef::Unresolved(HIRType::Simple(struct_name.clone())),
                );
            },
            _ => {},
        }
        i += 1;
    }
    registry
}

impl NameRegistry {
    /// Checks that every name has one entry.
    pub fn is_valid(&self) -> (ok: bool)
        ensures
            ok == self.wf(),
    {
        let mut j: usize = 0;
        while j < self.entries.len()
            invariant
                0 <= j <= self.entries.len(),
                forall|a: int, b: int|
                    0 <= a < b < j ==> (#[trigger] self.entries@[a]).name@ != (
                    #[trigger] self.entries@[b]).name@,
            decreases self.entries.len() - j,
        {
            let mut i: usize = 0;
            while i < j
                invariant
                    0 <= i <= j < self.entries.len(),
                    forall|a: int|
                        0 <= a < i ==> (#[trigger] self.entries@[a]).name@
                            != self.entries@[j as int].name@,
                decreases j - i,
            {
                if str_eq(self.entries[i].name.as_str(), self.entries[j].name.as_str()) {
                    return false;
                }
                i += 1;
            }
            j += 1;
        }
        true
    }
}

} // verus!
