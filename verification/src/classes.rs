//! The class tables that decide what a name means on an object.

use std::collections::HashMap;

use vstd::prelude::*;

use crate::heap::Heap;
use crate::names::NameTable;

verus! {

broadcast use vstd::std_specs::hash::group_hash_axioms;

/// A class chain is followed for at most this many classes.
pub const MAX_CLASS_CHAIN: usize = 32;

/// The functions of one class by name.
pub struct Vtable {
    pub methods: NameTable<u64>,
    pub getters: NameTable<u64>,
    pub setters: NameTable<u64>,
}

impl Vtable {
    pub fn new() -> (vtable: Self)
        ensures
            vtable.methods@ == Map::<Seq<char>, u64>::empty(),
            vtable.getters@ == Map::<Seq<char>, u64>::empty(),
            vtable.setters@ == Map::<Seq<char>, u64>::empty(),
    {
        Vtable { methods: NameTable::new(), getters: NameTable::new(), setters: NameTable::new() }
    }
}

/// The table of all classes, if it can be read.
pub enum VtableRegistry {
    /// A writer has failed half way, and nothing in the table can be relied on.
    Poisoned,
    /// No class was registered yet.
    Unset,
    Ready(HashMap<u32, Vtable>),
}

pub struct Classes {
    pub vtables: VtableRegistry,
    pub parents: HashMap<u32, u32>,
    /// The methods that were put on the prototypes of classes.
    pub prototype_methods: HashMap<u32, NameTable<u64>>,
    /// The prototype objects; zero for none.
    pub prototype_objects: HashMap<u32, u64>,
    /// Whether any property has a descriptor of its own.
    pub descriptors_in_use: bool,
    /// The names that are accessors on an object.
    pub accessors: HashMap<u64, NameTable<()>>,
    /// The names that cannot be written on an object.
    pub read_only: HashMap<u64, NameTable<()>>,
}

/// The class and its ancestors, from the class on: the chain ends at a class
/// without a parent or that is its own, and after `limit` classes.
pub open spec fn chain(parents: Map<u32, u32>, class_id: u32, limit: nat) -> Seq<u32>
    decreases limit,
{
    if limit == 0 {
        Seq::empty()
    } else if parents.contains_key(class_id) && parents[class_id] != 0 && parents[class_id]
        != class_id {
        seq![class_id] + chain(parents, parents[class_id], (limit - 1) as nat)
    } else {
        seq![class_id]
    }
}

/// A class chain starts with its class and has at most as many classes as its
/// limit, even where classes are each other's ancestors.
pub proof fn chains_are_bounded(parents: Map<u32, u32>, class_id: u32, limit: nat)
    ensures
        chain(parents, class_id, limit).len() <= limit,
        limit > 0 ==> chain(parents, class_id, limit).len() > 0 && chain(
            parents,
            class_id,
            limit,
        )[0] == class_id,
    decreases limit,
{
    if limit > 0 && parents.contains_key(class_id) {
        chains_are_bounded(parents, parents[class_id], (limit - 1) as nat);
    }
}

/// Each class of a chain but the first is the parent of the one before.
pub proof fn chains_follow_parents(parents: Map<u32, u32>, class_id: u32, limit: nat, i: int)
    requires
        0 < i < chain(parents, class_id, limit).len(),
    ensures
        parents.contains_key(chain(parents, class_id, limit)[i - 1]),
        parents[chain(parents, class_id, limit)[i - 1]] == chain(parents, class_id, limit)[i],
    decreases limit,
{
    if parents.contains_key(class_id) && parents[class_id] != 0 && parents[class_id] != class_id {
        let rest = chain(parents, parents[class_id], (limit - 1) as nat);
        chains_are_bounded(parents, parents[class_id], (limit - 1) as nat);
        if i > 1 {
            chains_follow_parents(parents, parents[class_id], (limit - 1) as nat, i - 1);
        }
    }
}

impl Classes {
    pub fn new() -> (classes: Self)
        ensures
            classes.vtables is Unset,
            classes.parents@ == Map::<u32, u32>::empty(),
            classes.prototype_methods@ == Map::<u32, NameTable<u64>>::empty(),
            classes.prototype_objects@ == Map::<u32, u64>::empty(),
            !classes.descriptors_in_use,
            classes.accessors@ == Map::<u64, NameTable<()>>::empty(),
            classes.read_only@ == Map::<u64, NameTable<()>>::empty(),
    {
        Classes {
            vtables: VtableRegistry::Unset,
            parents: HashMap::new(),
            prototype_methods: HashMap::new(),
            prototype_objects: HashMap::new(),
            descriptors_in_use: false,
            accessors: HashMap::new(),
            read_only: HashMap::new(),
        }
    }

    /// The class and its ancestors, as far as they are looked at.
    pub open spec fn ancestry(&self, class_id: u32) -> Seq<u32> {
        chain(self.parents@, class_id, MAX_CLASS_CHAIN as nat)
    }

    /// The prototype object of a class; zero for none.
    pub open spec fn prototype(&self, class_id: u32) -> u64 {
        if self.prototype_objects@.contains_key(class_id) {
            self.prototype_objects@[class_id]
        } else {
            0
        }
    }

    pub open spec fn is_accessor(&self, addr: u64, name: Seq<char>) -> bool {
        self.accessors@.contains_key(addr) && self.accessors@[addr]@.contains_key(name)
    }

    pub open spec fn is_read_only(&self, addr: u64, name: Seq<char>) -> bool {
        self.read_only@.contains_key(addr) && self.read_only@[addr]@.contains_key(name)
    }

    pub open spec fn has_method(&self, class_id: u32, name: Seq<char>) -> bool {
        match self.vtables {
            VtableRegistry::Ready(table) => table@.contains_key(class_id)
                && table@[class_id].methods@.contains_key(name),
            _ => false,
        }
    }

    pub open spec fn method(&self, class_id: u32, name: Seq<char>) -> u64 {
        self.vtables->Ready_0@[class_id].methods@[name]
    }

    pub open spec fn has_setter(&self, class_id: u32, name: Seq<char>) -> bool {
        match self.vtables {
            VtableRegistry::Ready(table) => table@.contains_key(class_id)
                && table@[class_id].setters@.contains_key(name),
            _ => false,
        }
    }

    pub open spec fn has_getter(&self, class_id: u32, name: Seq<char>) -> bool {
        match self.vtables {
            VtableRegistry::Ready(table) => table@.contains_key(class_id)
                && table@[class_id].getters@.contains_key(name),
            _ => false,
        }
    }

    /// Whether the method of that name is the given function: the class nearest
    /// to `class_id` that has such a method has this one.
    pub open spec fn method_resolves_to(&self, class_id: u32, name: Seq<char>, func: u64) -> bool {
        let ids = self.ancestry(class_id);
        &&& class_id != 0
        &&& func != 0
        &&& exists|i: int| #[trigger]
            self.first_with_method(ids, i, name) && self.method(ids[i], name) == func
    }

    pub open spec fn first_with_method(&self, ids: Seq<u32>, i: int, name: Seq<char>) -> bool {
        &&& 0 <= i < ids.len()
        &&& self.has_method(ids[i], name)
        &&& forall|j: int| 0 <= j < i ==> !self.has_method(#[trigger] ids[j], name)
    }

    /// Whether a prototype may stand in the way of a method: a method was put on
    /// it, or the prototype object of the class or of an ancestor has a key of
    /// that name.
    pub open spec fn prototype_overrides(
        &self,
        heap: &Heap,
        class_id: u32,
        name: Seq<char>,
        bytes: Seq<u8>,
    ) -> bool {
        &&& class_id != 0
        &&& {
            ||| self.prototype_methods@.contains_key(class_id)
                && self.prototype_methods@[class_id]@.contains_key(name)
            ||| exists|i: int|
                0 <= i < self.ancestry(class_id).len() && heap.has_own_key(
                    self.prototype(#[trigger] self.ancestry(class_id)[i]),
                    bytes,
                )
        }
    }

    /// Whether the class or an ancestor has a setter of that name. Where the
    /// table cannot be read it is taken to have one.
    pub open spec fn setter_in_chain(&self, class_id: u32, name: Seq<char>) -> bool {
        class_id != 0 && (self.vtables is Poisoned || exists|i: int|
            0 <= i < self.ancestry(class_id).len() && self.has_setter(
                #[trigger] self.ancestry(class_id)[i],
                name,
            ))
    }

    /// Whether the class or an ancestor has a getter of that name. Where the
    /// table cannot be read it is taken to have one.
    pub open spec fn getter_in_chain(&self, class_id: u32, name: Seq<char>) -> bool {
        class_id != 0 && (self.vtables is Poisoned || exists|i: int|
            0 <= i < self.ancestry(class_id).len() && self.has_getter(
                #[trigger] self.ancestry(class_id)[i],
                name,
            ))
    }

    /// Whether a descriptor keeps a field from being read directly: it is an
    /// accessor on the object, or on a prototype.
    pub open spec fn blocks_get(&self, addr: u64, class_id: u32, name: Seq<char>) -> bool {
        self.descriptors_in_use && {
            ||| self.is_accessor(addr, name)
            ||| exists|i: int|
                0 <= i < self.ancestry(class_id).len() && self.prototype_has_accessor(
                    #[trigger] self.ancestry(class_id)[i],
                    name,
                )
        }
    }

    pub open spec fn prototype_has_accessor(&self, class_id: u32, name: Seq<char>) -> bool {
        self.prototype(class_id) != 0 && self.is_accessor(self.prototype(class_id), name)
    }

    /// Whether a descriptor keeps a field from being written directly: it is an
    /// accessor or cannot be written, on the object or on a prototype.
    pub open spec fn blocks_set(&self, addr: u64, class_id: u32, name: Seq<char>) -> bool {
        self.descriptors_in_use && {
            ||| self.is_accessor(addr, name)
            ||| self.is_read_only(addr, name)
            ||| exists|i: int|
                0 <= i < self.ancestry(class_id).len() && self.prototype_hinders_writing(
                    #[trigger] self.ancestry(class_id)[i],
                    name,
                )
        }
    }

    pub open spec fn prototype_hinders_writing(&self, class_id: u32, name: Seq<char>) -> bool {
        let proto = self.prototype(class_id);
        proto != 0 && (self.is_accessor(proto, name) || self.is_read_only(proto, name))
    }

    pub fn class_chain(&self, class_id: u32) -> (ids: Vec<u32>)
        ensures
            ids@ == self.ancestry(class_id),
    {
        let mut ids: Vec<u32> = Vec::new();
        let mut cid: u32 = class_id;
        let mut left: usize = MAX_CLASS_CHAIN;
        assert(ids@ + chain(self.parents@, cid, left as nat) =~= self.ancestry(class_id));
        while left > 0
            invariant
                ids@ + chain(self.parents@, cid, left as nat) == self.ancestry(class_id),
            decreases left,
        {
            let ghost before = ids@;
            ids.push(cid);
            left = left - 1;
            match self.parents.get(&cid) {
                Some(parent) if *parent != 0 && *parent != cid => {
                    assert(before + (seq![cid] + chain(self.parents@, *parent, left as nat))
                        =~= ids@ + chain(self.parents@, *parent, left as nat));
                    cid = *parent;
                },
                _ => {
                    assert(before + seq![cid] =~= ids@);
                    return ids;
                },
            }
        }
        assert(ids@ + chain(self.parents@, cid, left as nat) =~= ids@);
        ids
    }

    pub fn class_prototype_object(&self, class_id: u32) -> (addr: u64)
        ensures
            addr == self.prototype(class_id),
    {
        match self.prototype_objects.get(&class_id) {
            Some(addr) => *addr,
            None => 0,
        }
    }

    pub fn get_accessor_descriptor(&self, addr: u64, name: &str) -> (found: bool)
        ensures
            found == self.is_accessor(addr, name@),
    {
        match self.accessors.get(&addr) {
            Some(names) => names.contains_key(name),
            None => false,
        }
    }

    pub fn has_unwritable_attrs(&self, addr: u64, name: &str) -> (found: bool)
        ensures
            found == self.is_read_only(addr, name@),
    {
        match self.read_only.get(&addr) {
            Some(names) => names.contains_key(name),
            None => false,
        }
    }

    fn find_method(&self, class_id: u32, name: &str) -> (func: Option<u64>)
        ensures
            func is Some <==> self.has_method(class_id, name@),
            func matches Some(f) ==> f == self.method(class_id, name@),
    {
        match &self.vtables {
            VtableRegistry::Ready(table) => match table.get(&class_id) {
                Some(vtable) => match vtable.methods.get(name) {
                    Some(func) => Some(*func),
                    None => None,
                },
                None => None,
            },
            _ => None,
        }
    }

    pub fn vtable_method_matches(&self, class_id: u32, method_name: &str, expected_func_ptr: u64)
        -> (matches: bool)
        ensures
            matches == self.method_resolves_to(class_id, method_name@, expected_func_ptr),
    {
        if class_id == 0 || expected_func_ptr == 0 {
            return false;
        }
        let ids = self.class_chain(class_id);
        let mut i: usize = 0;
        while i < ids.len()
            invariant
                i <= ids@.len(),
                ids@ == self.ancestry(class_id),
                class_id != 0,
                expected_func_ptr != 0,
                forall|j: int| 0 <= j < i ==> !self.has_method(#[trigger] ids@[j], method_name@),
            decreases ids@.len() - i,
        {
            if let Some(func) = self.find_method(ids[i], method_name) {
                proof {
                    assert(self.first_with_method(ids@, i as int, method_name@));
                    assert forall|k: int| #[trigger]
                        self.first_with_method(ids@, k, method_name@) implies k == i by {
                        if k > i {
                            assert(!self.has_method(ids@[i as int], method_name@));
                        }
                    }
                }
                return func == expected_func_ptr;
            }
            i = i + 1;
        }
        false
    }

    pub fn prototype_may_override_method(
        &self,
        heap: &Heap,
        class_id: u32,
        method_name: &str,
        method_bytes: &[u8],
    ) -> (may: bool)
        ensures
            may == self.prototype_overrides(heap, class_id, method_name@, method_bytes@),
    {
        if class_id == 0 {
            return false;
        }
        if let Some(names) = self.prototype_methods.get(&class_id) {
            if names.contains_key(method_name) {
                return true;
            }
        }
        let ids = self.class_chain(class_id);
        let mut i: usize = 0;
        while i < ids.len()
            invariant
                i <= ids@.len(),
                ids@ == self.ancestry(class_id),
                class_id != 0,
                forall|j: int|
                    0 <= j < i ==> !heap.has_own_key(
                        self.prototype(#[trigger] ids@[j]),
                        method_bytes@,
                    ),
            decreases ids@.len() - i,
        {
            let proto: u64 = self.class_prototype_object(ids[i]);
            if heap.object_has_own_key_bytes(proto, method_bytes) {
                assert(self.ancestry(class_id)[i as int] == ids@[i as int]);
                return true;
            }
            i = i + 1;
        }
        false
    }

    pub fn class_setter_in_chain(&self, class_id: u32, key_name: &str) -> (found: bool)
        ensures
            found == self.setter_in_chain(class_id, key_name@),
    {
        if class_id == 0 {
            return false;
        }
        match &self.vtables {
            VtableRegistry::Poisoned => true,
            VtableRegistry::Unset => false,
            VtableRegistry::Ready(table) => {
                let ids = self.class_chain(class_id);
                let mut i: usize = 0;
                while i < ids.len()
                    invariant
                        i <= ids@.len(),
                        ids@ == self.ancestry(class_id),
                        class_id != 0,
                        self.vtables == VtableRegistry::Ready(*table),
                        forall|j: int|
                            0 <= j < i ==> !self.has_setter(#[trigger] ids@[j], key_name@),
                    decreases ids@.len() - i,
                {
                    if let Some(vtable) = table.get(&ids[i]) {
                        if vtable.setters.contains_key(key_name) {
                            assert(self.has_setter(self.ancestry(class_id)[i as int], key_name@));
                            return true;
                        }
                    }
                    i = i + 1;
                }
                false
            },
        }
    }

    pub fn class_getter_in_chain(&self, class_id: u32, key_name: &str) -> (found: bool)
        ensures
            found == self.getter_in_chain(class_id, key_name@),
    {
        if class_id == 0 {
            return false;
        }
        match &self.vtables {
            VtableRegistry::Poisoned => true,
            VtableRegistry::Unset => false,
            VtableRegistry::Ready(table) => {
                let ids = self.class_chain(class_id);
                let mut i: usize = 0;
                while i < ids.len()
                    invariant
                        i <= ids@.len(),
                        ids@ == self.ancestry(class_id),
                        class_id != 0,
                        self.vtables == VtableRegistry::Ready(*table),
                        forall|j: int|
                            0 <= j < i ==> !self.has_getter(#[trigger] ids@[j], key_name@),
                    decreases ids@.len() - i,
                {
                    if let Some(vtable) = table.get(&ids[i]) {
                        if vtable.getters.contains_key(key_name) {
                            assert(self.has_getter(self.ancestry(class_id)[i as int], key_name@));
                            return true;
                        }
                    }
                    i = i + 1;
                }
                false
            },
        }
    }

    pub fn descriptor_blocks_class_field_get(&self, obj_addr: u64, class_id: u32, key_name: &str)
        -> (blocks: bool)
        ensures
            blocks == self.blocks_get(obj_addr, class_id, key_name@),
    {
        if !self.descriptors_in_use {
            return false;
        }
        if self.get_accessor_descriptor(obj_addr, key_name) {
            return true;
        }
        let ids = self.class_chain(class_id);
        let mut i: usize = 0;
        while i < ids.len()
            invariant
                i <= ids@.len(),
                ids@ == self.ancestry(class_id),
                self.descriptors_in_use,
                forall|j: int|
                    0 <= j < i ==> !self.prototype_has_accessor(#[trigger] ids@[j], key_name@),
            decreases ids@.len() - i,
        {
            let proto: u64 = self.class_prototype_object(ids[i]);
            if proto != 0 && self.get_accessor_descriptor(proto, key_name) {
                assert(self.prototype_has_accessor(self.ancestry(class_id)[i as int], key_name@));
                return true;
            }
            i = i + 1;
        }
        false
    }

    pub fn descriptor_blocks_class_field_set(&self, obj_addr: u64, class_id: u32, key_name: &str)
        -> (blocks: bool)
        ensures
            blocks == self.blocks_set(obj_addr, class_id, key_name@),
    {
        if !self.descriptors_in_use {
            return false;
        }
        if self.get_accessor_descriptor(obj_addr, key_name) || self.has_unwritable_attrs(
            obj_addr,
            key_name,
        ) {
            return true;
        }
        let ids = self.class_chain(class_id);
        let mut i: usize = 0;
        while i < ids.len()
            invariant
                i <= ids@.len(),
                ids@ == self.ancestry(class_id),
                self.descriptors_in_use,
                forall|j: int|
                    0 <= j < i ==> !self.prototype_hinders_writing(#[trigger] ids@[j], key_name@),
            decreases ids@.len() - i,
        {
            let proto: u64 = self.class_prototype_object(ids[i]);
            if proto != 0 && (self.get_accessor_descriptor(proto, key_name)
                || self.has_unwritable_attrs(proto, key_name)) {
                assert(self.prototype_hinders_writing(
                    self.ancestry(class_id)[i as int],
                    key_name@,
                ));
                return true;
            }
            i = i + 1;
        }
        false
    }
}

/// Whatever keeps a field from being read directly keeps it from being written
/// directly as well.
pub proof fn what_blocks_reading_blocks_writing(
    classes: &Classes,
    addr: u64,
    class_id: u32,
    name: Seq<char>,
)
    requires
        classes.blocks_get(addr, class_id, name),
    ensures
        classes.blocks_set(addr, class_id, name),
{
    if !classes.is_accessor(addr, name) {
        let i = choose|i: int|
            0 <= i < classes.ancestry(class_id).len() && classes.prototype_has_accessor(
                #[trigger] classes.ancestry(class_id)[i],
                name,
            );
        assert(classes.prototype_hinders_writing(classes.ancestry(class_id)[i], name));
    }
}

/// A method resolves to at most one function.
pub proof fn methods_resolve_uniquely(
    classes: &Classes,
    class_id: u32,
    name: Seq<char>,
    f: u64,
    g: u64,
)
    requires
        classes.method_resolves_to(class_id, name, f),
        classes.method_resolves_to(class_id, name, g),
    ensures
        f == g,
{
    let ids = classes.ancestry(class_id);
    let i = choose|i: int| #[trigger]
        classes.first_with_method(ids, i, name) && classes.method(ids[i], name) == f;
    let j = choose|j: int| #[trigger]
        classes.first_with_method(ids, j, name) && classes.method(ids[j], name) == g;
    if i < j {
        assert(!classes.has_method(ids[i], name));
    } else if j < i {
        assert(!classes.has_method(ids[j], name));
    }
}

} // verus!
