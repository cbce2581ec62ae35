//! The allocator: the owner of every composite value.
//!
//! A composite value lives in the allocator from its creation until the
//! allocator is dropped; values refer to it by handle. Handles can be copied
//! freely, and a change made through one handle is seen through every other.
//! Nothing is collected: objects that refer to each other in a cycle stay
//! until the allocator goes.
use vstd::prelude::*;
use crate::ama_value::{values_of, AmaValue, Ref, Value};
use crate::registo::{RegObj, RegObjView};

verus! {

/// A composite value.
pub enum HeapObj {
    Vector(Vec<AmaValue>),
    RegObj(RegObj),
}

/// The mathematical model of a composite value.
pub enum Obj {
    Vector(Seq<Value>),
    RegObj(RegObjView),
}

impl View for HeapObj {
    type V = Obj;

    open spec fn view(&self) -> Obj {
        match self {
            HeapObj::Vector(items) => Obj::Vector(values_of(items@)),
            HeapObj::RegObj(obj) => Obj::RegObj(obj@),
        }
    }
}

/// The models of a sequence of composite values.
pub open spec fn objects_of(s: Seq<HeapObj>) -> Seq<Obj> {
    Seq::new(s.len(), |i: int| s[i]@)
}

/// The items of the vector behind a handle, if the handle refers to a
/// vector.
pub open spec fn heap_vector(heap: Seq<Obj>, r: Ref) -> Option<Seq<Value>> {
    if r.0 < heap.len() {
        match heap[r.0 as int] {
            Obj::Vector(items) => Some(items),
            _ => None,
        }
    } else {
        None
    }
}

/// The record instance behind a handle, if the handle refers to one.
pub open spec fn heap_regobj(heap: Seq<Obj>, r: Ref) -> Option<RegObjView> {
    if r.0 < heap.len() {
        match heap[r.0 as int] {
            Obj::RegObj(obj) => Some(obj),
            _ => None,
        }
    } else {
        None
    }
}

/// The allocator. Its model is the sequence of the objects that it owns; a
/// handle is a position in that sequence.
pub struct Alloc {
    objects: Vec<HeapObj>,
}

impl View for Alloc {
    type V = Seq<Obj>;

    closed spec fn view(&self) -> Seq<Obj> {
        objects_of(self.objects@)
    }
}

impl Ref {
    /// The object behind the handle.
    pub fn inner<'a>(&self, alloc: &'a Alloc) -> (r: &'a HeapObj)
        requires
            self.0 < alloc@.len(),
        ensures
            r@ == alloc@[self.0 as int],
    {
        &alloc.objects[self.0]
    }

    /// The object behind the handle, for writing. The other objects stay as
    /// they are.
    pub fn inner_mut<'a>(&self, alloc: &'a mut Alloc) -> (r: &'a mut HeapObj)
        requires
            self.0 < old(alloc)@.len(),
        ensures
            r@ == old(alloc)@[self.0 as int],
            final(alloc)@ == old(alloc)@.update(self.0 as int, final(r)@),
    {
        let i: usize = self.0;
        let r = &mut alloc.objects[i];
        proof {
            assert(objects_of(old(alloc).objects@.update(i as int, *final(r))) =~= objects_of(
                old(alloc).objects@,
            ).update(i as int, final(r)@));
        }
        r
    }
}

impl Alloc {
    /// A handle can name every object that the allocator owns.
    pub proof fn lemma_len_bounded(&self)
        ensures
            self@.len() <= usize::MAX,
    {
        vstd::std_specs::vec::axiom_spec_len(&self.objects);
    }

    /// An allocator that owns nothing.
    pub fn new() -> (r: Alloc)
        ensures
            r@ == Seq::<Obj>::empty(),
    {
        let r = Alloc { objects: Vec::new() };
        assert(r@ =~= Seq::<Obj>::empty());
        r
    }

    /// Takes ownership of a composite value and hands out its handle, the
    /// position after the last object.
    pub fn alloc_ref(&mut self, value: HeapObj) -> (r: Ref)
        ensures
            r == Ref(old(self)@.len() as usize),
            final(self)@ == old(self)@.push(value@),
    {
        let r = Ref(self.objects.len());
        self.objects.push(value);
        assert(self@ =~= old(self)@.push(value@));
        r
    }

    /// The canonical null value.
    pub fn null_ref(&self) -> (r: AmaValue)
        ensures
            r@ == Value::Nulo,
    {
        AmaValue::Nulo
    }

    /// The number of objects that the allocator owns.
    pub fn len(&self) -> (n: usize)
        ensures
            n == self@.len(),
    {
        self.objects.len()
    }

    /// The vector behind a handle, if the handle refers to a vector.
    pub fn vector<'a>(&'a self, r: Ref) -> (v: Option<&'a Vec<AmaValue>>)
        ensures
            match v {
                Some(items) => heap_vector(self@, r) == Some(values_of(items@)),
                None => heap_vector(self@, r) is None,
            },
    {
        if r.0 < self.objects.len() {
            match &self.objects[r.0] {
                HeapObj::Vector(items) => Some(items),
                _ => None,
            }
        } else {
            None
        }
    }

    /// The record instance behind a handle, if the handle refers to one.
    pub fn regobj<'a>(&'a self, r: Ref) -> (v: Option<&'a RegObj>)
        ensures
            match v {
                Some(obj) => heap_regobj(self@, r) == Some(obj@),
                None => heap_regobj(self@, r) is None,
            },
    {
        if r.0 < self.objects.len() {
            match &self.objects[r.0] {
                HeapObj::RegObj(obj) => Some(obj),
                _ => None,
            }
        } else {
            None
        }
    }

    /// Writes an item of the vector behind a handle.
    pub fn vec_set(&mut self, r: Ref, idx: usize, value: AmaValue)
        requires
            heap_vector(old(self)@, r) is Some,
            idx < heap_vector(old(self)@, r)->0.len(),
        ensures
            final(self)@ == old(self)@.update(
                r.0 as int,
                Obj::Vector(heap_vector(old(self)@, r)->0.update(idx as int, value@)),
            ),
    {
        let obj = r.inner_mut(self);
        match obj {
            HeapObj::Vector(items) => {
                items[idx] = value;
                assert(values_of(items@) =~= heap_vector(old(self)@, r)->0.update(
                    idx as int,
                    value@,
                ));
            },
            _ => {},
        }
    }

    /// Appends an item to the vector behind a handle.
    pub fn vec_push(&mut self, r: Ref, value: AmaValue)
        requires
            heap_vector(old(self)@, r) is Some,
        ensures
            final(self)@ == old(self)@.update(
                r.0 as int,
                Obj::Vector(heap_vector(old(self)@, r)->0.push(value@)),
            ),
    {
        let obj = r.inner_mut(self);
        match obj {
            HeapObj::Vector(items) => {
                items.push(value);
                assert(values_of(items@) =~= heap_vector(old(self)@, r)->0.push(value@));
            },
            _ => {},
        }
    }

    /// Removes an item from the vector behind a handle and returns it. The
    /// items after it move one place down.
    pub fn vec_remove(&mut self, r: Ref, idx: usize) -> (removed: AmaValue)
        requires
            heap_vector(old(self)@, r) is Some,
            idx < heap_vector(old(self)@, r)->0.len(),
        ensures
            removed@ == heap_vector(old(self)@, r)->0[idx as int],
            final(self)@ == old(self)@.update(
                r.0 as int,
                Obj::Vector(heap_vector(old(self)@, r)->0.remove(idx as int)),
            ),
    {
        let obj = r.inner_mut(self);
        match obj {
            HeapObj::Vector(items) => {
                let removed = items.remove(idx);
                assert(values_of(items@) =~= heap_vector(old(self)@, r)->0.remove(idx as int));
                removed
            },
            _ => AmaValue::Nulo,
        }
    }

    /// Sets a field of the record instance behind a handle.
    pub fn obj_set(&mut self, r: Ref, field: String, value: AmaValue)
        requires
            heap_regobj(old(self)@, r) is Some,
        ensures
            final(self)@ == old(self)@.update(
                r.0 as int,
                Obj::RegObj(
                    RegObjView {
                        registo: heap_regobj(old(self)@, r)->0.registo,
                        state: heap_regobj(old(self)@, r)->0.state.insert(field@, value@),
                    },
                ),
            ),
    {
        let obj = r.inner_mut(self);
        match obj {
            HeapObj::RegObj(inst) => {
                inst.set(field, value);
            },
            _ => {},
        }
    }
}

} // verus!
