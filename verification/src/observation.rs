//! What one pass over a dynamic boundary was seen to touch.

use vstd::prelude::*;

use crate::heap::GC_TYPE_OBJECT;

verus! {

/// The kind of boundary that an observation was made at.
#[derive(Clone, Copy, Debug, PartialEq, Eq, Structural)]
pub enum ObservationSource {
    Property,
    Method,
    Closure,
    Array,
    NumericWrite,
    HelperReturn,
}

/// The facts recorded at a boundary. Addresses are those of heap cells; zero
/// stands for no cell.
#[derive(Clone, Copy, Debug, PartialEq, Eq, Structural)]
pub struct Observation {
    pub source: ObservationSource,
    pub object_addr: u64,
    pub shape_addr: u64,
    pub key_hash: u64,
    pub class_id: u32,
    pub heap_type: u16,
    pub aux: u64,
    pub value_tag: u16,
}

/// An unknown class stands for every class.
pub open spec fn classes_meet(asked: u32, seen: u32) -> bool {
    asked == 0 || seen == 0 || seen == asked
}

impl Observation {
    /// The part of the observation that tells it from others of its site; the
    /// rest is zeroed. Which object was seen is never part of it.
    pub open spec fn key(self) -> Observation {
        match self.source {
            ObservationSource::Property | ObservationSource::Method => Observation {
                object_addr: 0,
                aux: 0,
                ..self
            },
            ObservationSource::NumericWrite
            | ObservationSource::Array
            | ObservationSource::HelperReturn => Observation {
                object_addr: 0,
                key_hash: 0,
                ..self
            },
            ObservationSource::Closure => Observation {
                object_addr: 0,
                shape_addr: 0,
                key_hash: 0,
                class_id: 0,
                ..self
            },
        }
    }

    /// Whether the observation speaks of the shape of an object.
    pub open spec fn shape_keyed(self) -> bool {
        ||| self.source == ObservationSource::Property
        ||| self.source == ObservationSource::Method
        ||| self.source == ObservationSource::NumericWrite
        ||| self.source == ObservationSource::HelperReturn && self.heap_type == GC_TYPE_OBJECT
    }

    /// Whether a change from `old_shape` to `new_shape` of an object of class
    /// `class_id` touches what was seen here. A change from no shape at all
    /// touches the observations without a shape whose class may be the same.
    pub open spec fn touched_by_shape_change(
        self,
        old_shape: u64,
        new_shape: u64,
        class_id: u32,
    ) -> bool {
        self.shape_keyed() && {
            ||| old_shape != 0 && self.shape_addr == old_shape
            ||| new_shape != 0 && self.shape_addr == new_shape
            ||| old_shape == 0 && self.shape_addr == 0 && classes_meet(class_id, self.class_id)
        }
    }

    /// Whether a change in how the object at `obj_addr` stores its values
    /// touches what was seen here.
    pub open spec fn touched_by_representation_change(
        self,
        obj_addr: u64,
        shape_addr: u64,
        class_id: u32,
        heap_type: u16,
    ) -> bool {
        if self.object_addr == obj_addr {
            true
        } else if self.source == ObservationSource::Array {
            heap_type != 0 && self.heap_type == heap_type && classes_meet(class_id, self.class_id)
        } else if !self.shape_keyed() {
            false
        } else if shape_addr != 0 {
            self.shape_addr == shape_addr
        } else {
            &&& self.shape_addr == 0
            &&& classes_meet(class_id, self.class_id)
            &&& heap_type == 0 || self.heap_type == 0 || self.heap_type == heap_type
        }
    }

    /// Whether the collector has to keep the shape alive for this observation.
    pub open spec fn keeps_shape(self) -> bool {
        self.shape_keyed() && self.shape_addr != 0
    }

    pub fn same_feedback_key(&self, other: &Self) -> (same: bool)
        ensures
            same == (self.key() == other.key()),
    {
        if self.source != other.source {
            return false;
        }
        match self.source {
            ObservationSource::Property | ObservationSource::Method => {
                self.shape_addr == other.shape_addr && self.key_hash == other.key_hash
                    && self.class_id == other.class_id && self.heap_type == other.heap_type
                    && self.value_tag == other.value_tag
            },
            ObservationSource::Closure => {
                self.aux == other.aux && self.heap_type == other.heap_type && self.value_tag
                    == other.value_tag
            },
            ObservationSource::NumericWrite
            | ObservationSource::Array
            | ObservationSource::HelperReturn => {
                self.shape_addr == other.shape_addr && self.class_id == other.class_id
                    && self.heap_type == other.heap_type && self.aux == other.aux
                    && self.value_tag == other.value_tag
            },
        }
    }

    pub fn is_shape_keyed(&self) -> (keyed: bool)
        ensures
            keyed == self.shape_keyed(),
    {
        match self.source {
            ObservationSource::Property
            | ObservationSource::Method
            | ObservationSource::NumericWrite => true,
            ObservationSource::HelperReturn => self.heap_type == GC_TYPE_OBJECT,
            _ => false,
        }
    }

    /// No observation keeps the object alive that it was made on.
    pub fn roots_object_addr(&self) -> (roots: bool)
        ensures
            !roots,
    {
        false
    }

    pub fn roots_shape_addr(&self) -> (roots: bool)
        ensures
            roots == self.keeps_shape(),
    {
        self.is_shape_keyed() && self.shape_addr != 0
    }

    pub fn affected_by_shape_change(&self, old_shape: u64, new_shape: u64, class_id: u32) -> (hit:
        bool)
        ensures
            hit == self.touched_by_shape_change(old_shape, new_shape, class_id),
    {
        if !self.is_shape_keyed() {
            return false;
        }
        (old_shape != 0 && self.shape_addr == old_shape) || (new_shape != 0 && self.shape_addr
            == new_shape) || (old_shape == 0 && self.shape_addr == 0 && (class_id == 0
            || self.class_id == 0 || self.class_id == class_id))
    }

    pub fn affected_by_representation_change(
        &self,
        obj_addr: u64,
        shape_addr: u64,
        class_id: u32,
        heap_type: u16,
    ) -> (hit: bool)
        ensures
            hit == self.touched_by_representation_change(
                obj_addr,
                shape_addr,
                class_id,
                heap_type,
            ),
    {
        if self.object_addr == obj_addr {
            return true;
        }
        if self.source == ObservationSource::Array {
            return heap_type != 0 && self.heap_type == heap_type && (class_id == 0
                || self.class_id == 0 || self.class_id == class_id);
        }
        if !self.is_shape_keyed() {
            return false;
        }
        if shape_addr != 0 {
            return self.shape_addr == shape_addr;
        }
        self.shape_addr == 0 && (class_id == 0 || self.class_id == 0 || self.class_id == class_id)
            && (heap_type == 0 || self.heap_type == 0 || self.heap_type == heap_type)
    }
}

pub open spec fn named_object_addr(source: ObservationSource, object_addr: u64) -> u64 {
    match source {
        ObservationSource::Property
        | ObservationSource::Method
        | ObservationSource::NumericWrite => 0,
        _ => object_addr,
    }
}

/// The object address that an observation from `source` records: none where the
/// shape already says what was seen.
pub fn shape_keyed_object_addr(source: ObservationSource, object_addr: u64) -> (addr: u64)
    ensures
        addr == named_object_addr(source, object_addr),
{
    match source {
        ObservationSource::Property
        | ObservationSource::Method
        | ObservationSource::NumericWrite => 0,
        _ => object_addr,
    }
}

/// Which object was seen does not distinguish two observations.
pub proof fn receiver_identity_is_ignored(o: Observation, object_addr: u64)
    ensures
        (Observation { object_addr, ..o }).key() == o.key(),
{
}

/// Two observations from different kinds of boundary are always told apart, and
/// taking the key twice changes nothing.
pub proof fn keys_hold_their_source(a: Observation, b: Observation)
    ensures
        a.source != b.source ==> a.key() != b.key(),
        a.key().key() == a.key(),
{
}

/// A change of shape that touches one observation touches every observation
/// with the same key, closures aside, of which it touches none.
pub proof fn shape_changes_respect_keys(
    a: Observation,
    b: Observation,
    old_shape: u64,
    new_shape: u64,
    class_id: u32,
)
    requires
        a.key() == b.key(),
    ensures
        a.touched_by_shape_change(old_shape, new_shape, class_id) == b.touched_by_shape_change(
            old_shape,
            new_shape,
            class_id,
        ),
{
}

} // verus!
