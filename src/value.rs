//! Values of the language and the heap that holds its compound data.
//!
//! Immediate data (nil, t, integers, symbols, primitives) are held in place.  Compound data
//! live in a [`Heap`] of immutable objects and are referred to by index, so two references
//! are identical (`eq`) exactly when they name the same heap slot.  A cons can only be read as a
//! list or compared through references to older objects, so every walk is finite.
use vstd::prelude::*;

verus! {

#[derive(Clone, Copy, Debug, PartialEq, Eq, Structural)]
pub enum Value {
    Nil,
    T,
    Int(i64),
    /// A symbol, by its index in the machine's symbol table.
    Symbol(u32),
    /// A primitive procedure, served by the host.
    Subr(u32),
    /// A compound datum, by its index in the heap.
    Obj(usize),
}

/// A procedure in compiled form.
#[derive(Debug)]
pub struct Procedure {
    pub code: Vec<u8>,
    pub constants: Vec<Value>,
    pub max_depth: usize,
    /// The packed argument template, or `None` for the unchecked calling convention.
    pub template: Option<u64>,
}

#[derive(Debug)]
pub enum Object {
    Cons(Value, Value),
    Str(Vec<u8>),
    /// A jump table for `switch`: pairs of key and target offset, whose keys compare by
    /// structure (`equal`) where `structural` holds and by identity (`eq`) otherwise.
    Table { structural: bool, entries: Vec<(Value, Value)> },
    Code(Procedure),
}

#[derive(Debug)]
pub struct Heap {
    pub objs: Vec<Object>,
}

pub open spec fn bool_value(b: bool) -> Value {
    if b {
        Value::T
    } else {
        Value::Nil
    }
}

/// One more than the heap index of a compound datum, zero for an immediate one.
pub open spec fn rank(v: Value) -> nat {
    match v {
        Value::Obj(i) => i as nat + 1,
        _ => 0,
    }
}

pub open spec fn object_at(objs: Seq<Object>, v: Value) -> Option<Object> {
    match v {
        Value::Obj(i) => if i < objs.len() {
            Some(objs[i as int])
        } else {
            None
        },
        _ => None,
    }
}

pub open spec fn consp_spec(objs: Seq<Object>, v: Value) -> bool {
    match object_at(objs, v) {
        Some(Object::Cons(_, _)) => true,
        _ => false,
    }
}

pub open spec fn stringp_spec(objs: Seq<Object>, v: Value) -> bool {
    match object_at(objs, v) {
        Some(Object::Str(_)) => true,
        _ => false,
    }
}

pub open spec fn listp_spec(objs: Seq<Object>, v: Value) -> bool {
    v == Value::Nil || consp_spec(objs, v)
}

pub open spec fn symbolp_spec(v: Value) -> bool {
    v is Nil || v is T || v is Symbol
}

/// Structural equality: conses with equal cars and cdrs, strings with the same bytes, and
/// otherwise identity.
pub open spec fn equal_spec(objs: Seq<Object>, a: Value, b: Value) -> bool
    decreases rank(a) + rank(b),
{
    if a == b {
        true
    } else {
        match (object_at(objs, a), object_at(objs, b)) {
            (Some(Object::Cons(a1, d1)), Some(Object::Cons(a2, d2))) => {
                &&& rank(a1) < rank(a) && rank(d1) < rank(a)
                &&& rank(a2) < rank(b) && rank(d2) < rank(b)
                &&& equal_spec(objs, a1, a2)
                &&& equal_spec(objs, d1, d2)
            },
            (Some(Object::Str(s1)), Some(Object::Str(s2))) => s1@ == s2@,
            _ => false,
        }
    }
}

/// The items of a proper list, or `None` where `v` is not one.
pub open spec fn list_items(objs: Seq<Object>, v: Value) -> Option<Seq<Value>>
    decreases rank(v),
{
    if v == Value::Nil {
        Some(Seq::empty())
    } else {
        match object_at(objs, v) {
            Some(Object::Cons(a, d)) => if rank(d) < rank(v) {
                match list_items(objs, d) {
                    Some(s) => Some(seq![a] + s),
                    None => None,
                }
            } else {
                None
            },
            _ => None,
        }
    }
}

/// The heap and the list that allocating a cons for each item, last item first, onto
/// `acc` gives.
pub open spec fn build_list_spec(objs: Seq<Object>, items: Seq<Value>, acc: Value) -> (Seq<
    Object,
>, Value)
    decreases items.len(),
{
    if items.len() == 0 {
        (objs, acc)
    } else {
        build_list_spec(
            objs.push(Object::Cons(items.last(), acc)),
            items.drop_last(),
            Value::Obj(objs.len() as usize),
        )
    }
}

/// A list read from a heap is read the same from any extension of it.
pub proof fn lemma_list_items_extend(objs: Seq<Object>, more: Seq<Object>, v: Value)
    requires
        rank(v) <= objs.len(),
        objs.is_prefix_of(more),
    ensures
        list_items(objs, v) == list_items(more, v),
    decreases rank(v),
{
    if v != Value::Nil {
        if let Value::Obj(i) = v {
            assert(objs[i as int] == more[i as int]);
            if let Object::Cons(a, d) = objs[i as int] {
                if rank(d) < rank(v) {
                    lemma_list_items_extend(objs, more, d);
                }
            }
        }
    }
}

/// Building a list onto the list `acc` allocates one cons per item and gives the items,
/// in order, followed by those of `acc`; the old heap stays a prefix of the new one.
pub proof fn lemma_build_list(objs: Seq<Object>, items: Seq<Value>, acc: Value, tail: Seq<Value>)
    requires
        list_items(objs, acc) == Some(tail),
        rank(acc) <= objs.len(),
        objs.len() + items.len() <= usize::MAX,
    ensures
        list_items(build_list_spec(objs, items, acc).0, build_list_spec(objs, items, acc).1)
            == Some(items + tail),
        objs.is_prefix_of(build_list_spec(objs, items, acc).0),
        build_list_spec(objs, items, acc).0.len() == objs.len() + items.len(),
    decreases items.len(),
{
    if items.len() == 0 {
        assert(items + tail =~= tail);
        assert(objs.is_prefix_of(objs));
    } else {
        let x = items.last();
        let more = objs.push(Object::Cons(x, acc));
        let cell = Value::Obj(objs.len() as usize);
        lemma_list_items_extend(objs, more, acc);
        assert(more[objs.len() as int] == Object::Cons(x, acc));
        assert(list_items(more, cell) == Some(seq![x] + tail));
        lemma_build_list(more, items.drop_last(), cell, seq![x] + tail);
        assert(items.drop_last() + (seq![x] + tail) =~= items + tail);
        let done = build_list_spec(more, items.drop_last(), cell).0;
        assert(objs.is_prefix_of(done)) by {
            assert forall|i: int| 0 <= i < objs.len() implies objs[i] == done[i] by {
                assert(more[i] == objs[i]);
            }
        }
    }
}

impl Value {
    pub fn is_nil(&self) -> (r: bool)
        ensures
            r == (*self == Value::Nil),
    {
        match self {
            Value::Nil => true,
            _ => false,
        }
    }

    pub fn from_bool(b: bool) -> (r: Value)
        ensures
            r == bool_value(b),
    {
        if b {
            Value::T
        } else {
            Value::Nil
        }
    }
}

impl Heap {
    pub fn new() -> (h: Heap)
        ensures
            h.objs@ == Seq::<Object>::empty(),
    {
        Heap { objs: Vec::new() }
    }

    /// Adds an object and returns a reference to it.
    pub fn allocate(&mut self, o: Object) -> (r: Value)
        requires
            old(self).objs@.len() < usize::MAX,
        ensures
            final(self).objs@ == old(self).objs@.push(o),
            r == Value::Obj(old(self).objs@.len() as usize),
    {
        let i = self.objs.len();
        self.objs.push(o);
        Value::Obj(i)
    }

    /// The heap object that `v` refers to, if any.
    pub fn get(&self, v: Value) -> (r: Option<&Object>)
        ensures
            match r {
                Some(o) => object_at(self.objs@, v) == Some(*o),
                None => object_at(self.objs@, v) is None,
            },
    {
        match v {
            Value::Obj(i) => if i < self.objs.len() {
                Some(&self.objs[i])
            } else {
                None
            },
            _ => None,
        }
    }

    pub fn consp(&self, v: Value) -> (r: bool)
        ensures
            r == consp_spec(self.objs@, v),
    {
        match self.get(v) {
            Some(Object::Cons(_, _)) => true,
            _ => false,
        }
    }

    pub fn stringp(&self, v: Value) -> (r: bool)
        ensures
            r == stringp_spec(self.objs@, v),
    {
        match self.get(v) {
            Some(Object::Str(_)) => true,
            _ => false,
        }
    }

    pub fn listp(&self, v: Value) -> (r: bool)
        ensures
            r == listp_spec(self.objs@, v),
    {
        v.is_nil() || self.consp(v)
    }

    /// Structural equality of two values.
    pub fn equal(&self, a: Value, b: Value) -> (r: bool)
        ensures
            r == equal_spec(self.objs@, a, b),
        decreases rank(a) + rank(b),
    {
        if a == b {
            return true;
        }
        match (self.get(a), self.get(b)) {
            (Some(Object::Cons(a1, d1)), Some(Object::Cons(a2, d2))) => {
                let (a1, d1, a2, d2) = (*a1, *d1, *a2, *d2);
                let ra = match a {
                    Value::Obj(i) => i,
                    _ => 0,
                };
                let rb = match b {
                    Value::Obj(j) => j,
                    _ => 0,
                };
                if !(below(a1, ra) && below(d1, ra) && below(a2, rb) && below(d2, rb)) {
                    return false;
                }
                self.equal(a1, a2) && self.equal(d1, d2)
            },
            (Some(Object::Str(s1)), Some(Object::Str(s2))) => bytes_equal(s1, s2),
            _ => false,
        }
    }

    /// Builds a proper list of `items`, in order.
    pub fn make_list(&mut self, items: &[Value]) -> (r: Value)
        requires
            old(self).objs@.len() + items@.len() < usize::MAX,
        ensures
            old(self).objs@.is_prefix_of(final(self).objs@),
            final(self).objs@.len() == old(self).objs@.len() + items@.len(),
            list_items(final(self).objs@, r) == Some(items@),
            rank(r) <= final(self).objs@.len(),
            (final(self).objs@, r) == build_list_spec(old(self).objs@, items@, Value::Nil),
    {
        let ghost start = self.objs@;
        let mut acc = Value::Nil;
        let mut i: usize = items.len();
        assert(items@.subrange(0, i as int) =~= items@);
        while i > 0
            invariant
                i <= items@.len(),
                start.is_prefix_of(self.objs@),
                self.objs@.len() == start.len() + (items@.len() - i),
                start.len() + items@.len() < usize::MAX,
                list_items(self.objs@, acc) == Some(items@.subrange(i as int, items@.len() as int)),
                rank(acc) <= self.objs@.len(),
                build_list_spec(self.objs@, items@.subrange(0, i as int), acc) == build_list_spec(
                    start,
                    items@,
                    Value::Nil,
                ),
            decreases i,
        {
            i = i - 1;
            let ghost before = self.objs@;
            let ghost before_acc = acc;
            let x = items[i];
            let cell = self.allocate(Object::Cons(x, acc));
            proof {
                lemma_list_items_extend(before, self.objs@, acc);
                assert(self.objs@[before.len() as int] == Object::Cons(x, acc));
                assert(items@.subrange(i as int, items@.len() as int) =~= seq![x]
                    + items@.subrange(i + 1, items@.len() as int));
                assert(items@.subrange(0, i + 1).drop_last() =~= items@.subrange(0, i as int));
                assert(items@.subrange(0, i + 1).last() == x);
            }
            acc = cell;
        }
        assert(items@.subrange(0, items@.len() as int) =~= items@);
        assert(items@.subrange(0, 0) =~= Seq::<Value>::empty());
        acc
    }
}

fn below(v: Value, i: usize) -> (r: bool)
    ensures
        r == (rank(v) <= i),
{
    match v {
        Value::Obj(j) => j < i,
        _ => true,
    }
}

fn bytes_equal(a: &Vec<u8>, b: &Vec<u8>) -> (r: bool)
    ensures
        r == (a@ == b@),
{
    if a.len() != b.len() {
        return false;
    }
    let mut i: usize = 0;
    while i < a.len()
        invariant
            a@.len() == b@.len(),
            i <= a@.len(),
            forall|k: int| 0 <= k < i ==> a@[k] == b@[k],
        decreases a@.len() - i,
    {
        if a[i] != b[i] {
            return false;
        }
        i = i + 1;
    }
    assert(a@ =~= b@);
    true
}

} // verus!
