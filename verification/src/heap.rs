//! The heap arena behind shared, mutable composite values.
//!
//! Lists, sets, dicts, instance field maps and upvalue cells live here;
//! a [`Value`] holds only a handle (an index into one of these arenas).
//! Cloning a value therefore clones the handle: every clone aliases the
//! same slot, and a mutation through one handle is visible through every
//! other handle with the same index. Handles are never freed or reused
//! while a heap is alive, so a handle obtained from an allocation stays
//! valid for that heap.

use vstd::prelude::*;

verus! {

use crate::value::{Value, ValueV, view_value, view_values};

/// The view of a [`Heap`]: each arena as a sequence of slot contents.
pub ghost struct HeapV {
    pub lists: Seq<Seq<ValueV>>,
    pub sets: Seq<Seq<ValueV>>,
    pub dicts: Seq<Seq<(ValueV, ValueV)>>,
    pub instances: Seq<Seq<(Seq<char>, ValueV)>>,
    pub cells: Seq<ValueV>,
    pub iters: int,
}

/// The heap arena. A dict slot holds its pairs in insertion order; an
/// instance slot holds its named fields in insertion order. Iterator
/// state itself lives with the host: the heap only hands out fresh
/// iterator handles.
pub struct Heap {
    pub lists: Vec<Vec<Value>>,
    pub sets: Vec<Vec<Value>>,
    pub dicts: Vec<(Vec<Value>, Vec<Value>)>,
    pub instances: Vec<(Vec<String>, Vec<Value>)>,
    pub cells: Vec<Value>,
    pub iters: usize,
}

/// The view of one dict slot: keys and values zipped into pairs.
pub open spec fn view_dict_slot(keys: Seq<Value>, vals: Seq<Value>) -> Seq<(ValueV, ValueV)> {
    Seq::new(keys.len(), |i: int| (view_value(keys[i]), view_value(vals[i])))
}

/// The view of one instance slot: field names and values zipped.
pub open spec fn view_instance_slot(names: Seq<String>, vals: Seq<Value>) -> Seq<
    (Seq<char>, ValueV),
> {
    Seq::new(names.len(), |i: int| (names[i]@, view_value(vals[i])))
}

impl View for Heap {
    type V = HeapV;

    open spec fn view(&self) -> HeapV {
        HeapV {
            lists: Seq::new(self.lists@.len(), |i: int| view_values(self.lists@[i]@)),
            sets: Seq::new(self.sets@.len(), |i: int| view_values(self.sets@[i]@)),
            dicts: Seq::new(
                self.dicts@.len(),
                |i: int| view_dict_slot(self.dicts@[i].0@, self.dicts@[i].1@),
            ),
            instances: Seq::new(
                self.instances@.len(),
                |i: int| view_instance_slot(self.instances@[i].0@, self.instances@[i].1@),
            ),
            cells: view_values(self.cells@),
            iters: self.iters as int,
        }
    }
}

/// A well-formed heap: a dict slot has as many values as keys, an
/// instance slot as many values as names.
pub open spec fn heap_wf(h: Heap) -> bool {
    &&& forall|i: int| 0 <= i < h.dicts@.len() ==> (#[trigger] h.dicts@[i]).0@.len()
        == h.dicts@[i].1@.len()
    &&& forall|i: int| 0 <= i < h.instances@.len() ==> (#[trigger] h.instances@[i]).0@.len()
        == h.instances@[i].1@.len()
}

/// `h2` extends `h1`: every slot of `h1` is present, unchanged in
/// position, and `h2` may have new slots after them.
pub open spec fn heap_extends(h2: HeapV, h1: HeapV) -> bool {
    &&& h1.lists.is_prefix_of(h2.lists)
    &&& h1.sets.is_prefix_of(h2.sets)
    &&& h1.dicts.is_prefix_of(h2.dicts)
    &&& h1.instances.is_prefix_of(h2.instances)
    &&& h1.cells.len() == h2.cells.len()
    &&& h1.iters <= h2.iters
}

/// Heap extension is transitive.
pub proof fn lemma_heap_extends_trans(h3: HeapV, h2: HeapV, h1: HeapV)
    requires
        heap_extends(h3, h2),
        heap_extends(h2, h1),
    ensures
        heap_extends(h3, h1),
{
}

impl Heap {
    /// A fresh, empty heap.
    pub fn new() -> (h: Heap)
        ensures
            heap_wf(h),
            h@.lists == Seq::<Seq<ValueV>>::empty(),
            h@.sets == Seq::<Seq<ValueV>>::empty(),
            h@.dicts == Seq::<Seq<(ValueV, ValueV)>>::empty(),
            h@.instances == Seq::<Seq<(Seq<char>, ValueV)>>::empty(),
            h@.cells == Seq::<ValueV>::empty(),
            h@.iters == 0,
    {
        let h = Heap {
            lists: Vec::new(),
            sets: Vec::new(),
            dicts: Vec::new(),
            instances: Vec::new(),
            cells: Vec::new(),
            iters: 0,
        };
        proof {
            assert(h@.lists =~= Seq::<Seq<ValueV>>::empty());
            assert(h@.sets =~= Seq::<Seq<ValueV>>::empty());
            assert(h@.dicts =~= Seq::<Seq<(ValueV, ValueV)>>::empty());
            assert(h@.instances =~= Seq::<Seq<(Seq<char>, ValueV)>>::empty());
        }
        h
    }

    /// Allocates a new list slot holding `elems`; returns its handle.
    pub fn new_list(&mut self, elems: Vec<Value>) -> (h: usize)
        requires
            heap_wf(*old(self)),
        ensures
            heap_wf(*final(self)),
            heap_extends(final(self)@, old(self)@),
            h == old(self)@.lists.len(),
            final(self)@.lists == old(self)@.lists.push(view_values(elems@)),
            final(self)@.sets == old(self)@.sets,
            final(self)@.dicts == old(self)@.dicts,
            final(self)@.instances == old(self)@.instances,
            final(self)@.cells == old(self)@.cells,
            final(self)@.iters == old(self)@.iters,
    {
        let h = self.lists.len();
        self.lists.push(elems);
        proof {
            assert(self@.lists =~= old(self)@.lists.push(view_values(elems@)));
            assert(self@.sets =~= old(self)@.sets);
            assert(self@.dicts =~= old(self)@.dicts);
            assert(self@.instances =~= old(self)@.instances);
        }
        h
    }

    /// The number of elements in list `h`.
    pub fn list_len(&self, h: usize) -> (n: usize)
        requires
            h < self@.lists.len(),
        ensures
            n == self@.lists[h as int].len(),
    {
        proof {
            crate::value::lemma_view_values(self.lists@[h as int]@);
        }
        self.lists[h].len()
    }

    /// A borrow of element `i` of list `h`.
    pub fn list_get(&self, h: usize, i: usize) -> (r: &Value)
        requires
            h < self@.lists.len(),
            i < self@.lists[h as int].len(),
        ensures
            r@ == self@.lists[h as int][i as int],
    {
        proof {
            crate::value::lemma_view_values(self.lists@[h as int]@);
        }
        &self.lists[h][i]
    }

    /// Overwrites element `i` of list `h`. Every alias of the handle
    /// observes the new element.
    pub fn list_set(&mut self, h: usize, i: usize, v: Value)
        requires
            heap_wf(*old(self)),
            h < old(self)@.lists.len(),
            i < old(self)@.lists[h as int].len(),
        ensures
            heap_wf(*final(self)),
            final(self)@ == (HeapV {
                lists: old(self)@.lists.update(
                    h as int,
                    old(self)@.lists[h as int].update(i as int, v@),
                ),
                ..old(self)@
            }),
    {
        proof {
            crate::value::lemma_view_values(self.lists@[h as int]@);
        }
        let slot: &mut Vec<Value> = &mut self.lists[h];
        slot.set(i, v);
        proof {
            crate::value::lemma_view_values(self.lists@[h as int]@);
            assert(view_values(self.lists@[h as int]@) =~= old(self)@.lists[h as int].update(
                i as int,
                v@,
            ));
            assert(self@.lists =~= old(self)@.lists.update(
                h as int,
                old(self)@.lists[h as int].update(i as int, v@),
            ));
            assert(self@.sets =~= old(self)@.sets);
            assert(self@.dicts =~= old(self)@.dicts);
            assert(self@.instances =~= old(self)@.instances);
        }
    }

    /// Appends `v` to list `h`. Every alias of the handle observes the
    /// new element.
    pub fn list_push(&mut self, h: usize, v: Value)
        requires
            heap_wf(*old(self)),
            h < old(self)@.lists.len(),
        ensures
            heap_wf(*final(self)),
            final(self)@ == (HeapV {
                lists: old(self)@.lists.update(h as int, old(self)@.lists[h as int].push(v@)),
                ..old(self)@
            }),
    {
        proof {
            crate::value::lemma_view_values(self.lists@[h as int]@);
        }
        let slot: &mut Vec<Value> = &mut self.lists[h];
        slot.push(v);
        proof {
            crate::value::lemma_view_values(self.lists@[h as int]@);
            assert(view_values(self.lists@[h as int]@) =~= old(self)@.lists[h as int].push(v@));
            assert(self@.lists =~= old(self)@.lists.update(
                h as int,
                old(self)@.lists[h as int].push(v@),
            ));
            assert(self@.sets =~= old(self)@.sets);
            assert(self@.dicts =~= old(self)@.dicts);
            assert(self@.instances =~= old(self)@.instances);
        }
    }

    /// Allocates a new set slot holding `elems` (in order); returns its
    /// handle. The caller is responsible for any deduplication.
    pub fn new_set(&mut self, elems: Vec<Value>) -> (h: usize)
        requires
            heap_wf(*old(self)),
        ensures
            heap_wf(*final(self)),
            heap_extends(final(self)@, old(self)@),
            h == old(self)@.sets.len(),
            final(self)@.sets == old(self)@.sets.push(view_values(elems@)),
            final(self)@.lists == old(self)@.lists,
            final(self)@.dicts == old(self)@.dicts,
            final(self)@.instances == old(self)@.instances,
            final(self)@.cells == old(self)@.cells,
            final(self)@.iters == old(self)@.iters,
    {
        let h = self.sets.len();
        self.sets.push(elems);
        proof {
            assert(self@.sets =~= old(self)@.sets.push(view_values(elems@)));
            assert(self@.lists =~= old(self)@.lists);
            assert(self@.dicts =~= old(self)@.dicts);
            assert(self@.instances =~= old(self)@.instances);
        }
        h
    }

    /// The number of elements in set `h`.
    pub fn set_len(&self, h: usize) -> (n: usize)
        requires
            h < self@.sets.len(),
        ensures
            n == self@.sets[h as int].len(),
    {
        proof {
            crate::value::lemma_view_values(self.sets@[h as int]@);
        }
        self.sets[h].len()
    }

    /// A borrow of element `i` of set `h`.
    pub fn set_get(&self, h: usize, i: usize) -> (r: &Value)
        requires
            h < self@.sets.len(),
            i < self@.sets[h as int].len(),
        ensures
            r@ == self@.sets[h as int][i as int],
    {
        proof {
            crate::value::lemma_view_values(self.sets@[h as int]@);
        }
        &self.sets[h][i]
    }

    /// Allocates a new dict slot holding the given keys and values,
    /// pairwise in order; returns its handle.
    pub fn new_dict(&mut self, keys: Vec<Value>, vals: Vec<Value>) -> (h: usize)
        requires
            heap_wf(*old(self)),
            keys@.len() == vals@.len(),
        ensures
            heap_wf(*final(self)),
            heap_extends(final(self)@, old(self)@),
            h == old(self)@.dicts.len(),
            final(self)@.dicts == old(self)@.dicts.push(view_dict_slot(keys@, vals@)),
            final(self)@.lists == old(self)@.lists,
            final(self)@.sets == old(self)@.sets,
            final(self)@.instances == old(self)@.instances,
            final(self)@.cells == old(self)@.cells,
            final(self)@.iters == old(self)@.iters,
    {
        let h = self.dicts.len();
        self.dicts.push((keys, vals));
        proof {
            assert(self@.dicts =~= old(self)@.dicts.push(view_dict_slot(keys@, vals@)));
            assert(self@.lists =~= old(self)@.lists);
            assert(self@.sets =~= old(self)@.sets);
            assert(self@.instances =~= old(self)@.instances);
        }
        h
    }

    /// The number of pairs in dict `h`.
    pub fn dict_len(&self, h: usize) -> (n: usize)
        requires
            heap_wf(*self),
            h < self@.dicts.len(),
        ensures
            n == self@.dicts[h as int].len(),
    {
        self.dicts[h].0.len()
    }

    /// Borrows of the key and value of pair `i` of dict `h`.
    pub fn dict_get(&self, h: usize, i: usize) -> (r: (&Value, &Value))
        requires
            heap_wf(*self),
            h < self@.dicts.len(),
            i < self@.dicts[h as int].len(),
        ensures
            r.0@ == self@.dicts[h as int][i as int].0,
            r.1@ == self@.dicts[h as int][i as int].1,
    {
        (&self.dicts[h].0[i], &self.dicts[h].1[i])
    }

    /// Allocates a new instance slot holding the given field names and
    /// values, pairwise in order; returns its handle.
    pub fn new_instance(&mut self, names: Vec<String>, vals: Vec<Value>) -> (h: usize)
        requires
            heap_wf(*old(self)),
            names@.len() == vals@.len(),
        ensures
            heap_wf(*final(self)),
            heap_extends(final(self)@, old(self)@),
            h == old(self)@.instances.len(),
            final(self)@.instances == old(self)@.instances.push(view_instance_slot(names@, vals@)),
            final(self)@.lists == old(self)@.lists,
            final(self)@.sets == old(self)@.sets,
            final(self)@.dicts == old(self)@.dicts,
            final(self)@.cells == old(self)@.cells,
            final(self)@.iters == old(self)@.iters,
    {
        let h = self.instances.len();
        self.instances.push((names, vals));
        proof {
            assert(self@.instances =~= old(self)@.instances.push(
                view_instance_slot(names@, vals@),
            ));
            assert(self@.lists =~= old(self)@.lists);
            assert(self@.sets =~= old(self)@.sets);
            assert(self@.dicts =~= old(self)@.dicts);
        }
        h
    }

    /// Allocates a fresh upvalue cell holding `v`; returns its handle.
    pub fn new_cell(&mut self, v: Value) -> (h: usize)
        requires
            heap_wf(*old(self)),
        ensures
            heap_wf(*final(self)),
            h == old(self)@.cells.len(),
            final(self)@ == (HeapV { cells: old(self)@.cells.push(v@), ..old(self)@ }),
    {
        let h = self.cells.len();
        proof {
            crate::value::lemma_view_values(self.cells@);
        }
        self.cells.push(v);
        proof {
            crate::value::lemma_view_values(self.cells@);
            assert(view_values(self.cells@) =~= old(self)@.cells.push(v@));
            assert(self@.lists =~= old(self)@.lists);
            assert(self@.sets =~= old(self)@.sets);
            assert(self@.dicts =~= old(self)@.dicts);
            assert(self@.instances =~= old(self)@.instances);
        }
        h
    }

    /// A borrow of the value in cell `h`.
    pub fn cell_get(&self, h: usize) -> (r: &Value)
        requires
            h < self@.cells.len(),
        ensures
            r@ == self@.cells[h as int],
    {
        proof {
            crate::value::lemma_view_values(self.cells@);
        }
        &self.cells[h]
    }

    /// Overwrites the value in cell `h`. Every holder of the handle —
    /// the defining scope and every closure that captured it — observes
    /// the new value.
    pub fn cell_set(&mut self, h: usize, v: Value)
        requires
            heap_wf(*old(self)),
            h < old(self)@.cells.len(),
        ensures
            heap_wf(*final(self)),
            final(self)@ == (HeapV { cells: old(self)@.cells.update(h as int, v@), ..old(self)@ }),
    {
        proof {
            crate::value::lemma_view_values(self.cells@);
        }
        self.cells.set(h, v);
        proof {
            crate::value::lemma_view_values(self.cells@);
            assert(view_values(self.cells@) =~= old(self)@.cells.update(h as int, v@));
            assert(self@.lists =~= old(self)@.lists);
            assert(self@.sets =~= old(self)@.sets);
            assert(self@.dicts =~= old(self)@.dicts);
            assert(self@.instances =~= old(self)@.instances);
        }
    }

    /// Hands out a fresh iterator handle; the generator state itself is
    /// the host's.
    pub fn new_iter(&mut self) -> (h: usize)
        requires
            heap_wf(*old(self)),
        ensures
            heap_wf(*final(self)),
            h == old(self)@.iters,
            heap_extends(final(self)@, old(self)@),
            final(self)@ == (HeapV {
                iters: if old(self)@.iters < usize::MAX as int {
                    old(self)@.iters + 1
                } else {
                    old(self)@.iters
                },
                ..old(self)@
            }),
    {
        let h = self.iters;
        if self.iters < usize::MAX {
            self.iters = self.iters + 1;
        }
        proof {
            assert(self@.lists =~= old(self)@.lists);
            assert(self@.sets =~= old(self)@.sets);
            assert(self@.dicts =~= old(self)@.dicts);
            assert(self@.instances =~= old(self)@.instances);
            assert(self@.cells =~= old(self)@.cells);
        }
        h
    }
}

/// The list contents a value refers to, for a value that is a list
/// handle.
pub open spec fn spec_list_contents(heap: HeapV, v: ValueV) -> Seq<ValueV>
    recommends
        v matches ValueV::List(h) && 0 <= h < heap.lists.len(),
{
    heap.lists[v->List_0 as int]
}

/// Aliasing: a copy of a list value is a copy of the handle, so after a
/// mutation through either value, both observe the same new contents.
pub proof fn lemma_alias_mutation_visible(
    h0: HeapV,
    h1: HeapV,
    a: ValueV,
    b: ValueV,
    handle: usize,
    i: int,
    v: ValueV,
)
    requires
        a == ValueV::List(handle),
        b == a,
        0 <= handle < h0.lists.len(),
        0 <= i < h0.lists[handle as int].len(),
        h1 == (HeapV {
            lists: h0.lists.update(handle as int, h0.lists[handle as int].update(i, v)),
            ..h0
        }),
    ensures
        spec_list_contents(h1, a) == spec_list_contents(h1, b),
        spec_list_contents(h1, b)[i] == v,
        spec_list_contents(h1, b).len() == spec_list_contents(h0, b).len(),
{
}

/// Shared upvalues: a closure captures a cell by handle, so after the
/// enclosing scope reassigns the cell, reading it through the closure's
/// captured handle observes the new value — the cell is shared, not a
/// snapshot.
pub proof fn lemma_upvalue_shared(
    h0: HeapV,
    h1: HeapV,
    f: ValueV,
    idx: int,
    cell: usize,
    v: ValueV,
)
    requires
        f matches ValueV::Function(ups, _, _) && 0 <= idx < ups.len() && ups[idx] == cell,
        0 <= cell < h0.cells.len(),
        h1 == (HeapV { cells: h0.cells.update(cell as int, v), ..h0 }),
    ensures
        h1.cells[f->Function_0[idx] as int] == v,
{
}

/// The least index of a pair whose key equals `key` under the
/// heap-free equality — the comparison every hashable key supports,
/// and dict keys are hashable values.
pub open spec fn dict_find(pairs: Seq<(ValueV, ValueV)>, key: ValueV) -> Option<int>
    decreases pairs.len(),
{
    if pairs.len() == 0 {
        Option::None
    } else if crate::value::spec_value_eq(pairs.first().0, key) {
        Option::Some(0int)
    } else {
        match dict_find(pairs.drop_first(), key) {
            Option::Some(j) => Option::Some(j + 1),
            Option::None => Option::None,
        }
    }
}

/// What [`dict_find`] means: the least matching pair.
pub proof fn lemma_dict_find(pairs: Seq<(ValueV, ValueV)>, key: ValueV)
    ensures
        match dict_find(pairs, key) {
            Option::Some(j) => 0 <= j < pairs.len() && crate::value::spec_value_eq(
                pairs[j].0,
                key,
            ) && forall|i: int|
                0 <= i < j ==> !crate::value::spec_value_eq((#[trigger] pairs[i]).0, key),
            Option::None => forall|i: int|
                0 <= i < pairs.len() ==> !crate::value::spec_value_eq((#[trigger] pairs[i]).0, key),
        },
    decreases pairs.len(),
{
    if pairs.len() > 0 {
        if crate::value::spec_value_eq(pairs.first().0, key) {
            assert(pairs[0] == pairs.first());
        } else {
            lemma_dict_find(pairs.drop_first(), key);
            let rest = pairs.drop_first();
            match dict_find(rest, key) {
                Option::Some(j) => {
                    assert(pairs[j + 1] == rest[j]);
                    assert forall|i: int| 0 <= i < j + 1 implies !crate::value::spec_value_eq(
                        (#[trigger] pairs[i]).0,
                        key,
                    ) by {
                        if i > 0 {
                            assert(pairs[i] == rest[i - 1]);
                        } else {
                            assert(pairs[0] == pairs.first());
                        }
                    }
                },
                Option::None => {
                    assert forall|i: int| 0 <= i < pairs.len() implies !crate::value::spec_value_eq(
                        (#[trigger] pairs[i]).0,
                        key,
                    ) by {
                        if i > 0 {
                            assert(pairs[i] == rest[i - 1]);
                        } else {
                            assert(pairs[0] == pairs.first());
                        }
                    }
                },
            }
        }
    }
}

/// A dict slot after storing `key -> val`: an existing pair with an
/// equal key is overwritten, otherwise the pair is appended.
pub open spec fn dict_put(pairs: Seq<(ValueV, ValueV)>, key: ValueV, val: ValueV) -> Seq<
    (ValueV, ValueV),
> {
    match dict_find(pairs, key) {
        Option::Some(j) => pairs.update(j, (pairs[j].0, val)),
        Option::None => pairs.push((key, val)),
    }
}

impl Heap {
    /// The index of the pair in dict `h` whose key equals `key`, if
    /// any.
    #[verifier::loop_isolation(false)]
    pub fn dict_find_key(&self, h: usize, key: &Value) -> (r: Option<usize>)
        requires
            heap_wf(*self),
            h < self@.dicts.len(),
        ensures
            match r {
                Option::Some(j) => dict_find(self@.dicts[h as int], key@) == Option::Some(
                    j as int,
                ),
                Option::None => dict_find(self@.dicts[h as int], key@) is None,
            },
    {
        proof {
            lemma_dict_find(self@.dicts[h as int], key@);
        }
        let n = self.dict_len(h);
        let mut i: usize = 0;
        while i < n
            invariant
                i <= n,
                n == self@.dicts[h as int].len(),
                forall|j: int|
                    0 <= j < i ==> !crate::value::spec_value_eq(
                        (#[trigger] self@.dicts[h as int][j]).0,
                        key@,
                    ),
            decreases n - i,
        {
            let (k, _) = self.dict_get(h, i);
            if crate::value::value_eq(k, key) {
                return Some(i);
            }
            i = i + 1;
        }
        None
    }

    /// Stores `key -> val` in dict `h`: overwrites the pair with an
    /// equal key, or appends a new pair. Every alias of the handle
    /// observes the change.
    #[verifier::loop_isolation(false)]
    pub fn dict_put_pair(&mut self, h: usize, key: Value, val: Value)
        requires
            heap_wf(*old(self)),
            h < old(self)@.dicts.len(),
        ensures
            heap_wf(*final(self)),
            final(self)@ == (HeapV {
                dicts: old(self)@.dicts.update(
                    h as int,
                    dict_put(old(self)@.dicts[h as int], key@, val@),
                ),
                ..old(self)@
            }),
    {
        let found = self.dict_find_key(h, &key);
        match found {
            Option::Some(j) => {
                proof {
                    lemma_dict_find(self@.dicts[h as int], key@);
                }
                let slot = &mut self.dicts[h];
                slot.1.set(j, val);
                proof {
                    crate::value::lemma_view_values(old(self).dicts@[h as int].1@);
                    assert(view_dict_slot(self.dicts@[h as int].0@, self.dicts@[h as int].1@)
                        =~= dict_put(old(self)@.dicts[h as int], key@, val@));
                    assert(self@.dicts =~= old(self)@.dicts.update(
                        h as int,
                        dict_put(old(self)@.dicts[h as int], key@, val@),
                    ));
                    assert(self@.lists =~= old(self)@.lists);
                    assert(self@.sets =~= old(self)@.sets);
                    assert(self@.instances =~= old(self)@.instances);
                }
            },
            Option::None => {
                let slot = &mut self.dicts[h];
                slot.0.push(key);
                slot.1.push(val);
                proof {
                    assert(view_dict_slot(self.dicts@[h as int].0@, self.dicts@[h as int].1@)
                        =~= dict_put(old(self)@.dicts[h as int], key@, val@));
                    assert(self@.dicts =~= old(self)@.dicts.update(
                        h as int,
                        dict_put(old(self)@.dicts[h as int], key@, val@),
                    ));
                    assert(self@.lists =~= old(self)@.lists);
                    assert(self@.sets =~= old(self)@.sets);
                    assert(self@.instances =~= old(self)@.instances);
                }
            },
        }
    }
}

// ---------------------------------------------------------------------------
// Structural equality through the heap
// ---------------------------------------------------------------------------

/// Three-valued conjunction: `None` (out of depth budget) poisons,
/// a decided `false` short-circuits.
pub open spec fn and3(x: Option<bool>, y: Option<bool>) -> Option<bool> {
    match x {
        Option::None => Option::None,
        Option::Some(b) => if b {
            y
        } else {
            Option::Some(false)
        },
    }
}

/// Three-valued disjunction: a decided `true` short-circuits, `None`
/// poisons.
pub open spec fn or3(x: Option<bool>, y: Option<bool>) -> Option<bool> {
    match x {
        Option::None => Option::None,
        Option::Some(b) => if b {
            Option::Some(true)
        } else {
            y
        },
    }
}

/// Structural equality of two values through the heap, bounded by a
/// depth budget: descending into a list's, set's or dict's contents
/// costs one unit of `fuel` (a dict pair's value comparison one more),
/// and `None` means the budget ran out — which only happens beyond any
/// acyclic value's depth, that is, on values that reference themselves.
///
/// Primitives compare pointwise, tuples element-wise, a union by any
/// member; lists by their current contents in order; sets by mutual
/// deep membership; dicts by mutual pair membership (key and value
/// both equal). An out-of-range handle is also `None`: a machine never
/// produces one.
pub open spec fn deep_eq(heap: HeapV, a: ValueV, b: ValueV, fuel: nat) -> Option<bool>
    decreases fuel, a, b,
{
    match (a, b) {
        (ValueV::Float(x), ValueV::Float(y)) => Option::Some(crate::value::spec_float_eq(x, y)),
        (ValueV::Int(x), ValueV::Int(y)) => Option::Some(x == y),
        (ValueV::Bool(x), ValueV::Bool(y)) => Option::Some(x == y),
        (ValueV::String(x), ValueV::String(y)) => Option::Some(x == y),
        (ValueV::Tuple(x), ValueV::Tuple(y)) => deep_eqs(heap, x, y, fuel),
        (ValueV::List(h1), ValueV::List(h2)) => if fuel == 0 {
            Option::None
        } else if h1 < heap.lists.len() && h2 < heap.lists.len() {
            deep_eqs(heap, heap.lists[h1 as int], heap.lists[h2 as int], (fuel - 1) as nat)
        } else {
            Option::None
        },
        (ValueV::SetCol(h1), ValueV::SetCol(h2)) => if fuel == 0 {
            Option::None
        } else if h1 < heap.sets.len() && h2 < heap.sets.len() {
            and3(
                subset_deep(heap, heap.sets[h1 as int], heap.sets[h2 as int], (fuel - 1) as nat),
                subset_deep(heap, heap.sets[h2 as int], heap.sets[h1 as int], (fuel - 1) as nat),
            )
        } else {
            Option::None
        },
        (ValueV::Dict(h1), ValueV::Dict(h2)) => if fuel == 0 {
            Option::None
        } else if h1 < heap.dicts.len() && h2 < heap.dicts.len() {
            and3(
                dict_subset_deep(
                    heap,
                    heap.dicts[h1 as int],
                    heap.dicts[h2 as int],
                    (fuel - 1) as nat,
                ),
                dict_subset_deep(
                    heap,
                    heap.dicts[h2 as int],
                    heap.dicts[h1 as int],
                    (fuel - 1) as nat,
                ),
            )
        } else {
            Option::None
        },
        (ValueV::Union(x), y) => any_left_deep(heap, x, y, fuel),
        (x, ValueV::Union(y)) => any_right_deep(heap, x, y, fuel),
        (ValueV::Nil, ValueV::Nil) => Option::Some(true),
        _ => Option::Some(false),
    }
}

/// Element-wise deep equality of two sequences, left to right.
pub open spec fn deep_eqs(heap: HeapV, xs: Seq<ValueV>, ys: Seq<ValueV>, fuel: nat) -> Option<
    bool,
>
    decreases fuel, xs, ys,
{
    if xs.len() != ys.len() {
        Option::Some(false)
    } else if xs.len() == 0 {
        Option::Some(true)
    } else {
        and3(
            deep_eq(heap, xs.first(), ys.first(), fuel),
            deep_eqs(heap, xs.drop_first(), ys.drop_first(), fuel),
        )
    }
}

/// Whether some member of `xs` deeply equals `y`, left to right.
pub open spec fn any_left_deep(heap: HeapV, xs: Seq<ValueV>, y: ValueV, fuel: nat) -> Option<bool>
    decreases fuel, xs, y,
{
    if xs.len() == 0 {
        Option::Some(false)
    } else {
        or3(deep_eq(heap, xs.first(), y, fuel), any_left_deep(heap, xs.drop_first(), y, fuel))
    }
}

/// Whether `x` deeply equals some member of `ys`, left to right.
pub open spec fn any_right_deep(heap: HeapV, x: ValueV, ys: Seq<ValueV>, fuel: nat) -> Option<
    bool,
>
    decreases fuel, x, ys,
{
    if ys.len() == 0 {
        Option::Some(false)
    } else {
        or3(deep_eq(heap, x, ys.first(), fuel), any_right_deep(heap, x, ys.drop_first(), fuel))
    }
}

/// Whether every member of `xs` is a deep member of `ys`.
pub open spec fn subset_deep(heap: HeapV, xs: Seq<ValueV>, ys: Seq<ValueV>, fuel: nat) -> Option<
    bool,
>
    decreases fuel, xs, ys,
{
    if xs.len() == 0 {
        Option::Some(true)
    } else {
        and3(
            any_right_deep(heap, xs.first(), ys, fuel),
            subset_deep(heap, xs.drop_first(), ys, fuel),
        )
    }
}

/// Whether the pair `p` matches some pair of `qs`: keys deeply equal,
/// and values deeply equal one step further down the budget.
pub open spec fn pair_in_deep(
    heap: HeapV,
    p: (ValueV, ValueV),
    qs: Seq<(ValueV, ValueV)>,
    fuel: nat,
) -> Option<bool>
    decreases fuel, p, qs,
{
    if qs.len() == 0 {
        Option::Some(false)
    } else if fuel == 0 {
        Option::None
    } else {
        or3(
            and3(
                deep_eq(heap, p.0, qs.first().0, fuel),
                deep_eq(heap, p.1, qs.first().1, (fuel - 1) as nat),
            ),
            pair_in_deep(heap, p, qs.drop_first(), fuel),
        )
    }
}

/// Whether every pair of `ps` matches some pair of `qs`.
pub open spec fn dict_subset_deep(
    heap: HeapV,
    ps: Seq<(ValueV, ValueV)>,
    qs: Seq<(ValueV, ValueV)>,
    fuel: nat,
) -> Option<bool>
    decreases fuel, ps, qs,
{
    if ps.len() == 0 {
        Option::Some(true)
    } else {
        and3(
            pair_in_deep(heap, ps.first(), qs, fuel),
            dict_subset_deep(heap, ps.drop_first(), qs, fuel),
        )
    }
}

/// Executable form of [`deep_eq`].
#[verifier::loop_isolation(false)]
pub fn deep_value_eq(heap: &Heap, a: &Value, b: &Value, fuel: usize) -> (r: Option<bool>)
    requires
        heap_wf(*heap),
    ensures
        r == deep_eq(heap@, a@, b@, fuel as nat),
    decreases fuel, *a, *b,
{
    match (a, b) {
        (Value::Float(x), Value::Float(y)) => Some(crate::value::float_eq(*x, *y)),
        (Value::Int(x), Value::Int(y)) => Some(*x == *y),
        (Value::Bool(x), Value::Bool(y)) => Some(*x == *y),
        (Value::String(x), Value::String(y)) => Some(*x == *y),
        (Value::Tuple(x), Value::Tuple(y)) => {
            proof {
                assert(decreases_to!(*a => *x));
                assert(decreases_to!(*b => *y));
            }
            vecs_deep_eq(heap, x, y, fuel)
        },
        (Value::List(h1), Value::List(h2)) => {
            if fuel == 0 {
                None
            } else if *h1 < heap.lists.len() && *h2 < heap.lists.len() {
                proof {
                    assert(heap@.lists[*h1 as int] == view_values(heap.lists@[*h1 as int]@));
                    assert(heap@.lists[*h2 as int] == view_values(heap.lists@[*h2 as int]@));
                }
                vecs_deep_eq(heap, &heap.lists[*h1], &heap.lists[*h2], fuel - 1)
            } else {
                None
            }
        },
        (Value::SetCol(h1), Value::SetCol(h2)) => {
            if fuel == 0 {
                None
            } else if *h1 < heap.sets.len() && *h2 < heap.sets.len() {
                proof {
                    assert(heap@.sets[*h1 as int] == view_values(heap.sets@[*h1 as int]@));
                    assert(heap@.sets[*h2 as int] == view_values(heap.sets@[*h2 as int]@));
                }
                match vec_subset(heap, &heap.sets[*h1], &heap.sets[*h2], fuel - 1) {
                    Option::None => None,
                    Option::Some(false) => Some(false),
                    Option::Some(true) => vec_subset(heap, &heap.sets[*h2], &heap.sets[*h1], fuel - 1),
                }
            } else {
                None
            }
        },
        (Value::Dict(h1), Value::Dict(h2)) => {
            if fuel == 0 {
                None
            } else if *h1 < heap.dicts.len() && *h2 < heap.dicts.len() {
                proof {
                    assert(heap@.dicts[*h1 as int] == view_dict_slot(
                        heap.dicts@[*h1 as int].0@,
                        heap.dicts@[*h1 as int].1@,
                    ));
                    assert(heap@.dicts[*h2 as int] == view_dict_slot(
                        heap.dicts@[*h2 as int].0@,
                        heap.dicts@[*h2 as int].1@,
                    ));
                }
                match dict_subset_exec(
                    heap,
                    &heap.dicts[*h1].0,
                    &heap.dicts[*h1].1,
                    &heap.dicts[*h2].0,
                    &heap.dicts[*h2].1,
                    fuel - 1,
                ) {
                    Option::None => None,
                    Option::Some(false) => Some(false),
                    Option::Some(true) => dict_subset_exec(
                        heap,
                        &heap.dicts[*h2].0,
                        &heap.dicts[*h2].1,
                        &heap.dicts[*h1].0,
                        &heap.dicts[*h1].1,
                        fuel - 1,
                    ),
                }
            } else {
                None
            }
        },
        (Value::Union(x), _) => {
            proof {
                assert(decreases_to!(*a => *x));
            }
            vec_any_left(heap, x, b, fuel)
        },
        (_, Value::Union(y)) => {
            proof {
                assert(decreases_to!(*b => *y));
            }
            vec_any_right(heap, a, y, fuel)
        },
        (Value::Nil, Value::Nil) => Some(true),
        _ => Some(false),
    }
}

/// Executable form of [`deep_eqs`] over two vectors.
#[verifier::loop_isolation(false)]
fn vecs_deep_eq(heap: &Heap, xs: &Vec<Value>, ys: &Vec<Value>, fuel: usize) -> (r: Option<bool>)
    requires
        heap_wf(*heap),
    ensures
        r == deep_eqs(heap@, view_values(xs@), view_values(ys@), fuel as nat),
    decreases fuel, *xs, *ys,
{
    proof {
        crate::value::lemma_view_values(xs@);
        crate::value::lemma_view_values(ys@);
    }
    let ghost vx = view_values(xs@);
    let ghost vy = view_values(ys@);
    if xs.len() != ys.len() {
        return Some(false);
    }
    let mut i: usize = 0;
    proof {
        assert(vx.skip(0) =~= vx);
        assert(vy.skip(0) =~= vy);
    }
    while i < xs.len()
        invariant
            i <= xs@.len(),
            deep_eqs(heap@, vx, vy, fuel as nat) == deep_eqs(
                heap@,
                vx.skip(i as int),
                vy.skip(i as int),
                fuel as nat,
            ),
        decreases xs@.len() - i,
    {
        proof {
            assert(decreases_to!(*xs => xs@));
            assert(decreases_to!(xs@ => xs@[i as int]));
            assert(decreases_to!(*ys => ys@));
            assert(decreases_to!(ys@ => ys@[i as int]));
        }
        let r = deep_value_eq(heap, &xs[i], &ys[i], fuel);
        proof {
            assert(vx.skip(i as int).first() == vx[i as int]);
            assert(vy.skip(i as int).first() == vy[i as int]);
            assert(vx.skip(i as int).drop_first() =~= vx.skip(i + 1));
            assert(vy.skip(i as int).drop_first() =~= vy.skip(i + 1));
        }
        match r {
            Option::Some(true) => {},
            Option::Some(false) => {
                return Some(false);
            },
            Option::None => {
                return None;
            },
        }
        i = i + 1;
    }
    proof {
        assert(vx.skip(xs@.len() as int) =~= Seq::<ValueV>::empty());
        assert(vy.skip(ys@.len() as int) =~= Seq::<ValueV>::empty());
    }
    Some(true)
}

/// Executable form of [`any_left_deep`] over a vector of members.
#[verifier::loop_isolation(false)]
fn vec_any_left(heap: &Heap, xs: &Vec<Value>, y: &Value, fuel: usize) -> (r: Option<bool>)
    requires
        heap_wf(*heap),
    ensures
        r == any_left_deep(heap@, view_values(xs@), y@, fuel as nat),
    decreases fuel, *xs, *y,
{
    proof {
        crate::value::lemma_view_values(xs@);
    }
    let ghost vx = view_values(xs@);
    let mut i: usize = 0;
    proof {
        assert(vx.skip(0) =~= vx);
    }
    while i < xs.len()
        invariant
            i <= xs@.len(),
            any_left_deep(heap@, vx, y@, fuel as nat) == any_left_deep(
                heap@,
                vx.skip(i as int),
                y@,
                fuel as nat,
            ),
        decreases xs@.len() - i,
    {
        proof {
            assert(decreases_to!(*xs => xs@));
            assert(decreases_to!(xs@ => xs@[i as int]));
        }
        let r = deep_value_eq(heap, &xs[i], y, fuel);
        proof {
            assert(vx.skip(i as int).first() == vx[i as int]);
            assert(vx.skip(i as int).drop_first() =~= vx.skip(i + 1));
        }
        match r {
            Option::Some(true) => {
                return Some(true);
            },
            Option::Some(false) => {},
            Option::None => {
                return None;
            },
        }
        i = i + 1;
    }
    proof {
        assert(vx.skip(xs@.len() as int) =~= Seq::<ValueV>::empty());
    }
    Some(false)
}

/// Executable form of [`any_right_deep`] over a vector of members.
#[verifier::loop_isolation(false)]
pub fn vec_any_right(heap: &Heap, x: &Value, ys: &Vec<Value>, fuel: usize) -> (r: Option<bool>)
    requires
        heap_wf(*heap),
    ensures
        r == any_right_deep(heap@, x@, view_values(ys@), fuel as nat),
    decreases fuel, *x, *ys,
{
    proof {
        crate::value::lemma_view_values(ys@);
    }
    let ghost vy = view_values(ys@);
    let mut i: usize = 0;
    proof {
        assert(vy.skip(0) =~= vy);
    }
    while i < ys.len()
        invariant
            i <= ys@.len(),
            any_right_deep(heap@, x@, vy, fuel as nat) == any_right_deep(
                heap@,
                x@,
                vy.skip(i as int),
                fuel as nat,
            ),
        decreases ys@.len() - i,
    {
        proof {
            assert(decreases_to!(*ys => ys@));
            assert(decreases_to!(ys@ => ys@[i as int]));
        }
        let r = deep_value_eq(heap, x, &ys[i], fuel);
        proof {
            assert(vy.skip(i as int).first() == vy[i as int]);
            assert(vy.skip(i as int).drop_first() =~= vy.skip(i + 1));
        }
        match r {
            Option::Some(true) => {
                return Some(true);
            },
            Option::Some(false) => {},
            Option::None => {
                return None;
            },
        }
        i = i + 1;
    }
    proof {
        assert(vy.skip(ys@.len() as int) =~= Seq::<ValueV>::empty());
    }
    Some(false)
}

/// Executable form of [`subset_deep`] over two vectors.
#[verifier::loop_isolation(false)]
fn vec_subset(heap: &Heap, xs: &Vec<Value>, ys: &Vec<Value>, fuel: usize) -> (r: Option<bool>)
    requires
        heap_wf(*heap),
    ensures
        r == subset_deep(heap@, view_values(xs@), view_values(ys@), fuel as nat),
    decreases fuel, *xs, *ys,
{
    proof {
        crate::value::lemma_view_values(xs@);
    }
    let ghost vx = view_values(xs@);
    let ghost vy = view_values(ys@);
    let mut i: usize = 0;
    proof {
        assert(vx.skip(0) =~= vx);
    }
    while i < xs.len()
        invariant
            i <= xs@.len(),
            subset_deep(heap@, vx, vy, fuel as nat) == subset_deep(
                heap@,
                vx.skip(i as int),
                vy,
                fuel as nat,
            ),
        decreases xs@.len() - i,
    {
        proof {
            assert(decreases_to!(*xs => xs@));
            assert(decreases_to!(xs@ => xs@[i as int]));
        }
        let r = vec_any_right(heap, &xs[i], ys, fuel);
        proof {
            assert(vx.skip(i as int).first() == vx[i as int]);
            assert(vx.skip(i as int).drop_first() =~= vx.skip(i + 1));
        }
        match r {
            Option::Some(true) => {},
            Option::Some(false) => {
                return Some(false);
            },
            Option::None => {
                return None;
            },
        }
        i = i + 1;
    }
    proof {
        assert(vx.skip(xs@.len() as int) =~= Seq::<ValueV>::empty());
    }
    Some(true)
}

/// Executable form of [`pair_in_deep`]: the pair against a dict slot's
/// parallel key and value vectors.
#[verifier::loop_isolation(false)]
fn pair_in_exec(
    heap: &Heap,
    k: &Value,
    v: &Value,
    qkeys: &Vec<Value>,
    qvals: &Vec<Value>,
    fuel: usize,
) -> (r: Option<bool>)
    requires
        heap_wf(*heap),
        qkeys@.len() == qvals@.len(),
    ensures
        r == pair_in_deep(heap@, (k@, v@), view_dict_slot(qkeys@, qvals@), fuel as nat),
    decreases fuel, *k, *qkeys,
{
    let ghost qs = view_dict_slot(qkeys@, qvals@);
    if qkeys.len() == 0 {
        return Some(false);
    }
    if fuel == 0 {
        return None;
    }
    let mut i: usize = 0;
    proof {
        assert(qs.skip(0) =~= qs);
    }
    while i < qkeys.len()
        invariant
            i <= qkeys@.len(),
            fuel > 0,
            pair_in_deep(heap@, (k@, v@), qs, fuel as nat) == pair_in_deep(
                heap@,
                (k@, v@),
                qs.skip(i as int),
                fuel as nat,
            ),
        decreases qkeys@.len() - i,
    {
        proof {
            assert(decreases_to!(*qkeys => qkeys@));
            assert(decreases_to!(qkeys@ => qkeys@[i as int]));
            assert(qs.skip(i as int).first() == qs[i as int]);
            assert(qs.skip(i as int).drop_first() =~= qs.skip(i + 1));
        }
        let kr = deep_value_eq(heap, k, &qkeys[i], fuel);
        let pr = match kr {
            Option::None => Option::None,
            Option::Some(false) => Option::Some(false),
            Option::Some(true) => deep_value_eq(heap, v, &qvals[i], fuel - 1),
        };
        match pr {
            Option::Some(true) => {
                return Some(true);
            },
            Option::Some(false) => {},
            Option::None => {
                return None;
            },
        }
        i = i + 1;
    }
    proof {
        assert(qs.skip(qkeys@.len() as int) =~= Seq::<(ValueV, ValueV)>::empty());
    }
    Some(false)
}

/// Executable form of [`dict_subset_deep`] over parallel vectors.
#[verifier::loop_isolation(false)]
fn dict_subset_exec(
    heap: &Heap,
    pkeys: &Vec<Value>,
    pvals: &Vec<Value>,
    qkeys: &Vec<Value>,
    qvals: &Vec<Value>,
    fuel: usize,
) -> (r: Option<bool>)
    requires
        heap_wf(*heap),
        pkeys@.len() == pvals@.len(),
        qkeys@.len() == qvals@.len(),
    ensures
        r == dict_subset_deep(
            heap@,
            view_dict_slot(pkeys@, pvals@),
            view_dict_slot(qkeys@, qvals@),
            fuel as nat,
        ),
    decreases fuel, *pkeys, *pvals,
{
    let ghost ps = view_dict_slot(pkeys@, pvals@);
    let ghost qs = view_dict_slot(qkeys@, qvals@);
    let mut i: usize = 0;
    proof {
        assert(ps.skip(0) =~= ps);
    }
    while i < pkeys.len()
        invariant
            i <= pkeys@.len(),
            dict_subset_deep(heap@, ps, qs, fuel as nat) == dict_subset_deep(
                heap@,
                ps.skip(i as int),
                qs,
                fuel as nat,
            ),
        decreases pkeys@.len() - i,
    {
        proof {
            assert(decreases_to!(*pkeys => pkeys@));
            assert(decreases_to!(pkeys@ => pkeys@[i as int]));
            assert(ps.skip(i as int).first() == ps[i as int]);
            assert(ps.skip(i as int).drop_first() =~= ps.skip(i + 1));
        }
        let r = pair_in_exec(heap, &pkeys[i], &pvals[i], qkeys, qvals, fuel);
        match r {
            Option::Some(true) => {},
            Option::Some(false) => {
                return Some(false);
            },
            Option::None => {
                return None;
            },
        }
        i = i + 1;
    }
    proof {
        assert(ps.skip(pkeys@.len() as int) =~= Seq::<(ValueV, ValueV)>::empty());
    }
    Some(true)
}

/// Whether `a` deeply equals some pair's key in `qs`.
pub open spec fn key_member_deep(
    heap: HeapV,
    a: ValueV,
    qs: Seq<(ValueV, ValueV)>,
    fuel: nat,
) -> Option<bool>
    decreases fuel, a, qs,
{
    if qs.len() == 0 {
        Option::Some(false)
    } else {
        or3(deep_eq(heap, a, qs.first().0, fuel), key_member_deep(heap, a, qs.drop_first(), fuel))
    }
}

/// Executable form of [`key_member_deep`] over a dict slot's parallel
/// vectors.
#[verifier::loop_isolation(false)]
pub fn dict_key_member_exec(
    heap: &Heap,
    a: &Value,
    qkeys: &Vec<Value>,
    qvals: &Vec<Value>,
    fuel: usize,
) -> (r: Option<bool>)
    requires
        heap_wf(*heap),
        qkeys@.len() == qvals@.len(),
    ensures
        r == key_member_deep(heap@, a@, view_dict_slot(qkeys@, qvals@), fuel as nat),
    decreases fuel, *a, *qkeys,
{
    let ghost qs = view_dict_slot(qkeys@, qvals@);
    let mut i: usize = 0;
    proof {
        assert(qs.skip(0) =~= qs);
    }
    while i < qkeys.len()
        invariant
            i <= qkeys@.len(),
            key_member_deep(heap@, a@, qs, fuel as nat) == key_member_deep(
                heap@,
                a@,
                qs.skip(i as int),
                fuel as nat,
            ),
        decreases qkeys@.len() - i,
    {
        proof {
            assert(decreases_to!(*qkeys => qkeys@));
            assert(decreases_to!(qkeys@ => qkeys@[i as int]));
            assert(qs.skip(i as int).first() == qs[i as int]);
            assert(qs.skip(i as int).drop_first() =~= qs.skip(i + 1));
        }
        let r = deep_value_eq(heap, a, &qkeys[i], fuel);
        match r {
            Option::Some(true) => {
                return Some(true);
            },
            Option::Some(false) => {},
            Option::None => {
                return None;
            },
        }
        i = i + 1;
    }
    proof {
        assert(qs.skip(qkeys@.len() as int) =~= Seq::<(ValueV, ValueV)>::empty());
    }
    Some(false)
}

} // verus!
