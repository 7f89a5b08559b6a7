//! The global variables of a virtual machine: a mapping from names to values, kept as a list of
//! bindings in which no name occurs twice.

use vstd::prelude::*;
use crate::text::strings_view;
use crate::value::Value;
use crate::value::ValueView;
use crate::value::values_view;

verus! {

/// The mathematical content of [`Globals`]: the names and, at the same positions, their values.
pub struct GlobalsView {
    pub names: Seq<Seq<char>>,
    pub values: Seq<ValueView>,
}

/// The position of the first occurrence of `key` in `names` at or after `from`, or the length
/// of `names` if there is none.
pub open spec fn position(names: Seq<Seq<char>>, key: Seq<char>, from: int) -> int
    decreases names.len() - from,
{
    if from < 0 || from >= names.len() {
        names.len() as int
    } else if names[from] == key {
        from
    } else {
        position(names, key, from + 1)
    }
}

impl GlobalsView {
    pub open spec fn empty() -> GlobalsView {
        GlobalsView { names: Seq::empty(), values: Seq::empty() }
    }

    pub open spec fn wf(self) -> bool {
        &&& self.names.len() == self.values.len()
        &&& forall|i: int, j: int|
            0 <= i < j < self.names.len() ==> self.names[i] != self.names[j]
    }

    /// Is the name bound?
    pub open spec fn contains(self, key: Seq<char>) -> bool {
        position(self.names, key, 0) < self.names.len()
    }

    /// The value bound to the name; meaningful where the name is bound.
    pub open spec fn get(self, key: Seq<char>) -> ValueView {
        self.values[position(self.names, key, 0)]
    }

    /// The bindings after `key` is bound to `value`: a bound name keeps its place and gets the
    /// new value, a new name is added at the end.
    pub open spec fn insert(self, key: Seq<char>, value: ValueView) -> GlobalsView {
        let i = position(self.names, key, 0);
        if i < self.names.len() {
            GlobalsView { values: self.values.update(i, value), ..self }
        } else {
            GlobalsView { names: self.names.push(key), values: self.values.push(value) }
        }
    }

    /// The bindings as a map.
    pub open spec fn as_map(self) -> Map<Seq<char>, ValueView> {
        Map::new(|k: Seq<char>| self.contains(k), |k: Seq<char>| self.get(k))
    }
}

pub proof fn lemma_position(names: Seq<Seq<char>>, key: Seq<char>, from: int)
    requires
        0 <= from <= names.len(),
    ensures
        from <= position(names, key, from) <= names.len(),
        position(names, key, from) < names.len() ==> names[position(names, key, from)] == key,
        forall|j: int| from <= j < position(names, key, from) ==> names[j] != key,
    decreases names.len() - from,
{
    if from < names.len() && names[from] != key {
        lemma_position(names, key, from + 1);
    }
}

/// Where a key is found after one more name is added at the end.
pub proof fn lemma_position_push(names: Seq<Seq<char>>, added: Seq<char>, key: Seq<char>, from: int)
    requires
        0 <= from <= names.len(),
    ensures
        position(names.push(added), key, from) == if position(names, key, from) < names.len() {
            position(names, key, from)
        } else if added == key {
            names.len() as int
        } else {
            (names.len() + 1) as int
        },
    decreases names.len() - from,
{
    if from < names.len() {
        assert(names.push(added)[from] == names[from]);
        if names[from] != key {
            lemma_position_push(names, added, key, from + 1);
        }
    } else {
        assert(names.push(added)[from] == added);
        assert(position(names.push(added), key, from + 1) == names.len() + 1);
    }
}

/// Binding a name keeps the bindings well formed, binds that name to the value and leaves every
/// other name as it was.
pub proof fn lemma_insert(g: GlobalsView, key: Seq<char>, value: ValueView)
    requires
        g.wf(),
    ensures
        g.insert(key, value).wf(),
        g.insert(key, value).as_map() == g.as_map().insert(key, value),
{
    let h = g.insert(key, value);
    lemma_position(g.names, key, 0);
    assert forall|k: Seq<char>| #![auto] h.contains(k) == (k == key || g.contains(k)) && (h.contains(
        k,
    ) ==> h.get(k) == if k == key {
        value
    } else {
        g.get(k)
    }) by {
        lemma_position(g.names, k, 0);
        lemma_position(h.names, k, 0);
        lemma_position_push(g.names, key, k, 0);
    }
    assert(h.as_map() =~= g.as_map().insert(key, value));
}

/// The global variables.
#[derive(Debug)]
pub struct Globals {
    names: Vec<String>,
    values: Vec<Value>,
}

impl View for Globals {
    type V = GlobalsView;

    closed spec fn view(&self) -> GlobalsView {
        GlobalsView { names: strings_view(self.names@), values: values_view(self.values@) }
    }
}

impl Globals {
    pub fn new() -> (r: Globals)
        ensures
            r@ == GlobalsView::empty(),
            r@.wf(),
    {
        let r = Globals { names: Vec::new(), values: Vec::new() };
        assert(r@.names =~= Seq::<Seq<char>>::empty());
        assert(r@.values =~= Seq::<ValueView>::empty());
        r
    }

    fn find(&self, key: &String) -> (i: usize)
        requires
            self@.names.len() == self@.values.len(),
        ensures
            i == position(self@.names, key@, 0),
            i <= self@.names.len(),
    {
        let mut i: usize = 0;
        proof {
            lemma_position(self@.names, key@, 0);
        }
        while i < self.names.len()
            invariant
                i <= self.names@.len(),
                position(self@.names, key@, i as int) == position(self@.names, key@, 0),
            decreases self.names@.len() - i,
        {
            if self.names[i] == *key {
                return i;
            }
            i += 1;
        }
        i
    }

    /// Is the name bound?
    pub fn contains_key(&self, key: &String) -> (r: bool)
        requires
            self@.wf(),
        ensures
            r == self@.contains(key@),
    {
        self.find(key) < self.names.len()
    }

    /// The value bound to the name, if it is bound.
    pub fn get(&self, key: &String) -> (r: Option<Value>)
        requires
            self@.wf(),
        ensures
            r is Some == self@.contains(key@),
            r is Some ==> r->0@ == self@.get(key@),
    {
        let i = self.find(key);
        if i < self.names.len() {
            Some(self.values[i].clone())
        } else {
            None
        }
    }

    /// Binds the name to the value.
    pub fn insert(&mut self, key: String, value: Value)
        requires
            old(self)@.wf(),
        ensures
            final(self)@ == old(self)@.insert(key@, value@),
            final(self)@.wf(),
    {
        proof {
            lemma_insert(self@, key@, value@);
        }
        let i = self.find(&key);
        if i < self.names.len() {
            self.values[i] = value;
            assert(self@.values =~= old(self)@.values.update(i as int, value@));
        } else {
            self.names.push(key);
            self.values.push(value);
            assert(self@.names =~= old(self)@.names.push(key@));
            assert(self@.values =~= old(self)@.values.push(value@));
        }
    }
}

} // verus!
