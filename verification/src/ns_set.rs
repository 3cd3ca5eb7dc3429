//! A verified model of the Foundation-style immutable set: an unordered
//! collection of unique elements, with an array conversion and the usual
//! membership and comparison queries.

use vstd::prelude::*;
use vstd::seq_lib::*;

use crate::ns_value::Message;

verus! {

/// The mathematical values of a sequence of elements.
pub open spec fn views_of<T: Message>(s: Seq<T>) -> Seq<T::V> {
    s.map_values(|t: T| t@)
}

proof fn lemma_push_to_set<A>(s: Seq<A>, x: A)
    ensures
        s.push(x).to_set() =~= s.to_set().insert(x),
{
    assert forall|a: A| s.push(x).to_set().contains(a) implies s.to_set().insert(x).contains(a) by {
        let i = choose|i: int| 0 <= i < s.push(x).len() && s.push(x)[i] == a;
        if i < s.len() {
            assert(s[i] == a);
            assert(s.contains(a));
        }
    }
    assert forall|a: A| s.to_set().insert(x).contains(a) implies s.push(x).to_set().contains(a) by {
        if s.contains(a) {
            let i = choose|i: int| 0 <= i < s.len() && s[i] == a;
            assert(s.push(x)[i] == a);
        } else {
            assert(s.push(x)[s.len() as int] == x);
        }
        assert(s.push(x).contains(a));
    }
}

/// Each value's first sighting, in order: the sequence with every later
/// repetition removed.
pub open spec fn spec_first_occurrences<A>(s: Seq<A>) -> Seq<A>
    decreases s.len(),
{
    if s.len() == 0 {
        s
    } else {
        let init = spec_first_occurrences(s.drop_last());
        if init.contains(s.last()) {
            init
        } else {
            init.push(s.last())
        }
    }
}

/// Keeping first sightings drops no value and introduces no duplicate.
pub proof fn lemma_first_occurrences<A>(s: Seq<A>)
    ensures
        spec_first_occurrences(s).to_set() == s.to_set(),
        spec_first_occurrences(s).no_duplicates(),
    decreases s.len(),
{
    if s.len() > 0 {
        lemma_first_occurrences(s.drop_last());
        let init = spec_first_occurrences(s.drop_last());
        assert(s =~= s.drop_last().push(s.last()));
        lemma_push_to_set(s.drop_last(), s.last());
        assert(s.to_set() =~= s.drop_last().to_set().insert(s.last()));
        if init.contains(s.last()) {
            assert(init.to_set().contains(s.last()));
            assert(s.drop_last().to_set().contains(s.last()));
            assert(init.to_set() =~= s.drop_last().to_set().insert(s.last()));
            assert(init.to_set() =~= s.to_set());
        } else {
            lemma_push_to_set(init, s.last());
            assert(init.push(s.last()).to_set() =~= s.drop_last().to_set().insert(s.last()));
            assert(init.push(s.last()).to_set() =~= s.to_set());
        }
    }
}

/// An immutable set of unique elements.
#[derive(Debug)]
pub struct NSSet<T: Message> {
    items: Vec<T>,
}

impl<T: Message> NSSet<T> {
    /// No two stored elements share a mathematical value.
    #[verifier::type_invariant]
    closed spec fn inv(self) -> bool {
        views_of(self.items@).no_duplicates()
    }

    /// The stored elements' values, in enumeration order.
    pub closed spec fn elems(&self) -> Seq<T::V> {
        views_of(self.items@)
    }

}

impl<T: Message> View for NSSet<T> {
    type V = Set<T::V>;

    closed spec fn view(&self) -> Set<T::V> {
        views_of(self.items@).to_set()
    }
}

/// Whether some stored element has the value of `x`.
fn has_value<T: Message>(items: &Vec<T>, x: &T) -> (r: bool)
    ensures
        r == views_of(items@).contains(x@),
{
    let mut i: usize = 0;
    while i < items.len()
        invariant
            i <= items.len(),
            forall|j: int| 0 <= j < i ==> views_of(items@)[j] != x@,
        decreases items.len() - i,
    {
        if items[i].eq_value(x) {
            proof {
                assert(views_of(items@)[i as int] == x@);
            }
            return true;
        }
        proof {
            assert(views_of(items@)[i as int] != x@);
        }
        i = i + 1;
    }
    proof {
        if views_of(items@).contains(x@) {
            let j = choose|j: int|
                0 <= j < views_of(items@).len() && views_of(items@)[j] == x@;
            assert(false);
        }
    }
    false
}

/// Clone a sequence of elements, preserving their values.
fn clone_items<T: Message>(items: &Vec<T>) -> (r: Vec<T>)
    ensures
        views_of(r@) == views_of(items@),
{
    let mut out: Vec<T> = Vec::new();
    let mut i: usize = 0;
    proof {
        assert(views_of(out@) =~= views_of(items@).subrange(0, 0));
    }
    while i < items.len()
        invariant
            i <= items.len(),
            views_of(out@) == views_of(items@).subrange(0, i as int),
        decreases items.len() - i,
    {
        let ghost before = out@;
        let duplicate = items[i].clone_value();
        proof {
            assert(duplicate@ == items@[i as int]@);
        }
        out.push(duplicate);
        proof {
            assert(out@ == before.push(duplicate));
            assert(views_of(out@) =~= views_of(before).push(duplicate@));
            assert(views_of(out@) =~= views_of(items@).subrange(0, i as int + 1));
        }
        i = i + 1;
    }
    proof {
        assert(views_of(items@).subrange(0, items@.len() as int) =~= views_of(items@));
    }
    out
}

/// Construct a set from the given objects, keeping the first sighting of
/// each value.
fn with_objects<T: Message>(objects: &[T]) -> (r: NSSet<T>)
    ensures
        r@ == views_of(objects@).to_set(),
        r.elems() == spec_first_occurrences(views_of(objects@)),
{
    let mut items: Vec<T> = Vec::new();
    let mut i: usize = 0;
    proof {
        assert(views_of(items@) =~= Seq::<T::V>::empty());
        assert(views_of(objects@.subrange(0, 0)) =~= Seq::<T::V>::empty());
        assert(views_of(items@) =~= spec_first_occurrences(views_of(objects@.subrange(0, 0))));
    }
    while i < objects.len()
        invariant
            i <= objects@.len(),
            views_of(items@) == spec_first_occurrences(views_of(objects@.subrange(0, i as int))),
        decreases objects@.len() - i,
    {
        let x = vstd::slice::slice_index_get(objects, i);
        let ghost before = views_of(items@);
        let seen = has_value(&items, x);
        if !seen {
            items.push(x.clone_value());
            proof {
                assert(views_of(items@) =~= before.push(x@));
            }
        }
        proof {
            let prefix = views_of(objects@.subrange(0, i as int));
            let extended = views_of(objects@.subrange(0, i as int + 1));
            assert(extended =~= prefix.push(objects@[i as int]@));
            assert(objects@[i as int]@ == x@);
            assert(extended.drop_last() =~= prefix);
            assert(extended.last() == x@);
            assert(views_of(items@) =~= spec_first_occurrences(extended));
        }
        i = i + 1;
    }
    proof {
        assert(objects@.subrange(0, objects@.len() as int) =~= objects@);
        lemma_first_occurrences(views_of(objects@));
    }
    let r = NSSet { items };
    r
}

impl<T: Message> NSSet<T> {
    /// Creates an empty set.
    pub fn new() -> (r: Self)
        ensures
            r@ == Set::<T::V>::empty(),
            r.elems() == Seq::<T::V>::empty(),
    {
        let items: Vec<T> = Vec::new();
        proof {
            assert(views_of(items@) =~= Seq::<T::V>::empty());
            assert(views_of(items@).to_set() =~= Set::<T::V>::empty());
        }
        NSSet { items }
    }

    /// Creates a set holding the values of a vector's elements, each value's
    /// first sighting kept, in order.
    pub fn from_vec(vec: Vec<T>) -> (r: Self)
        ensures
            r@ == views_of(vec@).to_set(),
            r.elems() == spec_first_occurrences(views_of(vec@)),
    {
        with_objects(vec.as_slice())
    }

    /// Creates a set holding the values of a slice's elements, each value's
    /// first sighting kept, in order.
    pub fn from_slice(slice: &[T]) -> (r: Self)
        ensures
            r@ == views_of(slice@).to_set(),
            r.elems() == spec_first_occurrences(views_of(slice@)),
    {
        with_objects(slice)
    }

    /// Returns the number of elements in the set.
    pub fn len(&self) -> (r: usize)
        ensures
            r == self@.len(),
    {
        proof {
            use_type_invariant(self);
            views_of(self.items@).unique_seq_to_set();
        }
        self.items.len()
    }

    /// Returns `true` if the set contains no elements.
    pub fn is_empty(&self) -> (r: bool)
        ensures
            r == (self@.len() == 0),
    {
        self.len() == 0
    }

    /// Returns `true` if the set contains a value.
    pub fn contains(&self, value: &T) -> (r: bool)
        ensures
            r == self@.contains(value@),
    {
        has_value(&self.items, value)
    }

    /// Returns a reference to the value in the set, if any, that is equal
    /// to the given value.
    pub fn get<'a>(&'a self, value: &T) -> (r: Option<&'a T>)
        ensures
            match r {
                Some(x) => self@.contains(value@) && x@ == value@,
                None => !self@.contains(value@),
            },
    {
        let mut i: usize = 0;
        while i < self.items.len()
            invariant
                i <= self.items@.len(),
                forall|j: int| 0 <= j < i ==> views_of(self.items@)[j] != value@,
            decreases self.items@.len() - i,
        {
            if self.items[i].eq_value(value) {
                proof {
                    assert(views_of(self.items@)[i as int] == value@);
                }
                return Some(&self.items[i]);
            }
            proof {
                assert(views_of(self.items@)[i as int] != value@);
            }
            i = i + 1;
        }
        proof {
            if self@.contains(value@) {
                let j = choose|j: int|
                    0 <= j < views_of(self.items@).len() && views_of(self.items@)[j] == value@;
                assert(false);
            }
        }
        None
    }

    /// Returns a reference to one of the objects in the set, or `None` if
    /// the set is empty.
    pub fn get_any<'a>(&'a self) -> (r: Option<&'a T>)
        ensures
            match r {
                Some(x) => self@.contains(x@),
                None => self@.len() == 0,
            },
    {
        if self.items.len() == 0 {
            proof {
                assert(views_of(self.items@) =~= Seq::<T::V>::empty());
                assert(views_of(self.items@).to_set() =~= Set::<T::V>::empty());
            }
            None
        } else {
            proof {
                assert(views_of(self.items@)[0] == self.items@[0]@);
            }
            Some(&self.items[0])
        }
    }

    /// The set's elements, in enumeration order.
    pub fn iter(&self) -> (r: Vec<T>)
        ensures
            views_of(r@) == self.elems(),
    {
        clone_items(&self.items)
    }

    /// The set's elements, in enumeration order.
    pub fn iter_fast(&self) -> (r: Vec<T>)
        ensures
            views_of(r@) == self.elems(),
    {
        clone_items(&self.items)
    }

    /// Returns a vector of the set's elements, consuming the set.
    pub fn into_vec(set: Self) -> (r: Vec<T>)
        ensures
            views_of(r@) == set.elems(),
    {
        let NSSet { items } = set;
        items
    }

    /// Returns an array of the set's elements.
    pub fn to_array(&self) -> (r: NSArray<T>)
        ensures
            r@ == self.elems(),
    {
        NSArray { items: clone_items(&self.items) }
    }

    /// Returns `true` if `other` contains at least all the values in `self`.
    pub fn is_subset(&self, other: &NSSet<T>) -> (r: bool)
        ensures
            r == self@.subset_of(other@),
    {
        let mut i: usize = 0;
        while i < self.items.len()
            invariant
                i <= self.items@.len(),
                forall|j: int| 0 <= j < i ==> other@.contains(#[trigger] views_of(self.items@)[j]),
            decreases self.items@.len() - i,
        {
            let present = other.contains(&self.items[i]);
            if !present {
                proof {
                    assert(views_of(self.items@)[i as int] == self.items@[i as int]@);
                    assert(self@.contains(self.items@[i as int]@));
                    assert(!self@.subset_of(other@));
                }
                return false;
            }
            proof {
                assert(views_of(self.items@)[i as int] == self.items@[i as int]@);
            }
            i = i + 1;
        }
        proof {
            assert forall|a: T::V| self@.contains(a) implies other@.contains(a) by {
                let j = choose|j: int|
                    0 <= j < views_of(self.items@).len() && views_of(self.items@)[j] == a;
            }
        }
        true
    }

    /// Returns `true` if `self` contains at least all the values in `other`.
    pub fn is_superset(&self, other: &NSSet<T>) -> (r: bool)
        ensures
            r == other@.subset_of(self@),
    {
        other.is_subset(self)
    }

    /// Whether the two sets share any value.
    fn intersects_set(&self, other: &NSSet<T>) -> (r: bool)
        ensures
            r == exists|a: T::V| self@.contains(a) && other@.contains(a),
    {
        let mut i: usize = 0;
        while i < self.items.len()
            invariant
                i <= self.items@.len(),
                forall|j: int| 0 <= j < i ==> !other@.contains(#[trigger] views_of(self.items@)[j]),
            decreases self.items@.len() - i,
        {
            let present = other.contains(&self.items[i]);
            if present {
                proof {
                    assert(views_of(self.items@)[i as int] == self.items@[i as int]@);
                    assert(self@.contains(self.items@[i as int]@) && other@.contains(
                        self.items@[i as int]@,
                    ));
                }
                return true;
            }
            proof {
                assert(views_of(self.items@)[i as int] == self.items@[i as int]@);
            }
            i = i + 1;
        }
        proof {
            if exists|a: T::V| self@.contains(a) && other@.contains(a) {
                let a = choose|a: T::V| self@.contains(a) && other@.contains(a);
                let j = choose|j: int|
                    0 <= j < views_of(self.items@).len() && views_of(self.items@)[j] == a;
                assert(false);
            }
        }
        false
    }

    /// Returns `true` if `self` has no elements in common with `other`.
    pub fn is_disjoint(&self, other: &NSSet<T>) -> (r: bool)
        ensures
            r == self@.disjoint(other@),
    {
        let r = !self.intersects_set(other);
        proof {
            if r {
                assert forall|a: T::V| self@.contains(a) implies !other@.contains(a) by {}
            }
        }
        r
    }

    /// Returns a copy of the set, element values preserved.
    pub fn copy(&self) -> (r: Self)
        ensures
            r@ == self@,
            r.elems() == self.elems(),
    {
        proof {
            use_type_invariant(self);
        }
        let items = clone_items(&self.items);
        NSSet { items }
    }

    /// The set's debug text: brace-wrapped, comma-separated descriptions of
    /// the elements' values, in enumeration order.
    pub fn debug_string(&self) -> (r: String)
        ensures
            r@ == "{"@ + spec_comma_join(spec_descriptions_of::<T>(self.elems())) + "}"@,
    {
        let ghost ds = spec_descriptions_of::<T>(self.elems());
        let mut out = String::new();
        out.append("{");
        let mut i: usize = 0;
        proof {
            assert(ds.subrange(0, 0) =~= Seq::<Seq<char>>::empty());
            assert(out@ =~= "{"@ + spec_comma_join(ds.subrange(0, 0)));
        }
        while i < self.items.len()
            invariant
                i <= self.items@.len(),
                ds == spec_descriptions_of::<T>(self.elems()),
                out@ == "{"@ + spec_comma_join(ds.subrange(0, i as int)),
            decreases self.items@.len() - i,
        {
            if i > 0 {
                out.append(", ");
            }
            let d = self.items[i].describe();
            out.append(d.as_str());
            proof {
                assert(ds[i as int] == T::describe_of(self.items@[i as int]@));
                assert(ds.subrange(0, i as int + 1).drop_last() =~= ds.subrange(0, i as int));
                assert(ds.subrange(0, i as int + 1).last() == ds[i as int]);
                assert(out@ =~= "{"@ + spec_comma_join(ds.subrange(0, i as int + 1)));
            }
            i = i + 1;
        }
        out.append("}");
        proof {
            assert(ds.subrange(0, ds.len() as int) =~= ds);
            assert(out@ =~= "{"@ + spec_comma_join(ds) + "}"@);
        }
        out
    }
}

/// The descriptions of a sequence of element values, in order.
pub open spec fn spec_descriptions_of<T: Message>(vs: Seq<T::V>) -> Seq<Seq<char>> {
    vs.map_values(|v: T::V| T::describe_of(v))
}

/// Comma-separated concatenation.
pub open spec fn spec_comma_join(ds: Seq<Seq<char>>) -> Seq<char>
    decreases ds.len(),
{
    if ds.len() == 0 {
        Seq::empty()
    } else if ds.len() == 1 {
        ds[0]
    } else {
        spec_comma_join(ds.drop_last()) + ", "@ + ds.last()
    }
}

impl<T: Message> PartialEq for NSSet<T> {
    /// Two sets are equal when they hold the same values.
    fn eq(&self, other: &Self) -> (r: bool) {
        let forward = self.is_subset(other);
        let backward = other.is_subset(self);
        let r = forward && backward;
        proof {
            if r {
                assert(self@ =~= other@);
            }
        }
        r
    }
}

impl<T: Message> vstd::std_specs::cmp::PartialEqSpecImpl for NSSet<T> {
    open spec fn obeys_eq_spec() -> bool {
        true
    }

    open spec fn eq_spec(&self, other: &Self) -> bool {
        self@ == other@
    }
}

impl<T: Message> Default for NSSet<T> {
    /// The default set is empty.
    fn default() -> (r: Self)
        ensures
            r@ == Set::<T::V>::empty(),
    {
        NSSet::new()
    }
}

/// An immutable array of elements, as handed out by the set's array
/// conversion.
#[derive(Debug)]
pub struct NSArray<T: Message> {
    items: Vec<T>,
}

impl<T: Message> View for NSArray<T> {
    type V = Seq<T::V>;

    closed spec fn view(&self) -> Seq<T::V> {
        views_of(self.items@)
    }
}

impl<T: Message> NSArray<T> {
    /// Returns the number of elements in the array.
    pub fn len(&self) -> (r: usize)
        ensures
            r == self@.len(),
    {
        self.items.len()
    }

    /// The array's elements, in order.
    pub fn iter(&self) -> (r: Vec<T>)
        ensures
            views_of(r@) == self@,
    {
        clone_items(&self.items)
    }
}

} // verus!
