//! Interned symbols: strings are stored once in a [`StringInterner`] and
//! named afterwards by a small, cheaply compared [`Symbol`].

use bimap::BiHashMap;
use vstd::prelude::*;

verus! {

/// A handle for an interned string. Two symbols of one interner are equal
/// exactly when they stand for the same string.
#[derive(Copy, Clone, Debug, PartialEq, Eq, Hash, Structural)]
pub struct Symbol {
    pub index: u64,
}

/// The bijective map of the `bimap` crate. Verus sees it as an opaque value;
/// what it holds is named by [`bimap_pairs`].
#[verifier::external_type_specification]
#[verifier::external_body]
#[verifier::reject_recursive_types(L)]
#[verifier::reject_recursive_types(R)]
#[verifier::reject_recursive_types(LS)]
#[verifier::reject_recursive_types(RS)]
pub struct ExBiHashMap<L, R, LS, RS>(BiHashMap<L, R, LS, RS>);

/// The left-right pairs that a bimap of strings and numbers holds, as the
/// map from each left value to its right value.
pub uninterp spec fn bimap_pairs(m: BiHashMap<String, u64>) -> Map<
    Seq<char>,
    u64,
>;

/// What a bimap holds after the pair `(left, right)` was inserted into
/// one that held `pairs`: every pair that shares its left or its right value
/// with the new pair is gone, and the new pair is there.
pub open spec fn pairs_after_insert(pairs: Map<Seq<char>, u64>, left: Seq<char>, right: u64) -> Map<
    Seq<char>,
    u64,
> {
    Map::new(
        |l: Seq<char>| l == left || (pairs.dom().contains(l) && pairs[l] != right),
        |l: Seq<char>|
            if l == left {
                right
            } else {
                pairs[l]
            },
    )
}

/// The pairs of an empty bimap.
pub open spec fn no_pairs() -> Map<Seq<char>, u64> {
    Map::empty()
}

/// Trusted: `BiHashMap::new` makes a bimap without pairs.
#[verifier::external_body]
fn bimap_new() -> (m: BiHashMap<String, u64>)
    ensures
        bimap_pairs(m) == no_pairs(),
{
    BiHashMap::new()
}

/// Trusted: `BiHashMap::get_by_left` returns the right value paired with
/// `left`, or `None` where no pair has that left value.
#[verifier::external_body]
fn bimap_get_by_left(m: &BiHashMap<String, u64>, left: &str) -> (r:
    Option<u64>)
    ensures
        r == if bimap_pairs(*m).dom().contains(left@) {
            Some(bimap_pairs(*m)[left@])
        } else {
            None
        },
{
    m.get_by_left(left).copied()
}

/// Trusted: `BiHashMap::get_by_right` returns a left value whose pair has
/// the right value `right`, or `None` where no pair has that right value.
#[verifier::external_body]
fn bimap_get_by_right(m: &BiHashMap<String, u64>, right: u64) -> (r:
    Option<String>)
    ensures
        match r {
            Some(left) => bimap_pairs(*m).dom().contains(left@) && bimap_pairs(*m)[left@] == right,
            None => forall|l: Seq<char>| #[trigger]
                bimap_pairs(*m).dom().contains(l) ==> bimap_pairs(*m)[l] != right,
        },
{
    m.get_by_right(&right).cloned()
}

/// Trusted: `BiHashMap::insert` removes every pair that has the left value
/// `left` or the right value `right`, then adds the pair `(left, right)`.
#[verifier::external_body]
fn bimap_insert(m: &mut BiHashMap<String, u64>, left: String, right: u64)
    ensures
        bimap_pairs(*final(m)) == pairs_after_insert(bimap_pairs(*old(m)), left@, right),
{
    m.insert(left, right);
}

/// Trusted: the `Clone` impl of `BiHashMap`, which makes a bimap with
/// clones of the same pairs.
#[verifier::external_body]
fn bimap_clone(m: &BiHashMap<String, u64>) -> (r: BiHashMap<String, u64>)
    ensures
        bimap_pairs(r) == bimap_pairs(*m),
{
    m.clone()
}

/// Stores each distinct string once and hands out a [`Symbol`] for it.
/// Symbols are numbered in the order in which their strings first came.
pub struct StringInterner {
    map: BiHashMap<String, u64>,
    current_index: u64,
}

impl Clone for StringInterner {
    fn clone(&self) -> (r: Self)
        ensures
            r.names() == self.names(),
            r.count() == self.count(),
            r.wf() == self.wf(),
    {
        Self { map: bimap_clone(&self.map), current_index: self.current_index }
    }
}

impl StringInterner {
    /// The interned strings, each with the index of its symbol.
    pub closed spec fn names(&self) -> Map<Seq<char>, u64> {
        bimap_pairs(self.map)
    }

    /// The number of interned strings, which is the index of the next symbol.
    pub closed spec fn count(&self) -> nat {
        self.current_index as nat
    }

    /// The indices in use are exactly those below `count`, and no two strings
    /// share one.
    pub open spec fn wf(&self) -> bool {
        &&& forall|s: Seq<char>| #[trigger]
            self.names().dom().contains(s) ==> self.names()[s] < self.count()
        &&& forall|s: Seq<char>, t: Seq<char>|
            #![trigger self.names()[s], self.names()[t]]
            self.names().dom().contains(s) && self.names().dom().contains(t) && self.names()[s]
                == self.names()[t] ==> s == t
        &&& forall|i: u64| i < self.count() ==> #[trigger] has_index(self.names(), i)
    }

    /// Whether `symbol` was handed out by this interner.
    pub open spec fn knows(&self, symbol: Symbol) -> bool {
        symbol.index < self.count()
    }

    /// The string that `symbol` stands for.
    pub open spec fn name_of(&self, symbol: Symbol) -> Seq<char> {
        name_in(self.names(), symbol)
    }

    pub fn new() -> (r: Self)
        ensures
            r.wf(),
            r.count() == 0,
            r.names() == Map::<Seq<char>, u64>::empty(),
    {
        Self { map: bimap_new(), current_index: 0 }
    }

    /// The symbol of `string` if it is interned already.
    pub fn lookup(&self, string: &str) -> (r: Option<Symbol>)
        ensures
            r == if self.names().dom().contains(string@) {
                Some(Symbol { index: self.names()[string@] })
            } else {
                None
            },
    {
        match bimap_get_by_left(&self.map, string) {
            Some(index) => Some(Symbol { index }),
            None => None,
        }
    }

    /// The number of interned strings.
    pub fn len(&self) -> (r: u64)
        ensures
            r == self.count(),
    {
        self.current_index
    }

    /// Whether another string can still be interned.
    pub fn has_room(&self) -> (r: bool)
        ensures
            r == (self.count() < u64::MAX),
    {
        self.current_index < u64::MAX
    }

    /// The symbol of `string`, which is interned first if it is new.
    pub fn intern(&mut self, string: &str) -> (symbol: Symbol)
        requires
            old(self).wf(),
            old(self).names().dom().contains(string@) || old(self).count() < u64::MAX,
        ensures
            final(self).wf(),
            final(self).names() == interned_names(old(self).names(), old(self).count(), string@),
            final(self).count() == interned_count(old(self).names(), old(self).count(), string@),
            symbol.index == final(self).names()[string@],
            final(self).names().dom().contains(string@),
    {
        if let Some(index) = bimap_get_by_left(&self.map, string) {
            return Symbol { index };
        }
        let symbol = Symbol { index: self.current_index };
        let ghost before = self.names();
        bimap_insert(&mut self.map, string.to_owned(), symbol.index);
        self.current_index = self.current_index + 1;
        proof {
            assert(self.names() =~= before.insert(string@, symbol.index));
            assert forall|i: u64| i < self.count() implies #[trigger] has_index(
                self.names(),
                i,
            ) by {
                if i < symbol.index {
                    assert(has_index(before, i));
                    let s = choose|s: Seq<char>| #[trigger]
                        before.dom().contains(s) && before[s] == i;
                    assert(self.names().dom().contains(s) && self.names()[s] == i);
                } else {
                    assert(self.names().dom().contains(string@) && self.names()[string@] == i);
                }
            }
        }
        symbol
    }

    /// Like [`StringInterner::intern`], for any interner: `None`, and nothing
    /// changed, where `string` is new and no index is left for it.
    pub fn try_intern(&mut self, string: &str) -> (r: Option<Symbol>)
        requires
            old(self).wf(),
        ensures
            final(self).wf(),
            old(self).names().dom().contains(string@) || old(self).count() < u64::MAX ==> {
                &&& r is Some
                &&& final(self).names() == interned_names(
                    old(self).names(),
                    old(self).count(),
                    string@,
                )
                &&& final(self).count() == interned_count(
                    old(self).names(),
                    old(self).count(),
                    string@,
                )
                &&& r->0.index == final(self).names()[string@]
            },
            !(old(self).names().dom().contains(string@) || old(self).count() < u64::MAX) ==> {
                &&& r is None
                &&& final(self).names() == old(self).names()
                &&& final(self).count() == old(self).count()
            },
    {
        if self.lookup(string).is_some() || self.has_room() {
            Some(self.intern(string))
        } else {
            None
        }
    }

    /// The string behind `symbol`, or `None` for a symbol that this interner
    /// never handed out.
    pub fn get(&self, symbol: &Symbol) -> (r: Option<String>)
        requires
            self.wf(),
        ensures
            r is Some == self.knows(*symbol),
            r matches Some(s) ==> s@ == self.name_of(*symbol),
    {
        let r = bimap_get_by_right(&self.map, symbol.index);
        proof {
            if symbol.index < self.count() {
                assert(has_index(self.names(), symbol.index));
                let s = choose|s: Seq<char>| #[trigger]
                    self.names().dom().contains(s) && self.names()[s] == symbol.index;
                assert(r is Some);
            }
            if r is Some {
                let s = r->0;
                assert(self.names()[s@] < self.count());
                let t = self.name_of(*symbol);
                assert(self.names().dom().contains(t) && self.names()[t] == symbol.index);
            }
        }
        r
    }
}

/// The string that `symbol` stands for among `names`.
pub open spec fn name_in(names: Map<Seq<char>, u64>, symbol: Symbol) -> Seq<char> {
    choose|s: Seq<char>| names.dom().contains(s) && names[s] == symbol.index
}

/// The string of a symbol that an interner knows is interned under the
/// index of the symbol.
pub proof fn lemma_name_of(interner: &StringInterner, symbol: Symbol)
    requires
        interner.wf(),
        interner.knows(symbol),
    ensures
        interner.names().dom().contains(interner.name_of(symbol)),
        interner.names()[interner.name_of(symbol)] == symbol.index,
{
    assert(has_index(interner.names(), symbol.index));
}

/// Whether some string has the index `i` among `names`.
pub open spec fn has_index(names: Map<Seq<char>, u64>, i: u64) -> bool {
    exists|s: Seq<char>| #[trigger] names.dom().contains(s) && names[s] == i
}

/// The names of an interner after `string` was interned into one with the
/// given names and count.
pub open spec fn interned_names(names: Map<Seq<char>, u64>, count: nat, string: Seq<char>) -> Map<
    Seq<char>,
    u64,
> {
    if names.dom().contains(string) {
        names
    } else {
        names.insert(string, count as u64)
    }
}

/// The count of an interner after `string` was interned into one with the
/// given names and count.
pub open spec fn interned_count(names: Map<Seq<char>, u64>, count: nat, string: Seq<char>) -> nat {
    if names.dom().contains(string) {
        count
    } else {
        count + 1
    }
}

} // verus!
