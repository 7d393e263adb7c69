use vstd::prelude::*;

verus! {

/// A dynamically typed property value.
///
/// Documents never coerce between these shapes: a typed read either finds
/// exactly this shape or reports a mismatch. Numbers are fixed-point
/// decimals counted in hundredths (`500` stands for `5.00`), so that
/// fractional wire values have an exact representation.
#[derive(Debug)]
pub enum Value {
    Bool(bool),
    Number(i64),
    Text(String),
}

/// The mathematical shape of a [`Value`]: text is a sequence of characters.
pub enum ValueV {
    Bool(bool),
    Number(i64),
    Text(Seq<char>),
}

impl View for Value {
    type V = ValueV;

    open spec fn view(&self) -> ValueV {
        match self {
            Value::Bool(b) => ValueV::Bool(*b),
            Value::Number(n) => ValueV::Number(*n),
            Value::Text(s) => ValueV::Text(s@),
        }
    }
}

/// Why a typed property read failed.
///
/// The two cases are deliberately distinguishable: an absent path is a soft
/// signal (the counterpart does not support an extension), while a present
/// path of the wrong type is a hard signal (the counterpart is malformed).
#[derive(Clone, Copy, Debug, PartialEq, Eq, Structural)]
pub enum PropertyError {
    NotFound,
    TypeMismatch,
}

/// A Rust type a property can be read as through [`ProposalView::get_typed`].
pub trait PropertyType: Sized {
    /// Whether a document value has this type's shape.
    spec fn matches_value(v: ValueV) -> bool;

    /// The document value this typed value stands for.
    spec fn as_value(self) -> ValueV;

    /// Extracts a typed copy out of a dynamically typed value,
    /// without coercion.
    fn from_value(v: &Value) -> (extracted: Option<Self>)
        ensures
            extracted is Some <==> Self::matches_value(v@),
            extracted matches Some(t) ==> t.as_value() == v@,
    ;
}

impl PropertyType for bool {
    open spec fn matches_value(v: ValueV) -> bool {
        v is Bool
    }

    open spec fn as_value(self) -> ValueV {
        ValueV::Bool(self)
    }

    fn from_value(v: &Value) -> (extracted: Option<bool>) {
        match v {
            Value::Bool(b) => Some(*b),
            _ => None,
        }
    }
}

impl PropertyType for i64 {
    open spec fn matches_value(v: ValueV) -> bool {
        v is Number
    }

    open spec fn as_value(self) -> ValueV {
        ValueV::Number(self)
    }

    fn from_value(v: &Value) -> (extracted: Option<i64>) {
        match v {
            Value::Number(n) => Some(*n),
            _ => None,
        }
    }
}

impl PropertyType for String {
    open spec fn matches_value(v: ValueV) -> bool {
        v is Text
    }

    open spec fn as_value(self) -> ValueV {
        ValueV::Text(self@)
    }

    fn from_value(v: &Value) -> (extracted: Option<String>) {
        match v {
            Value::Text(s) => Some(s.clone()),
            _ => None,
        }
    }
}

/// The map a list of keyed entries denotes; later entries win, though a
/// well-formed document never repeats a key.
spec fn entries_map(s: Seq<(String, Value)>) -> Map<Seq<char>, ValueV>
    decreases s.len(),
{
    if s.len() == 0 {
        Map::empty()
    } else {
        entries_map(s.drop_last()).insert(s.last().0@, s.last().1@)
    }
}

/// No two entries share a key.
spec fn entries_unique(s: Seq<(String, Value)>) -> bool {
    forall|i: int, j: int|
        0 <= i < j < s.len() ==> (#[trigger] s[i].0)@ != (#[trigger] s[j].0)@
}

proof fn lemma_entries_map_contains(s: Seq<(String, Value)>, k: Seq<char>)
    ensures
        entries_map(s).dom().contains(k) <==> exists|i: int| 0 <= i < s.len() && (#[trigger] s[i].0)@ == k,
    decreases s.len(),
{
    if s.len() > 0 {
        lemma_entries_map_contains(s.drop_last(), k);
        if s.last().0@ == k {
            assert(s[s.len() - 1].0@ == k);
        } else {
            if exists|i: int| 0 <= i < s.len() && (#[trigger] s[i].0)@ == k {
                let i = choose|i: int| 0 <= i < s.len() && (#[trigger] s[i].0)@ == k;
                assert(i < s.len() - 1);
                assert(s.drop_last()[i].0@ == k);
            }
            if exists|i: int| 0 <= i < s.drop_last().len() && (#[trigger] s.drop_last()[i].0)@ == k {
                let i = choose|i: int| 0 <= i < s.drop_last().len() && (#[trigger] s.drop_last()[i].0)@ == k;
                assert(s[i].0@ == k);
            }
        }
    }
}

proof fn lemma_entries_map_index(s: Seq<(String, Value)>, i: int)
    requires
        entries_unique(s),
        0 <= i < s.len(),
    ensures
        entries_map(s).dom().contains(s[i].0@),
        entries_map(s)[s[i].0@] == s[i].1@,
    decreases s.len(),
{
    if i < s.len() - 1 {
        assert(entries_unique(s.drop_last())) by {
            assert(forall|p: int, q: int|
                0 <= p < q < s.drop_last().len() ==> (#[trigger] s.drop_last()[p].0)@
                    != (#[trigger] s.drop_last()[q].0)@) by {
                assert(forall|p: int| 0 <= p < s.drop_last().len() ==> s.drop_last()[p] == s[p]);
            }
        }
        lemma_entries_map_index(s.drop_last(), i);
        assert(s.drop_last()[i] == s[i]);
        assert(s.last().0@ != s[i].0@);
    }
}

proof fn lemma_entries_map_update(s: Seq<(String, Value)>, i: int, v: Value)
    requires
        entries_unique(s),
        0 <= i < s.len(),
    ensures
        entries_map(s.update(i, (s[i].0, v))) == entries_map(s).insert(s[i].0@, v@),
    decreases s.len(),
{
    let s2 = s.update(i, (s[i].0, v));
    if i == s.len() - 1 {
        assert(s2.drop_last() =~= s.drop_last());
        assert(entries_map(s2) == entries_map(s.drop_last()).insert(s[i].0@, v@));
        assert(entries_map(s).insert(s[i].0@, v@) =~= entries_map(s.drop_last()).insert(
            s[i].0@,
            v@,
        ));
    } else {
        assert(entries_unique(s.drop_last())) by {
            assert(forall|p: int| 0 <= p < s.drop_last().len() ==> s.drop_last()[p] == s[p]);
        }
        lemma_entries_map_update(s.drop_last(), i, v);
        assert(s2.drop_last() =~= s.drop_last().update(i, (s[i].0, v)));
        assert(s2.last() == s.last());
        assert(s.last().0@ != s[i].0@);
        assert(entries_map(s2) == entries_map(s.drop_last()).insert(s[i].0@, v@).insert(
            s.last().0@,
            s.last().1@,
        ));
        assert(entries_map(s.drop_last()).insert(s[i].0@, v@).insert(s.last().0@, s.last().1@)
            =~= entries_map(s.drop_last()).insert(s.last().0@, s.last().1@).insert(s[i].0@, v@));
    }
}

/// The Property Document: one side's proposal state, an ordered mapping
/// from dotted path keys to dynamically typed values.
///
/// A document constructed for a negotiation round is treated as immutable
/// by readers; a component that amends the Offer works on its own owned
/// value, so in-flight copies are never disturbed. Its mathematical view
/// is the map from path character sequences to value shapes.
#[derive(Debug)]
pub struct ProposalView {
    entries: Vec<(String, Value)>,
}

impl View for ProposalView {
    type V = Map<Seq<char>, ValueV>;

    closed spec fn view(&self) -> Map<Seq<char>, ValueV> {
        entries_map(self.entries@)
    }
}

impl ProposalView {
    #[verifier::type_invariant]
    spec fn wf(self) -> bool {
        entries_unique(self.entries@)
    }

    /// An empty document.
    pub fn new() -> (doc: ProposalView)
        ensures
            doc@ == Map::<Seq<char>, ValueV>::empty(),
    {
        ProposalView { entries: Vec::new() }
    }

    /// The number of properties the document holds.
    pub closed spec fn entry_len(self) -> nat {
        self.entries@.len()
    }

    pub fn entry_count(&self) -> (n: usize)
        ensures
            n == self.entry_len(),
    {
        self.entries.len()
    }

    /// One stored property, for callers that export the document.
    pub fn entry_at(&self, i: usize) -> (entry: (&String, &Value))
        requires
            i < self.entry_len(),
        ensures
            self@.dom().contains(entry.0@),
            self@[entry.0@] == entry.1@,
    {
        proof {
            use_type_invariant(&*self);
            lemma_entries_map_index(self.entries@, i as int);
        }
        (&self.entries[i].0, &self.entries[i].1)
    }

    /// Typed, path-addressed read.
    ///
    /// Yields exactly one of: the value, present and of type `T`;
    /// `NotFound` for an absent path; `TypeMismatch` for a path holding a
    /// value of another type.
    pub fn get_typed<T: PropertyType>(&self, path: &str) -> (found: Result<T, PropertyError>)
        ensures
            !self@.dom().contains(path@) ==> found == Err::<T, PropertyError>(
                PropertyError::NotFound,
            ),
            self@.dom().contains(path@) && T::matches_value(self@[path@]) ==> (found matches Ok(t)
                && t.as_value() == self@[path@]),
            self@.dom().contains(path@) && !T::matches_value(self@[path@]) ==> found == Err::<
                T,
                PropertyError,
            >(PropertyError::TypeMismatch),
    {
        proof {
            use_type_invariant(&*self);
        }
        let key: String = path.to_owned();
        let n = self.entries.len();
        let mut i: usize = 0;
        while i < n
            invariant
                n == self.entries@.len(),
                i <= n,
                key@ == path@,
                entries_unique(self.entries@),
                self@ == entries_map(self.entries@),
                forall|j: int| 0 <= j < i ==> (#[trigger] self.entries@[j].0)@ != path@,
            decreases n - i,
        {
            if self.entries[i].0 == key {
                proof {
                    lemma_entries_map_index(self.entries@, i as int);
                }
                return match T::from_value(&self.entries[i].1) {
                    Some(t) => Ok(t),
                    None => Err(PropertyError::TypeMismatch),
                };
            }
            i += 1;
        }
        proof {
            lemma_entries_map_contains(self.entries@, path@);
        }
        Err(PropertyError::NotFound)
    }

    /// Sets the property at `path` to `value`, overwriting any previous
    /// value there and leaving every other path untouched.
    pub fn set_property(&mut self, path: &str, value: Value)
        ensures
            final(self)@ == old(self)@.insert(path@, value@),
    {
        proof {
            use_type_invariant(&*self);
        }
        let mut entries: Vec<(String, Value)> = Vec::new();
        core::mem::swap(&mut entries, &mut self.entries);
        let ghost s0 = entries@;
        let key: String = path.to_owned();
        let n = entries.len();
        let mut i: usize = 0;
        while i < n
            invariant
                n == entries@.len(),
                i <= n,
                key@ == path@,
                entries@ == s0,
                s0 == old(self).entries@,
                entries_unique(s0),
                forall|j: int| 0 <= j < i ==> (#[trigger] entries@[j].0)@ != path@,
            decreases n - i,
        {
            if entries[i].0 == key {
                let (stored_key, _previous) = entries.remove(i);
                entries.insert(i, (stored_key, value));
                proof {
                    assert(entries@ =~= s0.update(i as int, (s0[i as int].0, value)));
                    lemma_entries_map_update(s0, i as int, value);
                    assert(s0[i as int].0@ == path@);
                    assert(old(self).entries@ == s0);
                    assert(old(self)@ == entries_map(s0));
                    assert(entries_map(entries@) == entries_map(s0).insert(
                        s0[i as int].0@,
                        value@,
                    ));
                    assert(entries_unique(entries@)) by {
                        assert(forall|p: int|
                            0 <= p < entries@.len() ==> (#[trigger] entries@[p].0)@ == s0[p].0@);
                    }
                    assert(entries_map(entries@) =~= old(self)@.insert(path@, value@));
                }
                self.entries = entries;
                return ;
            }
            i += 1;
        }
        entries.push((key, value));
        proof {
            assert(entries@.drop_last() =~= s0);
            assert(entries_map(entries@) == entries_map(s0).insert(path@, value@));
            assert(entries_unique(entries@)) by {
                assert(forall|p: int|
                    0 <= p < s0.len() ==> (#[trigger] entries@[p].0)@ == s0[p].0@);
                assert(entries@[entries@.len() - 1].0@ == path@);
            }
        }
        self.entries = entries;
    }
}

/// The Offer Template: the builder-style document a pipeline enriches
/// while the initial Offer is constructed, before any negotiation step.
#[derive(Debug)]
pub struct OfferDefinition {
    /// The in-progress Offer document.
    pub offer: ProposalView,
}

impl View for OfferDefinition {
    type V = Map<Seq<char>, ValueV>;

    open spec fn view(&self) -> Map<Seq<char>, ValueV> {
        self.offer@
    }
}

impl OfferDefinition {
    /// An empty template.
    pub fn new() -> (template: OfferDefinition)
        ensures
            template@ == Map::<Seq<char>, ValueV>::empty(),
    {
        OfferDefinition { offer: ProposalView::new() }
    }
}

} // verus!
