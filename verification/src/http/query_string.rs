//! The query string of a request target: `key=value` pairs joined by `&`.
use vstd::prelude::*;
use vstd::string::*;

use crate::text;
use crate::text::split_first;

verus! {

/// The byte that stands between two pairs.
pub const AMPERSAND: u8 = 0x26;

/// The byte that stands between a key and its value.
pub const EQUALS: u8 = 0x3d;

/// What a key of a query string stands for: the one value it was given, or
/// all of them in the order in which they were given.
#[derive(Debug, PartialEq, Eq)]
pub enum Value<'buf> {
    Single(&'buf str),
    Multiple(Vec<&'buf str>),
}

/// The model of a [`Value`]: each text by its bytes.
pub enum ValueView {
    Single(Seq<u8>),
    Multiple(Seq<Seq<u8>>),
}

impl ValueView {
    /// This value after the key was given `value` once more: a single value
    /// becomes a list of the earlier one and the new one, a list grows at its
    /// end.
    pub open spec fn with(self, value: Seq<u8>) -> ValueView {
        match self {
            ValueView::Single(earlier) => ValueView::Multiple(seq![earlier, value]),
            ValueView::Multiple(list) => ValueView::Multiple(list.push(value)),
        }
    }
}

/// The bytes of each text of a list.
pub open spec fn bytes_of_each(list: Seq<&str>) -> Seq<Seq<u8>> {
    Seq::new(list.len(), |i: int| list[i].spec_bytes())
}

impl<'buf> View for Value<'buf> {
    type V = ValueView;

    open spec fn view(&self) -> ValueView {
        match self {
            Value::Single(value) => ValueView::Single(value.spec_bytes()),
            Value::Multiple(list) => ValueView::Multiple(bytes_of_each(list@)),
        }
    }
}

/// Key and value of one piece of a query string: the parts before and behind
/// its first `=`, or the whole piece and the empty text if it holds none.
pub open spec fn pair(piece: Seq<u8>) -> (Seq<u8>, Seq<u8>) {
    match split_first(piece, set![EQUALS]) {
        Some((key, value)) => (key, value),
        None => (piece, Seq::empty()),
    }
}

/// The pairs of a query string, one for each piece between two `&`, in the
/// order in which they stand. A text without `&` is one piece, and so is the
/// empty text between two `&` or at either end.
pub open spec fn pairs(s: Seq<u8>) -> Seq<(Seq<u8>, Seq<u8>)>
    decreases s.len(),
{
    match split_first(s, set![AMPERSAND]) {
        Some((head, tail)) => {
            proof {
                text::lemma_first_of(s, set![AMPERSAND]);
            }
            seq![pair(head)] + pairs(tail)
        },
        None => seq![pair(s)],
    }
}

/// The index of the first entry with this key, or the number of entries if
/// there is none.
pub open spec fn index_of_key(entries: Seq<(Seq<u8>, ValueView)>, key: Seq<u8>) -> int
    decreases entries.len(),
{
    if entries.len() == 0 || entries[0].0 == key {
        0
    } else {
        1 + index_of_key(entries.drop_first(), key)
    }
}

/// What the entries hold for a key.
pub open spec fn lookup(entries: Seq<(Seq<u8>, ValueView)>, key: Seq<u8>) -> Option<ValueView> {
    let i = index_of_key(entries, key);
    if i < entries.len() {
        Some(entries[i].1)
    } else {
        None
    }
}

/// The entries after one more pair: a new key is entered behind all others
/// with its single value; a key that is there keeps its place and has the
/// value added to what it stands for.
pub open spec fn insert(entries: Seq<(Seq<u8>, ValueView)>, key: Seq<u8>, value: Seq<u8>) -> Seq<
    (Seq<u8>, ValueView),
> {
    let i = index_of_key(entries, key);
    if i < entries.len() {
        entries.update(i, (key, entries[i].1.with(value)))
    } else {
        entries.push((key, ValueView::Single(value)))
    }
}

/// The entries after a sequence of pairs, taken from first to last.
pub open spec fn collect(entries: Seq<(Seq<u8>, ValueView)>, more: Seq<(Seq<u8>, Seq<u8>)>) -> Seq<
    (Seq<u8>, ValueView),
>
    decreases more.len(),
{
    if more.len() == 0 {
        entries
    } else {
        collect(insert(entries, more[0].0, more[0].1), more.drop_first())
    }
}

/// The entries of a query string: none for the empty text, else what its
/// pairs collect to.
pub open spec fn entries_of(s: Seq<u8>) -> Seq<(Seq<u8>, ValueView)> {
    if s.len() == 0 {
        Seq::empty()
    } else {
        collect(Seq::empty(), pairs(s))
    }
}

/// No two entries have the same key.
pub open spec fn distinct_keys(entries: Seq<(Seq<u8>, ValueView)>) -> bool {
    forall|i: int, j: int|
        0 <= i < j < entries.len() ==> (#[trigger] entries[i]).0 != (#[trigger] entries[j]).0
}

/// Every list holds at least two values: a key with one value stands for
/// that value itself.
pub open spec fn lists_are_lists(entries: Seq<(Seq<u8>, ValueView)>) -> bool {
    forall|i: int|
        0 <= i < entries.len() ==> match (#[trigger] entries[i]).1 {
            ValueView::Single(_) => true,
            ValueView::Multiple(list) => list.len() >= 2,
        }
}

/// What holds of the entries of every query string.
pub open spec fn well_formed(entries: Seq<(Seq<u8>, ValueView)>) -> bool {
    distinct_keys(entries) && lists_are_lists(entries)
}

/// `index_of_key` is in range, no entry before it has the key, and the entry
/// at it has the key unless it is the number of entries.
pub proof fn lemma_index_of_key(entries: Seq<(Seq<u8>, ValueView)>, key: Seq<u8>)
    ensures
        0 <= index_of_key(entries, key) <= entries.len(),
        forall|j: int| 0 <= j < index_of_key(entries, key) ==> (#[trigger] entries[j]).0 != key,
        index_of_key(entries, key) < entries.len() ==> entries[index_of_key(entries, key)].0
            == key,
    decreases entries.len(),
{
    if entries.len() != 0 && entries[0].0 != key {
        let rest = entries.drop_first();
        lemma_index_of_key(rest, key);
        assert forall|j: int| 0 <= j < index_of_key(entries, key) implies (#[trigger] entries[j]).0
            != key by {
            if j > 0 {
                assert(entries[j] == rest[j - 1]);
            }
        }
        assert(index_of_key(rest, key) < rest.len() ==> entries[index_of_key(entries, key)]
            == rest[index_of_key(rest, key)]);
    }
}

/// An index with the three properties of `lemma_index_of_key` is
/// `index_of_key`.
pub proof fn lemma_index_of_key_is(entries: Seq<(Seq<u8>, ValueView)>, key: Seq<u8>, i: int)
    requires
        0 <= i <= entries.len(),
        forall|j: int| 0 <= j < i ==> (#[trigger] entries[j]).0 != key,
        i < entries.len() ==> entries[i].0 == key,
    ensures
        index_of_key(entries, key) == i,
    decreases entries.len(),
{
    if entries.len() != 0 && entries[0].0 != key {
        let rest = entries.drop_first();
        assert forall|j: int| 0 <= j < i - 1 implies (#[trigger] rest[j]).0 != key by {
            assert(rest[j] == entries[j + 1]);
        }
        lemma_index_of_key_is(rest, key, i - 1);
    }
}

/// A query string: a mapping from each key to what it stands for, with the
/// keys in the order in which each first occurred.
#[derive(Debug)]
pub struct QueryString<'buf> {
    data: Vec<(&'buf str, Value<'buf>)>,
}

/// The entries that a list of keys and values stands for: each key by its
/// bytes and each value by its model.
pub open spec fn entries(data: Seq<(&str, Value)>) -> Seq<(Seq<u8>, ValueView)> {
    Seq::new(data.len(), |i: int| (data[i].0.spec_bytes(), data[i].1@))
}

impl<'buf> View for QueryString<'buf> {
    type V = Seq<(Seq<u8>, ValueView)>;

    /// The entries in their order.
    closed spec fn view(&self) -> Seq<(Seq<u8>, ValueView)> {
        entries(self.data@)
    }
}

impl<'buf> QueryString<'buf> {
    /// A mapping has each key once, and a list only where a key has more
    /// than one value.
    #[verifier::type_invariant]
    closed spec fn is_mapping(&self) -> bool {
        well_formed(self@)
    }

    /// What the key stands for, if it occurs. The match is exact. No other
    /// entry has the key: the entries of a query string are well formed.
    pub fn get(&self, key: &str) -> (r: Option<&Value<'buf>>)
        ensures
            match r {
                Some(value) => lookup(self@, key.spec_bytes()) == Some(value@),
                None => lookup(self@, key.spec_bytes()) is None,
            },
            well_formed(self@),
    {
        proof {
            use_type_invariant(self);
        }
        let i: usize = find(&self.data, key);
        if i < self.data.len() {
            Some(&self.data[i].1)
        } else {
            None
        }
    }

    /// Reads a query string. This never fails: every text has entries, the
    /// empty text none. The result is `entries_of` of the bytes of `s`, in
    /// which no key occurs twice.
    pub fn parse(s: &'buf str) -> (r: QueryString<'buf>)
        ensures
            r@ == entries_of(s.spec_bytes()),
            well_formed(r@),
    {
        let mut data: Vec<(&'buf str, Value<'buf>)> = Vec::new();
        assert(entries(data@) =~= Seq::empty());
        proof {
            lemma_entries_of_well_formed(s.spec_bytes());
        }
        if s.as_bytes().len() == 0 {
            return QueryString { data };
        }
        let mut rest = s;
        loop
            invariant_except_break
                collect(entries(data@), pairs(rest.spec_bytes())) == entries_of(s.spec_bytes()),
            ensures
                entries(data@) == entries_of(s.spec_bytes()),
            decreases rest.spec_bytes().len(),
        {
            proof {
                text::lemma_first_of(rest.spec_bytes(), set![AMPERSAND]);
            }
            let ghost more = pairs(rest.spec_bytes());
            match text::split_once(rest, AMPERSAND) {
                Some((piece, tail)) => {
                    let (key, value) = key_and_value(piece);
                    insert_pair(&mut data, key, value);
                    proof {
                        assert(more.drop_first() =~= pairs(tail.spec_bytes()));
                    }
                    rest = tail;
                },
                None => {
                    let (key, value) = key_and_value(rest);
                    insert_pair(&mut data, key, value);
                    proof {
                        assert(more.drop_first() =~= Seq::empty());
                        assert(collect(entries(data@), more.drop_first()) == entries(data@));
                    }
                    break ;
                },
            }
        }
        QueryString { data }
    }
}

/// The index of the first entry with this key, or the number of entries.
fn find(data: &Vec<(&str, Value)>, key: &str) -> (i: usize)
    ensures
        i == index_of_key(entries(data@), key.spec_bytes()),
        i <= data@.len(),
{
    let mut i: usize = 0;
    while i < data.len()
        invariant
            i <= data@.len(),
            forall|j: int| 0 <= j < i ==> (#[trigger] entries(data@)[j]).0 != key.spec_bytes(),
        decreases data@.len() - i,
    {
        if text::eq(data[i].0, key) {
            proof {
                lemma_index_of_key_is(entries(data@), key.spec_bytes(), i as int);
            }
            return i;
        }
        i += 1;
    }
    proof {
        lemma_index_of_key_is(entries(data@), key.spec_bytes(), i as int);
    }
    i
}

/// Enters one more pair.
fn insert_pair<'buf>(data: &mut Vec<(&'buf str, Value<'buf>)>, key: &'buf str, value: &'buf str)
    ensures
        entries(final(data)@) == insert(entries(old(data)@), key.spec_bytes(), value.spec_bytes()),
{
    let i: usize = find(data, key);
    if i < data.len() {
        proof {
            lemma_index_of_key(entries(data@), key.spec_bytes());
        }
        add_value(&mut data[i].1, value);
    } else {
        data.push((key, Value::Single(value)));
    }
    assert(entries(data@) =~= insert(
        entries(old(data)@),
        key.spec_bytes(),
        value.spec_bytes(),
    ));
}

/// Adds one more value to what a key stands for.
fn add_value<'buf>(existing: &mut Value<'buf>, value: &'buf str)
    ensures
        final(existing)@ == old(existing)@.with(value.spec_bytes()),
{
    match existing {
        Value::Single(earlier) => {
            let mut list: Vec<&'buf str> = Vec::new();
            list.push(*earlier);
            list.push(value);
            assert(bytes_of_each(list@) =~= seq![earlier.spec_bytes(), value.spec_bytes()]);
            *existing = Value::Multiple(list);
        },
        Value::Multiple(list) => {
            let ghost before = list@;
            list.push(value);
            assert(bytes_of_each(list@) =~= bytes_of_each(before).push(value.spec_bytes()));
        },
    }
}

/// Key and value of one piece.
fn key_and_value<'buf>(piece: &'buf str) -> (r: (&'buf str, &'buf str))
    ensures
        (r.0.spec_bytes(), r.1.spec_bytes()) == pair(piece.spec_bytes()),
{
    match text::split_once(piece, EQUALS) {
        Some((key, value)) => (key, value),
        None => {
            proof {
                reveal_strlit("");
            }
            (piece, "")
        },
    }
}

/// Entering a pair keeps the entries well formed.
pub proof fn lemma_insert_well_formed(
    entries: Seq<(Seq<u8>, ValueView)>,
    key: Seq<u8>,
    value: Seq<u8>,
)
    requires
        well_formed(entries),
    ensures
        well_formed(insert(entries, key, value)),
{
    lemma_index_of_key(entries, key);
}

/// Collecting pairs keeps the entries well formed.
pub proof fn lemma_collect_well_formed(
    entries: Seq<(Seq<u8>, ValueView)>,
    more: Seq<(Seq<u8>, Seq<u8>)>,
)
    requires
        well_formed(entries),
    ensures
        well_formed(collect(entries, more)),
    decreases more.len(),
{
    if more.len() != 0 {
        lemma_insert_well_formed(entries, more[0].0, more[0].1);
        lemma_collect_well_formed(insert(entries, more[0].0, more[0].1), more.drop_first());
    }
}

/// The entries of every text are well formed: no key occurs twice, and no
/// list holds fewer than two values.
pub proof fn lemma_entries_of_well_formed(s: Seq<u8>)
    ensures
        well_formed(entries_of(s)),
{
    lemma_collect_well_formed(Seq::empty(), pairs(s));
}

impl<'buf> From<&'buf str> for QueryString<'buf> {
    /// The same as [`QueryString::parse`].
    fn from(s: &'buf str) -> (r: QueryString<'buf>)
        ensures
            r@ == entries_of(s.spec_bytes()),
            well_formed(r@),
    {
        QueryString::parse(s)
    }
}

impl<'buf> vstd::std_specs::convert::FromSpecImpl<&'buf str> for QueryString<'buf> {
    /// A query string holds slices of its text, so no value of it can be
    /// written down from the bytes alone: the contract of `from` speaks of
    /// the view of the result, and `from_spec` is left unused.
    open spec fn obeys_from_spec() -> bool {
        false
    }

    open spec fn from_spec(s: &'buf str) -> QueryString<'buf> {
        arbitrary()
    }
}

/// The values that the pairs give to a key, in the order of the pairs.
pub open spec fn values_of(more: Seq<(Seq<u8>, Seq<u8>)>, key: Seq<u8>) -> Seq<Seq<u8>>
    decreases more.len(),
{
    if more.len() == 0 {
        Seq::empty()
    } else if more[0].0 == key {
        seq![more[0].1] + values_of(more.drop_first(), key)
    } else {
        values_of(more.drop_first(), key)
    }
}

/// What a key stands for that was given these values: nothing if there is
/// none, the value if there is one, and the list of all if there are more.
pub open spec fn value_of_all(values: Seq<Seq<u8>>) -> Option<ValueView> {
    if values.len() == 0 {
        None
    } else if values.len() == 1 {
        Some(ValueView::Single(values[0]))
    } else {
        Some(ValueView::Multiple(values))
    }
}

/// Entering a pair changes what its own key stands for, and nothing else.
pub proof fn lemma_lookup_insert(
    entries: Seq<(Seq<u8>, ValueView)>,
    key: Seq<u8>,
    value: Seq<u8>,
    other: Seq<u8>,
)
    ensures
        lookup(insert(entries, key, value), key) == Some(
            match lookup(entries, key) {
                Some(earlier) => earlier.with(value),
                None => ValueView::Single(value),
            },
        ),
        other != key ==> lookup(insert(entries, key, value), other) == lookup(entries, other),
{
    let after = insert(entries, key, value);
    let i = index_of_key(entries, key);
    lemma_index_of_key(entries, key);
    lemma_index_of_key_is(after, key, i);
    if other != key {
        let j = index_of_key(entries, other);
        lemma_index_of_key(entries, other);
        if j < entries.len() {
            lemma_index_of_key_is(after, other, j);
        } else {
            lemma_index_of_key_is(after, other, after.len() as int);
        }
    }
}

/// Collecting pairs adds, for each key, the values that the pairs give it
/// to those it was given before.
pub proof fn lemma_lookup_collect(
    entries: Seq<(Seq<u8>, ValueView)>,
    more: Seq<(Seq<u8>, Seq<u8>)>,
    key: Seq<u8>,
    given: Seq<Seq<u8>>,
)
    requires
        lookup(entries, key) == value_of_all(given),
    ensures
        lookup(collect(entries, more), key) == value_of_all(given + values_of(more, key)),
    decreases more.len(),
{
    if more.len() == 0 {
        assert(given + values_of(more, key) =~= given);
    } else {
        let next = insert(entries, more[0].0, more[0].1);
        lemma_lookup_insert(entries, more[0].0, more[0].1, key);
        if more[0].0 == key {
            let longer = given.push(more[0].1);
            if given.len() == 1 {
                assert(longer =~= seq![given[0], more[0].1]);
            }
            lemma_lookup_collect(next, more.drop_first(), key, longer);
            assert(longer + values_of(more.drop_first(), key) =~= given + values_of(more, key));
        } else {
            lemma_lookup_collect(next, more.drop_first(), key, given);
        }
    }
}

/// In the entries of a query string that is not empty, each key stands for
/// the values that the pairs of the text give it, in their order: for the
/// one value, or for the list of all of them if there are more; a key that
/// no pair has does not occur.
pub proof fn lemma_lookup_entries_of(s: Seq<u8>, key: Seq<u8>)
    requires
        s.len() > 0,
    ensures
        lookup(entries_of(s), key) == value_of_all(values_of(pairs(s), key)),
{
    lemma_lookup_collect(Seq::empty(), pairs(s), key, Seq::empty());
    assert(Seq::<Seq<u8>>::empty() + values_of(pairs(s), key) =~= values_of(pairs(s), key));
}

/// The keys of the entries, in their order.
pub open spec fn keys(entries: Seq<(Seq<u8>, ValueView)>) -> Seq<Seq<u8>> {
    Seq::new(entries.len(), |i: int| entries[i].0)
}

/// The keys after the pairs were seen, from first to last: a key that is
/// new goes behind all others, one that is there changes nothing.
pub open spec fn first_occurrences(seen: Seq<Seq<u8>>, more: Seq<(Seq<u8>, Seq<u8>)>) -> Seq<
    Seq<u8>,
>
    decreases more.len(),
{
    if more.len() == 0 {
        seen
    } else if seen.contains(more[0].0) {
        first_occurrences(seen, more.drop_first())
    } else {
        first_occurrences(seen.push(more[0].0), more.drop_first())
    }
}

/// Entering a pair puts its key behind all others if it is new, and leaves
/// the keys as they are if it is not.
pub proof fn lemma_keys_insert(entries: Seq<(Seq<u8>, ValueView)>, key: Seq<u8>, value: Seq<u8>)
    ensures
        keys(insert(entries, key, value)) == if keys(entries).contains(key) {
            keys(entries)
        } else {
            keys(entries).push(key)
        },
{
    let i = index_of_key(entries, key);
    lemma_index_of_key(entries, key);
    if i < entries.len() {
        assert(keys(entries)[i] == key);
        assert(keys(insert(entries, key, value)) =~= keys(entries));
    } else {
        assert forall|j: int| 0 <= j < keys(entries).len() implies keys(entries)[j] != key by {
            assert(entries[j].0 != key);
        }
        assert(keys(insert(entries, key, value)) =~= keys(entries).push(key));
    }
}

/// Collecting pairs keeps the keys in the order in which each first
/// occurred.
pub proof fn lemma_keys_collect(entries: Seq<(Seq<u8>, ValueView)>, more: Seq<(Seq<u8>, Seq<u8>)>)
    ensures
        keys(collect(entries, more)) == first_occurrences(keys(entries), more),
    decreases more.len(),
{
    if more.len() != 0 {
        lemma_keys_insert(entries, more[0].0, more[0].1);
        lemma_keys_collect(insert(entries, more[0].0, more[0].1), more.drop_first());
    }
}

/// The keys of a query string that is not empty stand in the order in which
/// each first occurs in the text.
pub proof fn lemma_keys_entries_of(s: Seq<u8>)
    requires
        s.len() > 0,
    ensures
        keys(entries_of(s)) == first_occurrences(Seq::empty(), pairs(s)),
{
    lemma_keys_collect(Seq::empty(), pairs(s));
    assert(keys(Seq::<(Seq<u8>, ValueView)>::empty()) =~= Seq::<Seq<u8>>::empty());
}

} // verus!
