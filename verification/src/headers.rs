//! Header fields: names with their values, in the order in which they were
//! last set.

use vstd::prelude::*;

verus! {

/// A run of header fields, each a name and its value.
pub type Fields = Seq<(Seq<char>, Seq<char>)>;

/// The value that `fields` gives to `name`: that of the last field so named,
/// if there is one.
pub open spec fn lookup(fields: Fields, name: Seq<char>) -> Option<Seq<char>>
    decreases fields.len(),
{
    if fields.len() == 0 {
        None
    } else if fields.last().0 == name {
        Some(fields.last().1)
    } else {
        lookup(fields.drop_last(), name)
    }
}

/// `fields` with every field named `name` taken out, the others in their order.
pub open spec fn without(fields: Fields, name: Seq<char>) -> Fields
    decreases fields.len(),
{
    if fields.len() == 0 {
        fields
    } else if fields.last().0 == name {
        without(fields.drop_last(), name)
    } else {
        without(fields.drop_last(), name).push(fields.last())
    }
}

/// `fields` after `name` is set to `value`: the field is the last one, and no
/// other field bears its name.
pub open spec fn with_field(fields: Fields, name: Seq<char>, value: Seq<char>) -> Fields {
    without(fields, name).push((name, value))
}

/// `fields` after each field of `more` is set in turn, from the first on.
pub open spec fn with_fields(fields: Fields, more: Fields) -> Fields
    decreases more.len(),
{
    if more.len() == 0 {
        fields
    } else {
        with_field(with_fields(fields, more.drop_last()), more.last().0, more.last().1)
    }
}

/// Whether no two fields of `fields` bear the same name.
pub open spec fn distinct_names(fields: Fields) -> bool {
    forall|i: int, j: int| 0 <= i < j < fields.len() ==> fields[i].0 != fields[j].0
}

/// `fields` as a map from each name to its value.
pub open spec fn as_map(fields: Fields) -> Map<Seq<char>, Seq<char>> {
    Map::new(
        |name: Seq<char>| lookup(fields, name) is Some,
        |name: Seq<char>| lookup(fields, name).unwrap(),
    )
}

/// A name has a value exactly when some field bears it.
pub proof fn lemma_lookup_none(fields: Fields, name: Seq<char>)
    ensures
        lookup(fields, name) is None <==> forall|i: int|
            0 <= i < fields.len() ==> (#[trigger] fields[i]).0 != name,
    decreases fields.len(),
{
    if fields.len() > 0 {
        let rest = fields.drop_last();
        lemma_lookup_none(rest, name);
        if fields.last().0 != name {
            if lookup(rest, name) is None {
                assert forall|i: int| 0 <= i < fields.len() implies (#[trigger] fields[i]).0
                    != name by {
                    if i < rest.len() {
                        assert(rest[i] == fields[i]);
                    }
                }
            } else {
                let i = choose|i: int| 0 <= i < rest.len() && (#[trigger] rest[i]).0 == name;
                assert(fields[i] == rest[i]);
            }
        }
    }
}

/// Where names are distinct, the value of a field's name is that field's value.
pub proof fn lemma_lookup_distinct(fields: Fields, i: int)
    requires
        distinct_names(fields),
        0 <= i < fields.len(),
    ensures
        lookup(fields, fields[i].0) == Some(fields[i].1),
    decreases fields.len(),
{
    if i < fields.len() - 1 {
        let rest = fields.drop_last();
        assert(rest[i] == fields[i]);
        assert(distinct_names(rest)) by {
            assert forall|a: int, b: int| 0 <= a < b < rest.len() implies rest[a].0 != rest[b].0 by {
                assert(rest[a] == fields[a] && rest[b] == fields[b]);
            }
        }
        lemma_lookup_distinct(rest, i);
    }
}

/// Taking a name out leaves it without a value and every other name as it was.
pub proof fn lemma_lookup_without(fields: Fields, name: Seq<char>, other: Seq<char>)
    ensures
        lookup(without(fields, name), other) == if other == name {
            None
        } else {
            lookup(fields, other)
        },
    decreases fields.len(),
{
    if fields.len() > 0 {
        let rest = fields.drop_last();
        lemma_lookup_without(rest, name, other);
        if fields.last().0 != name {
            assert(without(fields, name).drop_last() =~= without(rest, name));
        }
    }
}

/// Setting a name gives it the new value and leaves every other name as it was.
pub proof fn lemma_lookup_with_field(fields: Fields, name: Seq<char>, value: Seq<char>, other: Seq<char>)
    ensures
        lookup(with_field(fields, name, value), other) == if other == name {
            Some(value)
        } else {
            lookup(fields, other)
        },
{
    lemma_lookup_without(fields, name, other);
    assert(with_field(fields, name, value).drop_last() =~= without(fields, name));
}

/// After the fields of `more` are set, a name holds what `more` gives it, and
/// what it held before where `more` does not name it.
pub proof fn lemma_lookup_with_fields(fields: Fields, more: Fields, name: Seq<char>)
    ensures
        lookup(with_fields(fields, more), name) == if lookup(more, name) is Some {
            lookup(more, name)
        } else {
            lookup(fields, name)
        },
    decreases more.len(),
{
    if more.len() > 0 {
        lemma_lookup_with_fields(fields, more.drop_last(), name);
        lemma_lookup_with_field(with_fields(fields, more.drop_last()), more.last().0, more.last().1, name);
    }
}

/// Every field that is left after a name is taken out was there before, and
/// they keep their order.
proof fn lemma_without_keeps_distinct(fields: Fields, name: Seq<char>)
    requires
        distinct_names(fields),
    ensures
        distinct_names(without(fields, name)),
        forall|k: int|
            0 <= k < without(fields, name).len() ==> lookup(
                fields,
                (#[trigger] without(fields, name)[k]).0,
            ) is Some,
    decreases fields.len(),
{
    if fields.len() > 0 {
        let rest = fields.drop_last();
        assert(distinct_names(rest)) by {
            assert forall|a: int, b: int| 0 <= a < b < rest.len() implies rest[a].0 != rest[b].0 by {
                assert(rest[a] == fields[a] && rest[b] == fields[b]);
            }
        }
        lemma_without_keeps_distinct(rest, name);
        let kept = without(rest, name);
        assert forall|k: int| 0 <= k < kept.len() implies lookup(fields, (#[trigger] kept[k]).0)
            is Some by {
            assert(lookup(rest, kept[k].0) is Some);
        }
        if fields.last().0 != name {
            let last = fields.last();
            let out = kept.push(last);
            assert(lookup(rest, last.0) is None) by {
                lemma_lookup_none(rest, last.0);
                assert forall|i: int| 0 <= i < rest.len() implies (#[trigger] rest[i]).0
                    != last.0 by {
                    assert(rest[i] == fields[i]);
                }
            }
            assert forall|a: int, b: int| 0 <= a < b < out.len() implies out[a].0 != out[b].0 by {
                if b < kept.len() {
                    assert(out[a] == kept[a] && out[b] == kept[b]);
                } else {
                    assert(out[a] == kept[a]);
                    assert(lookup(rest, kept[a].0) is Some);
                }
            }
            assert forall|k: int| 0 <= k < out.len() implies lookup(fields, (#[trigger] out[k]).0)
                is Some by {
                if k < kept.len() {
                    assert(out[k] == kept[k]);
                }
            }
        }
    }
}

/// Setting a name keeps the names distinct.
pub proof fn lemma_with_field_distinct(fields: Fields, name: Seq<char>, value: Seq<char>)
    requires
        distinct_names(fields),
    ensures
        distinct_names(with_field(fields, name, value)),
{
    lemma_without_keeps_distinct(fields, name);
    let kept = without(fields, name);
    let out = with_field(fields, name, value);
    lemma_lookup_without(fields, name, name);
    lemma_lookup_none(kept, name);
    assert forall|a: int, b: int| 0 <= a < b < out.len() implies out[a].0 != out[b].0 by {
        assert(out[a] == kept[a]);
        if b < kept.len() {
            assert(out[b] == kept[b]);
        }
    }
}

/// As maps, setting a name is an insertion.
pub proof fn lemma_with_field_as_map(fields: Fields, name: Seq<char>, value: Seq<char>)
    ensures
        as_map(with_field(fields, name, value)) == as_map(fields).insert(name, value),
{
    assert forall|other: Seq<char>|
        lookup(with_field(fields, name, value), other) == if other == name {
            Some(value)
        } else {
            lookup(fields, other)
        } by {
        lemma_lookup_with_field(fields, name, value, other);
    }
    assert(as_map(with_field(fields, name, value)) =~= as_map(fields).insert(name, value));
}

/// As maps, setting a run of fields is a union in which the new fields win.
pub proof fn lemma_with_fields_as_map(fields: Fields, more: Fields)
    ensures
        as_map(with_fields(fields, more)) == as_map(fields).union_prefer_right(as_map(more)),
{
    assert forall|name: Seq<char>|
        lookup(with_fields(fields, more), name) == if lookup(more, name) is Some {
            lookup(more, name)
        } else {
            lookup(fields, name)
        } by {
        lemma_lookup_with_fields(fields, more, name);
    }
    assert(as_map(with_fields(fields, more)) =~= as_map(fields).union_prefer_right(as_map(more)));
}

/// Where names are distinct, taking a name out removes the one field that
/// bears it, or nothing.
pub proof fn lemma_without_removes(fields: Fields, name: Seq<char>, at: int)
    requires
        distinct_names(fields),
        0 <= at <= fields.len(),
        at < fields.len() ==> fields[at].0 == name,
        at == fields.len() ==> lookup(fields, name) is None,
    ensures
        without(fields, name) == if at < fields.len() {
            fields.remove(at)
        } else {
            fields
        },
    decreases fields.len(),
{
    if fields.len() > 0 {
        let rest = fields.drop_last();
        assert(distinct_names(rest)) by {
            assert forall|a: int, b: int| 0 <= a < b < rest.len() implies rest[a].0 != rest[b].0 by {
                assert(rest[a] == fields[a] && rest[b] == fields[b]);
            }
        }
        if fields.last().0 == name {
            assert(at == fields.len() - 1);
            assert(lookup(rest, name) is None) by {
                lemma_lookup_none(rest, name);
                assert forall|i: int| 0 <= i < rest.len() implies (#[trigger] rest[i]).0
                    != name by {
                    assert(rest[i] == fields[i]);
                }
            }
            lemma_without_removes(rest, name, rest.len() as int);
            assert(fields.remove(at) =~= rest);
        } else {
            if at < fields.len() {
                assert(rest[at] == fields[at]);
                lemma_without_removes(rest, name, at);
                assert(rest.remove(at).push(fields.last()) =~= fields.remove(at));
            } else {
                lemma_without_removes(rest, name, rest.len() as int);
                assert(rest.push(fields.last()) =~= fields);
            }
        }
    }
}

/// The fields that a vector of pairs of strings holds.
pub open spec fn fields_of(pairs: Seq<(String, String)>) -> Fields {
    Seq::new(pairs.len(), |i: int| (pairs[i].0@, pairs[i].1@))
}

/// Header fields with distinct names, kept in the order in which they were
/// last set. Names are told apart character by character, case included.
#[derive(Debug, PartialEq, Eq)]
pub struct Headers {
    entries: Vec<(String, String)>,
}

impl View for Headers {
    type V = Fields;

    closed spec fn view(&self) -> Fields {
        fields_of(self.entries@)
    }
}

impl Headers {
    #[verifier::type_invariant]
    spec fn names_are_distinct(self) -> bool {
        distinct_names(self@)
    }

    /// No fields.
    pub fn new() -> (headers: Headers)
        ensures
            headers@ == Seq::<(Seq<char>, Seq<char>)>::empty(),
    {
        let headers = Headers { entries: Vec::new() };
        assert(headers@ =~= Seq::<(Seq<char>, Seq<char>)>::empty());
        headers
    }

    /// The number of fields.
    pub fn len(&self) -> (n: usize)
        ensures
            n == self@.len(),
            distinct_names(self@),
    {
        proof {
            use_type_invariant(self);
        }
        self.entries.len()
    }

    /// The name and the value of the field at position `i`, counted from zero.
    pub fn entry(&self, i: usize) -> (field: Option<(&String, &String)>)
        ensures
            i < self@.len() ==> (field matches Some((name, value)) && name@ == self@[i as int].0
                && value@ == self@[i as int].1),
            i >= self@.len() ==> field is None,
    {
        if i < self.entries.len() {
            let pair = &self.entries[i];
            Some((&pair.0, &pair.1))
        } else {
            None
        }
    }

    /// The value of the field named `name`.
    pub fn get(&self, name: &str) -> (value: Option<&String>)
        ensures
            match value {
                Some(text) => lookup(self@, name@) == Some(text@),
                None => lookup(self@, name@) is None,
            },
    {
        proof {
            use_type_invariant(self);
        }
        let wanted = name.to_owned();
        let mut i: usize = 0;
        while i < self.entries.len()
            invariant
                i <= self.entries.len(),
                wanted@ == name@,
                distinct_names(self@),
                forall|j: int| 0 <= j < i ==> (#[trigger] self@[j]).0 != name@,
            decreases self.entries.len() - i,
        {
            if self.entries[i].0 == wanted {
                proof {
                    lemma_lookup_distinct(self@, i as int);
                }
                return Some(&self.entries[i].1);
            }
            i += 1;
        }
        proof {
            lemma_lookup_none(self@, name@);
        }
        None
    }

    /// Sets the field named `name` to `value`. The field becomes the last one;
    /// a field that bore the name before is gone.
    pub fn insert(&mut self, name: String, value: String)
        ensures
            final(self)@ == with_field(old(self)@, name@, value@),
    {
        proof {
            use_type_invariant(&*self);
        }
        let ghost before = self@;
        let mut entries: Vec<(String, String)> = Vec::new();
        std::mem::swap(&mut entries, &mut self.entries);
        assert(fields_of(entries@) == before);
        let mut i: usize = 0;
        while i < entries.len() && !(entries[i].0 == name)
            invariant
                i <= entries.len(),
                fields_of(entries@) == before,
                forall|j: int| 0 <= j < i ==> (#[trigger] before[j]).0 != name@,
            decreases entries.len() - i,
        {
            i += 1;
        }
        proof {
            if i == entries.len() {
                lemma_lookup_none(before, name@);
            }
            lemma_without_removes(before, name@, i as int);
            lemma_with_field_distinct(before, name@, value@);
        }
        if i < entries.len() {
            entries.remove(i);
            assert(fields_of(entries@) =~= before.remove(i as int));
        }
        let ghost kept = fields_of(entries@);
        entries.push((name, value));
        assert(fields_of(entries@) =~= kept.push((name@, value@)));
        self.entries = entries;
    }

    /// Sets each of `pairs` in turn, from the first on, a pair being a name and
    /// its value.
    pub fn insert_all(&mut self, pairs: &Vec<(String, String)>)
        ensures
            final(self)@ == with_fields(old(self)@, fields_of(pairs@)),
    {
        let ghost more = fields_of(pairs@);
        let mut i: usize = 0;
        while i < pairs.len()
            invariant
                i <= pairs.len(),
                more == fields_of(pairs@),
                self@ == with_fields(old(self)@, more.subrange(0, i as int)),
            decreases pairs.len() - i,
        {
            proof {
                assert(more.subrange(0, i + 1).drop_last() =~= more.subrange(0, i as int));
            }
            let pair = &pairs[i];
            self.insert(pair.0.clone(), pair.1.clone());
            i += 1;
        }
        assert(more.subrange(0, pairs.len() as int) =~= more);
    }

    /// Sets each field of `more` in turn, from the first on.
    pub fn extend(&mut self, more: &Headers)
        ensures
            final(self)@ == with_fields(old(self)@, more@),
    {
        self.insert_all(&more.entries);
    }

    /// The fields that come of setting each of `pairs` in turn where there
    /// were none: of two pairs with one name, the later one stays.
    pub fn from_pairs(pairs: &Vec<(String, String)>) -> (headers: Headers)
        ensures
            headers@ == with_fields(Seq::empty(), fields_of(pairs@)),
    {
        let mut headers = Headers::new();
        headers.insert_all(pairs);
        headers
    }

    /// Whether there is no field.
    pub fn is_empty(&self) -> (empty: bool)
        ensures
            empty == (self@.len() == 0),
    {
        self.entries.len() == 0
    }
}

impl Clone for Headers {
    fn clone(&self) -> (copy: Headers)
        ensures
            copy@ == self@,
    {
        let mut copy = Headers::new();
        copy.extend(self);
        proof {
            use_type_invariant(self);
            lemma_with_fields_onto_nothing(self@);
        }
        copy
    }
}

impl Default for Headers {
    fn default() -> (headers: Headers)
        ensures
            headers@ == Seq::<(Seq<char>, Seq<char>)>::empty(),
    {
        Headers::new()
    }
}

/// Setting fields of distinct names where there were none gives those fields.
pub proof fn lemma_with_fields_onto_nothing(more: Fields)
    requires
        distinct_names(more),
    ensures
        with_fields(Seq::empty(), more) == more,
    decreases more.len(),
{
    if more.len() > 0 {
        let rest = more.drop_last();
        assert(distinct_names(rest)) by {
            assert forall|a: int, b: int| 0 <= a < b < rest.len() implies rest[a].0 != rest[b].0 by {
                assert(rest[a] == more[a] && rest[b] == more[b]);
            }
        }
        lemma_with_fields_onto_nothing(rest);
        assert(lookup(rest, more.last().0) is None) by {
            lemma_lookup_none(rest, more.last().0);
            assert forall|i: int| 0 <= i < rest.len() implies (#[trigger] rest[i]).0
                != more.last().0 by {
                assert(rest[i] == more[i]);
            }
        }
        lemma_without_removes(rest, more.last().0, rest.len() as int);
        assert(rest.push(more.last()) =~= more);
    }
}

} // verus!
