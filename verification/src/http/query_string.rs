//! The query-string decoder: `k=v&k=v` fragments become a keyed mapping in
//! which a repeated key accumulates its values in source order.

use vstd::prelude::*;
use vstd::string::*;
use crate::http::{first_index_of, lemma_first_index_of, next_token, str_eq};

verus! {

/// The mathematical content of a query string: each key maps to the
/// sequence of values that appeared under it, in source order.
pub type QueryMap = Map<Seq<char>, Seq<Seq<char>>>;

/// The value under one key: one observation keeps the single text, a
/// repeated key keeps every observed text in order.
#[derive(Debug)]
pub enum QueryParameterValue<'a> {
    Single(&'a str),
    Multiple(Vec<&'a str>),
}

impl<'a> View for QueryParameterValue<'a> {
    type V = Seq<Seq<char>>;

    open spec fn view(&self) -> Seq<Seq<char>> {
        match *self {
            QueryParameterValue::Single(s) => seq![s@],
            QueryParameterValue::Multiple(v) => v.deep_view(),
        }
    }
}

impl<'a> QueryParameterValue<'a> {
    /// A `Multiple` always holds at least two values.
    pub open spec fn wf(&self) -> bool {
        match *self {
            QueryParameterValue::Single(_) => true,
            QueryParameterValue::Multiple(v) => v@.len() >= 2,
        }
    }
}

/// The mapping an association sequence denotes: later pairs win, though
/// the parser never produces a repeated key.
pub open spec fn map_of_pairs(items: Seq<(Seq<char>, Seq<Seq<char>>)>) -> QueryMap
    decreases items.len(),
{
    if items.len() == 0 {
        Map::empty()
    } else {
        map_of_pairs(items.drop_last()).insert(items.last().0, items.last().1)
    }
}

/// Whether some pair of `items` carries the key `k`.
pub open spec fn pairs_have_key(items: Seq<(Seq<char>, Seq<Seq<char>>)>, k: Seq<char>) -> bool {
    exists|i: int| 0 <= i < items.len() && (#[trigger] items[i]).0 == k
}

/// No two pairs carry the same key.
pub open spec fn pairs_keys_distinct(items: Seq<(Seq<char>, Seq<Seq<char>>)>) -> bool {
    forall|i: int, j: int|
        0 <= i < j < items.len() ==> (#[trigger] items[i]).0 != (#[trigger] items[j]).0
}

proof fn lemma_map_of_pairs_dom(items: Seq<(Seq<char>, Seq<Seq<char>>)>, k: Seq<char>)
    ensures
        map_of_pairs(items).dom().contains(k) == pairs_have_key(items, k),
    decreases items.len(),
{
    if items.len() > 0 {
        let prefix = items.drop_last();
        lemma_map_of_pairs_dom(prefix, k);
        if items.last().0 == k {
            assert(items[items.len() - 1].0 == k);
        } else {
            if pairs_have_key(prefix, k) {
                let i = choose|i: int| 0 <= i < prefix.len() && (#[trigger] prefix[i]).0 == k;
                assert(items[i].0 == k);
            }
            if pairs_have_key(items, k) {
                let i = choose|i: int| 0 <= i < items.len() && (#[trigger] items[i]).0 == k;
                assert(prefix[i].0 == k);
            }
        }
    }
}

proof fn lemma_map_of_pairs_get(items: Seq<(Seq<char>, Seq<Seq<char>>)>, i: int)
    requires
        pairs_keys_distinct(items),
        0 <= i < items.len(),
    ensures
        map_of_pairs(items).dom().contains(items[i].0),
        map_of_pairs(items)[items[i].0] == items[i].1,
    decreases items.len(),
{
    if i < items.len() - 1 {
        let prefix = items.drop_last();
        lemma_map_of_pairs_get(prefix, i);
        assert(items.last().0 != items[i].0);
    }
}

proof fn lemma_map_of_pairs_update(items: Seq<(Seq<char>, Seq<Seq<char>>)>, i: int, v: Seq<Seq<char>>)
    requires
        pairs_keys_distinct(items),
        0 <= i < items.len(),
    ensures
        map_of_pairs(items.update(i, (items[i].0, v))) == map_of_pairs(items).insert(items[i].0, v),
    decreases items.len(),
{
    let updated = items.update(i, (items[i].0, v));
    if i == items.len() - 1 {
        assert(updated.drop_last() =~= items.drop_last());
        assert(map_of_pairs(updated) =~= map_of_pairs(items).insert(items[i].0, v));
    } else {
        let prefix = items.drop_last();
        lemma_map_of_pairs_update(prefix, i, v);
        assert(updated.drop_last() =~= prefix.update(i, (items[i].0, v)));
        assert(updated.last() == items.last());
        assert(items.last().0 != items[i].0);
        assert(map_of_pairs(updated) =~= map_of_pairs(items).insert(items[i].0, v));
    }
}

proof fn lemma_map_of_pairs_push(items: Seq<(Seq<char>, Seq<Seq<char>>)>, k: Seq<char>, v: Seq<Seq<char>>)
    ensures
        map_of_pairs(items.push((k, v))) == map_of_pairs(items).insert(k, v),
{
    assert(items.push((k, v)).drop_last() =~= items);
}

/// One observation of `key` with `value`: a fresh key starts its value
/// sequence, a seen key appends to it. A value is never removed.
pub open spec fn add_value_spec(m: QueryMap, key: Seq<char>, value: Seq<char>) -> QueryMap {
    if m.dom().contains(key) {
        m.insert(key, m[key].push(value))
    } else {
        m.insert(key, seq![value])
    }
}

/// Adding a value only grows the mapping: the key's sequence gains the new
/// value at its end, and every other key is untouched.
pub proof fn lemma_add_value_monotonic(m: QueryMap, key: Seq<char>, value: Seq<char>)
    ensures
        add_value_spec(m, key, value).dom() == m.dom().insert(key),
        m.dom().contains(key) ==> add_value_spec(m, key, value)[key] == m[key].push(value),
        !m.dom().contains(key) ==> add_value_spec(m, key, value)[key] == seq![value],
        forall|k: Seq<char>| k != key && m.dom().contains(k) ==>
            #[trigger] add_value_spec(m, key, value)[k] == m[k],
{
    assert(add_value_spec(m, key, value).dom() =~= m.dom().insert(key));
}

/// The segments of a query fragment: the pieces between `&` separators,
/// in source order. An input without `&` is a single segment, so the empty
/// input yields one empty segment.
pub open spec fn query_segments(s: Seq<char>) -> Seq<Seq<char>>
    decreases s.len(),
    via query_segments_decreases
{
    let i = first_index_of(s, '&');
    if i < 0 {
        seq![s]
    } else {
        seq![s.subrange(0, i)] + query_segments(s.subrange(i + 1, s.len() as int))
    }
}

#[via_fn]
proof fn query_segments_decreases(s: Seq<char>) {
    lemma_first_index_of(s, '&');
}

/// The key and value a segment denotes: split at the first `=`, or the
/// whole segment as key with an empty value when `=` is absent.
pub open spec fn segment_key_value(seg: Seq<char>) -> (Seq<char>, Seq<char>) {
    let i = first_index_of(seg, '=');
    if i < 0 {
        (seg, Seq::empty())
    } else {
        (seg.subrange(0, i), seg.subrange(i + 1, seg.len() as int))
    }
}

/// Folds the segments into a mapping, left to right.
pub open spec fn add_segments_spec(m: QueryMap, segs: Seq<Seq<char>>) -> QueryMap
    decreases segs.len(),
{
    if segs.len() == 0 {
        m
    } else {
        add_segments_spec(
            add_value_spec(m, segment_key_value(segs[0]).0, segment_key_value(segs[0]).1),
            segs.subrange(1, segs.len() as int),
        )
    }
}

/// What parsing a raw query fragment yields.
pub open spec fn query_string_spec(s: Seq<char>) -> QueryMap {
    add_segments_spec(Map::empty(), query_segments(s))
}

proof fn lemma_add_segments_values_nonempty(m: QueryMap, segs: Seq<Seq<char>>)
    requires
        forall|k: Seq<char>| #[trigger] m.dom().contains(k) ==> m[k].len() >= 1,
    ensures
        forall|k: Seq<char>| #[trigger] add_segments_spec(m, segs).dom().contains(k)
            ==> add_segments_spec(m, segs)[k].len() >= 1,
    decreases segs.len(),
{
    if segs.len() > 0 {
        let key = segment_key_value(segs[0]).0;
        let value = segment_key_value(segs[0]).1;
        let stepped = add_value_spec(m, key, value);
        lemma_add_value_monotonic(m, key, value);
        assert forall|k: Seq<char>| #[trigger] stepped.dom().contains(k)
            implies stepped[k].len() >= 1 by {
            if k != key {
                assert(m.dom().contains(k));
            }
        }
        lemma_add_segments_values_nonempty(stepped, segs.subrange(1, segs.len() as int));
        assert(add_segments_spec(m, segs)
            == add_segments_spec(stepped, segs.subrange(1, segs.len() as int)));
    }
}

/// Every key a query parse yields holds at least one value: a key is only
/// ever inserted with its first value, and later observations append.
pub proof fn lemma_query_values_nonempty(s: Seq<char>)
    ensures
        forall|k: Seq<char>| #[trigger] query_string_spec(s).dom().contains(k)
            ==> query_string_spec(s)[k].len() >= 1,
{
    lemma_add_segments_values_nonempty(Map::empty(), query_segments(s));
}

/// A parsed query string: unique keys, each holding the values observed
/// under it. The entries are borrowed views into the request buffer.
#[derive(Debug)]
pub struct QueryString<'a> {
    items: Vec<(&'a str, QueryParameterValue<'a>)>,
}

impl<'a> View for QueryString<'a> {
    type V = QueryMap;

    closed spec fn view(&self) -> QueryMap {
        map_of_pairs(self.items_view())
    }
}

impl<'a> QueryString<'a> {
    pub closed spec fn items_view(&self) -> Seq<(Seq<char>, Seq<Seq<char>>)> {
        Seq::new(self.items@.len(), |i: int| (self.items@[i].0@, self.items@[i].1@))
    }

    /// Well-formed: keys are unique, and every `Multiple` holds at least
    /// two values.
    pub closed spec fn wf(&self) -> bool {
        &&& pairs_keys_distinct(self.items_view())
        &&& forall|i: int| 0 <= i < self.items@.len() ==> (#[trigger] self.items@[i]).1.wf()
    }

    fn new() -> (r: Self)
        ensures
            r.wf(),
            r@ == Map::<Seq<char>, Seq<Seq<char>>>::empty(),
    {
        QueryString { items: Vec::new() }
    }

    fn add_value(&mut self, key: &'a str, value: &'a str)
        requires
            old(self).wf(),
        ensures
            final(self).wf(),
            final(self)@ == add_value_spec(old(self)@, key@, value@),
    {
        let mut idx: usize = 0;
        let len = self.items.len();
        while idx < len
            invariant
                *self == *old(self),
                old(self).wf(),
                len == self.items@.len(),
                idx <= len,
                forall|j: int| 0 <= j < idx ==> (#[trigger] self.items@[j]).0@ != key@,
            decreases len - idx,
        {
            if str_eq(self.items[idx].0, key) {
                let pair = self.items.remove(idx);
                let new_value = match pair.1 {
                    QueryParameterValue::Single(prev) => {
                        let mut values: Vec<&'a str> = Vec::new();
                        values.push(prev);
                        values.push(value);
                        QueryParameterValue::Multiple(values)
                    },
                    QueryParameterValue::Multiple(mut values) => {
                        values.push(value);
                        QueryParameterValue::Multiple(values)
                    },
                };
                proof {
                    assert(new_value@ =~= old(self).items_view()[idx as int].1.push(value@));
                }
                self.items.insert(idx, (pair.0, new_value));
                proof {
                    assert(self.items@ =~= old(self).items@.update(
                        idx as int,
                        (old(self).items@[idx as int].0, new_value),
                    ));
                    assert(self.items_view() =~= old(self).items_view().update(
                        idx as int,
                        (key@, new_value@),
                    ));
                    lemma_map_of_pairs_get(old(self).items_view(), idx as int);
                    lemma_map_of_pairs_update(old(self).items_view(), idx as int, new_value@);
                }
                return;
            }
            idx = idx + 1;
        }
        self.items.push((key, QueryParameterValue::Single(value)));
        proof {
            assert(self.items_view() =~= old(self).items_view().push((key@, seq![value@])));
            lemma_map_of_pairs_push(old(self).items_view(), key@, seq![value@]);
            lemma_map_of_pairs_dom(old(self).items_view(), key@);
        }
    }

    /// Decodes a raw query fragment: segments split on `&`, each split at
    /// its first `=` (or given the empty value), accumulated left to right.
    pub fn parse(raw: &'a str) -> (r: Self)
        ensures
            r.wf(),
            r@ == query_string_spec(raw@),
    {
        let mut query_string = Self::new();
        let mut rest = raw;
        loop
            invariant
                query_string.wf(),
                add_segments_spec(query_string@, query_segments(rest@)) == query_string_spec(raw@),
            decreases rest@.len(),
        {
            match next_token(rest, '&') {
                Some((segment, tail)) => {
                    let ghost segs = query_segments(rest@);
                    proof {
                        lemma_first_index_of(rest@, '&');
                        assert(segs[0] == segment@);
                        assert(segs.subrange(1, segs.len() as int) =~= query_segments(tail@));
                    }
                    match next_token(segment, '=') {
                        Some((key, value)) => {
                            proof {
                                lemma_first_index_of(segment@, '=');
                            }
                            query_string.add_value(key, value);
                        },
                        None => {
                            proof {
                                lemma_first_index_of(segment@, '=');
                                reveal_strlit("");
                                assert(""@ =~= Seq::<char>::empty());
                            }
                            query_string.add_value(segment, "");
                        },
                    }
                    rest = tail;
                },
                None => {
                    let ghost segs = query_segments(rest@);
                    proof {
                        lemma_first_index_of(rest@, '&');
                        assert(segs =~= seq![rest@]);
                        let folded = add_value_spec(
                            query_string@,
                            segment_key_value(rest@).0,
                            segment_key_value(rest@).1,
                        );
                        assert(segs.subrange(1, segs.len() as int).len() == 0);
                        assert(add_segments_spec(folded, segs.subrange(1, segs.len() as int))
                            == folded);
                        assert(add_segments_spec(query_string@, segs) == folded);
                    }
                    match next_token(rest, '=') {
                        Some((key, value)) => {
                            proof {
                                lemma_first_index_of(rest@, '=');
                            }
                            query_string.add_value(key, value);
                        },
                        None => {
                            proof {
                                lemma_first_index_of(rest@, '=');
                                reveal_strlit("");
                                assert(""@ =~= Seq::<char>::empty());
                            }
                            query_string.add_value(rest, "");
                        },
                    }
                    return query_string;
                },
            }
        }
    }

    /// Looks a key up: the value under it, or nothing when the key never
    /// appeared in the query.
    pub fn get(&self, key: &str) -> (r: Option<&QueryParameterValue<'a>>)
        requires
            self.wf(),
        ensures
            match r {
                Some(v) => {
                    &&& self@.dom().contains(key@)
                    &&& v@ == self@[key@]
                    &&& v.wf()
                },
                None => !self@.dom().contains(key@),
            },
    {
        let mut idx: usize = 0;
        let len = self.items.len();
        while idx < len
            invariant
                self.wf(),
                len == self.items@.len(),
                idx <= len,
                forall|j: int| 0 <= j < idx ==> (#[trigger] self.items@[j]).0@ != key@,
            decreases len - idx,
        {
            if str_eq(self.items[idx].0, key) {
                proof {
                    lemma_map_of_pairs_get(self.items_view(), idx as int);
                }
                return Some(&self.items[idx].1);
            }
            idx = idx + 1;
        }
        proof {
            lemma_map_of_pairs_dom(self.items_view(), key@);
        }
        None
    }

    /// How many distinct keys the query holds.
    pub fn len(&self) -> (r: usize)
        requires
            self.wf(),
        ensures
            r == self@.dom().len(),
    {
        proof {
            lemma_map_of_pairs_len(self.items_view());
        }
        self.items.len()
    }
}

proof fn lemma_map_of_pairs_len(items: Seq<(Seq<char>, Seq<Seq<char>>)>)
    requires
        pairs_keys_distinct(items),
    ensures
        map_of_pairs(items).dom().finite(),
        map_of_pairs(items).dom().len() == items.len(),
    decreases items.len(),
{
    if items.len() > 0 {
        let prefix = items.drop_last();
        lemma_map_of_pairs_len(prefix);
        lemma_map_of_pairs_dom(prefix, items.last().0);
        assert(!pairs_have_key(prefix, items.last().0)) by {
            if pairs_have_key(prefix, items.last().0) {
                let i = choose|i: int|
                    0 <= i < prefix.len() && (#[trigger] prefix[i]).0 == items.last().0;
                assert(items[i].0 == items[items.len() - 1].0);
            }
        }
    }
}

/// Decoding is deterministic: two parses of the same text denote the same
/// mapping.
pub proof fn lemma_query_parse_deterministic<'a, 'b>(
    first: QueryString<'a>,
    second: QueryString<'b>,
    s: Seq<char>,
)
    requires
        first@ == query_string_spec(s),
        second@ == query_string_spec(s),
    ensures
        first@ == second@,
{
}

} // verus!
