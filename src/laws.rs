use vstd::prelude::*;

use crate::decoder::{take_field, unconsumed};
use crate::diagnostics::hyphenated;
use crate::encoder::{emit_step, Encoder, Error};
use crate::value::{insert_entry, key_index, keys_distinct, lemma_key_index_bounds, Value};

verus! {

/// After `k` is bound to `v`, the last entry for `k` is the new one.
proof fn lemma_key_index_after_insert(t: Seq<(String, Value)>, k: String, v: Value)
    ensures
        key_index(insert_entry(t, k, v), k@) == if key_index(t, k@) >= 0 {
            key_index(t, k@)
        } else {
            t.len() as int
        },
{
    lemma_key_index_bounds(t, k@);
    let u = insert_entry(t, k, v);
    let i = if key_index(t, k@) >= 0 { key_index(t, k@) } else { t.len() as int };
    lemma_key_index_bounds(u, k@);
    assert(u[i].0@ == k@);
    assert forall|j: int| i < j < u.len() implies u[j].0@ != k@ by {
        assert(u[j] == t[j]);
    }
    if key_index(u, k@) < i {
        assert(u[i].0@ != k@);
    }
}

/// What an encoder binds under a key, a decoder's read of that field takes
/// back out unchanged; the rest of the table is the table as it was, less
/// the key's earlier entry if it had one.
pub proof fn law_field_round_trip(t: Seq<(String, Value)>, k: String, v: Value)
    ensures
        take_field(insert_entry(t, k, v), k@).1 == Some(v),
        take_field(insert_entry(t, k, v), k@).0 == if key_index(t, k@) >= 0 {
            t.remove(key_index(t, k@))
        } else {
            t
        },
{
    lemma_key_index_bounds(t, k@);
    lemma_key_index_after_insert(t, k, v);
    let u = insert_entry(t, k, v);
    if key_index(t, k@) >= 0 {
        assert(u.remove(key_index(t, k@)) =~= t.remove(key_index(t, k@)));
    } else {
        assert(u.remove(t.len() as int) =~= t);
    }
}

/// The table an encoder builds when each entry of `fields` is emitted, in
/// order, as a field of a record.
pub open spec fn emitted_fields(fields: Seq<(String, Value)>) -> Seq<(String, Value)>
    decreases fields.len(),
{
    if fields.len() == 0 {
        fields
    } else {
        insert_entry(emitted_fields(fields.drop_last()), fields.last().0, fields.last().1)
    }
}

/// Reads the fields `names`, in order, from the table `t`: the values handed
/// out, and the entries left at the end.
pub open spec fn read_fields(t: Seq<(String, Value)>, names: Seq<Seq<char>>) -> (Seq<Option<Value>>, Seq<(String, Value)>)
    decreases names.len(),
{
    if names.len() == 0 {
        (Seq::empty(), t)
    } else {
        let step = take_field(t, names[0]);
        let rest = read_fields(step.0, names.drop_first());
        (seq![step.1] + rest.0, rest.1)
    }
}

/// Round trip of a dynamic map: entries with distinct keys, each emitted as
/// a map key followed by its value, give a table that holds exactly those
/// entries in that order, so the key and the value read at position `i` are
/// those of entry `i`.
pub proof fn law_map_round_trip(entries: Seq<(String, Value)>)
    requires
        keys_distinct(entries),
    ensures
        emitted_fields(entries) == entries,
{
    lemma_emitted_distinct_fields(entries);
}

proof fn lemma_emitted_distinct_fields(fields: Seq<(String, Value)>)
    requires
        keys_distinct(fields),
    ensures
        emitted_fields(fields) == fields,
    decreases fields.len(),
{
    if fields.len() > 0 {
        let init = fields.drop_last();
        assert(keys_distinct(init));
        lemma_emitted_distinct_fields(init);
        lemma_key_index_bounds(init, fields.last().0@);
        if key_index(init, fields.last().0@) >= 0 {
            assert(fields[key_index(init, fields.last().0@)].0@ == fields[fields.len() - 1].0@);
        }
        assert(init.push(fields.last()) =~= fields);
    }
}

proof fn lemma_read_distinct_fields(fields: Seq<(String, Value)>)
    requires
        keys_distinct(fields),
    ensures
        read_fields(fields, fields.map_values(|p: (String, Value)| p.0@)) == (
            fields.map_values(|p: (String, Value)| Some(p.1)),
            Seq::<(String, Value)>::empty(),
        ),
    decreases fields.len(),
{
    let names = fields.map_values(|p: (String, Value)| p.0@);
    if fields.len() == 0 {
        assert(fields.map_values(|p: (String, Value)| Some(p.1)) =~= Seq::<Option<Value>>::empty());
        assert(fields =~= Seq::<(String, Value)>::empty());
    } else {
        let k = fields[0].0@;
        lemma_key_index_bounds(fields, k);
        assert(key_index(fields, k) == 0) by {
            if key_index(fields, k) > 0 {
                assert(fields[key_index(fields, k)].0@ == fields[0].0@);
            }
        }
        let tail = fields.drop_first();
        assert(fields.remove(0) =~= tail);
        assert(keys_distinct(tail));
        lemma_read_distinct_fields(tail);
        assert(names.drop_first() =~= tail.map_values(|p: (String, Value)| p.0@));
        assert(seq![Some(fields[0].1)] + tail.map_values(|p: (String, Value)| Some(p.1))
            =~= fields.map_values(|p: (String, Value)| Some(p.1)));
    }
}

/// Round trip of a record: when fields with distinct names are emitted into
/// an empty table and then read back by name in the same order, each read
/// hands back the value emitted for it and nothing is left over.
pub proof fn law_record_round_trip(fields: Seq<(String, Value)>)
    requires
        keys_distinct(fields),
    ensures
        read_fields(emitted_fields(fields), fields.map_values(|p: (String, Value)| p.0@)) == (
            fields.map_values(|p: (String, Value)| Some(p.1)),
            Seq::<(String, Value)>::empty(),
        ),
{
    lemma_emitted_distinct_fields(fields);
    lemma_read_distinct_fields(fields);
}

/// Round trip of a nested record: a field whose value is a table of fields
/// with distinct names is read back as that table, and reading the inner
/// fields from it hands back each inner value and leaves nothing.
pub proof fn law_nested_record_round_trip(
    fields: Seq<(String, Value)>,
    j: int,
    inner: Seq<(String, Value)>,
)
    requires
        keys_distinct(fields),
        keys_distinct(inner),
        0 <= j < fields.len(),
        fields[j].1 matches Value::Table(t) && t@ == inner,
    ensures
        read_fields(emitted_fields(fields), fields.map_values(|p: (String, Value)| p.0@)).0[j] == Some(
            fields[j].1,
        ),
        read_fields(emitted_fields(inner), inner.map_values(|p: (String, Value)| p.0@)) == (
            inner.map_values(|p: (String, Value)| Some(p.1)),
            Seq::<(String, Value)>::empty(),
        ),
{
    law_record_round_trip(fields);
    law_record_round_trip(inner);
}

/// The elements of `a` after the first `n` of them were read out, each
/// leaving the consumed mark in its place.
pub open spec fn consume_elements(a: Seq<Value>, n: int) -> Seq<Value>
    decreases n,
{
    if n <= 0 {
        a
    } else {
        consume_elements(a, n - 1).update(n - 1, Value::Integer(0))
    }
}

proof fn lemma_consume_elements(a: Seq<Value>, n: int)
    requires
        0 <= n <= a.len(),
    ensures
        consume_elements(a, n).len() == a.len(),
        forall|i: int| 0 <= i < n ==> consume_elements(a, n)[i] == Value::Integer(0),
        forall|i: int| n <= i < a.len() ==> consume_elements(a, n)[i] == a[i],
    decreases n,
{
    if n > 0 {
        lemma_consume_elements(a, n - 1);
    }
}

proof fn lemma_unconsumed_all_marks(a: Seq<Value>)
    requires
        forall|i: int| 0 <= i < a.len() ==> a[i] == Value::Integer(0),
    ensures
        unconsumed(a).len() == 0,
    decreases a.len(),
{
    if a.len() > 0 {
        lemma_unconsumed_all_marks(a.drop_last());
    }
}

/// Round trip of a sequence: an encoder collects the values emitted into a
/// sequence in order, as the array `values`. Reading its elements in order,
/// the `i`-th read hands back `values[i]`; once each element is consumed,
/// nothing of the array is left over.
pub proof fn law_sequence_round_trip(values: Seq<Value>)
    ensures
        forall|i: int| 0 <= i < values.len() ==> #[trigger] consume_elements(values, i)[i] == values[i],
        unconsumed(consume_elements(values, values.len() as int)).len() == 0,
{
    assert forall|i: int| 0 <= i < values.len() implies #[trigger] consume_elements(values, i)[i]
        == values[i] by {
        lemma_consume_elements(values, i);
    }
    lemma_consume_elements(values, values.len() as int);
    lemma_unconsumed_all_marks(consume_elements(values, values.len() as int));
}

/// A field whose name has underscores is found under the hyphenated key when
/// the name itself is absent.
pub proof fn law_hyphenated_fallback(t: Seq<(String, Value)>, name: Seq<char>)
    requires
        key_index(t, name) < 0,
        key_index(t, hyphenated(name)) >= 0,
    ensures
        take_field(t, name).1 == Some(t[key_index(t, hyphenated(name))].1),
        take_field(t, name).0 == t.remove(key_index(t, hyphenated(name))),
{
}

/// A map key that is not a string is refused, whatever the table holds.
pub proof fn law_map_key_must_be_string(e: Encoder, v: Value, e2: Encoder, r: Result<(), Error>)
    requires
        e.state is NextMapKey,
        !(v is String),
        emit_step(e, v, e2, r),
    ensures
        r == Err::<(), Error>(Error::InvalidMapKeyType),
{
}

} // verus!
