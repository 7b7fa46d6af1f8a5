use vstd::prelude::*;

verus! {

/// A table: key/value entries kept in insertion order.
///
/// The tables this library builds never hold a key twice; lookups go by the
/// last entry with a given key. Equality of values compares table entries in
/// order.
pub type Table = Vec<(String, Value)>;

/// A configuration value.
#[derive(Debug, PartialEq)]
pub enum Value {
    Table(Table),
    Array(Vec<Value>),
    String(String),
    Integer(i64),
    /// A 64-bit float, held as its IEEE-754 bit pattern.
    Float(u64),
    Boolean(bool),
}

/// The name of a value's kind, as used in diagnostics.
pub open spec fn kind_name(v: Value) -> Seq<char> {
    match v {
        Value::Table(_) => "table"@,
        Value::Array(_) => "array"@,
        Value::String(_) => "string"@,
        Value::Integer(_) => "integer"@,
        Value::Float(_) => "float"@,
        Value::Boolean(_) => "boolean"@,
    }
}

/// Index of the last entry of `t` whose key is `k`, or -1 when there is none.
pub open spec fn key_index(t: Seq<(String, Value)>, k: Seq<char>) -> int
    decreases t.len(),
{
    if t.len() == 0 {
        -1
    } else if t.last().0@ == k {
        t.len() - 1
    } else {
        key_index(t.drop_last(), k)
    }
}

/// `t` after binding `k` to `v`: an existing entry is overwritten in place,
/// otherwise the entry is appended.
pub open spec fn insert_entry(t: Seq<(String, Value)>, k: String, v: Value) -> Seq<(String, Value)> {
    if key_index(t, k@) >= 0 {
        t.update(key_index(t, k@), (k, v))
    } else {
        t.push((k, v))
    }
}

/// No key occurs twice.
pub open spec fn keys_distinct(t: Seq<(String, Value)>) -> bool {
    forall|i: int, j: int| 0 <= i < j < t.len() ==> t[i].0@ != t[j].0@
}

pub proof fn lemma_key_index_bounds(t: Seq<(String, Value)>, k: Seq<char>)
    ensures
        -1 <= key_index(t, k) < t.len(),
        key_index(t, k) >= 0 ==> t[key_index(t, k)].0@ == k,
        key_index(t, k) < 0 ==> forall|i: int| 0 <= i < t.len() ==> t[i].0@ != k,
        key_index(t, k) >= 0 ==> forall|i: int| key_index(t, k) < i < t.len() ==> t[i].0@ != k,
    decreases t.len(),
{
    if t.len() > 0 && t.last().0@ != k {
        lemma_key_index_bounds(t.drop_last(), k);
        assert forall|i: int| 0 <= i < t.len() - 1 implies t[i] == t.drop_last()[i] by {}
    }
}

/// Entries after `n` do not carry `k`, so the search can stop at `n`.
proof fn lemma_key_index_prefix(t: Seq<(String, Value)>, k: Seq<char>, n: int)
    requires
        0 <= n <= t.len(),
        forall|i: int| n <= i < t.len() ==> t[i].0@ != k,
    ensures
        key_index(t, k) == key_index(t.subrange(0, n), k),
    decreases t.len() - n,
{
    if n < t.len() {
        assert(t.drop_last() =~= t.drop_last().subrange(0, t.len() - 1));
        lemma_key_index_prefix(t.drop_last(), k, n);
        assert(t.drop_last().subrange(0, n) =~= t.subrange(0, n));
    } else {
        assert(t.subrange(0, n) =~= t);
    }
}

/// `a` and `b` are equal entry by entry, as `==` compares them: the same
/// kind, the same keys in the same order, and equal scalars at the leaves.
pub open spec fn same_value(a: Value, b: Value) -> bool
    decreases a,
    via same_value_decreases
{
    match a {
        Value::Table(t) => match b {
            Value::Table(u) => {
                &&& t@.len() == u@.len()
                &&& forall|i: int|
                    0 <= i < t@.len() ==> #[trigger] u@[i].0 == t@[i].0 && same_value(t@[i].1, u@[i].1)
            },
            _ => false,
        },
        Value::Array(x) => match b {
            Value::Array(y) => {
                &&& x@.len() == y@.len()
                &&& forall|i: int| 0 <= i < x@.len() ==> same_value(#[trigger] x@[i], y@[i])
            },
            _ => false,
        },
        _ => b == a,
    }
}

#[via_fn]
proof fn same_value_decreases(a: Value, b: Value) {
    match a {
        Value::Table(t) => {
            assert forall|i: int| 0 <= i < t@.len() implies decreases_to!(a => t@[i].1) by {
                vstd::std_specs::vec::axiom_vec_index_decreases(t, i);
                assert(decreases_to!(a => a->Table_0));
                assert(decreases_to!(t => t@[i]));
                assert(decreases_to!(t@[i] => t@[i].1));
            }
        },
        Value::Array(x) => {
            assert forall|i: int| 0 <= i < x@.len() implies decreases_to!(a => x@[i]) by {
                vstd::std_specs::vec::axiom_vec_index_decreases(x, i);
                assert(decreases_to!(a => a->Array_0));
                assert(decreases_to!(x => x@[i]));
            }
        },
        _ => {},
    }
}

impl Clone for Value {
    fn clone(&self) -> (r: Self)
        ensures
            same_value(*self, r),
    {
        copy_value(self)
    }
}

/// A copy of `v`, entry by entry.
pub fn copy_value(v: &Value) -> (r: Value)
    ensures
        same_value(*v, r),
    decreases v,
{
    match v {
        Value::Table(t) => {
            let mut out: Table = Vec::new();
            let mut i: usize = 0;
            while i < t.len()
                invariant
                    i <= t.len(),
                    *v == Value::Table(*t),
                    out@.len() == i,
                    forall|j: int|
                        0 <= j < i ==> #[trigger] out@[j].0 == t@[j].0 && same_value(t@[j].1, out@[j].1),
                decreases t.len() - i,
            {
                proof {
                    vstd::std_specs::vec::axiom_vec_index_decreases(*t, i as int);
                    assert(decreases_to!(*v => (*v)->Table_0));
                    assert(decreases_to!(*t => t@[i as int]));
                    assert(decreases_to!(t@[i as int] => t@[i as int].1));
                    assert(decreases_to!(*v => t@[i as int].1));
                }
                let k = t[i].0.clone();
                let x = copy_value(&t[i].1);
                out.push((k, x));
                i = i + 1;
            }
            let r = Value::Table(out);
            assert forall|j: int| 0 <= j < t@.len() implies #[trigger] out@[j].0 == t@[j].0
                && same_value(t@[j].1, out@[j].1) by {}
            r
        },
        Value::Array(a) => {
            let mut out: Vec<Value> = Vec::new();
            let mut i: usize = 0;
            while i < a.len()
                invariant
                    i <= a.len(),
                    *v == Value::Array(*a),
                    out@.len() == i,
                    forall|j: int| 0 <= j < i ==> same_value(#[trigger] a@[j], out@[j]),
                decreases a.len() - i,
            {
                proof {
                    vstd::std_specs::vec::axiom_vec_index_decreases(*a, i as int);
                    assert(decreases_to!(*v => (*v)->Array_0));
                    assert(decreases_to!(*a => a@[i as int]));
                    assert(decreases_to!(*v => a@[i as int]));
                }
                let x = copy_value(&a[i]);
                out.push(x);
                i = i + 1;
            }
            Value::Array(out)
        },
        Value::String(s) => Value::String(s.clone()),
        Value::Integer(n) => Value::Integer(*n),
        Value::Float(b) => Value::Float(*b),
        Value::Boolean(b) => Value::Boolean(*b),
    }
}

impl Value {
    /// The stable name of this value's kind.
    pub fn type_str(&self) -> (r: &'static str)
        ensures
            r@ == kind_name(*self),
    {
        proof {
            reveal_strlit("table");
            reveal_strlit("array");
            reveal_strlit("string");
            reveal_strlit("integer");
            reveal_strlit("float");
            reveal_strlit("boolean");
        }
        match self {
            Value::Table(_) => "table",
            Value::Array(_) => "array",
            Value::String(_) => "string",
            Value::Integer(_) => "integer",
            Value::Float(_) => "float",
            Value::Boolean(_) => "boolean",
        }
    }
}

/// Position of the entry that holds `k` (the last one, should there be several).
pub fn find_key(t: &Table, k: &str) -> (r: Option<usize>)
    ensures
        match r {
            Some(i) => i as int == key_index(t@, k@),
            None => key_index(t@, k@) == -1,
        },
{
    let key = k.to_owned();
    let mut n: usize = t.len();
    while n > 0
        invariant
            n <= t.len(),
            key@ == k@,
            forall|i: int| n <= i < t.len() ==> t@[i].0@ != k@,
        decreases n,
    {
        let i = n - 1;
        if t[i].0 == key {
            proof {
                lemma_key_index_prefix(t@, k@, n as int);
                assert(t@.subrange(0, n as int).last() == t@[i as int]);
            }
            return Some(i);
        }
        n = i;
    }
    proof {
        lemma_key_index_prefix(t@, k@, 0);
    }
    None
}

/// Binds `k` to `v` in `t`, overwriting an existing entry for `k`.
pub fn insert_into(t: &mut Table, k: String, v: Value)
    ensures
        final(t)@ == insert_entry(old(t)@, k, v),
{
    proof {
        lemma_key_index_bounds(t@, k@);
    }
    match find_key(t, k.as_str()) {
        Some(i) => {
            t.push((k, v));
            let _ = t.swap_remove(i);
            assert(t@ =~= insert_entry(old(t)@, k, v));
        },
        None => {
            t.push((k, v));
        },
    }
}

} // verus!
