use vstd::prelude::*;
use vstd::string::*;

use crate::diagnostics::{child_path, hyphenate, hyphenated, sub_path};
use crate::value::{copy_value, same_value, find_key, insert_entry, insert_into, key_index, kind_name, lemma_key_index_bounds, Value};

verus! {

/// What went wrong while decoding.
#[derive(Clone, Copy, Debug, PartialEq, Eq)]
pub enum DecodeErrorKind {
    /// A value of this type was needed, but there was none.
    ExpectedField(&'static str),
    /// A value of the first type was needed, but one of the second was found.
    ExpectedType(&'static str, &'static str),
    /// The map has no key at this position.
    ExpectedMapKey(usize),
    /// The map has no element at this position.
    ExpectedMapElement(usize),
    /// A tagged union with no variants was decoded.
    NoEnumVariants,
    /// The unit value was decoded from a non-empty string.
    NilTooLong,
}

/// A decoding failure and the dotted path of the key it applies to.
#[derive(Debug, PartialEq)]
pub struct DecodeError {
    /// The key this error applies to.
    pub field: Option<String>,
    /// What went wrong.
    pub kind: DecodeErrorKind,
}

/// Consumes a value tree, keeping what was not claimed.
#[derive(Debug)]
pub struct Decoder {
    /// The part of the value not consumed so far; `None` once all of it was.
    pub toml: Option<Value>,
    /// Dotted path of the value being decoded.
    pub cur_field: Option<String>,
}

/// `e` reports that a value of type `expected` was needed at `field`, where
/// `found` was held.
pub open spec fn is_mismatch(e: DecodeError, field: Option<String>, expected: Seq<char>, found: Option<Value>) -> bool {
    &&& e.field == field
    &&& match found {
        Some(v) => e.kind matches DecodeErrorKind::ExpectedType(x, y) && x@ == expected && y@
            == kind_name(v),
        None => e.kind matches DecodeErrorKind::ExpectedField(x) && x@ == expected,
    }
}

/// The entries of a table left after the field `name` is taken, and the value
/// taken. The name is looked up as given, then with hyphens for underscores.
pub open spec fn take_field(t: Seq<(String, Value)>, name: Seq<char>) -> (Seq<(String, Value)>, Option<Value>) {
    let i = key_index(t, name);
    let j = key_index(t, hyphenated(name));
    if i >= 0 {
        (t.remove(i), Some(t[i].1))
    } else if j >= 0 {
        (t.remove(j), Some(t[j].1))
    } else {
        (t, None)
    }
}

/// Whether an array element is the mark left where an element was consumed.
pub open spec fn is_consumed_mark(v: Value) -> bool {
    v == Value::Integer(0)
}

/// The elements of `a` that are not consumed marks, in order.
pub open spec fn unconsumed(a: Seq<Value>) -> Seq<Value>
    decreases a.len(),
{
    if a.len() == 0 {
        a
    } else if is_consumed_mark(a.last()) {
        unconsumed(a.drop_last())
    } else {
        unconsumed(a.drop_last()).push(a.last())
    }
}

/// The entries of a table value, if it is one.
pub open spec fn table_entries(v: Option<Value>) -> Option<Seq<(String, Value)>> {
    match v {
        Some(Value::Table(t)) => Some(t@),
        _ => None,
    }
}

/// The elements of an array value, if it is one.
pub open spec fn array_elements(v: Option<Value>) -> Option<Seq<Value>> {
    match v {
        Some(Value::Array(a)) => Some(a@),
        _ => None,
    }
}

/// `b` holds what `a` holds: both nothing, or values equal entry by entry.
pub open spec fn same_held(a: Option<Value>, b: Option<Value>) -> bool {
    match a {
        Some(x) => b matches Some(y) && same_value(x, y),
        None => b is None,
    }
}

/// `d` is a trial decoder for `s`: a copy of what `s` holds, at `s`'s path.
pub open spec fn is_trial_of(s: Decoder, d: Decoder) -> bool {
    &&& d.cur_field == s.cur_field
    &&& same_held(s.toml, d.toml)
}

/// Trying variant `i` of a tagged union on a trial decoder for `s` may fail
/// with `e`.
pub open spec fn trial_fails_with<T, F: Fn(Decoder, usize) -> (Result<T, DecodeError>, Decoder)>(
    f: F,
    s: Decoder,
    i: usize,
    e: DecodeError,
) -> bool {
    exists|d: Decoder, out: (Result<T, DecodeError>, Decoder)|
        is_trial_of(s, d) && f.ensures((d, i), out) && out.0 == Err::<T, DecodeError>(e)
}

/// Trying variant `i` on a trial decoder for `s` may fail.
pub open spec fn trial_fails<T, F: Fn(Decoder, usize) -> (Result<T, DecodeError>, Decoder)>(
    f: F,
    s: Decoder,
    i: usize,
) -> bool {
    exists|e: DecodeError| trial_fails_with(f, s, i, e)
}

/// Trying variant `i` on a trial decoder for `s` may give `t`, leaving `left`
/// unclaimed.
pub open spec fn trial_gives<T, F: Fn(Decoder, usize) -> (Result<T, DecodeError>, Decoder)>(
    f: F,
    s: Decoder,
    i: usize,
    t: T,
    left: Option<Value>,
) -> bool {
    exists|d: Decoder, out: (Result<T, DecodeError>, Decoder)|
        is_trial_of(s, d) && f.ensures((d, i), out) && out.0 == Ok::<T, DecodeError>(t) && out.1.toml
            == left
}

/// The error kept after a failed trial: the first one seen.
pub fn keep_first_error(first: Option<DecodeError>, e: DecodeError) -> (r: Option<DecodeError>)
    ensures
        r == (if first is Some { first } else { Some(e) }),
{
    match first {
        Some(f) => Some(f),
        None => Some(e),
    }
}

/// A type that can be decoded from a value tree.
pub trait Decodable: Sized {
    /// Reads a value of this type from `d`.
    fn decode(d: &mut Decoder) -> Result<Self, DecodeError>;
}

/// Decodes `toml` into a `T`; any decoding error gives `None`.
pub fn decode<T: Decodable>(toml: Value) -> (r: Option<T>) {
    let mut d = Decoder::new(toml);
    match T::decode(&mut d) {
        Ok(t) => Some(t),
        Err(_) => None,
    }
}

/// The array `a` without its consumed marks.
fn keep_unconsumed(a: Vec<Value>) -> (r: Vec<Value>)
    ensures
        r@ == unconsumed(a@),
{
    let ghost whole = a@;
    assert(whole.len() == a.len());
    let mut kept: Vec<Value> = Vec::new();
    let mut rest = a;
    let mut i: usize = 0;
    while rest.len() > 0
        invariant
            rest@ == whole.subrange(i as int, whole.len() as int),
            i <= whole.len(),
            whole.len() <= usize::MAX,
            kept@ == unconsumed(whole.subrange(0, i as int)),
        decreases rest@.len(),
    {
        let v = rest.remove(0);
        proof {
            let next = whole.subrange(0, i + 1);
            assert(next.drop_last() =~= whole.subrange(0, i as int));
            assert(next.last() == v);
        }
        let mark = match &v {
            Value::Integer(n) => *n == 0,
            _ => false,
        };
        if !mark {
            kept.push(v);
        }
        i = i + 1;
        assert(rest@ =~= whole.subrange(i as int, whole.len() as int));
    }
    assert(whole.subrange(0, i as int) =~= whole);
    kept
}

impl Decoder {
    /// A decoder that holds `toml` and has no path yet.
    pub fn new(toml: Value) -> (d: Decoder)
        ensures
            d.toml == Some(toml),
            d.cur_field is None,
    {
        Decoder { toml: Some(toml), cur_field: None }
    }

    /// A decoder for `toml`, found at `field` below this one.
    fn sub_decoder(&self, toml: Option<Value>, field: &str) -> (d: Decoder)
        ensures
            d.toml == toml,
            sub_path(self.cur_field, field@, d.cur_field),
    {
        Decoder { toml, cur_field: child_path(&self.cur_field, field) }
    }

    /// An error of kind `kind` at this decoder's path.
    pub open spec fn err_spec(&self, kind: DecodeErrorKind) -> DecodeError {
        DecodeError { field: self.cur_field, kind }
    }

    /// An error of kind `kind` at this decoder's path.
    pub fn err(&self, kind: DecodeErrorKind) -> (e: DecodeError)
        ensures
            e == self.err_spec(kind),
    {
        let field = match &self.cur_field {
            Some(p) => Some(p.clone()),
            None => None,
        };
        DecodeError { field, kind }
    }

    /// The error for a value of type `expected` that `found` does not supply.
    pub fn mismatch(&self, expected: &'static str, found: &Option<Value>) -> (e: DecodeError)
        ensures
            is_mismatch(e, self.cur_field, expected@, *found),
    {
        match found {
            Some(v) => self.err(DecodeErrorKind::ExpectedType(expected, v.type_str())),
            None => self.err(DecodeErrorKind::ExpectedField(expected)),
        }
    }

    /// Reads the unit value, held as an empty string.
    pub fn read_nil(&mut self) -> (r: Result<(), DecodeError>)
        ensures
            match old(self).toml {
                Some(Value::String(s)) => if s@.len() == 0 {
                    r is Ok && final(self).toml is None
                } else {
                    r matches Err(e) && e.kind == DecodeErrorKind::NilTooLong && e.field == old(
                        self,
                    ).cur_field && final(self).toml == old(self).toml
                },
                _ => r matches Err(e) && is_mismatch(e, old(self).cur_field, "string"@, old(self).toml)
                    && final(self).toml == old(self).toml,
            },
            final(self).cur_field == old(self).cur_field,
    {
        proof {
            reveal_strlit("string");
        }
        match &self.toml {
            Some(Value::String(s)) => {
                if !s.as_str().is_empty() {
                    return Err(self.err(DecodeErrorKind::NilTooLong));
                }
            },
            found => return Err(self.mismatch("string", found)),
        }
        self.toml = None;
        Ok(())
    }

    /// Reads an integer.
    pub fn read_i64(&mut self) -> (r: Result<i64, DecodeError>)
        ensures
            match old(self).toml {
                Some(Value::Integer(i)) => r == Ok::<i64, DecodeError>(i) && final(self).toml is None,
                _ => r matches Err(e) && is_mismatch(e, old(self).cur_field, "integer"@, old(self).toml)
                    && final(self).toml == old(self).toml,
            },
            final(self).cur_field == old(self).cur_field,
    {
        proof {
            reveal_strlit("integer");
        }
        match &self.toml {
            Some(Value::Integer(i)) => {
                let i = *i;
                self.toml = None;
                Ok(i)
            },
            found => Err(self.mismatch("integer", found)),
        }
    }

    /// Reads a boolean.
    pub fn read_bool(&mut self) -> (r: Result<bool, DecodeError>)
        ensures
            match old(self).toml {
                Some(Value::Boolean(b)) => r == Ok::<bool, DecodeError>(b) && final(self).toml is None,
                _ => r matches Err(e) && is_mismatch(e, old(self).cur_field, "bool"@, old(self).toml)
                    && final(self).toml == old(self).toml,
            },
            final(self).cur_field == old(self).cur_field,
    {
        proof {
            reveal_strlit("bool");
        }
        match &self.toml {
            Some(Value::Boolean(b)) => {
                let b = *b;
                self.toml = None;
                Ok(b)
            },
            found => Err(self.mismatch("bool", found)),
        }
    }

    /// Reads a float, as its IEEE-754 bit pattern.
    pub fn read_float(&mut self) -> (r: Result<u64, DecodeError>)
        ensures
            match old(self).toml {
                Some(Value::Float(b)) => r == Ok::<u64, DecodeError>(b) && final(self).toml is None,
                _ => r matches Err(e) && is_mismatch(e, old(self).cur_field, "float"@, old(self).toml)
                    && final(self).toml == old(self).toml,
            },
            final(self).cur_field == old(self).cur_field,
    {
        proof {
            reveal_strlit("float");
        }
        match &self.toml {
            Some(Value::Float(b)) => {
                let b = *b;
                self.toml = None;
                Ok(b)
            },
            found => Err(self.mismatch("float", found)),
        }
    }

    /// Reads a character, held as a string of exactly one character.
    pub fn read_char(&mut self) -> (r: Result<char, DecodeError>)
        ensures
            match old(self).toml {
                Some(Value::String(s)) if s@.len() == 1 => r == Ok::<char, DecodeError>(s@[0])
                    && final(self).toml is None,
                _ => r matches Err(e) && is_mismatch(e, old(self).cur_field, "string"@, old(self).toml)
                    && final(self).toml == old(self).toml,
            },
            final(self).cur_field == old(self).cur_field,
    {
        proof {
            reveal_strlit("string");
        }
        let single = match &self.toml {
            Some(Value::String(s)) => s.as_str().unicode_len() == 1,
            _ => false,
        };
        if !single {
            return Err(self.mismatch("string", &self.toml));
        }
        match self.toml.take() {
            Some(Value::String(s)) => Ok(s.as_str().get_char(0)),
            _ => Ok(' '),
        }
    }

    /// Reads a string.
    pub fn read_str(&mut self) -> (r: Result<String, DecodeError>)
        ensures
            match old(self).toml {
                Some(Value::String(s)) => r == Ok::<String, DecodeError>(s) && final(self).toml is None,
                _ => r matches Err(e) && is_mismatch(e, old(self).cur_field, "string"@, old(self).toml)
                    && final(self).toml == old(self).toml,
            },
            final(self).cur_field == old(self).cur_field,
    {
        proof {
            reveal_strlit("string");
        }
        match self.toml.take() {
            Some(Value::String(s)) => Ok(s),
            found => {
                let e = self.mismatch("string", &found);
                self.toml = found;
                Err(e)
            },
        }
    }

    /// Whether a value is held, for an optional value: the caller reads it
    /// only if so.
    pub fn read_option(&self) -> (present: bool)
        ensures
            present == self.toml is Some,
    {
        self.toml.is_some()
    }

    /// Opens a record: the value held must be a table.
    pub fn read_struct_begin(&self) -> (r: Result<(), DecodeError>)
        ensures
            self.toml matches Some(Value::Table(_)) ==> r is Ok,
            !(self.toml matches Some(Value::Table(_))) ==> (r matches Err(e) && is_mismatch(
                e,
                self.cur_field,
                "table"@,
                self.toml,
            )),
    {
        proof {
            reveal_strlit("table");
        }
        match &self.toml {
            Some(Value::Table(_)) => Ok(()),
            found => Err(self.mismatch("table", found)),
        }
    }

    /// Closes a record: a table with nothing left is consumed; otherwise the
    /// unclaimed entries stay as the leftover.
    pub fn read_struct_end(&mut self)
        ensures
            (old(self).toml matches Some(Value::Table(t)) && t@.len() == 0) ==> final(self).toml is None,
            !(old(self).toml matches Some(Value::Table(t)) && t@.len() == 0) ==> final(self).toml
                == old(self).toml,
            final(self).cur_field == old(self).cur_field,
    {
        let empty = match &self.toml {
            Some(Value::Table(t)) => t.len() == 0,
            _ => false,
        };
        if empty {
            self.toml = None;
        }
    }

    /// Opens the field `name` of the table held: takes its entry out and
    /// returns a decoder for it, whose path ends in `name`. A missing entry is
    /// looked for again with hyphens in place of underscores; if it is missing
    /// too, the returned decoder holds nothing.
    pub fn read_struct_field_begin(&mut self, name: &str) -> (r: Result<Decoder, DecodeError>)
        ensures
            match old(self).toml {
                Some(Value::Table(t)) => {
                    &&& r matches Ok(d) && d.toml == take_field(t@, name@).1 && sub_path(
                        old(self).cur_field,
                        name@,
                        d.cur_field,
                    )
                    &&& table_entries(final(self).toml) == Some(take_field(t@, name@).0)
                },
                _ => {
                    &&& r matches Err(e) && is_mismatch(e, old(self).cur_field, "table"@, old(self).toml)
                    &&& final(self).toml == old(self).toml
                },
            },
            final(self).cur_field == old(self).cur_field,
    {
        proof {
            reveal_strlit("table");
        }
        match self.toml.take() {
            Some(Value::Table(t)) => {
                let mut t = t;
                proof {
                    lemma_key_index_bounds(t@, name@);
                }
                let taken = match find_key(&t, name) {
                    Some(i) => Some(t.remove(i).1),
                    None => {
                        let alt = hyphenate(name);
                        proof {
                            lemma_key_index_bounds(t@, alt@);
                        }
                        match find_key(&t, alt.as_str()) {
                            Some(j) => Some(t.remove(j).1),
                            None => None,
                        }
                    },
                };
                self.toml = Some(Value::Table(t));
                Ok(self.sub_decoder(taken, name))
            },
            found => {
                let e = self.mismatch("table", &found);
                self.toml = found;
                Err(e)
            },
        }
    }

    /// Closes the field `name`: what its decoder `sub` left unclaimed is put
    /// back under `name`, so that it shows in the leftover.
    pub fn read_struct_field_end(&mut self, name: &str, sub: Decoder)
        ensures
            match (sub.toml, old(self).toml) {
                (Some(v), Some(Value::Table(t))) => exists|k: String|
                    k@ == name@ && table_entries(final(self).toml) == Some(insert_entry(t@, k, v)),
                _ => final(self).toml == old(self).toml,
            },
            final(self).cur_field == old(self).cur_field,
    {
        match sub.toml {
            Some(v) => match self.toml.take() {
                Some(Value::Table(t)) => {
                    let mut t = t;
                    let k = name.to_owned();
                    insert_into(&mut t, k, v);
                    self.toml = Some(Value::Table(t));
                },
                other => {
                    self.toml = other;
                },
            },
            None => {},
        }
    }

    /// Opens a sequence: the value held must be an array; returns its length.
    pub fn read_seq_begin(&self) -> (r: Result<usize, DecodeError>)
        ensures
            match self.toml {
                Some(Value::Array(a)) => r == Ok::<usize, DecodeError>(a@.len() as usize),
                _ => r matches Err(e) && is_mismatch(e, self.cur_field, "array"@, self.toml),
            },
    {
        proof {
            reveal_strlit("array");
        }
        match &self.toml {
            Some(Value::Array(a)) => Ok(a.len()),
            found => Err(self.mismatch("array", found)),
        }
    }

    /// Closes a sequence: consumed marks are dropped; an array with nothing
    /// left is consumed, otherwise the rest stays as the leftover.
    pub fn read_seq_end(&mut self)
        ensures
            match old(self).toml {
                Some(Value::Array(a)) => if unconsumed(a@).len() == 0 {
                    final(self).toml is None
                } else {
                    array_elements(final(self).toml) == Some(unconsumed(a@))
                },
                _ => final(self).toml == old(self).toml,
            },
            final(self).cur_field == old(self).cur_field,
    {
        match self.toml.take() {
            Some(Value::Array(a)) => {
                let kept = keep_unconsumed(a);
                if kept.len() != 0 {
                    self.toml = Some(Value::Array(kept));
                }
            },
            other => {
                self.toml = other;
            },
        }
    }

    /// Opens element `idx` of the array held: the element is taken out, a
    /// consumed mark stands in its place, and a decoder for it is returned.
    pub fn read_seq_elt_begin(&mut self, idx: usize) -> (r: Result<Decoder, DecodeError>)
        requires
            old(self).toml matches Some(Value::Array(a)) ==> idx < a@.len(),
        ensures
            match old(self).toml {
                Some(Value::Array(a)) => {
                    &&& r matches Ok(d) && d.toml == Some(a@[idx as int]) && d.cur_field == old(
                        self,
                    ).cur_field
                    &&& array_elements(final(self).toml) == Some(a@.update(idx as int, Value::Integer(0)))
                },
                _ => {
                    &&& r matches Err(e) && is_mismatch(e, old(self).cur_field, "array"@, old(self).toml)
                    &&& final(self).toml == old(self).toml
                },
            },
            final(self).cur_field == old(self).cur_field,
    {
        proof {
            reveal_strlit("array");
            reveal_strlit("");
        }
        match self.toml.take() {
            Some(Value::Array(a)) => {
                let mut a = a;
                a.push(Value::Integer(0));
                let elt = a.swap_remove(idx);
                assert(a@ =~= old(self).toml->Some_0->Array_0@.update(idx as int, Value::Integer(0)));
                self.toml = Some(Value::Array(a));
                Ok(self.sub_decoder(Some(elt), ""))
            },
            found => {
                let e = self.mismatch("array", &found);
                self.toml = found;
                Err(e)
            },
        }
    }

    /// Closes element `idx`: what its decoder `sub` left unclaimed goes back
    /// in its place; if it left nothing, the consumed mark stays.
    pub fn read_seq_elt_end(&mut self, idx: usize, sub: Decoder)
        ensures
            match (sub.toml, old(self).toml) {
                (Some(v), Some(Value::Array(a))) => if idx < a@.len() {
                    array_elements(final(self).toml) == Some(a@.update(idx as int, v))
                } else {
                    final(self).toml == old(self).toml
                },
                _ => final(self).toml == old(self).toml,
            },
            final(self).cur_field == old(self).cur_field,
    {
        match sub.toml {
            Some(v) => match self.toml.take() {
                Some(Value::Array(a)) => {
                    let mut a = a;
                    if idx < a.len() {
                        a.push(v);
                        let _ = a.swap_remove(idx);
                        assert(a@ =~= old(self).toml->Some_0->Array_0@.update(idx as int, v));
                    }
                    self.toml = Some(Value::Array(a));
                },
                other => {
                    self.toml = other;
                },
            },
            None => {},
        }
    }

    /// Opens a dynamic map: the value held must be a table; returns its
    /// number of entries.
    pub fn read_map_begin(&self) -> (r: Result<usize, DecodeError>)
        ensures
            match self.toml {
                Some(Value::Table(t)) => r == Ok::<usize, DecodeError>(t@.len() as usize),
                _ => r matches Err(e) && is_mismatch(e, self.cur_field, "table"@, self.toml),
            },
    {
        proof {
            reveal_strlit("table");
        }
        match &self.toml {
            Some(Value::Table(t)) => Ok(t.len()),
            found => Err(self.mismatch("table", found)),
        }
    }

    /// Closes a dynamic map: the whole table counts as consumed.
    pub fn read_map_end(&mut self)
        ensures
            final(self).toml is None,
            final(self).cur_field == old(self).cur_field,
    {
        self.toml = None;
    }

    /// A decoder for the key of entry `idx` of the table held, as a string,
    /// whose path ends in that key.
    pub fn read_map_elt_key(&self, idx: usize) -> (r: Result<Decoder, DecodeError>)
        ensures
            match self.toml {
                Some(Value::Table(t)) => if idx < t@.len() {
                    r matches Ok(d) && d.toml == Some(Value::String(t@[idx as int].0)) && sub_path(
                        self.cur_field,
                        t@[idx as int].0@,
                        d.cur_field,
                    )
                } else {
                    r matches Err(e) && e == self.err_spec(DecodeErrorKind::ExpectedMapKey(idx))
                },
                _ => r matches Err(e) && is_mismatch(e, self.cur_field, "table"@, self.toml),
            },
    {
        proof {
            reveal_strlit("table");
        }
        match &self.toml {
            Some(Value::Table(t)) => {
                if idx < t.len() {
                    let key = t[idx].0.clone();
                    let d = self.sub_decoder(None, key.as_str());
                    Ok(Decoder { toml: Some(Value::String(key)), cur_field: d.cur_field })
                } else {
                    Err(self.err(DecodeErrorKind::ExpectedMapKey(idx)))
                }
            },
            found => Err(self.mismatch("table", found)),
        }
    }

    /// A decoder for a copy of the value of entry `idx` of the table held,
    /// at this decoder's path.
    pub fn read_map_elt_val(&self, idx: usize) -> (r: Result<Decoder, DecodeError>)
        ensures
            match self.toml {
                Some(Value::Table(t)) => if idx < t@.len() {
                    r matches Ok(d) && same_held(Some(t@[idx as int].1), d.toml)
                        && d.cur_field == self.cur_field
                } else {
                    r matches Err(e) && e == self.err_spec(DecodeErrorKind::ExpectedMapElement(idx))
                },
                _ => r matches Err(e) && is_mismatch(e, self.cur_field, "table"@, self.toml),
            },
    {
        proof {
            reveal_strlit("table");
            reveal_strlit("");
        }
        match &self.toml {
            Some(Value::Table(t)) => {
                if idx < t.len() {
                    let v = copy_value(&t[idx].1);
                    Ok(self.sub_decoder(Some(v), ""))
                } else {
                    Err(self.err(DecodeErrorKind::ExpectedMapElement(idx)))
                }
            },
            found => Err(self.mismatch("table", found)),
        }
    }

    /// A trial decoder for a tagged union: a copy of what this decoder
    /// holds, at the same path.
    pub fn variant_trial(&self) -> (d: Decoder)
        ensures
            is_trial_of(*self, d),
    {
        let held = match &self.toml {
            Some(v) => Some(copy_value(v)),
            None => None,
        };
        let cur_field = match &self.cur_field {
            Some(p) => Some(p.clone()),
            None => None,
        };
        Decoder { toml: held, cur_field }
    }

    /// Accepts a successful trial: what it left unclaimed replaces the value
    /// held.
    pub fn accept_variant(&mut self, trial: Decoder)
        ensures
            final(self).toml == trial.toml,
            final(self).cur_field == old(self).cur_field,
    {
        self.toml = trial.toml;
    }

    /// Decodes a tagged union by trial. For each variant, in order, `f` is
    /// called with its index and a trial decoder (a copy of the value held, at
    /// this path), and returns its result with the trial decoder afterwards.
    /// The first success wins and what its trial left unclaimed replaces the
    /// value held. If every variant fails, the first failure is returned and
    /// nothing changes; with no variants, the error is `NoEnumVariants`.
    pub fn read_enum_variant<T, F: Fn(Decoder, usize) -> (Result<T, DecodeError>, Decoder)>(
        &mut self,
        names: &[&str],
        f: F,
    ) -> (r: Result<T, DecodeError>)
        requires
            forall|d: Decoder, i: usize| i < names@.len() ==> f.requires((d, i)),
        ensures
            final(self).cur_field == old(self).cur_field,
            match r {
                Ok(t) => exists|j: usize|
                    {
                        &&& j < names@.len()
                        &&& #[trigger] trial_gives(f, *old(self), j, t, final(self).toml)
                        &&& forall|k: usize| k < j ==> #[trigger] trial_fails(f, *old(self), k)
                    },
                Err(e) => {
                    &&& *final(self) == *old(self)
                    &&& names@.len() == 0 ==> e == old(self).err_spec(DecodeErrorKind::NoEnumVariants)
                    &&& names@.len() > 0 ==> trial_fails_with(f, *old(self), 0, e)
                    &&& forall|k: usize| k < names@.len() ==> #[trigger] trial_fails(f, *old(self), k)
                },
            },
    {
        let mut first_error: Option<DecodeError> = None;
        let mut i: usize = 0;
        while i < names.len()
            invariant
                i <= names@.len(),
                *self == *old(self),
                forall|d: Decoder, k: usize| k < names@.len() ==> f.requires((d, k)),
                i == 0 ==> first_error is None,
                i > 0 ==> (first_error matches Some(e) && trial_fails_with(f, *old(self), 0, e)),
                forall|k: usize| k < i ==> #[trigger] trial_fails(f, *old(self), k),
            decreases names@.len() - i,
        {
            let d = self.variant_trial();
            let out = f(d, i);
            let (res, trial) = out;
            match res {
                Ok(t) => {
                    proof {
                        assert(trial_gives(f, *old(self), i, t, trial.toml));
                    }
                    self.accept_variant(trial);
                    return Ok(t);
                },
                Err(e) => {
                    proof {
                        assert(trial_fails_with(f, *old(self), i, e));
                        assert(trial_fails(f, *old(self), i));
                    }
                    first_error = keep_first_error(first_error, e);
                },
            }
            i = i + 1;
        }
        match first_error {
            Some(e) => Err(e),
            None => Err(self.err(DecodeErrorKind::NoEnumVariants)),
        }
    }
}

} // verus!
