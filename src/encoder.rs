use vstd::prelude::*;

use crate::value::{insert_entry, insert_into, Table, Value};

verus! {

/// Misuse of the encoding protocol by the code that drives an [`Encoder`].
#[derive(Clone, Copy, Debug, PartialEq, Eq, Structural)]
pub enum Error {
    /// A value was emitted while no key, array or map key was pending.
    NeedsKey,
    /// A field was opened but no value was emitted for it.
    NoValue,
    /// A map key was emitted where no map key may stand.
    InvalidMapKeyLocation,
    /// A map key was emitted that is not a string.
    InvalidMapKeyType,
}

/// Where the next emitted value goes.
#[derive(Debug)]
pub enum EncoderState {
    /// Nothing is pending.
    Start,
    /// The next value is bound to this key of the output table.
    NextKey(String),
    /// The next value is appended to these elements.
    NextArray(Vec<Value>),
    /// The next value is a string that becomes the pending key.
    NextMapKey,
}

/// Builds a table from the protocol calls of an adapter.
pub struct Encoder {
    /// The table emitted so far.
    pub toml: Table,
    /// The pending context.
    pub state: EncoderState,
}

/// Elements of a pending array, if the state is one.
pub open spec fn pending_array(s: EncoderState) -> Option<Seq<Value>> {
    match s {
        EncoderState::NextArray(a) => Some(a@),
        _ => None,
    }
}

/// The outcome of emitting `v` into `e`: `e2` is the encoder afterwards and
/// `r` the result.
pub open spec fn emit_step(e: Encoder, v: Value, e2: Encoder, r: Result<(), Error>) -> bool {
    match e.state {
        EncoderState::NextKey(k) => {
            &&& r is Ok
            &&& e2.state is Start
            &&& e2.toml@ == insert_entry(e.toml@, k, v)
        },
        EncoderState::NextArray(a) => {
            &&& r is Ok
            &&& pending_array(e2.state) == Some(a@.push(v))
            &&& e2.toml == e.toml
        },
        EncoderState::NextMapKey => {
            &&& e2.toml == e.toml
            &&& match v {
                Value::String(s) => r is Ok && e2.state == EncoderState::NextKey(s),
                _ => r == Err::<(), Error>(Error::InvalidMapKeyType) && e2.state is Start,
            }
        },
        EncoderState::Start => {
            &&& r == Err::<(), Error>(Error::NeedsKey)
            &&& e2.state is Start
            &&& e2.toml == e.toml
        },
    }
}

/// A type that can be encoded into a value tree.
pub trait Encodable {
    /// Emits this value into `e`.
    fn encode(&self, e: &mut Encoder) -> Result<(), Error>;
}

/// Encodes `t`, which must take the shape of a record, into a table value.
/// A misuse of the protocol by `t`'s adapter is returned as the error.
pub fn encode<T: Encodable>(t: &T) -> (r: Result<Value, Error>)
    ensures
        r matches Ok(v) ==> v is Table,
{
    let mut e = Encoder::new();
    match t.encode(&mut e) {
        Ok(()) => Ok(Value::Table(e.toml)),
        Err(err) => Err(err),
    }
}

impl Encoder {
    /// An encoder with an empty table and nothing pending.
    pub fn new() -> (e: Encoder)
        ensures
            e.toml@.len() == 0,
            e.state is Start,
    {
        Encoder { toml: Vec::new(), state: EncoderState::Start }
    }

    fn replace_state(&mut self, s: EncoderState) -> (prev: EncoderState)
        ensures
            prev == old(self).state,
            final(self).state == s,
            final(self).toml == old(self).toml,
    {
        let mut s = s;
        std::mem::swap(&mut self.state, &mut s);
        s
    }

    /// Routes `v` into the pending context.
    pub fn emit_value(&mut self, v: Value) -> (r: Result<(), Error>)
        ensures
            emit_step(*old(self), v, *final(self), r),
    {
        match self.replace_state(EncoderState::Start) {
            EncoderState::NextKey(key) => {
                insert_into(&mut self.toml, key, v);
                Ok(())
            },
            EncoderState::NextArray(vec) => {
                let mut vec = vec;
                vec.push(v);
                self.state = EncoderState::NextArray(vec);
                Ok(())
            },
            EncoderState::NextMapKey => {
                match v {
                    Value::String(s) => {
                        self.state = EncoderState::NextKey(s);
                        Ok(())
                    },
                    _ => Err(Error::InvalidMapKeyType),
                }
            },
            EncoderState::Start => Err(Error::NeedsKey),
        }
    }

    /// Emits an integer.
    pub fn emit_i64(&mut self, v: i64) -> (r: Result<(), Error>)
        ensures
            emit_step(*old(self), Value::Integer(v), *final(self), r),
    {
        self.emit_value(Value::Integer(v))
    }

    /// Emits a boolean.
    pub fn emit_bool(&mut self, v: bool) -> (r: Result<(), Error>)
        ensures
            emit_step(*old(self), Value::Boolean(v), *final(self), r),
    {
        self.emit_value(Value::Boolean(v))
    }

    /// Emits a float given by its IEEE-754 bit pattern.
    pub fn emit_float(&mut self, bits: u64) -> (r: Result<(), Error>)
        ensures
            emit_step(*old(self), Value::Float(bits), *final(self), r),
    {
        self.emit_value(Value::Float(bits))
    }

    /// Emits a string.
    pub fn emit_str(&mut self, v: &str) -> (r: Result<(), Error>)
        ensures
            exists|s: String| s@ == v@ && emit_step(*old(self), Value::String(s), *final(self), r),
    {
        let s = v.to_owned();
        self.emit_value(Value::String(s))
    }

    /// Emits the unit value, which leaves no trace.
    pub fn emit_nil(&mut self) -> (r: Result<(), Error>)
        ensures
            r is Ok,
            *final(self) == *old(self),
    {
        Ok(())
    }

    /// Opens a record and hands out the encoder that receives its fields.
    ///
    /// At the top level the record is the output table itself, so the returned
    /// encoder takes this one's table over until [`Encoder::emit_struct_end`].
    /// Under a key or in an array the record is a fresh table.
    pub fn emit_struct_begin(&mut self) -> (r: Result<Encoder, Error>)
        ensures
            match old(self).state {
                EncoderState::Start => {
                    &&& r matches Ok(n) && n.toml == old(self).toml && n.state is Start
                    &&& final(self).toml@.len() == 0
                    &&& final(self).state is Start
                },
                EncoderState::NextMapKey => {
                    &&& r == Err::<Encoder, Error>(Error::InvalidMapKeyLocation)
                    &&& final(self).state is Start
                    &&& final(self).toml == old(self).toml
                },
                _ => {
                    &&& r matches Ok(n) && n.toml@.len() == 0 && n.state is Start
                    &&& *final(self) == *old(self)
                },
            },
    {
        match self.state {
            EncoderState::Start => {
                let mut t: Table = Vec::new();
                std::mem::swap(&mut self.toml, &mut t);
                Ok(Encoder { toml: t, state: EncoderState::Start })
            },
            EncoderState::NextMapKey => {
                self.state = EncoderState::Start;
                Err(Error::InvalidMapKeyLocation)
            },
            _ => Ok(Encoder::new()),
        }
    }

    /// Closes a record whose fields went into `nested`.
    pub fn emit_struct_end(&mut self, nested: Encoder) -> (r: Result<(), Error>)
        ensures
            match old(self).state {
                EncoderState::Start => {
                    &&& r is Ok
                    &&& final(self).toml == nested.toml
                    &&& final(self).state is Start
                },
                EncoderState::NextMapKey => {
                    &&& r == Err::<(), Error>(Error::InvalidMapKeyLocation)
                    &&& final(self).state is Start
                    &&& final(self).toml == old(self).toml
                },
                _ => emit_step(*old(self), Value::Table(nested.toml), *final(self), r),
            },
    {
        match self.state {
            EncoderState::Start => {
                self.toml = nested.toml;
                Ok(())
            },
            EncoderState::NextMapKey => {
                self.state = EncoderState::Start;
                Err(Error::InvalidMapKeyLocation)
            },
            _ => self.emit_value(Value::Table(nested.toml)),
        }
    }

    /// Opens the field `name`: the next value emitted is bound to it.
    /// Returns the context to restore when the field is closed.
    pub fn emit_struct_field_begin(&mut self, name: &str) -> (saved: EncoderState)
        ensures
            saved == old(self).state,
            final(self).state matches EncoderState::NextKey(k) && k@ == name@,
            final(self).toml == old(self).toml,
    {
        self.replace_state(EncoderState::NextKey(name.to_owned()))
    }

    /// Closes a field: exactly one value must have been emitted for it.
    pub fn emit_struct_field_end(&mut self, saved: EncoderState) -> (r: Result<(), Error>)
        ensures
            old(self).state is Start ==> r is Ok && final(self).state == saved,
            !(old(self).state is Start) ==> r == Err::<(), Error>(Error::NoValue)
                && final(self).state == old(self).state,
            final(self).toml == old(self).toml,
    {
        match self.state {
            EncoderState::Start => {
                self.state = saved;
                Ok(())
            },
            _ => Err(Error::NoValue),
        }
    }

    /// Opens a sequence: values emitted until [`Encoder::emit_seq_end`] are
    /// collected. Returns the context to restore.
    pub fn emit_seq_begin(&mut self) -> (saved: EncoderState)
        ensures
            saved == old(self).state,
            pending_array(final(self).state) == Some(Seq::<Value>::empty()),
            final(self).toml == old(self).toml,
    {
        let saved = self.replace_state(EncoderState::NextArray(Vec::new()));
        assert(pending_array(self.state) =~= Some(Seq::<Value>::empty()));
        saved
    }

    /// Closes a sequence: the collected values are emitted as one array into
    /// the restored context.
    pub fn emit_seq_end(&mut self, saved: EncoderState) -> (r: Result<(), Error>)
        requires
            old(self).state is NextArray,
        ensures
            match old(self).state {
                EncoderState::NextArray(a) => emit_step(
                    (Encoder { toml: old(self).toml, state: saved }),
                    Value::Array(a),
                    *final(self),
                    r,
                ),
                _ => false,
            },
    {
        match self.replace_state(saved) {
            EncoderState::NextArray(v) => self.emit_value(Value::Array(v)),
            _ => Err(Error::NoValue),
        }
    }

    /// Emits an absent optional value: under a key the key is left out.
    /// An array cannot hold a hole, so that context is excluded.
    pub fn emit_option_none(&mut self) -> (r: Result<(), Error>)
        requires
            old(self).state is NextKey || old(self).state is NextMapKey,
        ensures
            old(self).state is NextKey ==> r is Ok,
            old(self).state is NextMapKey ==> r == Err::<(), Error>(Error::InvalidMapKeyLocation),
            final(self).state is Start,
            final(self).toml == old(self).toml,
    {
        match self.replace_state(EncoderState::Start) {
            EncoderState::NextKey(_) => Ok(()),
            _ => Err(Error::InvalidMapKeyLocation),
        }
    }

    /// Opens a map key: the next value emitted must be a string and becomes
    /// the pending key.
    pub fn emit_map_elt_key_begin(&mut self) -> (r: Result<(), Error>)
        ensures
            old(self).state is Start ==> r is Ok,
            !(old(self).state is Start) ==> r == Err::<(), Error>(Error::InvalidMapKeyLocation),
            final(self).state is NextMapKey,
            final(self).toml == old(self).toml,
    {
        match self.replace_state(EncoderState::NextMapKey) {
            EncoderState::Start => Ok(()),
            _ => Err(Error::InvalidMapKeyLocation),
        }
    }

    /// Closes a map key: a key must now be pending.
    pub fn emit_map_elt_key_end(&self) -> (r: Result<(), Error>)
        ensures
            self.state is NextKey ==> r is Ok,
            !(self.state is NextKey) ==> r == Err::<(), Error>(Error::InvalidMapKeyLocation),
    {
        match self.state {
            EncoderState::NextKey(_) => Ok(()),
            _ => Err(Error::InvalidMapKeyLocation),
        }
    }
}

} // verus!
