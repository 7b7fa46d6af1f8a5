use toml::{decode, encode, Decodable, DecodeError, Decoder, Encodable, Encoder, Error, Table, Value};

fn map(entries: Vec<(&str, Value)>) -> Table {
    entries.into_iter().map(|(k, v)| (k.to_string(), v)).collect()
}

fn enc_struct<F: FnOnce(&mut Encoder) -> Result<(), Error>>(e: &mut Encoder, f: F) -> Result<(), Error> {
    let mut nested = e.emit_struct_begin()?;
    f(&mut nested)?;
    e.emit_struct_end(nested)
}

fn enc_field<F: FnOnce(&mut Encoder) -> Result<(), Error>>(e: &mut Encoder, name: &str, f: F) -> Result<(), Error> {
    let saved = e.emit_struct_field_begin(name);
    f(e)?;
    e.emit_struct_field_end(saved)
}

fn enc_seq<F: FnOnce(&mut Encoder) -> Result<(), Error>>(e: &mut Encoder, f: F) -> Result<(), Error> {
    let saved = e.emit_seq_begin();
    f(e)?;
    e.emit_seq_end(saved)
}

fn enc_map_entry<F: FnOnce(&mut Encoder) -> Result<(), Error>>(e: &mut Encoder, key: &str, f: F) -> Result<(), Error> {
    e.emit_map_elt_key_begin()?;
    e.emit_str(key)?;
    e.emit_map_elt_key_end()?;
    f(e)
}

fn dec_struct<T, F: FnOnce(&mut Decoder) -> Result<T, DecodeError>>(d: &mut Decoder, f: F) -> Result<T, DecodeError> {
    d.read_struct_begin()?;
    let r = f(d)?;
    d.read_struct_end();
    Ok(r)
}

fn dec_field<T, F: FnOnce(&mut Decoder) -> Result<T, DecodeError>>(
    d: &mut Decoder,
    name: &str,
    f: F,
) -> Result<T, DecodeError> {
    let mut sub = d.read_struct_field_begin(name)?;
    let r = f(&mut sub)?;
    d.read_struct_field_end(name, sub);
    Ok(r)
}

fn dec_seq<T, F: FnMut(&mut Decoder) -> Result<T, DecodeError>>(d: &mut Decoder, mut f: F) -> Result<Vec<T>, DecodeError> {
    let n = d.read_seq_begin()?;
    let mut out = Vec::new();
    for i in 0..n {
        let mut sub = d.read_seq_elt_begin(i)?;
        out.push(f(&mut sub)?);
        d.read_seq_elt_end(i, sub);
    }
    d.read_seq_end();
    Ok(out)
}

fn dec_map<T, F: FnMut(&mut Decoder) -> Result<T, DecodeError>>(
    d: &mut Decoder,
    mut f: F,
) -> Result<Vec<(String, T)>, DecodeError> {
    let n = d.read_map_begin()?;
    let mut out = Vec::new();
    for i in 0..n {
        let k = d.read_map_elt_key(i)?.read_str()?;
        let v = f(&mut d.read_map_elt_val(i)?)?;
        out.push((k, v));
    }
    d.read_map_end();
    Ok(out)
}

fn dec_option<T, F: FnOnce(&mut Decoder) -> Result<T, DecodeError>>(d: &mut Decoder, f: F) -> Result<Option<T>, DecodeError> {
    if d.read_option() {
        Ok(Some(f(d)?))
    } else {
        Ok(None)
    }
}

fn read_f64(d: &mut Decoder) -> Result<f64, DecodeError> {
    d.read_float().map(f64::from_bits)
}

fn encode_table<T: Encodable>(t: &T) -> Table {
    match encode(t).unwrap() {
        Value::Table(t) => t,
        other => panic!("not a table: {:?}", other),
    }
}

#[derive(Debug, PartialEq)]
struct IntA {
    a: i64,
}

impl Encodable for IntA {
    fn encode(&self, e: &mut Encoder) -> Result<(), Error> {
        enc_struct(e, |e| enc_field(e, "a", |e| e.emit_i64(self.a)))
    }
}

impl Decodable for IntA {
    fn decode(d: &mut Decoder) -> Result<Self, DecodeError> {
        dec_struct(d, |d| Ok(IntA { a: dec_field(d, "a", |d| d.read_i64())? }))
    }
}

#[derive(Debug, PartialEq)]
struct IntBar {
    bar: i64,
}

impl Decodable for IntBar {
    fn decode(d: &mut Decoder) -> Result<Self, DecodeError> {
        dec_struct(d, |d| Ok(IntBar { bar: dec_field(d, "bar", |d| d.read_i64())? }))
    }
}

#[derive(Debug, PartialEq)]
struct NestA {
    a: IntA,
}

impl Decodable for NestA {
    fn decode(d: &mut Decoder) -> Result<Self, DecodeError> {
        dec_struct(d, |d| Ok(NestA { a: dec_field(d, "a", IntA::decode)? }))
    }
}

#[test]
fn smoke() {
    let v = IntA { a: 2 };
    assert_eq!(encode_table(&v), map(vec![("a", Value::Integer(2))]));
    assert_eq!(Some(v), decode::<IntA>(Value::Table(encode_table(&IntA { a: 2 }))));
}

#[derive(Debug, PartialEq)]
struct StrBar {
    a: String,
}

impl Encodable for StrBar {
    fn encode(&self, e: &mut Encoder) -> Result<(), Error> {
        enc_struct(e, |e| enc_field(e, "a", |e| e.emit_str(&self.a)))
    }
}

impl Decodable for StrBar {
    fn decode(d: &mut Decoder) -> Result<Self, DecodeError> {
        dec_struct(d, |d| Ok(StrBar { a: dec_field(d, "a", |d| d.read_str())? }))
    }
}

#[derive(Debug, PartialEq)]
struct Nested {
    a: i64,
    b: StrBar,
}

impl Encodable for Nested {
    fn encode(&self, e: &mut Encoder) -> Result<(), Error> {
        enc_struct(e, |e| {
            enc_field(e, "a", |e| e.emit_i64(self.a))?;
            enc_field(e, "b", |e| self.b.encode(e))
        })
    }
}

impl Decodable for Nested {
    fn decode(d: &mut Decoder) -> Result<Self, DecodeError> {
        dec_struct(d, |d| {
            let a = dec_field(d, "a", |d| d.read_i64())?;
            let b = dec_field(d, "b", StrBar::decode)?;
            Ok(Nested { a, b })
        })
    }
}

#[test]
fn nested() {
    let v = Nested { a: 2, b: StrBar { a: "test".to_string() } };
    assert_eq!(
        encode_table(&v),
        map(vec![
            ("a", Value::Integer(2)),
            ("b", Value::Table(map(vec![("a", Value::String("test".to_string()))]))),
        ])
    );
    assert_eq!(Some(v), decode::<Nested>(Value::Table(encode_table(&Nested { a: 2, b: StrBar { a: "test".to_string() } }))));
}

#[derive(Debug, PartialEq)]
struct IntList {
    a: Vec<i64>,
}

impl Encodable for IntList {
    fn encode(&self, e: &mut Encoder) -> Result<(), Error> {
        enc_struct(e, |e| {
            enc_field(e, "a", |e| {
                enc_seq(e, |e| {
                    for x in &self.a {
                        e.emit_i64(*x)?;
                    }
                    Ok(())
                })
            })
        })
    }
}

impl Decodable for IntList {
    fn decode(d: &mut Decoder) -> Result<Self, DecodeError> {
        dec_struct(d, |d| Ok(IntList { a: dec_field(d, "a", |d| dec_seq(d, |d| d.read_i64()))? }))
    }
}

fn ints(xs: &[i64]) -> Value {
    Value::Array(xs.iter().map(|x| Value::Integer(*x)).collect())
}

#[test]
fn array() {
    let v = IntList { a: vec![1, 2, 3, 4] };
    assert_eq!(encode_table(&v), map(vec![("a", ints(&[1, 2, 3, 4]))]));
    assert_eq!(Some(v), decode::<IntList>(Value::Table(encode_table(&IntList { a: vec![1, 2, 3, 4] }))));
}

#[derive(Debug, PartialEq)]
struct Quad {
    a: (i64, i64, i64, i64),
}

impl Encodable for Quad {
    fn encode(&self, e: &mut Encoder) -> Result<(), Error> {
        enc_struct(e, |e| {
            enc_field(e, "a", |e| {
                enc_seq(e, |e| {
                    e.emit_i64(self.a.0)?;
                    e.emit_i64(self.a.1)?;
                    e.emit_i64(self.a.2)?;
                    e.emit_i64(self.a.3)
                })
            })
        })
    }
}

impl Decodable for Quad {
    fn decode(d: &mut Decoder) -> Result<Self, DecodeError> {
        dec_struct(d, |d| {
            let xs = dec_field(d, "a", |d| dec_seq(d, |d| d.read_i64()))?;
            Ok(Quad { a: (xs[0], xs[1], xs[2], xs[3]) })
        })
    }
}

#[test]
fn tuple() {
    let v = Quad { a: (1, 2, 3, 4) };
    assert_eq!(encode_table(&v), map(vec![("a", ints(&[1, 2, 3, 4]))]));
    assert_eq!(Some(v), decode::<Quad>(Value::Table(encode_table(&Quad { a: (1, 2, 3, 4) }))));
}

#[derive(Debug, PartialEq)]
struct StrFloat {
    a: String,
    b: f64,
}

impl Encodable for StrFloat {
    fn encode(&self, e: &mut Encoder) -> Result<(), Error> {
        enc_struct(e, |e| {
            enc_field(e, "a", |e| e.emit_str(&self.a))?;
            enc_field(e, "b", |e| e.emit_float(self.b.to_bits()))
        })
    }
}

impl Decodable for StrFloat {
    fn decode(d: &mut Decoder) -> Result<Self, DecodeError> {
        dec_struct(d, |d| {
            let a = dec_field(d, "a", |d| d.read_str())?;
            let b = dec_field(d, "b", read_f64)?;
            Ok(StrFloat { a, b })
        })
    }
}

#[derive(Debug, PartialEq)]
struct Recursive {
    a: Option<Box<Recursive>>,
    b: StrFloat,
}

impl Encodable for Recursive {
    fn encode(&self, e: &mut Encoder) -> Result<(), Error> {
        enc_struct(e, |e| {
            enc_field(e, "a", |e| match &self.a {
                Some(inner) => inner.encode(e),
                None => e.emit_option_none(),
            })?;
            enc_field(e, "b", |e| self.b.encode(e))
        })
    }
}

impl Decodable for Recursive {
    fn decode(d: &mut Decoder) -> Result<Self, DecodeError> {
        dec_struct(d, |d| {
            let a = dec_field(d, "a", |d| dec_option(d, |d| Recursive::decode(d).map(Box::new)))?;
            let b = dec_field(d, "b", StrFloat::decode)?;
            Ok(Recursive { a, b })
        })
    }
}

fn float(x: f64) -> Value {
    Value::Float(x.to_bits())
}

fn string(s: &str) -> Value {
    Value::String(s.to_string())
}

#[test]
fn inner_structs_with_options() {
    let make = || Recursive {
        a: Some(Box::new(Recursive { a: None, b: StrFloat { a: "foo".to_string(), b: 4.5 } })),
        b: StrFloat { a: "bar".to_string(), b: 1.0 },
    };
    let v = make();
    assert_eq!(
        encode_table(&v),
        map(vec![
            ("a", Value::Table(map(vec![("b", Value::Table(map(vec![("a", string("foo")), ("b", float(4.5))])))]))),
            ("b", Value::Table(map(vec![("a", string("bar")), ("b", float(1.0))]))),
        ])
    );
    assert_eq!(Some(v), decode::<Recursive>(Value::Table(encode_table(&make()))));
}

#[derive(Debug, PartialEq)]
struct MapAndSet {
    map: Vec<(String, i64)>,
    set: Vec<char>,
}

impl Encodable for MapAndSet {
    fn encode(&self, e: &mut Encoder) -> Result<(), Error> {
        enc_struct(e, |e| {
            enc_field(e, "map", |e| {
                enc_struct(e, |e| {
                    for (k, v) in &self.map {
                        enc_map_entry(e, k, |e| e.emit_i64(*v))?;
                    }
                    Ok(())
                })
            })?;
            enc_field(e, "set", |e| {
                enc_seq(e, |e| {
                    for c in &self.set {
                        e.emit_str(&c.to_string())?;
                    }
                    Ok(())
                })
            })
        })
    }
}

impl Decodable for MapAndSet {
    fn decode(d: &mut Decoder) -> Result<Self, DecodeError> {
        dec_struct(d, |d| {
            let map = dec_field(d, "map", |d| dec_map(d, |d| d.read_i64()))?;
            let set = dec_field(d, "set", |d| dec_seq(d, |d| d.read_char()))?;
            Ok(MapAndSet { map, set })
        })
    }
}

#[test]
fn hashmap() {
    let make = || MapAndSet { map: vec![("foo".to_string(), 10), ("bar".to_string(), 4)], set: vec!['a'] };
    let v = make();
    assert_eq!(
        encode_table(&v),
        map(vec![
            ("map", Value::Table(map(vec![("foo", Value::Integer(10)), ("bar", Value::Integer(4))]))),
            ("set", Value::Array(vec![string("a")])),
        ])
    );
    assert_eq!(Some(v), decode::<MapAndSet>(Value::Table(encode_table(&make()))));
}

#[derive(Debug, PartialEq)]
struct Triple(i64, String, f64);

impl Encodable for Triple {
    fn encode(&self, e: &mut Encoder) -> Result<(), Error> {
        enc_struct(e, |e| {
            enc_field(e, "_field0", |e| e.emit_i64(self.0))?;
            enc_field(e, "_field1", |e| e.emit_str(&self.1))?;
            enc_field(e, "_field2", |e| e.emit_float(self.2.to_bits()))
        })
    }
}

impl Decodable for Triple {
    fn decode(d: &mut Decoder) -> Result<Self, DecodeError> {
        dec_struct(d, |d| {
            let a = dec_field(d, "_field0", |d| d.read_i64())?;
            let b = dec_field(d, "_field1", |d| d.read_str())?;
            let c = dec_field(d, "_field2", read_f64)?;
            Ok(Triple(a, b, c))
        })
    }
}

#[test]
fn tuple_struct() {
    let v = Triple(1, "foo".to_string(), 4.5);
    assert_eq!(
        encode_table(&v),
        map(vec![("_field0", Value::Integer(1)), ("_field1", string("foo")), ("_field2", float(4.5))])
    );
    assert_eq!(Some(v), decode::<Triple>(Value::Table(encode_table(&Triple(1, "foo".to_string(), 4.5)))));
}

#[derive(Debug, PartialEq)]
struct RecordList {
    a: Vec<IntA>,
}

impl Encodable for RecordList {
    fn encode(&self, e: &mut Encoder) -> Result<(), Error> {
        enc_struct(e, |e| {
            enc_field(e, "a", |e| {
                enc_seq(e, |e| {
                    for x in &self.a {
                        x.encode(e)?;
                    }
                    Ok(())
                })
            })
        })
    }
}

impl Decodable for RecordList {
    fn decode(d: &mut Decoder) -> Result<Self, DecodeError> {
        dec_struct(d, |d| Ok(RecordList { a: dec_field(d, "a", |d| dec_seq(d, IntA::decode))? }))
    }
}

#[test]
fn table_array() {
    let v = RecordList { a: vec![IntA { a: 1 }, IntA { a: 2 }] };
    assert_eq!(
        encode_table(&v),
        map(vec![(
            "a",
            Value::Array(vec![
                Value::Table(map(vec![("a", Value::Integer(1))])),
                Value::Table(map(vec![("a", Value::Integer(2))])),
            ])
        )])
    );
    assert_eq!(
        Some(v),
        decode::<RecordList>(Value::Table(encode_table(&RecordList { a: vec![IntA { a: 1 }, IntA { a: 2 }] })))
    );
}

#[test]
fn type_errors() {
    let mut d = Decoder::new(Value::Table(map(vec![("bar", float(1.0))])));
    let a: Result<IntBar, DecodeError> = Decodable::decode(&mut d);
    match a {
        Ok(..) => panic!("should not have decoded"),
        Err(e) => {
            assert_eq!(
                e.to_string().as_str(),
                "expected a value of type `integer`, but found a value of type `float` for the key `bar`"
            );
        }
    }
}

#[test]
fn missing_errors() {
    let mut d = Decoder::new(Value::Table(map(vec![])));
    let a: Result<IntBar, DecodeError> = Decodable::decode(&mut d);
    match a {
        Ok(..) => panic!("should not have decoded"),
        Err(e) => {
            assert_eq!(e.to_string().as_str(), "expected a value of type `integer` for the key `bar`");
        }
    }
}

#[derive(Debug, PartialEq)]
enum Choice {
    Bar(i64),
    Baz(f64),
    Last(StrTest),
}

#[derive(Debug, PartialEq)]
struct StrTest {
    test: String,
}

impl Encodable for StrTest {
    fn encode(&self, e: &mut Encoder) -> Result<(), Error> {
        enc_struct(e, |e| enc_field(e, "test", |e| e.emit_str(&self.test)))
    }
}

impl Decodable for StrTest {
    fn decode(d: &mut Decoder) -> Result<Self, DecodeError> {
        dec_struct(d, |d| Ok(StrTest { test: dec_field(d, "test", |d| d.read_str())? }))
    }
}

fn read_choice(mut d: Decoder, index: usize) -> (Result<Choice, DecodeError>, Decoder) {
    let r = match index {
        0 => d.read_i64().map(Choice::Bar),
        1 => read_f64(&mut d).map(Choice::Baz),
        _ => StrTest::decode(&mut d).map(Choice::Last),
    };
    (r, d)
}

#[derive(Debug, PartialEq)]
struct WithChoice {
    a: Choice,
}

impl Encodable for WithChoice {
    fn encode(&self, e: &mut Encoder) -> Result<(), Error> {
        enc_struct(e, |e| {
            enc_field(e, "a", |e| match &self.a {
                Choice::Bar(i) => e.emit_i64(*i),
                Choice::Baz(f) => e.emit_float(f.to_bits()),
                Choice::Last(s) => s.encode(e),
            })
        })
    }
}

impl Decodable for WithChoice {
    fn decode(d: &mut Decoder) -> Result<Self, DecodeError> {
        dec_struct(d, |d| {
            let a = dec_field(d, "a", |d| d.read_enum_variant(&["Bar", "Baz", "Last"], read_choice))?;
            Ok(WithChoice { a })
        })
    }
}

#[test]
fn parse_enum() {
    let v = WithChoice { a: Choice::Bar(10) };
    assert_eq!(encode_table(&v), map(vec![("a", Value::Integer(10))]));
    assert_eq!(Some(v), decode::<WithChoice>(Value::Table(encode_table(&WithChoice { a: Choice::Bar(10) }))));

    let v = WithChoice { a: Choice::Baz(10.2) };
    assert_eq!(encode_table(&v), map(vec![("a", float(10.2))]));
    assert_eq!(Some(v), decode::<WithChoice>(Value::Table(encode_table(&WithChoice { a: Choice::Baz(10.2) }))));

    let make = || WithChoice { a: Choice::Last(StrTest { test: "test".to_string() }) };
    let v = make();
    assert_eq!(encode_table(&v), map(vec![("a", Value::Table(map(vec![("test", string("test"))])))]));
    assert_eq!(Some(v), decode::<WithChoice>(Value::Table(encode_table(&make()))));
}

#[test]
fn unused_fields() {
    let v = IntA { a: 2 };
    let mut d = Decoder::new(Value::Table(map(vec![("a", Value::Integer(2)), ("b", Value::Integer(5))])));
    assert_eq!(v, IntA::decode(&mut d).unwrap());
    assert_eq!(d.toml, Some(Value::Table(map(vec![("b", Value::Integer(5))]))));
}

#[test]
fn unused_fields2() {
    let v = NestA { a: IntA { a: 2 } };
    let mut d = Decoder::new(Value::Table(map(vec![(
        "a",
        Value::Table(map(vec![("a", Value::Integer(2)), ("b", Value::Integer(5))])),
    )])));
    assert_eq!(v, NestA::decode(&mut d).unwrap());
    assert_eq!(d.toml, Some(Value::Table(map(vec![("a", Value::Table(map(vec![("b", Value::Integer(5))])))]))));
}

#[test]
fn unused_fields3() {
    let v = NestA { a: IntA { a: 2 } };
    let mut d = Decoder::new(Value::Table(map(vec![("a", Value::Table(map(vec![("a", Value::Integer(2))])))])));
    assert_eq!(v, NestA::decode(&mut d).unwrap());
    assert_eq!(d.toml, None);
}

#[derive(Debug, PartialEq)]
struct StrMap {
    a: Vec<(String, String)>,
}

impl Decodable for StrMap {
    fn decode(d: &mut Decoder) -> Result<Self, DecodeError> {
        dec_struct(d, |d| Ok(StrMap { a: dec_field(d, "a", |d| dec_map(d, |d| d.read_str()))? }))
    }
}

#[test]
fn unused_fields4() {
    let v = StrMap { a: vec![("a".to_string(), "foo".to_string())] };
    let mut d = Decoder::new(Value::Table(map(vec![("a", Value::Table(map(vec![("a", string("foo"))])))])));
    assert_eq!(v, StrMap::decode(&mut d).unwrap());
    assert_eq!(d.toml, None);
}

#[derive(Debug, PartialEq)]
struct StrList {
    a: Vec<String>,
}

impl Decodable for StrList {
    fn decode(d: &mut Decoder) -> Result<Self, DecodeError> {
        dec_struct(d, |d| Ok(StrList { a: dec_field(d, "a", |d| dec_seq(d, |d| d.read_str()))? }))
    }
}

#[test]
fn unused_fields5() {
    let v = StrList { a: vec!["a".to_string()] };
    let mut d = Decoder::new(Value::Table(map(vec![("a", Value::Array(vec![string("a")]))])));
    assert_eq!(v, StrList::decode(&mut d).unwrap());
    assert_eq!(d.toml, None);
}

#[derive(Debug, PartialEq)]
struct MaybeStrList {
    a: Option<Vec<String>>,
}

impl Decodable for MaybeStrList {
    fn decode(d: &mut Decoder) -> Result<Self, DecodeError> {
        dec_struct(d, |d| {
            let a = dec_field(d, "a", |d| dec_option(d, |d| dec_seq(d, |d| d.read_str())))?;
            Ok(MaybeStrList { a })
        })
    }
}

#[test]
fn unused_fields6() {
    let v = MaybeStrList { a: Some(vec![]) };
    let mut d = Decoder::new(Value::Table(map(vec![("a", Value::Array(vec![]))])));
    assert_eq!(v, MaybeStrList::decode(&mut d).unwrap());
    assert_eq!(d.toml, None);
}

#[test]
fn unused_fields7() {
    let v = RecordList { a: vec![IntA { a: 1 }] };
    let mut d = Decoder::new(Value::Table(map(vec![(
        "a",
        Value::Array(vec![Value::Table(map(vec![("a", Value::Integer(1)), ("b", Value::Integer(2))]))]),
    )])));
    assert_eq!(v, RecordList::decode(&mut d).unwrap());
    assert_eq!(
        d.toml,
        Some(Value::Table(map(vec![("a", Value::Array(vec![Value::Table(map(vec![("b", Value::Integer(2))]))]))])))
    );
}
