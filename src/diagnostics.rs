use vstd::prelude::*;
use vstd::string::*;

use crate::decoder::{DecodeError, DecodeErrorKind};

verus! {

/// `name` with every underscore replaced by a hyphen.
pub open spec fn hyphenated(name: Seq<char>) -> Seq<char> {
    name.map_values(|c: char| if c == '_' { '-' } else { c })
}

/// Builds `name` with every underscore replaced by a hyphen.
pub fn hyphenate(name: &str) -> (r: String)
    ensures
        r@ == hyphenated(name@),
{
    let n = name.unicode_len();
    let mut out = String::new();
    let mut i: usize = 0;
    while i < n
        invariant
            i <= n,
            n == name@.len(),
            out@ == hyphenated(name@.subrange(0, i as int)),
        decreases n - i,
    {
        let c = name.get_char(i);
        let ghost before = out@;
        if c == '_' {
            proof {
                reveal_strlit("-");
            }
            out = out.concat("-");
        } else {
            let piece = name.substring_char(i, i + 1);
            assert(piece@ =~= seq![c]);
            out = out.concat(piece);
        }
        assert(out@ =~= before + seq![if c == '_' { '-' } else { c }]);
        proof {
            assert(name@.subrange(i as int, i + 1) =~= seq![c]);
            assert(hyphenated(name@.subrange(0, i + 1)) =~= hyphenated(name@.subrange(0, i as int))
                + seq![if c == '_' { '-' } else { c }]);
        }
        i = i + 1;
    }
    assert(name@.subrange(0, n as int) =~= name@);
    out
}

/// The character of a decimal digit.
pub open spec fn digit_char(d: nat) -> char {
    if d == 0 {
        '0'
    } else if d == 1 {
        '1'
    } else if d == 2 {
        '2'
    } else if d == 3 {
        '3'
    } else if d == 4 {
        '4'
    } else if d == 5 {
        '5'
    } else if d == 6 {
        '6'
    } else if d == 7 {
        '7'
    } else if d == 8 {
        '8'
    } else {
        '9'
    }
}

/// The decimal digits of `n`, without sign or leading zeros.
pub open spec fn decimal(n: nat) -> Seq<char>
    decreases n,
{
    if n < 10 {
        seq![digit_char(n)]
    } else {
        decimal(n / 10).push(digit_char(n % 10))
    }
}

/// The text of one decimal digit.
fn digit_str(d: u128) -> (r: &'static str)
    requires
        d < 10,
    ensures
        r@ == seq![digit_char(d as nat)],
{
    proof {
        reveal_strlit("0");
        reveal_strlit("1");
        reveal_strlit("2");
        reveal_strlit("3");
        reveal_strlit("4");
        reveal_strlit("5");
        reveal_strlit("6");
        reveal_strlit("7");
        reveal_strlit("8");
        reveal_strlit("9");
    }
    if d == 0 {
        "0"
    } else if d == 1 {
        "1"
    } else if d == 2 {
        "2"
    } else if d == 3 {
        "3"
    } else if d == 4 {
        "4"
    } else if d == 5 {
        "5"
    } else if d == 6 {
        "6"
    } else if d == 7 {
        "7"
    } else if d == 8 {
        "8"
    } else {
        "9"
    }
}

/// The decimal digits of `n`, from the last one to the first.
fn decimal_string(n: u128) -> (r: String)
    ensures
        r@ == decimal(n as nat),
{
    let mut m = n;
    let mut acc = String::new();
    assert(decimal(n as nat) =~= decimal(m as nat) + acc@);
    while m >= 10
        invariant
            decimal(n as nat) == decimal(m as nat) + acc@,
        decreases m,
    {
        let d = digit_str(m % 10);
        proof {
            let c = digit_char((m % 10) as nat);
            assert(decimal(m as nat) == decimal((m / 10) as nat).push(c));
            assert(decimal((m / 10) as nat).push(c) + acc@ =~= decimal((m / 10) as nat) + (seq![c]
                + acc@));
        }
        acc = String::from_str(d).concat(acc.as_str());
        m = m / 10;
    }
    let r = String::from_str(digit_str(m)).concat(acc.as_str());
    assert(decimal(m as nat) == seq![digit_char(m as nat)]);
    r
}

/// The dotted path of a field `field` below the path `parent`.
pub open spec fn dotted(parent: Option<String>, field: Seq<char>) -> Seq<char> {
    match parent {
        Some(p) => p@ + "."@ + field,
        None => field,
    }
}

/// The path of a sub-decoder for `field` below `parent`: an empty field name
/// keeps the parent's path.
pub open spec fn sub_path(parent: Option<String>, field: Seq<char>, p: Option<String>) -> bool {
    if field.len() == 0 {
        p == parent
    } else {
        p matches Some(s) && s@ == dotted(parent, field)
    }
}

/// Builds the path of `field` below `parent`.
pub fn child_path(parent: &Option<String>, field: &str) -> (r: Option<String>)
    ensures
        sub_path(*parent, field@, r),
{
    if field.is_empty() {
        match parent {
            Some(p) => Some(p.clone()),
            None => None,
        }
    } else {
        match parent {
            Some(p) => {
                proof {
                    reveal_strlit(".");
                }
                Some(p.clone().concat(".").concat(field))
            },
            None => Some(field.to_owned()),
        }
    }
}

/// How a type name reads in a message.
pub open spec fn humanized(name: Seq<char>) -> Seq<char> {
    if name == "table"@ {
        "a section"@
    } else {
        "a value of type `"@ + name + "`"@
    }
}

/// The message of an error kind, without the key it applies to.
pub open spec fn kind_message(k: DecodeErrorKind) -> Seq<char> {
    match k {
        DecodeErrorKind::ExpectedField(t) => if t@ == "table"@ {
            "expected a section"@
        } else {
            "expected a value of type `"@ + t@ + "`"@
        },
        DecodeErrorKind::ExpectedType(e, f) => "expected "@ + humanized(e@) + ", but found "@
            + humanized(f@),
        DecodeErrorKind::ExpectedMapKey(i) => "expected at least "@ + decimal((i + 1) as nat) + " keys"@,
        DecodeErrorKind::ExpectedMapElement(i) => "expected at least "@ + decimal((i + 1) as nat)
            + " elements"@,
        DecodeErrorKind::NoEnumVariants => "expected an enum variant to decode to"@,
        DecodeErrorKind::NilTooLong => "expected 0-length string"@,
    }
}

/// The one-line message of an error: its kind, then the key it applies to.
pub open spec fn error_message(e: DecodeError) -> Seq<char> {
    match e.field {
        Some(p) => kind_message(e.kind) + " for the key `"@ + p@ + "`"@,
        None => kind_message(e.kind),
    }
}

fn is_table_name(name: &str) -> (b: bool)
    ensures
        b == (name@ == "table"@),
{
    proof {
        reveal_strlit("table");
    }
    name.to_owned() == String::from_str("table")
}

fn humanize(name: &str) -> (r: String)
    ensures
        r@ == humanized(name@),
{
    proof {
        reveal_strlit("table");
        reveal_strlit("a section");
        reveal_strlit("a value of type `");
        reveal_strlit("`");
    }
    if is_table_name(name) {
        String::from_str("a section")
    } else {
        String::from_str("a value of type `").concat(name).concat("`")
    }
}

fn kind_text(k: &DecodeErrorKind) -> (r: String)
    ensures
        r@ == kind_message(*k),
{
    proof {
        reveal_strlit("table");
        reveal_strlit("expected a section");
        reveal_strlit("expected a value of type `");
        reveal_strlit("`");
        reveal_strlit("expected ");
        reveal_strlit(", but found ");
        reveal_strlit("expected at least ");
        reveal_strlit(" keys");
        reveal_strlit(" elements");
        reveal_strlit("expected an enum variant to decode to");
        reveal_strlit("expected 0-length string");
    }
    match k {
        DecodeErrorKind::ExpectedField(t) => {
            if is_table_name(*t) {
                String::from_str("expected a section")
            } else {
                String::from_str("expected a value of type `").concat(*t).concat("`")
            }
        },
        DecodeErrorKind::ExpectedType(e, f) => {
            let he = humanize(e);
            let hf = humanize(f);
            String::from_str("expected ").concat(he.as_str()).concat(", but found ").concat(
                hf.as_str(),
            )
        },
        DecodeErrorKind::ExpectedMapKey(i) => {
            let n = decimal_string(*i as u128 + 1);
            String::from_str("expected at least ").concat(n.as_str()).concat(" keys")
        },
        DecodeErrorKind::ExpectedMapElement(i) => {
            let n = decimal_string(*i as u128 + 1);
            String::from_str("expected at least ").concat(n.as_str()).concat(" elements")
        },
        DecodeErrorKind::NoEnumVariants => String::from_str("expected an enum variant to decode to"),
        DecodeErrorKind::NilTooLong => String::from_str("expected 0-length string"),
    }
}

impl DecodeError {
    /// The one-line message of this error, naming the key it applies to.
    pub fn to_string(&self) -> (r: String)
        ensures
            r@ == error_message(*self),
    {
        proof {
            reveal_strlit(" for the key `");
            reveal_strlit("`");
        }
        let text = kind_text(&self.kind);
        match &self.field {
            Some(p) => text.concat(" for the key `").concat(p.as_str()).concat("`"),
            None => text,
        }
    }
}

} // verus!
