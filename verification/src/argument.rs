//! Script arguments: tagged values and their JSON records.
//!
//! This is the format in which a script or a transaction receives its
//! parameters. It has nothing in common with the canonical encoding that is
//! signed: an argument record enters a transaction as an opaque byte string.

use vstd::prelude::*;
use vstd::string::*;
use vstd::utf8::encode_utf8;
use crate::error::Error;
use crate::json::{
    decimal, decimal_text, joined, json_array, json_quote, json_string, signed_decimal,
    signed_decimal_text,
};

verus! {

/// A value with its type: what one parameter of a script is given.
///
/// Integers are kept as numbers and written in decimal when the record is
/// made. Fixed-point numbers are kept as the decimal text that the record
/// will carry.
#[derive(Debug, PartialEq, Eq)]
pub enum Argument {
    Bool(bool),
    String(String),
    UFix64(String),
    Fix64(String),
    UInt64(u64),
    Int64(i64),
    Address(String),
    Array(Vec<Argument>),
    Dictionary(Vec<(String, String)>),
}

pub enum ArgumentView {
    Bool(bool),
    String(Seq<char>),
    UFix64(Seq<char>),
    Fix64(Seq<char>),
    UInt64(nat),
    Int64(int),
    Address(Seq<char>),
    Array(Seq<ArgumentView>),
    Dictionary(Seq<(Seq<char>, Seq<char>)>),
}

impl View for Argument {
    type V = ArgumentView;

    open spec fn view(&self) -> ArgumentView
        decreases self,
    {
        match self {
            Argument::Bool(value) => ArgumentView::Bool(*value),
            Argument::String(value) => ArgumentView::String(value@),
            Argument::UFix64(value) => ArgumentView::UFix64(value@),
            Argument::Fix64(value) => ArgumentView::Fix64(value@),
            Argument::UInt64(value) => ArgumentView::UInt64(*value as nat),
            Argument::Int64(value) => ArgumentView::Int64(*value as int),
            Argument::Address(value) => ArgumentView::Address(value@),
            Argument::Array(values) => ArgumentView::Array(argument_views(*values)),
            Argument::Dictionary(pairs) => ArgumentView::Dictionary(pair_views(pairs@)),
        }
    }
}

/// The views of `values`, in order.
pub open spec fn argument_views(values: Vec<Argument>) -> Seq<ArgumentView>
    decreases values,
{
    Seq::new(
        values.len() as nat,
        |i: int|
            if 0 <= i < values.len() {
                values[i]@
            } else {
                ArgumentView::Bool(false)
            },
    )
}

/// The views of `pairs`, in order.
pub open spec fn pair_views(pairs: Seq<(String, String)>) -> Seq<(Seq<char>, Seq<char>)> {
    Seq::new(pairs.len(), |i: int| (pairs[i].0@, pairs[i].1@))
}

/// The name of an argument's type, as the record carries it.
pub open spec fn type_tag(argument: ArgumentView) -> Seq<char> {
    match argument {
        ArgumentView::Bool(_) => "Bool"@,
        ArgumentView::String(_) => "String"@,
        ArgumentView::UFix64(_) => "UFix64"@,
        ArgumentView::Fix64(_) => "Fix64"@,
        ArgumentView::UInt64(_) => "UInt64"@,
        ArgumentView::Int64(_) => "Int64"@,
        ArgumentView::Address(_) => "Address"@,
        ArgumentView::Array(_) => "Array"@,
        ArgumentView::Dictionary(_) => "Dictionary"@,
    }
}

/// The record of a type name and a value that is JSON text already.
pub open spec fn record_text(name: Seq<char>, value: Seq<char>) -> Seq<char> {
    "{\"type\":"@ + json_string(name) + ",\"value\":"@ + value + "}"@
}

/// One entry of a dictionary, as JSON text.
pub open spec fn pair_text(pair: (Seq<char>, Seq<char>)) -> Seq<char> {
    "{\"Key\":"@ + json_string(pair.0) + ",\"Value\":"@ + json_string(pair.1) + "}"@
}

/// The entries of a dictionary, each as JSON text, in the order given.
pub open spec fn pair_texts(pairs: Seq<(Seq<char>, Seq<char>)>) -> Seq<Seq<char>> {
    Seq::new(pairs.len(), |i: int| pair_text(pairs[i]))
}

/// The value of an argument, as JSON text: a boolean as `true` or `false`,
/// text and numbers as a JSON string, an array as the array of its
/// elements' records, a dictionary as the array of its entries.
pub open spec fn value_text(argument: ArgumentView) -> Seq<char>
    decreases argument,
{
    match argument {
        ArgumentView::Bool(value) => if value {
            "true"@
        } else {
            "false"@
        },
        ArgumentView::String(value) => json_string(value),
        ArgumentView::UFix64(value) => json_string(value),
        ArgumentView::Fix64(value) => json_string(value),
        ArgumentView::UInt64(value) => json_string(decimal(value)),
        ArgumentView::Int64(value) => json_string(signed_decimal(value)),
        ArgumentView::Address(value) => json_string(value),
        ArgumentView::Array(values) => json_array(record_texts(values)),
        ArgumentView::Dictionary(pairs) => json_array(pair_texts(pairs)),
    }
}

/// The records of `values`, in order.
pub open spec fn record_texts(values: Seq<ArgumentView>) -> Seq<Seq<char>>
    decreases values,
{
    Seq::new(
        values.len(),
        |i: int|
            if 0 <= i < values.len() {
                record_text(type_tag(values[i]), value_text(values[i]))
            } else {
                Seq::empty()
            },
    )
}

/// The record of an argument, as JSON text.
pub open spec fn json_text(argument: ArgumentView) -> Seq<char> {
    record_text(type_tag(argument), value_text(argument))
}

/// Whether a decimal text carries a minus sign.
pub open spec fn is_negative(text: Seq<char>) -> bool {
    text.len() > 0 && text[0] == '-'
}

/// Taking one more part puts a comma and that part behind, or the part alone
/// where it is the first.
pub proof fn lemma_joined_take(parts: Seq<Seq<char>>, i: int)
    requires
        0 <= i < parts.len(),
    ensures
        joined(parts.take(i + 1)) == if i == 0 {
            parts[0]
        } else {
            joined(parts.take(i)) + seq![','] + parts[i]
        },
{
    assert(parts.take(i + 1).drop_last() =~= parts.take(i));
}

impl Argument {
    /// An array of arguments.
    pub fn array(values: Vec<Argument>) -> (out: Argument)
        ensures
            out == Argument::Array(values),
    {
        Argument::Array(values)
    }

    /// A dictionary, from its entries as pairs of key and value. The entries
    /// keep the order in which they are given.
    pub fn dictionary(values: Vec<(String, String)>) -> (out: Argument)
        ensures
            out == Argument::Dictionary(values),
    {
        Argument::Dictionary(values)
    }

    /// A boolean.
    pub fn boolean(value: bool) -> (out: Argument)
        ensures
            out == Argument::Bool(value),
    {
        Argument::Bool(value)
    }

    /// A string, from a string slice.
    pub fn str(value: &str) -> (out: Argument)
        ensures
            out@ == ArgumentView::String(value@),
    {
        Argument::String(String::from_str(value))
    }

    /// A string.
    pub fn string(value: String) -> (out: Argument)
        ensures
            out == Argument::String(value),
    {
        Argument::String(value)
    }

    /// An unsigned fixed-point number, from its decimal text. A text with a
    /// minus sign is refused.
    pub fn ufix64(value: String) -> (out: Result<Argument, Error>)
        ensures
            is_negative(value@) ==> out == Err::<Argument, Error>(Error::InvalidArgument),
            !is_negative(value@) ==> out == Ok::<Argument, Error>(Argument::UFix64(value)),
    {
        if !value.as_str().is_empty() && value.as_str().get_char(0) == '-' {
            Err(Error::InvalidArgument)
        } else {
            Ok(Argument::UFix64(value))
        }
    }

    /// A signed fixed-point number, from its decimal text.
    pub fn fix64(value: String) -> (out: Argument)
        ensures
            out == Argument::Fix64(value),
    {
        Argument::Fix64(value)
    }

    /// An unsigned 64-bit integer.
    pub fn uint64(value: u64) -> (out: Argument)
        ensures
            out == Argument::UInt64(value),
    {
        Argument::UInt64(value)
    }

    /// A signed 64-bit integer.
    pub fn int64(value: i64) -> (out: Argument)
        ensures
            out == Argument::Int64(value),
    {
        Argument::Int64(value)
    }

    /// An account address, from its hexadecimal text.
    pub fn address(value: String) -> (out: Argument)
        ensures
            out == Argument::Address(value),
    {
        Argument::Address(value)
    }

    /// The name of the argument's type.
    pub fn type_tag(&self) -> (out: &'static str)
        ensures
            out@ == type_tag(self@),
    {
        match self {
            Argument::Bool(_) => "Bool",
            Argument::String(_) => "String",
            Argument::UFix64(_) => "UFix64",
            Argument::Fix64(_) => "Fix64",
            Argument::UInt64(_) => "UInt64",
            Argument::Int64(_) => "Int64",
            Argument::Address(_) => "Address",
            Argument::Array(_) => "Array",
            Argument::Dictionary(_) => "Dictionary",
        }
    }

    /// The value of the argument, as JSON text.
    fn value_text(&self) -> (out: String)
        ensures
            out@ == value_text(self@),
        decreases self, 0nat,
    {
        match self {
            Argument::Bool(value) => if *value {
                String::from_str("true")
            } else {
                String::from_str("false")
            },
            Argument::String(value) => json_quote(value.as_str()),
            Argument::UFix64(value) => json_quote(value.as_str()),
            Argument::Fix64(value) => json_quote(value.as_str()),
            Argument::UInt64(value) => json_quote(decimal_text(*value).as_str()),
            Argument::Int64(value) => json_quote(signed_decimal_text(*value).as_str()),
            Argument::Address(value) => json_quote(value.as_str()),
            Argument::Array(values) => {
                let ghost texts = record_texts(argument_views(*values));
                let mut body = String::new();
                let mut i: usize = 0;
                assert(texts.take(0) =~= Seq::empty());
                while i < values.len()
                    invariant
                        i <= values.len(),
                        self == Argument::Array(*values),
                        texts == record_texts(argument_views(*values)),
                        body@ == joined(texts.take(i as int)),
                    decreases values.len() - i,
                {
                    proof {
                        vstd::std_specs::vec::axiom_vec_index_decreases(*values, i as int);
                        assert(self->Array_0 == *values);
                        lemma_joined_take(texts, i as int);
                    }
                    if i > 0 {
                        body.append(",");
                        proof {
                            reveal_strlit(",");
                        }
                        assert(","@ =~= seq![',']);
                    }
                    let element = values[i].json_text();
                    body.append(element.as_str());
                    i = i + 1;
                    assert(body@ =~= joined(texts.take(i as int)));
                }
                assert(texts.take(values.len() as int) =~= texts);
                bracketed(body)
            },
            Argument::Dictionary(pairs) => {
                let ghost texts = pair_texts(pair_views(pairs@));
                let mut body = String::new();
                let mut i: usize = 0;
                assert(texts.take(0) =~= Seq::empty());
                while i < pairs.len()
                    invariant
                        i <= pairs.len(),
                        texts == pair_texts(pair_views(pairs@)),
                        body@ == joined(texts.take(i as int)),
                    decreases pairs.len() - i,
                {
                    proof {
                        lemma_joined_take(texts, i as int);
                    }
                    if i > 0 {
                        body.append(",");
                        proof {
                            reveal_strlit(",");
                        }
                        assert(","@ =~= seq![',']);
                    }
                    body.append("{\"Key\":");
                    body.append(json_quote(pairs[i].0.as_str()).as_str());
                    body.append(",\"Value\":");
                    body.append(json_quote(pairs[i].1.as_str()).as_str());
                    body.append("}");
                    i = i + 1;
                    assert(body@ =~= joined(texts.take(i as int)));
                }
                assert(texts.take(pairs.len() as int) =~= texts);
                bracketed(body)
            },
        }
    }

    /// The record of the argument, as JSON text.
    pub fn json_text(&self) -> (out: String)
        ensures
            out@ == json_text(self@),
        decreases self, 1nat,
    {
        let mut out = String::from_str("{\"type\":");
        out.append(json_quote(self.type_tag()).as_str());
        out.append(",\"value\":");
        out.append(self.value_text().as_str());
        out.append("}");
        assert(out@ =~= json_text(self@));
        out
    }

    /// The record of the argument, as the bytes of its JSON text: the form in
    /// which it enters a transaction.
    pub fn encode(&self) -> (out: Vec<u8>)
        ensures
            out@ == encode_utf8(json_text(self@)),
    {
        self.json_text().as_str().as_bytes_vec()
    }

    /// The record of a string argument, as bytes; the same as [`encode`].
    ///
    /// [`encode`]: Argument::encode
    pub fn encode_str(&self) -> (out: Vec<u8>)
        ensures
            out@ == encode_utf8(json_text(self@)),
    {
        self.encode()
    }

    /// The record of an array or a dictionary, as bytes; the same as
    /// [`encode`].
    ///
    /// [`encode`]: Argument::encode
    pub fn encode_arr(&self) -> (out: Vec<u8>)
        ensures
            out@ == encode_utf8(json_text(self@)),
    {
        self.encode()
    }
}

/// Puts square brackets round the body of an array.
fn bracketed(body: String) -> (out: String)
    ensures
        out@ == seq!['['] + body@ + seq![']'],
{
    proof {
        reveal_strlit("[");
        reveal_strlit("]");
    }
    let mut out = String::from_str("[");
    out.append(body.as_str());
    out.append("]");
    assert(out@ =~= seq!['['] + body@ + seq![']']);
    out
}

} // verus!
