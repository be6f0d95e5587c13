//! Compiled terms of the query language, as far as the driver reads them.

use crate::error::Error;
use crate::error::Scalar;
use vstd::prelude::*;

verus! {

/// A constant of the query language.
#[derive(Debug)]
pub enum Datum {
    Null,
    Bool(bool),
    Str(String),
    /// A number, an array, an object or a JSON text: nothing that an option of
    /// a connection takes.
    Other,
}

/// A named argument of a term.
#[derive(Debug)]
pub struct OptArg {
    pub key: String,
    pub val: Term,
}

/// A term: a constant, or an operation on the terms below it.
#[derive(Debug)]
pub struct Term {
    pub datum: Option<Datum>,
    pub args: Vec<Term>,
    pub optargs: Vec<OptArg>,
}

impl Clone for Datum {
    fn clone(&self) -> (r: Datum)
        ensures
            r == *self,
    {
        match self {
            Datum::Null => Datum::Null,
            Datum::Bool(b) => Datum::Bool(*b),
            Datum::Str(s) => Datum::Str(s.clone()),
            Datum::Other => Datum::Other,
        }
    }
}

/// Whether the first `upto` of two lists of terms are alike, each with the one
/// in its place.
pub open spec fn alike_upto(a: Seq<Term>, b: Seq<Term>, upto: int) -> bool
    decreases a, upto,
{
    if upto <= 0 || upto > a.len() || upto > b.len() {
        true
    } else {
        alike_upto(a, b, upto - 1) && alike(a[upto - 1], b[upto - 1])
    }
}

/// Whether the first `upto` of two lists of named arguments are alike: the
/// same names in the same order, with values that are alike.
pub open spec fn alike_named_upto(a: Seq<OptArg>, b: Seq<OptArg>, upto: int) -> bool
    decreases a, upto,
{
    if upto <= 0 || upto > a.len() || upto > b.len() {
        true
    } else {
        alike_named_upto(a, b, upto - 1) && a[upto - 1].key@ == b[upto - 1].key@ && alike(
            a[upto - 1].val,
            b[upto - 1].val,
        )
    }
}

/// Whether two terms are alike: the same constant, and arguments and named
/// arguments that are alike.
pub open spec fn alike(a: Term, b: Term) -> bool
    decreases a,
{
    &&& a.datum == b.datum
    &&& a.args@.len() == b.args@.len()
    &&& alike_upto(a.args@, b.args@, a.args@.len() as int)
    &&& a.optargs@.len() == b.optargs@.len()
    &&& alike_named_upto(a.optargs@, b.optargs@, a.optargs@.len() as int)
}

impl Clone for Term {
    fn clone(&self) -> (r: Term)
        ensures
            alike(*self, r),
        decreases *self,
    {
        let datum = match &self.datum {
            Some(datum) => Some(datum.clone()),
            None => None,
        };
        let mut args: Vec<Term> = Vec::new();
        let mut i: usize = 0;
        while i < self.args.len()
            invariant
                i <= self.args.len(),
                args@.len() == i,
                alike_upto(self.args@, args@, i as int),
            decreases self.args.len() - i,
        {
            let ghost before = args@;
            let copy = self.args[i].clone();
            args.push(copy);
            proof {
                lemma_alike_prefix(self.args@, before, args@, i as int);
            }
            i += 1;
        }
        let mut optargs: Vec<OptArg> = Vec::new();
        let mut j: usize = 0;
        while j < self.optargs.len()
            invariant
                j <= self.optargs.len(),
                optargs@.len() == j,
                alike_named_upto(self.optargs@, optargs@, j as int),
            decreases self.optargs.len() - j,
        {
            let ghost before = optargs@;
            let copy = OptArg { key: self.optargs[j].key.clone(), val: self.optargs[j].val.clone() };
            optargs.push(copy);
            proof {
                lemma_alike_named_prefix(self.optargs@, before, optargs@, j as int);
            }
            j += 1;
        }
        Term { datum, args, optargs }
    }
}

/// Whether the first terms of two lists are alike depends on those terms
/// only.
proof fn lemma_alike_prefix(a: Seq<Term>, b: Seq<Term>, c: Seq<Term>, upto: int)
    requires
        0 <= upto <= a.len(),
        upto <= b.len(),
        upto <= c.len(),
        forall|i: int| 0 <= i < upto ==> b[i] == c[i],
        alike_upto(a, b, upto),
    ensures
        alike_upto(a, c, upto),
    decreases upto,
{
    if upto > 0 {
        lemma_alike_prefix(a, b, c, upto - 1);
    }
}

/// Whether the first named arguments of two lists are alike depends on those
/// arguments only.
proof fn lemma_alike_named_prefix(a: Seq<OptArg>, b: Seq<OptArg>, c: Seq<OptArg>, upto: int)
    requires
        0 <= upto <= a.len(),
        upto <= b.len(),
        upto <= c.len(),
        forall|i: int| 0 <= i < upto ==> b[i] == c[i],
        alike_named_upto(a, b, upto),
    ensures
        alike_named_upto(a, c, upto),
    decreases upto,
{
    if upto > 0 {
        lemma_alike_named_prefix(a, b, c, upto - 1);
    }
}

/// The constants found in the first `upto` of the terms, from left to right.
pub open spec fn datums_of(terms: Seq<Term>, upto: int) -> Seq<Datum>
    decreases terms, upto,
{
    if upto <= 0 || upto > terms.len() {
        Seq::empty()
    } else {
        datums_of(terms, upto - 1) + datums(terms[upto - 1])
    }
}

/// The constants of a term: the term's own, where it is one; else those found
/// in its arguments, from left to right.
pub open spec fn datums(term: Term) -> Seq<Datum>
    decreases term,
{
    match term.datum {
        Some(datum) => seq![datum],
        None => datums_of(term.args@, term.args@.len() as int),
    }
}

/// The constants of a term, from left to right.
pub fn find_datum(term: Term) -> (res: Vec<Datum>)
    ensures
        res@ == datums(term),
    decreases term,
{
    let mut res: Vec<Datum> = Vec::new();
    match term.datum {
        Some(datum) => {
            res.push(datum);
        },
        None => {
            let ghost all = term.args@;
            for arg in it: term.args
                invariant
                    it.seq() == all,
                    all == term.args@,
                    res@ == datums_of(all, it.index() as int),
            {
                let mut found = find_datum(arg);
                res.append(&mut found);
            }
        },
    }
    res
}

/// Whether the error says that the option `key` takes a value of type `expected`.
pub open spec fn option_error(error: Error, key: Seq<char>, expected: Scalar) -> bool {
    error matches Error::OptionType { key: k, expected: e } && k@ == key && e == expected
}

/// The value of an option that takes a text: the first constant, which must be
/// a text.
pub fn take_string(key: &str, val: Vec<Datum>) -> (r: Result<String, Error>)
    ensures
        match r {
            Ok(text) => val@.len() > 0 && val@[0] == Datum::Str(text),
            Err(error) => !(val@.len() > 0 && val@[0] is Str) && option_error(
                error,
                key@,
                Scalar::Text,
            ),
        },
{
    let mut val = val;
    if val.len() > 0 {
        match val.swap_remove(0) {
            Datum::Str(text) => {
                return Ok(text);
            },
            _ => {},
        }
    }
    Err(Error::OptionType { key: String::from_str(key), expected: Scalar::Text })
}

/// The value of an option that takes a boolean: the first constant, which must
/// be a boolean.
pub fn take_bool(key: &str, val: Vec<Datum>) -> (r: Result<bool, Error>)
    ensures
        match r {
            Ok(flag) => val@.len() > 0 && val@[0] == Datum::Bool(flag),
            Err(error) => !(val@.len() > 0 && val@[0] is Bool) && option_error(
                error,
                key@,
                Scalar::Boolean,
            ),
        },
{
    if val.len() > 0 {
        match val[0] {
            Datum::Bool(flag) => {
                return Ok(flag);
            },
            _ => {},
        }
    }
    Err(Error::OptionType { key: String::from_str(key), expected: Scalar::Boolean })
}

} // verus!
