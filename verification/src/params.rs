//! Ordered parameter sets for method calls.
//!
//! A parameter set is an ordered sequence of (name, value) string pairs.
//! Insertion order is preserved so that the encoded query string is
//! deterministic.  Absent optional values are simply left out; integer
//! values are stringified on insertion.

use vstd::prelude::*;
use crate::digits::{dec_str, i64_to_string};

verus! {

/// An ordered set of string key/value pairs destined for a query string.
pub struct Params {
    pairs: Vec<(String, String)>,
}

impl View for Params {
    type V = Seq<(Seq<char>, Seq<char>)>;

    closed spec fn view(&self) -> Seq<(Seq<char>, Seq<char>)> {
        self.pairs@.map_values(|p: (String, String)| (p.0@, p.1@))
    }
}

impl Params {
    /// An empty parameter set.
    pub fn new() -> (r: Params)
        ensures
            r@ == Seq::<(Seq<char>, Seq<char>)>::empty(),
    {
        let r = Params { pairs: Vec::new() };
        proof {
            assert(r@ =~= Seq::<(Seq<char>, Seq<char>)>::empty());
        }
        r
    }

    /// Appends one pair with a textual value.
    pub fn add_get(&mut self, name: &str, value: String)
        ensures
            final(self)@ == old(self)@.push((name@, value@)),
    {
        let ghost before = self@;
        self.pairs.push((name.to_owned(), value));
        proof {
            assert(self@ =~= before.push((name@, value@)));
        }
    }

    /// Appends one pair with a stringified integer value, or nothing at
    /// all when the value is absent.
    pub fn add_get_opt(&mut self, name: &str, value: Option<i64>)
        ensures
            final(self)@ == match value {
                Some(v) => old(self)@.push((name@, dec_str(v as int))),
                None => old(self)@,
            },
    {
        match value {
            Some(v) => {
                self.add_get(name, i64_to_string(v));
            },
            None => {},
        }
    }

    /// The pairs, in insertion order.
    pub fn get_params(&self) -> (r: &Vec<(String, String)>)
        ensures
            r@.map_values(|p: (String, String)| (p.0@, p.1@)) == self@,
    {
        &self.pairs
    }

    /// How many pairs are present.
    pub fn len(&self) -> (n: usize)
        ensures
            n == self@.len(),
    {
        self.pairs.len()
    }
}

} // verus!
