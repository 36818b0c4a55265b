//! The cookies that a request carries, as name/value pairs.

use vstd::prelude::*;

verus! {

/// What a cookie jar says of `name`: the value of the first pair with that
/// name, or `None` when no pair has it.
pub open spec fn cookie_lookup(pairs: Seq<(Seq<char>, Seq<char>)>, name: Seq<char>) -> Option<
    Seq<char>,
>
    decreases pairs.len(),
{
    if pairs.len() == 0 {
        None
    } else if pairs[0].0 == name {
        Some(pairs[0].1)
    } else {
        cookie_lookup(pairs.drop_first(), name)
    }
}

/// The `Cookie` header of a request, split into name/value pairs in the order
/// in which they were sent.
pub struct Cookies {
    pub pairs: Vec<(String, String)>,
}

impl View for Cookies {
    type V = Seq<(Seq<char>, Seq<char>)>;

    open spec fn view(&self) -> Seq<(Seq<char>, Seq<char>)> {
        self.pairs@.map_values(|p: (String, String)| (p.0@, p.1@))
    }
}

impl Cookies {
    /// Looks up the value of the cookie called `name`; where several pairs
    /// carry that name, the first one counts.
    pub fn get(&self, name: &str) -> (r: Option<&String>)
        ensures
            r matches Some(v) ==> cookie_lookup(self@, name@) == Some(v@),
            r is None ==> cookie_lookup(self@, name@) is None,
    {
        let wanted = String::from_str(name);
        let mut i: usize = 0;
        proof {
            assert(self@.skip(0) =~= self@);
        }
        while i < self.pairs.len()
            invariant
                0 <= i <= self.pairs.len(),
                wanted@ == name@,
                cookie_lookup(self@, name@) == cookie_lookup(self@.skip(i as int), name@),
            decreases self.pairs.len() - i,
        {
            proof {
                assert(self@.skip(i as int).drop_first() =~= self@.skip(i + 1));
            }
            if self.pairs[i].0 == wanted {
                return Some(&self.pairs[i].1);
            }
            i = i + 1;
        }
        proof {
            assert(self@.skip(i as int).len() == 0);
        }
        None
    }
}

} // verus!
