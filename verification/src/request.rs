//! Requests as the interceptor sees them: a list of headers and a context.

use vstd::prelude::*;
use crate::ascii::{eq_ignore_ascii_case, eq_ignore_case};

verus! {

/// One header line: a name and a value.
#[derive(Clone, Debug, PartialEq, Eq)]
pub struct Header {
    pub name: Vec<u8>,
    pub value: Vec<u8>,
}

/// The headers of a request, in the order in which they arrived.
///
/// Names are compared without regard to the case of ASCII letters. Where a
/// name occurs more than once, the first occurrence is the one found.
#[derive(Clone, Debug, PartialEq, Eq)]
pub struct HeaderMap {
    entries: Vec<Header>,
}

/// The value of the first header in `headers` that is named `name`.
pub open spec fn lookup(headers: Seq<(Seq<u8>, Seq<u8>)>, name: Seq<u8>) -> Option<Seq<u8>>
    decreases headers.len(),
{
    if headers.len() == 0 {
        None
    } else if eq_ignore_case(headers.first().0, name) {
        Some(headers.first().1)
    } else {
        lookup(headers.drop_first(), name)
    }
}

/// `lookup` finds nothing exactly where no header has the name, and
/// otherwise gives the value of the first header that has it.
pub proof fn lemma_lookup(headers: Seq<(Seq<u8>, Seq<u8>)>, name: Seq<u8>)
    ensures
        lookup(headers, name).is_none() <==> forall|i: int|
            0 <= i < headers.len() ==> !eq_ignore_case(#[trigger] headers[i].0, name),
        lookup(headers, name).is_some() ==> exists|i: int|
            {
                &&& 0 <= i < headers.len()
                &&& eq_ignore_case(#[trigger] headers[i].0, name)
                &&& lookup(headers, name) == Some(headers[i].1)
                &&& forall|j: int| 0 <= j < i ==> !eq_ignore_case(#[trigger] headers[j].0, name)
            },
    decreases headers.len(),
{
    if headers.len() == 0 {
    } else if eq_ignore_case(headers.first().0, name) {
        assert(eq_ignore_case(headers[0].0, name));
    } else {
        let rest = headers.drop_first();
        lemma_lookup(rest, name);
        if lookup(rest, name).is_none() {
            assert forall|i: int| 0 <= i < headers.len() implies !eq_ignore_case(
                #[trigger] headers[i].0,
                name,
            ) by {
                if i > 0 {
                    assert(headers[i] == rest[i - 1]);
                }
            }
        } else {
            let k = choose|k: int|
                {
                    &&& 0 <= k < rest.len()
                    &&& eq_ignore_case(#[trigger] rest[k].0, name)
                    &&& lookup(rest, name) == Some(rest[k].1)
                    &&& forall|j: int| 0 <= j < k ==> !eq_ignore_case(#[trigger] rest[j].0, name)
                };
            assert(headers[k + 1] == rest[k]);
            assert forall|j: int| 0 <= j < k + 1 implies !eq_ignore_case(
                #[trigger] headers[j].0,
                name,
            ) by {
                if j > 0 {
                    assert(headers[j] == rest[j - 1]);
                }
            }
        }
    }
}

impl View for HeaderMap {
    type V = Seq<(Seq<u8>, Seq<u8>)>;

    closed spec fn view(&self) -> Seq<(Seq<u8>, Seq<u8>)> {
        Seq::new(self.entries@.len(), |i: int| (self.entries@[i].name@, self.entries@[i].value@))
    }
}

impl HeaderMap {
    /// A header list without entries.
    pub fn new() -> (r: Self)
        ensures
            r@ == Seq::<(Seq<u8>, Seq<u8>)>::empty(),
    {
        let r = HeaderMap { entries: Vec::new() };
        assert(r@ =~= Seq::<(Seq<u8>, Seq<u8>)>::empty());
        r
    }

    /// The number of entries.
    pub fn len(&self) -> (n: usize)
        ensures
            n == self@.len(),
    {
        self.entries.len()
    }

    /// Adds a header behind those that are there.
    pub fn append(&mut self, name: Vec<u8>, value: Vec<u8>)
        ensures
            final(self)@ == old(self)@.push((name@, value@)),
    {
        self.entries.push(Header { name, value });
        assert(self@ =~= old(self)@.push((name@, value@)));
    }

    /// The entry at position `i`.
    pub fn entry(&self, i: usize) -> (r: &Header)
        requires
            i < self@.len(),
        ensures
            (r.name@, r.value@) == self@[i as int],
    {
        &self.entries[i]
    }

    /// The value of the first header named `name`, whatever the case of the
    /// letters in either name.
    pub fn get(&self, name: &[u8]) -> (r: Option<&Vec<u8>>)
        ensures
            match r {
                Some(v) => lookup(self@, name@) == Some(v@),
                None => lookup(self@, name@).is_none(),
            },
    {
        let mut i: usize = 0;
        assert(self@.skip(0) =~= self@);
        while i < self.entries.len()
            invariant
                i <= self.entries@.len(),
                self@.len() == self.entries@.len(),
                lookup(self@, name@) == lookup(self@.skip(i as int), name@),
            decreases self.entries@.len() - i,
        {
            let ghost rest = self@.skip(i as int);
            assert(rest.first() == (self.entries@[i as int].name@, self.entries@[i as int].value@));
            assert(rest.drop_first() =~= self@.skip(i + 1));
            if eq_ignore_ascii_case(self.entries[i].name.as_slice(), name) {
                return Some(&self.entries[i].value);
            }
            i += 1;
        }
        None
    }
}

/// A request on its way through the interceptor.
///
/// The interceptor reads the headers and nothing else. The context is the
/// caller's: it travels with the request, and the validator may change it.
#[derive(Clone, Debug, PartialEq, Eq)]
pub struct Request<C> {
    pub headers: HeaderMap,
    pub context: C,
}

impl<C> Request<C> {
    /// A request with these headers and this context.
    pub fn new(headers: HeaderMap, context: C) -> (r: Self)
        ensures
            r.headers == headers,
            r.context == context,
    {
        Request { headers, context }
    }
}

} // verus!
