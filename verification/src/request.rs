//! The part of an HTTP request that the handshake reads: its method and its
//! header fields.

use vstd::prelude::*;
use vstd::slice::slice_to_vec;
use crate::ascii::{eq_ignore_ascii_case, eq_ignore_case};
use crate::token::{contains_token, has_token};

verus! {

/// One header field as it was received.
#[derive(Debug, Clone, PartialEq, Eq)]
pub struct Header {
    /// The field name, in any mix of upper and lower case.
    pub name: Vec<u8>,
    /// The field value.
    pub value: Vec<u8>,
}

/// A header field as a pair of byte strings.
pub struct HeaderView {
    pub name: Seq<u8>,
    pub value: Seq<u8>,
}

impl View for Header {
    type V = HeaderView;

    open spec fn view(&self) -> HeaderView {
        HeaderView { name: self.name@, value: self.value@ }
    }
}

/// What the handshake reads of a request. Header fields keep the order in
/// which they arrived; a name may occur more than once.
#[derive(Debug, Clone, PartialEq, Eq)]
pub struct Request {
    /// The request method, as sent.
    pub method: Vec<u8>,
    /// The header fields, first to last.
    pub headers: Vec<Header>,
}

/// A request as a method and a sequence of header fields.
pub struct RequestView {
    pub method: Seq<u8>,
    pub headers: Seq<HeaderView>,
}

impl View for Request {
    type V = RequestView;

    open spec fn view(&self) -> RequestView {
        RequestView {
            method: self.method@,
            headers: Seq::new(self.headers@.len(), |i: int| self.headers@[i]@),
        }
    }
}

/// The field is called `name`, whatever the case of either.
pub open spec fn is_named(header: HeaderView, name: Seq<u8>) -> bool {
    eq_ignore_case(header.name, name)
}

/// The value of the first field called `name`, if there is one.
pub open spec fn first_value(headers: Seq<HeaderView>, name: Seq<u8>) -> Option<Seq<u8>>
    decreases headers.len(),
{
    if headers.len() == 0 {
        None
    } else if is_named(headers.first(), name) {
        Some(headers.first().value)
    } else {
        first_value(headers.drop_first(), name)
    }
}

/// Field `i` is the first one called `name`.
pub open spec fn is_first(headers: Seq<HeaderView>, name: Seq<u8>, i: int) -> bool {
    &&& 0 <= i < headers.len()
    &&& is_named(headers[i], name)
    &&& forall|k: int| 0 <= k < i ==> !is_named(#[trigger] headers[k], name)
}

/// No field is called `name`.
pub open spec fn is_missing(headers: Seq<HeaderView>, name: Seq<u8>) -> bool {
    forall|i: int| 0 <= i < headers.len() ==> !is_named(#[trigger] headers[i], name)
}

/// Some field called `name` lists `word` among its comma-separated items.
pub open spec fn lists_token(headers: Seq<HeaderView>, name: Seq<u8>, word: Seq<u8>) -> bool {
    exists|i: int|
        0 <= i < headers.len() && is_named(#[trigger] headers[i], name) && has_token(
            headers[i].value,
            word,
        )
}

impl Request {
    /// A request with the given method and no header fields.
    pub fn new(method: &[u8]) -> (request: Request)
        ensures
            request@.method == method@,
            request@.headers == Seq::<HeaderView>::empty(),
    {
        Request { method: slice_to_vec(method), headers: Vec::new() }
    }

    /// The same request with one more header field at its end.
    pub fn header(self, name: &[u8], value: &[u8]) -> (request: Request)
        ensures
            request@.method == self@.method,
            request@.headers == self@.headers.push(HeaderView { name: name@, value: value@ }),
    {
        let mut request = self;
        request.headers.push(Header { name: slice_to_vec(name), value: slice_to_vec(value) });
        request
    }

    /// The value of the first header field called `name`. Names are compared
    /// without regard to case.
    pub fn get(&self, name: &[u8]) -> (value: Option<&Vec<u8>>)
        ensures
            match value {
                Some(v) => first_value(self@.headers, name@) == Some(v@),
                None => first_value(self@.headers, name@) is None,
            },
    {
        let mut i: usize = 0;
        assert(self@.headers.skip(0) == self@.headers);
        while i < self.headers.len()
            invariant
                0 <= i <= self.headers@.len(),
                self@.headers.len() == self.headers@.len(),
                first_value(self@.headers, name@) == first_value(
                    self@.headers.skip(i as int),
                    name@,
                ),
            decreases self.headers@.len() - i,
        {
            assert(self@.headers.skip(i as int).first() == self.headers@[i as int]@);
            assert(self@.headers.skip(i as int).drop_first() == self@.headers.skip(i + 1));
            if eq_ignore_ascii_case(self.headers[i].name.as_slice(), name) {
                return Some(&self.headers[i].value);
            }
            i += 1;
        }
        None
    }

    /// Tells whether any header field called `name` lists `word` among its
    /// comma-separated items. Every occurrence of the field is searched.
    pub fn lists(&self, name: &[u8], word: &[u8]) -> (found: bool)
        ensures
            found == lists_token(self@.headers, name@, word@),
    {
        let mut i: usize = 0;
        while i < self.headers.len()
            invariant
                0 <= i <= self.headers@.len(),
                self@.headers.len() == self.headers@.len(),
                forall|k: int|
                    0 <= k < i ==> !(is_named(#[trigger] self@.headers[k], name@) && has_token(
                        self@.headers[k].value,
                        word@,
                    )),
            decreases self.headers@.len() - i,
        {
            assert(self@.headers[i as int] == self.headers@[i as int]@);
            if eq_ignore_ascii_case(self.headers[i].name.as_slice(), name) && contains_token(
                self.headers[i].value.as_slice(),
                word,
            ) {
                return true;
            }
            i += 1;
        }
        false
    }
}

/// `first_value` finds nothing exactly when no field has the name, and
/// otherwise gives the value of the first field that has it.
pub proof fn lemma_first_value(headers: Seq<HeaderView>, name: Seq<u8>)
    ensures
        first_value(headers, name) is None <==> is_missing(headers, name),
        first_value(headers, name) matches Some(value) ==> exists|i: int|
            is_first(headers, name, i) && #[trigger] headers[i].value == value,
    decreases headers.len(),
{
    if headers.len() > 0 {
        if is_named(headers.first(), name) {
            assert(is_first(headers, name, 0));
        } else {
            let rest = headers.drop_first();
            lemma_first_value(rest, name);
            assert forall|i: int| 0 <= i < rest.len() implies rest[i] == headers[i + 1] by {}
            if first_value(rest, name) is None {
                assert forall|i: int| 0 <= i < headers.len() implies !is_named(
                    #[trigger] headers[i],
                    name,
                ) by {
                    if i > 0 {
                        assert(!is_named(rest[i - 1], name));
                    }
                }
            } else {
                let i = choose|i: int|
                    is_first(rest, name, i) && #[trigger] rest[i].value == first_value(
                        rest,
                        name,
                    )->Some_0;
                assert(is_named(headers[i + 1], name));
                assert forall|k: int| 0 <= k < i + 1 implies !is_named(
                    #[trigger] headers[k],
                    name,
                ) by {
                    if k > 0 {
                        assert(!is_named(rest[k - 1], name));
                    }
                }
                assert(is_first(headers, name, i + 1));
            }
        }
    }
}

/// The value of the first field with a name is what `first_value` gives.
pub proof fn lemma_first_value_at(headers: Seq<HeaderView>, name: Seq<u8>, i: int)
    requires
        is_first(headers, name, i),
    ensures
        first_value(headers, name) == Some(headers[i].value),
    decreases headers.len(),
{
    if i > 0 {
        let rest = headers.drop_first();
        assert(!is_named(headers[0], name));
        assert forall|k: int| 0 <= k < i - 1 implies !is_named(#[trigger] rest[k], name) by {
            assert(!is_named(headers[k + 1], name));
        }
        lemma_first_value_at(rest, name, i - 1);
    }
}

} // verus!
