//! Method names, borrowed and owned.

use crate::text::copy_text;
use std::borrow::Cow;
use vstd::prelude::*;

verus! {

/// A borrowed JSON-RPC method name: made from a `&str` without allocating.
#[derive(Debug, Clone, Copy, PartialEq, Eq, Hash, PartialOrd, Ord)]
pub struct MethodId<'a> {
    name: &'a str,
}

impl<'a> View for MethodId<'a> {
    type V = Seq<char>;

    closed spec fn view(&self) -> Seq<char> {
        self.name@
    }
}

impl<'a> MethodId<'a> {
    /// Borrows `s` as a method name: free, no allocation.
    pub fn new(s: &'a str) -> (id: MethodId<'a>)
        ensures
            id@ == s@,
    {
        MethodId { name: s }
    }

    /// The name as a string.
    pub fn as_str(&self) -> (s: &'a str)
        ensures
            s@ == self@,
    {
        self.name
    }

    /// Copies the name out of what it borrows from.
    pub fn to_owned(&self) -> (buf: MethodIdBuf)
        ensures
            buf@ == self@,
    {
        MethodIdBuf { name: Cow::Owned(self.name.to_owned()) }
    }
}

/// An owned JSON-RPC method name. Backed by `Cow<'static, str>` rather than
/// `String` so that the common case of a `&'static str` method literal
/// converts in without allocating.
#[derive(Debug, PartialEq, Eq, Hash, PartialOrd, Ord)]
pub struct MethodIdBuf {
    name: Cow<'static, str>,
}

impl View for MethodIdBuf {
    type V = Seq<char>;

    closed spec fn view(&self) -> Seq<char> {
        self.name@
    }
}

impl MethodIdBuf {
    /// Builds a `MethodIdBuf` from a `&'static str`, an owned `String`, or a
    /// `Cow` of the two.
    pub fn new<S: Into<MethodIdBuf>>(s: S) -> (buf: Self)
        ensures
            call_ensures(<S as Into<MethodIdBuf>>::into, (s,), buf),
    {
        s.into()
    }

    /// The name as a string.
    pub fn as_str(&self) -> (s: &str)
        ensures
            s@ == self@,
    {
        match &self.name {
            Cow::Borrowed(s) => *s,
            Cow::Owned(s) => s.as_str(),
        }
    }

    /// Borrows the name.
    pub fn borrow(&self) -> (id: MethodId<'_>)
        ensures
            id@ == self@,
    {
        MethodId::new(self.as_str())
    }

    /// Borrows the name.
    pub fn as_ref(&self) -> (id: MethodId<'_>)
        ensures
            id@ == self@,
    {
        self.borrow()
    }
}

impl Clone for MethodIdBuf {
    fn clone(&self) -> (buf: Self)
        ensures
            buf@ == self@,
    {
        MethodIdBuf { name: copy_text(&self.name) }
    }
}

impl From<String> for MethodIdBuf {
    fn from(s: String) -> (buf: Self)
        ensures
            buf@ == s@,
    {
        MethodIdBuf { name: Cow::Owned(s) }
    }
}

impl vstd::std_specs::convert::FromSpecImpl<String> for MethodIdBuf {
    closed spec fn obeys_from_spec() -> bool {
        true
    }

    closed spec fn from_spec(s: String) -> Self {
        MethodIdBuf { name: Cow::Owned(s) }
    }
}

impl From<&'static str> for MethodIdBuf {
    fn from(s: &'static str) -> (buf: Self)
        ensures
            buf@ == s@,
    {
        MethodIdBuf { name: Cow::Borrowed(s) }
    }
}

impl vstd::std_specs::convert::FromSpecImpl<&'static str> for MethodIdBuf {
    closed spec fn obeys_from_spec() -> bool {
        true
    }

    closed spec fn from_spec(s: &'static str) -> Self {
        MethodIdBuf { name: Cow::Borrowed(s) }
    }
}

impl From<Cow<'static, str>> for MethodIdBuf {
    fn from(s: Cow<'static, str>) -> (buf: Self)
        ensures
            buf@ == s@,
    {
        MethodIdBuf { name: s }
    }
}

impl vstd::std_specs::convert::FromSpecImpl<Cow<'static, str>> for MethodIdBuf {
    closed spec fn obeys_from_spec() -> bool {
        true
    }

    closed spec fn from_spec(s: Cow<'static, str>) -> Self {
        MethodIdBuf { name: s }
    }
}

/// The method of a message: borrowed from a buffer, or owned.
#[derive(Debug, PartialEq, Eq)]
pub enum MethodName<'a> {
    /// Borrowed from the message it was decoded from, or from the caller.
    Borrowed(MethodId<'a>),
    /// Owned by the message.
    Owned(MethodIdBuf),
}

impl<'a> View for MethodName<'a> {
    type V = Seq<char>;

    open spec fn view(&self) -> Seq<char> {
        match self {
            MethodName::Borrowed(id) => id@,
            MethodName::Owned(buf) => buf@,
        }
    }
}

impl<'a> MethodName<'a> {
    /// Borrows the name.
    pub fn as_ref(&self) -> (id: MethodId<'_>)
        ensures
            id@ == self@,
    {
        match self {
            MethodName::Borrowed(id) => *id,
            MethodName::Owned(buf) => buf.as_ref(),
        }
    }

    /// Takes the name out, copying it where it is borrowed.
    pub fn into_owned(self) -> (buf: MethodIdBuf)
        ensures
            buf@ == self@,
    {
        match self {
            MethodName::Borrowed(id) => id.to_owned(),
            MethodName::Owned(buf) => buf,
        }
    }
}

impl<'a> Clone for MethodName<'a> {
    fn clone(&self) -> (name: Self)
        ensures
            name@ == self@,
    {
        match self {
            MethodName::Borrowed(id) => MethodName::Borrowed(*id),
            MethodName::Owned(buf) => MethodName::Owned(buf.clone()),
        }
    }
}

} // verus!
