//! Flat, append-only store of decoded attributes, populated strictly in
//! stream order, addressable by contiguous index ranges, with a rendering
//! query that turns a range into `(type label, display text)` rows.
use vstd::prelude::*;
use crate::attribute::{type_text, value_text, Attribute};

verus! {

/// Append-only arena of attribute values. The attribute index equals the
/// encounter order across the whole document.
#[derive(Debug)]
pub struct AttributeStore {
    attrs: Vec<Attribute>,
}

impl View for AttributeStore {
    type V = Seq<Attribute>;

    closed spec fn view(&self) -> Seq<Attribute> {
        self.attrs@
    }
}

impl AttributeStore {
    /// Creates an empty store.
    pub fn new() -> (s: Self)
        ensures
            s@ == Seq::<Attribute>::empty(),
    {
        AttributeStore { attrs: Vec::new() }
    }

    /// Number of attributes stored so far.
    pub fn len(&self) -> (n: usize)
        ensures
            n == self@.len(),
    {
        self.attrs.len()
    }

    /// Discards every stored attribute.
    pub fn clear(&mut self)
        ensures
            final(self)@ == Seq::<Attribute>::empty(),
    {
        self.attrs.clear();
    }

    /// Appends one decoded attribute; its index is the store's previous
    /// length.
    pub fn push_attribute(&mut self, attr: Attribute)
        ensures
            final(self)@ == old(self)@.push(attr),
    {
        self.attrs.push(attr);
    }

    /// Appends a batch of decoded attributes in order.
    pub fn append_all(&mut self, items: Vec<Attribute>)
        ensures
            final(self)@ == old(self)@ + items@,
    {
        let ghost incoming: Seq<Attribute> = items@;
        let ghost base: Seq<Attribute> = self@;
        let mut rest = items;
        while rest.len() > 0
            invariant
                rest@.len() <= incoming.len(),
                self@ == base + incoming.take(incoming.len() - rest@.len()),
                rest@ == incoming.skip(incoming.len() - rest@.len()),
            decreases rest@.len(),
        {
            let ghost done: int = incoming.len() - rest@.len();
            let next = rest.remove(0);
            self.attrs.push(next);
            proof {
                assert(incoming.take(done + 1).drop_last() =~= incoming.take(done));
                assert(incoming.take(done + 1).last() == incoming[done]);
                assert(self@ =~= base + incoming.take(done + 1));
                assert(rest@ =~= incoming.skip(done + 1));
            }
        }
        assert(incoming.take(incoming.len() as int) =~= incoming);
        assert(self@ =~= base + incoming);
    }

    /// Borrows the attribute at index `i`.
    pub fn get(&self, i: usize) -> (r: &Attribute)
        requires
            i < self@.len(),
        ensures
            *r == self@[i as int],
    {
        &self.attrs[i]
    }

    /// Renders the contiguous range `[start, start + count)` into
    /// `(type label, display text)` rows, one per attribute, in order.
    pub fn show_attrs(&self, start: usize, count: usize) -> (rows: Vec<(String, String)>)
        requires
            start + count <= self@.len(),
        ensures
            rows@.len() == count,
            forall|k: int|
                0 <= k < count ==> (#[trigger] rows@[k]).0@ == type_text(self@[start + k])
                    && rows@[k].1@ == value_text(self@[start + k]),
    {
        let total = self.len();
        let mut rows: Vec<(String, String)> = Vec::new();
        let mut i: usize = 0;
        while i < count
            invariant
                i <= count,
                start + count <= total,
                total == self@.len(),
                rows@.len() == i,
                forall|k: int|
                    0 <= k < i ==> (#[trigger] rows@[k]).0@ == type_text(self@[start + k])
                        && rows@[k].1@ == value_text(self@[start + k]),
            decreases count - i,
        {
            let attr = self.get(start + i);
            let label = attr.type_string().to_owned();
            let value = attr.value_string();
            rows.push((label, value));
            i = i + 1;
        }
        rows
    }
}

} // verus!
