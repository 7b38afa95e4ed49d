//! The callback slot: the one consumer, if any, that lines are delivered to.

use vstd::prelude::*;

verus! {

/// One line on its way to a consumer: the callback to invoke and the bytes
/// of the line to invoke it with.
#[derive(Debug, PartialEq, Eq)]
pub struct Delivery<C> {
    /// The callback that was registered when the line was delivered.
    pub callback: C,
    /// The bytes of the line, without its terminator.
    pub bytes: Vec<u8>,
}

impl<C> Delivery<C> {
    /// The length that goes to the callback beside the bytes.
    pub fn len(&self) -> (n: usize)
        ensures
            n == self.bytes@.len(),
    {
        self.bytes.len()
    }
}

impl<C> View for Delivery<C> {
    type V = (C, Seq<u8>);

    open spec fn view(&self) -> (C, Seq<u8>) {
        (self.callback, self.bytes@)
    }
}

/// What is delivered when `lines` are addressed, one after the other, to the
/// callback `callback`: each line once, unchanged and in order, or nothing
/// where there is no callback.
pub open spec fn deliveries<C>(callback: Option<C>, lines: Seq<Seq<u8>>) -> Seq<(C, Seq<u8>)> {
    match callback {
        Some(f) => Seq::new(lines.len(), |i: int| (f, lines[i])),
        None => Seq::empty(),
    }
}

/// Holds the callback that is registered at the moment, if there is one.
pub struct CallbackSlot<C> {
    current: Option<C>,
}

impl<C> View for CallbackSlot<C> {
    type V = Option<C>;

    closed spec fn view(&self) -> Option<C> {
        self.current
    }
}

impl<C: Copy> CallbackSlot<C> {
    /// A slot with no callback.
    pub fn new() -> (slot: Self)
        ensures
            slot@ is None,
    {
        CallbackSlot { current: None }
    }

    /// Makes `callback` the only registered callback.
    pub(crate) fn register(&mut self, callback: C)
        ensures
            final(self)@ == Some(callback),
    {
        self.current = Some(callback);
    }

    /// Removes the callback, if there is one.
    pub fn clear(&mut self)
        ensures
            final(self)@ is None,
    {
        self.current = None;
    }

    /// The callback that is registered at the moment.
    pub fn current(&self) -> (callback: Option<C>)
        ensures
            callback == self@,
    {
        self.current
    }

    /// Addresses `line` to the callback that is registered at the moment. With
    /// no callback the line is dropped: it is not kept for a later one.
    pub fn deliver(&self, line: Vec<u8>) -> (delivery: Option<Delivery<C>>)
        ensures
            self@ is None ==> delivery is None,
            self@ matches Some(callback) ==> delivery == Some(
                Delivery { callback: callback, bytes: line },
            ),
            match delivery {
                Some(d) => seq![d@],
                None => seq![],
            } == deliveries(self@, seq![line@]),
    {
        assert(self@ matches Some(callback) ==> deliveries(self@, seq![line@]) =~= seq![
            (callback, line@),
        ]);
        match self.current {
            Some(callback) => Some(Delivery { callback: callback, bytes: line }),
            None => None,
        }
    }
}

} // verus!
