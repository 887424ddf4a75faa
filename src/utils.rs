use vstd::prelude::*;
use vstd::std_specs::convert::TryIntoSpec;

verus! {

/// A cursor over a finite sequence of items, handed out by value.
///
/// It lets a polymorphic interface return "some sequence of items"
/// without naming the concrete type that produced them.
pub struct WrappedIterator<Item> {
    items: Vec<Item>,
    pos: usize,
}

impl<Item> View for WrappedIterator<Item> {
    type V = Seq<Item>;

    /// The items that are still to come, in order.
    closed spec fn view(&self) -> Seq<Item> {
        self.items@.skip(self.pos as int)
    }
}

impl<Item> WrappedIterator<Item> {
    /// Well-formedness: the cursor never passes the end of its items.
    pub closed spec fn wf(&self) -> bool {
        self.pos <= self.items@.len()
    }
}

impl<Item: Copy> WrappedIterator<Item> {
    /// Create a cursor that yields `items` from the first to the last.
    pub fn new(items: Vec<Item>) -> (r: Self)
        ensures
            r.wf(),
            r@ == items@,
    {
        let r = WrappedIterator { items, pos: 0 };
        assert(r@ =~= r.items@);
        r
    }

    /// Yield the next item, if any.
    pub fn next(&mut self) -> (r: Option<Item>)
        requires
            old(self).wf(),
        ensures
            final(self).wf(),
            old(self)@.len() == 0 ==> r is None && final(self)@ == old(self)@,
            old(self)@.len() > 0 ==> r == Some(old(self)@[0]) && final(self)@ == old(self)@.drop_first(),
    {
        if self.pos < self.items.len() {
            let it = self.items[self.pos];
            self.pos = self.pos + 1;
            assert(self@ =~= old(self)@.drop_first());
            Some(it)
        } else {
            None
        }
    }
}

/// Turns a finite collection into a `WrappedIterator` over its items.
pub trait WrapIterator<Item>: Sized {
    /// The items, in the order the collection hands them out.
    spec fn wrapped_items(&self) -> Seq<Item>;

    /// Wrap this collection into a `WrappedIterator`.
    fn wrap_iter(self) -> (r: WrappedIterator<Item>)
        ensures
            r.wf(),
            r@ == self.wrapped_items(),
    ;
}

impl<Item: Copy> WrapIterator<Item> for Vec<Item> {
    open spec fn wrapped_items(&self) -> Seq<Item> {
        self@
    }

    fn wrap_iter(self) -> (r: WrappedIterator<Item>) {
        WrappedIterator::new(self)
    }
}

/// Converts a value into `Some` of the target type where the conversion succeeds, else `None`.
pub trait IntoOption<T>: Sized {
    /// Whether the underlying conversion has a specification to go by.
    spec fn into_option_specified() -> bool;

    /// What the conversion gives.
    spec fn into_option_spec(self) -> Option<T>;

    fn into_option(self) -> (r: Option<T>)
        ensures
            Self::into_option_specified() ==> r == self.into_option_spec(),
    ;
}

impl<T, F> IntoOption<T> for F where T: TryFrom<F> {
    open spec fn into_option_specified() -> bool {
        <F as TryIntoSpec<T>>::obeys_try_into_spec()
    }

    open spec fn into_option_spec(self) -> Option<T> {
        match <F as TryIntoSpec<T>>::try_into_spec(self) {
            Ok(t) => Some(t),
            Err(_) => None,
        }
    }

    fn into_option(self) -> (r: Option<T>) {
        self.try_into().ok()
    }
}

} // verus!
