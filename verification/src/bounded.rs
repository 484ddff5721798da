//! Fixed-capacity vectors and strings.
use vstd::prelude::*;
use vstd::utf8::encode_utf8;
use crate::error::CoreError;

verus! {

/// A vector of at most `N` items.
#[derive(Debug, PartialEq, Eq)]
pub struct BoundedVec<T, const N: usize> {
    items: Vec<T>,
}

impl<T, const N: usize> View for BoundedVec<T, N> {
    type V = Seq<T>;

    closed spec fn view(&self) -> Seq<T> {
        self.items@
    }
}

impl<T, const N: usize> BoundedVec<T, N> {
    #[verifier::type_invariant]
    spec fn within_capacity(self) -> bool {
        self.items@.len() <= N
    }

    /// An empty vector.
    pub fn new() -> (r: Self)
        ensures
            r@ == Seq::<T>::empty(),
    {
        BoundedVec { items: Vec::new() }
    }

    /// Append `item`, or hand it back when the vector is full.
    pub fn push(&mut self, item: T) -> (r: Result<(), T>)
        ensures
            old(self)@.len() < N ==> r is Ok && final(self)@ == old(self)@.push(item),
            old(self)@.len() >= N ==> r == Err::<(), T>(item) && final(self)@ == old(self)@,
    {
        proof {
            use_type_invariant(&*self);
        }
        if self.items.len() < N {
            let mut items: Vec<T> = Vec::new();
            core::mem::swap(&mut self.items, &mut items);
            items.push(item);
            self.items = items;
            Ok(())
        } else {
            Err(item)
        }
    }

    /// The items.
    pub fn as_slice(&self) -> (r: &[T])
        ensures
            r@ == self@,
            r@.len() <= N,
    {
        proof {
            use_type_invariant(self);
        }
        self.items.as_slice()
    }

    /// The number of items.
    pub fn len(&self) -> (r: usize)
        ensures
            r == self@.len(),
            r <= N,
    {
        proof {
            use_type_invariant(self);
        }
        self.items.len()
    }

    /// Whether there are no items.
    pub fn is_empty(&self) -> (r: bool)
        ensures
            r == (self@.len() == 0),
    {
        self.items.len() == 0
    }
}

impl<T: Copy, const N: usize> BoundedVec<T, N> {
    /// A vector of the items of `items`, when they fit.
    pub fn from_slice(items: &[T]) -> (r: Result<Self, ()>)
        ensures
            r is Ok <==> items@.len() <= N,
            r matches Ok(v) ==> v@ == items@,
    {
        if items.len() <= N {
            Ok(BoundedVec { items: vstd::slice::slice_to_vec(items) })
        } else {
            Err(())
        }
    }

    /// A copy with the same items.
    pub fn copied(&self) -> (r: Self)
        ensures
            r@ == self@,
    {
        proof {
            use_type_invariant(self);
        }
        BoundedVec { items: vstd::slice::slice_to_vec(self.items.as_slice()) }
    }

    /// Append the items of `items`, all of them or, when they do not fit, none.
    pub fn extend_from_slice(&mut self, items: &[T]) -> (r: Result<(), ()>)
        ensures
            r is Ok <==> old(self)@.len() + items@.len() <= N,
            r is Ok ==> final(self)@ == old(self)@ + items@,
            r is Err ==> final(self)@ == old(self)@,
    {
        proof {
            use_type_invariant(&*self);
        }
        if items.len() > N - self.items.len() {
            return Err(());
        }
        let mut grown: Vec<T> = Vec::new();
        core::mem::swap(&mut self.items, &mut grown);
        let ghost before = grown@;
        let mut i: usize = 0;
        while i < items.len()
            invariant
                i <= items@.len(),
                grown@ == before + items@.subrange(0, i as int),
            decreases items@.len() - i,
        {
            grown.push(items[i]);
            i += 1;
            assert(items@.subrange(0, i as int) =~= items@.subrange(0, i - 1).push(items@[i - 1]));
        }
        assert(items@.subrange(0, i as int) =~= items@);
        self.items = grown;
        Ok(())
    }
}

impl<T: Clone, const N: usize> Clone for BoundedVec<T, N> {
    fn clone(&self) -> (r: Self)
        ensures
            r@.len() == self@.len(),
            forall|i: int| 0 <= i < self@.len() ==> cloned::<T>(self@[i], #[trigger] r@[i]),
    {
        proof {
            use_type_invariant(self);
        }
        BoundedVec { items: self.items.clone() }
    }
}

/// An owned UTF-8 string of at most `N` bytes.
#[derive(Debug, PartialEq, Eq)]
pub struct FixedString<const N: usize> {
    text: String,
}

impl<const N: usize> View for FixedString<N> {
    type V = Seq<char>;

    closed spec fn view(&self) -> Seq<char> {
        self.text@
    }
}

impl<const N: usize> FixedString<N> {
    #[verifier::type_invariant]
    spec fn within_capacity(self) -> bool {
        encode_utf8(self.text@).len() <= N
    }

    /// Build from a string slice, rejecting values that do not fit.
    pub fn new(value: &str) -> (r: Result<Self, CoreError>)
        ensures
            r is Ok <==> encode_utf8(value@).len() <= N,
            r matches Ok(s) ==> s@ == value@,
            r matches Err(e) ==> e == CoreError::InvalidConfiguration,
    {
        if value.as_bytes().len() <= N {
            Ok(FixedString { text: value.to_owned() })
        } else {
            Err(CoreError::InvalidConfiguration)
        }
    }

    /// Borrow as `str`.
    #[must_use]
    pub fn as_str(&self) -> (r: &str)
        ensures
            r@ == self@,
    {
        self.text.as_str()
    }

    /// Length in bytes.
    #[must_use]
    pub fn len(&self) -> (r: usize)
        ensures
            r == encode_utf8(self@).len(),
            r <= N,
    {
        proof {
            use_type_invariant(self);
        }
        self.text.as_str().as_bytes().len()
    }

    /// Whether the string is empty.
    #[must_use]
    pub fn is_empty(&self) -> (r: bool)
        ensures
            r == (self@.len() == 0),
    {
        self.text.as_str().is_empty()
    }
}

impl<const N: usize> Clone for FixedString<N> {
    fn clone(&self) -> (r: Self)
        ensures
            r@ == self@,
    {
        proof {
            use_type_invariant(self);
        }
        FixedString { text: self.text.clone() }
    }
}

} // verus!
