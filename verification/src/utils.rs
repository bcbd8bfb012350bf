use vstd::prelude::*;

verus! {

/// A transparent wrapper around a value, read through `*`.
pub struct Type<T>(T);

impl<T> Type<T> {
    /// The wrapped value.
    pub closed spec fn inner(&self) -> T {
        self.0
    }
}

impl<T> core::ops::Deref for Type<T> {
    type Target = T;

    fn deref(&self) -> (r: &T)
        ensures
            *r == self.inner(),
    {
        &self.0
    }
}

impl<T> From<T> for Type<T> {
    fn from(value: T) -> (r: Self) {
        Type(value)
    }
}

impl<T> vstd::std_specs::convert::FromSpecImpl<T> for Type<T> {
    open spec fn obeys_from_spec() -> bool {
        true
    }

    open spec fn from_spec(v: T) -> Self {
        Type::wrap(v)
    }
}

impl<T> Type<T> {
    /// The wrapper that holds `v`.
    pub closed spec fn wrap(v: T) -> Self {
        Type(v)
    }

    /// Wrapping and then reading gives back the wrapped value.
    pub broadcast proof fn lemma_wrap_inner(v: T)
        ensures
            #[trigger] Type::wrap(v).inner() == v,
    {
    }
}

} // verus!
