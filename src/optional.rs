use vstd::prelude::*;

verus! {

/// A value that may be absent, in the manner of `Option`, with the extra
/// conversions that the widgets use for their optional properties.
#[derive(Clone)]
pub enum Optional<T> {
    Present(T),
    Absent,
}

/// Marker that selects the conversion of a bare value into `Optional::Present`.
pub struct OptionalFromValue;

impl<T> Default for Optional<T> {
    fn default() -> (r: Self)
        ensures
            r is Absent,
    {
        Optional::Absent
    }
}

impl<T> Optional<T> {
    /// The same value as a std `Option`.
    pub open spec fn spec_as_option(self) -> Option<T> {
        match self {
            Optional::Present(v) => Option::Some(v),
            Optional::Absent => Option::None,
        }
    }

    pub fn is_some(&self) -> (r: bool)
        ensures
            r == (*self is Present),
    {
        match self {
            Optional::Present(_) => true,
            Optional::Absent => false,
        }
    }

    pub fn is_none(&self) -> (r: bool)
        ensures
            r == (*self is Absent),
    {
        match self {
            Optional::Present(_) => false,
            Optional::Absent => true,
        }
    }

    #[inline]
    pub fn unwrap(self) -> (r: T)
        requires
            self is Present,
        ensures
            r == self->Present_0,
    {
        match self {
            Optional::Present(value) => value,
            Optional::Absent => vstd::pervasive::unreached(),
        }
    }

    #[inline]
    pub fn unwrap_or(self, default: T) -> (r: T)
        ensures
            self is Present ==> r == self->Present_0,
            self is Absent ==> r == default,
    {
        match self {
            Optional::Present(value) => value,
            Optional::Absent => default,
        }
    }

    #[inline]
    pub fn unwrap_or_else<F: FnOnce() -> T>(self, provider: F) -> (r: T)
        requires
            self is Absent ==> provider.requires(()),
        ensures
            self is Present ==> r == self->Present_0,
            self is Absent ==> provider.ensures((), r),
    {
        match self {
            Optional::Present(value) => value,
            Optional::Absent => provider(),
        }
    }

    #[inline]
    pub fn replace(&mut self, value: T) -> (r: Self)
        ensures
            r == *old(self),
            *final(self) == Optional::Present(value),
    {
        let mut previous = Optional::Present(value);
        core::mem::swap(self, &mut previous);
        previous
    }

    #[inline]
    pub fn map<F: FnOnce(T) -> R, R>(self, provider: F) -> (r: Optional<R>)
        requires
            self is Present ==> provider.requires((self->Present_0,)),
        ensures
            self is Absent ==> r is Absent,
            self is Present ==> r is Present && provider.ensures((self->Present_0,), r->Present_0),
    {
        match self {
            Optional::Absent => Optional::Absent,
            Optional::Present(value) => Optional::Present(provider(value)),
        }
    }

    /// Maps a present value through `provider`; an absent one becomes
    /// `Present(default)`.
    #[inline]
    pub fn map_or<F: FnOnce(T) -> R, R>(self, default: R, provider: F) -> (r: Optional<R>)
        requires
            self is Present ==> provider.requires((self->Present_0,)),
        ensures
            r is Present,
            self is Absent ==> r == Optional::Present(default),
            self is Present ==> provider.ensures((self->Present_0,), r->Present_0),
    {
        match self {
            Optional::Absent => Optional::Present(default),
            Optional::Present(value) => Optional::Present(provider(value)),
        }
    }

    #[inline]
    pub fn map_or_else<F: FnOnce(T) -> R, P: FnOnce() -> R, R>(
        self,
        default: P,
        provider: F,
    ) -> (r: Optional<R>)
        requires
            self is Absent ==> default.requires(()),
            self is Present ==> provider.requires((self->Present_0,)),
        ensures
            r is Present,
            self is Absent ==> default.ensures((), r->Present_0),
            self is Present ==> provider.ensures((self->Present_0,), r->Present_0),
    {
        match self {
            Optional::Absent => Optional::Present(default()),
            Optional::Present(value) => Optional::Present(provider(value)),
        }
    }

    #[inline]
    pub fn take(&mut self) -> (r: Self)
        ensures
            r == *old(self),
            *final(self) is Absent,
    {
        let mut previous = Optional::Absent;
        core::mem::swap(self, &mut previous);
        previous
    }

    /// Takes the value out when `predicate`, which may look at and change
    /// it, says so.
    #[inline]
    pub fn take_if<F: FnOnce(&mut Self) -> bool>(&mut self, predicate: F) -> (r: Self)
        requires
            forall|s: &mut Self| predicate.requires((s,)),
        ensures
            exists|s: &mut Self, b: bool|
                {
                    &&& *s == *old(self)
                    &&& #[trigger] predicate.ensures((s,), b)
                    &&& b ==> r == *final(s) && *final(self) is Absent
                    &&& !b ==> r is Absent && *final(self) == *final(s)
                },
    {
        if predicate(self) {
            self.take()
        } else {
            Optional::Absent
        }
    }

    #[inline]
    pub fn filter<F: FnOnce(T) -> Option<T>>(self, predicate: F) -> (r: Option<T>)
        requires
            self is Present ==> predicate.requires((self->Present_0,)),
        ensures
            self is Absent ==> r is None,
            self is Present ==> predicate.ensures((self->Present_0,), r),
    {
        match self {
            Optional::Absent => Option::None,
            Optional::Present(value) => predicate(value),
        }
    }

    #[inline]
    pub fn inspect<F: FnOnce(&T)>(self, provider: F) -> (r: Self)
        requires
            self is Present ==> provider.requires((&self->Present_0,)),
        ensures
            r == self,
    {
        if let Optional::Present(value) = &self {
            provider(value)
        }
        self
    }

    #[inline]
    pub fn as_ref(&self) -> (r: Optional<&T>)
        ensures
            *self is Absent ==> r is Absent,
            *self is Present ==> r is Present && *r->Present_0 == self->Present_0,
    {
        match self {
            Optional::Absent => Optional::Absent,
            Optional::Present(value) => Optional::Present(value),
        }
    }

    #[inline]
    pub fn as_mut(&mut self) -> (r: Optional<&mut T>)
        ensures
            *old(self) is Absent ==> r is Absent && *final(self) is Absent,
            *old(self) is Present ==> {
                &&& r is Present
                &&& *r->Present_0 == old(self)->Present_0
                &&& *final(self) == Optional::Present(*final(r->Present_0))
            },
    {
        match self {
            Optional::Absent => Optional::Absent,
            Optional::Present(value) => Optional::Present(value),
        }
    }

    /// Keeps a present value; an absent one becomes `Present(other)`.
    #[inline]
    pub fn or(self, other: T) -> (r: Self)
        ensures
            self is Present ==> r == self,
            self is Absent ==> r == Optional::Present(other),
    {
        match self {
            Optional::Present(value) => Optional::Present(value),
            Optional::Absent => Optional::Present(other),
        }
    }

    #[inline]
    pub fn or_else<F: FnOnce() -> T>(self, provider: F) -> (r: Self)
        requires
            self is Absent ==> provider.requires(()),
        ensures
            r is Present,
            self is Present ==> r == self,
            self is Absent ==> provider.ensures((), r->Present_0),
    {
        match self {
            Optional::Present(value) => Optional::Present(value),
            Optional::Absent => Optional::Present(provider()),
        }
    }

    #[inline]
    pub fn xor(self, optb: Self) -> (r: Self)
        ensures
            self is Present && optb is Absent ==> r == self,
            self is Absent && optb is Present ==> r == optb,
            (self is Present) == (optb is Present) ==> r is Absent,
    {
        match (self, optb) {
            (Optional::Present(value), Optional::Absent) => Optional::Present(value),
            (Optional::Absent, Optional::Present(value)) => Optional::Present(value),
            _ => Optional::Absent,
        }
    }

    #[inline]
    pub fn and<R>(self, optb: Optional<R>) -> (r: Optional<R>)
        ensures
            self is Absent ==> r is Absent,
            self is Present ==> r == optb,
    {
        match self {
            Optional::Absent => Optional::Absent,
            Optional::Present(_) => optb,
        }
    }

    #[inline]
    pub fn and_then<R, F: FnOnce(T) -> Optional<R>>(self, provider: F) -> (r: Optional<R>)
        requires
            self is Present ==> provider.requires((self->Present_0,)),
        ensures
            self is Absent ==> r is Absent,
            self is Present ==> provider.ensures((self->Present_0,), r),
    {
        match self {
            Optional::Absent => Optional::Absent,
            Optional::Present(value) => provider(value),
        }
    }

    #[inline]
    pub fn ok_or<E>(self, error: E) -> (r: Result<T, E>)
        ensures
            self is Present ==> r == Result::<T, E>::Ok(self->Present_0),
            self is Absent ==> r == Result::<T, E>::Err(error),
    {
        match self {
            Optional::Present(value) => Ok(value),
            Optional::Absent => Err(error),
        }
    }

    #[inline]
    pub fn ok_or_else<E, F: FnOnce() -> E>(self, provider: F) -> (r: Result<T, E>)
        requires
            self is Absent ==> provider.requires(()),
        ensures
            self is Present ==> r == Result::<T, E>::Ok(self->Present_0),
            self is Absent ==> r is Err && provider.ensures((), r->Err_0),
    {
        match self {
            Optional::Present(value) => Ok(value),
            Optional::Absent => Err(provider()),
        }
    }

    /// Stores `value` when nothing is present, and hands out the value
    /// that is present afterwards.
    #[inline]
    pub fn get_or_insert(&mut self, value: T) -> (r: &mut T)
        ensures
            *old(self) is Present ==> *r == old(self)->Present_0,
            *old(self) is Absent ==> *r == value,
            *final(self) == Optional::Present(*final(r)),
    {
        if let Optional::Absent = self {
            *self = Optional::Present(value);
        }
        match self {
            Optional::Present(v) => v,
            Optional::Absent => vstd::pervasive::unreached(),
        }
    }

    #[inline]
    pub fn get_or_insert_with<F: FnOnce() -> T>(&mut self, provider: F) -> (r: &mut T)
        requires
            *old(self) is Absent ==> provider.requires(()),
        ensures
            *old(self) is Present ==> *r == old(self)->Present_0,
            *old(self) is Absent ==> provider.ensures((), *r),
            *final(self) == Optional::Present(*final(r)),
    {
        if let Optional::Absent = self {
            *self = Optional::Present(provider());
        }
        match self {
            Optional::Present(v) => v,
            Optional::Absent => vstd::pervasive::unreached(),
        }
    }

    /// Like `unwrap`; `msg` is the text that a failed unwrap would report,
    /// and `requires` rules that failure out.
    #[inline]
    pub fn expect(self, msg: &str) -> (r: T)
        requires
            self is Present,
        ensures
            r == self->Present_0,
    {
        match self {
            Optional::Present(value) => value,
            Optional::Absent => vstd::pervasive::unreached(),
        }
    }

    #[inline]
    pub fn insert(&mut self, value: T) -> (r: &mut T)
        ensures
            *r == value,
            *final(self) == Optional::Present(*final(r)),
    {
        *self = Optional::Present(value);
        match self {
            Optional::Present(v) => v,
            Optional::Absent => vstd::pervasive::unreached(),
        }
    }

    #[inline]
    pub fn is_some_and<F: FnOnce(T) -> bool>(self, provider: F) -> (r: bool)
        requires
            self is Present ==> provider.requires((self->Present_0,)),
        ensures
            self is Absent ==> !r,
            self is Present ==> provider.ensures((self->Present_0,), r),
    {
        match self {
            Optional::Present(value) => provider(value),
            Optional::Absent => false,
        }
    }

    pub fn as_option(self) -> (r: Option<T>)
        ensures
            r == self.spec_as_option(),
    {
        match self {
            Optional::Present(value) => Option::Some(value),
            Optional::Absent => Option::None,
        }
    }
}

impl<T: core::ops::Deref> Optional<T> {
    pub fn as_deref(&self) -> (r: Optional<&T::Target>)
        ensures
            *self is Absent ==> r is Absent,
            *self is Present ==> r is Present && call_ensures(T::deref, (&self->Present_0,), r->Present_0),
    {
        match self {
            Optional::Absent => Optional::Absent,
            Optional::Present(value) => Optional::Present(value.deref()),
        }
    }
}

impl<T: core::ops::DerefMut> Optional<T> {
    pub fn as_deref_mut(&mut self) -> (r: Optional<&mut T::Target>)
        ensures
            *old(self) is Absent ==> r is Absent && *final(self) is Absent,
            *old(self) is Present ==> r is Present && *final(self) is Present,
    {
        match self {
            Optional::Absent => Optional::Absent,
            Optional::Present(value) => Optional::Present(value.deref_mut()),
        }
    }
}

impl<T: Default> Optional<T> {
    pub fn unwrap_or_default(self) -> (r: T)
        ensures
            self is Present ==> r == self->Present_0,
            self is Absent ==> call_ensures(T::default, (), r),
    {
        match self {
            Optional::Present(value) => value,
            Optional::Absent => T::default(),
        }
    }
}

/// Two values are equal when both are present and their contents are equal;
/// an absent value equals nothing, not even another absent one.
impl<T: vstd::std_specs::cmp::PartialEqSpec> PartialEq for Optional<T> {
    fn eq(&self, other: &Self) -> (r: bool) {
        match (self, other) {
            (Optional::Present(a), Optional::Present(b)) => a.eq(b),
            _ => false,
        }
    }
}

impl<T: vstd::std_specs::cmp::PartialEqSpec> vstd::std_specs::cmp::PartialEqSpecImpl for Optional<T> {
    open spec fn obeys_eq_spec() -> bool {
        T::obeys_eq_spec()
    }

    open spec fn eq_spec(&self, other: &Optional<T>) -> bool {
        match (self, other) {
            (Optional::Present(a), Optional::Present(b)) => a.eq_spec(&b),
            _ => false,
        }
    }
}

impl<T> From<Option<T>> for Optional<T> {
    fn from(value: Option<T>) -> (r: Self) {
        match value {
            Option::Some(v) => Optional::Present(v),
            Option::None => Optional::Absent,
        }
    }
}

impl<T> vstd::std_specs::convert::FromSpecImpl<Option<T>> for Optional<T> {
    open spec fn obeys_from_spec() -> bool {
        true
    }

    open spec fn from_spec(v: Option<T>) -> Self {
        match v {
            Option::Some(x) => Optional::Present(x),
            Option::None => Optional::Absent,
        }
    }
}

} // verus!
