//! An `Option<T>` that behaves like a `T`: the value is present nearly all the time, and can be
//! temporarily taken out through an exclusive reference, arming the holder until it is put back.
use vstd::prelude::*;

verus! {

/// A call that changed a [`Foo`]: the one that made it, and each call since.
pub enum FooCall<T> {
    /// [`Foo::new`] with this value.
    New(T),
    /// [`Foo::take`].
    Take,
    /// [`Foo::put`] with this value.
    Put(T),
    /// [`Foo::get_mut`]: the value may have been changed in place.
    GetMut,
}

/// A value that can be temporarily taken out and put back.
///
/// While the value is taken, the `Foo` is *armed*: it is armed exactly when the last of the
/// calls that changed it was `take`, and then its value cannot be read. Otherwise its value is
/// the one last given to `new` or `put`, unless `get_mut` lent it out since.
pub struct Foo<T> {
    value: Option<T>,
    /// The calls that changed this `Foo`, oldest first.
    calls: Ghost<Seq<FooCall<T>>>,
}

/// Handed out by [`Foo::take`] alongside the value, as a reminder that the `Foo` it came from is
/// armed until the value is put back. Reading an armed `Foo` is ruled out by the precondition of
/// [`Foo::get`] and [`Foo::get_mut`], so the bomb carries no state of its own.
pub struct FooBomb {}

/// Was the last call `take`?
pub open spec fn last_call_is_take<T>(calls: Seq<FooCall<T>>) -> bool {
    calls.len() > 0 && calls.last() is Take
}

/// What the calls say the value is: the value given by a last `new` or `put`, nothing after a
/// last `take`; `None` (not known) after a last `get_mut`.
pub open spec fn known_value<T>(calls: Seq<FooCall<T>>) -> Option<Option<T>> {
    if calls.len() == 0 {
        None
    } else {
        match calls.last() {
            FooCall::New(v) => Some(Some(v)),
            FooCall::Put(v) => Some(Some(v)),
            FooCall::Take => Some(None),
            FooCall::GetMut => None,
        }
    }
}

impl<T> Foo<T> {
    /// Well-formed: the first call was `new`; the value is absent exactly when the last call was
    /// `take`, and is what the calls say it is whenever they say. Every `Foo` that `new`, `take`,
    /// `put` and `get_mut` hand back is.
    pub closed spec fn wf(&self) -> bool {
        &&& self.calls@.len() > 0
        &&& self.calls@[0] is New
        &&& (self.value is None <==> last_call_is_take(self.calls@))
        &&& (known_value(self.calls@) matches Some(v) ==> self.value == v)
    }

    /// The contained value, if it has not been taken.
    pub closed spec fn spec_value(&self) -> Option<T> {
        self.value
    }

    /// The calls that changed this `Foo`, oldest first: `new`, then each `take`, `put` and
    /// `get_mut`.
    pub closed spec fn spec_calls(&self) -> Seq<FooCall<T>> {
        self.calls@
    }

    /// Whether the value has been taken and not yet put back.
    pub open spec fn spec_armed(&self) -> bool {
        self.spec_value() is None
    }

    /// Wrap a value; the result is not armed.
    pub fn new(value: T) -> (r: Self)
        ensures
            r.wf(),
            r.spec_value() == Some(value),
            r.spec_calls() == seq![FooCall::New(value)],
            !r.spec_armed(),
    {
        let ghost calls = seq![FooCall::New(value)];
        Foo { value: Some(value), calls: Ghost(calls) }
    }

    /// Is the value currently taken? For a well-formed `foo`, exactly when the last call that
    /// changed it was `take`; reading the value needs it not to be.
    pub fn is_armed(foo: &Self) -> (r: bool)
        ensures
            r == foo.spec_armed(),
            foo.wf() ==> (r == last_call_is_take(foo.spec_calls())),
    {
        foo.value.is_none()
    }

    /// Take the value out, arming `foo`.
    pub fn take(foo: &mut Self) -> (r: (FooBomb, T))
        requires
            old(foo).spec_value() is Some,
        ensures
            r.1 == old(foo).spec_value()->0,
            final(foo).spec_value() is None,
            final(foo).spec_armed(),
            final(foo).spec_calls() == old(foo).spec_calls().push(FooCall::Take),
            old(foo).wf() ==> final(foo).wf(),
    {
        let mut value: Option<T> = None;
        std::mem::swap(&mut value, &mut foo.value);
        foo.calls = Ghost(foo.calls@.push(FooCall::Take));
        match value {
            Some(v) => (FooBomb {}, v),
            None => vstd::pervasive::unreached(),
        }
    }

    /// Put a value back, disarming `foo`.
    pub fn put(foo: &mut Self, value: T)
        ensures
            final(foo).spec_value() == Some(value),
            !final(foo).spec_armed(),
            final(foo).spec_calls() == old(foo).spec_calls().push(FooCall::Put(value)),
            old(foo).wf() ==> final(foo).wf(),
    {
        foo.calls = Ghost(foo.calls@.push(FooCall::Put(value)));
        foo.value = Some(value);
    }

    /// Borrow the contained value; it is there unless the last call was `take`.
    pub fn get(&self) -> (r: &T)
        requires
            self.spec_value() is Some,
        ensures
            *r == self.spec_value()->0,
    {
        match &self.value {
            Some(v) => v,
            None => vstd::pervasive::unreached(),
        }
    }

    /// Mutably borrow the contained value.
    pub fn get_mut(&mut self) -> (r: &mut T)
        requires
            old(self).spec_value() is Some,
        ensures
            *r == old(self).spec_value()->0,
            final(self).spec_value() == Some(*final(r)),
            final(self).spec_calls() == old(self).spec_calls().push(FooCall::GetMut),
            old(self).wf() ==> final(self).wf(),
    {
        self.calls = Ghost(self.calls@.push(FooCall::GetMut));
        match &mut self.value {
            Some(v) => v,
            None => vstd::pervasive::unreached(),
        }
    }
}

/// Whatever calls reached a `Foo` since `new`: it is armed, and its value cannot be read, exactly
/// when the last of those calls was `take`; after a last `new(v)` or `put(v)` its value is `v`.
pub proof fn lemma_foo_calls<T>(foo: Foo<T>)
    requires
        foo.wf(),
    ensures
        foo.spec_armed() <==> last_call_is_take(foo.spec_calls()),
        foo.spec_value() is Some <==> !last_call_is_take(foo.spec_calls()),
        foo.spec_calls()[0] is New,
        foo.spec_calls().last() matches FooCall::New(v) ==> foo.spec_value() == Some(v),
        foo.spec_calls().last() matches FooCall::Put(v) ==> foo.spec_value() == Some(v),
{
}

} // verus!
