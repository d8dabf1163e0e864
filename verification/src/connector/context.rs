//! The context of the requests of a client: what travels with each of
//! them, and the binding of an API to its context.

use vstd::prelude::*;
use core::marker::PhantomData;
use crate::models::shared::{Credentials, RequestTimeout, XSpanIdString};

verus! {

/// A context that holds a value of type `T`.
pub trait Has<T>: Sized {
    /// The value that the context holds.
    spec fn value(&self) -> T;

    /// The context with another value in place of the one it holds, and the
    /// rest as it was.
    spec fn with_value(&self, v: T) -> Self;

    /// The value.
    fn get(&self) -> (r: &T)
        ensures
            *r == self.value(),
    ;

    /// The value, to change it: what is written through the reference
    /// becomes the context's value, and the rest of the context stays.
    fn get_mut(&mut self) -> (r: &mut T)
        ensures
            *r == old(self).value(),
            *final(self) == old(self).with_value(*final(r)),
    ;
}

/// Context, created for each Client instance.
pub struct ClientContext {
    pub timeout: RequestTimeout,
    pub auth_data: Option<Credentials>,
    pub xspan: XSpanIdString,
}

impl Clone for ClientContext {
    /// The same timeout, credentials and span id.
    fn clone(&self) -> (r: Self)
        ensures
            r == *self,
    {
        ClientContext {
            timeout: self.timeout,
            auth_data: match &self.auth_data {
                Some(c) => Some(c.clone()),
                None => None,
            },
            xspan: self.xspan.clone(),
        }
    }
}

impl Has<RequestTimeout> for ClientContext {
    open spec fn value(&self) -> RequestTimeout {
        self.timeout
    }

    open spec fn with_value(&self, v: RequestTimeout) -> Self {
        ClientContext { timeout: v, auth_data: self.auth_data, xspan: self.xspan }
    }

    /// The timeout of the requests.
    fn get(&self) -> &RequestTimeout
    {
        &self.timeout
    }

    /// The timeout of the requests, to change it.
    fn get_mut(&mut self) -> &mut RequestTimeout
    {
        &mut self.timeout
    }
}

impl Has<Option<Credentials>> for ClientContext {
    open spec fn value(&self) -> Option<Credentials> {
        self.auth_data
    }

    open spec fn with_value(&self, v: Option<Credentials>) -> Self {
        ClientContext { timeout: self.timeout, auth_data: v, xspan: self.xspan }
    }

    /// The credentials sent with the requests.
    fn get(&self) -> &Option<Credentials>
    {
        &self.auth_data
    }

    /// The credentials sent with the requests, to change them.
    fn get_mut(&mut self) -> &mut Option<Credentials>
    {
        &mut self.auth_data
    }
}

impl Has<XSpanIdString> for ClientContext {
    open spec fn value(&self) -> XSpanIdString {
        self.xspan
    }

    open spec fn with_value(&self, v: XSpanIdString) -> Self {
        ClientContext { timeout: self.timeout, auth_data: self.auth_data, xspan: v }
    }

    /// The span id sent with the requests.
    fn get(&self) -> &XSpanIdString
    {
        &self.xspan
    }

    /// The span id sent with the requests, to change it.
    fn get_mut(&mut self) -> &mut XSpanIdString
    {
        &mut self.xspan
    }
}

/// Context wrapper, to bind an API with a context.
#[derive(Debug, Clone)]
pub struct ContextWrapper<T, C> {
    api: T,
    context: C,
}

impl<T, C> ContextWrapper<T, C> {
    /// The API.
    pub closed spec fn api_spec(&self) -> T {
        self.api
    }

    /// The context.
    pub closed spec fn context_spec(&self) -> C {
        self.context
    }

    /// Create a new `ContextWrapper`, binding the API and context.
    pub fn new(api: T, context: C) -> (r: Self)
        ensures
            r.api_spec() == api,
            r.context_spec() == context,
    {
        Self { api, context }
    }

    /// Borrows the API.
    pub fn api(&self) -> (r: &T)
        ensures
            *r == self.api_spec(),
    {
        &self.api
    }

    /// Borrows the context.
    pub fn context(&self) -> (r: &C)
        ensures
            *r == self.context_spec(),
    {
        &self.context
    }
}

/// Middleware that wraps a service and drops any contextual information
/// on the request.
#[derive(Debug)]
pub struct DropContextService<T, C> {
    inner: T,
    marker: PhantomData<C>,
}

impl<T, C> DropContextService<T, C> {
    /// The wrapped service.
    pub closed spec fn inner_spec(&self) -> T {
        self.inner
    }

    /// Create a new `DropContextService` struct wrapping a value
    pub fn new(inner: T) -> (r: Self)
        ensures
            r.inner_spec() == inner,
    {
        Self { inner, marker: PhantomData }
    }

    /// The wrapped service.
    pub fn inner(&self) -> (r: &T)
        ensures
            *r == self.inner_spec(),
    {
        &self.inner
    }
}

/// Trait to extend an API to make it easy to bind it to a context.
pub trait ContextWrapperExt<C>: Sized {
    /// Binds this API to a context.
    fn with_context(self, context: C) -> ContextWrapper<Self, C>;
}

impl<T, C> ContextWrapperExt<C> for T {
    /// Binds this API to a context.
    fn with_context(self, context: C) -> (r: ContextWrapper<T, C>)
        ensures
            r.api_spec() == self,
            r.context_spec() == context,
    {
        ContextWrapper::new(self, context)
    }
}

} // verus!
