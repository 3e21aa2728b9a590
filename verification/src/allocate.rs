//! Turning configurations into live interfaces: a configuration is consumed,
//! together with the bus allocator, and gives the interface it describes.
use crate::interface::InterfaceClass;
use core::marker::PhantomData;
use frunk::{HCons, HNil};
use vstd::prelude::*;

verus! {

/// A configuration that the bus allocator `A` can turn into a live value.
///
/// What comes out depends on what the allocator has handed out before, so
/// `allocates` is a relation: it holds of every value that allocating this
/// configuration can give.
pub trait UsbAllocatable<'a, A>: Sized {
    type Allocated;

    /// `allocated` can come of allocating this configuration.
    spec fn allocates(self, allocated: Self::Allocated) -> bool;

    /// Consumes the configuration and builds what it describes; the only place
    /// where the allocator is used.
    fn allocate(self, usb_alloc: &'a A) -> (r: Self::Allocated)
        ensures
            self.allocates(r),
    ;
}

impl<'a, A> UsbAllocatable<'a, A> for HNil {
    type Allocated = HNil;

    open spec fn allocates(self, allocated: HNil) -> bool {
        allocated == self
    }

    fn allocate(self, usb_alloc: &'a A) -> (r: HNil) {
        self
    }
}

impl<'a, A, C, Tail> UsbAllocatable<'a, A> for HCons<C, Tail> where
    C: UsbAllocatable<'a, A>,
    Tail: UsbAllocatable<'a, A>,
 {
    type Allocated = HCons<C::Allocated, Tail::Allocated>;

    open spec fn allocates(self, allocated: HCons<C::Allocated, Tail::Allocated>) -> bool {
        self.head.allocates(allocated.head) && self.tail.allocates(allocated.tail)
    }

    fn allocate(self, usb_alloc: &'a A) -> (r: HCons<C::Allocated, Tail::Allocated>) {
        HCons { head: self.head.allocate(usb_alloc), tail: self.tail.allocate(usb_alloc) }
    }
}

/// An interface that is built around another one, which it owns.
pub trait WrappedInterface<I: InterfaceClass, Config = ()>: Sized + InterfaceClass {
    /// `wrapper` is what `new` builds from `interface` and `config`.
    spec fn wraps(interface: I, config: Config, wrapper: Self) -> bool;

    /// Builds the wrapper. It answers under the interface number of the
    /// interface it wraps and takes no number of its own.
    fn new(interface: I, config: Config) -> (r: Self)
        ensures
            Self::wraps(interface, config, r),
            r.state().id == interface.state().id,
    ;
}

/// The configuration of a wrapper `I`: the configuration of the interface to
/// wrap, and the wrapper's own settings.
pub struct WrappedInterfaceConfig<I, InnerConfig, Config = ()> {
    pub inner_config: InnerConfig,
    pub config: Config,
    pub interface: PhantomData<I>,
}

impl<I, InnerConfig, Config> WrappedInterfaceConfig<I, InnerConfig, Config> {
    pub fn new(inner_config: InnerConfig, config: Config) -> (r: Self)
        ensures
            r.inner_config == inner_config,
            r.config == config,
    {
        Self { inner_config, config, interface: PhantomData }
    }
}

impl<'a, A, I, InnerConfig, Config> UsbAllocatable<'a, A> for WrappedInterfaceConfig<
    I,
    InnerConfig,
    Config,
> where
    InnerConfig: UsbAllocatable<'a, A>,
    I: WrappedInterface<InnerConfig::Allocated, Config>,
    InnerConfig::Allocated: InterfaceClass,
 {
    type Allocated = I;

    open spec fn allocates(self, allocated: I) -> bool {
        exists|inner: InnerConfig::Allocated|
            {
                &&& #[trigger] self.inner_config.allocates(inner)
                &&& I::wraps(inner, self.config, allocated)
                &&& allocated.state().id == inner.state().id
            }
    }

    fn allocate(self, usb_alloc: &'a A) -> (r: I) {
        I::new(self.inner_config.allocate(usb_alloc), self.config)
    }
}

/// What a wrapped configuration allocates to is a wrapper around something
/// that its inner configuration allocates to, and answers under that inner
/// interface's number.
pub proof fn lemma_wrapper_keeps_id<'a, A, I, InnerConfig, Config>(
    config: WrappedInterfaceConfig<I, InnerConfig, Config>,
    allocated: I,
) where
    InnerConfig: UsbAllocatable<'a, A>,
    I: WrappedInterface<InnerConfig::Allocated, Config>,
    InnerConfig::Allocated: InterfaceClass,

    requires
        UsbAllocatable::<'a, A>::allocates(config, allocated),
    ensures
        exists|inner: InnerConfig::Allocated|
            {
                &&& #[trigger] UsbAllocatable::<'a, A>::allocates(config.inner_config, inner)
                &&& I::wraps(inner, config.config, allocated)
                &&& allocated.state().id == inner.state().id
            },
{
}

/// A list of configurations allocates member by member, in list order.
pub proof fn lemma_allocation_keeps_order<'a, A, C, Tail>(
    configs: HCons<C, Tail>,
    allocated: HCons<C::Allocated, Tail::Allocated>,
) where C: UsbAllocatable<'a, A>, Tail: UsbAllocatable<'a, A>
    ensures
        UsbAllocatable::<'a, A>::allocates(configs, allocated) <==> configs.head.allocates(
            allocated.head,
        ) && configs.tail.allocates(allocated.tail),
{
}

} // verus!
