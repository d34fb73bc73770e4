//! Services that are installed once and stay.

use vstd::prelude::*;

verus! {

/// A place for a service that is installed once. The first value stays.
pub struct OnceSlot<T> {
    value: Option<T>,
}

impl<T: Copy> OnceSlot<T> {
    pub closed spec fn value(&self) -> Option<T> {
        self.value
    }

    pub fn new() -> (slot: Self)
        ensures
            slot.value() is None,
    {
        OnceSlot { value: None }
    }

    pub fn is_installed(&self) -> (installed: bool)
        ensures
            installed == self.value() is Some,
    {
        self.value.is_some()
    }

    /// Installs a value unless there is one, and returns the one that stays.
    pub fn install(&mut self, value: T) -> (installed: T)
        ensures
            installed == (match old(self).value() {
                Some(first) => first,
                None => value,
            }),
            final(self).value() == Some(installed),
    {
        match self.value {
            Some(first) => first,
            None => {
                self.value = Some(value);
                value
            },
        }
    }

    /// The installed value.
    pub fn get(&self) -> (value: T)
        requires
            self.value() is Some,
        ensures
            self.value() == Some(value),
    {
        self.value.unwrap()
    }
}

/// Runtime-owned interrupt controller and reschedule-hook registry. A controller
/// and a hook are known by the numbers under which the machine keeps them.
pub struct InterruptRuntime {
    controller: OnceSlot<u64>,
    reschedule_hook: OnceSlot<u64>,
}

impl InterruptRuntime {
    pub closed spec fn installed_controller(&self) -> Option<u64> {
        self.controller.value()
    }

    pub closed spec fn installed_hook(&self) -> Option<u64> {
        self.reschedule_hook.value()
    }

    /// Create an empty interrupt runtime registry.
    pub fn new() -> (runtime: Self)
        ensures
            runtime.installed_controller() is None,
            runtime.installed_hook() is None,
    {
        InterruptRuntime { controller: OnceSlot::new(), reschedule_hook: OnceSlot::new() }
    }

    /// Install the active interrupt controller exactly once.
    pub fn install_controller(&mut self, controller: u64) -> (active: u64)
        ensures
            active == (match old(self).installed_controller() {
                Some(first) => first,
                None => controller,
            }),
            final(self).installed_controller() == Some(active),
            final(self).installed_hook() == old(self).installed_hook(),
    {
        self.controller.install(controller)
    }

    /// Return the installed interrupt controller.
    pub fn controller(&self) -> (controller: u64)
        requires
            self.installed_controller() is Some,
        ensures
            self.installed_controller() == Some(controller),
    {
        self.controller.get()
    }

    /// Install the local reschedule-IPI hook exactly once.
    pub fn install_reschedule_hook(&mut self, hook: u64) -> (active: u64)
        ensures
            active == (match old(self).installed_hook() {
                Some(first) => first,
                None => hook,
            }),
            final(self).installed_hook() == Some(active),
            final(self).installed_controller() == old(self).installed_controller(),
    {
        self.reschedule_hook.install(hook)
    }

    /// Return the installed local reschedule-IPI hook.
    pub fn reschedule_hook(&self) -> (hook: u64)
        requires
            self.installed_hook() is Some,
        ensures
            self.installed_hook() == Some(hook),
    {
        self.reschedule_hook.get()
    }
}

/// Runtime-owned PCI access: the configuration space and the interrupt binder,
/// known by the numbers under which the machine keeps them. Both are installed
/// together.
pub struct PciRuntime {
    slot: OnceSlot<(u64, u64)>,
}

impl PciRuntime {
    pub closed spec fn installed(&self) -> Option<(u64, u64)> {
        self.slot.value()
    }

    /// Create an empty registry.
    pub fn new() -> (runtime: Self)
        ensures
            runtime.installed() is None,
    {
        PciRuntime { slot: OnceSlot::new() }
    }

    /// Install both, unless something is installed, and return the binder that
    /// stays.
    pub fn install(&mut self, config: u64, binder: u64) -> (active: u64)
        ensures
            final(self).installed() == (match old(self).installed() {
                Some(first) => Some(first),
                None => Some((config, binder)),
            }),
            final(self).installed() matches Some(both) && active == both.1,
    {
        self.slot.install((config, binder)).1
    }

    pub fn is_installed(&self) -> (installed: bool)
        ensures
            installed == self.installed() is Some,
    {
        self.slot.is_installed()
    }

    /// The installed configuration space.
    pub fn config(&self) -> (config: u64)
        requires
            self.installed() is Some,
        ensures
            config == self.installed()->Some_0.0,
    {
        self.slot.get().0
    }

    /// The installed interrupt binder.
    pub fn binder(&self) -> (binder: u64)
        requires
            self.installed() is Some,
        ensures
            binder == self.installed()->Some_0.1,
    {
        self.slot.get().1
    }
}

} // verus!
