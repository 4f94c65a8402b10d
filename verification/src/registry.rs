use vstd::prelude::*;

verus! {

/// What an embedder can put at the engine's disposal.
#[derive(Clone, Copy, Debug, PartialEq, Eq, Structural)]
pub enum Capability {
    /// Diagnostic output.
    Logging,
    /// Outbound requests.
    Network,
    /// Execution of node kinds that the engine does not know.
    CustomNode,
    /// Resolution of a sub-decision by its key.
    Loader,
}

/// Marks a type as a listener that can be handed to the engine.
pub trait RuntimeListener {

}

/// The logging capability. It needs nothing from the embedder.
pub struct ConsoleListener;

/// The network capability, around the embedder's handler of outbound requests.
pub struct HttpListener<H> {
    pub http_handler: H,
}

/// Everything a decision may need from its host: the loader of sub-decisions, the
/// dispatcher of custom nodes, and the handler of outbound requests.
pub struct ZenListener<L, C, H> {
    pub loader: L,
    pub custom_node: C,
    pub http_handler: H,
}

impl RuntimeListener for ConsoleListener {

}

impl<H> RuntimeListener for HttpListener<H> {

}

impl<L, C, H> RuntimeListener for ZenListener<L, C, H> {

}

/// One registered listener, of any of the three kinds.
pub enum Listener<L, C, H> {
    Console(ConsoleListener),
    Http(HttpListener<H>),
    Zen(ZenListener<L, C, H>),
}

impl<L, C, H> Listener<L, C, H> {
    /// Whether the listener brings the capability.
    pub open spec fn provides(self, capability: Capability) -> bool {
        match self {
            Listener::Console(_) => capability == Capability::Logging,
            Listener::Http(_) => capability == Capability::Network,
            Listener::Zen(_) => capability != Capability::Logging,
        }
    }

    /// Whether the listener brings the capability.
    pub fn offers(&self, capability: Capability) -> (yes: bool)
        ensures
            yes == self.provides(capability),
    {
        match self {
            Listener::Console(_) => capability == Capability::Logging,
            Listener::Http(_) => capability == Capability::Network,
            Listener::Zen(_) => capability != Capability::Logging,
        }
    }

    /// The handler of outbound requests that the listener holds.
    pub open spec fn network_handler(self) -> Option<H> {
        match self {
            Listener::Console(_) => None,
            Listener::Http(listener) => Some(listener.http_handler),
            Listener::Zen(listener) => Some(listener.http_handler),
        }
    }

    /// The loader of sub-decisions that the listener holds.
    pub open spec fn decision_loader(self) -> Option<L> {
        match self {
            Listener::Zen(listener) => Some(listener.loader),
            _ => None,
        }
    }

    /// The dispatcher of custom nodes that the listener holds.
    pub open spec fn custom_dispatcher(self) -> Option<C> {
        match self {
            Listener::Zen(listener) => Some(listener.custom_node),
            _ => None,
        }
    }
}

/// The capabilities that a registry offers, as four flags.
#[derive(Clone, Copy, Debug, PartialEq, Eq, Structural)]
pub struct Capabilities {
    pub logging: bool,
    pub network: bool,
    pub custom_node: bool,
    pub loader: bool,
}

impl Capabilities {
    /// Whether the capability is among them.
    pub open spec fn has(self, capability: Capability) -> bool {
        match capability {
            Capability::Logging => self.logging,
            Capability::Network => self.network,
            Capability::CustomNode => self.custom_node,
            Capability::Loader => self.loader,
        }
    }

    /// No capability at all.
    pub fn none() -> (capabilities: Capabilities)
        ensures
            forall|capability: Capability| !capabilities.has(capability),
    {
        Capabilities { logging: false, network: false, custom_node: false, loader: false }
    }

    /// Whether the capability is among them.
    pub fn offers(&self, capability: Capability) -> (yes: bool)
        ensures
            yes == self.has(capability),
    {
        match capability {
            Capability::Logging => self.logging,
            Capability::Network => self.network,
            Capability::CustomNode => self.custom_node,
            Capability::Loader => self.loader,
        }
    }
}

/// The listeners that an embedder has injected. It is built once and then only read.
pub struct CapabilityRegistry<L, C, H> {
    pub listeners: Vec<Listener<L, C, H>>,
}

impl<L, C, H> CapabilityRegistry<L, C, H> {
    /// Whether some listener brings the capability.
    pub open spec fn provides(self, capability: Capability) -> bool {
        exists|i: int|
            0 <= i < self.listeners@.len() && (#[trigger] self.listeners@[i]).provides(capability)
    }

    /// The first listener that brings the capability.
    pub open spec fn first_provider(self, capability: Capability) -> int
        recommends
            self.provides(capability),
    {
        choose|i: int|
            0 <= i < self.listeners@.len() && (#[trigger] self.listeners@[i]).provides(capability)
                && forall|j: int|
                0 <= j < i ==> !(#[trigger] self.listeners@[j]).provides(capability)
    }

    /// The capabilities that the registry offers.
    pub open spec fn offered(self) -> Capabilities {
        Capabilities {
            logging: self.provides(Capability::Logging),
            network: self.provides(Capability::Network),
            custom_node: self.provides(Capability::CustomNode),
            loader: self.provides(Capability::Loader),
        }
    }

    /// A registry without listeners.
    pub fn new() -> (registry: Self)
        ensures
            registry.listeners@.len() == 0,
            forall|capability: Capability| !registry.provides(capability),
    {
        CapabilityRegistry { listeners: Vec::new() }
    }

    /// Adds a listener behind those that are there.
    pub fn register(&mut self, listener: Listener<L, C, H>)
        ensures
            final(self).listeners@ == old(self).listeners@.push(listener),
            forall|capability: Capability|
                final(self).provides(capability) == (old(self).provides(capability)
                    || listener.provides(capability)),
    {
        let ghost before = self.listeners@;
        self.listeners.push(listener);
        proof {
            let after = self.listeners@;
            assert forall|capability: Capability|
                self.provides(capability) == (old(self).provides(capability) || listener.provides(
                    capability,
                )) by {
                if old(self).provides(capability) {
                    let i = choose|i: int|
                        0 <= i < before.len() && (#[trigger] before[i]).provides(capability);
                    assert(after[i].provides(capability));
                }
                if listener.provides(capability) {
                    assert(after[before.len() as int].provides(capability));
                }
                if self.provides(capability) {
                    let i = choose|i: int|
                        0 <= i < after.len() && (#[trigger] after[i]).provides(capability);
                    if i < before.len() {
                        assert(before[i].provides(capability));
                    }
                }
            }
        }
    }

    /// The position of the first listener that brings the capability.
    pub fn find(&self, capability: Capability) -> (found: Option<usize>)
        ensures
            match found {
                Some(i) => {
                    &&& i < self.listeners@.len()
                    &&& self.listeners@[i as int].provides(capability)
                    &&& self.provides(capability)
                    &&& i == self.first_provider(capability)
                },
                None => !self.provides(capability),
            },
    {
        let mut i: usize = 0;
        while i < self.listeners.len()
            invariant
                i <= self.listeners.len(),
                forall|j: int| 0 <= j < i ==> !(#[trigger] self.listeners@[j]).provides(capability),
            decreases self.listeners.len() - i,
        {
            if self.listeners[i].offers(capability) {
                assert(self.listeners@[i as int].provides(capability));
                return Some(i);
            }
            i += 1;
        }
        None
    }

    /// Whether some listener brings the capability.
    pub fn has(&self, capability: Capability) -> (yes: bool)
        ensures
            yes == self.provides(capability),
    {
        self.find(capability).is_some()
    }

    /// The capabilities that the registry offers.
    pub fn capabilities(&self) -> (capabilities: Capabilities)
        ensures
            capabilities == self.offered(),
    {
        Capabilities {
            logging: self.has(Capability::Logging),
            network: self.has(Capability::Network),
            custom_node: self.has(Capability::CustomNode),
            loader: self.has(Capability::Loader),
        }
    }

    /// The handler of outbound requests: that of the first listener that has one.
    pub fn network(&self) -> (handler: Option<&H>)
        ensures
            match handler {
                Some(h) => self.provides(Capability::Network) && Some(*h)
                    == self.listeners@[self.first_provider(Capability::Network)].network_handler(),
                None => !self.provides(Capability::Network),
            },
    {
        match self.find(Capability::Network) {
            Some(i) => match &self.listeners[i] {
                Listener::Http(listener) => Some(&listener.http_handler),
                Listener::Zen(listener) => Some(&listener.http_handler),
                Listener::Console(_) => None,
            },
            None => None,
        }
    }

    /// The loader of sub-decisions: that of the first listener that has one.
    pub fn loader(&self) -> (loader: Option<&L>)
        ensures
            match loader {
                Some(l) => self.provides(Capability::Loader) && Some(*l)
                    == self.listeners@[self.first_provider(Capability::Loader)].decision_loader(),
                None => !self.provides(Capability::Loader),
            },
    {
        match self.find(Capability::Loader) {
            Some(i) => match &self.listeners[i] {
                Listener::Zen(listener) => Some(&listener.loader),
                _ => None,
            },
            None => None,
        }
    }

    /// The dispatcher of custom nodes: that of the first listener that has one.
    pub fn custom_node(&self) -> (dispatcher: Option<&C>)
        ensures
            match dispatcher {
                Some(c) => self.provides(Capability::CustomNode) && Some(*c)
                    == self.listeners@[self.first_provider(
                    Capability::CustomNode,
                )].custom_dispatcher(),
                None => !self.provides(Capability::CustomNode),
            },
    {
        match self.find(Capability::CustomNode) {
            Some(i) => match &self.listeners[i] {
                Listener::Zen(listener) => Some(&listener.custom_node),
                _ => None,
            },
            None => None,
        }
    }
}

} // verus!
