use vstd::prelude::*;

verus! {

/// A capability plugin of the application host.
#[derive(PartialEq, Eq, Structural, Clone, Copy, Debug)]
pub enum Plugin {
    /// Running bundled executables.
    Shell,
    /// Automatic updates.
    Updater,
    /// OS-level deep linking.
    DeepLink,
    /// Diagnostic logging, registered in debug builds only.
    Logging,
    /// The handler bound to the application's own URL scheme.
    DeepLinkHandler,
}

/// Why the setup phase stopped.
#[derive(PartialEq, Eq, Structural, Clone, Copy, Debug)]
pub enum SetupError {
    /// The host refused to register the plugin.
    PluginFailed(Plugin),
    /// The plugin was already registered.
    DuplicatePlugin(Plugin),
}

/// The state of a plugin set after registering `p` in a set holding `s`,
/// and what the registration returns.
pub open spec fn register_result(s: Seq<Plugin>, p: Plugin) -> (Seq<Plugin>, Result<(), SetupError>) {
    if s.contains(p) {
        (s, Err(SetupError::DuplicatePlugin(p)))
    } else {
        (s.push(p), Ok(()))
    }
}

/// The plugins registered so far, in order of registration, each once.
pub struct PluginSet {
    registered: Vec<Plugin>,
}

impl View for PluginSet {
    type V = Seq<Plugin>;

    closed spec fn view(&self) -> Seq<Plugin> {
        self.registered@
    }
}

impl PluginSet {
    /// No plugin occurs twice.
    pub open spec fn wf(&self) -> bool {
        self@.no_duplicates()
    }

    /// An empty set.
    pub fn new() -> (r: PluginSet)
        ensures
            r@ == Seq::<Plugin>::empty(),
            r.wf(),
    {
        PluginSet { registered: Vec::new() }
    }

    pub fn len(&self) -> (r: usize)
        ensures
            r == self@.len(),
    {
        self.registered.len()
    }

    pub fn contains(&self, p: Plugin) -> (r: bool)
        ensures
            r == self@.contains(p),
    {
        let mut i: usize = 0;
        while i < self.registered.len()
            invariant
                i <= self.registered@.len(),
                forall|j: int| 0 <= j < i ==> self.registered@[j] != p,
            decreases self.registered@.len() - i,
        {
            if self.registered[i] == p {
                return true;
            }
            i = i + 1;
        }
        false
    }

    /// Registers `p`, refusing a plugin that is already registered.
    pub fn register(&mut self, p: Plugin) -> (r: Result<(), SetupError>)
        requires
            old(self).wf(),
        ensures
            (final(self)@, r) == register_result(old(self)@, p),
            final(self).wf(),
    {
        if self.contains(p) {
            Err(SetupError::DuplicatePlugin(p))
        } else {
            self.registered.push(p);
            Ok(())
        }
    }
}

/// Registering a plugin a second time is refused with a setup error, and
/// leaves the set as the first registration left it.
pub proof fn lemma_second_registration_refused(s: Seq<Plugin>, p: Plugin)
    ensures
        ({
            let once = register_result(s, p).0;
            let twice = register_result(once, p);
            &&& twice.1 == Err::<(), SetupError>(SetupError::DuplicatePlugin(p))
            &&& twice.0 == once
            &&& once.contains(p)
        }),
{
    if !s.contains(p) {
        assert(s.push(p)[s.len() as int] == p);
    }
}

} // verus!
