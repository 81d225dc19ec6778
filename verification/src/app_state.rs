//! Configuration state for the host-side management tool: which file
//! extensions have handlers enabled, the sort preference, and whether
//! the component is registered.

use vstd::prelude::*;

verus! {

/// Configuration for a single file extension.
#[derive(Debug)]
pub struct ExtensionConfig {
    /// The file extension, with its leading dot.
    pub extension: String,
    /// Whether the thumbnail handler is enabled for this extension.
    pub thumbnail_enabled: bool,
    /// Whether the infotip handler is enabled for this extension.
    pub infotip_enabled: bool,
}

impl Clone for ExtensionConfig {
    /// An exact copy of the configuration.
    fn clone(&self) -> (r: Self)
        ensures
            r == *self,
    {
        ExtensionConfig {
            extension: self.extension.clone(),
            thumbnail_enabled: self.thumbnail_enabled,
            infotip_enabled: self.infotip_enabled,
        }
    }
}

impl ExtensionConfig {
    /// A configuration for `extension` with both handlers disabled.
    pub fn new(extension: &str) -> (r: Self)
        ensures
            r.extension@ == extension@,
            !r.thumbnail_enabled,
            !r.infotip_enabled,
    {
        ExtensionConfig {
            extension: extension.to_owned(),
            thumbnail_enabled: false,
            infotip_enabled: false,
        }
    }

    /// A configuration for `extension` with both handlers enabled.
    pub fn enabled(extension: &str) -> (r: Self)
        ensures
            r.extension@ == extension@,
            r.thumbnail_enabled,
            r.infotip_enabled,
    {
        ExtensionConfig {
            extension: extension.to_owned(),
            thumbnail_enabled: true,
            infotip_enabled: true,
        }
    }
}

/// The management tool's state: the supported extensions with their
/// handler switches, the sort preferences, and the registration flag.
#[derive(Debug)]
pub struct AppState {
    /// Supported extensions with their handler states.
    pub extensions: Vec<ExtensionConfig>,
    /// Whether alphabetical sorting is enabled; false selects the
    /// first-found fast path.
    pub sort_enabled: bool,
    /// Whether preview pages are sorted alphabetically.
    pub sort_preview_enabled: bool,
    /// Whether the component is registered with the host.
    pub dll_registered: bool,
}

impl Clone for AppState {
    /// An exact copy of the state: the same extension entries, in
    /// order, and the same flags.
    fn clone(&self) -> (r: Self)
        ensures
            r.extensions@ == self.extensions@,
            r.sort_enabled == self.sort_enabled,
            r.sort_preview_enabled == self.sort_preview_enabled,
            r.dll_registered == self.dll_registered,
    {
        let n = self.extensions.len();
        let mut extensions: Vec<ExtensionConfig> = Vec::new();
        let mut i: usize = 0;
        while i < n
            invariant
                i <= n,
                n == self.extensions@.len(),
                extensions@.len() == i,
                forall|k: int| 0 <= k < i ==> extensions@[k] == self.extensions@[k],
            decreases n - i,
        {
            extensions.push(self.extensions[i].clone());
            i = i + 1;
        }
        proof {
            assert(extensions@ =~= self.extensions@);
        }
        AppState {
            extensions,
            sort_enabled: self.sort_enabled,
            sort_preview_enabled: self.sort_preview_enabled,
            dll_registered: self.dll_registered,
        }
    }
}

impl Default for AppState {
    /// The initial state: the six supported extensions with all
    /// handlers disabled, sorting disabled for speed on large
    /// archives, and the component unregistered.
    fn default() -> (r: Self)
        ensures
            r.extensions@.len() == 6,
            !r.sort_enabled,
            !r.sort_preview_enabled,
            !r.dll_registered,
            !r.spec_has_any_handlers_enabled(),
    {
        let mut extensions: Vec<ExtensionConfig> = Vec::new();
        extensions.push(ExtensionConfig::new(".cbz"));
        extensions.push(ExtensionConfig::new(".cbr"));
        extensions.push(ExtensionConfig::new(".zip"));
        extensions.push(ExtensionConfig::new(".rar"));
        extensions.push(ExtensionConfig::new(".7z"));
        extensions.push(ExtensionConfig::new(".cb7"));
        let r = AppState {
            extensions,
            sort_enabled: false,
            sort_preview_enabled: false,
            dll_registered: false,
        };
        proof {
            assert(forall|i: int|
                0 <= i < r.extensions@.len() ==> !(#[trigger] r.extensions@[i]).thumbnail_enabled
                    && !r.extensions@[i].infotip_enabled);
        }
        r
    }
}

impl AppState {
    /// True when some extension has a handler switched on.
    pub open spec fn spec_has_any_handlers_enabled(&self) -> bool {
        exists|i: int|
            0 <= i < self.extensions@.len() && ((#[trigger] self.extensions@[i]).thumbnail_enabled
                || self.extensions@[i].infotip_enabled)
    }

    /// Whether any extension has its thumbnail or infotip handler
    /// enabled.
    pub fn has_any_handlers_enabled(&self) -> (r: bool)
        ensures
            r == self.spec_has_any_handlers_enabled(),
    {
        let n = self.extensions.len();
        let mut i: usize = 0;
        while i < n
            invariant
                i <= n,
                n == self.extensions@.len(),
                forall|k: int|
                    0 <= k < i ==> !(#[trigger] self.extensions@[k]).thumbnail_enabled
                        && !self.extensions@[k].infotip_enabled,
            decreases n - i,
        {
            if self.extensions[i].thumbnail_enabled || self.extensions[i].infotip_enabled {
                return true;
            }
            i = i + 1;
        }
        false
    }

    /// The index of the configuration for `extension`, if present.
    pub open spec fn spec_find_extension(&self, extension: Seq<char>) -> Option<int> {
        if exists|i: int|
            0 <= i < self.extensions@.len() && (#[trigger] self.extensions@[i]).extension@
                == extension {
            Some(
                choose|i: int|
                    0 <= i < self.extensions@.len() && (#[trigger] self.extensions@[i]).extension@
                        == extension,
            )
        } else {
            None
        }
    }

    /// The configuration for an extension, when one is listed.
    pub fn get_extension(&self, extension: &str) -> (r: Option<&ExtensionConfig>)
        ensures
            match r {
                Some(c) => c.extension@ == extension@ && exists|i: int|
                    0 <= i < self.extensions@.len() && #[trigger] self.extensions@[i] == *c,
                None => forall|i: int|
                    0 <= i < self.extensions@.len() ==> (#[trigger] self.extensions@[i]).extension@
                        != extension@,
            },
    {
        let n = self.extensions.len();
        let target: String = extension.to_owned();
        let mut i: usize = 0;
        while i < n
            invariant
                i <= n,
                n == self.extensions@.len(),
                target@ == extension@,
                forall|k: int|
                    0 <= k < i ==> (#[trigger] self.extensions@[k]).extension@ != extension@,
            decreases n - i,
        {
            if self.extensions[i].extension == target {
                return Some(&self.extensions[i]);
            }
            i = i + 1;
        }
        None
    }

    /// A mutable borrow of the configuration for an extension, when
    /// one is listed; the rest of the state is untouched.
    pub fn get_extension_mut(&mut self, extension: &str) -> (r: Option<&mut ExtensionConfig>)
        ensures
            match r {
                Some(c) => {
                    &&& (*c).extension@ == extension@
                    &&& exists|i: int|
                        {
                            &&& 0 <= i < old(self).extensions@.len()
                            &&& #[trigger] old(self).extensions@[i] == *c
                            &&& final(self).extensions@ == old(self).extensions@.update(
                                i,
                                *final(c),
                            )
                        }
                    &&& final(self).sort_enabled == old(self).sort_enabled
                    &&& final(self).sort_preview_enabled == old(self).sort_preview_enabled
                    &&& final(self).dll_registered == old(self).dll_registered
                },
                None => {
                    &&& *final(self) == *old(self)
                    &&& forall|i: int|
                        0 <= i < old(self).extensions@.len() ==> (#[trigger] old(
                            self,
                        ).extensions@[i]).extension@ != extension@
                },
            },
    {
        let n = self.extensions.len();
        let target: String = extension.to_owned();
        let mut i: usize = 0;
        while i < n
            invariant
                i <= n,
                n == self.extensions@.len(),
                *self == *old(self),
                target@ == extension@,
                forall|k: int|
                    0 <= k < i ==> (#[trigger] self.extensions@[k]).extension@ != extension@,
            decreases n - i,
        {
            if self.extensions[i].extension == target {
                return Some(&mut self.extensions[i]);
            }
            i = i + 1;
        }
        None
    }

    /// A state is valid when handlers are only enabled while the
    /// component is registered.
    pub fn is_valid(&self) -> (r: bool)
        ensures
            r == (self.spec_has_any_handlers_enabled() ==> self.dll_registered),
    {
        if self.has_any_handlers_enabled() && !self.dll_registered {
            return false;
        }
        true
    }
}

} // verus!
