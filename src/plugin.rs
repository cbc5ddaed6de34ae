use vstd::prelude::*;

verus! {

/// Version of the interface plugins are built against.
pub const PLUGIN_API_VERSION: u32 = 1;

/// What a plugin may be allowed to do.
#[derive(Debug, Clone, Copy, PartialEq, Eq, Structural)]
pub enum PluginCapability {
    WindowDecorations,
    InputHandling,
    SurfaceRendering,
    WorkspaceManagement,
    SystemAccess,
    ExternalCommunication,
}

/// The bit of a capability in a capability mask.
pub open spec fn capability_bit(c: PluginCapability) -> u32 {
    match c {
        PluginCapability::WindowDecorations => 1,
        PluginCapability::InputHandling => 2,
        PluginCapability::SurfaceRendering => 4,
        PluginCapability::WorkspaceManagement => 8,
        PluginCapability::SystemAccess => 16,
        PluginCapability::ExternalCommunication => 32,
    }
}

impl PluginCapability {
    pub fn bit(&self) -> (b: u32)
        ensures
            b == capability_bit(*self),
    {
        match self {
            PluginCapability::WindowDecorations => 1,
            PluginCapability::InputHandling => 2,
            PluginCapability::SurfaceRendering => 4,
            PluginCapability::WorkspaceManagement => 8,
            PluginCapability::SystemAccess => 16,
            PluginCapability::ExternalCommunication => 32,
        }
    }
}

/// What the compositor offers a plugin: the capabilities it was granted.
pub struct PluginContext {
    granted: u32,
}

impl PluginContext {
    pub closed spec fn granted_spec(&self) -> u32 {
        self.granted
    }

    /// A context that grants nothing.
    pub fn new() -> (c: Self)
        ensures
            c.granted_spec() == 0,
    {
        PluginContext { granted: 0 }
    }

    /// A context granting the capabilities whose bits are set in `mask`.
    pub fn with_capabilities(mask: u32) -> (c: Self)
        ensures
            c.granted_spec() == mask,
    {
        PluginContext { granted: mask }
    }

    /// Version of the compositor reported to plugins.
    pub fn compositor_version(&self) -> (v: &'static str)
        ensures
            v@ == "0.1.0"@,
    {
        proof {
            reveal_strlit("0.1.0");
        }
        "0.1.0"
    }

    /// Whether `capability` was granted.
    pub fn has_capability(&self, capability: PluginCapability) -> (b: bool)
        ensures
            b == (self.granted_spec() & capability_bit(capability) != 0),
    {
        self.granted & capability.bit() != 0
    }
}

impl Default for PluginContext {
    fn default() -> (c: Self)
        ensures
            c.granted_spec() == 0,
    {
        PluginContext::new()
    }
}

/// Why a manifest was rejected.
#[derive(Debug, Clone, Copy, PartialEq, Eq, Structural)]
pub enum ManifestError {
    EmptyName,
    EmptyVersion,
    EmptyEntryPoint,
}

/// Metadata describing a plugin.
pub struct PluginManifest {
    pub name: String,
    pub version: String,
    pub description: String,
    pub author: String,
    pub min_compositor_version: String,
    /// Shared library file of the plugin.
    pub entry_point: String,
    pub dependencies: Vec<String>,
    pub capabilities: Vec<String>,
    pub metadata: Vec<(String, String)>,
}

impl PluginManifest {
    /// Name, version and entry point must be present, checked in that order.
    pub fn validate(&self) -> (r: Result<(), ManifestError>)
        ensures
            self.name@.len() == 0 ==> r == Err::<(), ManifestError>(ManifestError::EmptyName),
            self.name@.len() > 0 && self.version@.len() == 0 ==> r == Err::<(), ManifestError>(
                ManifestError::EmptyVersion,
            ),
            self.name@.len() > 0 && self.version@.len() > 0 && self.entry_point@.len() == 0 ==> r == Err::<
                (),
                ManifestError,
            >(ManifestError::EmptyEntryPoint),
            r is Ok <==> (self.name@.len() > 0 && self.version@.len() > 0 && self.entry_point@.len() > 0),
    {
        if self.name.as_str().is_empty() {
            return Err(ManifestError::EmptyName);
        }
        if self.version.as_str().is_empty() {
            return Err(ManifestError::EmptyVersion);
        }
        if self.entry_point.as_str().is_empty() {
            return Err(ManifestError::EmptyEntryPoint);
        }
        Ok(())
    }
}

impl Default for PluginManifest {
    fn default() -> (m: Self)
        ensures
            m.name@.len() == 0,
            m.version@ == "0.1.0"@,
            m.min_compositor_version@ == "0.1.0"@,
            m.entry_point@ == "plugin.so"@,
            m.description@.len() == 0,
            m.author@.len() == 0,
            m.dependencies@.len() == 0,
            m.capabilities@.len() == 0,
            m.metadata@.len() == 0,
    {
        PluginManifest {
            name: String::new(),
            version: String::from_str("0.1.0"),
            description: String::new(),
            author: String::new(),
            min_compositor_version: String::from_str("0.1.0"),
            entry_point: String::from_str("plugin.so"),
            dependencies: Vec::new(),
            capabilities: Vec::new(),
            metadata: Vec::new(),
        }
    }
}

} // verus!
