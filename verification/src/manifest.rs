//! Job manifests: the resources, runtime and I/O settings a program runs with.

use vstd::prelude::*;
use crate::types::{BlobId, ProgramId};

verus! {

#[derive(Debug, Clone, PartialEq, Eq)]
pub struct JobManifest {
    pub version: ManifestVersion,
    pub metadata: JobMetadata,
    pub resources: ResourceRequirements,
    pub runtime: RuntimeConfig,
    pub io: IoSchema,
}

#[derive(Debug, Clone, Copy, PartialEq, Eq)]
pub enum ManifestVersion {
    V1,
}

impl ManifestVersion {
    pub fn default() -> (res: Self)
        ensures
            res == ManifestVersion::V1,
    {
        ManifestVersion::V1
    }
}

#[derive(Debug, Clone, PartialEq, Eq)]
pub struct JobMetadata {
    pub name: String,
    pub description: Option<String>,
    pub author: Option<String>,
    pub version: String,
    pub tags: Vec<String>,
}

#[derive(Debug, Clone, PartialEq, Eq)]
pub struct ResourceRequirements {
    pub max_fuel: u64,
    pub max_memory_bytes: u64,
    pub timeout_ms: u64,
    pub capabilities: Vec<Capability>,
}

/// Fuel granted by default: fifty million instructions.
pub const DEFAULT_MAX_FUEL: u64 = 50_000_000;
/// Memory granted by default: 64 MiB.
pub const DEFAULT_MAX_MEMORY_BYTES: u64 = 67_108_864;
/// Wall-clock limit by default: thirty seconds.
pub const DEFAULT_TIMEOUT_MS: u64 = 30_000;
/// Least memory a manifest may ask for: 1 MiB.
pub const MIN_MEMORY_BYTES: u64 = 1_048_576;

impl ResourceRequirements {
    pub fn default() -> (res: Self)
        ensures
            res.max_fuel == DEFAULT_MAX_FUEL,
            res.max_memory_bytes == DEFAULT_MAX_MEMORY_BYTES,
            res.timeout_ms == DEFAULT_TIMEOUT_MS,
            res.capabilities@.len() == 0,
    {
        ResourceRequirements {
            max_fuel: DEFAULT_MAX_FUEL,
            max_memory_bytes: DEFAULT_MAX_MEMORY_BYTES,
            timeout_ms: DEFAULT_TIMEOUT_MS,
            capabilities: Vec::new(),
        }
    }
}

#[derive(Debug, Clone, Copy, PartialEq, Eq)]
pub enum Capability {
    State,
    BlobRead,
    Network,
    Random,
}

#[derive(Debug, Clone, PartialEq, Eq)]
pub struct RuntimeConfig {
    pub allowed_imports: AllowedImports,
    pub signature_required: bool,
}

/// The host functions a program may import by default.
pub open spec fn spec_default_imports() -> Seq<Seq<char>> {
    seq!["env.onvm_blob_read"@, "env.onvm_state_put"@, "env.onvm_state_get"@, "env.onvm_state_root"@]
}

impl RuntimeConfig {
    pub fn default() -> (res: Self)
        ensures
            !res.signature_required,
            match res.allowed_imports {
                AllowedImports::Restricted(names) => names@.map_values(|s: String| s@) == spec_default_imports(),
                _ => false,
            },
    {
        let mut names: Vec<String> = Vec::new();
        names.push(String::from_str("env.onvm_blob_read"));
        names.push(String::from_str("env.onvm_state_put"));
        names.push(String::from_str("env.onvm_state_get"));
        names.push(String::from_str("env.onvm_state_root"));
        assert(names@.map_values(|s: String| s@) =~= spec_default_imports());
        RuntimeConfig { allowed_imports: AllowedImports::Restricted(names), signature_required: false }
    }
}

#[derive(Debug, Clone, PartialEq, Eq)]
pub enum AllowedImports {
    All,
    Restricted(Vec<String>),
    /// No imports at all (serialized as "none").
    NoneAllowed,
}

#[derive(Debug, Clone, PartialEq, Eq)]
pub struct IoSchema {
    pub input_content_type: ContentType,
    pub output_content_type: ContentType,
    pub input_schema: Option<String>,
    pub output_schema: Option<String>,
}

impl IoSchema {
    pub fn default() -> (res: Self)
        ensures
            res.input_content_type == ContentType::Json,
            res.output_content_type == ContentType::Json,
            res.input_schema is None,
            res.output_schema is None,
    {
        IoSchema {
            input_content_type: ContentType::Json,
            output_content_type: ContentType::Json,
            input_schema: None,
            output_schema: None,
        }
    }
}

#[derive(Debug, Clone, Copy, PartialEq, Eq)]
pub enum ContentType {
    Json,
    Binary,
    Text,
    Cbor,
}

impl ContentType {
    pub fn default() -> (res: Self)
        ensures
            res == ContentType::Json,
    {
        ContentType::Json
    }
}

#[derive(Debug, Clone, PartialEq, Eq)]
pub struct JobSubmission {
    pub request_id: String,
    pub program_id: ProgramId,
    pub input: JobInput,
    pub manifest_override: Option<ResourceRequirements>,
    pub metadata: Vec<(String, String)>,
}

#[derive(Debug, Clone, PartialEq, Eq)]
pub enum JobInput {
    Inline { data: Vec<u8> },
    BlobRef { id: BlobId },
}

/// Why a manifest was refused.
#[derive(Debug, Clone, Copy, PartialEq, Eq, Structural)]
pub enum ManifestError {
    EmptyName,
    EmptyVersion,
    ZeroFuel,
    MemoryBelowMinimum,
    ZeroTimeout,
}

impl ManifestError {
    /// The message shown for the error.
    pub fn message(&self) -> (res: String)
        ensures
            res@ == match *self {
                ManifestError::EmptyName => "manifest name cannot be empty"@,
                ManifestError::EmptyVersion => "manifest version cannot be empty"@,
                ManifestError::ZeroFuel => "max_fuel must be > 0"@,
                ManifestError::MemoryBelowMinimum => "max_memory_bytes must be >= 1 MiB"@,
                ManifestError::ZeroTimeout => "timeout_ms must be > 0"@,
            },
    {
        match self {
            ManifestError::EmptyName => String::from_str("manifest name cannot be empty"),
            ManifestError::EmptyVersion => String::from_str("manifest version cannot be empty"),
            ManifestError::ZeroFuel => String::from_str("max_fuel must be > 0"),
            ManifestError::MemoryBelowMinimum => String::from_str("max_memory_bytes must be >= 1 MiB"),
            ManifestError::ZeroTimeout => String::from_str("timeout_ms must be > 0"),
        }
    }
}

/// The first rule that a manifest breaks, checked in a fixed order.
pub open spec fn spec_validate(m: JobManifest) -> Result<(), ManifestError> {
    if m.metadata.name@.len() == 0 {
        Err(ManifestError::EmptyName)
    } else if m.metadata.version@.len() == 0 {
        Err(ManifestError::EmptyVersion)
    } else if m.resources.max_fuel == 0 {
        Err(ManifestError::ZeroFuel)
    } else if m.resources.max_memory_bytes < MIN_MEMORY_BYTES {
        Err(ManifestError::MemoryBelowMinimum)
    } else if m.resources.timeout_ms == 0 {
        Err(ManifestError::ZeroTimeout)
    } else {
        Ok(())
    }
}

/// The smaller of two limits.
pub open spec fn spec_min(a: u64, b: u64) -> u64 {
    if a <= b { a } else { b }
}

impl JobManifest {
    /// The manifest a program runs with when none was stored for it.
    pub fn default() -> (res: Self)
        ensures
            res.version == ManifestVersion::V1,
            res.metadata.name@ == "default"@,
            res.metadata.version@ == "1.0.0"@,
            res.metadata.description is None,
            res.metadata.author is None,
            res.metadata.tags@.len() == 0,
            res.resources.max_fuel == DEFAULT_MAX_FUEL,
            res.resources.max_memory_bytes == DEFAULT_MAX_MEMORY_BYTES,
            res.resources.timeout_ms == DEFAULT_TIMEOUT_MS,
            res.resources.capabilities@.len() == 0,
            !res.runtime.signature_required,
            match res.runtime.allowed_imports {
                AllowedImports::Restricted(names) => names@.map_values(|s: String| s@) == spec_default_imports(),
                _ => false,
            },
            res.io.input_content_type == ContentType::Json,
            res.io.output_content_type == ContentType::Json,
            res.io.input_schema is None,
            res.io.output_schema is None,
    {
        JobManifest {
            version: ManifestVersion::V1,
            metadata: JobMetadata {
                name: String::from_str("default"),
                description: None,
                author: None,
                version: String::from_str("1.0.0"),
                tags: Vec::new(),
            },
            resources: ResourceRequirements::default(),
            runtime: RuntimeConfig::default(),
            io: IoSchema::default(),
        }
    }

    /// Check the manifest: a name and a version, some fuel, at least 1 MiB of
    /// memory and a timeout.
    pub fn validate(&self) -> (res: Result<(), ManifestError>)
        ensures
            res == spec_validate(*self),
    {
        if self.metadata.name.as_str().is_empty() {
            return Err(ManifestError::EmptyName);
        }
        if self.metadata.version.as_str().is_empty() {
            return Err(ManifestError::EmptyVersion);
        }
        if self.resources.max_fuel == 0 {
            return Err(ManifestError::ZeroFuel);
        }
        if self.resources.max_memory_bytes < MIN_MEMORY_BYTES {
            return Err(ManifestError::MemoryBelowMinimum);
        }
        if self.resources.timeout_ms == 0 {
            return Err(ManifestError::ZeroTimeout);
        }
        Ok(())
    }

    /// The limits of this manifest tightened by `overrides`: each limit is the
    /// smaller of the two, and the capabilities are the manifest's own.
    pub fn merge_overrides(&self, overrides: &ResourceRequirements) -> (res: ResourceRequirements)
        ensures
            res.max_fuel == spec_min(self.resources.max_fuel, overrides.max_fuel),
            res.max_memory_bytes == spec_min(self.resources.max_memory_bytes, overrides.max_memory_bytes),
            res.timeout_ms == spec_min(self.resources.timeout_ms, overrides.timeout_ms),
            res.capabilities@ == self.resources.capabilities@,
    {
        let mut capabilities: Vec<Capability> = Vec::with_capacity(self.resources.capabilities.len());
        let mut i: usize = 0;
        while i < self.resources.capabilities.len()
            invariant
                i <= self.resources.capabilities@.len(),
                capabilities@ == self.resources.capabilities@.take(i as int),
            decreases self.resources.capabilities@.len() - i,
        {
            capabilities.push(self.resources.capabilities[i]);
            i = i + 1;
            assert(capabilities@ =~= self.resources.capabilities@.take(i as int));
        }
        assert(capabilities@ =~= self.resources.capabilities@);
        ResourceRequirements {
            max_fuel: if self.resources.max_fuel <= overrides.max_fuel { self.resources.max_fuel } else { overrides.max_fuel },
            max_memory_bytes: if self.resources.max_memory_bytes <= overrides.max_memory_bytes {
                self.resources.max_memory_bytes
            } else {
                overrides.max_memory_bytes
            },
            timeout_ms: if self.resources.timeout_ms <= overrides.timeout_ms { self.resources.timeout_ms } else { overrides.timeout_ms },
            capabilities,
        }
    }
}

/// The manifest a program gets by default passes validation.
pub proof fn lemma_default_manifest_valid(m: JobManifest)
    requires
        m.metadata.name@ == "default"@,
        m.metadata.version@ == "1.0.0"@,
        m.resources.max_fuel == DEFAULT_MAX_FUEL,
        m.resources.max_memory_bytes == DEFAULT_MAX_MEMORY_BYTES,
        m.resources.timeout_ms == DEFAULT_TIMEOUT_MS,
    ensures
        spec_validate(m) is Ok,
{
    reveal_strlit("default");
    reveal_strlit("1.0.0");
}

/// Merging overrides never loosens a limit, and overriding a valid manifest's
/// limits with ones that are themselves positive and at least 1 MiB keeps them valid.
pub proof fn lemma_merge_tightens(m: JobManifest, overrides: ResourceRequirements, merged: ResourceRequirements)
    requires
        merged.max_fuel == spec_min(m.resources.max_fuel, overrides.max_fuel),
        merged.max_memory_bytes == spec_min(m.resources.max_memory_bytes, overrides.max_memory_bytes),
        merged.timeout_ms == spec_min(m.resources.timeout_ms, overrides.timeout_ms),
        merged.capabilities@ == m.resources.capabilities@,
    ensures
        merged.max_fuel <= m.resources.max_fuel && merged.max_fuel <= overrides.max_fuel,
        merged.max_memory_bytes <= m.resources.max_memory_bytes && merged.max_memory_bytes <= overrides.max_memory_bytes,
        merged.timeout_ms <= m.resources.timeout_ms && merged.timeout_ms <= overrides.timeout_ms,
        spec_validate(m) is Ok && overrides.max_fuel > 0 && overrides.max_memory_bytes >= MIN_MEMORY_BYTES
            && overrides.timeout_ms > 0 ==> spec_validate(JobManifest { resources: merged, ..m }) is Ok,
{
}

/// A manifest passes validation exactly when it has a name and a version,
/// some fuel, at least 1 MiB of memory and some time; each broken rule is
/// reported in the order name, version, fuel, memory, timeout.
pub proof fn lemma_validate_exactly(m: JobManifest)
    ensures
        spec_validate(m) is Ok <==> (m.metadata.name@.len() > 0 && m.metadata.version@.len() > 0
            && m.resources.max_fuel > 0 && m.resources.max_memory_bytes >= 1_048_576 && m.resources.timeout_ms > 0),
        m.metadata.name@.len() == 0 ==> spec_validate(m) == Err::<(), ManifestError>(ManifestError::EmptyName),
        m.metadata.name@.len() > 0 && m.metadata.version@.len() == 0 ==> spec_validate(m) == Err::<(), ManifestError>(
            ManifestError::EmptyVersion,
        ),
        m.metadata.name@.len() > 0 && m.metadata.version@.len() > 0 && m.resources.max_fuel == 0 ==> spec_validate(m)
            == Err::<(), ManifestError>(ManifestError::ZeroFuel),
        m.metadata.name@.len() > 0 && m.metadata.version@.len() > 0 && m.resources.max_fuel > 0
            && m.resources.max_memory_bytes < 1_048_576 ==> spec_validate(m) == Err::<(), ManifestError>(
            ManifestError::MemoryBelowMinimum,
        ),
        m.metadata.name@.len() > 0 && m.metadata.version@.len() > 0 && m.resources.max_fuel > 0
            && m.resources.max_memory_bytes >= 1_048_576 && m.resources.timeout_ms == 0 ==> spec_validate(m)
            == Err::<(), ManifestError>(ManifestError::ZeroTimeout),
{
}

} // verus!
