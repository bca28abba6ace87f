//! What this crate takes from `ash` without proof.

use vstd::prelude::*;

verus! {

/// The Vulkan encoding of a version: three bits of variant, seven of major,
/// ten of minor and twelve of patch, from the most significant bit down.
/// Components that are too wide for their field spill into the fields above.
pub open spec fn packed_version(variant: u32, major: u32, minor: u32, patch: u32) -> u32 {
    (variant << 29u32) | (major << 22u32) | (minor << 12u32) | patch
}

/// Components that fit their fields do not run into each other: the code is
/// then the sum of the components, each scaled to its field.
pub proof fn lemma_packed_version_value(variant: u32, major: u32, minor: u32, patch: u32)
    requires
        variant < 8,
        major < 128,
        minor < 1024,
        patch < 4096,
    ensures
        packed_version(variant, major, minor, patch) == variant * 0x2000_0000 + major * 0x40_0000
            + minor * 0x1000 + patch,
{
    assert((variant << 29u32) | (major << 22u32) | (minor << 12u32) | patch == variant
        * 0x2000_0000 + major * 0x40_0000 + minor * 0x1000 + patch) by (bit_vector)
        requires
            variant < 8,
            major < 128,
            minor < 1024,
            patch < 4096,
    ;
}

/// `ash::vk::make_api_version` shifts each component to its field and ors the
/// four together; it masks nothing and cannot fail.
pub assume_specification[ ash::vk::make_api_version ](
    variant: u32,
    major: u32,
    minor: u32,
    patch: u32,
) -> (version: u32)
    ensures
        version == packed_version(variant, major, minor, patch),
;

/// The name of the extension through which Vulkan reports what the
/// validation layer finds.
pub open spec fn debug_utils_extension() -> Seq<char> {
    "VK_EXT_debug_utils"@
}

/// `ash::extensions::ext::DebugUtils::name` returns the constant C string
/// `VK_EXT_debug_utils`. The name is ASCII, so nothing is lost when it is
/// made a `String`.
#[verifier::external_body]
pub(crate) fn debug_utils_name() -> (name: String)
    ensures
        name@ == debug_utils_extension(),
{
    ash::extensions::ext::DebugUtils::name().to_string_lossy().into_owned()
}

} // verus!
