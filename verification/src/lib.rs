//! Parameters of a Vulkan instance, checked and assembled before anything is
//! handed to the driver.
//!
//! The crate holds what can be decided ahead of the first Vulkan call: the
//! packed version codes, the layer and extension lists in the order they are
//! enabled, and the rejection of names that cannot be passed as C strings.

pub mod instance;
pub mod name;
pub mod vulkan;

pub use instance::{
    ApiVersion, ApplicationInfo, ApplicationInfoView, DescriptionError, InstanceDescription,
    InstanceDescriptionView, InstanceError, InstanceParameters, VALIDATION_LAYER,
};
pub use name::NulError;
