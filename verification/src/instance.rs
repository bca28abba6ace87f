//! The parameters an instance is created from, and what they come to before
//! the instance is created: the application's description, the layers and the
//! extensions.

use vstd::prelude::*;
use crate::name::{
    all_accepted, check_name, check_names, lemma_accepted_parts, lemma_nul_byte_is_nul_char,
    lemma_rejected_after_accepted, lemma_rejected_first, NulError,
};
use crate::vulkan::{
    debug_utils_extension, debug_utils_name, lemma_packed_version_value, packed_version,
};

verus! {

/// The layer that checks how Vulkan is used. Every instance enables it.
pub const VALIDATION_LAYER: &'static str = "VK_LAYER_KHRONOS_validation";

/// Errors from the instance module.
#[derive(Debug)]
pub enum InstanceError {
    /// A name holds a nul byte and cannot be made a C string.
    NulError(NulError),
}

impl From<NulError> for InstanceError {
    fn from(error: NulError) -> (wrapped: Self) {
        InstanceError::NulError(error)
    }
}

impl vstd::std_specs::convert::FromSpecImpl<NulError> for InstanceError {
    open spec fn obeys_from_spec() -> bool {
        true
    }

    open spec fn from_spec(error: NulError) -> Self {
        InstanceError::NulError(error)
    }
}

/// Version of the Vulkan API.
#[derive(Clone, Copy, Debug, PartialEq, Eq, Structural)]
pub enum ApiVersion {
    /// API version 1.1.
    Type1_1,
    /// API version 1.2.
    Type1_2,
    /// API version 1.3.
    Type1_3,
}

impl ApiVersion {
    /// The minor number of the version; the major number is always 1.
    pub open spec fn minor(self) -> u32 {
        match self {
            ApiVersion::Type1_1 => 1,
            ApiVersion::Type1_2 => 2,
            ApiVersion::Type1_3 => 3,
        }
    }

    /// The code Vulkan knows the version by: a major number of 1 and the
    /// minor number, each in its field, and nothing else.
    pub open spec fn code(self) -> u32 {
        match self {
            ApiVersion::Type1_1 => 0x0040_1000,
            ApiVersion::Type1_2 => 0x0040_2000,
            ApiVersion::Type1_3 => 0x0040_3000,
        }
    }

    /// The code of an API version is the packed form of 1 and its minor
    /// number.
    pub proof fn lemma_code_is_packed(self)
        ensures
            self.code() == packed_version(0, 1, self.minor(), 0),
    {
        lemma_packed_version_value(0, 1, self.minor(), 0);
    }
}

impl Into<u32> for ApiVersion {
    fn into(self) -> (code: u32) {
        proof {
            self.lemma_code_is_packed();
        }
        match self {
            ApiVersion::Type1_1 => ash::vk::make_api_version(0, 1, 1, 0),
            ApiVersion::Type1_2 => ash::vk::make_api_version(0, 1, 2, 0),
            ApiVersion::Type1_3 => ash::vk::make_api_version(0, 1, 3, 0),
        }
    }
}

impl vstd::std_specs::convert::IntoSpecImpl<u32> for ApiVersion {
    open spec fn obeys_into_spec() -> bool {
        true
    }

    open spec fn into_spec(self) -> u32 {
        self.code()
    }
}

/// The code of a version given as variant, major, minor and patch.
pub open spec fn version_code(version: (u32, u32, u32, u32)) -> u32 {
    packed_version(version.0, version.1, version.2, version.3)
}

/// Optional parameters when creating the instance.
#[derive(Debug)]
pub struct InstanceParameters {
    /// Application name.
    pub app_name: String,
    /// Application version.
    pub app_version: (u32, u32, u32, u32),
    /// Engine name.
    pub engine_name: String,
    /// Engine version.
    pub engine_version: (u32, u32, u32, u32),
    /// API version to be used.
    pub api_version: ApiVersion,
    /// Additional Vulkan layers to be enabled.
    pub extra_layers: Vec<String>,
    /// Additional Vulkan extensions to be enabled.
    pub extra_extensions: Vec<String>,
}

impl Default for InstanceParameters {
    fn default() -> (parameters: Self)
        ensures
            parameters.app_name@ == "wvk"@,
            parameters.app_version == (0u32, 1u32, 0u32, 0u32),
            parameters.engine_name@ == "wvk"@,
            parameters.engine_version == (0u32, 1u32, 0u32, 0u32),
            parameters.api_version == ApiVersion::Type1_2,
            parameters.extra_layers@.len() == 0,
            parameters.extra_extensions@.len() == 0,
    {
        InstanceParameters {
            app_name: "wvk".to_owned(),
            app_version: (0, 1, 0, 0),
            engine_name: "wvk".to_owned(),
            engine_version: (0, 1, 0, 0),
            api_version: ApiVersion::Type1_2,
            extra_layers: Vec::new(),
            extra_extensions: Vec::new(),
        }
    }
}

/// How an application describes itself to Vulkan: names that are fit to be C
/// strings, and version codes.
#[derive(Debug)]
pub struct ApplicationInfo {
    /// Application name.
    pub app_name: String,
    /// Code of the application version.
    pub app_version: u32,
    /// Engine name.
    pub engine_name: String,
    /// Code of the engine version.
    pub engine_version: u32,
    /// Code of the API version.
    pub api_version: u32,
}

/// What an [`ApplicationInfo`] holds.
pub struct ApplicationInfoView {
    pub app_name: Seq<char>,
    pub app_version: u32,
    pub engine_name: Seq<char>,
    pub engine_version: u32,
    pub api_version: u32,
}

impl View for ApplicationInfo {
    type V = ApplicationInfoView;

    open spec fn view(&self) -> ApplicationInfoView {
        ApplicationInfoView {
            app_name: self.app_name@,
            app_version: self.app_version,
            engine_name: self.engine_name@,
            engine_version: self.engine_version,
            api_version: self.api_version,
        }
    }
}

/// All that an instance is created from.
#[derive(Debug)]
pub struct InstanceDescription {
    /// The application, as it describes itself.
    pub application: ApplicationInfo,
    /// The layers to enable, in order.
    pub layers: Vec<String>,
    /// The extensions to enable, in order.
    pub extensions: Vec<String>,
}

/// What an [`InstanceDescription`] holds.
pub struct InstanceDescriptionView {
    pub application: ApplicationInfoView,
    pub layers: Seq<Seq<char>>,
    pub extensions: Seq<Seq<char>>,
}

impl View for InstanceDescription {
    type V = InstanceDescriptionView;

    open spec fn view(&self) -> InstanceDescriptionView {
        InstanceDescriptionView {
            application: self.application@,
            layers: self.layers.deep_view(),
            extensions: self.extensions.deep_view(),
        }
    }
}

/// Why an instance cannot be described.
#[derive(Debug)]
pub enum DescriptionError<E> {
    /// The parameters were rejected.
    Instance(InstanceError),
    /// The window could not tell which extensions it needs.
    Window(E),
}

impl InstanceParameters {
    /// The two names of the application's description, in the order in which
    /// they are checked.
    pub open spec fn application_names(&self) -> Seq<Seq<char>> {
        seq![self.app_name@, self.engine_name@]
    }

    /// The layers that an instance of these parameters enables, in order: the
    /// validation layer, then the additional ones.
    pub open spec fn layer_names(&self) -> Seq<Seq<char>> {
        seq![VALIDATION_LAYER@] + self.extra_layers.deep_view()
    }

    /// The extensions that an instance of these parameters enables, in order:
    /// those that the window needs, the one for debug messages, then the
    /// additional ones.
    pub open spec fn extension_names(&self, required: Seq<Seq<char>>) -> Seq<Seq<char>> {
        required + seq![debug_utils_extension()] + self.extra_extensions.deep_view()
    }

    /// The application as these parameters describe it: both names as they
    /// are, each version as its code.
    pub open spec fn application(&self) -> ApplicationInfoView {
        ApplicationInfoView {
            app_name: self.app_name@,
            app_version: version_code(self.app_version),
            engine_name: self.engine_name@,
            engine_version: version_code(self.engine_version),
            api_version: self.api_version.code(),
        }
    }

    /// The instance that these parameters describe for a window that needs
    /// the extensions `required`.
    pub open spec fn description(&self, required: Seq<Seq<char>>) -> InstanceDescriptionView {
        InstanceDescriptionView {
            application: self.application(),
            layers: self.layer_names(),
            extensions: self.extension_names(required),
        }
    }

    /// The names that are checked before the window is asked what it needs,
    /// in the order in which they are checked: those of the application, then
    /// the additional layers.
    pub open spec fn names_checked_first(&self) -> Seq<Seq<char>> {
        self.application_names() + self.extra_layers.deep_view()
    }

    /// Describes the application: both names as they are, each version as its
    /// code. Fails on the first of application name and engine name that
    /// holds a nul byte.
    pub fn application_info(&self) -> (described: Result<ApplicationInfo, InstanceError>)
        ensures
            match described {
                Ok(info) => all_accepted(self.application_names()) && info@ == self.application(),
                Err(InstanceError::NulError(error)) => error.reports_first_of(
                    self.application_names(),
                ),
            },
    {
        match check_name(self.app_name.as_str()) {
            Ok(()) => {},
            Err(error) => {
                assert(self.application_names()[0] == self.app_name@);
                return Err(InstanceError::NulError(error));
            },
        }
        match check_name(self.engine_name.as_str()) {
            Ok(()) => {},
            Err(error) => {
                assert(self.application_names()[1] == self.engine_name@);
                return Err(InstanceError::NulError(error));
            },
        }
        Ok(
            ApplicationInfo {
                app_name: self.app_name.clone(),
                app_version: ash::vk::make_api_version(
                    self.app_version.0,
                    self.app_version.1,
                    self.app_version.2,
                    self.app_version.3,
                ),
                engine_name: self.engine_name.clone(),
                engine_version: ash::vk::make_api_version(
                    self.engine_version.0,
                    self.engine_version.1,
                    self.engine_version.2,
                    self.engine_version.3,
                ),
                api_version: self.api_version.into(),
            },
        )
    }

    /// Lists the layers to enable, each of them fit to be a C string. The
    /// validation layer always is, so the list fails on the first of the
    /// additional layers that holds a nul byte.
    pub fn enabled_layers(&self) -> (listed: Result<Vec<String>, InstanceError>)
        ensures
            match listed {
                Ok(layers) => {
                    &&& all_accepted(self.extra_layers.deep_view())
                    &&& all_accepted(layers.deep_view())
                    &&& layers.deep_view() == self.layer_names()
                },
                Err(InstanceError::NulError(error)) => error.reports_first_of(
                    self.extra_layers.deep_view(),
                ),
            },
    {
        let mut layers: Vec<String> = Vec::new();
        layers.push(VALIDATION_LAYER.to_owned());
        assert(layers.deep_view() == seq![VALIDATION_LAYER@]);
        append_names(&mut layers, &self.extra_layers);
        match check_names(&layers) {
            Ok(()) => {
                proof {
                    lemma_accepted_parts(seq![VALIDATION_LAYER@], self.extra_layers.deep_view());
                }
                Ok(layers)
            },
            Err(error) => {
                proof {
                    lemma_fixed_names_accepted();
                    lemma_rejected_after_accepted(
                        seq![VALIDATION_LAYER@],
                        self.extra_layers.deep_view(),
                        error,
                    );
                }
                Err(InstanceError::NulError(error))
            },
        }
    }

    /// Lists the extensions to enable, given those that the window needs.
    /// Fails on the first of the additional extensions that holds a nul byte;
    /// the others are taken as they are.
    pub fn enabled_extensions(&self, required: Vec<String>) -> (listed: Result<
        Vec<String>,
        InstanceError,
    >)
        ensures
            match listed {
                Ok(extensions) => {
                    &&& all_accepted(self.extra_extensions.deep_view())
                    &&& extensions.deep_view() == self.extension_names(required.deep_view())
                    &&& all_accepted(required.deep_view()) ==> all_accepted(extensions.deep_view())
                },
                Err(InstanceError::NulError(error)) => error.reports_first_of(
                    self.extra_extensions.deep_view(),
                ),
            },
    {
        let mut extensions = required;
        extensions.push(debug_utils_name());
        assert(extensions.deep_view() == required.deep_view() + seq![debug_utils_extension()]);
        match check_names(&self.extra_extensions) {
            Ok(()) => {},
            Err(error) => {
                return Err(InstanceError::NulError(error));
            },
        }
        append_names(&mut extensions, &self.extra_extensions);
        proof {
            let debug = seq![debug_utils_extension()];
            lemma_fixed_names_accepted();
            lemma_accepted_parts(required.deep_view(), debug);
            lemma_accepted_parts(required.deep_view() + debug, self.extra_extensions.deep_view());
        }
        Ok(extensions)
    }

    /// Describes the instance to create, given what the window answered when
    /// it was asked for the extensions it needs. The first failure in this
    /// order is the one returned: a rejected name of the application, a
    /// rejected additional layer, the failure of the window, a rejected
    /// additional extension.
    pub fn describe<E>(&self, required: Result<Vec<String>, E>) -> (described: Result<
        InstanceDescription,
        DescriptionError<E>,
    >)
        ensures
            match described {
                Ok(description) => {
                    &&& all_accepted(self.names_checked_first())
                    &&& all_accepted(self.extra_extensions.deep_view())
                    &&& required matches Ok(names)
                    &&& description@ == self.description(names.deep_view())
                    &&& all_accepted(description@.layers)
                    &&& all_accepted(names.deep_view()) ==> all_accepted(description@.extensions)
                },
                Err(DescriptionError::Instance(InstanceError::NulError(error))) => {
                    ||| error.reports_first_of(self.names_checked_first())
                    ||| {
                        &&& all_accepted(self.names_checked_first())
                        &&& required is Ok
                        &&& error.reports_first_of(self.extra_extensions.deep_view())
                    }
                },
                Err(DescriptionError::Window(failure)) => {
                    &&& all_accepted(self.names_checked_first())
                    &&& required matches Err(cause)
                    &&& failure == cause
                },
            },
    {
        let application = match self.application_info() {
            Ok(application) => application,
            Err(error) => {
                proof {
                    let InstanceError::NulError(rejected) = error;
                    lemma_rejected_first(
                        self.application_names(),
                        self.extra_layers.deep_view(),
                        rejected,
                    );
                }
                return Err(DescriptionError::Instance(error));
            },
        };
        let layers = match self.enabled_layers() {
            Ok(layers) => layers,
            Err(error) => {
                proof {
                    let InstanceError::NulError(rejected) = error;
                    lemma_rejected_after_accepted(
                        self.application_names(),
                        self.extra_layers.deep_view(),
                        rejected,
                    );
                }
                return Err(DescriptionError::Instance(error));
            },
        };
        proof {
            lemma_accepted_parts(self.application_names(), self.extra_layers.deep_view());
        }
        let required = match required {
            Ok(names) => names,
            Err(failure) => {
                return Err(DescriptionError::Window(failure));
            },
        };
        let extensions = match self.enabled_extensions(required) {
            Ok(extensions) => extensions,
            Err(error) => {
                return Err(DescriptionError::Instance(error));
            },
        };
        Ok(InstanceDescription { application, layers, extensions })
    }
}

/// The two names that every instance enables, the validation layer and the
/// extension for debug messages, are fit to be C strings.
proof fn lemma_fixed_names_accepted()
    ensures
        all_accepted(seq![VALIDATION_LAYER@]),
        all_accepted(seq![debug_utils_extension()]),
{
    reveal_strlit("VK_LAYER_KHRONOS_validation");
    reveal_strlit("VK_EXT_debug_utils");
    lemma_nul_byte_is_nul_char(VALIDATION_LAYER@);
    lemma_nul_byte_is_nul_char(debug_utils_extension());
    assert(seq![VALIDATION_LAYER@][0] == VALIDATION_LAYER@);
    assert(seq![debug_utils_extension()][0] == debug_utils_extension());
}

/// Appends a copy of each name of `names` to `list`.
fn append_names(list: &mut Vec<String>, names: &Vec<String>)
    ensures
        final(list).deep_view() == old(list).deep_view() + names.deep_view(),
{
    let mut k: usize = 0;
    while k < names.len()
        invariant
            k <= names@.len(),
            list.deep_view() == old(list).deep_view() + names.deep_view().take(k as int),
        decreases names@.len() - k,
    {
        let ghost before = list.deep_view();
        list.push(names[k].clone());
        proof {
            let added = names.deep_view();
            assert(list.deep_view() =~= before.push(added[k as int]));
            assert(added.take(k + 1) =~= added.take(k as int).push(added[k as int]));
        }
        k += 1;
    }
}

} // verus!
