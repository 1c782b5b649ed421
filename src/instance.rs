//! Instance configuration: which instance extensions and layers to enable.
use vstd::prelude::*;

verus! {

/// Configuration of the Vulkan instance.
pub struct InstanceBuilder {
    /// Extensions the windowing system needs, enabled after the backend's own.
    pub required_extensions: Vec<String>,
    /// Whether to enable the validation layer and the debug messenger.
    pub validation_layers: bool,
}

/// The names of a list of strings.
pub open spec fn names(s: Seq<String>) -> Seq<Seq<char>> {
    s.map_values(|x: String| x@)
}

/// The instance extensions to enable: physical-device properties 2, debug
/// utils when validating, then the required ones.
pub open spec fn enabled_instance_extensions(validation: bool, required: Seq<Seq<char>>) -> Seq<
    Seq<char>,
> {
    let debug = if validation {
        seq!["VK_EXT_debug_utils"@]
    } else {
        Seq::empty()
    };
    seq!["VK_KHR_get_physical_device_properties2"@] + debug + required
}

/// The instance layers to enable: the validation layer when validating.
pub open spec fn enabled_instance_layers(validation: bool) -> Seq<Seq<char>> {
    if validation {
        seq!["VK_LAYER_KHRONOS_validation"@]
    } else {
        Seq::empty()
    }
}

impl Default for InstanceBuilder {
    /// No required extensions, no validation.
    fn default() -> (r: InstanceBuilder)
        ensures
            r.required_extensions@.len() == 0,
            !r.validation_layers,
    {
        InstanceBuilder { required_extensions: Vec::new(), validation_layers: false }
    }
}

impl InstanceBuilder {
    pub fn required_extensions(self, extensions: Vec<String>) -> (r: InstanceBuilder)
        ensures
            r.required_extensions == extensions,
            r.validation_layers == self.validation_layers,
    {
        InstanceBuilder { required_extensions: extensions, ..self }
    }

    pub fn enable_validation_layers(self, should_enable: bool) -> (r: InstanceBuilder)
        ensures
            r.required_extensions == self.required_extensions,
            r.validation_layers == should_enable,
    {
        InstanceBuilder { validation_layers: should_enable, ..self }
    }

    /// The names of the instance extensions to enable.
    pub fn extensions(&self) -> (r: Vec<String>)
        ensures
            names(r@) == enabled_instance_extensions(
                self.validation_layers,
                names(self.required_extensions@),
            ),
    {
        let mut r: Vec<String> = Vec::new();
        r.push("VK_KHR_get_physical_device_properties2".to_owned());
        if self.validation_layers {
            r.push("VK_EXT_debug_utils".to_owned());
        }
        let ghost base = names(r@);
        let mut i: usize = 0;
        while i < self.required_extensions.len()
            invariant
                i <= self.required_extensions@.len(),
                names(r@) == base + names(self.required_extensions@).subrange(0, i as int),
            decreases self.required_extensions@.len() - i,
        {
            let ghost prev = r@;
            let name = self.required_extensions[i].clone();
            assert(name@ == names(self.required_extensions@)[i as int]);
            r.push(name);
            assert(names(r@) =~= names(prev).push(name@));
            i += 1;
            assert(names(r@) =~= base + names(self.required_extensions@).subrange(0, i as int));
        }
        assert(names(self.required_extensions@).subrange(
            0,
            self.required_extensions@.len() as int,
        ) =~= names(self.required_extensions@));
        assert(base =~= seq!["VK_KHR_get_physical_device_properties2"@] + (if self.validation_layers {
            seq!["VK_EXT_debug_utils"@]
        } else {
            Seq::empty()
        }));
        r
    }

    /// The names of the instance layers to enable.
    pub fn layers(&self) -> (r: Vec<String>)
        ensures
            names(r@) == enabled_instance_layers(self.validation_layers),
    {
        let mut r: Vec<String> = Vec::new();
        if self.validation_layers {
            r.push("VK_LAYER_KHRONOS_validation".to_owned());
        }
        assert(names(r@) =~= enabled_instance_layers(self.validation_layers));
        r
    }
}

} // verus!
