//! Device context: queue-family selection, capability checks, and the
//! CPU-side view of the pacing (timeline) semaphore.
use crate::swapchain::SwapchainSync;
use crate::FRAMES_IN_FLIGHT;
use ash::vk;
use vstd::prelude::*;

verus! {

/// A queue of the logical device and the family it was taken from.
#[derive(Clone, Copy, Debug)]
pub struct DeviceQueue {
    pub raw: vk::Queue,
    pub family: u32,
}

/// The kinds of work that one queue family reports it can take.
#[derive(Clone, Copy, Debug, PartialEq, Eq, Structural)]
pub struct QueueFamilyCaps {
    pub graphics: bool,
    pub compute: bool,
    pub transfer: bool,
}

/// The three queues the device context owns.
#[derive(Clone, Copy, Debug, PartialEq, Eq, Structural)]
pub enum QueueRole {
    Graphics,
    Compute,
    Transfer,
}

/// Whether a family is a candidate for a role. Compute and transfer prefer
/// families dedicated to them: one that also does graphics is not a candidate.
pub open spec fn serves(c: QueueFamilyCaps, role: QueueRole) -> bool {
    match role {
        QueueRole::Graphics => c.graphics,
        QueueRole::Compute => !c.graphics && c.compute,
        QueueRole::Transfer => !c.graphics && !c.compute && c.transfer,
    }
}

pub open spec fn has_family(s: Seq<QueueFamilyCaps>, role: QueueRole) -> bool {
    exists|i: int| 0 <= i < s.len() && #[trigger] serves(s[i], role)
}

/// `i` is the first family, in enumeration order, that serves `role`.
pub open spec fn is_first_family(s: Seq<QueueFamilyCaps>, role: QueueRole, i: int) -> bool {
    &&& 0 <= i < s.len()
    &&& serves(s[i], role)
    &&& forall|j: int| 0 <= j < i ==> !#[trigger] serves(s[j], role)
}

/// The family chosen for `role`: the first dedicated one, else the fallback.
pub open spec fn family_choice(
    s: Seq<QueueFamilyCaps>,
    role: QueueRole,
    fallback: int,
    chosen: int,
) -> bool {
    if has_family(s, role) {
        is_first_family(s, role, chosen)
    } else {
        chosen == fallback
    }
}

/// The family index used for each of the three queues.
#[derive(Clone, Copy, Debug, PartialEq, Eq, Structural)]
pub struct QueueFamilies {
    pub graphics: u32,
    pub compute: u32,
    pub transfer: u32,
}

/// Compute and transfer fall back to the graphics family when no dedicated
/// family exists.
pub open spec fn families_chosen(s: Seq<QueueFamilyCaps>, f: QueueFamilies) -> bool {
    &&& is_first_family(s, QueueRole::Graphics, f.graphics as int)
    &&& family_choice(s, QueueRole::Compute, f.graphics as int, f.compute as int)
    &&& family_choice(s, QueueRole::Transfer, f.graphics as int, f.transfer as int)
}

/// The families in the order graphics, compute, transfer, each kept once.
pub open spec fn unique_family_list(f: QueueFamilies) -> Seq<u32> {
    let a = seq![f.graphics];
    let b = if a.contains(f.compute) { a } else { a.push(f.compute) };
    if b.contains(f.transfer) { b } else { b.push(f.transfer) }
}

/// Why a device context could not be created.
#[derive(Clone, Copy, Debug, PartialEq, Eq, Structural)]
pub enum DeviceError {
    NoSuitableAdapter,
    NoGraphicsQueue,
    MissingExtension(DeviceExtension),
    MissingRequiredFeature(RequiredFeature),
}

fn serves_role(c: &QueueFamilyCaps, role: QueueRole) -> (r: bool)
    ensures
        r == serves(*c, role),
{
    match role {
        QueueRole::Graphics => c.graphics,
        QueueRole::Compute => !c.graphics && c.compute,
        QueueRole::Transfer => !c.graphics && !c.compute && c.transfer,
    }
}

/// The first family, in enumeration order, that serves `role`.
pub fn first_family(families: &Vec<QueueFamilyCaps>, role: QueueRole) -> (r: Option<u32>)
    requires
        families@.len() <= u32::MAX,
    ensures
        match r {
            Some(i) => is_first_family(families@, role, i as int),
            None => !has_family(families@, role),
        },
{
    let mut i: usize = 0;
    while i < families.len()
        invariant
            i <= families@.len() <= u32::MAX,
            forall|j: int| 0 <= j < i ==> !#[trigger] serves(families@[j], role),
        decreases families@.len() - i,
    {
        if serves_role(&families[i], role) {
            return Some(i as u32);
        }
        i += 1;
    }
    None
}

/// Picks the graphics, compute and transfer families. Fails when no family
/// supports graphics work.
pub fn select_queue_families(families: &Vec<QueueFamilyCaps>) -> (r: Result<
    QueueFamilies,
    DeviceError,
>)
    requires
        families@.len() <= u32::MAX,
    ensures
        r is Err <==> !has_family(families@, QueueRole::Graphics),
        r is Err ==> r->Err_0 == DeviceError::NoGraphicsQueue,
        r is Ok ==> families_chosen(families@, r->Ok_0),
{
    let graphics = match first_family(families, QueueRole::Graphics) {
        Some(g) => g,
        None => return Err(DeviceError::NoGraphicsQueue),
    };
    let compute = match first_family(families, QueueRole::Compute) {
        Some(c) => c,
        None => graphics,
    };
    let transfer = match first_family(families, QueueRole::Transfer) {
        Some(t) => t,
        None => graphics,
    };
    Ok(QueueFamilies { graphics, compute, transfer })
}

/// The families to create queues from, each listed once.
pub fn unique_queue_families(f: &QueueFamilies) -> (r: Vec<u32>)
    ensures
        r@ == unique_family_list(*f),
        r@.no_duplicates(),
        r@.to_set() == set![f.graphics, f.compute, f.transfer],
{
    let mut r: Vec<u32> = Vec::new();
    r.push(f.graphics);
    if f.compute != f.graphics {
        r.push(f.compute);
    }
    if f.transfer != f.graphics && f.transfer != f.compute {
        r.push(f.transfer);
    }
    proof {
        let a = seq![f.graphics];
        assert(a[0] == f.graphics);
        assert(a.contains(f.compute) <==> f.compute == f.graphics) by {
            if f.compute == f.graphics {
                assert(a[0] == f.compute);
            }
        }
        let b = if a.contains(f.compute) { a } else { a.push(f.compute) };
        assert(b.contains(f.transfer) <==> (f.transfer == f.graphics || f.transfer == f.compute)) by {
            if f.transfer == f.graphics {
                assert(b[0] == f.transfer);
            } else if f.transfer == f.compute {
                assert(b[b.len() - 1] == f.transfer);
            }
        }
        assert(r@ =~= unique_family_list(*f));
        assert(r@.to_set() =~= set![f.graphics, f.compute, f.transfer]) by {
            assert forall|x: u32| r@.contains(x) <==> set![f.graphics, f.compute, f.transfer].contains(x) by {
                if x == f.graphics {
                    assert(r@[0] == x);
                } else if x == f.compute {
                    assert(r@[1] == x);
                } else if x == f.transfer {
                    assert(r@[r@.len() - 1] == x);
                }
            }
        }
    }
    r
}

/// Device extensions the backend cannot run without.
#[derive(Clone, Copy, Debug, PartialEq, Eq, Structural)]
pub enum DeviceExtension {
    Swapchain,
    TimelineSemaphore,
    DescriptorIndexing,
    Synchronization2,
}

impl DeviceExtension {
    pub open spec fn spec_name(self) -> Seq<char> {
        match self {
            DeviceExtension::Swapchain => "VK_KHR_swapchain"@,
            DeviceExtension::TimelineSemaphore => "VK_KHR_timeline_semaphore"@,
            DeviceExtension::DescriptorIndexing => "VK_EXT_descriptor_indexing"@,
            DeviceExtension::Synchronization2 => "VK_KHR_synchronization2"@,
        }
    }

    /// The registry name of the extension.
    pub fn name(&self) -> (r: &'static str)
        ensures
            r@ == self.spec_name(),
    {
        match self {
            DeviceExtension::Swapchain => "VK_KHR_swapchain",
            DeviceExtension::TimelineSemaphore => "VK_KHR_timeline_semaphore",
            DeviceExtension::DescriptorIndexing => "VK_EXT_descriptor_indexing",
            DeviceExtension::Synchronization2 => "VK_KHR_synchronization2",
        }
    }
}

pub open spec fn required_device_extensions() -> Seq<DeviceExtension> {
    seq![
        DeviceExtension::Swapchain,
        DeviceExtension::TimelineSemaphore,
        DeviceExtension::DescriptorIndexing,
        DeviceExtension::Synchronization2,
    ]
}

/// The extensions enabled on every logical device, in the order they are
/// checked.
pub fn required_extensions() -> (r: Vec<DeviceExtension>)
    ensures
        r@ == required_device_extensions(),
{
    let mut r: Vec<DeviceExtension> = Vec::new();
    r.push(DeviceExtension::Swapchain);
    r.push(DeviceExtension::TimelineSemaphore);
    r.push(DeviceExtension::DescriptorIndexing);
    r.push(DeviceExtension::Synchronization2);
    assert(r@ =~= required_device_extensions());
    r
}

/// Whether the adapter lists an extension of this name.
pub open spec fn lists_extension(supported: Seq<String>, name: Seq<char>) -> bool {
    exists|k: int| 0 <= k < supported.len() && (#[trigger] supported[k])@ == name
}

/// The first required extension, from position `i` on, that is not listed.
pub open spec fn missing_extension_from(supported: Seq<String>, i: nat) -> Option<DeviceExtension>
    decreases required_device_extensions().len() - i,
{
    if i >= required_device_extensions().len() {
        None
    } else if !lists_extension(supported, required_device_extensions()[i as int].spec_name()) {
        Some(required_device_extensions()[i as int])
    } else {
        missing_extension_from(supported, i + 1)
    }
}

/// The first required extension that the adapter does not list, if any.
pub open spec fn missing_extension(supported: Seq<String>) -> Option<DeviceExtension> {
    missing_extension_from(supported, 0)
}

fn lists_name(supported: &Vec<String>, name: &str) -> (r: bool)
    ensures
        r == lists_extension(supported@, name@),
{
    let wanted: String = name.to_owned();
    let mut k: usize = 0;
    while k < supported.len()
        invariant
            k <= supported@.len(),
            wanted@ == name@,
            forall|j: int| 0 <= j < k ==> (#[trigger] supported@[j])@ != name@,
        decreases supported@.len() - k,
    {
        if supported[k].eq(&wanted) {
            return true;
        }
        k += 1;
    }
    false
}

/// The first required extension that `supported` lacks.
pub fn first_missing_extension(supported: &Vec<String>) -> (r: Option<DeviceExtension>)
    ensures
        r == missing_extension(supported@),
{
    let required = required_extensions();
    let mut i: usize = 0;
    while i < required.len()
        invariant
            i <= required@.len(),
            required@ == required_device_extensions(),
            missing_extension(supported@) == missing_extension_from(supported@, i as nat),
        decreases required@.len() - i,
    {
        let ext = required[i];
        if !lists_name(supported, ext.name()) {
            return Some(ext);
        }
        i += 1;
    }
    None
}

/// Device features the backend asserts as non-negotiable.
#[derive(Clone, Copy, Debug, PartialEq, Eq, Structural)]
pub enum RequiredFeature {
    TimelineSemaphore,
    ShaderUniformTexelBufferArrayDynamicIndexing,
    ShaderStorageTexelBufferArrayDynamicIndexing,
    ShaderSampledImageArrayNonUniformIndexing,
    ShaderStorageImageArrayNonUniformIndexing,
    ShaderUniformTexelBufferArrayNonUniformIndexing,
    ShaderStorageTexelBufferArrayNonUniformIndexing,
    DescriptorBindingSampledImageUpdateAfterBind,
    DescriptorBindingUpdateUnusedWhilePending,
    DescriptorBindingPartiallyBound,
    DescriptorBindingVariableDescriptorCount,
    RuntimeDescriptorArray,
}

/// What the adapter reports of the features the backend needs.
#[derive(Clone, Copy, Debug, PartialEq, Eq, Structural)]
pub struct DeviceFeatures {
    pub timeline_semaphore: bool,
    pub shader_uniform_texel_buffer_array_dynamic_indexing: bool,
    pub shader_storage_texel_buffer_array_dynamic_indexing: bool,
    pub shader_sampled_image_array_non_uniform_indexing: bool,
    pub shader_storage_image_array_non_uniform_indexing: bool,
    pub shader_uniform_texel_buffer_array_non_uniform_indexing: bool,
    pub shader_storage_texel_buffer_array_non_uniform_indexing: bool,
    pub descriptor_binding_sampled_image_update_after_bind: bool,
    pub descriptor_binding_update_unused_while_pending: bool,
    pub descriptor_binding_partially_bound: bool,
    pub descriptor_binding_variable_descriptor_count: bool,
    pub runtime_descriptor_array: bool,
}

impl DeviceFeatures {
    pub open spec fn spec_has(self, f: RequiredFeature) -> bool {
        match f {
            RequiredFeature::TimelineSemaphore => self.timeline_semaphore,
            RequiredFeature::ShaderUniformTexelBufferArrayDynamicIndexing => self.shader_uniform_texel_buffer_array_dynamic_indexing,
            RequiredFeature::ShaderStorageTexelBufferArrayDynamicIndexing => self.shader_storage_texel_buffer_array_dynamic_indexing,
            RequiredFeature::ShaderSampledImageArrayNonUniformIndexing => self.shader_sampled_image_array_non_uniform_indexing,
            RequiredFeature::ShaderStorageImageArrayNonUniformIndexing => self.shader_storage_image_array_non_uniform_indexing,
            RequiredFeature::ShaderUniformTexelBufferArrayNonUniformIndexing => self.shader_uniform_texel_buffer_array_non_uniform_indexing,
            RequiredFeature::ShaderStorageTexelBufferArrayNonUniformIndexing => self.shader_storage_texel_buffer_array_non_uniform_indexing,
            RequiredFeature::DescriptorBindingSampledImageUpdateAfterBind => self.descriptor_binding_sampled_image_update_after_bind,
            RequiredFeature::DescriptorBindingUpdateUnusedWhilePending => self.descriptor_binding_update_unused_while_pending,
            RequiredFeature::DescriptorBindingPartiallyBound => self.descriptor_binding_partially_bound,
            RequiredFeature::DescriptorBindingVariableDescriptorCount => self.descriptor_binding_variable_descriptor_count,
            RequiredFeature::RuntimeDescriptorArray => self.runtime_descriptor_array,
        }
    }

    /// Whether the adapter reports `f` as supported.
    pub fn has(&self, f: RequiredFeature) -> (r: bool)
        ensures
            r == self.spec_has(f),
    {
        match f {
            RequiredFeature::TimelineSemaphore => self.timeline_semaphore,
            RequiredFeature::ShaderUniformTexelBufferArrayDynamicIndexing => self.shader_uniform_texel_buffer_array_dynamic_indexing,
            RequiredFeature::ShaderStorageTexelBufferArrayDynamicIndexing => self.shader_storage_texel_buffer_array_dynamic_indexing,
            RequiredFeature::ShaderSampledImageArrayNonUniformIndexing => self.shader_sampled_image_array_non_uniform_indexing,
            RequiredFeature::ShaderStorageImageArrayNonUniformIndexing => self.shader_storage_image_array_non_uniform_indexing,
            RequiredFeature::ShaderUniformTexelBufferArrayNonUniformIndexing => self.shader_uniform_texel_buffer_array_non_uniform_indexing,
            RequiredFeature::ShaderStorageTexelBufferArrayNonUniformIndexing => self.shader_storage_texel_buffer_array_non_uniform_indexing,
            RequiredFeature::DescriptorBindingSampledImageUpdateAfterBind => self.descriptor_binding_sampled_image_update_after_bind,
            RequiredFeature::DescriptorBindingUpdateUnusedWhilePending => self.descriptor_binding_update_unused_while_pending,
            RequiredFeature::DescriptorBindingPartiallyBound => self.descriptor_binding_partially_bound,
            RequiredFeature::DescriptorBindingVariableDescriptorCount => self.descriptor_binding_variable_descriptor_count,
            RequiredFeature::RuntimeDescriptorArray => self.runtime_descriptor_array,
        }
    }
}

pub open spec fn required_device_features() -> Seq<RequiredFeature> {
    seq![
        RequiredFeature::TimelineSemaphore,
        RequiredFeature::ShaderUniformTexelBufferArrayDynamicIndexing,
        RequiredFeature::ShaderStorageTexelBufferArrayDynamicIndexing,
        RequiredFeature::ShaderSampledImageArrayNonUniformIndexing,
        RequiredFeature::ShaderStorageImageArrayNonUniformIndexing,
        RequiredFeature::ShaderUniformTexelBufferArrayNonUniformIndexing,
        RequiredFeature::ShaderStorageTexelBufferArrayNonUniformIndexing,
        RequiredFeature::DescriptorBindingSampledImageUpdateAfterBind,
        RequiredFeature::DescriptorBindingUpdateUnusedWhilePending,
        RequiredFeature::DescriptorBindingPartiallyBound,
        RequiredFeature::DescriptorBindingVariableDescriptorCount,
        RequiredFeature::RuntimeDescriptorArray,
    ]
}

/// The required features, in the order they are checked.
pub fn required_features() -> (r: Vec<RequiredFeature>)
    ensures
        r@ == required_device_features(),
{
    let mut r: Vec<RequiredFeature> = Vec::new();
    r.push(RequiredFeature::TimelineSemaphore);
    r.push(RequiredFeature::ShaderUniformTexelBufferArrayDynamicIndexing);
    r.push(RequiredFeature::ShaderStorageTexelBufferArrayDynamicIndexing);
    r.push(RequiredFeature::ShaderSampledImageArrayNonUniformIndexing);
    r.push(RequiredFeature::ShaderStorageImageArrayNonUniformIndexing);
    r.push(RequiredFeature::ShaderUniformTexelBufferArrayNonUniformIndexing);
    r.push(RequiredFeature::ShaderStorageTexelBufferArrayNonUniformIndexing);
    r.push(RequiredFeature::DescriptorBindingSampledImageUpdateAfterBind);
    r.push(RequiredFeature::DescriptorBindingUpdateUnusedWhilePending);
    r.push(RequiredFeature::DescriptorBindingPartiallyBound);
    r.push(RequiredFeature::DescriptorBindingVariableDescriptorCount);
    r.push(RequiredFeature::RuntimeDescriptorArray);
    assert(r@ =~= required_device_features());
    r
}

/// The first required feature, from position `i` on, that is unsupported.
pub open spec fn missing_feature_from(f: DeviceFeatures, i: nat) -> Option<RequiredFeature>
    decreases required_device_features().len() - i,
{
    if i >= required_device_features().len() {
        None
    } else if !f.spec_has(required_device_features()[i as int]) {
        Some(required_device_features()[i as int])
    } else {
        missing_feature_from(f, i + 1)
    }
}

/// The first required feature that the adapter lacks, if any.
pub open spec fn missing_feature(f: DeviceFeatures) -> Option<RequiredFeature> {
    missing_feature_from(f, 0)
}

/// The first required feature that `features` lacks.
pub fn first_missing_feature(features: &DeviceFeatures) -> (r: Option<RequiredFeature>)
    ensures
        r == missing_feature(*features),
{
    let required = required_features();
    let mut i: usize = 0;
    while i < required.len()
        invariant
            i <= required@.len(),
            required@ == required_device_features(),
            missing_feature(*features) == missing_feature_from(*features, i as nat),
        decreases required@.len() - i,
    {
        let f = required[i];
        if !features.has(f) {
            return Some(f);
        }
        i += 1;
    }
    None
}

/// What the chosen adapter reports, from which a logical device is planned.
pub struct DeviceBuilder {
    pub queue_families: Vec<QueueFamilyCaps>,
    pub supported_extensions: Vec<String>,
    pub features: DeviceFeatures,
}

/// Everything needed to create the logical device, decided before any
/// native object exists.
pub struct DevicePlan {
    pub families: QueueFamilies,
    /// One queue is created from each of these families.
    pub unique_families: Vec<u32>,
    pub extensions: Vec<DeviceExtension>,
}

impl DeviceBuilder {
    pub fn new(
        queue_families: Vec<QueueFamilyCaps>,
        supported_extensions: Vec<String>,
        features: DeviceFeatures,
    ) -> (r: DeviceBuilder)
        ensures
            r.queue_families == queue_families,
            r.supported_extensions == supported_extensions,
            r.features == features,
    {
        DeviceBuilder { queue_families, supported_extensions, features }
    }

    /// Validates the adapter and plans the logical device. Checks run in the
    /// order graphics queue, extensions, features; the first failure is
    /// reported.
    pub fn build(&self) -> (r: Result<DevicePlan, DeviceError>)
        requires
            self.queue_families@.len() <= u32::MAX,
        ensures
            !has_family(self.queue_families@, QueueRole::Graphics) ==> r == Err::<
                DevicePlan,
                DeviceError,
            >(DeviceError::NoGraphicsQueue),
            has_family(self.queue_families@, QueueRole::Graphics) && missing_extension(
                self.supported_extensions@,
            ) is Some ==> r == Err::<DevicePlan, DeviceError>(
                DeviceError::MissingExtension(missing_extension(self.supported_extensions@)->0),
            ),
            has_family(self.queue_families@, QueueRole::Graphics) && missing_extension(
                self.supported_extensions@,
            ) is None && missing_feature(self.features) is Some ==> r == Err::<
                DevicePlan,
                DeviceError,
            >(DeviceError::MissingRequiredFeature(missing_feature(self.features)->0)),
            has_family(self.queue_families@, QueueRole::Graphics) && missing_extension(
                self.supported_extensions@,
            ) is None && missing_feature(self.features) is None ==> r is Ok,
            r matches Ok(plan) ==> {
                &&& families_chosen(self.queue_families@, plan.families)
                &&& plan.unique_families@ == unique_family_list(plan.families)
                &&& plan.extensions@ == required_device_extensions()
            },
    {
        let families = match select_queue_families(&self.queue_families) {
            Ok(f) => f,
            Err(e) => return Err(e),
        };
        match first_missing_extension(&self.supported_extensions) {
            Some(ext) => return Err(DeviceError::MissingExtension(ext)),
            None => {},
        }
        match first_missing_feature(&self.features) {
            Some(f) => return Err(DeviceError::MissingRequiredFeature(f)),
            None => {},
        }
        let unique_families = unique_queue_families(&families);
        let extensions = required_extensions();
        Ok(DevicePlan { families, unique_families, extensions })
    }
}

/// The value the pacing semaphore must reach before frame `frame` may reuse
/// its slot: the signal of the frame `FRAMES_IN_FLIGHT` back. Early frames
/// have nothing to wait for.
pub open spec fn pacing_wait_value(frame: int) -> Option<int> {
    if frame >= FRAMES_IN_FLIGHT {
        Some(frame - FRAMES_IN_FLIGHT + 1)
    } else {
        None
    }
}

/// The value that the submission of frame `frame` signals on completion.
pub open spec fn frame_signal_value(frame: int) -> int {
    frame + 1
}

/// The abstract state of a device context.
pub struct DeviceState {
    /// Frames finished so far; starts at 0 and only ever grows by one.
    pub frame_index: nat,
    /// The highest pacing value the GPU is known to have reached.
    pub completed_value: nat,
    pub graphics_queue: DeviceQueue,
    pub compute_queue: DeviceQueue,
    pub transfer_queue: DeviceQueue,
    pub timeline_semaphore: vk::Semaphore,
    pub command_pools: Seq<vk::CommandPool>,
    pub command_buffers: Seq<vk::CommandBuffer>,
}

impl DeviceState {
    /// The state after one more finished frame.
    pub open spec fn advanced(self) -> DeviceState {
        DeviceState { frame_index: self.frame_index + 1, ..self }
    }

    /// The current frame's slot is no longer in use by the GPU.
    pub open spec fn slot_retired(self) -> bool {
        match pacing_wait_value(self.frame_index as int) {
            None => true,
            Some(v) => self.completed_value >= v,
        }
    }
}

/// The device context: queues, the pacing semaphore, one command buffer per
/// frame slot, and the absolute frame counter.
pub struct Device {
    graphics_queue: DeviceQueue,
    compute_queue: DeviceQueue,
    transfer_queue: DeviceQueue,
    graphics_timeline_semaphore: vk::Semaphore,
    absolute_frame_index: usize,
    completed_value: u64,
    command_pools: Vec<vk::CommandPool>,
    command_buffers: Vec<vk::CommandBuffer>,
}

impl View for Device {
    type V = DeviceState;

    closed spec fn view(&self) -> DeviceState {
        DeviceState {
            frame_index: self.absolute_frame_index as nat,
            completed_value: self.completed_value as nat,
            graphics_queue: self.graphics_queue,
            compute_queue: self.compute_queue,
            transfer_queue: self.transfer_queue,
            timeline_semaphore: self.graphics_timeline_semaphore,
            command_pools: self.command_pools@,
            command_buffers: self.command_buffers@,
        }
    }
}

/// Handles and semaphore values for the one graphics submission of a frame.
#[derive(Clone, Copy, Debug)]
pub struct FrameSubmission {
    /// Waited on at the color-attachment-output stage: the image is ready.
    pub wait_semaphore: vk::Semaphore,
    /// Signalled when rendering is done; presentation waits on it.
    pub signal_semaphore: vk::Semaphore,
    pub timeline_semaphore: vk::Semaphore,
    /// The pacing value to wait for, once there is a frame to wait for.
    pub timeline_wait_value: Option<u64>,
    /// The pacing value signalled when this frame's work completes.
    pub timeline_signal_value: u64,
}

impl Device {
    #[verifier::type_invariant]
    spec fn inv(self) -> bool {
        &&& self.command_pools@.len() == FRAMES_IN_FLIGHT
        &&& self.command_buffers@.len() == FRAMES_IN_FLIGHT
    }

    /// Assembles the context from the objects created for `plan`: a queue
    /// from each of its families, the pacing semaphore, and one command pool
    /// with one buffer per frame slot. The frame counter starts at 0 and no
    /// pacing value has been seen.
    pub fn new(
        plan: &DevicePlan,
        graphics_queue: DeviceQueue,
        compute_queue: DeviceQueue,
        transfer_queue: DeviceQueue,
        timeline_semaphore: vk::Semaphore,
        command_pools: Vec<vk::CommandPool>,
        command_buffers: Vec<vk::CommandBuffer>,
    ) -> (r: Device)
        requires
            graphics_queue.family == plan.families.graphics,
            compute_queue.family == plan.families.compute,
            transfer_queue.family == plan.families.transfer,
            command_pools@.len() == FRAMES_IN_FLIGHT,
            command_buffers@.len() == FRAMES_IN_FLIGHT,
        ensures
            r@ == (DeviceState {
                frame_index: 0,
                completed_value: 0,
                graphics_queue,
                compute_queue,
                transfer_queue,
                timeline_semaphore,
                command_pools: command_pools@,
                command_buffers: command_buffers@,
            }),
            r@.graphics_queue.family == plan.families.graphics,
            r@.compute_queue.family == plan.families.compute,
            r@.transfer_queue.family == plan.families.transfer,
    {
        Device {
            graphics_queue,
            compute_queue,
            transfer_queue,
            graphics_timeline_semaphore: timeline_semaphore,
            absolute_frame_index: 0,
            completed_value: 0,
            command_pools,
            command_buffers,
        }
    }

    pub fn graphics_queue(&self) -> (r: DeviceQueue)
        ensures
            r == self@.graphics_queue,
    {
        self.graphics_queue
    }

    pub fn compute_queue(&self) -> (r: DeviceQueue)
        ensures
            r == self@.compute_queue,
    {
        self.compute_queue
    }

    pub fn transfer_queue(&self) -> (r: DeviceQueue)
        ensures
            r == self@.transfer_queue,
    {
        self.transfer_queue
    }

    pub fn timeline_semaphore(&self) -> (r: vk::Semaphore)
        ensures
            r == self@.timeline_semaphore,
    {
        self.graphics_timeline_semaphore
    }

    /// The per-slot command pools, for destruction at shutdown.
    pub fn command_pools(&self) -> (r: &Vec<vk::CommandPool>)
        ensures
            r@ == self@.command_pools,
    {
        &self.command_pools
    }

    /// The number of frames finished so far.
    pub fn absolute_frame_index(&self) -> (r: usize)
        ensures
            r == self@.frame_index,
    {
        self.absolute_frame_index
    }

    /// The pacing value to wait for before frame `absolute_frame_index` may
    /// start: `None` for the first `FRAMES_IN_FLIGHT` frames, else the value
    /// signalled by the frame `FRAMES_IN_FLIGHT` back.
    pub fn begin_frame(&self, absolute_frame_index: usize) -> (r: Option<u64>)
        ensures
            match r {
                Some(v) => pacing_wait_value(absolute_frame_index as int) == Some(v as int),
                None => pacing_wait_value(absolute_frame_index as int) is None,
            },
    {
        if absolute_frame_index >= FRAMES_IN_FLIGHT {
            Some((absolute_frame_index - FRAMES_IN_FLIGHT + 1) as u64)
        } else {
            None
        }
    }

    /// Records that the pacing semaphore has been seen at `value` or above
    /// (a wait on it returned, or its counter was read).
    pub fn observe_pacing_value(&mut self, value: u64)
        ensures
            final(self)@ == (DeviceState {
                completed_value: if value > old(self)@.completed_value {
                    value as nat
                } else {
                    old(self)@.completed_value
                },
                ..old(self)@
            }),
    {
        proof {
            use_type_invariant(&*self);
        }
        if value > self.completed_value {
            self.completed_value = value;
        }
    }

    /// Whether the command resources of the current frame's slot may be
    /// reset: the GPU has retired the frame that used the slot before.
    pub fn pool_reuse_safe(&self) -> (r: bool)
        ensures
            r == self@.slot_retired(),
    {
        match self.begin_frame(self.absolute_frame_index) {
            None => true,
            Some(v) => self.completed_value >= v,
        }
    }

    /// The submission of the current frame, with the image's sync pair.
    pub fn frame_submission(&self, sync: &SwapchainSync) -> (r: FrameSubmission)
        requires
            self@.frame_index < usize::MAX,
        ensures
            r.wait_semaphore == sync.acquire_semaphore,
            r.signal_semaphore == sync.present_semaphore,
            r.timeline_semaphore == self@.timeline_semaphore,
            match r.timeline_wait_value {
                Some(v) => pacing_wait_value(self@.frame_index as int) == Some(v as int),
                None => pacing_wait_value(self@.frame_index as int) is None,
            },
            r.timeline_signal_value == frame_signal_value(self@.frame_index as int),
    {
        FrameSubmission {
            wait_semaphore: sync.acquire_semaphore,
            signal_semaphore: sync.present_semaphore,
            timeline_semaphore: self.graphics_timeline_semaphore,
            timeline_wait_value: self.begin_frame(self.absolute_frame_index),
            timeline_signal_value: (self.absolute_frame_index + 1) as u64,
        }
    }

    /// Advances the frame counter by exactly one, after the frame's submission.
    pub fn finish_frame(&mut self)
        requires
            old(self)@.frame_index < usize::MAX,
        ensures
            final(self)@ == old(self)@.advanced(),
    {
        proof {
            use_type_invariant(&*self);
        }
        self.absolute_frame_index = self.absolute_frame_index + 1;
    }

    /// The per-frame command buffer of the slot `absolute_frame_index` uses.
    pub fn get_command_buffer(&self, absolute_frame_index: usize) -> (r: vk::CommandBuffer)
        ensures
            r == self@.command_buffers[crate::slot_of(absolute_frame_index as int)],
    {
        proof {
            use_type_invariant(self);
        }
        self.command_buffers[absolute_frame_index % FRAMES_IN_FLIGHT]
    }
}

/// Reusing a frame slot is safe once the wait of `begin_frame` is satisfied:
/// the frame that last used the slot is the one `FRAMES_IN_FLIGHT` back, it
/// signals exactly the value waited for, no frame in between used the slot,
/// and every earlier user of the slot signalled no more than what completed.
pub proof fn lemma_slot_reuse_safe(frame: int, completed: int)
    requires
        frame >= 0,
        pacing_wait_value(frame) is Some,
        completed >= pacing_wait_value(frame)->0,
    ensures
        crate::slot_of(frame - FRAMES_IN_FLIGHT) == crate::slot_of(frame),
        frame_signal_value(frame - FRAMES_IN_FLIGHT) == pacing_wait_value(frame)->0,
        forall|g: int|
            frame - FRAMES_IN_FLIGHT < g < frame ==> crate::slot_of(g) != crate::slot_of(frame),
        forall|g: int|
            0 <= g < frame && crate::slot_of(g) == crate::slot_of(frame) ==> frame_signal_value(g)
                <= completed,
{
    assert forall|g: int|
        0 <= g < frame && crate::slot_of(g) == crate::slot_of(frame) implies frame_signal_value(g)
        <= completed by {
        assert(g <= frame - FRAMES_IN_FLIGHT);
    }
}

/// After `n` finished frames the counter has advanced by exactly `n`, and it
/// never decreases along the way.
pub proof fn lemma_frame_counter_monotonic(states: Seq<DeviceState>)
    requires
        states.len() > 0,
        forall|i: int| 0 <= i < states.len() - 1 ==> states[i + 1] == #[trigger] states[i].advanced(),
    ensures
        states.last().frame_index == states[0].frame_index + states.len() - 1,
        forall|i: int, j: int|
            0 <= i <= j < states.len() ==> states[i].frame_index <= states[j].frame_index,
    decreases states.len(),
{
    if states.len() > 1 {
        let prefix = states.drop_last();
        assert forall|i: int| 0 <= i < prefix.len() - 1 implies prefix[i + 1] == #[trigger] prefix[i].advanced() by {
            assert(states[i + 1] == states[i].advanced());
        }
        lemma_frame_counter_monotonic(prefix);
        assert(states[states.len() - 1] == states[states.len() - 2].advanced());
        assert forall|i: int, j: int|
            0 <= i <= j < states.len() implies states[i].frame_index <= states[j].frame_index by {
            if j == states.len() - 1 && i < j {
                assert(prefix[i].frame_index <= prefix[states.len() - 2].frame_index);
            } else if j < states.len() - 1 {
                assert(prefix[i].frame_index <= prefix[j].frame_index);
            }
        }
    }
}

} // verus!
