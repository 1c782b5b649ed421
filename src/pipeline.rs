//! Shader descriptions and the descriptor-set layout of a raster pipeline,
//! merged from what each shader stage declares.
use vstd::prelude::*;

verus! {

/// The raw Vulkan value of the uniform-buffer descriptor type, the only one
/// set layouts are built for.
pub const DESCRIPTOR_TYPE_UNIFORM_BUFFER: u32 = 6;

#[derive(Clone, Copy, Debug, PartialEq, Eq, Structural)]
pub enum ShaderStage {
    Vertex,
    Fragment,
}

/// SPIR-V code and the logical name it was compiled under.
pub struct CompiledShader {
    pub name: String,
    pub spirv: Vec<u8>,
}

/// One shader stage of a pipeline.
pub struct ShaderDesc {
    pub name: String,
    pub spirv: Vec<u8>,
    pub stage: ShaderStage,
    pub entry_point: String,
}

impl ShaderDesc {
    /// A stage whose entry point is `main`.
    pub fn new(compiled_shader: CompiledShader, stage: ShaderStage) -> (r: ShaderDesc)
        ensures
            r.name == compiled_shader.name,
            r.spirv == compiled_shader.spirv,
            r.stage == stage,
            r.entry_point@ == "main"@,
    {
        ShaderDesc {
            name: compiled_shader.name,
            spirv: compiled_shader.spirv,
            stage,
            entry_point: "main".to_owned(),
        }
    }
}

/// A descriptor binding that a shader declares.
pub struct DescriptorBinding {
    pub set: u32,
    pub binding: u32,
    /// The raw Vulkan descriptor type.
    pub ty: u32,
    pub name: String,
}

#[derive(Clone, Copy, Debug, PartialEq, Eq, Structural)]
pub enum PipelineError {
    /// Two stages declare the same slot with a different type or name.
    BindingConflict { set: u32, binding: u32 },
    /// Set layouts are only built for uniform buffers.
    UnsupportedDescriptorType { set: u32, binding: u32, ty: u32 },
}

/// The slot a binding occupies: its set and binding index.
pub open spec fn slot_key(b: DescriptorBinding) -> (u32, u32) {
    (b.set, b.binding)
}

/// What a declaration says of its slot: the type and the name.
pub open spec fn slot_value(b: DescriptorBinding) -> (u32, Seq<char>) {
    (b.ty, b.name@)
}

/// Each slot that `s` declares, with its first declaration.
pub open spec fn first_declarations(s: Seq<DescriptorBinding>) -> Map<(u32, u32), (u32, Seq<char>)>
    decreases s.len(),
{
    if s.len() == 0 {
        Map::empty()
    } else {
        let m = first_declarations(s.drop_last());
        if m.contains_key(slot_key(s.last())) {
            m
        } else {
            m.insert(slot_key(s.last()), slot_value(s.last()))
        }
    }
}

/// The slot of the first declaration, in order, that contradicts an earlier
/// declaration of the same slot.
pub open spec fn first_conflict(s: Seq<DescriptorBinding>) -> Option<(u32, u32)>
    decreases s.len(),
{
    if s.len() == 0 {
        None
    } else if first_conflict(s.drop_last()) is Some {
        first_conflict(s.drop_last())
    } else {
        let m = first_declarations(s.drop_last());
        let x = s.last();
        if m.contains_key(slot_key(x)) && m[slot_key(x)] != slot_value(x) {
            Some(slot_key(x))
        } else {
            None
        }
    }
}

/// No two entries of `s` occupy the same slot.
pub open spec fn distinct_slots(s: Seq<DescriptorBinding>) -> bool {
    forall|a: int, b: int| 0 <= a < b < s.len() ==> slot_key(#[trigger] s[a]) != slot_key(#[trigger] s[b])
}

proof fn lemma_distinct_declarations(s: Seq<DescriptorBinding>)
    requires
        distinct_slots(s),
    ensures
        forall|k: int|
            0 <= k < s.len() ==> first_declarations(s).contains_key(slot_key(#[trigger] s[k]))
                && first_declarations(s)[slot_key(s[k])] == slot_value(s[k]),
        forall|key: (u32, u32)|
            #[trigger] first_declarations(s).contains_key(key) ==> exists|k: int|
                0 <= k < s.len() && slot_key(#[trigger] s[k]) == key,
    decreases s.len(),
{
    if s.len() > 0 {
        let p = s.drop_last();
        assert forall|a: int, b: int| 0 <= a < b < p.len() implies slot_key(#[trigger] p[a])
            != slot_key(#[trigger] p[b]) by {
            assert(p[a] == s[a] && p[b] == s[b]);
        }
        lemma_distinct_declarations(p);
        let x = s.last();
        if first_declarations(p).contains_key(slot_key(x)) {
            let k = choose|k: int| 0 <= k < p.len() && slot_key(#[trigger] p[k]) == slot_key(x);
            assert(p[k] == s[k]);
            assert(slot_key(s[k]) != slot_key(s[s.len() - 1]));
        }
        assert forall|k: int| 0 <= k < s.len() implies first_declarations(s).contains_key(
            slot_key(#[trigger] s[k]),
        ) && first_declarations(s)[slot_key(s[k])] == slot_value(s[k]) by {
            if k < p.len() {
                assert(p[k] == s[k]);
                assert(slot_key(s[k]) != slot_key(s[s.len() - 1]));
            }
        }
        assert forall|key: (u32, u32)| #[trigger]
            first_declarations(s).contains_key(key) implies exists|k: int|
            0 <= k < s.len() && slot_key(#[trigger] s[k]) == key by {
            if key == slot_key(x) {
                assert(slot_key(s[s.len() - 1]) == key);
            } else {
                let k = choose|k: int| 0 <= k < p.len() && slot_key(#[trigger] p[k]) == key;
                assert(p[k] == s[k]);
            }
        }
    }
}

fn find_slot(merged: &Vec<DescriptorBinding>, set: u32, binding: u32) -> (r: Option<usize>)
    ensures
        match r {
            Some(k) => k < merged@.len() && slot_key(merged@[k as int]) == (set, binding),
            None => forall|k: int|
                0 <= k < merged@.len() ==> slot_key(#[trigger] merged@[k]) != (set, binding),
        },
{
    let mut k: usize = 0;
    while k < merged.len()
        invariant
            k <= merged@.len(),
            forall|j: int| 0 <= j < k ==> slot_key(#[trigger] merged@[j]) != (set, binding),
        decreases merged@.len() - k,
    {
        if merged[k].set == set && merged[k].binding == binding {
            return Some(k);
        }
        k += 1;
    }
    None
}

fn copy_binding(b: &DescriptorBinding) -> (r: DescriptorBinding)
    ensures
        slot_key(r) == slot_key(*b),
        slot_value(r) == slot_value(*b),
{
    DescriptorBinding { set: b.set, binding: b.binding, ty: b.ty, name: b.name.clone() }
}

fn try_merge(all: &Vec<DescriptorBinding>) -> (r: Result<
    Vec<DescriptorBinding>,
    PipelineError,
>)
    ensures
        match first_conflict(all@) {
            Some(key) => r == Err::<Vec<DescriptorBinding>, PipelineError>(
                PipelineError::BindingConflict { set: key.0, binding: key.1 },
            ),
            None => r matches Ok(merged) && distinct_slots(merged@) && first_declarations(merged@)
                == first_declarations(all@),
        },
{
    let mut merged: Vec<DescriptorBinding> = Vec::new();
    let mut i: usize = 0;
    assert(first_declarations(merged@) =~= first_declarations(all@.subrange(0, 0)));
    while i < all.len()
        invariant
            i <= all@.len(),
            distinct_slots(merged@),
            first_declarations(merged@) == first_declarations(all@.subrange(0, i as int)),
            first_conflict(all@.subrange(0, i as int)) is None,
        decreases all@.len() - i,
    {
        let ghost seen = all@.subrange(0, i as int);
        let ghost next = all@.subrange(0, i + 1);
        assert(next.drop_last() =~= seen);
        assert(next.last() == all@[i as int]);
        let b = &all[i];
        proof {
            lemma_distinct_declarations(merged@);
        }
        match find_slot(&merged, b.set, b.binding) {
            Some(k) => {
                assert(slot_key(merged@[k as int]) == slot_key(all@[i as int]));
                if merged[k].ty != b.ty || !merged[k].name.eq(&b.name) {
                    assert(slot_value(merged@[k as int]) != slot_value(all@[i as int]));
                    proof {
                        lemma_conflict_persists(all@, i as int + 1);
                    }
                    return Err(PipelineError::BindingConflict { set: b.set, binding: b.binding });
                }
                assert(slot_value(merged@[k as int]) == slot_value(all@[i as int]));
            },
            None => {
                let copy = copy_binding(b);
                let ghost before = merged@;
                merged.push(copy);
                proof {
                    assert(!first_declarations(before).contains_key(slot_key(copy)));
                    assert(merged@.drop_last() =~= before);
                    assert forall|a: int, c: int| 0 <= a < c < merged@.len() implies slot_key(
                        #[trigger] merged@[a],
                    ) != slot_key(#[trigger] merged@[c]) by {
                        assert(merged@[a] == before[a]);
                        if c < before.len() {
                            assert(merged@[c] == before[c]);
                        }
                    }
                }
            },
        }
        i += 1;
    }
    assert(all@.subrange(0, all@.len() as int) =~= all@);
    Ok(merged)
}

/// Once a prefix has a conflict, every longer prefix reports the same one.
proof fn lemma_conflict_persists(s: Seq<DescriptorBinding>, n: int)
    requires
        0 <= n <= s.len(),
        first_conflict(s.subrange(0, n)) is Some,
    ensures
        first_conflict(s) == first_conflict(s.subrange(0, n)),
    decreases s.len() - n,
{
    if n < s.len() {
        let next = s.subrange(0, n + 1);
        assert(next.drop_last() =~= s.subrange(0, n));
        lemma_conflict_persists(s, n + 1);
    } else {
        assert(s.subrange(0, n) =~= s);
    }
}

/// How many set layouts the pipeline layout spans: one past the highest set
/// index, or 0 when nothing is bound.
pub fn descriptor_set_count(merged: &Vec<DescriptorBinding>) -> (r: u64)
    ensures
        forall|k: int| 0 <= k < merged@.len() ==> (#[trigger] merged@[k]).set < r,
        merged@.len() == 0 ==> r == 0,
        merged@.len() > 0 ==> exists|k: int| 0 <= k < merged@.len() && merged@[k].set + 1 == r,
{
    let mut count: u64 = 0;
    let mut k: usize = 0;
    while k < merged.len()
        invariant
            k <= merged@.len(),
            forall|j: int| 0 <= j < k ==> (#[trigger] merged@[j]).set < count,
            k == 0 ==> count == 0,
            k > 0 ==> exists|j: int| 0 <= j < k && merged@[j].set + 1 == count,
        decreases merged@.len() - k,
    {
        let next = merged[k].set as u64 + 1;
        if next > count {
            count = next;
        }
        k += 1;
    }
    count
}

/// The binding indices declared for set `set`, in order.
pub open spec fn bindings_of_set(s: Seq<DescriptorBinding>, set: u32) -> Seq<u32>
    decreases s.len(),
{
    if s.len() == 0 {
        Seq::empty()
    } else {
        let rest = bindings_of_set(s.drop_last(), set);
        if s.last().set == set {
            rest.push(s.last().binding)
        } else {
            rest
        }
    }
}

fn try_set_bindings(merged: &Vec<DescriptorBinding>, set: u32) -> (r: Result<
    Vec<u32>,
    PipelineError,
>)
    ensures
        r matches Ok(bindings) ==> {
            &&& forall|k: int|
                0 <= k < merged@.len() && (#[trigger] merged@[k]).set == set ==> merged@[k].ty
                    == DESCRIPTOR_TYPE_UNIFORM_BUFFER
            &&& bindings@ == bindings_of_set(merged@, set)
        },
        r matches Err(e) ==> exists|k: int|
            0 <= k < merged@.len() && (#[trigger] merged@[k]).set == set && merged@[k].ty
                != DESCRIPTOR_TYPE_UNIFORM_BUFFER && e == (PipelineError::UnsupportedDescriptorType {
                set,
                binding: merged@[k].binding,
                ty: merged@[k].ty,
            }),
        (forall|k: int|
            0 <= k < merged@.len() && (#[trigger] merged@[k]).set == set ==> merged@[k].ty
                == DESCRIPTOR_TYPE_UNIFORM_BUFFER) ==> r is Ok,
{
    let mut bindings: Vec<u32> = Vec::new();
    let mut k: usize = 0;
    while k < merged.len()
        invariant
            k <= merged@.len(),
            forall|j: int|
                0 <= j < k && (#[trigger] merged@[j]).set == set ==> merged@[j].ty
                    == DESCRIPTOR_TYPE_UNIFORM_BUFFER,
            bindings@ == bindings_of_set(merged@.subrange(0, k as int), set),
        decreases merged@.len() - k,
    {
        let b = &merged[k];
        let ghost pre = merged@.subrange(0, k as int);
        let ghost next = merged@.subrange(0, k + 1);
        assert(next.drop_last() =~= pre);
        assert(next.last() == merged@[k as int]);
        if b.set == set {
            if b.ty != DESCRIPTOR_TYPE_UNIFORM_BUFFER {
                return Err(
                    PipelineError::UnsupportedDescriptorType { set, binding: b.binding, ty: b.ty },
                );
            }
            bindings.push(b.binding);
        }
        k += 1;
    }
    assert(merged@.subrange(0, merged@.len() as int) =~= merged@);
    Ok(bindings)
}

/// The bindings of one descriptor-set layout.
pub struct SetLayoutPlan {
    pub set: u32,
    pub bindings: Vec<u32>,
}

/// `plans` has one layout for each set that has bindings, with exactly those
/// bindings, in increasing set order.
pub open spec fn is_layout_plan(plans: Seq<SetLayoutPlan>, merged: Seq<DescriptorBinding>) -> bool {
    &&& forall|i: int|
        0 <= i < plans.len() ==> (#[trigger] plans[i]).bindings@ == bindings_of_set(
            merged,
            plans[i].set,
        ) && plans[i].bindings@.len() > 0
    &&& forall|i: int, j: int|
        0 <= i < j < plans.len() ==> (#[trigger] plans[i]).set < (#[trigger] plans[j]).set
    &&& forall|set: u32|
        #[trigger] bindings_of_set(merged, set).len() > 0 ==> exists|i: int|
            0 <= i < plans.len() && plans[i].set == set
}

fn try_plan(merged: &Vec<DescriptorBinding>) -> (r: Result<
    Vec<SetLayoutPlan>,
    PipelineError,
>)
    ensures
        r is Err <==> exists|k: int|
            0 <= k < merged@.len() && (#[trigger] merged@[k]).ty != DESCRIPTOR_TYPE_UNIFORM_BUFFER,
        r matches Err(e) ==> exists|k: int|
            0 <= k < merged@.len() && (#[trigger] merged@[k]).ty != DESCRIPTOR_TYPE_UNIFORM_BUFFER
                && e == (PipelineError::UnsupportedDescriptorType {
                set: merged@[k].set,
                binding: merged@[k].binding,
                ty: merged@[k].ty,
            }),
        r matches Ok(plans) ==> is_layout_plan(plans@, merged@),
{
    let count = descriptor_set_count(merged);
    let mut plans: Vec<SetLayoutPlan> = Vec::new();
    let mut set: u64 = 0;
    while set < count
        invariant
            set <= count,
            count <= u32::MAX as u64 + 1,
            forall|k: int| 0 <= k < merged@.len() ==> (#[trigger] merged@[k]).set < count,
            forall|k: int|
                0 <= k < merged@.len() && (#[trigger] merged@[k]).set < set ==> merged@[k].ty
                    == DESCRIPTOR_TYPE_UNIFORM_BUFFER,
            forall|i: int|
                0 <= i < plans@.len() ==> (#[trigger] plans@[i]).bindings@ == bindings_of_set(
                    merged@,
                    plans@[i].set,
                ) && plans@[i].bindings@.len() > 0 && plans@[i].set < set,
            forall|i: int, j: int|
                0 <= i < j < plans@.len() ==> (#[trigger] plans@[i]).set < (#[trigger] plans@[j]).set,
            forall|s: u32|
                s < set && #[trigger] bindings_of_set(merged@, s).len() > 0 ==> exists|i: int|
                    0 <= i < plans@.len() && plans@[i].set == s,
        decreases count - set,
    {
        let bindings = match try_set_bindings(merged, set as u32) {
            Ok(b) => b,
            Err(e) => return Err(e),
        };
        if bindings.len() > 0 {
            let ghost before = plans@;
            plans.push(SetLayoutPlan { set: set as u32, bindings });
            proof {
                assert forall|i: int, j: int| 0 <= i < j < plans@.len() implies (
                #[trigger] plans@[i]).set < (#[trigger] plans@[j]).set by {
                    if j < before.len() {
                        assert(plans@[i] == before[i] && plans@[j] == before[j]);
                    } else {
                        assert(plans@[i] == before[i]);
                    }
                }
                assert forall|s: u32|
                    s < set + 1 && #[trigger] bindings_of_set(merged@, s).len() > 0 implies exists|
                    i: int,
                | 0 <= i < plans@.len() && plans@[i].set == s by {
                    if s < set {
                        let i = choose|i: int| 0 <= i < before.len() && before[i].set == s;
                        assert(plans@[i] == before[i]);
                    } else {
                        assert(plans@[plans@.len() - 1].set == s);
                    }
                }
                assert forall|i: int| 0 <= i < plans@.len() implies (#[trigger] plans@[i]).bindings@
                    == bindings_of_set(merged@, plans@[i].set) && plans@[i].bindings@.len() > 0
                    && plans@[i].set < set + 1 by {
                    if i < before.len() {
                        assert(plans@[i] == before[i]);
                    }
                }
            }
        }
        set += 1;
    }
    proof {
        assert forall|s: u32| #[trigger] bindings_of_set(merged@, s).len() > 0 implies exists|i: int|
            0 <= i < plans@.len() && plans@[i].set == s by {
            if s as u64 >= count {
                lemma_no_bindings_beyond(merged@, s, count as int);
            }
        }
        assert(is_layout_plan(plans@, merged@));
    }
    Ok(plans)
}

/// A set at or past the set count has no bindings.
proof fn lemma_no_bindings_beyond(s: Seq<DescriptorBinding>, set: u32, count: int)
    requires
        forall|k: int| 0 <= k < s.len() ==> (#[trigger] s[k]).set < count,
        set >= count,
    ensures
        bindings_of_set(s, set).len() == 0,
    decreases s.len(),
{
    if s.len() > 0 {
        let p = s.drop_last();
        assert forall|k: int| 0 <= k < p.len() implies (#[trigger] p[k]).set < count by {
            assert(p[k] == s[k]);
        }
        lemma_no_bindings_beyond(p, set, count);
        assert(s.last() == s[s.len() - 1]);
    }
}

/// The first declaration, in order, that contradicts an earlier declaration
/// of its slot (type or name), if any.
pub fn find_binding_conflict(all: &Vec<DescriptorBinding>) -> (r: Option<PipelineError>)
    ensures
        match first_conflict(all@) {
            Some(key) => r == Some(PipelineError::BindingConflict { set: key.0, binding: key.1 }),
            None => r is None,
        },
{
    match try_merge(all) {
        Ok(_) => None,
        Err(e) => Some(e),
    }
}

/// Merges the bindings that the stages of a pipeline declare, listed stage
/// after stage. A slot declared by several stages is kept once. Stages that
/// contradict each other on a slot are a programming error, which
/// `find_binding_conflict` detects.
pub fn merge_descriptor_bindings(all: &Vec<DescriptorBinding>) -> (r: Vec<DescriptorBinding>)
    requires
        first_conflict(all@) is None,
    ensures
        distinct_slots(r@),
        first_declarations(r@) == first_declarations(all@),
{
    match try_merge(all) {
        Ok(merged) => merged,
        Err(_) => Vec::new(),
    }
}

/// The first binding, in order, that is not a uniform buffer, if any.
pub fn find_unsupported_binding(merged: &Vec<DescriptorBinding>) -> (r: Option<PipelineError>)
    ensures
        r is None <==> forall|k: int|
            0 <= k < merged@.len() ==> (#[trigger] merged@[k]).ty == DESCRIPTOR_TYPE_UNIFORM_BUFFER,
        r matches Some(e) ==> exists|k: int|
            0 <= k < merged@.len() && (#[trigger] merged@[k]).ty != DESCRIPTOR_TYPE_UNIFORM_BUFFER
                && e == (PipelineError::UnsupportedDescriptorType {
                set: merged@[k].set,
                binding: merged@[k].binding,
                ty: merged@[k].ty,
            }),
{
    let mut k: usize = 0;
    while k < merged.len()
        invariant
            k <= merged@.len(),
            forall|j: int| 0 <= j < k ==> (#[trigger] merged@[j]).ty == DESCRIPTOR_TYPE_UNIFORM_BUFFER,
        decreases merged@.len() - k,
    {
        let b = &merged[k];
        if b.ty != DESCRIPTOR_TYPE_UNIFORM_BUFFER {
            return Some(
                PipelineError::UnsupportedDescriptorType { set: b.set, binding: b.binding, ty: b.ty },
            );
        }
        k += 1;
    }
    None
}

/// The binding indices of set `set`, in order. Only uniform buffers are
/// supported; any other type in the set is a programming error.
pub fn set_layout_bindings(merged: &Vec<DescriptorBinding>, set: u32) -> (r: Vec<u32>)
    requires
        forall|k: int|
            0 <= k < merged@.len() && (#[trigger] merged@[k]).set == set ==> merged@[k].ty
                == DESCRIPTOR_TYPE_UNIFORM_BUFFER,
    ensures
        r@ == bindings_of_set(merged@, set),
{
    match try_set_bindings(merged, set) {
        Ok(b) => b,
        Err(_) => Vec::new(),
    }
}

/// One layout for each set that has bindings, in increasing set order; sets
/// without bindings get none. Only uniform buffers are supported; any other
/// type is a programming error, which `find_unsupported_binding` detects.
pub fn plan_set_layouts(merged: &Vec<DescriptorBinding>) -> (r: Vec<SetLayoutPlan>)
    requires
        forall|k: int|
            0 <= k < merged@.len() ==> (#[trigger] merged@[k]).ty == DESCRIPTOR_TYPE_UNIFORM_BUFFER,
    ensures
        is_layout_plan(r@, merged@),
{
    match try_plan(merged) {
        Ok(plans) => plans,
        Err(_) => Vec::new(),
    }
}

} // verus!
