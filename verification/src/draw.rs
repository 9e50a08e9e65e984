//! Draw plans: one indirect command per drawable slot, and the buffers that a
//! world's culled instances land in.

use crate::assets::gpu_store::{
    every_instance_has_one_slot, lemma_slot_total_bound, lemma_totals_add_up, slot_total, total,
    GpuMeshStore, MeshDelta, MeshSync,
};
use crate::assets::MeshTableEntry;
use crate::growth::{grow_usize, grown, max_usize};
use vstd::prelude::*;

verus! {

/// A world of the scene.
pub type WorldId = u32;

/// One indexed indirect draw, as the GPU reads it.
#[derive(Clone, Copy, PartialEq, Eq, Structural, Debug)]
pub struct DrawCommand {
    pub index_count: u32,
    /// Zero in every plan: the cull accumulates into it.
    pub instance_count: u32,
    pub first_index: u32,
    pub vertex_offset: u32,
    /// Where this slot's instances start.
    pub first_instance: u32,
}

/// The draw of nothing.
pub open spec fn no_draw() -> DrawCommand {
    DrawCommand {
        index_count: 0,
        instance_count: 0,
        first_index: 0,
        vertex_offset: 0,
        first_instance: 0,
    }
}

/// The per-slot commands, with prefix-summed instance bases, and how many
/// instances there are. Shared by both cull passes: an instance is drawn by
/// exactly one of them.
pub struct DrawPlan {
    pub commands: Vec<DrawCommand>,
    pub total_renderers: u32,
}

/// The command of a slot whose instances start at `base`.
pub open spec fn command_of(geometry: Option<MeshTableEntry>, base: u32) -> DrawCommand {
    match geometry {
        Some(g) => DrawCommand {
            index_count: g.index_count,
            instance_count: 0,
            first_index: g.first_index,
            vertex_offset: g.vertex_offset as u32,
            first_instance: base,
        },
        None => DrawCommand { first_instance: base, ..no_draw() },
    }
}

/// The geometry of a slot, if it is uploaded.
pub open spec fn geometry_of(store: GpuMeshStore, slot: int) -> Option<MeshTableEntry> {
    if 0 <= slot < store.cpu_table.len() {
        Some(store.cpu_table[slot])
    } else {
        None
    }
}

/// `plan` draws `totals[s]` instances of every slot `s`.
pub open spec fn is_plan(plan: DrawPlan, store: GpuMeshStore, totals: Seq<u32>) -> bool {
    &&& plan.commands.len() == totals.len()
    &&& plan.total_renderers == total(totals, totals.len())
    &&& forall|s: int|
        0 <= s < totals.len() ==> #[trigger] plan.commands[s] == command_of(
            geometry_of(store, s),
            total(totals, s as nat) as u32,
        )
}

proof fn lemma_total_grows(totals: Seq<u32>, j: nat, n: nat)
    requires
        j <= n,
    ensures
        total(totals, j) <= total(totals, n),
    decreases n - j,
{
    if j < n {
        lemma_total_grows(totals, j, (n - 1) as nat);
    }
}

/// The draw plan for the given instance totals, one command per slot.
pub fn build_draw_plan(mesh_store: &GpuMeshStore, slot_totals: &Vec<u32>) -> (plan: DrawPlan)
    requires
        total(slot_totals@, slot_totals.len() as nat) <= u32::MAX,
        slot_totals.len() <= u32::MAX,
    ensures
        is_plan(plan, *mesh_store, slot_totals@),
{
    let mut commands: Vec<DrawCommand> = Vec::new();
    let mut base: u32 = 0;
    let mut slot: usize = 0;
    while slot < slot_totals.len()
        invariant
            slot <= slot_totals.len(),
            slot_totals.len() <= u32::MAX,
            total(slot_totals@, slot_totals.len() as nat) <= u32::MAX,
            base == total(slot_totals@, slot as nat),
            commands.len() == slot,
            forall|s: int|
                0 <= s < slot ==> #[trigger] commands[s] == command_of(
                    geometry_of(*mesh_store, s),
                    total(slot_totals@, s as nat) as u32,
                ),
        decreases slot_totals.len() - slot,
    {
        proof {
            lemma_total_grows(slot_totals@, (slot + 1) as nat, slot_totals@.len());
        }
        let command: DrawCommand = match mesh_store.slot_geometry(slot as u32) {
            Some(g) => DrawCommand {
                index_count: g.index_count,
                instance_count: 0,
                first_index: g.first_index,
                vertex_offset: #[verifier::truncate]
                (g.vertex_offset as u32),
                first_instance: base,
            },
            None => DrawCommand {
                index_count: 0,
                instance_count: 0,
                first_index: 0,
                vertex_offset: 0,
                first_instance: base,
            },
        };
        commands.push(command);
        base = base + slot_totals[slot];
        slot = slot + 1;
    }
    DrawPlan { commands, total_renderers: base }
}

/// Every slot's instances have a region of their own, one behind the other,
/// and the last ends where the plan says that all instances do.
pub proof fn instance_regions_tile(
    plan: DrawPlan,
    store: GpuMeshStore,
    totals: Seq<u32>,
    a: int,
    b: int,
)
    requires
        is_plan(plan, store, totals),
        0 <= a < b < totals.len(),
    ensures
        plan.commands[a].first_instance + totals[a] <= plan.commands[b].first_instance,
        plan.commands[b].first_instance + totals[b] <= plan.total_renderers,
        plan.commands[0].first_instance == 0,
        plan.commands[a].instance_count == 0,
{
    lemma_total_grows(totals, (a + 1) as nat, b as nat);
    lemma_total_grows(totals, a as nat, totals.len());
    lemma_total_grows(totals, b as nat, totals.len());
    lemma_total_grows(totals, (b + 1) as nat, totals.len());
    assert(plan.commands[0] == command_of(geometry_of(store, 0), total(totals, 0) as u32));
}

/// A plan has room for every renderer, each exactly once: where the totals are
/// those of a redirect whose every slot is uploaded, the plan's instances are
/// as many as the references to all meshes.
pub proof fn plans_draw_every_renderer_once(
    plan: DrawPlan,
    store: GpuMeshStore,
    refcounts: Seq<u32>,
    totals: Seq<u32>,
)
    requires
        store.wf(),
        store.synced_slots > 0,
        totals.len() == store.synced_slots,
        forall|s: int|
            0 <= s < totals.len() ==> #[trigger] totals[s] == slot_total(
                store.cpu_redirect@,
                refcounts,
                s,
                refcounts.len(),
            ),
        is_plan(plan, store, totals),
    ensures
        plan.total_renderers == total(refcounts, refcounts.len()),
        plan.commands.len() == store.synced_slots,
{
    lemma_totals_add_up(store.cpu_redirect@, refcounts, totals, totals.len());
    every_instance_has_one_slot(store.cpu_redirect@, refcounts, totals.len());
}

/// The totals of a sync fit a plan, if all references to meshes do: together
/// they are no more.
pub proof fn lemma_totals_fit(
    store: GpuMeshStore,
    before: GpuMeshStore,
    delta: MeshDelta,
    sync: MeshSync,
)
    requires
        store.wf(),
        before.accepts(delta),
        total(delta.refcounts@, delta.refcounts@.len()) <= u32::MAX,
        store.synced(before, delta, sync),
    ensures
        sync.totals.len() == store.synced_slots,
        total(sync.totals@, sync.totals@.len()) <= u32::MAX,
        forall|s: int|
            0 <= s < sync.totals.len() ==> #[trigger] sync.totals[s] == slot_total(
                store.cpu_redirect@,
                delta.refcounts@,
                s,
                delta.refcounts@.len(),
            ),
{
    let totals = sync.totals@;
    assert forall|s: int| 0 <= s < totals.len() implies #[trigger] totals[s] == slot_total(
        store.cpu_redirect@,
        delta.refcounts@,
        s,
        delta.refcounts@.len(),
    ) by {
        lemma_slot_total_bound(store.cpu_redirect@, delta.refcounts@, s, delta.refcounts@.len());
    }
    if totals.len() > 0 {
        lemma_totals_add_up(store.cpu_redirect@, delta.refcounts@, totals, totals.len());
        every_instance_has_one_slot(store.cpu_redirect@, delta.refcounts@, totals.len());
    }
}

/// `template` holds the commands, and draws nothing past them.
pub open spec fn is_template(template: Seq<DrawCommand>, commands: Seq<DrawCommand>) -> bool {
    &&& commands.len() <= template.len()
    &&& forall|i: int| 0 <= i < commands.len() ==> template[i] == commands[i]
    &&& forall|i: int| commands.len() <= i < template.len() ==> template[i] == no_draw()
}

/// Write a plan's commands into a host template, and zero the tail: a stray
/// reader past the commands then issues a draw of nothing.
pub fn write_indirect_template(template: &mut Vec<DrawCommand>, commands: &Vec<DrawCommand>)
    requires
        commands.len() <= old(template).len(),
    ensures
        final(template).len() == old(template).len(),
        is_template(final(template)@, commands@),
{
    let n: usize = template.len();
    let mut i: usize = 0;
    while i < n
        invariant
            i <= n,
            template.len() == n,
            n == old(template).len(),
            commands.len() <= n,
            forall|k: int|
                0 <= k < i ==> #[trigger] template[k] == if k < commands.len() {
                    commands[k]
                } else {
                    no_draw()
                },
        decreases n - i,
    {
        if i < commands.len() {
            template.set(i, commands[i]);
        } else {
            template.set(
                i,
                DrawCommand {
                    index_count: 0,
                    instance_count: 0,
                    first_index: 0,
                    vertex_offset: 0,
                    first_instance: 0,
                },
            );
        }
        i = i + 1;
    }
}

/// One cull pass's output buffers: room for every instance and for every
/// slot's command, and the host template that the commands reset from.
pub struct DrawResources {
    pub mvp_capacity: usize,
    pub slot_capacity: usize,
    pub template: Vec<DrawCommand>,
}

/// At least one.
pub open spec fn at_least_one(n: nat) -> nat {
    if n >= 1 {
        n
    } else {
        1
    }
}

impl DrawResources {
    pub open spec fn wf(&self) -> bool {
        &&& self.mvp_capacity >= 1
        &&& self.slot_capacity >= 1
        &&& self.template.len() == self.slot_capacity
    }

    /// These are fresh buffers for `plan`.
    pub open spec fn fresh_for(&self, plan: DrawPlan) -> bool {
        &&& self.mvp_capacity == at_least_one(plan.total_renderers as nat)
        &&& self.slot_capacity == at_least_one(plan.commands.len() as nat)
        &&& is_template(self.template@, plan.commands@)
    }

    /// These are `before`'s buffers, grown to fit `plan` and rewritten for it.
    pub open spec fn grown_for(&self, before: DrawResources, plan: DrawPlan) -> bool {
        &&& self.mvp_capacity == grown(
            before.mvp_capacity as nat,
            plan.total_renderers as nat,
            usize::MAX as nat,
        )
        &&& self.slot_capacity == grown(
            before.slot_capacity as nat,
            plan.commands.len() as nat,
            usize::MAX as nat,
        )
        &&& is_template(self.template@, plan.commands@)
    }

    pub fn new(plan: &DrawPlan) -> (r: Self)
        ensures
            r.wf(),
            r.fresh_for(*plan),
    {
        let slot_capacity: usize = max_usize(plan.commands.len(), 1);
        let mut template: Vec<DrawCommand> = blank(slot_capacity);
        write_indirect_template(&mut template, &plan.commands);
        DrawResources {
            mvp_capacity: max_usize(plan.total_renderers as usize, 1),
            slot_capacity,
            template,
        }
    }

    /// Grow (geometric) to fit `plan` if needed, and rewrite the template
    /// either way: the bases shift on every spawn.
    pub fn ensure_capacity(&mut self, plan: &DrawPlan)
        requires
            old(self).wf(),
        ensures
            final(self).wf(),
            final(self).grown_for(*old(self), *plan),
    {
        self.mvp_capacity = grow_usize(self.mvp_capacity, plan.total_renderers as usize);
        if plan.commands.len() > self.slot_capacity {
            self.slot_capacity = grow_usize(self.slot_capacity, plan.commands.len());
            self.template = blank(self.slot_capacity);
        }
        write_indirect_template(&mut self.template, &plan.commands);
    }
}

fn blank(n: usize) -> (r: Vec<DrawCommand>)
    ensures
        r.len() == n,
{
    let mut r: Vec<DrawCommand> = Vec::new();
    let mut i: usize = 0;
    while i < n
        invariant
            i <= n,
            r.len() == i,
        decreases n - i,
    {
        r.push(
            DrawCommand {
                index_count: 0,
                instance_count: 0,
                first_index: 0,
                vertex_offset: 0,
                first_instance: 0,
            },
        );
        i = i + 1;
    }
    r
}

/// One world that a camera draws, as it is now.
pub struct WorldSource {
    pub id: WorldId,
    /// The world's entity capacity: what the cull covers.
    pub capacity: usize,
    pub plan: DrawPlan,
}

/// One world's part of a camera's image: what the cull and the draws need that
/// goes by world and not by camera.
pub struct WorldDraw {
    pub world: WorldId,
    /// Instances visible against last frame's pyramid.
    pub pass1: DrawResources,
    /// Instances confirmed against this frame's.
    pub pass2: DrawResources,
    /// Records that the candidate list has room for.
    pub candidate_capacity: usize,
    pub slot_count: usize,
    pub cull_range: usize,
}

impl WorldDraw {
    /// Both passes were built from the same plans, so they have the same room.
    pub open spec fn wf(&self) -> bool {
        &&& self.pass1.wf()
        &&& self.pass2.wf()
        &&& self.candidate_capacity >= 1
        &&& self.pass1.mvp_capacity == self.pass2.mvp_capacity
        &&& self.pass1.slot_capacity == self.pass2.slot_capacity
    }

    /// This draws `src`, in `before`'s buffers where there are any.
    pub open spec fn draws(&self, before: Option<WorldDraw>, src: WorldSource) -> bool {
        &&& self.world == src.id
        &&& self.slot_count == src.plan.commands.len()
        &&& self.cull_range == src.capacity
        &&& match before {
            None => {
                &&& self.pass1.fresh_for(src.plan)
                &&& self.pass2.fresh_for(src.plan)
                &&& self.candidate_capacity == at_least_one(src.capacity as nat)
            },
            Some(b) => {
                &&& self.pass1.grown_for(b.pass1, src.plan)
                &&& self.pass2.grown_for(b.pass2, src.plan)
                &&& self.candidate_capacity == if src.capacity > b.candidate_capacity {
                    src.capacity
                } else {
                    b.candidate_capacity
                }
            },
        }
    }

    pub fn new(src: &WorldSource) -> (r: Self)
        ensures
            r.wf(),
            r.draws(None, *src),
    {
        WorldDraw {
            world: src.id,
            pass1: DrawResources::new(&src.plan),
            pass2: DrawResources::new(&src.plan),
            candidate_capacity: max_usize(src.capacity, 1),
            slot_count: src.plan.commands.len(),
            cull_range: src.capacity,
        }
    }

    /// Re-derive for a new plan or a grown world, reusing the buffers that are
    /// still big enough.
    pub fn rebuild(&mut self, src: &WorldSource)
        requires
            old(self).wf(),
            old(self).world == src.id,
        ensures
            final(self).wf(),
            final(self).draws(Some(*old(self)), *src),
    {
        self.pass1.ensure_capacity(&src.plan);
        self.pass2.ensure_capacity(&src.plan);
        if src.capacity > self.candidate_capacity {
            self.candidate_capacity = src.capacity;
        }
        self.slot_count = src.plan.commands.len();
        self.cull_range = src.capacity;
    }

    /// Whether the plan or the world outgrew what this was built for.
    pub open spec fn is_outgrown(&self, src: WorldSource) -> bool {
        ||| src.plan.total_renderers > self.pass1.mvp_capacity
        ||| src.plan.commands.len() > self.pass1.slot_capacity
        ||| src.plan.commands.len() != self.slot_count
        ||| src.capacity != self.cull_range
    }

    pub fn needs_rebuild(&self, src: &WorldSource) -> (r: bool)
        ensures
            r == self.is_outgrown(*src),
    {
        src.plan.total_renderers as usize > self.pass1.mvp_capacity || src.plan.commands.len()
            > self.pass1.slot_capacity || src.plan.commands.len() != self.slot_count
            || src.capacity != self.cull_range
    }
}

/// A draw that was just built for a source is not outgrown by it.
pub proof fn rebuilt_draws_are_current(d: WorldDraw, before: Option<WorldDraw>, src: WorldSource)
    requires
        d.draws(before, src),
    ensures
        !d.is_outgrown(src),
{
}

/// Every slot of a plan draws its own geometry, as the store's table has it,
/// and nothing where there is none. Its instances start where those of the
/// slot before end, the first slot's at zero, and the last slot's end with the
/// plan's. No instance is counted before the cull counts it.
pub proof fn plans_draw_each_slots_own_geometry(
    plan: DrawPlan,
    store: GpuMeshStore,
    totals: Seq<u32>,
    s: int,
)
    requires
        is_plan(plan, store, totals),
        0 <= s < totals.len(),
    ensures
        plan.commands.len() == totals.len(),
        s < store.cpu_table.len() ==> plan.commands[s].index_count
            == store.cpu_table[s].index_count && plan.commands[s].first_index
            == store.cpu_table[s].first_index && plan.commands[s].vertex_offset
            == store.cpu_table[s].vertex_offset as u32,
        s >= store.cpu_table.len() ==> plan.commands[s].index_count == 0
            && plan.commands[s].first_index == 0 && plan.commands[s].vertex_offset == 0,
        plan.commands[s].instance_count == 0,
        s == 0 ==> plan.commands[s].first_instance == 0,
        s > 0 ==> plan.commands[s].first_instance == plan.commands[s - 1].first_instance + totals[s
            - 1],
        s == totals.len() - 1 ==> plan.total_renderers == plan.commands[s].first_instance
            + totals[s],
{
    lemma_total_grows(totals, s as nat, totals.len());
    if s > 0 {
        lemma_total_grows(totals, (s - 1) as nat, totals.len());
        assert(plan.commands[s - 1] == command_of(
            geometry_of(store, s - 1),
            total(totals, (s - 1) as nat) as u32,
        ));
        assert(total(totals, s as nat) == total(totals, (s - 1) as nat) + totals[s - 1]);
    }
    assert(total(totals, (s + 1) as nat) == total(totals, s as nat) + totals[s]);
}

/// A world's draw has room for all of its plan's instances and commands, in
/// both passes, and for every renderer of the world as a candidate. Both
/// templates hold the plan's commands one for one, and draw nothing past them.
/// Buffers never shrink, and are never empty.
pub proof fn draws_have_room_for_their_plan(
    d: WorldDraw,
    before: Option<WorldDraw>,
    src: WorldSource,
    s: int,
)
    requires
        d.wf(),
        d.draws(before, src),
    ensures
        d.world == src.id,
        d.slot_count == src.plan.commands.len(),
        d.cull_range == src.capacity,
        d.pass1.mvp_capacity >= src.plan.total_renderers,
        d.pass2.mvp_capacity >= src.plan.total_renderers,
        d.pass1.slot_capacity >= src.plan.commands.len(),
        d.pass2.slot_capacity >= src.plan.commands.len(),
        d.candidate_capacity >= src.capacity,
        d.pass1.mvp_capacity >= 1 && d.pass1.slot_capacity >= 1 && d.candidate_capacity >= 1,
        d.pass1.template.len() == d.pass1.slot_capacity,
        d.pass2.template.len() == d.pass2.slot_capacity,
        0 <= s < src.plan.commands.len() ==> d.pass1.template[s] == src.plan.commands[s]
            && d.pass2.template[s] == src.plan.commands[s],
        src.plan.commands.len() <= s < d.pass1.slot_capacity ==> d.pass1.template[s].index_count
            == 0 && d.pass1.template[s].instance_count == 0,
        src.plan.commands.len() <= s < d.pass2.slot_capacity ==> d.pass2.template[s].index_count
            == 0 && d.pass2.template[s].instance_count == 0,
        before is None ==> d.pass1.mvp_capacity == if src.plan.total_renderers >= 1 {
            src.plan.total_renderers as int
        } else {
            1
        },
        before is None ==> d.pass1.slot_capacity == if src.plan.commands.len() >= 1 {
            src.plan.commands.len() as int
        } else {
            1
        },
        before is Some ==> d.pass1.mvp_capacity >= before->0.pass1.mvp_capacity
            && d.pass1.slot_capacity >= before->0.pass1.slot_capacity && d.pass2.mvp_capacity
            >= before->0.pass2.mvp_capacity && d.pass2.slot_capacity
            >= before->0.pass2.slot_capacity && d.candidate_capacity
            >= before->0.candidate_capacity,
{
}

/// A draw that is not outgrown can take the source as it is: the instances and
/// the commands fit, and the recorded counts are the source's.
pub proof fn current_draws_fit(d: WorldDraw, src: WorldSource)
    requires
        !d.is_outgrown(src),
    ensures
        src.plan.total_renderers <= d.pass1.mvp_capacity,
        src.plan.commands.len() <= d.pass1.slot_capacity,
        d.slot_count == src.plan.commands.len(),
        d.cull_range == src.capacity,
{
}

} // verus!
