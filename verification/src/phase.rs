//! The per-view render phase: drawable items, stable ordering, dispatch.
//!
//! Items are queued with a sort key, stably sorted ascending, and then
//! dispatched in order through a draw-function registry. Stability —
//! items with equal keys keep their insertion order — is what makes
//! frames reproducible, and is proved here as a law over the sorting
//! specification.

use vstd::prelude::*;
use crate::gpu::{
    BindGroupId, CachedRenderPipelineId, DrawFunctionId, Entity, GpuCommand, RenderContext,
};

verus! {

/// One drawable item queued for this phase: the entity it represents, its
/// sort key, the pipeline variant to bind, and the draw function to invoke.
#[derive(Clone, Copy, PartialEq, Eq, Structural, Debug)]
pub struct GizmoLine2d {
    pub sort_key: u64,
    pub pipeline: CachedRenderPipelineId,
    pub entity: Entity,
    pub draw_function: DrawFunctionId,
}

/// Ascending order by sort key.
pub open spec fn sorted_by_key(s: Seq<GizmoLine2d>) -> bool {
    forall|i: int, j: int| 0 <= i < j < s.len() ==> s[i].sort_key <= s[j].sort_key
}

/// Insert `item` after every element whose key is not greater: the
/// insertion step of a stable sort.
pub open spec fn stable_insert(s: Seq<GizmoLine2d>, item: GizmoLine2d) -> Seq<GizmoLine2d>
    decreases s.len(),
{
    if s.len() == 0 {
        seq![item]
    } else if s[0].sort_key <= item.sort_key {
        seq![s[0]] + stable_insert(s.drop_first(), item)
    } else {
        seq![item] + s
    }
}

/// The stable ascending sort of a sequence by sort key.
pub open spec fn stable_sort(s: Seq<GizmoLine2d>) -> Seq<GizmoLine2d>
    decreases s.len(),
{
    if s.len() == 0 {
        Seq::empty()
    } else {
        stable_insert(stable_sort(s.drop_last()), s.last())
    }
}

/// The subsequence of items carrying sort key `k`, in sequence order.
pub open spec fn with_key(s: Seq<GizmoLine2d>, k: u64) -> Seq<GizmoLine2d>
    decreases s.len(),
{
    if s.len() == 0 {
        Seq::empty()
    } else if s[0].sort_key == k {
        seq![s[0]] + with_key(s.drop_first(), k)
    } else {
        with_key(s.drop_first(), k)
    }
}

/// Selecting a key distributes over concatenation.
proof fn lemma_with_key_concat(a: Seq<GizmoLine2d>, b: Seq<GizmoLine2d>, k: u64)
    ensures
        with_key(a + b, k) == with_key(a, k) + with_key(b, k),
    decreases a.len(),
{
    if a.len() == 0 {
        assert(a + b =~= b);
        assert(with_key(a, k) + with_key(b, k) =~= with_key(b, k));
    } else {
        lemma_with_key_concat(a.drop_first(), b, k);
        assert((a + b).drop_first() =~= a.drop_first() + b);
        if a[0].sort_key == k {
            assert(seq![a[0]] + (with_key(a.drop_first(), k) + with_key(b, k)) =~= (seq![a[0]]
                + with_key(a.drop_first(), k)) + with_key(b, k));
        }
    }
}

/// A sequence none of whose items carry key `k` contributes nothing to it.
proof fn lemma_with_key_absent(s: Seq<GizmoLine2d>, k: u64)
    requires
        forall|i: int| 0 <= i < s.len() ==> (#[trigger] s[i]).sort_key != k,
    ensures
        with_key(s, k) == Seq::<GizmoLine2d>::empty(),
    decreases s.len(),
{
    if s.len() > 0 {
        lemma_with_key_absent(s.drop_first(), k);
    }
}

/// Every key in an insertion's result was the inserted item's key or one
/// already present.
proof fn lemma_stable_insert_keys(s: Seq<GizmoLine2d>, item: GizmoLine2d)
    ensures
        forall|i: int|
            0 <= i < stable_insert(s, item).len() ==> (#[trigger] stable_insert(s, item)[
                i
            ]).sort_key == item.sort_key || exists|t: int|
                0 <= t < s.len() && stable_insert(s, item)[i].sort_key == s[t].sort_key,
    decreases s.len(),
{
    if s.len() == 0 {
    } else if s[0].sort_key <= item.sort_key {
        lemma_stable_insert_keys(s.drop_first(), item);
        let result = stable_insert(s, item);
        let rest = stable_insert(s.drop_first(), item);
        assert forall|i: int|
            0 <= i < result.len() implies (#[trigger] result[i]).sort_key == item.sort_key
            || exists|t: int| 0 <= t < s.len() && result[i].sort_key == s[t].sort_key by {
            if i == 0 {
                assert(result[0].sort_key == s[0].sort_key);
            } else {
                assert(result[i] == rest[i - 1]);
                if rest[i - 1].sort_key != item.sort_key {
                    let t = choose|t: int|
                        0 <= t < s.drop_first().len() && rest[i - 1].sort_key == s.drop_first()[
                            t
                        ].sort_key;
                    assert(result[i].sort_key == s[t + 1].sort_key);
                }
            }
        }
    } else {
        let result = stable_insert(s, item);
        assert forall|i: int|
            0 <= i < result.len() implies (#[trigger] result[i]).sort_key == item.sort_key
            || exists|t: int| 0 <= t < s.len() && result[i].sort_key == s[t].sort_key by {
            if i > 0 {
                assert(result[i].sort_key == s[i - 1].sort_key);
            }
        }
    }
}

/// Inserting into an ordered sequence keeps it ordered.
proof fn lemma_stable_insert_sorted(s: Seq<GizmoLine2d>, item: GizmoLine2d)
    requires
        sorted_by_key(s),
    ensures
        sorted_by_key(stable_insert(s, item)),
    decreases s.len(),
{
    if s.len() == 0 {
    } else if s[0].sort_key <= item.sort_key {
        assert(sorted_by_key(s.drop_first()));
        lemma_stable_insert_sorted(s.drop_first(), item);
        lemma_stable_insert_keys(s.drop_first(), item);
        let result = stable_insert(s, item);
        let rest = stable_insert(s.drop_first(), item);
        assert forall|i: int, j: int|
            0 <= i < j < result.len() implies result[i].sort_key <= result[j].sort_key by {
            if i == 0 {
                assert(result[j] == rest[j - 1]);
                if rest[j - 1].sort_key != item.sort_key {
                    let t = choose|t: int|
                        0 <= t < s.drop_first().len() && rest[j - 1].sort_key == s.drop_first()[
                            t
                        ].sort_key;
                    assert(s[0].sort_key <= s[t + 1].sort_key);
                }
            } else {
                assert(result[i] == rest[i - 1] && result[j] == rest[j - 1]);
            }
        }
    } else {
    }
}

/// Inserting an item appends it to its key's subsequence and leaves every
/// other key's subsequence unchanged — provided the sequence inserted
/// into is ordered, as the sort's accumulator always is.
proof fn lemma_with_key_insert(s: Seq<GizmoLine2d>, item: GizmoLine2d, k: u64)
    requires
        sorted_by_key(s),
    ensures
        with_key(stable_insert(s, item), k) == if item.sort_key == k {
            with_key(s, k).push(item)
        } else {
            with_key(s, k)
        },
    decreases s.len(),
{
    reveal_with_fuel(with_key, 3);
    reveal_with_fuel(stable_insert, 2);
    if s.len() == 0 {
        if item.sort_key == k {
            assert(with_key(stable_insert(s, item), k) =~= with_key(s, k).push(item));
        }
    } else if s[0].sort_key <= item.sort_key {
        assert(sorted_by_key(s.drop_first()));
        lemma_with_key_insert(s.drop_first(), item, k);
        let rest = stable_insert(s.drop_first(), item);
        lemma_with_key_concat(seq![s[0]], rest, k);
        assert(seq![s[0]].drop_first() =~= Seq::<GizmoLine2d>::empty());
        if s[0].sort_key == k {
            assert(with_key(seq![s[0]], k) =~= seq![s[0]]);
        } else {
            assert(with_key(seq![s[0]], k) =~= Seq::<GizmoLine2d>::empty());
        }
        if item.sort_key == k {
            assert(with_key(seq![s[0]], k) + with_key(s.drop_first(), k).push(item) =~= (with_key(
                seq![s[0]],
                k,
            ) + with_key(s.drop_first(), k)).push(item));
        }
        assert(with_key(s, k) == with_key(seq![s[0]], k) + with_key(s.drop_first(), k));
    } else {
        lemma_with_key_concat(seq![item], s, k);
        assert(seq![item].drop_first() =~= Seq::<GizmoLine2d>::empty());
        if item.sort_key == k {
            assert(with_key(seq![item], k) =~= seq![item]);
            assert(forall|i: int| 0 <= i < s.len() ==> (#[trigger] s[i]).sort_key >= s[0].sort_key);
            lemma_with_key_absent(s, k);
            assert(seq![item] + Seq::<GizmoLine2d>::empty() =~= Seq::<
                GizmoLine2d,
            >::empty().push(item));
        } else {
            assert(with_key(seq![item], k) =~= Seq::<GizmoLine2d>::empty());
            assert(Seq::<GizmoLine2d>::empty() + with_key(s, k) =~= with_key(s, k));
        }
    }
}

/// The stable sort orders its input by key, and for every key `k` the
/// items carrying `k` stand in the result in exactly their original
/// (insertion) order: sorting is stable.
pub proof fn lemma_stable_sort_correct(s: Seq<GizmoLine2d>, k: u64)
    ensures
        sorted_by_key(stable_sort(s)),
        with_key(stable_sort(s), k) == with_key(s, k),
    decreases s.len(),
{
    reveal_with_fuel(with_key, 3);
    if s.len() == 0 {
    } else {
        lemma_stable_sort_correct(s.drop_last(), k);
        let sorted_prefix = stable_sort(s.drop_last());
        lemma_stable_insert_sorted(sorted_prefix, s.last());
        lemma_with_key_insert(sorted_prefix, s.last(), k);
        lemma_with_key_concat(s.drop_last(), seq![s.last()], k);
        assert(s =~= s.drop_last() + seq![s.last()]);
        assert(seq![s.last()].drop_first() =~= Seq::<GizmoLine2d>::empty());
        if s.last().sort_key == k {
            assert(with_key(seq![s.last()], k) =~= seq![s.last()]);
            assert(with_key(s.drop_last(), k) + seq![s.last()] =~= with_key(
                s.drop_last(),
                k,
            ).push(s.last()));
        } else {
            assert(with_key(seq![s.last()], k) =~= Seq::<GizmoLine2d>::empty());
            assert(with_key(s.drop_last(), k) + Seq::<GizmoLine2d>::empty() =~= with_key(
                s.drop_last(),
                k,
            ));
        }
    }
}

/// The exact position at which the sort's insertion step places an item:
/// before the first element with a greater key.
proof fn lemma_stable_insert_at(s: Seq<GizmoLine2d>, item: GizmoLine2d, j: int)
    requires
        0 <= j <= s.len(),
        forall|t: int| 0 <= t < j ==> (#[trigger] s[t]).sort_key <= item.sort_key,
        j < s.len() ==> s[j].sort_key > item.sort_key,
    ensures
        stable_insert(s, item) == s.insert(j, item),
    decreases j,
{
    if j == 0 {
        assert(stable_insert(s, item) =~= s.insert(0, item));
    } else {
        assert(s[0].sort_key <= item.sort_key);
        lemma_stable_insert_at(s.drop_first(), item, j - 1);
        assert(stable_insert(s, item) =~= s.insert(j, item));
    }
}

impl GizmoLine2d {
    /// The entity this item draws.
    pub fn entity(&self) -> (entity: Entity)
        ensures
            entity == self.entity,
    {
        self.entity
    }

    /// The key the phase orders by.
    pub fn sort_key(&self) -> (key: u64)
        ensures
            key == self.sort_key,
    {
        self.sort_key
    }

    /// The registered draw function dispatch will invoke for this item.
    pub fn draw_function(&self) -> (id: DrawFunctionId)
        ensures
            id == self.draw_function,
    {
        self.draw_function
    }

    /// The pipeline variant the draw function binds.
    pub fn cached_pipeline(&self) -> (id: CachedRenderPipelineId)
        ensures
            id == self.pipeline,
    {
        self.pipeline
    }

    /// Stable ascending sort by sort key: ties keep their insertion order.
    pub fn sort(items: &mut Vec<GizmoLine2d>)
        ensures
            final(items)@ == stable_sort(old(items)@),
    {
        let ghost input = items@;
        let mut out: Vec<GizmoLine2d> = Vec::new();
        proof {
            assert(input.take(0) =~= Seq::<GizmoLine2d>::empty());
        }
        let mut i: usize = 0;
        while i < items.len()
            invariant
                i <= items@.len(),
                items@ == input,
                out@ == stable_sort(input.take(i as int)),
            decreases items@.len() - i,
        {
            let item = items[i];
            let mut j: usize = 0;
            while j < out.len() && out[j].sort_key <= item.sort_key
                invariant
                    j <= out@.len(),
                    forall|t: int| 0 <= t < j ==> (#[trigger] out@[t]).sort_key <= item.sort_key,
                decreases out@.len() - j,
            {
                j = j + 1;
            }
            proof {
                lemma_stable_insert_at(out@, item, j as int);
                assert(input.take(i as int + 1).drop_last() =~= input.take(i as int));
                assert(input.take(i as int + 1).last() == input[i as int]);
            }
            out.insert(j, item);
            i = i + 1;
        }
        proof {
            assert(input.take(input.len() as int) =~= input);
        }
        *items = out;
    }
}

/// The drawable kinds this phase dispatches: the registry's
/// tagged-variant table maps identifiers to one of these.
#[derive(Clone, Copy, PartialEq, Eq, Structural, Debug)]
pub enum DrawFunctionKind {
    /// Bind the item's pipeline, the view and mesh binding sets, and draw
    /// the item's 2D mesh.
    GizmoLines,
}

/// The commands one draw-function invocation records for an item.
pub open spec fn draw_commands(
    kind: DrawFunctionKind,
    item: GizmoLine2d,
    view_bind_group: BindGroupId,
    mesh_bind_group: BindGroupId,
) -> Seq<GpuCommand> {
    match kind {
        DrawFunctionKind::GizmoLines => seq![
            GpuCommand::SetRenderPipeline { pipeline: item.pipeline },
            GpuCommand::SetBindGroup { index: 0, bind_group: view_bind_group },
            GpuCommand::SetBindGroup { index: 1, bind_group: mesh_bind_group },
            GpuCommand::DrawMesh { entity: item.entity },
        ],
    }
}

/// The commands dispatching a whole item sequence records, in item order.
pub open spec fn dispatch_commands(
    items: Seq<GizmoLine2d>,
    functions: Seq<DrawFunctionKind>,
    view_bind_group: BindGroupId,
    mesh_bind_group: BindGroupId,
) -> Seq<GpuCommand>
    decreases items.len(),
{
    if items.len() == 0 {
        Seq::empty()
    } else {
        draw_commands(
            functions[items[0].draw_function.id as int],
            items[0],
            view_bind_group,
            mesh_bind_group,
        ) + dispatch_commands(items.drop_first(), functions, view_bind_group, mesh_bind_group)
    }
}

/// Dispatch distributes over concatenation of item sequences.
proof fn lemma_dispatch_concat(
    a: Seq<GizmoLine2d>,
    b: Seq<GizmoLine2d>,
    functions: Seq<DrawFunctionKind>,
    view_bind_group: BindGroupId,
    mesh_bind_group: BindGroupId,
)
    ensures
        dispatch_commands(a + b, functions, view_bind_group, mesh_bind_group) == dispatch_commands(
            a,
            functions,
            view_bind_group,
            mesh_bind_group,
        ) + dispatch_commands(b, functions, view_bind_group, mesh_bind_group),
    decreases a.len(),
{
    if a.len() == 0 {
        assert(a + b =~= b);
        assert(dispatch_commands(a, functions, view_bind_group, mesh_bind_group)
            + dispatch_commands(b, functions, view_bind_group, mesh_bind_group) =~= dispatch_commands(
            b,
            functions,
            view_bind_group,
            mesh_bind_group,
        ));
    } else {
        lemma_dispatch_concat(a.drop_first(), b, functions, view_bind_group, mesh_bind_group);
        assert((a + b).drop_first() =~= a.drop_first() + b);
        assert((a + b)[0] == a[0]);
        assert(draw_commands(
            functions[a[0].draw_function.id as int],
            a[0],
            view_bind_group,
            mesh_bind_group,
        ) + (dispatch_commands(a.drop_first(), functions, view_bind_group, mesh_bind_group)
            + dispatch_commands(b, functions, view_bind_group, mesh_bind_group)) =~= (draw_commands(
            functions[a[0].draw_function.id as int],
            a[0],
            view_bind_group,
            mesh_bind_group,
        ) + dispatch_commands(a.drop_first(), functions, view_bind_group, mesh_bind_group))
            + dispatch_commands(b, functions, view_bind_group, mesh_bind_group));
    }
}

/// The identifier the registry assigned a kind: the first table index
/// holding it, if any.
pub open spec fn spec_kind_id(functions: Seq<DrawFunctionKind>, kind: DrawFunctionKind) -> Option<
    DrawFunctionId,
>
    decreases functions.len(),
{
    if functions.len() == 0 {
        None
    } else if functions[0] == kind {
        Some(DrawFunctionId { id: 0 })
    } else {
        match spec_kind_id(functions.drop_first(), kind) {
            Some(id) => Some(DrawFunctionId { id: (id.id + 1) as usize }),
            None => None,
        }
    }
}

/// The identifier a kind resolves to is the first table index holding it.
proof fn lemma_kind_id_first(functions: Seq<DrawFunctionKind>, kind: DrawFunctionKind)
    requires
        functions.len() <= usize::MAX,
    ensures
        match spec_kind_id(functions, kind) {
            Some(id) => id.id < functions.len() && functions[id.id as int] == kind && forall|t: int|
                0 <= t < id.id ==> functions[t] != kind,
            None => forall|t: int| 0 <= t < functions.len() ==> functions[t] != kind,
        },
    decreases functions.len(),
{
    if functions.len() == 0 {
    } else if functions[0] == kind {
    } else {
        lemma_kind_id_first(functions.drop_first(), kind);
        match spec_kind_id(functions.drop_first(), kind) {
            Some(id) => {
                assert forall|t: int|
                    0 <= t < id.id + 1 implies functions[t] != kind by {
                    if t > 0 {
                        assert(functions[t] == functions.drop_first()[t - 1]);
                    }
                }
            },
            None => {
                assert forall|t: int|
                    0 <= t < functions.len() implies functions[t] != kind by {
                    if t > 0 {
                        assert(functions[t] == functions.drop_first()[t - 1]);
                    }
                }
            },
        }
    }
}

/// The global draw-function registry: identifiers index into a table of
/// drawable kinds. Process-wide and read-mostly; passed explicitly so
/// every test can build a fresh one.
pub struct DrawFunctions {
    pub functions: Vec<DrawFunctionKind>,
}

impl DrawFunctions {
    pub fn new() -> (registry: DrawFunctions)
        ensures
            registry.functions@ == Seq::<DrawFunctionKind>::empty(),
    {
        DrawFunctions { functions: Vec::new() }
    }

    /// Register a drawable kind; its identifier indexes the table.
    pub fn add_function(&mut self, kind: DrawFunctionKind) -> (id: DrawFunctionId)
        ensures
            id.id == old(self).functions@.len(),
            final(self).functions@ == old(self).functions@.push(kind),
    {
        let id = DrawFunctionId { id: self.functions.len() };
        self.functions.push(kind);
        id
    }

    /// The identifier registered for a kind: the first table entry holding
    /// it, or nothing when the kind was never registered.
    pub fn id(&self, kind: DrawFunctionKind) -> (result: Option<DrawFunctionId>)
        ensures
            result == spec_kind_id(self.functions@, kind),
            result matches Some(id) ==> id.id < self.functions@.len() && self.functions@[
                id.id as int
            ] == kind && forall|t: int| 0 <= t < id.id ==> self.functions@[t] != kind,
            result is None ==> forall|t: int|
                0 <= t < self.functions@.len() ==> self.functions@[t] != kind,
    {
        let count: usize = self.functions.len();
        proof {
            lemma_kind_id_first(self.functions@, kind);
        }
        let mut i: usize = 0;
        while i < count
            invariant
                count == self.functions@.len(),
                i <= self.functions@.len(),
                forall|t: int| 0 <= t < i ==> self.functions@[t] != kind,
            decreases self.functions@.len() - i,
        {
            if self.functions[i] == kind {
                proof {
                    lemma_kind_id_first(self.functions@, kind);
                }
                return Some(DrawFunctionId { id: i });
            }
            i = i + 1;
        }
        None
    }
}

/// A view's ordered collection of drawable candidates awaiting dispatch.
pub struct RenderPhase {
    pub items: Vec<GizmoLine2d>,
}

impl RenderPhase {
    /// A fresh, empty collection: the state extraction installs per view.
    pub fn new() -> (phase: RenderPhase)
        ensures
            phase.items@ == Seq::<GizmoLine2d>::empty(),
    {
        RenderPhase { items: Vec::new() }
    }

    /// Queue one item; insertion order is kept until the sort step.
    pub fn add(&mut self, item: GizmoLine2d)
        ensures
            final(self).items@ == old(self).items@.push(item),
    {
        self.items.push(item);
    }

    /// Stable-sort the collection ascending by sort key.
    pub fn sort(&mut self)
        ensures
            final(self).items@ == stable_sort(old(self).items@),
    {
        GizmoLine2d::sort(&mut self.items);
    }

    /// Dispatch every item in collection order: look its draw function up
    /// in the registry and record that function's commands.
    pub fn render(
        &self,
        draw_functions: &DrawFunctions,
        view_bind_group: BindGroupId,
        mesh_bind_group: BindGroupId,
        render_context: &mut RenderContext,
    )
        requires
            forall|i: int|
                0 <= i < self.items@.len() ==> (#[trigger] self.items@[i]).draw_function.id
                    < draw_functions.functions@.len(),
        ensures
            final(render_context).commands@ == old(render_context).commands@ + dispatch_commands(
                self.items@,
                draw_functions.functions@,
                view_bind_group,
                mesh_bind_group,
            ),
            final(render_context).next_id == old(render_context).next_id,
    {
        let ghost items = self.items@;
        let ghost functions = draw_functions.functions@;
        proof {
            assert(items.take(0) =~= Seq::<GizmoLine2d>::empty());
            assert(old(render_context).commands@ + Seq::<GpuCommand>::empty() =~= old(
                render_context,
            ).commands@);
        }
        let mut i: usize = 0;
        while i < self.items.len()
            invariant
                i <= items.len(),
                items == self.items@,
                functions == draw_functions.functions@,
                forall|t: int|
                    0 <= t < items.len() ==> (#[trigger] items[t]).draw_function.id
                        < functions.len(),
                render_context.commands@ == old(render_context).commands@ + dispatch_commands(
                    items.take(i as int),
                    functions,
                    view_bind_group,
                    mesh_bind_group,
                ),
                render_context.next_id == old(render_context).next_id,
            decreases items.len() - i,
        {
            let item = self.items[i];
            let ghost before = render_context.commands@;
            match draw_functions.functions[item.draw_function.id] {
                DrawFunctionKind::GizmoLines => {
                    render_context.set_render_pipeline(item.pipeline);
                    render_context.set_bind_group(0, view_bind_group);
                    render_context.set_bind_group(1, mesh_bind_group);
                    render_context.draw_mesh(item.entity);
                },
            }
            proof {
                reveal_with_fuel(dispatch_commands, 3);
                assert(render_context.commands@ =~= before + draw_commands(
                    functions[item.draw_function.id as int],
                    item,
                    view_bind_group,
                    mesh_bind_group,
                ));
                lemma_dispatch_concat(
                    items.take(i as int),
                    seq![item],
                    functions,
                    view_bind_group,
                    mesh_bind_group,
                );
                assert(items.take(i as int + 1) =~= items.take(i as int) + seq![item]);
                assert(seq![item].drop_first() =~= Seq::<GizmoLine2d>::empty());
                assert(dispatch_commands(
                    seq![item],
                    functions,
                    view_bind_group,
                    mesh_bind_group,
                ) =~= draw_commands(
                    functions[item.draw_function.id as int],
                    item,
                    view_bind_group,
                    mesh_bind_group,
                ));
                assert(render_context.commands@ =~= old(render_context).commands@
                    + dispatch_commands(
                    items.take(i as int + 1),
                    functions,
                    view_bind_group,
                    mesh_bind_group,
                ));
            }
            i = i + 1;
        }
        proof {
            assert(items.take(items.len() as int) =~= items);
        }
    }
}

} // verus!
