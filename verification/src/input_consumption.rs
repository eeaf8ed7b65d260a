use vstd::prelude::*;
use vstd::std_specs::bits::*;

verus! {

/// Bit `j` of `a` is set.
pub open spec fn bit_set(a: u8, j: u8) -> bool {
    (a >> j) & 1u8 == 1u8
}

/// The input layer an entity consumes: one of eight layers, a higher layer taking priority
/// over the lower ones.
#[derive(Clone, Copy, Debug)]
pub struct InputConsumerPriority(u8);

impl InputConsumerPriority {
    #[verifier::type_invariant]
    spec fn layer_in_range(self) -> bool {
        self.0 < 8
    }

    /// The layer number (0 to 7).
    pub closed spec fn layer(self) -> u8 {
        self.0
    }

    /// Creates a new `InputConsumerPriority` for a single layer, which must be below 8.
    pub fn new(layer: u8) -> (priority: Self)
        requires
            layer < 8,
        ensures
            priority.layer() == layer,
    {
        InputConsumerPriority(layer)
    }

    /// Returns the layer that this `InputConsumerPriority` is set to consume.
    pub fn get_layer(&self) -> (layer: u8)
        ensures
            layer == self.layer(),
            layer < 8,
    {
        proof {
            use_type_invariant(self);
        }
        self.0
    }

    /// The one-hot mask of the layer.
    pub fn mask(&self) -> (mask: u8)
        ensures
            mask == 1u8 << self.layer(),
            self.layer() < 8,
    {
        proof {
            use_type_invariant(self);
        }
        1u8 << self.0
    }
}

/// The activation status and the number of users of each of the eight layers of UI elements
/// that listen for user input.
#[derive(Debug)]
pub struct ActiveInputConsumerLayers {
    /// Byte where each bit represents a layer, where 1 means active and 0 means inactive.
    active_layers: u8,
    /// The current number of users of each layer.
    layer_user_count: [usize; 8],
}

proof fn lemma_bit_after_or(a: u8, k: u8, j: u8)
    requires
        k < 8,
        j < 8,
    ensures
        bit_set(a | (1u8 << k), j) == (j == k || bit_set(a, j)),
{
    assert(bit_set(a | (1u8 << k), j) == (j == k || bit_set(a, j))) by (bit_vector)
        requires
            k < 8,
            j < 8,
    ;
}

proof fn lemma_bit_after_and_not(a: u8, k: u8, j: u8)
    requires
        k < 8,
        j < 8,
    ensures
        bit_set(a & !(1u8 << k), j) == (j != k && bit_set(a, j)),
{
    assert(bit_set(a & !(1u8 << k), j) == (j != k && bit_set(a, j))) by (bit_vector)
        requires
            k < 8,
            j < 8,
    ;
}

proof fn lemma_and_mask(a: u8, k: u8)
    requires
        k < 8,
    ensures
        (a & (1u8 << k) != 0) == bit_set(a, k),
{
    assert((a & (1u8 << k) != 0) == bit_set(a, k)) by (bit_vector)
        requires
            k < 8,
    ;
}

proof fn lemma_zero_bits(j: u8)
    requires
        j < 8,
    ensures
        !bit_set(0u8, j),
{
    assert(!bit_set(0u8, j)) by (bit_vector);
}

/// The leading-zeros comparison of the layers against a one-hot layer mask holds exactly
/// when no bit above the layer is set.
proof fn lemma_leading_zeros_allowed(a: u8, k: u8)
    requires
        k < 8,
    ensures
        (u8_leading_zeros(a) >= u8_leading_zeros(1u8 << k)) <==> (forall|j: u8|
            k < j < 8 ==> !#[trigger] bit_set(a, j)),
{
    axiom_u8_leading_zeros(a);
    axiom_u8_leading_zeros(1u8 << k);
    let lk = u8_leading_zeros(1u8 << k);
    assert(1u8 << k != 0u8) by (bit_vector)
        requires
            k < 8,
    ;
    let s = (7 - lk) as u8;
    assert(((1u8 << k) >> s) & 1u8 != 0u8 ==> s == k) by (bit_vector)
        requires
            k < 8,
    ;
    assert(lk == 7 - k);
    let la = u8_leading_zeros(a);
    if la >= lk {
        assert forall|j: u8| k < j < 8 implies !#[trigger] bit_set(a, j) by {
            assert((a >> j) & 1u8 == 0u8);
        }
    } else {
        let w = (7 - la) as u8;
        assert((a >> w) & 1u8 != 0u8);
        assert((a >> w) & 1u8 != 0u8 ==> (a >> w) & 1u8 == 1u8) by (bit_vector);
        assert(bit_set(a, w));
        assert(k < w < 8);
    }
}

impl ActiveInputConsumerLayers {
    #[verifier::type_invariant]
    spec fn active_iff_used(self) -> bool {
        forall|j: u8| j < 8 ==> (#[trigger] bit_set(self.active_layers, j) <==> self.layer_user_count@[j as int] > 0)
    }

    /// The number of users of a layer.
    pub closed spec fn user_count(self, layer: u8) -> nat {
        self.layer_user_count@[layer as int] as nat
    }

    /// Creates new `ActiveInputConsumerLayers` with no active layers.
    pub fn new() -> (layers: Self)
        ensures
            forall|j: u8| j < 8 ==> #[trigger] layers.user_count(j) == 0,
    {
        proof {
            assert forall|j: u8| j < 8 implies !#[trigger] bit_set(0u8, j) by {
                lemma_zero_bits(j);
            }
        }
        ActiveInputConsumerLayers { active_layers: 0u8, layer_user_count: [0; 8] }
    }

    /// Activates the specified layer, and increases its user count.
    pub fn activate_layer(&mut self, layer: &InputConsumerPriority)
        requires
            old(self).user_count(layer.layer()) < usize::MAX,
        ensures
            final(self).user_count(layer.layer()) == old(self).user_count(layer.layer()) + 1,
            forall|j: u8| j < 8 && j != layer.layer() ==> #[trigger] final(self).user_count(j) == old(self).user_count(j),
    {
        proof {
            use_type_invariant(&*self);
        }
        let mask = layer.mask();
        let k = layer.get_layer();
        let mut counts = self.layer_user_count;
        counts[k as usize] = counts[k as usize] + 1;
        let active = self.active_layers | mask;
        proof {
            assert forall|j: u8| j < 8 implies (#[trigger] bit_set(active, j) <==> counts@[j as int] > 0) by {
                lemma_bit_after_or(self.active_layers, k, j);
            }
        }
        *self = ActiveInputConsumerLayers { active_layers: active, layer_user_count: counts };
    }

    /// Decreases the user count for the specified layer (if it has users) and deactivates it
    /// when no more users are using it.
    pub fn deactivate_layer(&mut self, layer: &InputConsumerPriority)
        ensures
            final(self).user_count(layer.layer()) == if old(self).user_count(layer.layer()) > 0 {
                old(self).user_count(layer.layer()) - 1
            } else {
                0
            },
            forall|j: u8| j < 8 && j != layer.layer() ==> #[trigger] final(self).user_count(j) == old(self).user_count(j),
    {
        proof {
            use_type_invariant(&*self);
        }
        let mask = layer.mask();
        let k = layer.get_layer();
        if self.layer_user_count[k as usize] > 0 {
            let mut counts = self.layer_user_count;
            counts[k as usize] = counts[k as usize] - 1;
            if counts[k as usize] == 0 {
                let active = self.active_layers & !mask;
                proof {
                    assert forall|j: u8| j < 8 implies (#[trigger] bit_set(active, j) <==> counts@[j as int] > 0) by {
                        lemma_bit_after_and_not(self.active_layers, k, j);
                    }
                }
                *self = ActiveInputConsumerLayers { active_layers: active, layer_user_count: counts };
            } else {
                let active = self.active_layers;
                *self = ActiveInputConsumerLayers { active_layers: active, layer_user_count: counts };
            }
        }
    }

    /// Checks whether the specified layer has active users.
    pub fn is_layer_active(&self, layer: &InputConsumerPriority) -> (active: bool)
        ensures
            active <==> self.user_count(layer.layer()) > 0,
    {
        proof {
            use_type_invariant(self);
        }
        let mask = layer.mask();
        proof {
            lemma_and_mask(self.active_layers, layer.layer());
        }
        self.active_layers & mask != 0
    }

    /// Checks whether the specified layer has no higher layer with users blocking it.
    pub fn is_input_allowed_for_layer(&self, layer: &InputConsumerPriority) -> (allowed: bool)
        ensures
            allowed <==> (forall|j: u8| layer.layer() < j < 8 ==> #[trigger] self.user_count(j) == 0),
    {
        proof {
            use_type_invariant(self);
        }
        let mask = layer.mask();
        proof {
            lemma_leading_zeros_allowed(self.active_layers, layer.layer());
        }
        let allowed = self.active_layers.leading_zeros() >= mask.leading_zeros();
        proof {
            if allowed {
                assert forall|j: u8| layer.layer() < j < 8 implies #[trigger] self.user_count(j) == 0 by {
                    assert(!bit_set(self.active_layers, j));
                }
            } else {
                let w = choose|j: u8| layer.layer() < j < 8 && #[trigger] bit_set(self.active_layers, j);
                assert(self.user_count(w) > 0);
            }
        }
        allowed
    }

    /// Checks whether the specified layer has a higher layer with users blocking it.
    pub fn is_input_blocked_for_layer(&self, layer: &InputConsumerPriority) -> (blocked: bool)
        ensures
            blocked <==> (exists|j: u8| layer.layer() < j < 8 && #[trigger] self.user_count(j) > 0),
    {
        proof {
            use_type_invariant(self);
        }
        let mask = layer.mask();
        proof {
            lemma_leading_zeros_allowed(self.active_layers, layer.layer());
        }
        let blocked = self.active_layers.leading_zeros() < mask.leading_zeros();
        proof {
            if blocked {
                let w = choose|j: u8| layer.layer() < j < 8 && #[trigger] bit_set(self.active_layers, j);
                assert(self.user_count(w) > 0);
            } else {
                assert forall|j: u8| layer.layer() < j < 8 implies !(#[trigger] self.user_count(j) > 0) by {
                    assert(!bit_set(self.active_layers, j));
                }
            }
        }
        blocked
    }

    /// Deactivates all layers.
    pub fn clear(&mut self)
        ensures
            forall|j: u8| j < 8 ==> #[trigger] final(self).user_count(j) == 0,
    {
        *self = Self::new();
    }
}

/// Activating a layer and then deactivating it gives every layer back its user count.
pub proof fn lemma_activate_then_deactivate_restores(
    before: ActiveInputConsumerLayers,
    during: ActiveInputConsumerLayers,
    after: ActiveInputConsumerLayers,
    layer: InputConsumerPriority,
)
    requires
        during.user_count(layer.layer()) == before.user_count(layer.layer()) + 1,
        forall|j: u8| j < 8 && j != layer.layer() ==> #[trigger] during.user_count(j) == before.user_count(j),
        after.user_count(layer.layer()) == if during.user_count(layer.layer()) > 0 {
            during.user_count(layer.layer()) - 1
        } else {
            0
        },
        forall|j: u8| j < 8 && j != layer.layer() ==> #[trigger] after.user_count(j) == during.user_count(j),
    ensures
        forall|j: u8| j < 8 ==> #[trigger] after.user_count(j) == before.user_count(j),
{
}

/// Input to a layer is allowed exactly when it is not blocked.
pub proof fn lemma_allowed_iff_not_blocked(layers: ActiveInputConsumerLayers, layer: InputConsumerPriority)
    ensures
        (forall|j: u8| layer.layer() < j < 8 ==> #[trigger] layers.user_count(j) == 0) <==> !(exists|j: u8| layer.layer()
            < j < 8 && #[trigger] layers.user_count(j) > 0),
{
}

/// Whether an element is shown.
#[derive(Clone, Copy, Debug, PartialEq, Eq, Structural)]
pub enum Visibility {
    Visible,
    Hidden,
    /// Shown as its parent is.
    Inherited,
}

/// The user count of `layer` after activations (`true`) and deactivations (`false`) of layers,
/// in order; a deactivation of an unused layer leaves it unused.
pub open spec fn count_after(count: nat, layer: u8, ops: Seq<(u8, bool)>) -> nat
    decreases ops.len(),
{
    if ops.len() == 0 {
        count
    } else {
        let c = count_after(count, layer, ops.drop_last());
        let (l, up) = ops.last();
        if l != layer {
            c
        } else if up {
            c + 1
        } else if c > 0 {
            (c - 1) as nat
        } else {
            0
        }
    }
}

/// The layers of the activations and deactivations.
pub open spec fn op_layers(ops: Seq<(InputConsumerPriority, bool)>) -> Seq<(u8, bool)> {
    ops.map_values(|o: (InputConsumerPriority, bool)| (o.0.layer(), o.1))
}

/// Each added consumer activates its layer.
pub open spec fn activations(added: Seq<InputConsumerPriority>) -> Seq<(u8, bool)> {
    added.map_values(|p: InputConsumerPriority| (p.layer(), true))
}

/// A consumer that becomes hidden deactivates its layer; one that becomes shown (visible or
/// inheriting) activates it.
pub open spec fn visibility_ops(changes: Seq<(InputConsumerPriority, Visibility)>) -> Seq<(u8, bool)> {
    changes.map_values(|c: (InputConsumerPriority, Visibility)| (c.0.layer(), c.1 != Visibility::Hidden))
}

/// The number of consumers of `layer` that are shown (with no visibility, or visible, or
/// inheriting).
pub open spec fn shown_count(consumers: Seq<(InputConsumerPriority, Option<Visibility>)>, layer: u8) -> nat
    decreases consumers.len(),
{
    if consumers.len() == 0 {
        0
    } else {
        let before = shown_count(consumers.drop_last(), layer);
        let (p, v) = consumers.last();
        if p.layer() == layer && v != Some(Visibility::Hidden) {
            before + 1
        } else {
            before
        }
    }
}

proof fn lemma_count_after_bound(count: nat, layer: u8, ops: Seq<(u8, bool)>)
    ensures
        count_after(count, layer, ops) <= count + ops.len(),
    decreases ops.len(),
{
    if ops.len() > 0 {
        lemma_count_after_bound(count, layer, ops.drop_last());
    }
}

proof fn lemma_shown_count_bound(consumers: Seq<(InputConsumerPriority, Option<Visibility>)>, layer: u8)
    ensures
        shown_count(consumers, layer) <= consumers.len(),
    decreases consumers.len(),
{
    if consumers.len() > 0 {
        lemma_shown_count_bound(consumers.drop_last(), layer);
    }
}

impl ActiveInputConsumerLayers {
    /// Applies activations and deactivations of layers, in order.
    fn apply_ops(&mut self, ops: &Vec<(InputConsumerPriority, bool)>)
        requires
            forall|j: u8| j < 8 ==> #[trigger] old(self).user_count(j) + ops@.len() < usize::MAX,
        ensures
            forall|j: u8| j < 8 ==> #[trigger] final(self).user_count(j) == count_after(
                old(self).user_count(j),
                j,
                op_layers(ops@),
            ),
    {
        let ghost start = *self;
        let ghost all = op_layers(ops@);
        let mut i: usize = 0;
        while i < ops.len()
            invariant
                i <= ops@.len(),
                all == op_layers(ops@),
                forall|j: u8| j < 8 ==> #[trigger] start.user_count(j) + ops@.len() < usize::MAX,
                forall|j: u8| j < 8 ==> #[trigger] self.user_count(j) == count_after(
                    start.user_count(j),
                    j,
                    all.subrange(0, i as int),
                ),
            decreases ops@.len() - i,
        {
            let (layer, up) = ops[i];
            proof {
                assert(all.subrange(0, i + 1).drop_last() =~= all.subrange(0, i as int));
                assert(all.subrange(0, i + 1).last() == (layer.layer(), up));
                lemma_count_after_bound(start.user_count(layer.layer()), layer.layer(), all.subrange(0, i as int));
                use_type_invariant(&layer);
            }
            if up {
                self.activate_layer(&layer);
            } else {
                self.deactivate_layer(&layer);
            }
            i = i + 1;
        }
        proof {
            assert(all.subrange(0, ops@.len() as int) =~= all);
        }
    }
}

/// Keeps the layer users up to date. Without removed consumers, added consumers activate their
/// layers, then consumers whose visibility changed activate (shown) or deactivate (hidden)
/// theirs; once any consumer was removed, the users are counted again from scratch: every
/// shown consumer uses its layer.
pub fn handle_input_consumption_priority_change(
    layers: &mut ActiveInputConsumerLayers,
    any_removed: bool,
    added: &Vec<InputConsumerPriority>,
    changed: &Vec<(InputConsumerPriority, Visibility)>,
    consumers: &Vec<(InputConsumerPriority, Option<Visibility>)>,
)
    requires
        !any_removed ==> forall|j: u8| j < 8 ==> #[trigger] old(layers).user_count(j) + added@.len() + changed@.len()
            < usize::MAX,
        any_removed ==> consumers@.len() < usize::MAX,
    ensures
        !any_removed ==> forall|j: u8| j < 8 ==> #[trigger] final(layers).user_count(j) == count_after(
            count_after(old(layers).user_count(j), j, activations(added@)),
            j,
            visibility_ops(changed@),
        ),
        any_removed ==> forall|j: u8| j < 8 ==> #[trigger] final(layers).user_count(j) == shown_count(consumers@, j),
{
    if !any_removed {
        let mut ops: Vec<(InputConsumerPriority, bool)> = Vec::new();
        let mut i: usize = 0;
        while i < added.len()
            invariant
                i <= added@.len(),
                ops@.len() == i,
                forall|k: int| 0 <= k < i ==> #[trigger] ops@[k] == (added@[k], true),
            decreases added@.len() - i,
        {
            ops.push((added[i], true));
            i = i + 1;
        }
        let ghost start = *layers;
        proof {
            assert(op_layers(ops@) =~= activations(added@));
        }
        layers.apply_ops(&ops);
        let mut changes: Vec<(InputConsumerPriority, bool)> = Vec::new();
        let mut k: usize = 0;
        while k < changed.len()
            invariant
                k <= changed@.len(),
                changes@.len() == k,
                forall|m: int| 0 <= m < k ==> #[trigger] changes@[m] == (changed@[m].0, changed@[m].1 != Visibility::Hidden),
            decreases changed@.len() - k,
        {
            let (p, v) = changed[k];
            changes.push((p, v != Visibility::Hidden));
            k = k + 1;
        }
        proof {
            assert(op_layers(changes@) =~= visibility_ops(changed@));
            assert forall|j: u8| j < 8 implies #[trigger] layers.user_count(j) + changes@.len() < usize::MAX by {
                lemma_count_after_bound(start.user_count(j), j, activations(added@));
            }
        }
        layers.apply_ops(&changes);
    } else {
        layers.clear();
        let mut ops: Vec<(InputConsumerPriority, bool)> = Vec::new();
        let mut i: usize = 0;
        while i < consumers.len()
            invariant
                i <= consumers@.len(),
                ops@.len() <= i,
                forall|m: int| 0 <= m < ops@.len() ==> (#[trigger] ops@[m]).1,
                forall|j: u8| j < 8 ==> #[trigger] count_after(0, j, op_layers(ops@))
                    == shown_count(consumers@.subrange(0, i as int), j),
            decreases consumers@.len() - i,
        {
            let (p, v) = consumers[i];
            let ghost before = ops@;
            proof {
                assert(consumers@.subrange(0, i + 1).drop_last() =~= consumers@.subrange(0, i as int));
            }
            let shown = match v {
                Some(Visibility::Hidden) => false,
                _ => true,
            };
            proof {
                assert(consumers@.subrange(0, i + 1).last() == (p, v));
            }
            if shown {
                ops.push((p, true));
                proof {
                    assert(op_layers(ops@).drop_last() =~= op_layers(before));
                    assert(op_layers(ops@).last() == (p.layer(), true));
                    assert forall|j: u8| j < 8 implies #[trigger] count_after(0, j, op_layers(ops@)) == shown_count(
                        consumers@.subrange(0, i + 1),
                        j,
                    ) by {
                        assert(count_after(0, j, op_layers(before)) == shown_count(consumers@.subrange(0, i as int), j));
                    }
                }
            } else {
                proof {
                    assert forall|j: u8| j < 8 implies #[trigger] count_after(0, j, op_layers(ops@)) == shown_count(
                        consumers@.subrange(0, i + 1),
                        j,
                    ) by {
                        assert(count_after(0, j, op_layers(before)) == shown_count(consumers@.subrange(0, i as int), j));
                    }
                }
            }
            i = i + 1;
        }
        proof {
            assert(consumers@.subrange(0, consumers@.len() as int) =~= consumers@);
        }
        layers.apply_ops(&ops);
    }
}

} // verus!
