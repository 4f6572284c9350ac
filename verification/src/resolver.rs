//! The resolver: a profile's layers are expanded, depth first, into the named
//! variants they describe.

use crate::layer::{resolve_each, Layer, LayerView, ResolvedLayer, ResolvedLayerView};
use crate::layer::lemma_resolve_within_width;
use crate::text::{lemma_two_digits, push_two_digits, two_digits};
use vstd::prelude::*;
use vstd::string::*;

verus! {

/// One concrete plan: the ordered steps of a single variant, under its name.
#[derive(Debug)]
pub struct Variant {
    layers: Vec<ResolvedLayer>,
    name: String,
}

/// The mathematical value of a [`Variant`].
pub struct VariantView {
    pub name: Seq<char>,
    pub layers: Seq<ResolvedLayerView>,
}

impl View for Variant {
    type V = VariantView;

    closed spec fn view(&self) -> VariantView {
        VariantView { name: self.name@, layers: self.layers.deep_view() }
    }
}

impl DeepView for Variant {
    type V = VariantView;

    open spec fn deep_view(&self) -> VariantView {
        self@
    }
}

/// A copy of a sequence of steps.
pub fn clone_steps(steps: &[ResolvedLayer]) -> (copy: Vec<ResolvedLayer>)
    ensures
        copy.deep_view() == steps.deep_view(),
{
    let mut copy: Vec<ResolvedLayer> = Vec::new();
    let mut i: usize = 0;
    while i < steps.len()
        invariant
            i <= steps.len(),
            copy.len() == i,
            forall|j: int| 0 <= j < i ==> copy@[j]@ == steps@[j]@,
        decreases steps.len() - i,
    {
        copy.push(steps[i].clone());
        i += 1;
    }
    assert(copy.deep_view() =~= steps.deep_view());
    copy
}

impl Variant {
    /// The variant called `name` that takes the steps `layers` in order.
    pub fn new(name: String, layers: Vec<ResolvedLayer>) -> (variant: Self)
        ensures
            variant@ == (VariantView { name: name@, layers: layers.deep_view() }),
    {
        Variant { layers, name }
    }

    /// The name of this variant.
    pub fn name(&self) -> (name: &String)
        ensures
            name@ == self@.name,
    {
        &self.name
    }

    /// The steps of this variant, in the order in which they are applied.
    pub fn layers(&self) -> (layers: &Vec<ResolvedLayer>)
        ensures
            layers.deep_view() == self@.layers,
    {
        &self.layers
    }

    /// Takes the variant apart into its name and its steps.
    pub fn into_parts(self) -> (parts: (String, Vec<ResolvedLayer>))
        ensures
            parts.0@ == self@.name,
            parts.1.deep_view() == self@.layers,
    {
        (self.name, self.layers)
    }
}

impl Clone for Variant {
    fn clone(&self) -> (copy: Self)
        ensures
            copy@ == self@,
    {
        let steps = self.layers.as_slice();
        assert(steps.deep_view() =~= self.layers.deep_view());
        let layers = clone_steps(steps);
        Variant { layers, name: self.name.clone() }
    }
}

/// A named list of layers, as a user declares it.
#[derive(Debug)]
pub struct Profile {
    pub name: String,
    pub layers: Vec<Layer>,
}

/// The mathematical value of a [`Profile`].
pub struct ProfileView {
    pub name: Seq<char>,
    pub layers: Seq<LayerView>,
}

impl View for Profile {
    type V = ProfileView;

    open spec fn view(&self) -> ProfileView {
        ProfileView { name: self.name@, layers: self.layers.deep_view() }
    }
}

impl DeepView for Profile {
    type V = ProfileView;

    open spec fn deep_view(&self) -> ProfileView {
        self@
    }
}

/// A copy of a list of layers.
pub fn clone_layers(layers: &Vec<Layer>) -> (copy: Vec<Layer>)
    ensures
        copy.deep_view() == layers.deep_view(),
{
    let mut copy: Vec<Layer> = Vec::new();
    let mut i: usize = 0;
    while i < layers.len()
        invariant
            i <= layers.len(),
            copy.len() == i,
            forall|j: int| 0 <= j < i ==> copy@[j]@ == layers@[j]@,
        decreases layers.len() - i,
    {
        copy.push(layers[i].clone());
        i += 1;
    }
    assert(copy.deep_view() =~= layers.deep_view());
    copy
}

impl Clone for Profile {
    fn clone(&self) -> (copy: Self)
        ensures
            copy@ == self@,
    {
        Profile { name: self.name.clone(), layers: clone_layers(&self.layers) }
    }
}

/// Why a profile's layers describe no variant at all.
#[derive(Debug)]
pub enum ResolveError {
    /// The only layer of the list resolved to nothing, and no further layer
    /// was left to fall back on. `name` is the name the variant would have had.
    MalformedTree { name: String },
}

/// The mathematical value of a [`ResolveError`].
pub enum ResolveErrorView {
    MalformedTree { name: Seq<char> },
}

impl View for ResolveError {
    type V = ResolveErrorView;

    open spec fn view(&self) -> ResolveErrorView {
        match *self {
            ResolveError::MalformedTree { name } => ResolveErrorView::MalformedTree { name: name@ },
        }
    }
}

/// The words a malformed tree is reported with, before the name is added.
pub open spec fn malformed_tree_text() -> Seq<char> {
    "malformed layer tree: conditional resolved to nothing with no further layers to fall back on: "@
}

impl ResolveError {
    /// The error in words, ending in the name of the variant concerned.
    pub fn message(&self) -> (text: String)
        ensures
            self@ matches ResolveErrorView::MalformedTree { name } && text@ == malformed_tree_text()
                + name,
    {
        match self {
            ResolveError::MalformedTree { name } => {
                let text = String::from_str(
                    "malformed layer tree: conditional resolved to nothing with no further layers to fall back on: ",
                );
                text.concat(name.as_str())
            },
        }
    }
}

/// The name of the alternative at `index`, where a layer resolved to
/// `alternatives` steps under the name `name`: with more than one alternative
/// the index is added, padded to two digits; a single alternative keeps the
/// name as it is.
pub open spec fn branch_name(name: Seq<char>, alternatives: nat, index: nat) -> Seq<char> {
    if alternatives > 1 {
        name + two_digits(index)
    } else {
        name
    }
}

/// The variants of the layers `coming`, in a path whose steps so far are
/// `previous` and whose name so far is `name`.
///
/// With nothing coming, the path is one variant. A layer that resolves to
/// nothing is passed over, under the same name. Otherwise every alternative
/// continues the path on its own, in the order of the alternatives.
pub open spec fn expand(
    previous: Seq<ResolvedLayerView>,
    coming: Seq<LayerView>,
    name: Seq<char>,
) -> Seq<VariantView>
    decreases coming.len(), 0nat,
{
    if coming.len() == 0 {
        seq![VariantView { name, layers: previous }]
    } else {
        let alternatives = coming[0].resolve(previous);
        if alternatives.len() == 0 {
            expand(previous, coming.drop_first(), name)
        } else {
            expand_from(previous, alternatives, 0, coming.drop_first(), name)
        }
    }
}

/// The variants of the alternatives from the index `from` on, each followed by
/// the layers `rest`.
pub open spec fn expand_from(
    previous: Seq<ResolvedLayerView>,
    alternatives: Seq<ResolvedLayerView>,
    from: nat,
    rest: Seq<LayerView>,
    name: Seq<char>,
) -> Seq<VariantView>
    decreases rest.len(), 1 + alternatives.len() - from,
{
    if from >= alternatives.len() {
        Seq::empty()
    } else {
        expand(
            previous.push(alternatives[from as int]),
            rest,
            branch_name(name, alternatives.len(), from),
        ) + expand_from(previous, alternatives, from + 1, rest, name)
    }
}

/// Whether the list is a single layer that resolves to nothing at the very
/// start: such a list describes no variant and is refused.
pub open spec fn malformed(layers: Seq<LayerView>) -> bool {
    layers.len() == 1 && layers[0].resolve(Seq::empty()).len() == 0
}

/// What a list of layers expands to under the name `name`: the error for a
/// malformed list, and otherwise its variants in depth-first order.
pub open spec fn expansion(layers: Seq<LayerView>, name: Seq<char>) -> Result<
    Seq<VariantView>,
    ResolveErrorView,
> {
    if malformed(layers) {
        Err(ResolveErrorView::MalformedTree { name })
    } else {
        Ok(expand(Seq::empty(), layers, name))
    }
}

/// The mathematical value of the outcome of an expansion.
pub open spec fn outcome_view(outcome: Result<Vec<Variant>, ResolveError>) -> Result<
    Seq<VariantView>,
    ResolveErrorView,
> {
    match outcome {
        Ok(variants) => Ok(variants.deep_view()),
        Err(error) => Err(error@),
    }
}

/// The name of one alternative out of `alternatives`.
fn name_branch(name: &String, alternatives: usize, index: usize) -> (branch: String)
    ensures
        branch@ == branch_name(name@, alternatives as nat, index as nat),
{
    let mut branch = name.clone();
    if alternatives > 1 {
        push_two_digits(&mut branch, index);
    }
    branch
}

impl Profile {
    /// The variants of this profile's layers, named after `name`.
    ///
    /// A list made of a single layer that resolves to nothing is refused as
    /// malformed. Every other list gives its variants in depth-first order.
    /// Their names are pairwise distinct as long as no layer can contribute
    /// more than a hundred steps.
    pub fn get_variants(self, name: String) -> (outcome: Result<Vec<Variant>, ResolveError>)
        ensures
            outcome_view(outcome) == expansion(self@.layers, name@),
            narrow(self@.layers) ==> (outcome matches Ok(variants) ==> names_distinct(
                variants.deep_view(),
            )),
    {
        proof {
            if narrow(self@.layers) {
                lemma_variant_names_are_unique(self@.layers, name@);
            }
        }
        let previous: Vec<ResolvedLayer> = Vec::new();
        assert(previous.deep_view() =~= Seq::<ResolvedLayerView>::empty());
        let nothing = previous.as_slice();
        assert(nothing.deep_view() =~= previous.deep_view());
        if self.layers.len() == 1 {
            let first = self.layers[0].clone().resolve(nothing);
            if first.len() == 0 {
                return Err(ResolveError::MalformedTree { name });
            }
        }
        assert(self.layers.deep_view().skip(0) =~= self.layers.deep_view());
        Ok(Self::get_variants_rec(&previous, &self.layers, 0, name))
    }

    /// The variants of the layers of `coming` from `start` on, in a path whose
    /// steps so far are `prev` and whose name so far is `name`.
    fn get_variants_rec(
        prev: &Vec<ResolvedLayer>,
        coming: &Vec<Layer>,
        start: usize,
        name: String,
    ) -> (variants: Vec<Variant>)
        requires
            start <= coming.len(),
        ensures
            variants.deep_view() == expand(
                prev.deep_view(),
                coming.deep_view().skip(start as int),
                name@,
            ),
        decreases coming.len() - start,
    {
        let ghost previous = prev.deep_view();
        let ghost queue = coming.deep_view();
        let steps = prev.as_slice();
        assert(steps.deep_view() =~= previous);
        if start >= coming.len() {
            let variants = vec![Variant { layers: clone_steps(steps), name }];
            assert(variants.deep_view() =~= seq![VariantView { name: name@, layers: previous }]);
            return variants;
        }
        let mut at: usize = start;
        let mut resolved = coming[at].clone().resolve(steps);
        at += 1;
        proof {
            assert(queue.skip(start as int)[0] == queue[start as int]);
            assert(queue.skip(start as int).drop_first() =~= queue.skip(at as int));
        }
        while resolved.len() == 0 && at < coming.len()
            invariant
                start < at <= coming.len(),
                previous == prev.deep_view(),
                queue == coming.deep_view(),
                steps.deep_view() == previous,
                expand(previous, queue.skip(start as int), name@) == if resolved.len() == 0 {
                    expand(previous, queue.skip(at as int), name@)
                } else {
                    expand_from(previous, resolved.deep_view(), 0, queue.skip(at as int), name@)
                },
            decreases coming.len() - at,
        {
            resolved = coming[at].clone().resolve(steps);
            proof {
                assert(queue.skip(at as int)[0] == queue[at as int]);
                assert(queue.skip(at as int).drop_first() =~= queue.skip(at + 1));
            }
            at += 1;
        }
        if resolved.len() == 0 {
            let variants = vec![Variant { layers: clone_steps(steps), name }];
            assert(variants.deep_view() =~= seq![VariantView { name: name@, layers: previous }]);
            return variants;
        }
        let ghost alternatives = resolved.deep_view();
        let ghost rest = queue.skip(at as int);
        let mut variants: Vec<Variant> = Vec::new();
        let mut index: usize = resolved.len();
        assert(variants.deep_view() =~= expand_from(
            previous,
            alternatives,
            index as nat,
            rest,
            name@,
        ));
        while index > 0
            invariant
                index <= resolved.len(),
                start < at <= coming.len(),
                previous == prev.deep_view(),
                queue == coming.deep_view(),
                alternatives == resolved.deep_view(),
                rest == queue.skip(at as int),
                steps.deep_view() == previous,
                variants.deep_view() == expand_from(
                    previous,
                    alternatives,
                    index as nat,
                    rest,
                    name@,
                ),
            decreases index,
        {
            index -= 1;
            let ghost after = variants.deep_view();
            let mut path = clone_steps(steps);
            path.push(resolved[index].clone());
            assert(path.deep_view() =~= previous.push(alternatives[index as int]));
            let branch = name_branch(&name, resolved.len(), index);
            let mut found = Self::get_variants_rec(&path, coming, at, branch);
            let ghost first = found.deep_view();
            found.append(&mut variants);
            variants = found;
            assert(variants.deep_view() =~= first + after);
        }
        variants
    }
}

/// The steps of a list of plain layers, one for one.
pub open spec fn plain_steps(layers: Seq<LayerView>) -> Seq<ResolvedLayerView> {
    Seq::new(layers.len(), |i: int| layers[i].as_step())
}

/// A plain layer resolves to its one step, whatever came before it.
pub proof fn lemma_plain_resolve(layer: LayerView, previous: Seq<ResolvedLayerView>)
    requires
        layer.is_plain(),
    ensures
        layer.resolve(previous) == seq![layer.as_step()],
{
    assert(layer.resolve(previous) =~= layer.resolve(Seq::empty()));
    assert(layer.resolve(previous) =~= seq![layer.as_step()]);
}

/// A path that continues with plain layers only is a single variant: it keeps
/// its name and takes the step of each layer in turn.
pub proof fn lemma_expand_plain(
    previous: Seq<ResolvedLayerView>,
    coming: Seq<LayerView>,
    name: Seq<char>,
)
    requires
        forall|i: int| 0 <= i < coming.len() ==> (#[trigger] coming[i]).is_plain(),
    ensures
        expand(previous, coming, name) == seq![
            VariantView { name, layers: previous + plain_steps(coming) },
        ],
    decreases coming.len(),
{
    if coming.len() == 0 {
        assert(previous + plain_steps(coming) =~= previous);
    } else {
        let first = coming[0];
        let rest = coming.drop_first();
        let alternatives = first.resolve(previous);
        lemma_plain_resolve(first, previous);
        assert forall|i: int| 0 <= i < rest.len() implies (#[trigger] rest[i]).is_plain() by {
            assert(rest[i] == coming[i + 1]);
        }
        lemma_expand_plain(previous.push(first.as_step()), rest, name);
        assert(expand_from(previous, alternatives, 1, rest, name) =~= Seq::<VariantView>::empty());
        assert(expand_from(previous, alternatives, 0, rest, name) =~= expand(
            previous.push(alternatives[0]),
            rest,
            branch_name(name, 1, 0),
        ));
        assert(previous.push(first.as_step()) + plain_steps(rest) =~= previous + plain_steps(
            coming,
        ));
    }
}

/// Where no layer is a variant point or a condition, the expansion is exactly
/// one variant: it bears the name unchanged, and its steps are the layers, one
/// for one and in order.
pub proof fn lemma_plain_layers_give_one_variant(layers: Seq<LayerView>, name: Seq<char>)
    requires
        forall|i: int| 0 <= i < layers.len() ==> (#[trigger] layers[i]).is_plain(),
    ensures
        expansion(layers, name) == Ok::<Seq<VariantView>, ResolveErrorView>(
            seq![VariantView { name, layers: plain_steps(layers) }],
        ),
{
    lemma_expand_plain(Seq::empty(), layers, name);
    assert(Seq::<ResolvedLayerView>::empty() + plain_steps(layers) =~= plain_steps(layers));
    if layers.len() == 1 {
        lemma_plain_resolve(layers[0], Seq::empty());
    }
}

/// Where each child gives exactly one step, a variant point gives one step
/// for each child, in the order of the children.
pub proof fn lemma_resolve_each_single(
    children: Seq<LayerView>,
    previous: Seq<ResolvedLayerView>,
)
    requires
        forall|i: int| 0 <= i < children.len() ==> (#[trigger] children[i]).resolve(previous).len()
            == 1,
    ensures
        resolve_each(children, previous).len() == children.len(),
        forall|i: int| 0 <= i < children.len() ==> resolve_each(children, previous)[i]
            == children[i].resolve(previous)[0],
    decreases children.len(),
{
    if children.len() > 0 {
        let front = children.drop_last();
        assert forall|i: int| 0 <= i < front.len() implies (#[trigger] front[i]).resolve(
            previous,
        ).len() == 1 by {
            assert(front[i] == children[i]);
        }
        lemma_resolve_each_single(front, previous);
        assert(children.last() == children[children.len() - 1]);
    }
}

/// The variants of alternatives that nothing follows: one for each, named by
/// its index.
pub proof fn lemma_expand_from_last(
    previous: Seq<ResolvedLayerView>,
    alternatives: Seq<ResolvedLayerView>,
    from: nat,
    name: Seq<char>,
)
    requires
        from <= alternatives.len(),
    ensures
        expand_from(previous, alternatives, from, Seq::empty(), name) == Seq::new(
            (alternatives.len() - from) as nat,
            |j: int|
                VariantView {
                    name: branch_name(name, alternatives.len(), (from + j) as nat),
                    layers: previous.push(alternatives[from + j]),
                },
        ),
    decreases alternatives.len() - from,
{
    let all = Seq::new(
        (alternatives.len() - from) as nat,
        |j: int|
            VariantView {
                name: branch_name(name, alternatives.len(), (from + j) as nat),
                layers: previous.push(alternatives[from + j]),
            },
    );
    if from < alternatives.len() {
        lemma_expand_from_last(previous, alternatives, from + 1, name);
        let head = expand(
            previous.push(alternatives[from as int]),
            Seq::empty(),
            branch_name(name, alternatives.len(), from),
        );
        let tail = expand_from(previous, alternatives, from + 1, Seq::empty(), name);
        assert(head.len() == 1);
        assert(tail.len() == alternatives.len() - from - 1);
        assert(expand_from(previous, alternatives, from, Seq::empty(), name) == head + tail);
        assert forall|j: int| 0 <= j < all.len() implies (head + tail)[j] == all[j] by {
            if j > 0 {
                assert((head + tail)[j] == tail[j - 1]);
                assert(from + 1 + (j - 1) == from + j);
            }
        }
        assert(head + tail =~= all);
    } else {
        assert(expand_from(previous, alternatives, from, Seq::empty(), name) =~= all);
    }
}

/// A list that is one variant point of two or more children, each of which
/// gives exactly one step, expands to one variant for each child, in the
/// order of the children: the variant of the child at `i` bears the name
/// followed by `i` in two digits, and takes the step of that child.
pub proof fn lemma_branch_gives_a_variant_for_each_child(
    children: Seq<LayerView>,
    name: Seq<char>,
)
    requires
        children.len() >= 2,
        forall|i: int| 0 <= i < children.len() ==> (#[trigger] children[i]).resolve(
            Seq::empty(),
        ).len() == 1,
    ensures
        expansion(seq![LayerView::Variants(children)], name) == Ok::<
            Seq<VariantView>,
            ResolveErrorView,
        >(
            Seq::new(
                children.len(),
                |i: int|
                    VariantView {
                        name: name + two_digits(i as nat),
                        layers: seq![children[i].resolve(Seq::empty())[0]],
                    },
            ),
        ),
{
    let nothing = Seq::<ResolvedLayerView>::empty();
    let layers = seq![LayerView::Variants(children)];
    let alternatives = resolve_each(children, nothing);
    lemma_resolve_each_single(children, nothing);
    assert(layers[0].resolve(nothing) == alternatives);
    assert(layers.drop_first() =~= Seq::<LayerView>::empty());
    lemma_expand_from_last(nothing, alternatives, 0, name);
    let wanted = Seq::new(
        children.len(),
        |i: int|
            VariantView {
                name: name + two_digits(i as nat),
                layers: seq![children[i].resolve(Seq::empty())[0]],
            },
    );
    assert forall|i: int| 0 <= i < children.len() implies expand(nothing, layers, name)[i]
        == wanted[i] by {
        assert(nothing.push(alternatives[i]) =~= seq![children[i].resolve(nothing)[0]]);
    }
    assert(expand(nothing, layers, name) =~= wanted);
}

/// A condition on a step being present gives nothing unless an earlier step
/// equals the one it checks for, and then gives what it holds; a condition on
/// a step being absent gives nothing once an earlier step equals the one it
/// checks for, and until then gives what it holds.
pub proof fn lemma_condition_follows_earlier_steps(
    check_for: ResolvedLayerView,
    included: LayerView,
    previous: Seq<ResolvedLayerView>,
)
    ensures
        !previous.contains(check_for) ==> (LayerView::IfPresent {
            check_for,
            included: Box::new(included),
        }).resolve(previous) == Seq::<ResolvedLayerView>::empty(),
        previous.contains(check_for) ==> (LayerView::IfPresent {
            check_for,
            included: Box::new(included),
        }).resolve(previous) == included.resolve(previous),
        previous.contains(check_for) ==> (LayerView::IfNotPresent {
            check_for,
            included: Box::new(included),
        }).resolve(previous) == Seq::<ResolvedLayerView>::empty(),
        !previous.contains(check_for) ==> (LayerView::IfNotPresent {
            check_for,
            included: Box::new(included),
        }).resolve(previous) == included.resolve(previous),
{
}

/// Expanding is a function of the layers and the name alone: two outcomes of
/// [`Profile::get_variants`] on equal layers and equal names are equal, in the
/// names of their variants and in their steps.
pub proof fn lemma_expansion_is_repeatable(
    first: Result<Vec<Variant>, ResolveError>,
    second: Result<Vec<Variant>, ResolveError>,
    layers: Seq<LayerView>,
    name: Seq<char>,
)
    requires
        outcome_view(first) == expansion(layers, name),
        outcome_view(second) == expansion(layers, name),
    ensures
        outcome_view(first) == outcome_view(second),
{
}

/// A layer that resolves to nothing where it stands is passed over: the path
/// goes on with the layers after it, under the same name, as if the layer
/// were not there.
pub proof fn lemma_empty_resolution_is_passed_over(
    previous: Seq<ResolvedLayerView>,
    layer: LayerView,
    rest: Seq<LayerView>,
    name: Seq<char>,
)
    requires
        layer.resolve(previous).len() == 0,
    ensures
        expand(previous, seq![layer] + rest, name) == expand(previous, rest, name),
{
    assert((seq![layer] + rest).drop_first() =~= rest);
}

/// Every variant of a path begins with the steps and with the name that the
/// path had so far.
pub proof fn lemma_variants_continue_their_path(
    previous: Seq<ResolvedLayerView>,
    coming: Seq<LayerView>,
    name: Seq<char>,
)
    ensures
        expand(previous, coming, name).len() >= 1,
        forall|i: int|
            0 <= i < expand(previous, coming, name).len() ==> previous.is_prefix_of(
                (#[trigger] expand(previous, coming, name)[i]).layers,
            ) && name.is_prefix_of(expand(previous, coming, name)[i].name),
    decreases coming.len(), 0nat,
{
    if coming.len() > 0 {
        let alternatives = coming[0].resolve(previous);
        let rest = coming.drop_first();
        if alternatives.len() == 0 {
            lemma_variants_continue_their_path(previous, rest, name);
        } else {
            lemma_alternatives_continue_their_path(previous, alternatives, 0, rest, name);
        }
    }
}

/// Every variant of the alternatives from `from` on begins with the steps and
/// with the name that the path had so far, and there is one at least for
/// every alternative.
pub proof fn lemma_alternatives_continue_their_path(
    previous: Seq<ResolvedLayerView>,
    alternatives: Seq<ResolvedLayerView>,
    from: nat,
    rest: Seq<LayerView>,
    name: Seq<char>,
)
    requires
        from <= alternatives.len(),
    ensures
        expand_from(previous, alternatives, from, rest, name).len() >= alternatives.len() - from,
        forall|i: int|
            0 <= i < expand_from(previous, alternatives, from, rest, name).len()
                ==> previous.is_prefix_of(
                (#[trigger] expand_from(previous, alternatives, from, rest, name)[i]).layers,
            ) && name.is_prefix_of(expand_from(previous, alternatives, from, rest, name)[i].name),
    decreases rest.len(), 1 + alternatives.len() - from,
{
    if from < alternatives.len() {
        let longer = previous.push(alternatives[from as int]);
        let branch = branch_name(name, alternatives.len(), from);
        let head = expand(longer, rest, branch);
        let tail = expand_from(previous, alternatives, from + 1, rest, name);
        lemma_variants_continue_their_path(longer, rest, branch);
        lemma_alternatives_continue_their_path(previous, alternatives, from + 1, rest, name);
        assert(expand_from(previous, alternatives, from, rest, name) == head + tail);
        assert forall|i: int| 0 <= i < (head + tail).len() implies previous.is_prefix_of(
            (#[trigger] (head + tail)[i]).layers,
        ) && name.is_prefix_of((head + tail)[i].name) by {
            if i < head.len() {
                let variant = head[i];
                assert(longer.is_prefix_of(variant.layers));
                assert(branch.is_prefix_of(variant.name));
                assert(previous =~= longer.subrange(0, previous.len() as int));
                assert(previous =~= variant.layers.subrange(0, previous.len() as int));
                assert(name =~= branch.subrange(0, name.len() as int));
                assert(name =~= variant.name.subrange(0, name.len() as int));
            } else {
                assert((head + tail)[i] == tail[i - head.len()]);
            }
        }
    }
}

/// Whether no two variants of the list bear the same name.
pub open spec fn names_distinct(variants: Seq<VariantView>) -> bool {
    forall|i: int, j: int|
        0 <= i < j < variants.len() ==> (#[trigger] variants[i]).name != (#[trigger] variants[j]).name
}

/// Whether no layer of the list can contribute more than a hundred steps, so
/// that every index in a name takes exactly two characters.
pub open spec fn narrow(layers: Seq<LayerView>) -> bool {
    forall|i: int| 0 <= i < layers.len() ==> (#[trigger] layers[i]).width() <= 100
}

/// Two names that continue one name with different indices below a hundred
/// are different names.
proof fn lemma_different_branches_differ(
    name: Seq<char>,
    first: nat,
    second: nat,
    one: Seq<char>,
    other: Seq<char>,
)
    requires
        first < 100,
        second < 100,
        first != second,
        (name + two_digits(first)).is_prefix_of(one),
        (name + two_digits(second)).is_prefix_of(other),
    ensures
        one != other,
{
    lemma_two_digits(first, second);
    lemma_two_digits(second, first);
    let start = name.len() as int;
    let a = name + two_digits(first);
    let b = name + two_digits(second);
    if one == other {
        assert(a =~= one.subrange(0, a.len() as int));
        assert(b =~= other.subrange(0, b.len() as int));
        assert(a.len() == b.len());
        assert(a == b);
        assert(two_digits(first) =~= a.subrange(start, start + 2));
        assert(two_digits(second) =~= b.subrange(start, start + 2));
    }
}

/// In a path whose coming layers are narrow, no two variants bear the same
/// name.
pub proof fn lemma_path_names_are_distinct(
    previous: Seq<ResolvedLayerView>,
    coming: Seq<LayerView>,
    name: Seq<char>,
)
    requires
        narrow(coming),
    ensures
        names_distinct(expand(previous, coming, name)),
    decreases coming.len(), 0nat,
{
    if coming.len() > 0 {
        let alternatives = coming[0].resolve(previous);
        let rest = coming.drop_first();
        assert forall|i: int| 0 <= i < rest.len() implies (#[trigger] rest[i]).width() <= 100 by {
            assert(rest[i] == coming[i + 1]);
        }
        if alternatives.len() == 0 {
            lemma_path_names_are_distinct(previous, rest, name);
        } else {
            lemma_resolve_within_width(coming[0], previous);
            lemma_alternative_names_are_distinct(previous, alternatives, 0, rest, name);
        }
    }
}

/// Among the variants of the alternatives from `from` on, no two bear the
/// same name, and where there is more than one alternative each name
/// continues the name so far with the index of one of them.
pub proof fn lemma_alternative_names_are_distinct(
    previous: Seq<ResolvedLayerView>,
    alternatives: Seq<ResolvedLayerView>,
    from: nat,
    rest: Seq<LayerView>,
    name: Seq<char>,
)
    requires
        from <= alternatives.len() <= 100,
        narrow(rest),
    ensures
        names_distinct(expand_from(previous, alternatives, from, rest, name)),
        alternatives.len() > 1 ==> forall|i: int|
            0 <= i < expand_from(previous, alternatives, from, rest, name).len() ==> exists|k: nat|
                from <= k < alternatives.len() && (name + #[trigger] two_digits(k)).is_prefix_of(
                    (#[trigger] expand_from(previous, alternatives, from, rest, name)[i]).name,
                ),
    decreases rest.len(), 1 + alternatives.len() - from,
{
    if from < alternatives.len() {
        let longer = previous.push(alternatives[from as int]);
        let branch = branch_name(name, alternatives.len(), from);
        let head = expand(longer, rest, branch);
        let tail = expand_from(previous, alternatives, from + 1, rest, name);
        let all = expand_from(previous, alternatives, from, rest, name);
        lemma_path_names_are_distinct(longer, rest, branch);
        lemma_variants_continue_their_path(longer, rest, branch);
        lemma_alternative_names_are_distinct(previous, alternatives, from + 1, rest, name);
        assert(all == head + tail);
        if alternatives.len() > 1 {
            assert forall|i: int| 0 <= i < all.len() implies exists|k: nat|
                from <= k < alternatives.len() && (name + #[trigger] two_digits(k)).is_prefix_of(
                    (#[trigger] all[i]).name,
                ) by {
                if i < head.len() {
                    assert(all[i] == head[i]);
                    assert((name + two_digits(from)).is_prefix_of(head[i].name));
                } else {
                    assert(all[i] == tail[i - head.len()]);
                    let k = choose|k: nat|
                        from + 1 <= k < alternatives.len() && (name + #[trigger] two_digits(
                            k,
                        )).is_prefix_of(tail[i - head.len()].name);
                    assert((name + two_digits(k)).is_prefix_of(all[i].name));
                }
            }
            assert forall|i: int, j: int| 0 <= i < j < all.len() implies (#[trigger] all[i]).name != (
            #[trigger] all[j]).name by {
                if j < head.len() {
                    assert(all[i] == head[i] && all[j] == head[j]);
                } else if i >= head.len() {
                    assert(all[i] == tail[i - head.len()] && all[j] == tail[j - head.len()]);
                } else {
                    assert(all[i] == head[i]);
                    assert(all[j] == tail[j - head.len()]);
                    let k = choose|k: nat|
                        from + 1 <= k < alternatives.len() && (name + #[trigger] two_digits(
                            k,
                        )).is_prefix_of(tail[j - head.len()].name);
                    lemma_different_branches_differ(name, from, k, all[i].name, all[j].name);
                }
            }
        } else {
            assert(tail.len() == 0);
            assert(all =~= head);
        }
    }
}

/// The names of the variants of a profile are pairwise distinct, as long as
/// no layer of the profile can contribute more than a hundred steps.
pub proof fn lemma_variant_names_are_unique(layers: Seq<LayerView>, name: Seq<char>)
    requires
        narrow(layers),
    ensures
        expansion(layers, name) matches Ok(variants) ==> names_distinct(variants),
{
    lemma_path_names_are_distinct(Seq::empty(), layers, name);
}

} // verus!
