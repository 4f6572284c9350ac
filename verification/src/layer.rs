//! The layer model: the declarative configuration tree, the concrete steps it
//! resolves to, and the resolution of one node against the steps that precede it.

use vstd::prelude::*;
use vstd::std_specs::cmp::PartialEqSpecImpl;

verus! {

/// The loader flavour an environment is provisioned with.
#[derive(Clone, Copy, Debug, PartialEq, Eq, Structural)]
pub enum ModloaderDef {
    Quilt,
    Fabric,
    Forge,
    Vanilla,
}

/// The text of an optional string.
pub open spec fn opt_text(o: Option<String>) -> Option<Seq<char>> {
    match o {
        Some(s) => Some(s@),
        None => None,
    }
}

/// How the process of a variant is to be started.
#[derive(Debug)]
pub enum LaunchOptions {
    Demo,
    Offline { account_name: Option<String>, world_name: Option<String> },
    Online { account_name: Option<String>, world_name: Option<String> },
}

/// The mathematical value of a [`LaunchOptions`].
pub enum LaunchOptionsView {
    Demo,
    Offline { account_name: Option<Seq<char>>, world_name: Option<Seq<char>> },
    Online { account_name: Option<Seq<char>>, world_name: Option<Seq<char>> },
}

impl View for LaunchOptions {
    type V = LaunchOptionsView;

    open spec fn view(&self) -> LaunchOptionsView {
        match *self {
            LaunchOptions::Demo => LaunchOptionsView::Demo,
            LaunchOptions::Offline { account_name, world_name } => LaunchOptionsView::Offline {
                account_name: opt_text(account_name),
                world_name: opt_text(world_name),
            },
            LaunchOptions::Online { account_name, world_name } => LaunchOptionsView::Online {
                account_name: opt_text(account_name),
                world_name: opt_text(world_name),
            },
        }
    }
}

impl DeepView for LaunchOptions {
    type V = LaunchOptionsView;

    open spec fn deep_view(&self) -> LaunchOptionsView {
        self@
    }
}

/// The launch options a variant starts from: online, with neither an identity
/// nor a session named.
pub open spec fn default_launch_options() -> LaunchOptionsView {
    LaunchOptionsView::Online { account_name: None, world_name: None }
}

impl Default for LaunchOptions {
    fn default() -> (options: Self)
        ensures
            options@ == default_launch_options(),
    {
        LaunchOptions::Online { account_name: None, world_name: None }
    }
}

/// A copy of an optional string.
pub fn clone_opt_text(o: &Option<String>) -> (copy: Option<String>)
    ensures
        opt_text(copy) == opt_text(*o),
{
    match o {
        Some(s) => Some(s.clone()),
        None => None,
    }
}

/// Whether two optional strings hold the same text.
pub fn same_opt_text(a: &Option<String>, b: &Option<String>) -> (same: bool)
    ensures
        same == (opt_text(*a) == opt_text(*b)),
{
    match (a, b) {
        (Some(x), Some(y)) => *x == *y,
        (None, None) => true,
        _ => false,
    }
}

impl Clone for LaunchOptions {
    fn clone(&self) -> (copy: Self)
        ensures
            copy@ == self@,
    {
        match self {
            LaunchOptions::Demo => LaunchOptions::Demo,
            LaunchOptions::Offline { account_name, world_name } => LaunchOptions::Offline {
                account_name: clone_opt_text(account_name),
                world_name: clone_opt_text(world_name),
            },
            LaunchOptions::Online { account_name, world_name } => LaunchOptions::Online {
                account_name: clone_opt_text(account_name),
                world_name: clone_opt_text(world_name),
            },
        }
    }
}

impl PartialEq for LaunchOptions {
    fn eq(&self, other: &Self) -> (same: bool) {
        match (self, other) {
            (LaunchOptions::Demo, LaunchOptions::Demo) => true,
            (
                LaunchOptions::Offline { account_name: a1, world_name: w1 },
                LaunchOptions::Offline { account_name: a2, world_name: w2 },
            ) => same_opt_text(a1, a2) && same_opt_text(w1, w2),
            (
                LaunchOptions::Online { account_name: a1, world_name: w1 },
                LaunchOptions::Online { account_name: a2, world_name: w2 },
            ) => same_opt_text(a1, a2) && same_opt_text(w1, w2),
            _ => false,
        }
    }
}

impl PartialEqSpecImpl for LaunchOptions {
    open spec fn obeys_eq_spec() -> bool {
        true
    }

    open spec fn eq_spec(&self, other: &Self) -> bool {
        self@ == other@
    }
}

/// One concrete step of a variant: what remains of a layer once every branch
/// and every condition has been decided.
#[derive(Debug)]
#[allow(inconsistent_fields)]
pub enum ResolvedLayer {
    DeleteDirectory(String),
    Instance { version: String, loader: ModloaderDef, loader_version: Option<String> },
    DirectoryOverlay { source: String },
    ModrinthPack { id: String, version: Option<String> },
    ExecuteCommand(String),
    LaunchClient(LaunchOptions),
}

/// The mathematical value of a [`ResolvedLayer`].
#[allow(inconsistent_fields)]
pub enum ResolvedLayerView {
    DeleteDirectory(Seq<char>),
    Instance { version: Seq<char>, loader: ModloaderDef, loader_version: Option<Seq<char>> },
    DirectoryOverlay { source: Seq<char> },
    ModrinthPack { id: Seq<char>, version: Option<Seq<char>> },
    ExecuteCommand(Seq<char>),
    LaunchClient(LaunchOptionsView),
}

impl View for ResolvedLayer {
    type V = ResolvedLayerView;

    open spec fn view(&self) -> ResolvedLayerView {
        match *self {
            ResolvedLayer::DeleteDirectory(path) => ResolvedLayerView::DeleteDirectory(path@),
            ResolvedLayer::Instance { version, loader, loader_version } => {
                ResolvedLayerView::Instance {
                    version: version@,
                    loader,
                    loader_version: opt_text(loader_version),
                }
            },
            ResolvedLayer::DirectoryOverlay { source } => ResolvedLayerView::DirectoryOverlay {
                source: source@,
            },
            ResolvedLayer::ModrinthPack { id, version } => ResolvedLayerView::ModrinthPack {
                id: id@,
                version: opt_text(version),
            },
            ResolvedLayer::ExecuteCommand(command) => ResolvedLayerView::ExecuteCommand(command@),
            ResolvedLayer::LaunchClient(options) => ResolvedLayerView::LaunchClient(options@),
        }
    }
}

impl DeepView for ResolvedLayer {
    type V = ResolvedLayerView;

    open spec fn deep_view(&self) -> ResolvedLayerView {
        self@
    }
}

impl Clone for ResolvedLayer {
    fn clone(&self) -> (copy: Self)
        ensures
            copy@ == self@,
    {
        match self {
            ResolvedLayer::DeleteDirectory(path) => ResolvedLayer::DeleteDirectory(path.clone()),
            ResolvedLayer::Instance { version, loader, loader_version } => ResolvedLayer::Instance {
                version: version.clone(),
                loader: *loader,
                loader_version: clone_opt_text(loader_version),
            },
            ResolvedLayer::DirectoryOverlay { source } => ResolvedLayer::DirectoryOverlay {
                source: source.clone(),
            },
            ResolvedLayer::ModrinthPack { id, version } => ResolvedLayer::ModrinthPack {
                id: id.clone(),
                version: clone_opt_text(version),
            },
            ResolvedLayer::ExecuteCommand(command) => ResolvedLayer::ExecuteCommand(
                command.clone(),
            ),
            ResolvedLayer::LaunchClient(options) => ResolvedLayer::LaunchClient(options.clone()),
        }
    }
}

impl PartialEq for ResolvedLayer {
    fn eq(&self, other: &Self) -> (same: bool) {
        match (self, other) {
            (ResolvedLayer::DeleteDirectory(a), ResolvedLayer::DeleteDirectory(b)) => *a == *b,
            (
                ResolvedLayer::Instance { version: v1, loader: l1, loader_version: lv1 },
                ResolvedLayer::Instance { version: v2, loader: l2, loader_version: lv2 },
            ) => *v1 == *v2 && *l1 == *l2 && same_opt_text(lv1, lv2),
            (
                ResolvedLayer::DirectoryOverlay { source: a },
                ResolvedLayer::DirectoryOverlay { source: b },
            ) => *a == *b,
            (
                ResolvedLayer::ModrinthPack { id: i1, version: v1 },
                ResolvedLayer::ModrinthPack { id: i2, version: v2 },
            ) => *i1 == *i2 && same_opt_text(v1, v2),
            (ResolvedLayer::ExecuteCommand(a), ResolvedLayer::ExecuteCommand(b)) => *a == *b,
            (ResolvedLayer::LaunchClient(a), ResolvedLayer::LaunchClient(b)) => *a == *b,
            _ => false,
        }
    }
}

impl PartialEqSpecImpl for ResolvedLayer {
    open spec fn obeys_eq_spec() -> bool {
        true
    }

    open spec fn eq_spec(&self, other: &Self) -> bool {
        self@ == other@
    }
}

/// Whether `steps` holds a step equal to `wanted`.
pub fn contains_step(steps: &[ResolvedLayer], wanted: &ResolvedLayer) -> (found: bool)
    ensures
        found == steps.deep_view().contains(wanted@),
{
    let mut i: usize = 0;
    while i < steps.len()
        invariant
            i <= steps.len(),
            forall|j: int| 0 <= j < i ==> steps.deep_view()[j] != wanted@,
        decreases steps.len() - i,
    {
        if steps[i] == *wanted {
            assert(steps.deep_view()[i as int] == wanted@);
            return true;
        }
        i += 1;
    }
    false
}

/// One node of the declarative configuration tree.
#[derive(Debug)]
#[allow(inconsistent_fields)]
pub enum Layer {
    DeleteDirectory(String),
    Instance { version: String, loader: ModloaderDef, loader_version: Option<String> },
    DirectoryOverlay { source: String },
    ModrinthPack { id: String, version: Option<String> },
    LaunchClient(LaunchOptions),
    ExecuteCommand(String),
    /// A variant point: every child continues the tree on its own.
    Variants(Vec<Layer>),
    /// The layer in `included` counts only where a step equal to `check_for` came earlier.
    IfPresent { check_for: ResolvedLayer, included: Box<Layer> },
    /// The layer in `included` counts only where no step equal to `check_for` came earlier.
    IfNotPresent { check_for: ResolvedLayer, included: Box<Layer> },
}

/// The mathematical value of a [`Layer`].
#[allow(inconsistent_fields)]
pub enum LayerView {
    DeleteDirectory(Seq<char>),
    Instance { version: Seq<char>, loader: ModloaderDef, loader_version: Option<Seq<char>> },
    DirectoryOverlay { source: Seq<char> },
    ModrinthPack { id: Seq<char>, version: Option<Seq<char>> },
    LaunchClient(LaunchOptionsView),
    ExecuteCommand(Seq<char>),
    Variants(Seq<LayerView>),
    IfPresent { check_for: ResolvedLayerView, included: Box<LayerView> },
    IfNotPresent { check_for: ResolvedLayerView, included: Box<LayerView> },
}

/// The value of one layer.
pub open spec fn layer_view(layer: Layer) -> LayerView
    decreases layer,
{
    match layer {
        Layer::DeleteDirectory(path) => LayerView::DeleteDirectory(path@),
        Layer::Instance { version, loader, loader_version } => LayerView::Instance {
            version: version@,
            loader,
            loader_version: opt_text(loader_version),
        },
        Layer::DirectoryOverlay { source } => LayerView::DirectoryOverlay { source: source@ },
        Layer::ModrinthPack { id, version } => LayerView::ModrinthPack {
            id: id@,
            version: opt_text(version),
        },
        Layer::LaunchClient(options) => LayerView::LaunchClient(options@),
        Layer::ExecuteCommand(command) => LayerView::ExecuteCommand(command@),
        Layer::Variants(children) => LayerView::Variants(layers_view(children@)),
        Layer::IfPresent { check_for, included } => LayerView::IfPresent {
            check_for: check_for@,
            included: Box::new(layer_view(*included)),
        },
        Layer::IfNotPresent { check_for, included } => LayerView::IfNotPresent {
            check_for: check_for@,
            included: Box::new(layer_view(*included)),
        },
    }
}

/// The values of a sequence of layers, one for one.
pub open spec fn layers_view(layers: Seq<Layer>) -> Seq<LayerView>
    decreases layers,
{
    if layers.len() == 0 {
        Seq::empty()
    } else {
        layers_view(layers.drop_last()).push(layer_view(layers.last()))
    }
}

impl View for Layer {
    type V = LayerView;

    open spec fn view(&self) -> LayerView {
        layer_view(*self)
    }
}

impl DeepView for Layer {
    type V = LayerView;

    open spec fn deep_view(&self) -> LayerView {
        layer_view(*self)
    }
}

/// `layers_view` keeps the length and maps each layer to its value.
pub proof fn lemma_layers_view(layers: Seq<Layer>)
    ensures
        layers_view(layers).len() == layers.len(),
        forall|i: int| 0 <= i < layers.len() ==> layers_view(layers)[i] == layer_view(layers[i]),
    decreases layers.len(),
{
    if layers.len() > 0 {
        lemma_layers_view(layers.drop_last());
    }
}

impl LayerView {
    /// The steps this layer contributes after the steps `previous`.
    ///
    /// A plain layer is one step. A variant point is its children's steps one
    /// after another, each child resolved against the same `previous`. A
    /// condition is what it includes where `previous` holds, or does not hold,
    /// a step equal to the one it checks for, and nothing otherwise.
    pub open spec fn resolve(self, previous: Seq<ResolvedLayerView>) -> Seq<ResolvedLayerView>
        decreases self,
    {
        match self {
            LayerView::DeleteDirectory(path) => seq![ResolvedLayerView::DeleteDirectory(path)],
            LayerView::Instance { version, loader, loader_version } => seq![
                ResolvedLayerView::Instance { version, loader, loader_version },
            ],
            LayerView::DirectoryOverlay { source } => seq![
                ResolvedLayerView::DirectoryOverlay { source },
            ],
            LayerView::ModrinthPack { id, version } => seq![
                ResolvedLayerView::ModrinthPack { id, version },
            ],
            LayerView::LaunchClient(options) => seq![ResolvedLayerView::LaunchClient(options)],
            LayerView::ExecuteCommand(command) => seq![ResolvedLayerView::ExecuteCommand(command)],
            LayerView::Variants(children) => resolve_each(children, previous),
            LayerView::IfPresent { check_for, included } => {
                if previous.contains(check_for) {
                    included.resolve(previous)
                } else {
                    Seq::empty()
                }
            },
            LayerView::IfNotPresent { check_for, included } => {
                if !previous.contains(check_for) {
                    included.resolve(previous)
                } else {
                    Seq::empty()
                }
            },
        }
    }

    /// The most steps this layer can contribute, whatever came before it: one
    /// for a plain layer, the sum over its children for a variant point, and
    /// what it holds for a condition.
    pub open spec fn width(self) -> nat
        decreases self,
    {
        match self {
            LayerView::Variants(children) => total_width(children),
            LayerView::IfPresent { check_for, included } => included.width(),
            LayerView::IfNotPresent { check_for, included } => included.width(),
            _ => 1,
        }
    }

    /// Whether this layer is neither a variant point nor a condition.
    pub open spec fn is_plain(self) -> bool {
        !(self is Variants) && !(self is IfPresent) && !(self is IfNotPresent)
    }

    /// The one step a plain layer stands for.
    pub open spec fn as_step(self) -> ResolvedLayerView
        recommends
            self.is_plain(),
    {
        self.resolve(Seq::empty())[0]
    }
}

/// The steps of `children`, in the order the children are declared, each
/// resolved against the same `previous`.
pub open spec fn resolve_each(
    children: Seq<LayerView>,
    previous: Seq<ResolvedLayerView>,
) -> Seq<ResolvedLayerView>
    decreases children,
{
    if children.len() == 0 {
        Seq::empty()
    } else {
        resolve_each(children.drop_last(), previous) + children.last().resolve(previous)
    }
}

/// Resolving the children one more in adds the steps of the last one.
pub proof fn lemma_resolve_each_push(
    children: Seq<LayerView>,
    child: LayerView,
    previous: Seq<ResolvedLayerView>,
)
    ensures
        resolve_each(children.push(child), previous) == resolve_each(children, previous)
            + child.resolve(previous),
{
    assert(children.push(child).drop_last() =~= children);
}

impl Layer {
    /// The steps this layer contributes to a variant whose earlier steps are
    /// `previous_layers`.
    pub fn resolve(self, previous_layers: &[ResolvedLayer]) -> (steps: Vec<ResolvedLayer>)
        ensures
            steps.deep_view() == self@.resolve(previous_layers.deep_view()),
        decreases self,
    {
        let ghost previous = previous_layers.deep_view();
        match self {
            Layer::DeleteDirectory(path) => {
                let steps = vec![ResolvedLayer::DeleteDirectory(path)];
                assert(steps.deep_view() =~= self@.resolve(previous));
                steps
            },
            Layer::Instance { version, loader, loader_version } => {
                let steps = vec![ResolvedLayer::Instance { version, loader, loader_version }];
                assert(steps.deep_view() =~= self@.resolve(previous));
                steps
            },
            Layer::DirectoryOverlay { source } => {
                let steps = vec![ResolvedLayer::DirectoryOverlay { source }];
                assert(steps.deep_view() =~= self@.resolve(previous));
                steps
            },
            Layer::ModrinthPack { id, version } => {
                let steps = vec![ResolvedLayer::ModrinthPack { id, version }];
                assert(steps.deep_view() =~= self@.resolve(previous));
                steps
            },
            Layer::ExecuteCommand(command) => {
                let steps = vec![ResolvedLayer::ExecuteCommand(command)];
                assert(steps.deep_view() =~= self@.resolve(previous));
                steps
            },
            Layer::LaunchClient(launch_options) => {
                let steps = vec![ResolvedLayer::LaunchClient(launch_options)];
                assert(steps.deep_view() =~= self@.resolve(previous));
                steps
            },
            Layer::Variants(variants) => {
                let ghost children = variants@;
                let mut steps: Vec<ResolvedLayer> = Vec::new();
                proof {
                    lemma_layers_view(children);
                    assert(layers_view(children.take(0)) =~= Seq::<LayerView>::empty());
                    assert(steps.deep_view() =~= Seq::<ResolvedLayerView>::empty());
                    assert forall|i: int| 0 <= i < children.len() implies decreases_to!(self => #[trigger] children[i]) by {
                        broadcast use vstd::std_specs::vec::axiom_vec_decreases_to_view;
                        assert(decreases_to!(self => variants));
                        assert(decreases_to!(variants => variants@));
                        assert(decreases_to!(variants@ => variants@[i]));
                    }
                }
                for child in it: variants
                    invariant
                        it.seq() == children,
                        forall|i: int| 0 <= i < children.len() ==> decreases_to!(self => #[trigger] children[i]),
                        previous == previous_layers.deep_view(),
                        steps.deep_view() == resolve_each(
                            layers_view(children.take(it.index())),
                            previous,
                        ),
                {
                    let ghost done = it.index();
                    let ghost before = steps.deep_view();
                    assert(child == children[done]);
                    let mut more = child.resolve(previous_layers);
                    let ghost added = more.deep_view();
                    steps.append(&mut more);
                    proof {
                        lemma_layers_view(children.take(done));
                        lemma_layers_view(children.take(done + 1));
                        assert(layers_view(children.take(done + 1)) =~= layers_view(
                            children.take(done),
                        ).push(child@));
                        lemma_resolve_each_push(layers_view(children.take(done)), child@, previous);
                        assert(steps.deep_view() =~= before + added);
                    }
                }
                proof {
                    assert(children.take(children.len() as int) =~= children);
                }
                steps
            },
            Layer::IfPresent { check_for, included } => {
                if contains_step(previous_layers, &check_for) {
                    (*included).resolve(previous_layers)
                } else {
                    let steps: Vec<ResolvedLayer> = Vec::new();
                    assert(steps.deep_view() =~= Seq::<ResolvedLayerView>::empty());
                    steps
                }
            },
            Layer::IfNotPresent { check_for, included } => {
                if !contains_step(previous_layers, &check_for) {
                    (*included).resolve(previous_layers)
                } else {
                    let steps: Vec<ResolvedLayer> = Vec::new();
                    assert(steps.deep_view() =~= Seq::<ResolvedLayerView>::empty());
                    steps
                }
            },
        }
    }
}

impl Clone for Layer {
    fn clone(&self) -> (copy: Self)
        ensures
            copy@ == self@,
        decreases self,
    {
        match self {
            Layer::DeleteDirectory(path) => Layer::DeleteDirectory(path.clone()),
            Layer::Instance { version, loader, loader_version } => Layer::Instance {
                version: version.clone(),
                loader: *loader,
                loader_version: clone_opt_text(loader_version),
            },
            Layer::DirectoryOverlay { source } => Layer::DirectoryOverlay { source: source.clone() },
            Layer::ModrinthPack { id, version } => Layer::ModrinthPack {
                id: id.clone(),
                version: clone_opt_text(version),
            },
            Layer::LaunchClient(options) => Layer::LaunchClient(options.clone()),
            Layer::ExecuteCommand(command) => Layer::ExecuteCommand(command.clone()),
            Layer::Variants(children) => {
                let mut copies: Vec<Layer> = Vec::new();
                proof {
                    assert forall|i: int| 0 <= i < children.len() implies decreases_to!(self => #[trigger] children@[i]) by {
                        broadcast use vstd::std_specs::vec::axiom_vec_decreases_to_view;
                        assert(decreases_to!(self => children));
                        assert(decreases_to!(children => children@));
                        assert(decreases_to!(children@ => children@[i]));
                    }
                }
                let mut i: usize = 0;
                while i < children.len()
                    invariant
                        i <= children.len(),
                        copies.len() == i,
                        forall|j: int| 0 <= j < i ==> layer_view(copies@[j]) == layer_view(children@[j]),
                        forall|j: int| 0 <= j < children.len() ==> decreases_to!(self => #[trigger] children@[j]),
                    decreases children.len() - i,
                {
                    let copy = children[i].clone();
                    copies.push(copy);
                    i += 1;
                }
                proof {
                    lemma_layers_view(copies@);
                    lemma_layers_view(children@);
                    assert(layers_view(copies@) =~= layers_view(children@));
                }
                Layer::Variants(copies)
            },
            Layer::IfPresent { check_for, included } => Layer::IfPresent {
                check_for: check_for.clone(),
                included: Box::new((**included).clone()),
            },
            Layer::IfNotPresent { check_for, included } => Layer::IfNotPresent {
                check_for: check_for.clone(),
                included: Box::new((**included).clone()),
            },
        }
    }
}

/// The sum of the widths of `children`.
pub open spec fn total_width(children: Seq<LayerView>) -> nat
    decreases children,
{
    if children.len() == 0 {
        0
    } else {
        total_width(children.drop_last()) + children.last().width()
    }
}

/// A layer never contributes more steps than its width.
pub proof fn lemma_resolve_within_width(layer: LayerView, previous: Seq<ResolvedLayerView>)
    ensures
        layer.resolve(previous).len() <= layer.width(),
    decreases layer,
{
    match layer {
        LayerView::Variants(children) => {
            lemma_resolve_each_within_width(children, previous);
        },
        LayerView::IfPresent { check_for, included } => {
            lemma_resolve_within_width(*included, previous);
        },
        LayerView::IfNotPresent { check_for, included } => {
            lemma_resolve_within_width(*included, previous);
        },
        _ => {},
    }
}

/// The children of a variant point never contribute more steps than the sum
/// of their widths.
pub proof fn lemma_resolve_each_within_width(
    children: Seq<LayerView>,
    previous: Seq<ResolvedLayerView>,
)
    ensures
        resolve_each(children, previous).len() <= total_width(children),
    decreases children,
{
    if children.len() > 0 {
        lemma_resolve_each_within_width(children.drop_last(), previous);
        lemma_resolve_within_width(children.last(), previous);
    }
}

} // verus!
