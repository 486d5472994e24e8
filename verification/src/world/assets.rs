//! Game assets:
//!  * [`Node`], the "room" that contains other assets,
//!  * [`Port`], the entry and exit points of nodes.

use vstd::prelude::*;
use vstd::string::*;
use crate::text::{matches_word, same_ignoring_ascii_case, to_chars};
use crate::world::actions::{Action, ActionView};
use crate::world::properties::{property_views, Property, PropertyView};

verus! {

/// Identifies an asset. Whoever creates assets hands the ids out.
pub type AssetID = u64;

/// What every game asset can do.
pub trait GameAsset: std::fmt::Debug + Send + Sync {
    /// The unique id of the asset.
    spec fn id(&self) -> AssetID;

    /// The name by which players refer to the asset.
    spec fn label(&self) -> Seq<char>;

    /// The properties of the asset, if it has any.
    spec fn tags(&self) -> Option<Seq<PropertyView>>;

    /// The line that describes the asset where it stands among others.
    spec fn summary(&self) -> Seq<char>;

    /// The asset's answer to an action.
    spec fn reaction(&self, a: ActionView) -> Seq<char>;

    /// Returns the unique id of the asset.
    fn uid(&self) -> (r: AssetID)
        ensures
            r == self.id(),
    ;

    /// Returns the name of the asset.
    fn name(&self) -> (r: String)
        ensures
            r@ == self.label(),
    ;

    /// Returns the properties of the asset.
    fn properties(&self) -> (r: Option<&Vec<Property>>)
        ensures
            match r {
                Some(p) => self.tags() == Some(property_views(p@)),
                None => self.tags() is None,
            },
    ;

    /// Describes the asset in one line.
    fn describe(&self) -> (r: String)
        ensures
            r@ == self.summary(),
    ;

    /// Answers an action that is directed at the asset.
    fn react_to(&self, a: &Action) -> (r: String)
        ensures
            r@ == self.reaction(a@),
    ;
}

/// The answer to an action that needs an object and names none. A look needs
/// no object and has no such answer.
pub open spec fn prompt(a: ActionView) -> Seq<char> {
    match a {
        ActionView::Look { .. } => Seq::empty(),
        ActionView::Read => "Read what?"@,
        ActionView::Enter => "Enter what?"@,
        ActionView::Connect => "Connect what?"@,
        ActionView::Access => "Access what?"@,
        ActionView::Open => "Open what?"@,
    }
}

/// The answer to a look at something that is not there.
pub open spec fn nothing_there() -> Seq<char> {
    "You see nothing like that here.\r\n"@
}

/// Computes [`prompt`].
fn prompt_for(a: &Action) -> (r: String)
    ensures
        r@ == prompt(a@),
{
    match a {
        Action::Look { .. } => String::new(),
        Action::Read => "Read what?".to_owned(),
        Action::Enter => "Enter what?".to_owned(),
        Action::Connect => "Connect what?".to_owned(),
        Action::Access => "Access what?".to_owned(),
        Action::Open => "Open what?".to_owned(),
    }
}

/// A port leads from one node to others. It is open, and can be used, or
/// closed. It may lead nowhere, to one node or to several.
#[derive(Debug)]
pub struct Port {
    id: AssetID,
    properties: Option<Vec<Property>>,
    is_open: bool,
    connects_to: Option<Vec<AssetID>>,
    description: String,
}

impl Port {
    /// The text that describes the port.
    pub closed spec fn description(&self) -> Seq<char> {
        self.description@
    }

    /// Whether the port is open.
    pub closed spec fn is_open(&self) -> bool {
        self.is_open
    }

    /// The ids of the nodes that the port leads to, if it leads anywhere.
    pub closed spec fn destinations(&self) -> Option<Seq<AssetID>> {
        match self.connects_to {
            Some(d) => Some(d@),
            None => None,
        }
    }

    /// What a look at the port shows: its description and, on a line of its
    /// own, whether it is open.
    pub open spec fn appearance(&self) -> Seq<char> {
        if self.is_open() {
            self.description() + "\n The port is open."@
        } else {
            self.description() + "\n The port is closed."@
        }
    }

    /// Creates a closed port without description that leads nowhere.
    pub fn new(id: AssetID) -> (port: Port)
        ensures
            port.id() == id,
            port.description() == Seq::<char>::empty(),
            !port.is_open(),
            port.tags() is None,
            port.destinations() is None,
    {
        Port { id, properties: None, is_open: false, connects_to: None, description: String::new() }
    }

    /// Returns the id of the port.
    pub fn get_id(&self) -> (r: AssetID)
        ensures
            r == self.id(),
    {
        self.id
    }

    /// Replaces the description of the port.
    pub fn update_description(&mut self, description: &str)
        ensures
            final(self).description() == description@,
            final(self).id() == old(self).id(),
            final(self).is_open() == old(self).is_open(),
            final(self).tags() == old(self).tags(),
            final(self).destinations() == old(self).destinations(),
    {
        self.description = description.to_owned();
    }

    /// What a look at the port shows.
    pub fn look(&self) -> (r: String)
        ensures
            r@ == self.appearance(),
    {
        let mut text = self.description.clone();
        if self.is_open {
            text.append("\n The port is open.");
        } else {
            text.append("\n The port is closed.");
        }
        text
    }
}

impl GameAsset for Port {
    closed spec fn id(&self) -> AssetID {
        self.id
    }

    open spec fn label(&self) -> Seq<char> {
        "port"@
    }

    closed spec fn tags(&self) -> Option<Seq<PropertyView>> {
        match self.properties {
            Some(p) => Some(property_views(p@)),
            None => None,
        }
    }

    open spec fn summary(&self) -> Seq<char> {
        if self.is_open() {
            self.description() + " The port is open."@
        } else {
            self.description() + " The port is closed."@
        }
    }

    open spec fn reaction(&self, a: ActionView) -> Seq<char> {
        match a {
            ActionView::Look { target: None, .. } => self.appearance(),
            ActionView::Look { target: Some(t), properties, .. } => if is_meant(
                self.label(),
                self.tags(),
                t,
                properties,
            ) {
                self.appearance()
            } else {
                nothing_there()
            },
            _ => prompt(a),
        }
    }

    fn uid(&self) -> (r: AssetID) {
        self.id
    }

    fn name(&self) -> (r: String) {
        "port".to_owned()
    }

    fn properties(&self) -> (r: Option<&Vec<Property>>) {
        match &self.properties {
            Some(p) => Some(p),
            None => None,
        }
    }

    fn describe(&self) -> (r: String) {
        let mut text = self.description.clone();
        if self.is_open {
            text.append(" The port is open.");
        } else {
            text.append(" The port is closed.");
        }
        text
    }

    /// A look without target shows the port. A look at a target shows the
    /// port if the target and the properties name it; a port holds nothing
    /// else that could be meant. Every other action asks for an object.
    fn react_to(&self, a: &Action) -> (r: String) {
        match a {
            Action::Look { target: None, .. } => self.look(),
            Action::Look { target: Some(t), properties, .. } => {
                if meant("port", self.properties(), t.as_str(), properties) {
                    self.look()
                } else {
                    "You see nothing like that here.\r\n".to_owned()
                }
            },
            _ => prompt_for(a),
        }
    }
}

/// The properties in a list that may be missing: none where it is.
pub open spec fn held(tags: Option<Seq<PropertyView>>) -> Seq<PropertyView> {
    match tags {
        Some(t) => t,
        None => Seq::empty(),
    }
}

/// Whether every wanted property is among `tags`. Where nothing is wanted,
/// any asset will do.
pub open spec fn has_all(tags: Option<Seq<PropertyView>>, wanted: Option<Seq<PropertyView>>) -> bool {
    forall|i: int| 0 <= i < held(wanted).len() ==> held(tags).contains(#[trigger] held(wanted)[i])
}

/// Whether `property` is among `tags`.
fn holds(tags: &Vec<Property>, property: &Property) -> (r: bool)
    ensures
        r == property_views(tags@).contains(property@),
{
    let mut i: usize = 0;
    while i < tags.len()
        invariant
            i <= tags.len(),
            forall|j: int| 0 <= j < i ==> property_views(tags@)[j] != property@,
        decreases tags.len() - i,
    {
        if tags[i].same(property) {
            assert(property_views(tags@)[i as int] == property@);
            return true;
        }
        i += 1;
    }
    false
}

/// The view of a list of properties that may be missing.
pub open spec fn tags_view(tags: Option<&Vec<Property>>) -> Option<Seq<PropertyView>> {
    match tags {
        Some(t) => Some(property_views(t@)),
        None => None,
    }
}

/// The view of the properties that a look asks for.
pub open spec fn wanted_view(wanted: Option<Vec<Property>>) -> Option<Seq<PropertyView>> {
    match wanted {
        Some(w) => Some(property_views(w@)),
        None => None,
    }
}

/// Whether every property of `wanted` is among `tags`.
fn holds_each(tags: Option<&Vec<Property>>, wanted: &Vec<Property>) -> (r: bool)
    ensures
        r == has_all(tags_view(tags), Some(property_views(wanted@))),
{
    let ghost asked = property_views(wanted@);
    let ghost have = held(tags_view(tags));
    let mut i: usize = 0;
    while i < wanted.len()
        invariant
            i <= wanted.len(),
            asked == property_views(wanted@),
            have == held(tags_view(tags)),
            forall|j: int| 0 <= j < i ==> have.contains(#[trigger] asked[j]),
        decreases wanted.len() - i,
    {
        let found = match tags {
            Some(t) => holds(t, &wanted[i]),
            None => false,
        };
        assert(asked[i as int] == wanted@[i as int]@);
        if !found {
            assert(!have.contains(held(Some(asked))[i as int]));
            return false;
        }
        i += 1;
    }
    assert(held(Some(asked)) == asked);
    true
}

/// Computes [`has_all`].
fn holds_all(tags: Option<&Vec<Property>>, wanted: &Option<Vec<Property>>) -> (r: bool)
    ensures
        r == has_all(tags_view(tags), wanted_view(*wanted)),
{
    match wanted {
        None => true,
        Some(w) => holds_each(tags, w),
    }
}

/// Whether a target and the properties that are wanted of it name an asset
/// with the name `label` and the properties `tags`: the target is the name,
/// ASCII case ignored, and every wanted property is among the asset's.
pub open spec fn is_meant(
    label: Seq<char>,
    tags: Option<Seq<PropertyView>>,
    target: Seq<char>,
    wanted: Option<Seq<PropertyView>>,
) -> bool {
    same_ignoring_ascii_case(label, target) && has_all(tags, wanted)
}

/// Computes [`is_meant`].
fn meant(
    name: &str,
    tags: Option<&Vec<Property>>,
    target: &str,
    wanted: &Option<Vec<Property>>,
) -> (r: bool)
    ensures
        r == is_meant(name@, tags_view(tags), target@, wanted_view(*wanted)),
{
    let letters = to_chars(name);
    assert(letters@.subrange(0, letters@.len() as int) =~= letters@);
    matches_word(&letters, 0, letters.len(), target) && holds_all(tags, wanted)
}

/// An asset that a node can hold.
#[derive(Debug)]
pub enum Asset {
    Port(Port),
    Node(Node),
}

/// A location in the world. A node owns its sub-assets, keeps them in the
/// order in which they were added, and never holds two with the same id.
#[derive(Debug)]
pub struct Node {
    uid: AssetID,
    name: String,
    properties: Option<Vec<Property>>,
    description: String,
    sub_assets: Vec<Asset>,
}

/// The ids of a list of assets, in the same order.
pub open spec fn ids_of(assets: Seq<Asset>) -> Seq<AssetID> {
    assets.map_values(|a: Asset| a.id())
}

impl Asset {
    /// Whether the asset is what a player means by `target` with the `wanted`
    /// properties: its name is `target`, case ignored, and it has every one
    /// of the properties.
    pub open spec fn answers_to(&self, target: Seq<char>, wanted: Option<Seq<PropertyView>>) -> bool {
        is_meant(self.label(), self.tags(), target, wanted)
    }

    /// Computes [`Asset::answers_to`].
    pub fn is_meant_by(&self, target: &str, wanted: &Option<Vec<Property>>) -> (r: bool)
        ensures
            r == self.answers_to(target@, wanted_view(*wanted)),
    {
        let name = self.name();
        meant(name.as_str(), self.properties(), target, wanted)
    }

    /// What a look at the asset shows.
    pub open spec fn appearance(&self) -> Seq<char> {
        match self {
            Asset::Port(p) => p.appearance(),
            Asset::Node(n) => n.surroundings(),
        }
    }

    /// What a look at the asset shows.
    pub fn look(&self) -> (r: String)
        ensures
            r@ == self.appearance(),
    {
        match self {
            Asset::Port(p) => p.look(),
            Asset::Node(n) => n.look(),
        }
    }
}

impl GameAsset for Asset {
    open spec fn id(&self) -> AssetID {
        match self {
            Asset::Port(p) => p.id(),
            Asset::Node(n) => n.id(),
        }
    }

    open spec fn label(&self) -> Seq<char> {
        match self {
            Asset::Port(p) => p.label(),
            Asset::Node(n) => n.label(),
        }
    }

    open spec fn tags(&self) -> Option<Seq<PropertyView>> {
        match self {
            Asset::Port(p) => p.tags(),
            Asset::Node(n) => n.tags(),
        }
    }

    open spec fn summary(&self) -> Seq<char> {
        match self {
            Asset::Port(p) => p.summary(),
            Asset::Node(n) => n.summary(),
        }
    }

    open spec fn reaction(&self, a: ActionView) -> Seq<char>
        decreases self,
    {
        match self {
            Asset::Port(p) => p.reaction(a),
            Asset::Node(n) => n.reaction(a),
        }
    }

    fn uid(&self) -> (r: AssetID) {
        match self {
            Asset::Port(p) => p.uid(),
            Asset::Node(n) => n.uid(),
        }
    }

    fn name(&self) -> (r: String) {
        match self {
            Asset::Port(p) => p.name(),
            Asset::Node(n) => n.name(),
        }
    }

    fn properties(&self) -> (r: Option<&Vec<Property>>) {
        match self {
            Asset::Port(p) => p.properties(),
            Asset::Node(n) => n.properties(),
        }
    }

    fn describe(&self) -> (r: String) {
        match self {
            Asset::Port(p) => p.describe(),
            Asset::Node(n) => n.describe(),
        }
    }

    fn react_to(&self, a: &Action) -> (r: String)
        decreases self,
    {
        match self {
            Asset::Port(p) => p.react_to(a),
            Asset::Node(n) => n.react_to(a),
        }
    }
}

/// The lines that describe a list of assets: one line for each, in order.
pub open spec fn listing(assets: Seq<Asset>) -> Seq<char>
    decreases assets.len(),
{
    if assets.len() == 0 {
        Seq::empty()
    } else {
        listing(assets.drop_last()) + assets.last().summary() + "\r\n"@
    }
}

/// The assets of a node after `asset` was added to `assets`: an asset whose id
/// is already there is not added.
pub open spec fn with_asset(assets: Seq<Asset>, asset: Asset) -> Seq<Asset> {
    if ids_of(assets).contains(asset.id()) {
        assets
    } else {
        assets.push(asset)
    }
}

/// Tells the assets that do not have the id `id`.
pub open spec fn has_other_id(id: AssetID) -> spec_fn(Asset) -> bool {
    |a: Asset| a.id() != id
}

/// The assets of a node after the id `id` was removed from `assets`: all
/// assets with another id, in the order in which they stood.
pub open spec fn without_asset(assets: Seq<Asset>, id: AssetID) -> Seq<Asset> {
    assets.filter(has_other_id(id))
}

/// Where no two assets share an id, none do after some were left out.
proof fn lemma_without_asset_ids(assets: Seq<Asset>, id: AssetID)
    requires
        ids_of(assets).no_duplicates(),
    ensures
        ids_of(without_asset(assets, id)).no_duplicates(),
    decreases assets.len(),
{
    reveal(Seq::filter);
    let kept = without_asset(assets, id);
    if assets.len() > 0 {
        let front = assets.drop_last();
        let last = assets.last();
        let kept_front = without_asset(front, id);
        assert forall|i: int, j: int|
            0 <= i < ids_of(front).len() && 0 <= j < ids_of(front).len() && i
                != j implies ids_of(front)[i] != ids_of(front)[j] by {
            assert(ids_of(assets)[i] == ids_of(front)[i]);
            assert(ids_of(assets)[j] == ids_of(front)[j]);
        }
        lemma_without_asset_ids(front, id);
        if last.id() != id {
            assert(kept == kept_front.push(last));
            assert forall|i: int, j: int|
                0 <= i < ids_of(kept).len() && 0 <= j < ids_of(kept).len() && i
                    != j implies ids_of(kept)[i] != ids_of(kept)[j] by {
                if i < kept_front.len() && j < kept_front.len() {
                    assert(ids_of(kept_front)[i] == ids_of(kept)[i]);
                    assert(ids_of(kept_front)[j] == ids_of(kept)[j]);
                } else {
                    let k = if i < kept_front.len() {
                        i
                    } else {
                        j
                    };
                    let found = kept_front[k];
                    assert(kept_front.contains(found));
                    front.lemma_filter_contains_rev(has_other_id(id), found);
                    let m = choose|m: int| 0 <= m < front.len() && front[m] == found;
                    assert(ids_of(assets)[m] == found.id());
                    assert(ids_of(assets)[assets.len() - 1] == last.id());
                }
            }
        } else {
            assert(kept == kept_front);
        }
    }
}

/// Adding an asset whose id is already there changes nothing.
///
/// Add `first` to any assets and then `second`, which has the same id: the
/// assets are what they were after `first` alone. If no two of the assets
/// shared an id before, none do afterwards, and the id is among them, so
/// exactly one asset has it.
pub proof fn law_second_insert_changes_nothing(assets: Seq<Asset>, first: Asset, second: Asset)
    requires
        first.id() == second.id(),
    ensures
        with_asset(with_asset(assets, first), second) == with_asset(assets, first),
        ids_of(with_asset(assets, first)).contains(first.id()),
        ids_of(assets).no_duplicates() ==> ids_of(with_asset(assets, first)).no_duplicates(),
{
    let once = with_asset(assets, first);
    if !ids_of(assets).contains(first.id()) {
        assert(ids_of(once) =~= ids_of(assets).push(first.id()));
        assert(ids_of(once)[assets.len() as int] == first.id());
        if ids_of(assets).no_duplicates() {
            assert forall|i: int, j: int|
                0 <= i < ids_of(once).len() && 0 <= j < ids_of(once).len() && i
                    != j implies ids_of(once)[i] != ids_of(once)[j] by {
                if i < assets.len() {
                    assert(ids_of(assets).contains(ids_of(assets)[i]));
                }
                if j < assets.len() {
                    assert(ids_of(assets).contains(ids_of(assets)[j]));
                }
            }
        }
    }
}

/// Removing an id removes exactly the assets that have it.
///
/// An asset is among those that are left if and only if it was there before
/// and has another id. Those that are left stand in the order in which they
/// stood, which [`without_asset`] says by being a filter.
pub proof fn law_remove_takes_exactly(assets: Seq<Asset>, id: AssetID)
    ensures
        forall|a: Asset|
            #[trigger] without_asset(assets, id).contains(a) <==> assets.contains(a) && a.id()
                != id,
        !ids_of(without_asset(assets, id)).contains(id),
        without_asset(assets, id).len() <= assets.len(),
{
    let keep = has_other_id(id);
    let left = without_asset(assets, id);
    assets.lemma_filter_len(keep);
    assert forall|a: Asset| #[trigger] left.contains(a) <==> assets.contains(a) && a.id()
        != id by {
        if left.contains(a) {
            assets.lemma_filter_contains_rev(keep, a);
            let i = choose|i: int| 0 <= i < left.len() && left[i] == a;
            assets.lemma_filter_pred(keep, i);
        }
        if assets.contains(a) && a.id() != id {
            let i = choose|i: int| 0 <= i < assets.len() && assets[i] == a;
            assets.lemma_filter_contains(keep, i);
        }
    }
    if ids_of(left).contains(id) {
        let i = choose|i: int| 0 <= i < ids_of(left).len() && ids_of(left)[i] == id;
        assets.lemma_filter_pred(keep, i);
    }
}

/// The position of the first asset from `from` on that answers to `target`
/// with the `wanted` properties.
pub open spec fn first_answering(
    assets: Seq<Asset>,
    target: Seq<char>,
    wanted: Option<Seq<PropertyView>>,
    from: int,
) -> Option<int>
    decreases assets.len() - from,
{
    if from < 0 || from >= assets.len() {
        None
    } else if assets[from].answers_to(target, wanted) {
        Some(from)
    } else {
        first_answering(assets, target, wanted, from + 1)
    }
}

/// The first asset that answers is one of the assets.
pub proof fn lemma_first_answering_is_there(
    assets: Seq<Asset>,
    target: Seq<char>,
    wanted: Option<Seq<PropertyView>>,
    from: int,
)
    requires
        0 <= from,
    ensures
        first_answering(assets, target, wanted, from) matches Some(i) ==> from <= i < assets.len(),
    decreases assets.len() - from,
{
    if from < assets.len() && !assets[from].answers_to(target, wanted) {
        lemma_first_answering_is_there(assets, target, wanted, from + 1);
    }
}

impl Node {
    #[verifier::type_invariant]
    spec fn ids_are_unique(&self) -> bool {
        ids_of(self.sub_assets@).no_duplicates()
    }

    /// Replaces the description of the node.
    pub fn update_description(&mut self, description: &str)
        ensures
            final(self).description() == description@,
            final(self).id() == old(self).id(),
            final(self).label() == old(self).label(),
            final(self).tags() == old(self).tags(),
            final(self).assets() == old(self).assets(),
    {
        proof {
            use_type_invariant(&*self);
        }
        self.description = description.to_owned();
    }

    /// Whether the node holds an asset with the id `id`.
    pub fn has_asset(&self, id: AssetID) -> (r: bool)
        ensures
            r == ids_of(self.assets()).contains(id),
    {
        let mut i: usize = 0;
        while i < self.sub_assets.len()
            invariant
                i <= self.sub_assets.len(),
                forall|j: int| 0 <= j < i ==> ids_of(self.sub_assets@)[j] != id,
            decreases self.sub_assets.len() - i,
        {
            if self.sub_assets[i].uid() == id {
                assert(ids_of(self.sub_assets@)[i as int] == id);
                return true;
            }
            i += 1;
        }
        false
    }

    /// Adds an asset to the node. If the node already holds an asset with the
    /// same id, nothing is added and nothing is replaced.
    pub fn add_asset(&mut self, asset: Asset)
        ensures
            final(self).assets() == with_asset(old(self).assets(), asset),
            ids_of(final(self).assets()).no_duplicates(),
            final(self).id() == old(self).id(),
            final(self).label() == old(self).label(),
            final(self).description() == old(self).description(),
            final(self).tags() == old(self).tags(),
    {
        proof {
            use_type_invariant(&*self);
        }
        if !self.has_asset(asset.uid()) {
            let ghost before = self.sub_assets@;
            let mut all: Vec<Asset> = Vec::new();
            std::mem::swap(&mut self.sub_assets, &mut all);
            all.push(asset);
            proof {
                assert(ids_of(all@) =~= ids_of(before).push(asset.id()));
                assert forall|i: int, j: int|
                    0 <= i < ids_of(all@).len() && 0 <= j < ids_of(all@).len() && i
                        != j implies ids_of(all@)[i] != ids_of(all@)[j] by {
                    if i < before.len() {
                        assert(ids_of(before)[i] == ids_of(all@)[i]);
                        assert(ids_of(before).contains(ids_of(before)[i]));
                    }
                    if j < before.len() {
                        assert(ids_of(before)[j] == ids_of(all@)[j]);
                        assert(ids_of(before).contains(ids_of(before)[j]));
                    }
                }
            }
            self.sub_assets = all;
        }
    }

    /// Removes every asset with the id `id` from the node, and no other.
    pub fn remove_asset(&mut self, id: AssetID)
        ensures
            final(self).assets() == without_asset(old(self).assets(), id),
            ids_of(final(self).assets()).no_duplicates(),
            final(self).id() == old(self).id(),
            final(self).label() == old(self).label(),
            final(self).description() == old(self).description(),
            final(self).tags() == old(self).tags(),
    {
        proof {
            use_type_invariant(&*self);
        }
        let ghost before = self.sub_assets@;
        let mut kept: Vec<Asset> = Vec::new();
        let mut all: Vec<Asset> = Vec::new();
        std::mem::swap(&mut self.sub_assets, &mut all);
        assert(before.take(0).filter(has_other_id(id)) =~= Seq::empty()) by {
            reveal(Seq::filter);
        }
        for asset in it: all
            invariant
                it.seq() == before,
                kept@ == before.take(it.index()).filter(has_other_id(id)),
        {
            proof {
                reveal(Seq::filter);
                let next = before.take(it.index() + 1);
                assert(next.drop_last() =~= before.take(it.index()));
                assert(next.last() == asset);
            }
            if asset.uid() != id {
                kept.push(asset);
            }
        }
        proof {
            assert(before.take(before.len() as int) =~= before);
            lemma_without_asset_ids(before, id);
        }
        self.sub_assets = kept;
    }

    /// The text that describes the node.
    pub closed spec fn description(&self) -> Seq<char> {
        self.description@
    }

    /// The sub-assets of the node, in the order in which they were added.
    pub closed spec fn assets(&self) -> Seq<Asset> {
        self.sub_assets@
    }

    /// What a look around the node shows: its description and then its
    /// sub-assets, one line each.
    pub open spec fn surroundings(&self) -> Seq<char> {
        self.description() + "\r\n"@ + listing(self.assets())
    }

    /// Creates an empty node without name and description.
    pub fn new(uid: AssetID) -> (node: Node)
        ensures
            node.id() == uid,
            node.label() == Seq::<char>::empty(),
            node.description() == Seq::<char>::empty(),
            node.tags() is None,
            node.assets() == Seq::<Asset>::empty(),
    {
        let node = Node {
            uid,
            name: String::new(),
            properties: None,
            description: String::new(),
            sub_assets: Vec::new(),
        };
        node
    }

    /// Finds the first sub-asset that `target` and the `wanted` properties
    /// name.
    pub fn find(&self, target: &str, wanted: &Option<Vec<Property>>) -> (r: Option<usize>)
        ensures
            match r {
                Some(i) => i < self.assets().len() && first_answering(
                    self.assets(),
                    target@,
                    wanted_view(*wanted),
                    0,
                ) == Some(i as int),
                None => first_answering(self.assets(), target@, wanted_view(*wanted), 0) is None,
            },
    {
        let ghost asked = wanted_view(*wanted);
        let mut i: usize = 0;
        while i < self.sub_assets.len()
            invariant
                i <= self.sub_assets.len(),
                asked == wanted_view(*wanted),
                first_answering(self.sub_assets@, target@, asked, 0) == first_answering(
                    self.sub_assets@,
                    target@,
                    asked,
                    i as int,
                ),
            decreases self.sub_assets.len() - i,
        {
            if self.sub_assets[i].is_meant_by(target, wanted) {
                return Some(i);
            }
            i += 1;
        }
        None
    }

    /// What a look around the node shows.
    pub fn look(&self) -> (r: String)
        ensures
            r@ == self.surroundings(),
    {
        let mut text = self.description.clone();
        text.append("\r\n");
        let mut i: usize = 0;
        assert(self.sub_assets@.take(0) =~= Seq::empty());
        while i < self.sub_assets.len()
            invariant
                i <= self.sub_assets.len(),
                text@ == self.description@ + "\r\n"@ + listing(self.sub_assets@.take(i as int)),
            decreases self.sub_assets.len() - i,
        {
            let line = self.sub_assets[i].describe();
            proof {
                let shown = self.sub_assets@.take(i + 1);
                assert(shown.drop_last() =~= self.sub_assets@.take(i as int));
                assert(shown.last() == self.sub_assets@[i as int]);
                assert(self.description@ + "\r\n"@ + (listing(shown.drop_last()) + line@
                    + "\r\n"@) =~= self.description@ + "\r\n"@ + listing(shown.drop_last())
                    + line@ + "\r\n"@);
            }
            text.append(line.as_str());
            text.append("\r\n");
            i += 1;
        }
        assert(self.sub_assets@.take(self.sub_assets.len() as int) =~= self.sub_assets@);
        text
    }
}

impl GameAsset for Node {
    closed spec fn id(&self) -> AssetID {
        self.uid
    }

    closed spec fn label(&self) -> Seq<char> {
        self.name@
    }

    closed spec fn tags(&self) -> Option<Seq<PropertyView>> {
        match self.properties {
            Some(p) => Some(property_views(p@)),
            None => None,
        }
    }

    open spec fn summary(&self) -> Seq<char> {
        self.description()
    }

    open spec fn reaction(&self, a: ActionView) -> Seq<char>
        decreases self,
    {
        match a {
            ActionView::Look { target: None, .. } => self.surroundings(),
            ActionView::Look { target: Some(t), properties, .. } => match first_answering(
                self.assets(),
                t,
                properties,
                0,
            ) {
                Some(i) => {
                    proof {
                        lemma_first_answering_is_there(self.assets(), t, properties, 0);
                    }
                    self.assets()[i].reaction(a)
                },
                None => nothing_there(),
            },
            _ => prompt(a),
        }
    }

    fn uid(&self) -> (r: AssetID) {
        self.uid
    }

    fn name(&self) -> (r: String) {
        self.name.clone()
    }

    fn properties(&self) -> (r: Option<&Vec<Property>>) {
        match &self.properties {
            Some(p) => Some(p),
            None => None,
        }
    }

    fn describe(&self) -> (r: String) {
        self.description.clone()
    }

    /// A look without target shows the node and what it holds. A look at a
    /// target is handed on to the first sub-asset that the target and the
    /// properties name; where there is none, the answer says so. Every other
    /// action asks for an object.
    fn react_to(&self, a: &Action) -> (r: String)
        decreases self,
    {
        match a {
            Action::Look { target: None, .. } => self.look(),
            Action::Look { target: Some(t), properties, .. } => {
                match self.find(t.as_str(), properties) {
                    Some(i) => self.sub_assets[i].react_to(a),
                    None => "You see nothing like that here.\r\n".to_owned(),
                }
            },
            _ => prompt_for(a),
        }
    }
}

} // verus!
