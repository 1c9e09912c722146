//! The catalogue of the game's assets: which files there are, of what kind,
//! and how far each has been loaded. Loading itself is the engine's work;
//! the catalogue keeps the books.

use vstd::prelude::*;

verus! {

/// The kinds of asset.
#[derive(Debug, Clone, Copy, PartialEq, Eq, Hash, Structural)]
pub enum AssetType {
    Font,
    BackgroundImage,
    CharacterImage,
    UIImage,
    Sound,
    Music,
}

/// How far an asset has been loaded.
#[derive(Debug, PartialEq)]
pub enum AssetStatus {
    NotLoaded,
    Loading,
    Loaded,
    /// Loading failed, for the reason given.
    Failed(String),
}

/// What an [`AssetStatus`] holds, as mathematical values.
pub enum AssetStatusView {
    NotLoaded,
    Loading,
    Loaded,
    Failed(Seq<char>),
}

impl View for AssetStatus {
    type V = AssetStatusView;

    open spec fn view(&self) -> AssetStatusView {
        match *self {
            AssetStatus::NotLoaded => AssetStatusView::NotLoaded,
            AssetStatus::Loading => AssetStatusView::Loading,
            AssetStatus::Loaded => AssetStatusView::Loaded,
            AssetStatus::Failed(reason) => AssetStatusView::Failed(reason@),
        }
    }
}

impl Clone for AssetStatus {
    fn clone(&self) -> (r: Self)
        ensures
            r@ == self@,
    {
        match self {
            AssetStatus::NotLoaded => AssetStatus::NotLoaded,
            AssetStatus::Loading => AssetStatus::Loading,
            AssetStatus::Loaded => AssetStatus::Loaded,
            AssetStatus::Failed(reason) => AssetStatus::Failed(reason.clone()),
        }
    }
}

/// What the catalogue knows of one asset.
#[derive(Debug)]
pub struct AssetInfo {
    /// The file, below the directory of the assets.
    pub path: String,
    pub asset_type: AssetType,
    pub status: AssetStatus,
}

/// What an [`AssetInfo`] holds, as mathematical values.
pub struct AssetInfoView {
    pub path: Seq<char>,
    pub asset_type: AssetType,
    pub status: AssetStatusView,
}

impl View for AssetInfo {
    type V = AssetInfoView;

    open spec fn view(&self) -> AssetInfoView {
        AssetInfoView { path: self.path@, asset_type: self.asset_type, status: self.status@ }
    }
}

impl Clone for AssetInfo {
    fn clone(&self) -> (r: Self)
        ensures
            r@ == self@,
    {
        AssetInfo {
            path: self.path.clone(),
            asset_type: self.asset_type,
            status: self.status.clone(),
        }
    }
}

/// An asset under its id, as the catalogue keeps it.
#[derive(Debug)]
struct AssetEntry {
    id: String,
    info: AssetInfo,
}

/// An asset under its id, as mathematical values.
pub struct AssetEntryView {
    pub id: Seq<char>,
    pub info: AssetInfoView,
}

impl View for AssetEntry {
    type V = AssetEntryView;

    closed spec fn view(&self) -> AssetEntryView {
        AssetEntryView { id: self.id@, info: self.info@ }
    }
}

impl DeepView for AssetEntry {
    type V = AssetEntryView;

    closed spec fn deep_view(&self) -> AssetEntryView {
        self@
    }
}

/// An asset that is registered but not loaded.
pub open spec fn unloaded(id: Seq<char>, path: Seq<char>, asset_type: AssetType) -> AssetEntryView {
    AssetEntryView {
        id,
        info: AssetInfoView { path, asset_type, status: AssetStatusView::NotLoaded },
    }
}

/// How many of `entries` stand before the first one with the id `id`; the
/// length of `entries` if none has it.
pub open spec fn position_of_asset(entries: Seq<AssetEntryView>, id: Seq<char>) -> nat
    decreases entries.len(),
{
    if entries.len() == 0 || entries[0].id == id {
        0
    } else {
        1 + position_of_asset(entries.drop_first(), id)
    }
}

/// What `entries` know of the asset `id`.
pub open spec fn asset_with_id(entries: Seq<AssetEntryView>, id: Seq<char>) -> Option<AssetInfoView> {
    let at = position_of_asset(entries, id) as int;
    if at < entries.len() {
        Some(entries[at].info)
    } else {
        None
    }
}

/// `entries` with `entry` in the place of the first one with the same id, or
/// after all of them if none has it.
pub open spec fn with_asset(entries: Seq<AssetEntryView>, entry: AssetEntryView) -> Seq<
    AssetEntryView,
> {
    let at = position_of_asset(entries, entry.id) as int;
    if at < entries.len() {
        entries.update(at, entry)
    } else {
        entries.push(entry)
    }
}

/// `entries` after each of `added` was registered, in order.
pub open spec fn with_assets(entries: Seq<AssetEntryView>, added: Seq<AssetEntryView>) -> Seq<
    AssetEntryView,
>
    decreases added.len(),
{
    if added.len() == 0 {
        entries
    } else {
        with_asset(with_assets(entries, added.drop_last()), added.last())
    }
}

/// `entries` with the status of the asset `id` set to `status`; unchanged
/// if no asset has the id.
pub open spec fn with_status(entries: Seq<AssetEntryView>, id: Seq<char>, status: AssetStatusView) -> Seq<
    AssetEntryView,
> {
    let at = position_of_asset(entries, id) as int;
    if at < entries.len() {
        entries.update(
            at,
            AssetEntryView { id: entries[at].id, info: AssetInfoView { status, ..entries[at].info } },
        )
    } else {
        entries
    }
}

/// Whether all of `entries` are loaded.
pub open spec fn all_loaded(entries: Seq<AssetEntryView>) -> bool {
    forall|i: int|
        0 <= i < entries.len() ==> (#[trigger] entries[i]).info.status == AssetStatusView::Loaded
}

/// Whether all of `entries` that are of the kind `asset_type` are loaded.
pub open spec fn all_of_type_loaded(entries: Seq<AssetEntryView>, asset_type: AssetType) -> bool {
    forall|i: int|
        0 <= i < entries.len() && (#[trigger] entries[i]).info.asset_type == asset_type
            ==> entries[i].info.status == AssetStatusView::Loaded
}

/// How many of `entries` satisfy `wanted`.
pub open spec fn count_status(
    entries: Seq<AssetEntryView>,
    wanted: spec_fn(AssetStatusView) -> bool,
) -> nat
    decreases entries.len(),
{
    if entries.len() == 0 {
        0
    } else {
        count_status(entries.drop_last(), wanted) + if wanted(entries.last().info.status) {
            1nat
        } else {
            0nat
        }
    }
}

/// The ids of `entries`, in order.
pub open spec fn ids_of(entries: Seq<AssetEntryView>) -> Seq<Seq<char>> {
    Seq::new(entries.len(), |i: int| entries[i].id)
}

/// The ids of those of `entries` whose loading failed, in order.
pub open spec fn failed_ids(entries: Seq<AssetEntryView>) -> Seq<Seq<char>>
    decreases entries.len(),
{
    if entries.len() == 0 {
        Seq::empty()
    } else if entries.last().info.status is Failed {
        failed_ids(entries.drop_last()).push(entries.last().id)
    } else {
        failed_ids(entries.drop_last())
    }
}

/// Whether no two of `entries` have the same id.
pub open spec fn ids_distinct(entries: Seq<AssetEntryView>) -> bool {
    forall|i: int, j: int|
        0 <= i < j < entries.len() ==> (#[trigger] entries[i]).id != (#[trigger] entries[j]).id
}

/// The place that [`position_of_asset`] gives lies within `entries` or at
/// their end, no entry before it has the id `id`, and the one at it has.
pub proof fn lemma_position_of_asset(entries: Seq<AssetEntryView>, id: Seq<char>)
    ensures
        position_of_asset(entries, id) <= entries.len(),
        forall|i: int| 0 <= i < position_of_asset(entries, id) ==> (#[trigger] entries[i]).id != id,
        position_of_asset(entries, id) < entries.len() ==> entries[position_of_asset(
            entries,
            id,
        ) as int].id == id,
    decreases entries.len(),
{
    if entries.len() > 0 && entries[0].id != id {
        let rest = entries.drop_first();
        lemma_position_of_asset(rest, id);
        assert forall|i: int| 0 <= i < position_of_asset(entries, id) implies (
        #[trigger] entries[i]).id != id by {
            if i > 0 {
                assert(entries[i] == rest[i - 1]);
            }
        }
        if position_of_asset(entries, id) < entries.len() {
            assert(entries[position_of_asset(entries, id) as int] == rest[position_of_asset(
                rest,
                id,
            ) as int]);
        }
    }
}

/// Registering an asset, or setting the status of one, among assets of
/// different ids leaves their ids different; and an asset that was
/// registered is then the one found under its id.
pub proof fn lemma_catalogue_keeps_ids(
    entries: Seq<AssetEntryView>,
    entry: AssetEntryView,
    status: AssetStatusView,
)
    ensures
        asset_with_id(with_asset(entries, entry), entry.id) == Some(entry.info),
        ids_distinct(entries) ==> ids_distinct(with_asset(entries, entry)),
        ids_distinct(entries) ==> ids_distinct(with_status(entries, entry.id, status)),
{
    let id = entry.id;
    let at = position_of_asset(entries, id) as int;
    let after = with_asset(entries, entry);
    let marked = with_status(entries, id, status);
    lemma_position_of_asset(entries, id);
    assert forall|i: int| 0 <= i < at implies (#[trigger] after[i]).id != id by {
        assert(after[i] == entries[i]);
    }
    lemma_position_of_asset_is(after, id, at);
    if ids_distinct(entries) {
        assert forall|i: int, j: int| 0 <= i < j < after.len() implies (#[trigger] after[i]).id != (
        #[trigger] after[j]).id by {
            if at < entries.len() {
                assert(after[i].id == entries[i].id);
                assert(after[j].id == entries[j].id);
            } else {
                assert(after[i] == entries[i]);
                if j < entries.len() {
                    assert(after[j] == entries[j]);
                }
            }
        }
        assert forall|i: int, j: int| 0 <= i < j < marked.len() implies (#[trigger] marked[i]).id
            != (#[trigger] marked[j]).id by {
            assert(marked[i].id == entries[i].id);
            assert(marked[j].id == entries[j].id);
        }
    }
}

/// A place `k` before which no entry has the id `id`, and at which
/// `entries` end or one has it, is the one that [`position_of_asset`] gives.
pub proof fn lemma_position_of_asset_is(entries: Seq<AssetEntryView>, id: Seq<char>, k: int)
    requires
        0 <= k <= entries.len(),
        forall|i: int| 0 <= i < k ==> (#[trigger] entries[i]).id != id,
        k < entries.len() ==> entries[k].id == id,
    ensures
        position_of_asset(entries, id) == k,
    decreases entries.len(),
{
    if k > 0 {
        let rest = entries.drop_first();
        assert(entries[0].id != id);
        assert forall|i: int| 0 <= i < k - 1 implies (#[trigger] rest[i]).id != id by {
            assert(rest[i] == entries[i + 1]);
        }
        if k - 1 < rest.len() {
            assert(rest[k - 1] == entries[k]);
        }
        lemma_position_of_asset_is(rest, id, k - 1);
    }
}

/// Registering one more asset after some is registering them all.
pub proof fn lemma_with_assets_step(entries: Seq<AssetEntryView>, added: Seq<AssetEntryView>, k: int)
    requires
        0 <= k < added.len(),
    ensures
        with_assets(entries, added.take(k + 1)) == with_asset(
            with_assets(entries, added.take(k)),
            added[k],
        ),
{
    assert(added.take(k + 1).drop_last() == added.take(k));
    assert(added.take(k + 1).last() == added[k]);
}

/// The assets that the game starts with.
pub open spec fn default_assets() -> Seq<AssetEntryView> {
    seq![
        unloaded("main_font"@, "fonts/NotoSansJP-VariableFont_wght.ttf"@, AssetType::Font),
        unloaded(
            "bg_souma_home"@,
            "images/backgrounds/souma_home.png"@,
            AssetType::BackgroundImage,
        ),
        unloaded("bg_school"@, "images/backgrounds/school.png"@, AssetType::BackgroundImage),
        unloaded("bg_forest"@, "images/backgrounds/forest.png"@, AssetType::BackgroundImage),
        unloaded(
            "char_souma"@,
            "images/characters/01_souma_kari.png"@,
            AssetType::CharacterImage,
        ),
        unloaded(
            "char_yuzuki"@,
            "images/characters/02_yuzuki_kari.png"@,
            AssetType::CharacterImage,
        ),
        unloaded(
            "char_retsuji"@,
            "images/characters/03_retsuji_kari.png"@,
            AssetType::CharacterImage,
        ),
        unloaded("char_kai"@, "images/characters/04_kai_kari.png"@, AssetType::CharacterImage),
        unloaded("bgm_title"@, "sounds/bgm/title.ogg"@, AssetType::Music),
        unloaded("bgm_daily"@, "sounds/bgm/daily.ogg"@, AssetType::Music),
        unloaded("bgm_battle"@, "sounds/bgm/battle.ogg"@, AssetType::Music),
        unloaded("se_click"@, "sounds/se/click.ogg"@, AssetType::Sound),
        unloaded("se_text"@, "sounds/se/text.ogg"@, AssetType::Sound),
    ]
}

/// Counts of the assets by how far they are loaded.
#[derive(Debug, Clone, Copy, PartialEq, Eq, Structural)]
pub struct AssetLoadingStats {
    pub total: usize,
    pub loaded: usize,
    pub loading: usize,
    pub failed: usize,
}

/// How much of `total` assets is loaded, in whole percent rounded down, and
/// no more than a hundred; all of it where there are no assets.
pub open spec fn percent_loaded(loaded: int, total: int) -> int {
    if total <= 0 || loaded >= total {
        100
    } else {
        loaded * 100 / total
    }
}

impl AssetLoadingStats {
    /// How much of the assets is loaded, in whole percent.
    pub fn progress_percent(&self) -> (percent: u32)
        ensures
            percent == percent_loaded(self.loaded as int, self.total as int),
            percent <= 100,
    {
        if self.total == 0 || self.loaded >= self.total {
            100
        } else {
            let loaded: u128 = self.loaded as u128;
            let total: u128 = self.total as u128;
            let percent: u128 = loaded * 100 / total;
            assert(percent < 100) by (nonlinear_arith)
                requires
                    percent == (loaded * 100) as int / (total as int),
                    0 <= loaded < total,
            ;
            percent as u32
        }
    }
}

/// The counts over `entries`.
pub open spec fn stats_of(entries: Seq<AssetEntryView>) -> AssetLoadingStats {
    AssetLoadingStats {
        total: entries.len() as usize,
        loaded: count_status(entries, |s: AssetStatusView| s is Loaded) as usize,
        loading: count_status(entries, |s: AssetStatusView| s is Loading) as usize,
        failed: count_status(entries, |s: AssetStatusView| s is Failed) as usize,
    }
}

/// What is to be done to load an asset.
#[derive(Debug, PartialEq)]
pub enum LoadStep {
    /// The catalogue has no asset of this id. Holds the message.
    Unknown { message: String },
    /// The asset is loaded already.
    AlreadyLoaded,
    /// The file is not there. Holds the message, which is also the reason
    /// noted in the catalogue.
    Missing { message: String },
    /// The engine is to load the file at `path` as an asset of the kind
    /// `asset_type`.
    Load { path: String, asset_type: AssetType },
}

/// What a [`LoadStep`] holds, as mathematical values.
pub enum LoadStepView {
    Unknown { message: Seq<char> },
    AlreadyLoaded,
    Missing { message: Seq<char> },
    Load { path: Seq<char>, asset_type: AssetType },
}

impl View for LoadStep {
    type V = LoadStepView;

    open spec fn view(&self) -> LoadStepView {
        match *self {
            LoadStep::Unknown { message } => LoadStepView::Unknown { message: message@ },
            LoadStep::AlreadyLoaded => LoadStepView::AlreadyLoaded,
            LoadStep::Missing { message } => LoadStepView::Missing { message: message@ },
            LoadStep::Load { path, asset_type } => LoadStepView::Load { path: path@, asset_type },
        }
    }
}

/// The directory of the assets.
pub open spec fn asset_root() -> Seq<char> {
    "assets/"@
}

/// The message for an asset whose file is not there.
pub open spec fn missing_file_message(path: Seq<char>) -> Seq<char> {
    "ファイルが見つかりません: "@ + asset_root() + path
}

/// The message for an id that the catalogue does not have.
pub open spec fn unknown_asset_message(id: Seq<char>) -> Seq<char> {
    "アセット「"@ + id + "」が見つかりません"@
}

/// What is to be done to load the asset `id`, where `file_exists` says
/// whether its file is there.
pub open spec fn load_step(entries: Seq<AssetEntryView>, id: Seq<char>, file_exists: bool) -> LoadStepView {
    match asset_with_id(entries, id) {
        None => LoadStepView::Unknown { message: unknown_asset_message(id) },
        Some(info) => if info.status is Loaded {
            LoadStepView::AlreadyLoaded
        } else if !file_exists {
            LoadStepView::Missing { message: missing_file_message(info.path) }
        } else {
            LoadStepView::Load { path: info.path, asset_type: info.asset_type }
        },
    }
}

/// The catalogue after the step to load the asset `id` was decided: an
/// asset whose file is not there has failed, and one that is to be loaded
/// is loading.
pub open spec fn entries_after_load_step(
    entries: Seq<AssetEntryView>,
    id: Seq<char>,
    file_exists: bool,
) -> Seq<AssetEntryView> {
    match load_step(entries, id, file_exists) {
        LoadStepView::Missing { message } => with_status(
            entries,
            id,
            AssetStatusView::Failed(message),
        ),
        LoadStepView::Load { .. } => with_status(entries, id, AssetStatusView::Loading),
        _ => entries,
    }
}

/// The catalogue of assets.
#[derive(Debug)]
pub struct AssetManager {
    assets: Vec<AssetEntry>,
}

impl View for AssetManager {
    type V = Seq<AssetEntryView>;

    closed spec fn view(&self) -> Seq<AssetEntryView> {
        self.assets.deep_view()
    }
}

impl Default for AssetManager {
    /// A catalogue of the assets that the game starts with.
    fn default() -> (r: Self)
        ensures
            r@ == with_assets(Seq::empty(), default_assets()),
            r.well_formed(),
    {
        let mut manager = AssetManager::new();
        manager.register_default_assets();
        manager
    }
}

impl AssetManager {
    /// Whether the catalogue holds at most one asset under each id. A new
    /// catalogue does, and no operation on a catalogue that does ends in one
    /// that does not.
    pub open spec fn well_formed(&self) -> bool {
        ids_distinct(self@)
    }

    /// An empty catalogue.
    pub fn new() -> (r: Self)
        ensures
            r@ == Seq::<AssetEntryView>::empty(),
            r.well_formed(),
    {
        let r = AssetManager { assets: Vec::new() };
        assert(r.assets.deep_view() == Seq::<AssetEntryView>::empty());
        r
    }

    /// The place of the first asset with the id `id`.
    fn position(&self, id: &str) -> (at: usize)
        ensures
            at == position_of_asset(self@, id@),
            at <= self.assets.len(),
            self.assets.len() == self@.len(),
            at < self.assets.len() ==> self.assets[at as int]@ == self@[at as int],
    {
        let wanted = String::from_str(id);
        let mut i: usize = 0;
        while i < self.assets.len()
            invariant
                i <= self.assets.len(),
                wanted@ == id@,
                forall|j: int| 0 <= j < i ==> (#[trigger] self@[j]).id != id@,
            decreases self.assets.len() - i,
        {
            if self.assets[i].id == wanted {
                proof {
                    assert(self@[i as int].id == id@);
                    lemma_position_of_asset_is(self@, id@, i as int);
                }
                return i;
            }
            i += 1;
        }
        proof {
            lemma_position_of_asset_is(self@, id@, i as int);
        }
        i
    }

    /// Puts `entry` in the place of the asset with its id, or after all.
    fn put(&mut self, entry: AssetEntry)
        ensures
            final(self)@ == with_asset(old(self)@, entry@),
            old(self).well_formed() ==> final(self).well_formed(),
    {
        proof {
            lemma_catalogue_keeps_ids(self@, entry@, AssetStatusView::NotLoaded);
        }
        let at = self.position(entry.id.as_str());
        if at < self.assets.len() {
            self.assets.set(at, entry);
            assert(self.assets.deep_view() == old(self).assets.deep_view().update(
                at as int,
                entry@,
            ));
        } else {
            self.assets.push(entry);
            assert(self.assets.deep_view() == old(self).assets.deep_view().push(entry@));
        }
    }

    /// Registers the asset `id`, not loaded, in place of the one that was
    /// registered under the id, if any.
    pub fn register_asset(&mut self, id: &str, path: &str, asset_type: AssetType)
        ensures
            final(self)@ == with_asset(old(self)@, unloaded(id@, path@, asset_type)),
            old(self).well_formed() ==> final(self).well_formed(),
    {
        self.put(
            AssetEntry {
                id: String::from_str(id),
                info: AssetInfo {
                    path: String::from_str(path),
                    asset_type,
                    status: AssetStatus::NotLoaded,
                },
            },
        );
    }

    /// Registers the assets that the game starts with.
    pub fn register_default_assets(&mut self)
        ensures
            final(self)@ == with_assets(old(self)@, default_assets()),
            old(self).well_formed() ==> final(self).well_formed(),
    {
        let ghost added = default_assets();
        let ghost before = self@;
        self.register_asset(
            "main_font",
            "fonts/NotoSansJP-VariableFont_wght.ttf",
            AssetType::Font,
        );
        self.register_asset(
            "bg_souma_home",
            "images/backgrounds/souma_home.png",
            AssetType::BackgroundImage,
        );
        self.register_asset("bg_school", "images/backgrounds/school.png", AssetType::BackgroundImage);
        self.register_asset("bg_forest", "images/backgrounds/forest.png", AssetType::BackgroundImage);
        proof {
            assert(added.take(0) == Seq::<AssetEntryView>::empty());
            lemma_with_assets_step(before, added, 0);
            lemma_with_assets_step(before, added, 1);
            lemma_with_assets_step(before, added, 2);
            lemma_with_assets_step(before, added, 3);
            assert(self@ == with_assets(before, added.take(4)));
        }
        self.register_asset(
            "char_souma",
            "images/characters/01_souma_kari.png",
            AssetType::CharacterImage,
        );
        self.register_asset(
            "char_yuzuki",
            "images/characters/02_yuzuki_kari.png",
            AssetType::CharacterImage,
        );
        self.register_asset(
            "char_retsuji",
            "images/characters/03_retsuji_kari.png",
            AssetType::CharacterImage,
        );
        self.register_asset(
            "char_kai",
            "images/characters/04_kai_kari.png",
            AssetType::CharacterImage,
        );
        proof {
            lemma_with_assets_step(before, added, 4);
            lemma_with_assets_step(before, added, 5);
            lemma_with_assets_step(before, added, 6);
            lemma_with_assets_step(before, added, 7);
            assert(self@ == with_assets(before, added.take(8)));
        }
        self.register_asset("bgm_title", "sounds/bgm/title.ogg", AssetType::Music);
        self.register_asset("bgm_daily", "sounds/bgm/daily.ogg", AssetType::Music);
        self.register_asset("bgm_battle", "sounds/bgm/battle.ogg", AssetType::Music);
        self.register_asset("se_click", "sounds/se/click.ogg", AssetType::Sound);
        self.register_asset("se_text", "sounds/se/text.ogg", AssetType::Sound);
        proof {
            lemma_with_assets_step(before, added, 8);
            lemma_with_assets_step(before, added, 9);
            lemma_with_assets_step(before, added, 10);
            lemma_with_assets_step(before, added, 11);
            lemma_with_assets_step(before, added, 12);
            assert(added.take(13) == added);
        }
    }

    /// What the catalogue knows of the asset `id`.
    pub fn get_asset_info(&self, id: &str) -> (r: Option<&AssetInfo>)
        ensures
            match r {
                Some(info) => asset_with_id(self@, id@) == Some(info@),
                None => asset_with_id(self@, id@) is None,
            },
    {
        let at = self.position(id);
        if at < self.assets.len() {
            Some(&self.assets[at].info)
        } else {
            None
        }
    }

    /// Sets the status of the asset `id`. Returns whether the catalogue has
    /// the asset.
    pub fn set_status(&mut self, id: &str, status: AssetStatus) -> (known: bool)
        ensures
            known == (asset_with_id(old(self)@, id@) is Some),
            final(self)@ == with_status(old(self)@, id@, status@),
            old(self).well_formed() ==> final(self).well_formed(),
    {
        proof {
            lemma_catalogue_keeps_ids(
                self@,
                unloaded(id@, Seq::empty(), AssetType::Font),
                status@,
            );
        }
        let at = self.position(id);
        if at < self.assets.len() {
            let entry = AssetEntry {
                id: self.assets[at].id.clone(),
                info: AssetInfo {
                    path: self.assets[at].info.path.clone(),
                    asset_type: self.assets[at].info.asset_type,
                    status,
                },
            };
            self.assets.set(at, entry);
            assert(self.assets.deep_view() == old(self).assets.deep_view().update(
                at as int,
                entry@,
            ));
            true
        } else {
            false
        }
    }

    /// Decides what is to be done to load the asset `id`, where
    /// `file_exists` says whether its file is there, and notes in the
    /// catalogue what comes of it.
    pub fn begin_load(&mut self, id: &str, file_exists: bool) -> (step: LoadStep)
        ensures
            step@ == load_step(old(self)@, id@, file_exists),
            final(self)@ == entries_after_load_step(old(self)@, id@, file_exists),
            old(self).well_formed() ==> final(self).well_formed(),
    {
        let at = self.position(id);
        if at >= self.assets.len() {
            return LoadStep::Unknown {
                message: String::from_str("アセット「").concat(id).concat("」が見つかりません"),
            };
        }
        let loaded = match self.assets[at].info.status {
            AssetStatus::Loaded => true,
            _ => false,
        };
        if loaded {
            return LoadStep::AlreadyLoaded;
        }
        let path = self.assets[at].info.path.clone();
        let asset_type = self.assets[at].info.asset_type;
        if !file_exists {
            let message = String::from_str("ファイルが見つかりません: ").concat("assets/").concat(
                path.as_str(),
            );
            assert(message@ == missing_file_message(path@));
            self.set_status(id, AssetStatus::Failed(message.clone()));
            return LoadStep::Missing { message };
        }
        self.set_status(id, AssetStatus::Loading);
        LoadStep::Load { path, asset_type }
    }

    /// Whether every asset is loaded.
    pub fn all_assets_loaded(&self) -> (b: bool)
        ensures
            b == all_loaded(self@),
    {
        let mut i: usize = 0;
        while i < self.assets.len()
            invariant
                i <= self.assets.len(),
                self.assets.len() == self@.len(),
                forall|j: int|
                    0 <= j < i ==> (#[trigger] self@[j]).info.status == AssetStatusView::Loaded,
            decreases self.assets.len() - i,
        {
            let loaded = match self.assets[i].info.status {
                AssetStatus::Loaded => true,
                _ => false,
            };
            assert(self.assets[i as int]@ == self@[i as int]);
            if !loaded {
                return false;
            }
            i += 1;
        }
        true
    }

    /// Whether every asset of the kind `asset_type` is loaded.
    pub fn assets_of_type_loaded(&self, asset_type: AssetType) -> (b: bool)
        ensures
            b == all_of_type_loaded(self@, asset_type),
    {
        let mut i: usize = 0;
        while i < self.assets.len()
            invariant
                i <= self.assets.len(),
                self.assets.len() == self@.len(),
                forall|j: int|
                    0 <= j < i && (#[trigger] self@[j]).info.asset_type == asset_type
                        ==> self@[j].info.status == AssetStatusView::Loaded,
            decreases self.assets.len() - i,
        {
            let loaded = match self.assets[i].info.status {
                AssetStatus::Loaded => true,
                _ => false,
            };
            assert(self.assets[i as int]@ == self@[i as int]);
            if self.assets[i].info.asset_type == asset_type && !loaded {
                return false;
            }
            i += 1;
        }
        true
    }

    /// The ids of all assets, in the order of the catalogue.
    pub fn asset_ids(&self) -> (ids: Vec<String>)
        ensures
            ids.deep_view() == ids_of(self@),
    {
        let mut ids: Vec<String> = Vec::new();
        let mut i: usize = 0;
        while i < self.assets.len()
            invariant
                i <= self.assets.len(),
                self.assets.len() == self@.len(),
                ids.len() == i,
                forall|j: int| 0 <= j < i ==> ids[j]@ == self@[j].id,
            decreases self.assets.len() - i,
        {
            assert(self.assets[i as int]@ == self@[i as int]);
            ids.push(self.assets[i].id.clone());
            i += 1;
        }
        assert(ids.deep_view() == ids_of(self@));
        ids
    }

    /// The ids of the assets whose loading failed, in the order of the
    /// catalogue.
    pub fn get_failed_assets(&self) -> (failed: Vec<String>)
        ensures
            failed.deep_view() == failed_ids(self@),
    {
        let mut failed: Vec<String> = Vec::new();
        let mut i: usize = 0;
        assert(self@.take(0) == Seq::<AssetEntryView>::empty());
        assert(failed.deep_view() == Seq::<Seq<char>>::empty());
        while i < self.assets.len()
            invariant
                i <= self.assets.len(),
                self.assets.len() == self@.len(),
                failed.deep_view() == failed_ids(self@.take(i as int)),
            decreases self.assets.len() - i,
        {
            proof {
                assert(self@.take(i + 1).drop_last() == self@.take(i as int));
                assert(self@.take(i + 1).last() == self@[i as int]);
                assert(self.assets[i as int]@ == self@[i as int]);
            }
            let has_failed = match self.assets[i].info.status {
                AssetStatus::Failed(_) => true,
                _ => false,
            };
            if has_failed {
                let ghost before = failed.deep_view();
                let id = self.assets[i].id.clone();
                failed.push(id);
                assert(failed.deep_view() == before.push(id@));
            }
            i += 1;
        }
        assert(self@.take(self.assets.len() as int) == self@);
        failed
    }

    /// Counts of the assets by how far they are loaded.
    pub fn get_loading_stats(&self) -> (stats: AssetLoadingStats)
        ensures
            stats == stats_of(self@),
    {
        let ghost is_loaded = |s: AssetStatusView| s is Loaded;
        let ghost is_loading = |s: AssetStatusView| s is Loading;
        let ghost is_failed = |s: AssetStatusView| s is Failed;
        let mut loaded: usize = 0;
        let mut loading: usize = 0;
        let mut failed: usize = 0;
        let mut i: usize = 0;
        assert(self@.take(0) == Seq::<AssetEntryView>::empty());
        while i < self.assets.len()
            invariant
                i <= self.assets.len(),
                self.assets.len() == self@.len(),
                is_loaded == |s: AssetStatusView| s is Loaded,
                is_loading == |s: AssetStatusView| s is Loading,
                is_failed == |s: AssetStatusView| s is Failed,
                loaded == count_status(self@.take(i as int), is_loaded),
                loading == count_status(self@.take(i as int), is_loading),
                failed == count_status(self@.take(i as int), is_failed),
                loaded <= i,
                loading <= i,
                failed <= i,
            decreases self.assets.len() - i,
        {
            proof {
                assert(self@.take(i + 1).drop_last() == self@.take(i as int));
                assert(self@.take(i + 1).last() == self@[i as int]);
                assert(self.assets[i as int]@ == self@[i as int]);
            }
            match self.assets[i].info.status {
                AssetStatus::Loaded => {
                    loaded += 1;
                },
                AssetStatus::Loading => {
                    loading += 1;
                },
                AssetStatus::Failed(_) => {
                    failed += 1;
                },
                AssetStatus::NotLoaded => {},
            }
            i += 1;
        }
        assert(self@.take(self.assets.len() as int) == self@);
        AssetLoadingStats { total: self.assets.len(), loaded, loading, failed }
    }
}

} // verus!
