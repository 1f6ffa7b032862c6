//! The catalogue's data model: game and runtime-install records, the
//! transfer objects of the command surface, and the pure record logic
//! (building new records, merging updates, diffing containers for cleanup).

use vstd::prelude::*;

use crate::engine::spec_engine_as_str;
use crate::engine::spec_engine_from_str;
use crate::engine::EngineType;
use crate::fsmodel::file_name_of;
use crate::fsmodel::spec_file_name;
use crate::profile::generate_profile_key;
use crate::profile::spec_generate_key;
use crate::profile::spec_key_views;
use crate::text::str_eq;

verus! {

/// Relies on `std::time::SystemTime::now` and `duration_since(UNIX_EPOCH)`:
/// the current Unix time in milliseconds, zero when the clock reads before
/// the epoch. The value depends on the clock, so nothing more is promised.
#[verifier::external_body]
pub fn now_unix_ms() -> (r: i64)
    ensures
        r >= 0,
{
    std::time::SystemTime::now()
        .duration_since(std::time::UNIX_EPOCH)
        .unwrap_or_default()
        .as_millis() as i64
}

/// Relies on `uuid::Uuid::new_v4` and its `Display` form: a fresh random
/// UUID rendered in the hyphenated format, which is 36 characters with
/// hyphens at positions 8, 13, 18 and 23. The value is random, so only the
/// shape is promised.
#[verifier::external_body]
pub(crate) fn new_uuid_string() -> (r: String)
    ensures
        r@.len() == 36,
        r@[8] == '-' && r@[13] == '-' && r@[18] == '-' && r@[23] == '-',
        forall|i: int| 0 <= i < 36 && i != 8 && i != 13 && i != 18 && i != 23 ==> r@[i] != '-',
{
    uuid::Uuid::new_v4().to_string()
}

/// A game record as the persistence collaborator stores it.
pub struct Game {
    /// Unique identifier.
    pub id: String,
    /// The readable, unique container directory name.
    pub profile_key: String,
    /// Display title.
    pub title: String,
    /// Engine family tag (canonical string form).
    pub engine_type: String,
    /// Filesystem path of the game directory.
    pub path: String,
    /// Pinned runtime version, if any.
    pub runtime_version: Option<String>,
    /// Path of the stored cover image, if any.
    pub cover_path: Option<String>,
    /// Creation time, Unix milliseconds.
    pub created_at: i64,
    /// Last launch time, Unix milliseconds, if ever launched.
    pub last_played_at: Option<i64>,
}

impl Game {
    /// Builds a fresh game record with the current time as creation stamp,
    /// no cover, and no play history.
    pub fn new(
        id: String,
        profile_key: String,
        title: String,
        engine_type: EngineType,
        path: String,
        runtime_version: Option<String>,
    ) -> (r: Game)
        ensures
            r.id == id,
            r.profile_key == profile_key,
            r.title == title,
            r.engine_type@ == spec_engine_as_str(engine_type),
            r.path == path,
            r.runtime_version == runtime_version,
            r.cover_path is None,
            r.last_played_at is None,
            r.created_at >= 0,
    {
        let now = now_unix_ms();
        Game {
            id,
            profile_key,
            title,
            engine_type: engine_type.as_str().to_owned(),
            path,
            runtime_version,
            cover_path: None,
            created_at: now,
            last_played_at: None,
        }
    }

    /// The engine family this record's tag names.
    pub fn get_engine_type(&self) -> (r: EngineType)
        ensures
            r == spec_engine_from_str(self.engine_type@),
    {
        EngineType::from_str(self.engine_type.as_str())
    }
}

/// A runtime install record: one per (engine family, version) pair.
pub struct Engine {
    /// Unique identifier.
    pub id: String,
    /// Human name of the runtime.
    pub name: String,
    /// Version string.
    pub version: String,
    /// Engine family tag the install serves.
    pub engine_type: String,
    /// Filesystem path of the install.
    pub path: String,
    /// Install time, Unix milliseconds.
    pub installed_at: i64,
}

impl Engine {
    /// Builds a fresh runtime install record stamped with the current time.
    pub fn new(id: String, name: String, version: String, engine_type: String, path: String) -> (r:
        Engine)
        ensures
            r.id == id,
            r.name == name,
            r.version == version,
            r.engine_type == engine_type,
            r.path == path,
            r.installed_at >= 0,
    {
        let now = now_unix_ms();
        Engine { id, name, version, engine_type, path, installed_at: now }
    }
}

/// A version of the external runtime offered for install.
pub struct EngineVersion {
    /// Version string.
    pub version: String,
    /// Download URL of the archive.
    pub download_url: String,
    /// Whether this version is already installed.
    pub installed: bool,
}

// === transfer objects of the command surface ===

/// A game record as presented to the interface layer.
pub struct GameDto {
    pub id: String,
    pub title: String,
    pub engine_type: String,
    pub path: String,
    pub path_valid: bool,
    pub runtime_version: Option<String>,
    pub cover_path: Option<String>,
    pub created_at: i64,
    pub last_played_at: Option<i64>,
}

/// Input for adding a game record.
pub struct AddGameInput {
    pub title: Option<String>,
    pub engine_type: String,
    pub path: String,
    pub runtime_version: Option<String>,
}

/// Input for importing a game directory.
pub struct ImportGameInput {
    pub executable_path: String,
    pub engine_type: String,
}

/// Partial update of a game record; absent fields stay as they are.
pub struct UpdateGameInput {
    pub title: Option<String>,
    pub engine_type: Option<String>,
    pub path: Option<String>,
    pub runtime_version: Option<String>,
}

/// A runtime install record as presented to the interface layer.
pub struct EngineDto {
    pub id: String,
    pub name: String,
    pub version: String,
    pub engine_type: String,
    pub path: String,
    pub installed_at: i64,
}

/// The update check result for one runtime install.
pub struct EngineUpdateInfo {
    pub engine_id: String,
    pub current_version: String,
    pub latest_version: String,
    pub update_available: bool,
}

/// The outcome of updating one runtime install.
pub struct EngineUpdateResult {
    pub engine_id: String,
    pub updated: bool,
    pub from_version: String,
    pub to_version: String,
    pub install_dir: Option<String>,
}

/// The result of launching a game: the detached child's process id.
pub struct LaunchResult {
    pub pid: u32,
}

/// Input for changing the container root directory.
pub struct SetContainerRootInput {
    pub container_root: String,
}

/// Input for a recursive game scan.
pub struct ScanGamesInput {
    pub root: String,
    pub max_depth: u32,
}

/// The counts a recursive scan reports.
pub struct ScanGamesResult {
    pub scanned_dirs: u32,
    pub found_games: u32,
    pub imported: u32,
    pub skipped_existing: u32,
}

/// The count of containers a cleanup pass removed.
pub struct CleanupResult {
    pub deleted: u32,
}

/// Input for choosing the default bottle of the wine integration.
pub struct SetDefaultBottleInput {
    pub default_bottle: Option<String>,
}

/// Input for switching the wine integration on or off.
pub struct SetBottlesEnabledInput {
    pub enabled: bool,
}

/// The application's global settings.
pub struct AppSettings {
    pub container_root: String,
}

/// The options block of one integration's status.
pub struct IntegrationOptions {
    pub installed: Option<bool>,
    pub bottles: Option<Vec<String>>,
    pub default_bottle: Option<String>,
}

/// The status of one optional integration.
pub struct IntegrationStatus {
    pub key: String,
    pub available: bool,
    pub enabled: bool,
    pub options: Option<IntegrationOptions>,
}

/// Everything the host can do, by integration.
pub struct Capabilities {
    pub integrations: Vec<IntegrationStatus>,
}

/// Input for updating one integration's settings.
pub struct IntegrationSettingsInput {
    pub key: String,
    pub enabled: Option<bool>,
    pub options: Option<IntegrationOptions>,
}

// === record logic ===

/// Converts a game record to its transfer object; the caller supplies
/// whether the game path currently exists.
pub fn game_to_dto(game: Game, path_valid: bool) -> (r: GameDto)
    ensures
        r.id == game.id,
        r.title == game.title,
        r.engine_type == game.engine_type,
        r.path == game.path,
        r.path_valid == path_valid,
        r.runtime_version == game.runtime_version,
        r.cover_path == game.cover_path,
        r.created_at == game.created_at,
        r.last_played_at == game.last_played_at,
{
    GameDto {
        id: game.id,
        title: game.title,
        engine_type: game.engine_type,
        path: game.path,
        path_valid,
        runtime_version: game.runtime_version,
        cover_path: game.cover_path,
        created_at: game.created_at,
        last_played_at: game.last_played_at,
    }
}

/// Converts a runtime install record to its transfer object.
pub fn engine_to_dto(engine: Engine) -> (r: EngineDto)
    ensures
        r.id == engine.id,
        r.name == engine.name,
        r.version == engine.version,
        r.engine_type == engine.engine_type,
        r.path == engine.path,
        r.installed_at == engine.installed_at,
{
    EngineDto {
        id: engine.id,
        name: engine.name,
        version: engine.version,
        engine_type: engine.engine_type,
        path: engine.path,
        installed_at: engine.installed_at,
    }
}

/// Merges a partial update into a game record: present fields replace the
/// stored ones, absent fields keep them; a present runtime version is
/// pinned.
pub fn apply_game_update(game: &mut Game, input: UpdateGameInput)
    ensures
        final (game).title == (if input.title is Some {
            input.title->0
        } else {
            old(game).title
        }),
        final (game).engine_type == (if input.engine_type is Some {
            input.engine_type->0
        } else {
            old(game).engine_type
        }),
        final (game).path == (if input.path is Some {
            input.path->0
        } else {
            old(game).path
        }),
        final (game).runtime_version == (if input.runtime_version is Some {
            Some(input.runtime_version->0)
        } else {
            old(game).runtime_version
        }),
        final (game).id == old(game).id,
        final (game).profile_key == old(game).profile_key,
        final (game).cover_path == old(game).cover_path,
        final (game).created_at == old(game).created_at,
        final (game).last_played_at == old(game).last_played_at,
{
    match input.title {
        Some(t) => {
            game.title = t;
        },
        None => {},
    }
    match input.engine_type {
        Some(e) => {
            game.engine_type = e;
        },
        None => {},
    }
    match input.path {
        Some(p) => {
            game.path = p;
        },
        None => {},
    }
    match input.runtime_version {
        Some(v) => {
            game.runtime_version = Some(v);
        },
        None => {},
    }
}

/// The title a new record gets: the given one, or the game directory's name,
/// or a fixed fallback when the path yields none.
pub open spec fn spec_new_game_title(title: Option<String>, path: Seq<char>) -> Seq<char> {
    match title {
        Some(t) => t@,
        None => if spec_file_name(path).len() == 0 {
            "Untitled"@
        } else {
            spec_file_name(path)
        },
    }
}

/// Builds the record for a newly added game: a fresh random id, a title
/// falling back to the directory name, and the next free profile key
/// allocated against the existing keys.
pub fn new_game_record(input: AddGameInput, existing_keys: &Vec<String>) -> (r: Game)
    ensures
        r.title@ == spec_new_game_title(input.title, input.path@),
        r.profile_key@ == spec_generate_key(
            spec_new_game_title(input.title, input.path@),
            spec_key_views(existing_keys@),
        ),
        r.engine_type@ == spec_engine_as_str(spec_engine_from_str(input.engine_type@)),
        r.path == input.path,
        r.runtime_version == input.runtime_version,
        r.cover_path is None,
        r.last_played_at is None,
        r.id@.len() == 36,
{
    let title: String = match input.title {
        Some(t) => t,
        None => {
            let name = file_name_of(input.path.as_str());
            if name.as_str().is_empty() {
                "Untitled".to_owned()
            } else {
                name
            }
        },
    };
    let id = new_uuid_string();
    let profile_key = generate_profile_key(title.as_str(), existing_keys);
    let engine_type = EngineType::from_str(input.engine_type.as_str());
    Game::new(id, profile_key, title, engine_type, input.path, input.runtime_version)
}

/// The display title a game directory yields: its own name, or a fixed
/// fallback when the path has no final component.
pub fn read_game_title(game_path: &str) -> (r: String)
    ensures
        r@ == spec_new_game_title(None, game_path@),
{
    let name = file_name_of(game_path);
    if name.as_str().is_empty() {
        "Untitled".to_owned()
    } else {
        name
    }
}

/// Whether any string in `v` equals `s`.
pub fn strings_contain(v: &Vec<String>, s: &str) -> (r: bool)
    ensures
        r == spec_key_views(v@).contains(s@),
{
    let mut i: usize = 0;
    while i < v.len()
        invariant
            0 <= i <= v@.len(),
            forall|j: int| 0 <= j < i ==> v@[j]@ != s@,
        decreases v@.len() - i,
    {
        if str_eq(v[i].as_str(), s) {
            assert(spec_key_views(v@)[i as int] == s@);
            return true;
        }
        i = i + 1;
    }
    assert(forall|j: int|
        0 <= j < spec_key_views(v@).len() ==> spec_key_views(v@)[j] != s@);
    false
}

/// The container names to delete: those with no matching live profile key,
/// in listing order.
pub open spec fn spec_cleanup_plan(names: Seq<Seq<char>>, keep: Seq<Seq<char>>) -> Seq<Seq<char>>
    decreases names.len(),
{
    if names.len() == 0 {
        names
    } else {
        let rest = spec_cleanup_plan(names.drop_last(), keep);
        if keep.contains(names.last()) {
            rest
        } else {
            rest.push(names.last())
        }
    }
}

/// Diffs the existing profile container names against the live game records:
/// returns the orphaned names, those matching no live profile key, in order.
pub fn plan_container_cleanup(names: &Vec<String>, live_keys: &Vec<String>) -> (r: Vec<String>)
    ensures
        spec_key_views(r@) == spec_cleanup_plan(spec_key_views(names@), spec_key_views(live_keys@)),
{
    let ghost nv = spec_key_views(names@);
    let ghost kv = spec_key_views(live_keys@);
    let mut out: Vec<String> = Vec::new();
    let mut i: usize = 0;
    assert(nv.take(0) =~= Seq::<Seq<char>>::empty());
    assert(spec_key_views(out@) =~= spec_cleanup_plan(nv.take(0), kv));
    while i < names.len()
        invariant
            0 <= i <= names@.len(),
            nv == spec_key_views(names@),
            kv == spec_key_views(live_keys@),
            spec_key_views(out@) == spec_cleanup_plan(nv.take(i as int), kv),
        decreases names@.len() - i,
    {
        assert(nv.take(i + 1).drop_last() =~= nv.take(i as int));
        assert(nv.take(i + 1).last() == names@[i as int]@);
        if !strings_contain(live_keys, names[i].as_str()) {
            let ghost before = spec_key_views(out@);
            out.push(names[i].clone());
            assert(spec_key_views(out@) =~= before.push(names@[i as int]@));
        }
        i = i + 1;
    }
    assert(nv.take(names@.len() as int) =~= nv);
    out
}

} // verus!
