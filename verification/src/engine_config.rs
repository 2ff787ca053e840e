use rand::seq::SliceRandom;
use vstd::prelude::*;

use crate::error::{ConfigError, Node};
use crate::json::Json;
use crate::text::{first_index, str_eq, views};
use crate::util::{extract_last_directory_name, last_directory_name};

verus! {

/// The wallpaper engine configuration (its `config.json`), as read from disk,
/// and the profile that was last loaded from it.
pub struct WallpaperEngineConfig {
    pub source: Json,
    pub profile: Option<Profile>,
}

/// The wallpaper that a profile shows on its first monitor.
pub struct Profile {
    pub wallpaper_id: String,
}

/// A playlist of wallpaper engine, with its settings.
pub struct Playlist {
    pub wallpaper_ids: Vec<String>,
    pub mode: String,
    pub order: String,
    pub delay: u64,
    pub videosequence: bool,
    pub beginfirst: bool,
}

/// A folder of wallpaper engine's browser: its title and the wallpaper ids in it.
pub struct Folder {
    pub items: Vec<String>,
    pub title: String,
}

impl Clone for Folder {
    fn clone(&self) -> (r: Folder)
        ensures
            r@ == self@,
    {
        Folder { items: self.items.clone(), title: self.title.clone() }
    }
}

/// The texts of a playlist.
pub struct PlaylistView {
    pub wallpaper_ids: Seq<Seq<char>>,
    pub mode: Seq<char>,
    pub order: Seq<char>,
    pub delay: u64,
    pub videosequence: bool,
    pub beginfirst: bool,
}

/// The texts of a folder.
pub struct FolderView {
    pub items: Seq<Seq<char>>,
    pub title: Seq<char>,
}

impl View for Playlist {
    type V = PlaylistView;

    open spec fn view(&self) -> PlaylistView {
        PlaylistView {
            wallpaper_ids: views(self.wallpaper_ids@),
            mode: self.mode@,
            order: self.order@,
            delay: self.delay,
            videosequence: self.videosequence,
            beginfirst: self.beginfirst,
        }
    }
}

impl View for Folder {
    type V = FolderView;

    open spec fn view(&self) -> FolderView {
        FolderView { items: views(self.items@), title: self.title@ }
    }
}

/// `value`, or the error `err` when it is absent.
pub open spec fn required(value: Option<Json>, err: ConfigError) -> Result<Json, ConfigError> {
    match value {
        Some(v) => Ok(v),
        None => Err(err),
    }
}

/// The node `steamuser.general` of the configuration.
pub open spec fn spec_general(source: Json) -> Result<Json, ConfigError> {
    match required(source.spec_get("steamuser"@), ConfigError::Missing(Node::Steamuser)) {
        Err(e) => Err(e),
        Ok(user) => required(user.spec_get("general"@), ConfigError::Missing(Node::General)),
    }
}

/// The array under `key` in `steamuser.general`; `node` names it in errors.
pub open spec fn spec_general_array(source: Json, key: Seq<char>, node: Node) -> Result<Seq<Json>, ConfigError> {
    match spec_general(source) {
        Err(e) => Err(e),
        Ok(general) => match general.spec_get(key) {
            None => Err(ConfigError::Missing(node)),
            Some(a) => match a.spec_as_array() {
                None => Err(ConfigError::NotArray(node)),
                Some(v) => Ok(v),
            },
        },
    }
}

/// The folders array, `steamuser.general.browser.folders`.
pub open spec fn spec_folders_array(source: Json) -> Result<Seq<Json>, ConfigError> {
    match spec_general(source) {
        Err(e) => Err(e),
        Ok(general) => match required(general.spec_get("browser"@), ConfigError::Missing(Node::Browser)) {
            Err(e) => Err(e),
            Ok(browser) => match browser.spec_get("folders"@) {
                None => Err(ConfigError::Missing(Node::Folders)),
                Some(a) => match a.spec_as_array() {
                    None => Err(ConfigError::NotArray(Node::Folders)),
                    Some(v) => Ok(v),
                },
            },
        },
    }
}

/// Whether `entry` has a string field `name` equal to `name`.
pub open spec fn is_named(entry: Json, name: Seq<char>) -> bool {
    match entry.spec_get("name"@) {
        Some(n) => n.spec_as_str() == Some(name),
        None => false,
    }
}

/// The first entry of `entries` named `name`.
pub open spec fn find_named(entries: Seq<Json>, name: Seq<char>) -> Option<Json>
    decreases entries.len(),
{
    if entries.len() == 0 {
        None
    } else if is_named(entries[0], name) {
        Some(entries[0])
    } else {
        find_named(entries.drop_first(), name)
    }
}

/// A required string node of the playlist settings.
pub open spec fn spec_setting_str(settings: Json, key: Seq<char>, node: Node) -> Result<Seq<char>, ConfigError> {
    match settings.spec_get(key) {
        None => Err(ConfigError::Missing(node)),
        Some(v) => match v.spec_as_str() {
            None => Err(ConfigError::NotString(node)),
            Some(s) => Ok(s),
        },
    }
}

/// An optional boolean node of the playlist settings: `false` unless it is `true`.
pub open spec fn spec_setting_flag(settings: Json, key: Seq<char>) -> bool {
    match settings.spec_get(key) {
        Some(v) => v.spec_as_bool() == Some(true),
        None => false,
    }
}

/// The delay of a playlist, in minutes.
pub open spec fn spec_setting_delay(settings: Json) -> Result<u64, ConfigError> {
    match settings.spec_get("delay"@) {
        None => Err(ConfigError::Missing(Node::Delay)),
        Some(v) => match v.spec_as_u64() {
            None => Err(ConfigError::NotU64(Node::Delay)),
            Some(d) => Ok(d),
        },
    }
}

/// `r` with `id` put in front of its ids, when it holds ids.
pub open spec fn prepend_ok(id: Seq<Seq<char>>, r: Result<Seq<Seq<char>>, ConfigError>) -> Result<Seq<Seq<char>>, ConfigError> {
    match r {
        Ok(rest) => Ok(id + rest),
        Err(e) => Err(e),
    }
}

/// The wallpaper ids of a playlist's items: each item is the path of a
/// wallpaper file, and its id is the name of the directory that holds it.
/// Empty paths are passed over; the first bad item decides the error.
pub open spec fn spec_wallpaper_files(items: Seq<Json>) -> Result<Seq<Seq<char>>, ConfigError>
    decreases items.len(),
{
    if items.len() == 0 {
        Ok(Seq::empty())
    } else {
        match items[0].spec_as_str() {
            None => Err(ConfigError::ItemNotString),
            Some(path) => if path.len() == 0 {
                spec_wallpaper_files(items.drop_first())
            } else {
                match last_directory_name(path) {
                    None => Err(ConfigError::NoWallpaperId),
                    Some(id) => prepend_ok(seq![id], spec_wallpaper_files(items.drop_first())),
                }
            },
        }
    }
}

/// The playlist named `name`, with its wallpaper ids in the order of its items.
pub open spec fn spec_read_playlist(source: Json, name: Seq<char>) -> Result<PlaylistView, ConfigError> {
    match spec_general_array(source, "playlists"@, Node::Playlists) {
        Err(e) => Err(e),
        Ok(playlists) => match find_named(playlists, name) {
            None => Err(ConfigError::NoSuchPlaylist),
            Some(playlist) => match required(playlist.spec_get("settings"@), ConfigError::Missing(Node::Settings)) {
                Err(e) => Err(e),
                Ok(settings) => match spec_setting_str(settings, "order"@, Node::Order) {
                    Err(e) => Err(e),
                    Ok(order) => match spec_setting_delay(settings) {
                        Err(e) => Err(e),
                        Ok(delay) => match spec_setting_str(settings, "mode"@, Node::Mode) {
                            Err(e) => Err(e),
                            Ok(mode) => match spec_playlist_items(playlist) {
                                Err(e) => Err(e),
                                Ok(ids) => Ok(PlaylistView {
                                    wallpaper_ids: ids,
                                    mode,
                                    order,
                                    delay,
                                    videosequence: spec_setting_flag(settings, "videosequence"@),
                                    beginfirst: spec_setting_flag(settings, "beginfirst"@),
                                }),
                            },
                        },
                    },
                },
            },
        },
    }
}

/// The wallpaper ids of a playlist entry.
pub open spec fn spec_playlist_items(playlist: Json) -> Result<Seq<Seq<char>>, ConfigError> {
    match playlist.spec_get("items"@) {
        None => Err(ConfigError::Missing(Node::Items)),
        Some(items) => match items.spec_as_array() {
            None => Err(ConfigError::NotArray(Node::Items)),
            Some(v) => spec_wallpaper_files(v),
        },
    }
}

/// `ids` turned so that it starts at the first `current`, the ids before it moved
/// to the end; `ids` as it is when `current` is not in it.
pub open spec fn rotate_to(ids: Seq<Seq<char>>, current: Seq<char>) -> Seq<Seq<char>> {
    match first_index(ids, current) {
        Some(k) => ids.skip(k as int) + ids.take(k as int),
        None => ids,
    }
}

/// The order in which a playlist is played: from the current wallpaper on,
/// unless the playlist begins with its first wallpaper or none is current.
pub open spec fn arrange(ids: Seq<Seq<char>>, current: Option<Seq<char>>, beginfirst: bool) -> Seq<Seq<char>> {
    if beginfirst {
        ids
    } else {
        match current {
            Some(c) => rotate_to(ids, c),
            None => ids,
        }
    }
}

/// The folder that a folder entry of the configuration describes: its title
/// (`unknown` when it has none) and the keys of its items (none when it has none).
pub open spec fn folder_of(entry: Json) -> FolderView {
    FolderView {
        title: match entry.spec_get("title"@) {
            Some(t) => match t.spec_as_str() {
                Some(s) => s,
                None => "unknown"@,
            },
            None => "unknown"@,
        },
        items: match entry.spec_get("items"@) {
            Some(i) => match i.spec_keys() {
                Some(k) => k,
                None => Seq::empty(),
            },
            None => Seq::empty(),
        },
    }
}

/// The first folder titled `title`.
pub open spec fn find_folder(folders: Seq<FolderView>, title: Seq<char>) -> Option<FolderView>
    decreases folders.len(),
{
    if folders.len() == 0 {
        None
    } else if folders[0].title == title {
        Some(folders[0])
    } else {
        find_folder(folders.drop_first(), title)
    }
}

/// The wallpaper id that the profile named `name` shows on its first monitor.
pub open spec fn spec_profile_wallpaper(source: Json, name: Seq<char>) -> Result<Seq<char>, ConfigError> {
    match spec_general_array(source, "profiles"@, Node::Profiles) {
        Err(e) => Err(e),
        Ok(profiles) => match find_named(profiles, name) {
            None => Err(ConfigError::NoSuchProfile),
            Some(profile) => match required(
                profile.spec_get("selectedwallpapers"@),
                ConfigError::Missing(Node::SelectedWallpapers),
            ) {
                Err(e) => Err(e),
                Ok(selected) => match required(selected.spec_get("Monitor0"@), ConfigError::Missing(Node::Monitor0)) {
                    Err(e) => Err(e),
                    Ok(monitor) => match spec_setting_str(monitor, "file"@, Node::File) {
                        Err(e) => Err(e),
                        Ok(file) => match last_directory_name(file) {
                            None => Err(ConfigError::NoDirName),
                            Some(id) => Ok(id),
                        },
                    },
                },
            },
        },
    }
}

/// A required node.
fn require_node<'a>(value: Option<&'a Json>, err: ConfigError) -> (r: Result<&'a Json, ConfigError>)
    ensures
        r matches Ok(v) ==> value == Some(v),
        r matches Err(e) ==> value is None && e == err,
{
    match value {
        Some(v) => Ok(v),
        None => Err(err),
    }
}

fn general(source: &Json) -> (r: Result<&Json, ConfigError>)
    ensures
        r matches Ok(g) ==> spec_general(*source) == Ok::<Json, ConfigError>(*g),
        r matches Err(e) ==> spec_general(*source) == Err::<Json, ConfigError>(e),
{
    let user = require_node(source.get("steamuser"), ConfigError::Missing(Node::Steamuser))?;
    require_node(user.get("general"), ConfigError::Missing(Node::General))
}

fn general_array<'a>(source: &'a Json, key: &str, node: Node) -> (r: Result<&'a Vec<Json>, ConfigError>)
    ensures
        r matches Ok(v) ==> spec_general_array(*source, key@, node) == Ok::<Seq<Json>, ConfigError>(v@),
        r matches Err(e) ==> spec_general_array(*source, key@, node) == Err::<Seq<Json>, ConfigError>(e),
{
    let g = general(source)?;
    let a = require_node(g.get(key), ConfigError::Missing(node))?;
    match a.as_array() {
        Some(v) => Ok(v),
        None => Err(ConfigError::NotArray(node)),
    }
}

/// The folders array of the browser, `steamuser.general.browser.folders`.
pub fn folders_array(source: &Json) -> (r: Result<&Vec<Json>, ConfigError>)
    ensures
        r matches Ok(v) ==> spec_folders_array(*source) == Ok::<Seq<Json>, ConfigError>(v@),
        r matches Err(e) ==> spec_folders_array(*source) == Err::<Seq<Json>, ConfigError>(e),
{
    let g = general(source)?;
    let browser = require_node(g.get("browser"), ConfigError::Missing(Node::Browser))?;
    let a = require_node(browser.get("folders"), ConfigError::Missing(Node::Folders))?;
    match a.as_array() {
        Some(v) => Ok(v),
        None => Err(ConfigError::NotArray(Node::Folders)),
    }
}

fn entry_is_named(entry: &Json, name: &str) -> (r: bool)
    ensures
        r == is_named(*entry, name@),
{
    match entry.get("name") {
        Some(n) => match n.as_str() {
            Some(s) => str_eq(s.as_str(), name),
            None => false,
        },
        None => false,
    }
}

fn find_entry<'a>(entries: &'a Vec<Json>, name: &str) -> (r: Option<&'a Json>)
    ensures
        r matches Some(e) ==> find_named(entries@, name@) == Some(*e),
        r is None ==> find_named(entries@, name@) is None,
{
    let mut i: usize = 0;
    assert(entries@.skip(0) =~= entries@);
    while i < entries.len()
        invariant
            i <= entries.len(),
            find_named(entries@, name@) == find_named(entries@.skip(i as int), name@),
        decreases entries.len() - i,
    {
        assert(entries@.skip(i as int).drop_first() =~= entries@.skip(i + 1));
        assert(entries@.skip(i as int)[0] == entries@[i as int]);
        if entry_is_named(&entries[i], name) {
            return Some(&entries[i]);
        }
        i = i + 1;
    }
    None
}

fn setting_str(settings: &Json, key: &str, node: Node) -> (r: Result<String, ConfigError>)
    ensures
        r matches Ok(s) ==> spec_setting_str(*settings, key@, node) == Ok::<Seq<char>, ConfigError>(s@),
        r matches Err(e) ==> spec_setting_str(*settings, key@, node) == Err::<Seq<char>, ConfigError>(e),
{
    let v = require_node(settings.get(key), ConfigError::Missing(node))?;
    match v.as_str() {
        Some(s) => Ok(s.clone()),
        None => Err(ConfigError::NotString(node)),
    }
}

fn setting_flag(settings: &Json, key: &str) -> (r: bool)
    ensures
        r == spec_setting_flag(*settings, key@),
{
    match settings.get(key) {
        Some(v) => match v.as_bool() {
            Some(b) => b,
            None => false,
        },
        None => false,
    }
}

fn setting_delay(settings: &Json) -> (r: Result<u64, ConfigError>)
    ensures
        r == spec_setting_delay(*settings),
{
    let v = require_node(settings.get("delay"), ConfigError::Missing(Node::Delay))?;
    match v.as_u64() {
        Some(d) => Ok(d),
        None => Err(ConfigError::NotU64(Node::Delay)),
    }
}

fn wallpaper_files(items: &Vec<Json>) -> (r: Result<Vec<String>, ConfigError>)
    ensures
        r matches Ok(ids) ==> spec_wallpaper_files(items@) == Ok::<Seq<Seq<char>>, ConfigError>(views(ids@)),
        r matches Err(e) ==> spec_wallpaper_files(items@) == Err::<Seq<Seq<char>>, ConfigError>(e),
{
    let mut ids: Vec<String> = Vec::new();
    let mut i: usize = 0;
    assert(items@.skip(0) =~= items@);
    assert(Seq::<Seq<char>>::empty() + Seq::<Seq<char>>::empty() =~= Seq::<Seq<char>>::empty());
    while i < items.len()
        invariant
            i <= items.len(),
            spec_wallpaper_files(items@) == prepend_ok(views(ids@), spec_wallpaper_files(items@.skip(i as int))),
        decreases items.len() - i,
    {
        let ghost rest = items@.skip(i as int);
        assert(rest.drop_first() =~= items@.skip(i + 1));
        assert(rest[0] == items@[i as int]);
        match items[i].as_str() {
            None => {
                return Err(ConfigError::ItemNotString);
            },
            Some(path) => {
                if path.as_str().unicode_len() != 0 {
                    match extract_last_directory_name(path.as_str()) {
                        None => {
                            return Err(ConfigError::NoWallpaperId);
                        },
                        Some(id) => {
                            let ghost before = views(ids@);
                            ids.push(id);
                            proof {
                                assert(views(ids@) =~= before + seq![id@]);
                                match spec_wallpaper_files(items@.skip(i + 1)) {
                                    Ok(tail) => {
                                        assert(before + (seq![id@] + tail) =~= (before + seq![id@]) + tail);
                                    },
                                    Err(_) => {},
                                }
                            }
                        },
                    }
                }
            },
        }
        i = i + 1;
    }
    proof {
        assert(items@.skip(items.len() as int) =~= Seq::<Json>::empty());
        assert(views(ids@) + Seq::<Seq<char>>::empty() =~= views(ids@));
    }
    Ok(ids)
}

fn playlist_items(playlist: &Json) -> (r: Result<Vec<String>, ConfigError>)
    ensures
        r matches Ok(ids) ==> spec_playlist_items(*playlist) == Ok::<Seq<Seq<char>>, ConfigError>(views(ids@)),
        r matches Err(e) ==> spec_playlist_items(*playlist) == Err::<Seq<Seq<char>>, ConfigError>(e),
{
    let items = require_node(playlist.get("items"), ConfigError::Missing(Node::Items))?;
    match items.as_array() {
        Some(v) => wallpaper_files(v),
        None => Err(ConfigError::NotArray(Node::Items)),
    }
}

/// `rand`'s `SliceRandom::shuffle` with the thread's generator: puts the ids in a
/// random order. Which order comes out depends on chance; it is a permutation
/// (the crate swaps elements only).
#[verifier::external_body]
fn shuffle_ids(ids: &mut Vec<String>)
    ensures
        views(final(ids)@).to_multiset() == views(old(ids)@).to_multiset(),
{
    let mut rng = rand::thread_rng();
    ids.shuffle(&mut rng);
}

/// The ids from the first `current` on, followed by the ids before it; the ids
/// as they are when `current` is not among them.
pub fn start_from_current(ids: Vec<String>, current: &str) -> (r: Vec<String>)
    ensures
        views(r@) == rotate_to(views(ids@), current@),
        r@.len() == ids@.len(),
        forall|k: int, j: int|
            #![trigger ids@[k], r@[j]]
            0 <= k < ids@.len() && ids@[k]@ == current@ && (forall|i: int| 0 <= i < k ==> ids@[i]@ != current@) && 0
                <= j < ids@.len() ==> r@[j]@ == ids@[(k + j) % (ids@.len() as int)]@,
{
    let mut k: usize = 0;
    let mut found = false;
    while k < ids.len() && !found
        invariant
            k <= ids.len(),
            found ==> k < ids.len() && ids@[k as int]@ == current@,
            forall|j: int| 0 <= j < k ==> ids@[j]@ != current@,
        decreases ids.len() - k, (if found { 0int } else { 1int }),
    {
        if str_eq(ids[k].as_str(), current) {
            found = true;
        } else {
            k = k + 1;
        }
    }
    proof {
        crate::text::lemma_first_index(views(ids@), current@);
    }
    if !found {
        proof {
            assert(!views(ids@).contains(current@)) by {
                if views(ids@).contains(current@) {
                    let j = choose|j: int| 0 <= j < views(ids@).len() && views(ids@)[j] == current@;
                    assert(ids@[j]@ == current@);
                }
            }
            lemma_rotate_to(views(ids@), current@);
            lemma_turned_ids(ids@, current@, ids@);
        }
        return ids;
    }
    let mut r: Vec<String> = Vec::new();
    let mut i: usize = k;
    while i < ids.len()
        invariant
            k <= i <= ids.len(),
            views(r@) =~= views(ids@).subrange(k as int, i as int),
        decreases ids.len() - i,
    {
        let ghost before = views(r@);
        r.push(ids[i].clone());
        proof {
            assert(views(r@) =~= before.push(ids@[i as int]@));
            assert(views(ids@).subrange(k as int, i + 1) =~= views(ids@).subrange(k as int, i as int).push(ids@[i as int]@));
        }
        i = i + 1;
    }
    let mut i: usize = 0;
    while i < k
        invariant
            k < ids.len(),
            i <= k,
            views(r@) =~= views(ids@).subrange(k as int, ids.len() as int) + views(ids@).subrange(0, i as int),
        decreases k - i,
    {
        let ghost before = views(r@);
        r.push(ids[i].clone());
        proof {
            assert(views(r@) =~= before.push(ids@[i as int]@));
            assert(views(ids@).subrange(0, i + 1) =~= views(ids@).subrange(0, i as int).push(ids@[i as int]@));
        }
        i = i + 1;
    }
    proof {
        let f = first_index(views(ids@), current@);
        if f is Some {
            let m = f->0;
            assert(m == k) by {
                if m < k {
                    assert(ids@[m as int]@ == current@);
                } else if m > k {
                    assert(views(ids@)[k as int] == current@);
                }
            }
        } else {
            assert(views(ids@)[k as int] == current@);
        }
        lemma_turned_ids(ids@, current@, r@);
    }
    r
}

proof fn lemma_turned_ids(ids: Seq<String>, current: Seq<char>, r: Seq<String>)
    requires
        views(r) == rotate_to(views(ids), current),
    ensures
        r.len() == ids.len(),
        forall|k: int, j: int|
            #![trigger ids[k], r[j]]
            0 <= k < ids.len() && ids[k]@ == current && (forall|i: int| 0 <= i < k ==> ids[i]@ != current) && 0 <= j
                < ids.len() ==> r[j]@ == ids[(k + j) % (ids.len() as int)]@,
{
    lemma_rotate_to(views(ids), current);
    crate::text::lemma_first_index(views(ids), current);
    assert(r.len() == ids.len()) by {
        assert(views(r).len() == r.len());
        assert(views(ids).len() == ids.len());
        assert(rotate_to(views(ids), current).len() == views(ids).len()) by {
            if let Some(k) = first_index(views(ids), current) {
                assert(views(ids).skip(k as int).len() + views(ids).take(k as int).len() == views(ids).len());
            }
        }
    }
    assert forall|k: int, j: int|
        #![trigger ids[k], r[j]]
        0 <= k < ids.len() && ids[k]@ == current && (forall|i: int| 0 <= i < k ==> ids[i]@ != current) && 0 <= j
            < ids.len() implies r[j]@ == ids[(k + j) % (ids.len() as int)]@ by {
        assert forall|i: int| 0 <= i < k implies views(ids)[i] != current by {
            assert(ids[i]@ != current);
        }
        lemma_rotate_to_turns(views(ids), current, k);
        assert(views(r)[j] == r[j]@);
        let m = (k + j) % (ids.len() as int);
        assert(0 <= m < ids.len());
        assert(views(ids)[m] == ids[m]@);
    }
}


fn folder_from(entry: &Json) -> (r: Folder)
    ensures
        r@ == folder_of(*entry),
{
    let title = match entry.get("title") {
        Some(t) => match t.as_str() {
            Some(s) => s.clone(),
            None => "unknown".to_owned(),
        },
        None => "unknown".to_owned(),
    };
    let items = match entry.get("items") {
        Some(i) => match i.keys() {
            Some(k) => k,
            None => Vec::new(),
        },
        None => Vec::new(),
    };
    proof {
        assert(views(Seq::<String>::empty()) =~= Seq::<Seq<char>>::empty());
    }
    Folder { items, title }
}

/// `rand`'s `SliceRandom::choose` with the thread's generator: one of the ids,
/// chosen by chance; `None` only for no ids. Which one comes out is not stated.
#[verifier::external_body]
fn choose_id(ids: &Vec<String>) -> (r: Option<&String>)
    ensures
        r is None <==> ids@.len() == 0,
        r matches Some(id) ==> ids@.contains(*id),
{
    let mut rng = rand::thread_rng();
    ids.choose(&mut rng)
}

/// A wallpaper of the folder, chosen by chance; `None` when the folder is empty.
pub fn pick_random_wallpaper(folder: &Folder) -> (r: Option<String>)
    ensures
        r is None <==> folder.items@.len() == 0,
        r matches Some(id) ==> views(folder.items@).contains(id@),
{
    match choose_id(&folder.items) {
        Some(id) => {
            proof {
                let j = choose|j: int| 0 <= j < folder.items@.len() && folder.items@[j] == *id;
                assert(views(folder.items@)[j] == id@);
            }
            Some(id.clone())
        },
        None => None,
    }
}

/// The text of an optional id.
pub open spec fn current_view(id: &Option<String>) -> Option<Seq<char>> {
    match id {
        Some(c) => Some(c@),
        None => None,
    }
}

/// Turning a list to start at one of its ids keeps its ids, and puts that id first.
pub proof fn lemma_rotate_to(ids: Seq<Seq<char>>, current: Seq<char>)
    ensures
        rotate_to(ids, current).to_multiset() == ids.to_multiset(),
        ids.contains(current) ==> rotate_to(ids, current).len() > 0 && rotate_to(ids, current)[0] == current,
        !ids.contains(current) ==> rotate_to(ids, current) == ids,
{
    crate::text::lemma_first_index(ids, current);
    if let Some(k) = first_index(ids, current) {
        let k = k as int;
        assert(ids.take(k) + ids.skip(k) =~= ids);
        vstd::seq_lib::lemma_multiset_commutative(ids.skip(k), ids.take(k));
        vstd::seq_lib::lemma_multiset_commutative(ids.take(k), ids.skip(k));
        assert(ids.skip(k).to_multiset().add(ids.take(k).to_multiset()) =~= ids.take(k).to_multiset().add(
            ids.skip(k).to_multiset(),
        ));
        assert((ids.skip(k) + ids.take(k))[0] == ids[k]);
    }
}

/// Starting from the current wallpaper turns the list: when `current` first
/// comes at position `k`, the result holds every id, and its `j`-th id is the id
/// `j` places after `k`, going round to the start after the end.
pub proof fn lemma_rotate_to_turns(ids: Seq<Seq<char>>, current: Seq<char>, k: int)
    requires
        0 <= k < ids.len(),
        ids[k] == current,
        forall|j: int| 0 <= j < k ==> ids[j] != current,
    ensures
        rotate_to(ids, current).len() == ids.len(),
        forall|j: int| 0 <= j < ids.len() ==> #[trigger] rotate_to(ids, current)[j] == ids[(k + j) % (ids.len() as int)],
{
    crate::text::lemma_first_index(ids, current);
    let f = first_index(ids, current);
    assert(f == Some(k as nat)) by {
        if f is None {
            assert(ids.contains(current));
        } else {
            let m = f->0 as int;
            if m < k {
                assert(ids[m] == current);
            } else if m > k {
                assert(ids[k] == current);
            }
        }
    }
    let n = ids.len() as int;
    let r = rotate_to(ids, current);
    assert(r == ids.skip(k) + ids.take(k));
    assert forall|j: int| 0 <= j < n implies #[trigger] r[j] == ids[(k + j) % n] by {
        if j < n - k {
            assert((k + j) % n == k + j) by {
                vstd::arithmetic::div_mod::lemma_small_mod((k + j) as nat, n as nat);
            }
            assert(r[j] == ids.skip(k)[j]);
        } else {
            assert((k + j) % n == k + j - n) by {
                vstd::arithmetic::div_mod::lemma_small_mod((k + j - n) as nat, n as nat);
                vstd::arithmetic::div_mod::lemma_mod_sub_multiples_vanish(k + j - n + n, n);
            }
            assert(r[j] == ids.take(k)[j - (n - k)]);
        }
    }
}

/// A folder found by its title has exactly that title and is the first entry
/// with it; none is found only when no entry has that title.
pub proof fn lemma_find_folder(folders: Seq<FolderView>, title: Seq<char>)
    ensures
        find_folder(folders, title) matches Some(f) ==> f.title == title && exists|k: int|
            0 <= k < folders.len() && #[trigger] folders[k] == f && forall|j: int|
                0 <= j < k ==> (#[trigger] folders[j]).title != title,
        find_folder(folders, title) is None ==> forall|j: int| 0 <= j < folders.len() ==> (#[trigger] folders[j]).title
            != title,
    decreases folders.len(),
{
    if folders.len() > 0 {
        let rest = folders.drop_first();
        lemma_find_folder(rest, title);
        if folders[0].title != title {
            if let Some(f) = find_folder(rest, title) {
                let k = choose|k: int|
                    0 <= k < rest.len() && #[trigger] rest[k] == f && forall|j: int|
                        0 <= j < k ==> (#[trigger] rest[j]).title != title;
                assert(folders[k + 1] == f);
                assert forall|j: int| 0 <= j < k + 1 implies (#[trigger] folders[j]).title != title by {
                    if j > 0 {
                        assert(folders[j] == rest[j - 1]);
                    }
                }
            } else {
                assert forall|j: int| 0 <= j < folders.len() implies (#[trigger] folders[j]).title != title by {
                    if j > 0 {
                        assert(folders[j] == rest[j - 1]);
                    }
                }
            }
        } else {
            assert(folders[0] == find_folder(folders, title)->0);
        }
    }
}

impl WallpaperEngineConfig {
    /// The configuration read from `source`, with no profile loaded.
    pub fn from_source(source: Json) -> (r: Self)
        ensures
            r.source == source,
            r.profile is None,
    {
        WallpaperEngineConfig { source, profile: None }
    }

    /// The playlist named `name`, its ids in the order of its items.
    pub fn read_playlist(&self, playlist_name: &str) -> (r: Result<Playlist, ConfigError>)
        ensures
            r matches Ok(p) ==> spec_read_playlist(self.source, playlist_name@) == Ok::<PlaylistView, ConfigError>(p@),
            r matches Err(e) ==> spec_read_playlist(self.source, playlist_name@) == Err::<PlaylistView, ConfigError>(e),
    {
        let playlists = general_array(&self.source, "playlists", Node::Playlists)?;
        let playlist = match find_entry(playlists, playlist_name) {
            Some(p) => p,
            None => {
                return Err(ConfigError::NoSuchPlaylist);
            },
        };
        let settings = require_node(playlist.get("settings"), ConfigError::Missing(Node::Settings))?;
        let order = setting_str(settings, "order", Node::Order)?;
        let delay = setting_delay(settings)?;
        let mode = setting_str(settings, "mode", Node::Mode)?;
        let videosequence = setting_flag(settings, "videosequence");
        let beginfirst = setting_flag(settings, "beginfirst");
        let wallpaper_ids = playlist_items(playlist)?;
        Ok(Playlist { wallpaper_ids, mode, order, delay, videosequence, beginfirst })
    }

    /// The playlist named `playlist_name`, in the order in which it is played:
    /// shuffled when its order is `random`, and then, unless it begins with its
    /// first wallpaper, turned to start at the current wallpaper.
    pub fn load_playlist(&self, playlist_name: &str, current_wallpaper_id: &Option<String>) -> (r: Result<
        Playlist,
        ConfigError,
    >)
        ensures
            r is Ok <==> spec_read_playlist(self.source, playlist_name@) is Ok,
            r matches Err(e) ==> spec_read_playlist(self.source, playlist_name@) == Err::<PlaylistView, ConfigError>(e),
            r matches Ok(p) ==> {
                let spec = spec_read_playlist(self.source, playlist_name@)->Ok_0;
                let current = current_view(current_wallpaper_id);
                &&& p@.mode == spec.mode
                &&& p@.order == spec.order
                &&& p@.delay == spec.delay
                &&& p@.videosequence == spec.videosequence
                &&& p@.beginfirst == spec.beginfirst
                &&& p@.wallpaper_ids.to_multiset() == spec.wallpaper_ids.to_multiset()
                &&& exists|order: Seq<Seq<char>>|
                    #![trigger arrange(order, current, spec.beginfirst)]
                    order.to_multiset() == spec.wallpaper_ids.to_multiset() && p@.wallpaper_ids == arrange(
                        order,
                        current,
                        spec.beginfirst,
                    )
                &&& spec.order != "random"@ ==> p@.wallpaper_ids == arrange(spec.wallpaper_ids, current, spec.beginfirst)
                &&& (!spec.beginfirst && current is Some && spec.wallpaper_ids.contains(current->0))
                    ==> p@.wallpaper_ids[0] == current->0
            },
    {
        let playlist = self.read_playlist(playlist_name)?;
        let Playlist { wallpaper_ids, mode, order, delay, videosequence, beginfirst } = playlist;
        let ghost spec_ids = views(wallpaper_ids@);
        let mut ids = wallpaper_ids;
        if str_eq(order.as_str(), "random") {
            shuffle_ids(&mut ids);
        }
        let ghost shuffled = views(ids@);
        proof {
            broadcast use vstd::seq_lib::group_to_multiset_ensures;
            assert forall|c: Seq<char>| spec_ids.contains(c) implies shuffled.contains(c) by {
                assert(spec_ids.to_multiset().count(c) > 0);
                assert(shuffled.to_multiset().count(c) > 0);
            }
        }
        if !beginfirst {
            if let Some(current) = current_wallpaper_id {
                ids = start_from_current(ids, current.as_str());
                proof {
                    lemma_rotate_to(shuffled, current@);
                }
            }
        }
        let r = Playlist { wallpaper_ids: ids, mode, order, delay, videosequence, beginfirst };
        assert(shuffled.to_multiset() == spec_ids.to_multiset());
        proof {
            let spec = spec_read_playlist(self.source, playlist_name@)->Ok_0;
            let current = current_view(current_wallpaper_id);
            assert(spec.wallpaper_ids == spec_ids);
            assert(views(r.wallpaper_ids@) == arrange(shuffled, current, spec.beginfirst));
            assert(exists|order: Seq<Seq<char>>|
                #![trigger arrange(order, current, spec.beginfirst)]
                order.to_multiset() == spec.wallpaper_ids.to_multiset() && views(r.wallpaper_ids@) == arrange(
                    order,
                    current,
                    spec.beginfirst,
                ));
        }
        Ok(r)
    }

    /// The folders of the browser, in their order in the configuration.
    pub fn get_folders(&self) -> (r: Result<Vec<Folder>, ConfigError>)
        ensures
            r is Ok <==> spec_folders_array(self.source) is Ok,
            r matches Err(e) ==> spec_folders_array(self.source) == Err::<Seq<Json>, ConfigError>(e),
            r matches Ok(folders) ==> {
                let entries = spec_folders_array(self.source)->Ok_0;
                &&& folders@.len() == entries.len()
                &&& forall|i: int| 0 <= i < entries.len() ==> #[trigger] folders@[i]@ == folder_of(entries[i])
            },
    {
        let entries = folders_array(&self.source)?;
        let mut folders: Vec<Folder> = Vec::new();
        let mut i: usize = 0;
        while i < entries.len()
            invariant
                i <= entries.len(),
                folders@.len() == i,
                forall|j: int| 0 <= j < i ==> #[trigger] folders@[j]@ == folder_of(entries@[j]),
            decreases entries.len() - i,
        {
            folders.push(folder_from(&entries[i]));
            i = i + 1;
        }
        Ok(folders)
    }

    /// The first folder titled `folder_name`.
    pub fn get_wallpaper_fodler(&self, folder_name: &str) -> (r: Result<Option<Folder>, ConfigError>)
        ensures
            r is Ok <==> spec_folders_array(self.source) is Ok,
            r matches Err(e) ==> spec_folders_array(self.source) == Err::<Seq<Json>, ConfigError>(e),
            r matches Ok(found) ==> {
                let folders = spec_folders_array(self.source)->Ok_0.map_values(|e: Json| folder_of(e));
                match found {
                    Some(f) => find_folder(folders, folder_name@) == Some(f@),
                    None => find_folder(folders, folder_name@) is None,
                }
            },
            r matches Ok(Some(f)) ==> f@.title == folder_name@,
            r matches Ok(None) ==> forall|j: int|
                0 <= j < spec_folders_array(self.source)->Ok_0.len() ==> folder_of(
                    #[trigger] spec_folders_array(self.source)->Ok_0[j],
                ).title != folder_name@,
    {
        proof {
            if spec_folders_array(self.source) is Ok {
                let entries = spec_folders_array(self.source)->Ok_0;
                let all = entries.map_values(|e: Json| folder_of(e));
                lemma_find_folder(all, folder_name@);
                assert forall|j: int| 0 <= j < entries.len() implies all[j] == folder_of(#[trigger] entries[j]) by {}
            }
        }
        let folders = self.get_folders()?;
        let ghost all = spec_folders_array(self.source)->Ok_0.map_values(|e: Json| folder_of(e));
        let ghost fviews = folders@.map_values(|f: Folder| f@);
        proof {
            assert(fviews =~= all);
            assert(fviews.skip(0) =~= fviews);
        }
        let mut i: usize = 0;
        while i < folders.len()
            invariant
                i <= folders.len(),
                fviews == folders@.map_values(|f: Folder| f@),
                spec_folders_array(self.source) is Ok,
                all == spec_folders_array(self.source)->Ok_0.map_values(|e: Json| folder_of(e)),
                fviews == all,
                find_folder(fviews, folder_name@) == find_folder(fviews.skip(i as int), folder_name@),
            decreases folders.len() - i,
        {
            assert(fviews.skip(i as int).drop_first() =~= fviews.skip(i + 1));
            assert(fviews.skip(i as int)[0] == folders@[i as int]@);
            if str_eq(folders[i].title.as_str(), folder_name) {
                return Ok(Some(folders[i].clone()));
            }
            i = i + 1;
        }
        Ok(None)
    }

    /// Reads the profile named `profile_name`: the wallpaper that it shows on
    /// its first monitor becomes the loaded profile.
    pub fn load_profile(&mut self, profile_name: &str) -> (r: Result<(), ConfigError>)
        ensures
            final(self).source == old(self).source,
            r is Ok <==> spec_profile_wallpaper(old(self).source, profile_name@) is Ok,
            r matches Err(e) ==> spec_profile_wallpaper(old(self).source, profile_name@) == Err::<Seq<char>, ConfigError>(e)
                && final(self).profile == old(self).profile,
            r is Ok ==> (final(self).profile matches Some(p)
                && p.wallpaper_id@ == spec_profile_wallpaper(old(self).source, profile_name@)->Ok_0),
    {
        let wallpaper_id = self.profile_wallpaper(profile_name)?;
        self.profile = Some(Profile { wallpaper_id });
        Ok(())
    }

    fn profile_wallpaper(&self, profile_name: &str) -> (r: Result<String, ConfigError>)
        ensures
            r matches Ok(id) ==> spec_profile_wallpaper(self.source, profile_name@) == Ok::<Seq<char>, ConfigError>(id@),
            r matches Err(e) ==> spec_profile_wallpaper(self.source, profile_name@) == Err::<Seq<char>, ConfigError>(e),
    {
        let profiles = general_array(&self.source, "profiles", Node::Profiles)?;
        let profile = match find_entry(profiles, profile_name) {
            Some(p) => p,
            None => {
                return Err(ConfigError::NoSuchProfile);
            },
        };
        let selected = require_node(profile.get("selectedwallpapers"), ConfigError::Missing(Node::SelectedWallpapers))?;
        let monitor = require_node(selected.get("Monitor0"), ConfigError::Missing(Node::Monitor0))?;
        let file = setting_str(monitor, "file", Node::File)?;
        match extract_last_directory_name(file.as_str()) {
            Some(id) => Ok(id),
            None => Err(ConfigError::NoDirName),
        }
    }
}

} // verus!
