use vstd::prelude::*;

use crate::engine_config::spec_folders_array;
use crate::error::ConfigError;
use crate::json::{field_value, Json, JsonNumber};
use crate::text::{concat, spec_to_lowercase, str_eq, to_lowercase, trim, trimmed, views};

verus! {

/// An answer to a question of `check`: `y`, `n`, or just Enter.
#[derive(Clone, Copy, Debug, PartialEq, Eq, Structural)]
pub enum Answer {
    Yes,
    No,
    Later,
}

/// The answer that a typed line gives, once lowercased and trimmed.
pub open spec fn answer_of(line: Seq<char>) -> Option<Answer> {
    if line == "y"@ {
        Some(Answer::Yes)
    } else if line == "n"@ {
        Some(Answer::No)
    } else if line.len() == 0 {
        Some(Answer::Later)
    } else {
        None
    }
}

/// The answer that a line gives once lowercased and trimmed: `y`, `n`, or
/// nothing; `None` for any other line.
pub fn answer_from_line(line: &str) -> (r: Option<Answer>)
    ensures
        r == answer_of(line@),
{
    if str_eq(line, "y") {
        Some(Answer::Yes)
    } else if str_eq(line, "n") {
        Some(Answer::No)
    } else if line.unicode_len() == 0 {
        Some(Answer::Later)
    } else {
        None
    }
}

/// The answer in a typed line: `y`, `n` or an empty line, in any case and with
/// any surrounding white space; `None` for anything else (the question is asked again).
pub fn parse_answer(input: &str) -> (r: Option<Answer>)
    ensures
        r == answer_of(trimmed(spec_to_lowercase(input@))),
{
    let lower = to_lowercase(input);
    let line = trim(lower.as_str());
    answer_from_line(line.as_str())
}

/// What `check` does with a wallpaper before it shows it.
#[derive(Clone, Copy, Debug, PartialEq, Eq, Structural)]
pub enum ItemStep {
    /// It goes to the skipped folder without a question.
    Skip,
    /// It goes to the picked folder without a question.
    Pick,
    /// It is shown, and the user is asked.
    Ask,
}

/// What `check` does with a wallpaper before it shows it: a wallpaper whose
/// directory is missing is skipped; one of a type to pick is picked; one of a
/// type to skip is skipped; any other is shown.
pub open spec fn spec_item_step(
    dir_exists: bool,
    wallpaper_type: Option<Seq<char>>,
    picked_types: Seq<Seq<char>>,
    skipped_types: Seq<Seq<char>>,
) -> ItemStep {
    if !dir_exists {
        ItemStep::Skip
    } else {
        match wallpaper_type {
            Some(t) => if picked_types.contains(t) {
                ItemStep::Pick
            } else if skipped_types.contains(t) {
                ItemStep::Skip
            } else {
                ItemStep::Ask
            },
            None => ItemStep::Ask,
        }
    }
}

fn contains_text(list: &Vec<String>, s: &str) -> (r: bool)
    ensures
        r == views(list@).contains(s@),
{
    let mut i: usize = 0;
    while i < list.len()
        invariant
            i <= list.len(),
            forall|j: int| 0 <= j < i ==> list@[j]@ != s@,
        decreases list.len() - i,
    {
        if str_eq(list[i].as_str(), s) {
            assert(views(list@)[i as int] == s@);
            return true;
        }
        i = i + 1;
    }
    proof {
        if views(list@).contains(s@) {
            let j = choose|j: int| 0 <= j < views(list@).len() && views(list@)[j] == s@;
            assert(list@[j]@ == s@);
        }
    }
    false
}

/// What `check` does with a wallpaper before it shows it.
pub fn item_step(
    dir_exists: bool,
    wallpaper_type: &Option<String>,
    picked_types: &Vec<String>,
    skipped_types: &Vec<String>,
) -> (r: ItemStep)
    ensures
        r == spec_item_step(
            dir_exists,
            match wallpaper_type {
                Some(t) => Some(t@),
                None => None,
            },
            views(picked_types@),
            views(skipped_types@),
        ),
        !dir_exists ==> r == ItemStep::Skip,
{
    if !dir_exists {
        return ItemStep::Skip;
    }
    match wallpaper_type {
        Some(t) => {
            if contains_text(picked_types, t.as_str()) {
                ItemStep::Pick
            } else if contains_text(skipped_types, t.as_str()) {
                ItemStep::Skip
            } else {
                ItemStep::Ask
            }
        },
        None => ItemStep::Ask,
    }
}

/// A wallpaper whose directory is missing is skipped, whatever its type and
/// whatever types are picked or skipped.
pub proof fn lemma_missing_directory_is_skipped(
    wallpaper_type: Option<Seq<char>>,
    picked_types: Seq<Seq<char>>,
    skipped_types: Seq<Seq<char>>,
)
    ensures
        spec_item_step(false, wallpaper_type, picked_types, skipped_types) == ItemStep::Skip,
{
}

/// A wallpaper that is there is picked exactly when its type is one to pick,
/// skipped exactly when its type is one to skip and not one to pick, and shown
/// otherwise (always when it has no type).
pub proof fn lemma_item_step_by_type(
    wallpaper_type: Option<Seq<char>>,
    picked_types: Seq<Seq<char>>,
    skipped_types: Seq<Seq<char>>,
)
    ensures
        spec_item_step(true, wallpaper_type, picked_types, skipped_types) == ItemStep::Pick <==> (
        wallpaper_type matches Some(t) && picked_types.contains(t)),
        spec_item_step(true, wallpaper_type, picked_types, skipped_types) == ItemStep::Skip <==> (
        wallpaper_type matches Some(t) && !picked_types.contains(t) && skipped_types.contains(t)),
        wallpaper_type is None ==> spec_item_step(true, wallpaper_type, picked_types, skipped_types)
            == ItemStep::Ask,
{
}

/// The wallpapers of a folder that `check` has sorted so far.
pub struct CheckTally {
    pub picked: Vec<String>,
    pub skipped: Vec<String>,
    pub remained: Vec<String>,
}

impl CheckTally {
    /// Nothing sorted yet.
    pub fn new() -> (r: CheckTally)
        ensures
            r.picked@.len() == 0,
            r.skipped@.len() == 0,
            r.remained@.len() == 0,
    {
        CheckTally { picked: Vec::new(), skipped: Vec::new(), remained: Vec::new() }
    }

    /// Puts `wallpaper_id` where `step` sends it before any question; a wallpaper
    /// to ask about is not placed.
    pub fn place(&mut self, wallpaper_id: &String, step: ItemStep)
        ensures
            step == ItemStep::Pick ==> final(self).picked@ == old(self).picked@.push(*wallpaper_id)
                && final(self).skipped@ == old(self).skipped@,
            step == ItemStep::Skip ==> final(self).skipped@ == old(self).skipped@.push(*wallpaper_id)
                && final(self).picked@ == old(self).picked@,
            step == ItemStep::Ask ==> final(self).picked@ == old(self).picked@ && final(self).skipped@ == old(
                self,
            ).skipped@,
            final(self).remained@ == old(self).remained@,
    {
        match step {
            ItemStep::Pick => self.picked.push(wallpaper_id.clone()),
            ItemStep::Skip => self.skipped.push(wallpaper_id.clone()),
            ItemStep::Ask => {},
        }
    }

    /// Puts `wallpaper_id` where the user's answer sends it: picked for `y`,
    /// skipped for `n`, left in its folder for Enter.
    pub fn answer(&mut self, wallpaper_id: &String, answer: Answer)
        ensures
            answer == Answer::Yes ==> final(self).picked@ == old(self).picked@.push(*wallpaper_id)
                && final(self).skipped@ == old(self).skipped@ && final(self).remained@ == old(self).remained@,
            answer == Answer::No ==> final(self).skipped@ == old(self).skipped@.push(*wallpaper_id)
                && final(self).picked@ == old(self).picked@ && final(self).remained@ == old(self).remained@,
            answer == Answer::Later ==> final(self).remained@ == old(self).remained@.push(*wallpaper_id)
                && final(self).picked@ == old(self).picked@ && final(self).skipped@ == old(self).skipped@,
    {
        match answer {
            Answer::Yes => self.picked.push(wallpaper_id.clone()),
            Answer::No => self.skipped.push(wallpaper_id.clone()),
            Answer::Later => self.remained.push(wallpaper_id.clone()),
        }
    }
}

/// Whether a folder entry of the configuration is titled `name`.
pub open spec fn titled(entry: Json, name: Seq<char>) -> bool {
    match entry.spec_get("title"@) {
        Some(t) => t.spec_as_str() == Some(name),
        None => false,
    }
}

/// The first folder entry titled `name`.
pub open spec fn find_titled(folders: Seq<Json>, name: Seq<char>) -> Option<Json>
    decreases folders.len(),
{
    if folders.len() == 0 {
        None
    } else if titled(folders[0], name) {
        Some(folders[0])
    } else {
        find_titled(folders.drop_first(), name)
    }
}

/// The wallpapers already in the folder titled `name`: none when there is no such
/// folder; an error when it has no object of items.
pub open spec fn spec_previous_items(folders: Seq<Json>, name: Seq<char>) -> Result<Seq<Seq<char>>, ConfigError> {
    match find_titled(folders, name) {
        None => Ok(Seq::empty()),
        Some(f) => match f.spec_get("items"@) {
            Some(items) => match items.spec_keys() {
                Some(keys) => Ok(keys),
                None => Err(ConfigError::FolderItemsNotObject),
            },
            None => Err(ConfigError::FolderItemsNotObject),
        },
    }
}

/// Whether `f` is the entry of a folder titled `name` holding the wallpapers `items`
/// (each item with the value 1, no subfolders).
pub open spec fn is_folder_entry(f: Json, name: Seq<char>, items: Seq<Seq<char>>) -> bool {
    &&& f.spec_keys() == Some(seq!["title"@, "subfolders"@, "items"@, "type"@])
    &&& f.spec_get("title"@) matches Some(t) && t.spec_as_str() == Some(name)
    &&& f.spec_get("subfolders"@) matches Some(s) && s.spec_as_array() == Some(Seq::<Json>::empty())
    &&& f.spec_get("type"@) matches Some(t) && t.spec_as_str() == Some("folder"@)
    &&& f.spec_get("items"@) matches Some(i) && is_item_map(i, items)
}

/// Whether `i` is an object whose keys are `items`, each with the value 1.
pub open spec fn is_item_map(i: Json, items: Seq<Seq<char>>) -> bool {
    &&& i.spec_keys() == Some(items)
    &&& i matches Json::Object(fields) && forall|j: int|
        0 <= j < fields@.len() ==> #[trigger] fields@[j].1 == Json::Number(JsonNumber::PosInt(1))
}

fn find_titled_entry<'a>(folders: &'a Vec<Json>, name: &str) -> (r: Option<&'a Json>)
    ensures
        r matches Some(f) ==> find_titled(folders@, name@) == Some(*f),
        r is None ==> find_titled(folders@, name@) is None,
{
    let mut i: usize = 0;
    assert(folders@.skip(0) =~= folders@);
    while i < folders.len()
        invariant
            i <= folders.len(),
            find_titled(folders@, name@) == find_titled(folders@.skip(i as int), name@),
        decreases folders.len() - i,
    {
        assert(folders@.skip(i as int).drop_first() =~= folders@.skip(i + 1));
        assert(folders@.skip(i as int)[0] == folders@[i as int]);
        if is_titled(&folders[i], name) {
            return Some(&folders[i]);
        }
        i = i + 1;
    }
    None
}

fn is_titled(entry: &Json, name: &str) -> (r: bool)
    ensures
        r == titled(*entry, name@),
{
    match entry.get("title") {
        Some(t) => match t.as_str() {
            Some(s) => str_eq(s.as_str(), name),
            None => false,
        },
        None => false,
    }
}

/// The wallpapers already in the folder titled `title` + `suffix`: none when there
/// is no such folder; an error when its items are not an object.
pub fn previous_items(folders: &Vec<Json>, title: &str, suffix: &str) -> (r: Result<Vec<String>, ConfigError>)
    ensures
        r matches Ok(items) ==> spec_previous_items(folders@, title@ + suffix@) == Ok::<
            Seq<Seq<char>>,
            ConfigError,
        >(views(items@)),
        r matches Err(e) ==> spec_previous_items(folders@, title@ + suffix@) == Err::<Seq<Seq<char>>, ConfigError>(e),
{
    let name = concat(title, suffix);
    match find_titled_entry(folders, name.as_str()) {
        None => {
            assert(views(Seq::<String>::empty()) =~= Seq::<Seq<char>>::empty());
            Ok(Vec::new())
        },
        Some(f) => match f.get("items") {
            Some(items) => match items.keys() {
                Some(keys) => Ok(keys),
                None => Err(ConfigError::FolderItemsNotObject),
            },
            None => Err(ConfigError::FolderItemsNotObject),
        },
    }
}

/// `items` with `key` added at the end unless it is there already (as a key
/// inserted into a map).
pub open spec fn with_key(items: Seq<Seq<char>>, key: Seq<char>) -> Seq<Seq<char>> {
    if items.contains(key) {
        items
    } else {
        items.push(key)
    }
}

/// `items` with each key of `keys` added in turn by `with_key`.
pub open spec fn with_keys(items: Seq<Seq<char>>, keys: Seq<Seq<char>>) -> Seq<Seq<char>>
    decreases keys.len(),
{
    if keys.len() == 0 {
        items
    } else {
        with_key(with_keys(items, keys.drop_last()), keys.last())
    }
}

/// The wallpapers of a rewritten folder: those it held, then the new ones,
/// each once, in the order in which they first come.
pub open spec fn new_items(previous: Seq<Seq<char>>, keys: Seq<Seq<char>>) -> Seq<Seq<char>> {
    with_keys(with_keys(Seq::empty(), previous), keys)
}

/// Adding keys keeps what was there and adds each key once: the result holds
/// exactly the items and the keys, and has no repeats where `items` had none.
pub proof fn lemma_with_keys(items: Seq<Seq<char>>, keys: Seq<Seq<char>>)
    ensures
        forall|x: Seq<char>| #[trigger] with_keys(items, keys).contains(x) <==> items.contains(x) || keys.contains(x),
        items.no_duplicates() ==> with_keys(items, keys).no_duplicates(),
        items.len() <= with_keys(items, keys).len(),
        with_keys(items, keys).subrange(0, items.len() as int) == items,
    decreases keys.len(),
{
    if keys.len() > 0 {
        let rest = keys.drop_last();
        let k = keys.last();
        lemma_with_keys(items, rest);
        let w = with_keys(items, rest);
        assert forall|x: Seq<char>| #[trigger] keys.contains(x) <==> rest.contains(x) || x == k by {
            if keys.contains(x) {
                let j = choose|j: int| 0 <= j < keys.len() && keys[j] == x;
                if j < rest.len() {
                    assert(rest[j] == x);
                }
            }
            if rest.contains(x) {
                let j = choose|j: int| 0 <= j < rest.len() && rest[j] == x;
                assert(keys[j] == x);
            }
            if x == k {
                assert(keys[keys.len() - 1] == x);
            }
        }
        if !w.contains(k) {
            assert forall|x: Seq<char>| #[trigger] w.push(k).contains(x) <==> w.contains(x) || x == k by {
                if w.push(k).contains(x) {
                    let j = choose|j: int| 0 <= j < w.push(k).len() && w.push(k)[j] == x;
                    if j < w.len() {
                        assert(w[j] == x);
                    }
                }
                if w.contains(x) {
                    let j = choose|j: int| 0 <= j < w.len() && w[j] == x;
                    assert(w.push(k)[j] == x);
                }
                if x == k {
                    assert(w.push(k)[w.len() as int] == x);
                }
            }
            assert(w.subrange(0, items.len() as int) == items);
            assert(w.push(k).subrange(0, items.len() as int) =~= w.subrange(0, items.len() as int));
            if items.no_duplicates() {
                assert forall|i: int, j: int|
                    0 <= i < w.push(k).len() && 0 <= j < w.push(k).len() && i != j implies w.push(k)[i] != w.push(
                    k,
                )[j] by {
                    if i == w.len() as int {
                        assert(w[j] == w.push(k)[j]);
                    } else if j == w.len() as int {
                        assert(w[i] == w.push(k)[i]);
                    }
                }
            }
        }
    }
}

/// A sequence without repeats, added to nothing, gives itself back.
pub proof fn lemma_with_keys_of_empty(keys: Seq<Seq<char>>)
    requires
        keys.no_duplicates(),
    ensures
        with_keys(Seq::empty(), keys) == keys,
    decreases keys.len(),
{
    if keys.len() > 0 {
        let rest = keys.drop_last();
        assert(rest.no_duplicates());
        lemma_with_keys_of_empty(rest);
        assert(!rest.contains(keys.last())) by {
            if rest.contains(keys.last()) {
                let j = choose|j: int| 0 <= j < rest.len() && rest[j] == keys.last();
                assert(keys[j] == keys[keys.len() - 1]);
            }
        }
        assert(rest.push(keys.last()) =~= keys);
    }
}

/// Adding keys that are all there already changes nothing.
pub proof fn lemma_with_keys_present(items: Seq<Seq<char>>, keys: Seq<Seq<char>>)
    requires
        forall|x: Seq<char>| #[trigger] keys.contains(x) ==> items.contains(x),
    ensures
        with_keys(items, keys) == items,
    decreases keys.len(),
{
    if keys.len() > 0 {
        let rest = keys.drop_last();
        assert forall|x: Seq<char>| #[trigger] rest.contains(x) implies items.contains(x) by {
            let j = choose|j: int| 0 <= j < rest.len() && rest[j] == x;
            assert(keys[j] == x);
            assert(keys.contains(x));
        }
        lemma_with_keys_present(items, rest);
        assert(keys[keys.len() - 1] == keys.last());
        assert(keys.contains(keys.last()));
    }
}

/// Adds `key` to `items` unless it is there.
fn add_unique(items: &mut Vec<String>, key: &String)
    ensures
        views(final(items)@) == with_key(views(old(items)@), key@),
{
    if !contains_text(items, key.as_str()) {
        let ghost before = views(items@);
        items.push(key.clone());
        assert(views(items@) =~= before.push(key@));
    }
}

/// Adds every key of `keys` to `items` that is not there yet, in order.
fn add_all_unique(items: &mut Vec<String>, keys: &Vec<String>)
    ensures
        views(final(items)@) == with_keys(views(old(items)@), views(keys@)),
{
    let mut i: usize = 0;
    assert(views(keys@.subrange(0, 0)) =~= Seq::<Seq<char>>::empty());
    while i < keys.len()
        invariant
            i <= keys.len(),
            views(items@) == with_keys(views(old(items)@), views(keys@.subrange(0, i as int))),
        decreases keys.len() - i,
    {
        add_unique(items, &keys[i]);
        proof {
            let t = views(keys@.subrange(0, i + 1));
            assert(t.drop_last() =~= views(keys@.subrange(0, i as int)));
            assert(t.last() == keys@[i as int]@);
        }
        i = i + 1;
    }
    assert(keys@.subrange(0, keys.len() as int) =~= keys@);
}

/// The items of a folder: each key with the value 1.
fn item_map(keys: &Vec<String>) -> (r: Json)
    ensures
        is_item_map(r, views(keys@)),
{
    let mut fields: Vec<(String, Json)> = Vec::new();
    let mut i: usize = 0;
    while i < keys.len()
        invariant
            i <= keys.len(),
            fields@.len() == i,
            fields@.map_values(|f: (String, Json)| f.0@) =~= views(keys@.subrange(0, i as int)),
            forall|j: int| 0 <= j < fields@.len() ==> #[trigger] fields@[j].1 == Json::Number(JsonNumber::PosInt(1)),
        decreases keys.len() - i,
    {
        let ghost before = fields@;
        fields.push((keys[i].clone(), Json::Number(JsonNumber::PosInt(1))));
        proof {
            assert(keys@.subrange(0, i + 1) =~= keys@.subrange(0, i as int).push(keys@[i as int]));
            assert(fields@ =~= before.push(fields@[i as int]));
            assert(fields@.map_values(|f: (String, Json)| f.0@) =~= before.map_values(|f: (String, Json)| f.0@).push(
                keys@[i as int]@,
            ));
        }
        i = i + 1;
    }
    assert(keys@.subrange(0, keys.len() as int) =~= keys@);
    Json::Object(fields)
}

proof fn lemma_folder_keys_distinct()
    ensures
        "title"@ != "subfolders"@,
        "title"@ != "items"@,
        "title"@ != "type"@,
        "subfolders"@ != "items"@,
        "subfolders"@ != "type"@,
        "items"@ != "type"@,
{
    reveal_strlit("title");
    reveal_strlit("subfolders");
    reveal_strlit("items");
    reveal_strlit("type");
    assert("title"@[0] != "subfolders"@[0]);
    assert("title"@[0] != "items"@[0]);
    assert("title"@[1] != "type"@[1]);
    assert("subfolders"@[0] != "items"@[0]);
    assert("subfolders"@[0] != "type"@[0]);
    assert("items"@[0] != "type"@[0]);
}

/// The entry of a folder titled `title` + `suffix` that holds `items`.
pub fn build_new_folder(title: &str, suffix: &str, items: &Vec<String>) -> (r: Json)
    ensures
        is_folder_entry(r, title@ + suffix@, views(items@)),
{
    let name = concat(title, suffix);
    let ghost name_view = name@;
    let mut fields: Vec<(String, Json)> = Vec::new();
    fields.push(("title".to_owned(), Json::Str(name)));
    fields.push(("subfolders".to_owned(), Json::Array(Vec::new())));
    fields.push(("items".to_owned(), item_map(items)));
    fields.push(("type".to_owned(), Json::Str("folder".to_owned())));
    proof {
        lemma_folder_keys_distinct();
        reveal_with_fuel(field_value, 5);
        let fs = fields@;
        assert(fs.map_values(|f: (String, Json)| f.0@) =~= seq!["title"@, "subfolders"@, "items"@, "type"@]);
        assert(fs.drop_first().drop_first().drop_first().drop_first() =~= Seq::<(String, Json)>::empty());
        assert(field_value(fs, "title"@) == Some(fs[0].1));
        assert(fs.drop_first()[0] == fs[1]);
        assert(field_value(fs, "subfolders"@) == Some(fs[1].1));
        assert(fs.drop_first().drop_first()[0] == fs[2]);
        assert(field_value(fs, "items"@) == Some(fs[2].1));
        assert(fs.drop_first().drop_first().drop_first()[0] == fs[3]);
        assert(field_value(fs, "type"@) == Some(fs[3].1));
        if let Json::Array(v) = fs[1].1 {
            assert(v@ =~= Seq::<Json>::empty());
        }
    }
    Json::Object(fields)
}

/// Whether `check` keeps a folder entry when it rewrites the folders of `title`:
/// it drops the entries titled `title`, `title_picked` and `title_skipped`.
pub open spec fn kept_entry(entry: Json, title: Seq<char>) -> bool {
    !titled(entry, title + "_picked"@) && !titled(entry, title + "_skipped"@) && !titled(entry, title)
}

/// The positions, in order, of the first `n` folder entries that are kept.
pub open spec fn kept_positions(folders: Seq<Json>, title: Seq<char>, n: nat) -> Seq<int>
    decreases n,
{
    if n == 0 {
        Seq::empty()
    } else {
        let before = kept_positions(folders, title, (n - 1) as nat);
        if kept_entry(folders[n - 1], title) {
            before.push(n - 1)
        } else {
            before
        }
    }
}

/// How `check` rewrites the folders of the configuration for one folder: the
/// positions of the entries it keeps, and the entries it appends.
pub struct FolderUpdate {
    pub kept: Vec<usize>,
    pub added: Vec<Json>,
}

/// Whether `kept` and `added` are how `check` rewrites `folders` for the folder
/// `title`: the positions of every entry not titled `title`, `title_picked` or
/// `title_skipped`; then `title_picked` holding what it held and the picked
/// wallpapers, `title_skipped` likewise with the skipped ones, and `title` holding
/// the remaining wallpapers.
pub open spec fn is_update(
    folders: Seq<Json>,
    title: Seq<char>,
    picked: Seq<Seq<char>>,
    skipped: Seq<Seq<char>>,
    remained: Seq<Seq<char>>,
    kept: Seq<int>,
    added: Seq<Json>,
) -> bool {
    &&& spec_previous_items(folders, title + "_picked"@) is Ok
    &&& spec_previous_items(folders, title + "_skipped"@) is Ok
    &&& kept == kept_positions(folders, title, folders.len())
    &&& added.len() == 3
    &&& is_folder_entry(
        added[0],
        title + "_picked"@,
        new_items(spec_previous_items(folders, title + "_picked"@)->Ok_0, picked),
    )
    &&& is_folder_entry(
        added[1],
        title + "_skipped"@,
        new_items(spec_previous_items(folders, title + "_skipped"@)->Ok_0, skipped),
    )
    &&& is_folder_entry(added[2], title, new_items(Seq::empty(), remained))
}

/// The folders array once a rewrite is applied: the kept entries in order, then
/// the added ones.
pub open spec fn updated_folders(folders: Seq<Json>, kept: Seq<int>, added: Seq<Json>) -> Seq<Json> {
    kept.map_values(|i: int| folders[i]) + added
}

/// How `check` rewrites the folders array of `config` once it sorted the folder
/// `title` (see `is_update`); an error when the array, or the items of an earlier
/// `title_picked` or `title_skipped` folder, cannot be read.
pub fn update_folders(
    config: &Json,
    title: &str,
    picked: &Vec<String>,
    skipped: &Vec<String>,
    remained: &Vec<String>,
) -> (r: Result<FolderUpdate, ConfigError>)
    ensures
        r matches Err(e) ==> spec_folders_array(*config) == Err::<Seq<Json>, ConfigError>(e) || (
        spec_folders_array(*config) is Ok && {
            let folders = spec_folders_array(*config)->Ok_0;
            ||| spec_previous_items(folders, title@ + "_picked"@) == Err::<Seq<Seq<char>>, ConfigError>(e)
            ||| (spec_previous_items(folders, title@ + "_picked"@) is Ok && spec_previous_items(
                folders,
                title@ + "_skipped"@,
            ) == Err::<Seq<Seq<char>>, ConfigError>(e))
        }),
        r is Ok <==> {
            &&& spec_folders_array(*config) is Ok
            &&& spec_previous_items(spec_folders_array(*config)->Ok_0, title@ + "_picked"@) is Ok
            &&& spec_previous_items(spec_folders_array(*config)->Ok_0, title@ + "_skipped"@) is Ok
        },
        r matches Ok(u) ==> is_update(
            spec_folders_array(*config)->Ok_0,
            title@,
            views(picked@),
            views(skipped@),
            views(remained@),
            u.kept@.map_values(|i: usize| i as int),
            u.added@,
        ),
{
    let folders = crate::engine_config::folders_array(config)?;
    let pre_picked = previous_items(folders, title, "_picked")?;
    let pre_skipped = previous_items(folders, title, "_skipped")?;

    let mut picked_items: Vec<String> = Vec::new();
    add_all_unique(&mut picked_items, &pre_picked);
    add_all_unique(&mut picked_items, picked);
    let mut skipped_items: Vec<String> = Vec::new();
    add_all_unique(&mut skipped_items, &pre_skipped);
    add_all_unique(&mut skipped_items, skipped);
    let mut remained_items: Vec<String> = Vec::new();
    add_all_unique(&mut remained_items, remained);
    assert(views(Seq::<String>::empty()) =~= Seq::<Seq<char>>::empty());

    let picked_title = concat(title, "_picked");
    let skipped_title = concat(title, "_skipped");
    let mut kept: Vec<usize> = Vec::new();
    let mut i: usize = 0;
    while i < folders.len()
        invariant
            i <= folders.len(),
            picked_title@ == title@ + "_picked"@,
            skipped_title@ == title@ + "_skipped"@,
            kept@.map_values(|k: usize| k as int) == kept_positions(folders@, title@, i as nat),
        decreases folders.len() - i,
    {
        let ghost before = kept@;
        if !is_titled(&folders[i], picked_title.as_str()) && !is_titled(&folders[i], skipped_title.as_str())
            && !is_titled(&folders[i], title) {
            kept.push(i);
            assert(kept@.map_values(|k: usize| k as int) =~= before.map_values(|k: usize| k as int).push(i as int));
        }
        i = i + 1;
    }

    let mut added: Vec<Json> = Vec::new();
    added.push(build_new_folder(title, "_picked", &picked_items));
    added.push(build_new_folder(title, "_skipped", &skipped_items));
    added.push(build_new_folder(title, "", &remained_items));
    proof {
        assert(title@ + ""@ =~= title@) by {
            reveal_strlit("");
        }
    }
    Ok(FolderUpdate { kept, added })
}


/// A folder entry is titled by its own name and no other.
proof fn lemma_folder_entry_titled(f: Json, name: Seq<char>, items: Seq<Seq<char>>, other: Seq<char>)
    requires
        is_folder_entry(f, name, items),
    ensures
        titled(f, other) <==> name == other,
{
}

/// The three titles that a rewrite replaces are distinct.
proof fn lemma_folder_titles_distinct(title: Seq<char>)
    ensures
        title + "_picked"@ != title + "_skipped"@,
        title != title + "_picked"@,
        title != title + "_skipped"@,
{
    reveal_strlit("_picked");
    reveal_strlit("_skipped");
    assert((title + "_picked"@).len() == title.len() + 7);
    assert((title + "_skipped"@).len() == title.len() + 8);
}

/// Every position that `kept_positions` lists is in range and holds a kept entry.
proof fn lemma_kept_positions_valid(folders: Seq<Json>, title: Seq<char>, n: nat)
    requires
        n <= folders.len(),
    ensures
        forall|j: int|
            0 <= j < kept_positions(folders, title, n).len() ==> 0 <= #[trigger] kept_positions(folders, title, n)[j]
                < n && kept_entry(folders[kept_positions(folders, title, n)[j]], title),
    decreases n,
{
    if n > 0 {
        lemma_kept_positions_valid(folders, title, (n - 1) as nat);
        let before = kept_positions(folders, title, (n - 1) as nat);
        if kept_entry(folders[n - 1], title) {
            assert forall|j: int| 0 <= j < before.push(n - 1).len() implies 0 <= #[trigger] before.push(n - 1)[j] < n
                && kept_entry(folders[before.push(n - 1)[j]], title) by {
                if j < before.len() {
                    assert(before.push(n - 1)[j] == before[j]);
                }
            }
        }
    }
}

/// Where the first `m` entries are kept and the others are not, the kept positions
/// among the first `n` are `0`, `1`, ... up to `n` or `m`.
proof fn lemma_kept_positions_prefix(folders: Seq<Json>, title: Seq<char>, n: nat, m: nat)
    requires
        n <= folders.len(),
        m <= folders.len(),
        forall|j: int| 0 <= j < m ==> kept_entry(#[trigger] folders[j], title),
        forall|j: int| m <= j < folders.len() ==> !kept_entry(#[trigger] folders[j], title),
    ensures
        kept_positions(folders, title, n) == Seq::new(if n <= m { n } else { m }, |i: int| i),
    decreases n,
{
    if n > 0 {
        lemma_kept_positions_prefix(folders, title, (n - 1) as nat, m);
        let before = kept_positions(folders, title, (n - 1) as nat);
        if n <= m {
            assert(kept_entry(folders[n - 1], title));
            assert(before.push(n - 1) =~= Seq::new(n, |i: int| i));
        } else {
            assert(!kept_entry(folders[n - 1], title));
        }
    }
}

/// Entries not titled `name` before the rest do not change which entry is found first.
proof fn lemma_find_titled_after(prefix: Seq<Json>, rest: Seq<Json>, name: Seq<char>)
    requires
        forall|j: int| 0 <= j < prefix.len() ==> !titled(#[trigger] prefix[j], name),
    ensures
        find_titled(prefix + rest, name) == find_titled(rest, name),
    decreases prefix.len(),
{
    if prefix.len() > 0 {
        assert((prefix + rest).drop_first() =~= prefix.drop_first() + rest);
        assert((prefix + rest)[0] == prefix[0]);
        assert forall|j: int| 0 <= j < prefix.drop_first().len() implies !titled(
            #[trigger] prefix.drop_first()[j],
            name,
        ) by {
            assert(prefix.drop_first()[j] == prefix[j + 1]);
        }
        lemma_find_titled_after(prefix.drop_first(), rest, name);
    } else {
        assert(prefix + rest =~= rest);
    }
}

/// Rewritten folders hold a folder of a title once: adding the keys of such a
/// folder to nothing, then the same keys again, gives that folder's keys.
proof fn lemma_new_items_again(previous: Seq<Seq<char>>, keys: Seq<Seq<char>>)
    ensures
        new_items(new_items(previous, keys), keys) == new_items(previous, keys),
{
    let first = with_keys(Seq::<Seq<char>>::empty(), previous);
    let once = new_items(previous, keys);
    lemma_with_keys(Seq::<Seq<char>>::empty(), previous);
    lemma_with_keys(first, keys);
    lemma_with_keys_of_empty(once);
    assert forall|x: Seq<char>| #[trigger] keys.contains(x) implies once.contains(x) by {
        assert(with_keys(first, keys).contains(x));
    }
    lemma_with_keys_present(once, keys);
}

/// After a rewrite, a second rewrite of the same folder can be made, and the
/// earlier wallpapers it reads are those the first one wrote.
pub proof fn lemma_update_folders_again(
    folders: Seq<Json>,
    title: Seq<char>,
    picked: Seq<Seq<char>>,
    skipped: Seq<Seq<char>>,
    remained: Seq<Seq<char>>,
    kept: Seq<int>,
    added: Seq<Json>,
)
    requires
        is_update(folders, title, picked, skipped, remained, kept, added),
    ensures
        spec_previous_items(updated_folders(folders, kept, added), title + "_picked"@) == Ok::<
            Seq<Seq<char>>,
            ConfigError,
        >(new_items(spec_previous_items(folders, title + "_picked"@)->Ok_0, picked)),
        spec_previous_items(updated_folders(folders, kept, added), title + "_skipped"@) == Ok::<
            Seq<Seq<char>>,
            ConfigError,
        >(new_items(spec_previous_items(folders, title + "_skipped"@)->Ok_0, skipped)),
{
    let t_picked = title + "_picked"@;
    let t_skipped = title + "_skipped"@;
    let p = new_items(spec_previous_items(folders, t_picked)->Ok_0, picked);
    let s = new_items(spec_previous_items(folders, t_skipped)->Ok_0, skipped);
    let prefix = kept.map_values(|i: int| folders[i]);
    lemma_kept_positions_valid(folders, title, folders.len());
    lemma_folder_titles_distinct(title);
    assert forall|j: int| 0 <= j < prefix.len() implies kept_entry(#[trigger] prefix[j], title) by {
        assert(prefix[j] == folders[kept[j]]);
    }
    lemma_find_titled_after(prefix, added, t_picked);
    lemma_find_titled_after(prefix, added, t_skipped);
    lemma_folder_entry_titled(added[0], t_picked, p, t_picked);
    lemma_folder_entry_titled(added[0], t_picked, p, t_skipped);
    lemma_folder_entry_titled(added[1], t_skipped, s, t_skipped);
    assert(added.drop_first()[0] == added[1]);
    assert(find_titled(added, t_picked) == Some(added[0]));
    assert(find_titled(added, t_skipped) == find_titled(added.drop_first(), t_skipped));
    assert(find_titled(added, t_skipped) == Some(added[1]));
}

/// Sorting a folder a second time with the same answers gives back the folders
/// that the first time gave: the second rewrite keeps every entry that the first
/// kept, in order, and appends the same three folders holding the same wallpapers.
pub proof fn lemma_update_folders_idempotent(
    folders: Seq<Json>,
    title: Seq<char>,
    picked: Seq<Seq<char>>,
    skipped: Seq<Seq<char>>,
    remained: Seq<Seq<char>>,
    kept: Seq<int>,
    added: Seq<Json>,
    kept2: Seq<int>,
    added2: Seq<Json>,
)
    requires
        is_update(folders, title, picked, skipped, remained, kept, added),
        is_update(updated_folders(folders, kept, added), title, picked, skipped, remained, kept2, added2),
    ensures
        kept2 == Seq::new(kept.len(), |i: int| i),
        updated_folders(updated_folders(folders, kept, added), kept2, added2) == kept.map_values(|i: int| folders[i])
            + added2,
        is_folder_entry(
            added2[0],
            title + "_picked"@,
            new_items(spec_previous_items(folders, title + "_picked"@)->Ok_0, picked),
        ),
        is_folder_entry(
            added2[1],
            title + "_skipped"@,
            new_items(spec_previous_items(folders, title + "_skipped"@)->Ok_0, skipped),
        ),
        is_folder_entry(added2[2], title, new_items(Seq::empty(), remained)),
{
    let t_picked = title + "_picked"@;
    let t_skipped = title + "_skipped"@;
    let prefix = kept.map_values(|i: int| folders[i]);
    let once = updated_folders(folders, kept, added);
    lemma_update_folders_again(folders, title, picked, skipped, remained, kept, added);
    lemma_new_items_again(spec_previous_items(folders, t_picked)->Ok_0, picked);
    lemma_new_items_again(spec_previous_items(folders, t_skipped)->Ok_0, skipped);

    lemma_kept_positions_valid(folders, title, folders.len());
    lemma_folder_titles_distinct(title);
    let p = new_items(spec_previous_items(folders, t_picked)->Ok_0, picked);
    let s = new_items(spec_previous_items(folders, t_skipped)->Ok_0, skipped);
    let r = new_items(Seq::empty(), remained);
    lemma_folder_entry_titled(added[0], t_picked, p, t_picked);
    lemma_folder_entry_titled(added[1], t_skipped, s, t_skipped);
    lemma_folder_entry_titled(added[2], title, r, title);
    assert forall|j: int| 0 <= j < prefix.len() implies kept_entry(#[trigger] once[j], title) by {
        assert(once[j] == prefix[j]);
        assert(prefix[j] == folders[kept[j]]);
    }
    assert forall|j: int| prefix.len() <= j < once.len() implies !kept_entry(#[trigger] once[j], title) by {
        assert(once[j] == added[j - prefix.len()]);
    }
    lemma_kept_positions_prefix(once, title, once.len(), prefix.len());
    assert(kept2.map_values(|i: int| once[i]) =~= prefix);
}

} // verus!
