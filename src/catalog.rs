//! Finding a title's save locations in the manifest and in the user's overrides.
use vstd::prelude::*;

use crate::models::{CustomGameEntry, LudusaviGame};
use crate::ordering::{names, sort_strings, sorted_names};
use crate::resolver::{join_chars, join_path, resolved, HostEnv, SteamService};
use crate::text::{chars_equal, chars_of, contains, contains_chars, decimal, decimal_chars, string_of};

verus! {

/// Index of the first manifest title, from `k` on, with catalog id `id`; -1 where none has.
pub open spec fn first_game_from(games: Seq<LudusaviGame>, id: u32, k: int) -> int
    decreases games.len() - k,
{
    if k < 0 || k >= games.len() {
        -1
    } else if games[k].steam matches Some(s) && s.id == id {
        k
    } else {
        first_game_from(games, id, k + 1)
    }
}

/// The save-location templates the manifest gives for title `id`, in ascending order: those
/// of the first entry with that id; none where no entry has it or the entry lists none.
pub open spec fn manifest_templates(games: Seq<LudusaviGame>, id: u32) -> Seq<Seq<char>> {
    let k = first_game_from(games, id, 0);
    if 0 <= k < games.len() {
        match games[k].files {
            Some(f) => sorted_names(names(f@)),
            None => seq![],
        }
    } else {
        seq![]
    }
}

/// Index of the first override, from `k` on, keyed by the decimal id `id`; -1 where none is.
pub open spec fn first_override_from(entries: Seq<(String, CustomGameEntry)>, id: u32, k: int) -> int
    decreases entries.len() - k,
{
    if k < 0 || k >= entries.len() {
        -1
    } else if entries[k].0@ == decimal(id as nat) {
        k
    } else {
        first_override_from(entries, id, k + 1)
    }
}

/// The override template of title `id`, where there is one.
pub open spec fn override_template(entries: Seq<(String, CustomGameEntry)>, id: u32) -> Option<
    Seq<char>,
> {
    let k = first_override_from(entries, id, 0);
    if 0 <= k < entries.len() {
        Some(entries[k].1.win@)
    } else {
        None
    }
}

/// Catalog entries that are tools rather than titles.
pub open spec fn is_listed(name: Seq<char>) -> bool {
    name != "Steamworks Common Redistributables"@ && !contains(name, "Proton"@)
}

impl SteamService {
    /// The manifest's save-location templates for title `game_id`, in ascending order.
    pub fn manifest_templates(games: &Vec<LudusaviGame>, game_id: u32) -> (r: Vec<String>)
        ensures
            names(r@) == manifest_templates(games@, game_id),
    {
        let mut k: usize = 0;
        while k < games.len()
            invariant
                k <= games.len(),
                first_game_from(games@, game_id, 0) == first_game_from(games@, game_id, k as int),
            decreases games.len() - k,
        {
            let hit = match &games[k].steam {
                Some(s) => s.id == game_id,
                None => false,
            };
            if hit {
                return match &games[k].files {
                    Some(f) => sort_strings(f.clone()),
                    None => Vec::new(),
                };
            }
            k += 1;
        }
        Vec::new()
    }

    /// The concrete save locations the manifest gives for title `game_id`, in the order of
    /// their templates.
    pub fn get_manifest_paths(
        games: &Vec<LudusaviGame>,
        game_id: u32,
        env: &HostEnv,
        prefix_present: bool,
    ) -> (r: Vec<String>)
        ensures
            r@.len() == manifest_templates(games@, game_id).len(),
            forall|i: int|
                0 <= i < r@.len() ==> #[trigger] r@[i]@ == resolved(
                    manifest_templates(games@, game_id)[i],
                    game_id,
                    *env,
                    prefix_present,
                ),
    {
        let templates = SteamService::manifest_templates(games, game_id);
        let mut out: Vec<String> = Vec::new();
        let mut i: usize = 0;
        while i < templates.len()
            invariant
                i <= templates.len(),
                names(templates@) == manifest_templates(games@, game_id),
                out@.len() == i,
                forall|m: int|
                    0 <= m < i ==> #[trigger] out@[m]@ == resolved(
                        templates@[m]@,
                        game_id,
                        *env,
                        prefix_present,
                    ),
            decreases templates.len() - i,
        {
            out.push(SteamService::resolve_path_root(templates[i].as_str(), game_id, env, prefix_present));
            i += 1;
        }
        out
    }

    /// The user's override template for title `game_id`, where there is one.
    pub fn custom_template(entries: &Vec<(String, CustomGameEntry)>, game_id: u32) -> (r: Option<
        String,
    >)
        ensures
            match r {
                Some(t) => override_template(entries@, game_id) == Some(t@),
                None => override_template(entries@, game_id) is None,
            },
    {
        let key = decimal_chars(game_id as u64);
        let mut k: usize = 0;
        while k < entries.len()
            invariant
                k <= entries.len(),
                key@ == decimal(game_id as nat),
                first_override_from(entries@, game_id, 0) == first_override_from(
                    entries@,
                    game_id,
                    k as int,
                ),
            decreases entries.len() - k,
        {
            if chars_equal(&chars_of(entries[k].0.as_str()), &key) {
                return Some(entries[k].1.win.clone());
            }
            k += 1;
        }
        None
    }

    /// The concrete location of the user's override for title `game_id`, where there is one.
    pub fn get_custom_path(
        entries: &Vec<(String, CustomGameEntry)>,
        game_id: u32,
        env: &HostEnv,
        prefix_present: bool,
    ) -> (r: Option<String>)
        ensures
            match r {
                Some(p) => override_template(entries@, game_id) matches Some(t) && p@ == resolved(
                    t,
                    game_id,
                    *env,
                    prefix_present,
                ),
                None => override_template(entries@, game_id) is None,
            },
    {
        match SteamService::custom_template(entries, game_id) {
            Some(t) => Some(SteamService::resolve_path_root(t.as_str(), game_id, env, prefix_present)),
            None => None,
        }
    }

    /// The name a catalog entry is shown under.
    pub fn display_name(name: Option<String>) -> (r: String)
        ensures
            r@ == match name {
                Some(n) => n@,
                None => "Unknown"@,
            },
    {
        match name {
            Some(n) => n,
            None => string_of(&chars_of("Unknown")),
        }
    }

    /// Whether a catalog entry is a title, not one of the library's own tools.
    pub fn is_listed_title(name: &str) -> (r: bool)
        ensures
            r == is_listed(name@),
    {
        let n = chars_of(name);
        !chars_equal(&n, &chars_of("Steamworks Common Redistributables")) && !contains_chars(
            &n,
            &chars_of("Proton"),
        )
    }

    /// The directory holding one folder per library user.
    pub fn userdata_dir(steam_root: &str) -> (r: String)
        ensures
            r@ == join_path(steam_root@, "userdata"@),
    {
        string_of(&join_chars(&chars_of(steam_root), &chars_of("userdata")))
    }

    /// A user's cloud-save folder of title `game_id`, inside that user's folder `user_dir`.
    pub fn cloud_save_dir(user_dir: &str, game_id: u32) -> (r: String)
        ensures
            r@ == join_path(user_dir@, decimal(game_id as nat)),
    {
        string_of(&join_chars(&chars_of(user_dir), &decimal_chars(game_id as u64)))
    }
}

} // verus!
