//! The registry: the ordered, duplicate-free collection of game records,
//! held together with the configuration for one process invocation.

use crate::config::Config;
use crate::errors::GgError;
use crate::game::{Game, GameView, game_wf, same_entity, spec_merge};
use crate::commands::{ShellCommand, command_built, spec_effective_run_templates};
use crate::strutil::{
    join_all, lex_lt, spec_join, lemma_lex_lt_transitive, lemma_lex_lt_trichotomy, str_lt, views,
};
use vstd::prelude::*;

verus! {

/// The registry invariant: records strictly sorted by name, pairwise
/// distinct on root and save location, each record well formed.
pub open spec fn registry_wf(s: Seq<GameView>) -> bool {
    &&& forall|i: int, j: int|
        0 <= i < j < s.len() ==> lex_lt(#[trigger] s[i].name, #[trigger] s[j].name)
    &&& forall|i: int, j: int|
        0 <= i < j < s.len() ==> #[trigger] s[i].root != #[trigger] s[j].root
            && s[i].save_location != s[j].save_location
    &&& forall|i: int| 0 <= i < s.len() ==> game_wf(#[trigger] s[i])
}

/// Some record carries this name.
pub open spec fn has_name(s: Seq<GameView>, name: Seq<char>) -> bool {
    exists|i: int| 0 <= i < s.len() && #[trigger] s[i].name == name
}

/// The index of the record carrying this name.
pub open spec fn index_of_name(s: Seq<GameView>, name: Seq<char>) -> int {
    choose|i: int| 0 <= i < s.len() && #[trigger] s[i].name == name
}

/// A record with a different name collides with `g` on root or save
/// location.
pub open spec fn path_collision(s: Seq<GameView>, g: GameView) -> bool {
    exists|j: int|
        0 <= j < s.len() && (#[trigger] s[j].name) != g.name && (s[j].root == g.root
            || s[j].save_location == g.save_location)
}

/// In a well-formed registry no two records share a name.
pub proof fn lemma_wf_names_unique(s: Seq<GameView>, i: int, j: int)
    requires
        registry_wf(s),
        0 <= i < s.len(),
        0 <= j < s.len(),
        i != j,
    ensures
        s[i].name != s[j].name,
{
    if i < j {
        lemma_lex_lt_trichotomy(s[i].name, s[j].name);
    } else {
        lemma_lex_lt_trichotomy(s[j].name, s[i].name);
    }
}

/// A well-formed registry is duplicate-free under the loose identity rule:
/// no two of its records are the same entity.
pub proof fn lemma_registry_no_duplicates(s: Seq<GameView>, i: int, j: int)
    requires
        registry_wf(s),
        0 <= i < s.len(),
        0 <= j < s.len(),
        i != j,
    ensures
        !same_entity(s[i], s[j]),
{
    lemma_wf_names_unique(s, i, j);
    if i < j {
        assert(s[i].root != s[j].root && s[i].save_location != s[j].save_location);
    } else {
        assert(s[j].root != s[i].root && s[j].save_location != s[i].save_location);
    }
}

/// A well-formed registry — what every mutation yields — is sorted by name,
/// and each name appears at most once.
pub proof fn lemma_registry_sorted_unique(s: Seq<GameView>)
    requires
        registry_wf(s),
    ensures
        forall|i: int, j: int|
            0 <= i < j < s.len() ==> lex_lt(#[trigger] s[i].name, #[trigger] s[j].name),
        forall|i: int, j: int|
            0 <= i < s.len() && 0 <= j < s.len() && i != j ==> (#[trigger] s[i].name) != (
            #[trigger] s[j].name),
{
    assert forall|i: int, j: int|
        0 <= i < s.len() && 0 <= j < s.len() && i != j implies (#[trigger] s[i].name) != (
    #[trigger] s[j].name) by {
        lemma_wf_names_unique(s, i, j);
    }
}

/// Deleting a name removes its only record: a lookup of that name in the
/// registry left behind finds nothing.
pub proof fn lemma_delete_then_get_not_found(s: Seq<GameView>, name: Seq<char>)
    requires
        registry_wf(s),
        has_name(s, name),
    ensures
        !has_name(s.remove(index_of_name(s, name)), name),
{
    let i = index_of_name(s, name);
    let s2 = s.remove(i);
    assert forall|j: int| 0 <= j < s2.len() implies (#[trigger] s2[j].name) != name by {
        if j < i {
            lemma_wf_names_unique(s, j, i);
            assert(s2[j] == s[j]);
        } else {
            lemma_wf_names_unique(s, j + 1, i);
            assert(s2[j] == s[j + 1]);
        }
    }
}

/// The registry plus the per-invocation configuration and data directory.
#[derive(Debug)]
pub struct Games {
    inner: Vec<Game>,
    config: Config,
    data_dir: String,
}

impl View for Games {
    type V = Seq<GameView>;

    /// The registry as the sequence of its records' contents.
    closed spec fn view(&self) -> Seq<GameView> {
        self.inner@.map_values(|g: Game| g@)
    }
}

impl Games {
    /// The configuration this registry was loaded with.
    pub closed spec fn spec_config(&self) -> Config {
        self.config
    }

    /// The per-user data directory this registry persists under.
    pub closed spec fn spec_data_dir(&self) -> Seq<char> {
        self.data_dir@
    }

    /// Assembles a registry from records as loaded from the backing file,
    /// refusing contents that break the registry invariant.
    pub fn new(records: Vec<Game>, config: Config, data_dir: String) -> (r: Result<Games, GgError>)
        ensures
            match r {
                Ok(g) => registry_wf(g@) && g@ == records@.map_values(|gm: Game| gm@)
                    && g.spec_config() == config && g.spec_data_dir() == data_dir@,
                Err(e) => !registry_wf(records@.map_values(|gm: Game| gm@)) && (e matches
                    GgError::ConfigError { path } && path@ == data_dir@ + "/games.json"@),
            },
    {
        let ghost s = records@.map_values(|gm: Game| gm@);
        let n = records.len();
        let mut i: usize = 0;
        while i < n
            invariant
                s == records@.map_values(|gm: Game| gm@),
                n == records@.len(),
                s.len() == n,
                i <= n,
                forall|a: int, b: int|
                    0 <= a < b < s.len() && a < i ==> lex_lt(
                        #[trigger] s[a].name,
                        #[trigger] s[b].name,
                    ),
                forall|a: int, b: int|
                    0 <= a < b < s.len() && a < i ==> (#[trigger] s[a].root) != (
                    #[trigger] s[b].root) && s[a].save_location != s[b].save_location,
                forall|a: int| 0 <= a < i ==> game_wf(#[trigger] s[a]),
            decreases n - i,
        {
            let rec = &records[i];
            if rec.root == rec.save_location {
                proof {
                    assert(!game_wf(s[i as int]));
                }
                let mut p = data_dir;
                p.append("/games.json");
                return Err(GgError::ConfigError { path: p });
            }
            let mut j: usize = i + 1;
            while j < n
                invariant
                    s == records@.map_values(|gm: Game| gm@),
                    n == records@.len(),
                    s.len() == n,
                    i < j <= n,
                    forall|b: int| i < b < j ==> lex_lt(s[i as int].name, #[trigger] s[b].name),
                    forall|b: int|
                        i < b < j ==> s[i as int].root != (#[trigger] s[b].root) && s[
                            i as int
                        ].save_location != s[b].save_location,
                decreases n - j,
            {
                let other = &records[j];
                if !str_lt(records[i].name.as_str(), other.name.as_str()) {
                    proof {
                        assert(!lex_lt(s[i as int].name, s[j as int].name));
                    }
                    let mut p = data_dir;
                    p.append("/games.json");
                    return Err(GgError::ConfigError { path: p });
                }
                if records[i].root == other.root || records[i].save_location
                    == other.save_location {
                    proof {
                        assert(s[i as int].root == s[j as int].root || s[i as int].save_location
                            == s[j as int].save_location);
                    }
                    let mut p = data_dir;
                    p.append("/games.json");
                    return Err(GgError::ConfigError { path: p });
                }
                proof {
                    assert(s[i as int] == records@[i as int]@);
                    assert(s[j as int] == records@[j as int]@);
                }
                j = j + 1;
            }
            proof {
                assert forall|a: int, b: int|
                    0 <= a < b < s.len() && a < i + 1 implies (#[trigger] s[a].root) != (
                #[trigger] s[b].root) && s[a].save_location != s[b].save_location by {
                    if a == i as int {
                        assert(s[i as int].root != s[b].root && s[i as int].save_location
                            != s[b].save_location);
                    }
                }
            }
            i = i + 1;
        }
        Ok(Games { inner: records, config, data_dir })
    }

    /// Finds the record with this name by binary search; on a miss, yields
    /// the position where such a record would be inserted.
    fn binary_search_name(&self, name: &str) -> (r: Result<usize, usize>)
        requires
            registry_wf(self@),
        ensures
            match r {
                Ok(i) => i < self@.len() && self@[i as int].name == name@,
                Err(i) => i <= self@.len() && !has_name(self@, name@) && (forall|k: int|
                    0 <= k < i ==> lex_lt(#[trigger] self@[k].name, name@)) && (forall|k: int|
                    i <= k < self@.len() ==> lex_lt(name@, #[trigger] self@[k].name)),
            },
    {
        let mut lo: usize = 0;
        let mut hi: usize = self.inner.len();
        while lo < hi
            invariant
                registry_wf(self@),
                lo <= hi <= self@.len(),
                self@.len() == self.inner@.len(),
                forall|k: int| 0 <= k < lo ==> lex_lt(#[trigger] self@[k].name, name@),
                forall|k: int| hi <= k < self@.len() ==> lex_lt(name@, #[trigger] self@[k].name),
            decreases hi - lo,
        {
            let mid = lo + (hi - lo) / 2;
            let mid_name = self.inner[mid].name.as_str();
            if str_lt(mid_name, name) {
                proof {
                    assert forall|k: int| 0 <= k < mid + 1 implies lex_lt(
                        #[trigger] self@[k].name,
                        name@,
                    ) by {
                        if k < mid {
                            lemma_lex_lt_transitive(self@[k].name, self@[mid as int].name, name@);
                        }
                    }
                }
                lo = mid + 1;
            } else if str_lt(name, mid_name) {
                proof {
                    assert forall|k: int| mid <= k < self@.len() implies lex_lt(
                        name@,
                        #[trigger] self@[k].name,
                    ) by {
                        if k > mid {
                            lemma_lex_lt_transitive(name@, self@[mid as int].name, self@[k].name);
                        }
                    }
                }
                hi = mid;
            } else {
                proof {
                    lemma_lex_lt_trichotomy(self@[mid as int].name, name@);
                }
                return Ok(mid);
            }
        }
        proof {
            assert forall|i: int| 0 <= i < self@.len() implies self@[i].name != name@ by {
                lemma_lex_lt_trichotomy(self@[i].name, name@);
            }
        }
        Err(lo)
    }

    /// Scans for a differently-named record colliding with `game` on root or
    /// save location.
    fn finds_path_collision(&self, game: &Game) -> (r: bool)
        ensures
            r == path_collision(self@, game@),
    {
        let n = self.inner.len();
        let mut i: usize = 0;
        while i < n
            invariant
                n == self@.len(),
                self@.len() == self.inner@.len(),
                i <= n,
                forall|j: int|
                    0 <= j < i ==> !((#[trigger] self@[j].name) != game@.name && (self@[j].root
                        == game@.root || self@[j].save_location == game@.save_location)),
            decreases n - i,
        {
            let rec = &self.inner[i];
            if !(rec.name == game.name) && (rec.root == game.root || rec.save_location
                == game.save_location) {
                proof {
                    assert(self@[i as int].name != game@.name && (self@[i as int].root
                        == game@.root || self@[i as int].save_location == game@.save_location));
                }
                return true;
            }
            i = i + 1;
        }
        false
    }

    /// Inserts a record at its sorted position, or merges it into the record
    /// already carrying its name; refuses a record whose paths collide with a
    /// differently-named record. Yields the record as inserted or merged.
    pub fn push(&mut self, game: Game) -> (r: Result<Game, GgError>)
        requires
            registry_wf(old(self)@),
            game_wf(game@),
        ensures
            registry_wf(final (self)@),
            final (self).spec_config() == old(self).spec_config(),
            final (self).spec_data_dir() == old(self).spec_data_dir(),
            match r {
                Ok(out) => !path_collision(old(self)@, game@) && (if has_name(
                    old(self)@,
                    game@.name,
                ) {
                    let i = index_of_name(old(self)@, game@.name);
                    out@ == spec_merge(old(self)@[i], game@) && final (self)@ == old(
                        self,
                    )@.update(i, spec_merge(old(self)@[i], game@))
                } else {
                    exists|i: int|
                        0 <= i <= old(self)@.len() && final (self)@ == #[trigger] old(
                            self,
                        )@.insert(i, game@) && out@ == game@
                }),
                Err(e) => path_collision(old(self)@, game@) && (e matches
                    GgError::DuplicateEntity { name } && name@ == game@.name) && final (self)@
                    == old(self)@,
            },
    {
        if self.finds_path_collision(&game) {
            return Err(GgError::DuplicateEntity { name: game.name });
        }
        match self.binary_search_name(game.name.as_str()) {
            Ok(i) => {
                proof {
                    let j = index_of_name(self@, game@.name);
                    if j != i as int {
                        lemma_wf_names_unique(self@, i as int, j);
                    }
                }
                let slot = &mut self.inner[i];
                slot.merge(game);
                let out = self.inner[i].duplicate();
                proof {
                    let s_old = old(self)@;
                    let s_new = self@;
                    let i = i as int;
                    assert(s_new =~= s_old.update(i, spec_merge(s_old[i], game@)));
                    assert forall|a: int, b: int|
                        0 <= a < b < s_new.len() implies lex_lt(
                        #[trigger] s_new[a].name,
                        #[trigger] s_new[b].name,
                    ) by {
                        assert(lex_lt(s_old[a].name, s_old[b].name));
                        assert(s_new[i].name == s_old[i].name);
                    }
                    assert forall|a: int, b: int|
                        0 <= a < b < s_new.len() implies (#[trigger] s_new[a].root)
                        != (#[trigger] s_new[b].root) && s_new[a].save_location
                        != s_new[b].save_location by {
                        assert(s_old[a].root != s_old[b].root);
                        if a == i || b == i {
                            let other = if a == i {
                                b
                            } else {
                                a
                            };
                            lemma_wf_names_unique(s_old, i, other);
                            assert(s_old[other].name != game@.name);
                            assert(s_new[i].name == s_old[i].name);
                            assert(s_new[i].root == game@.root);
                            assert(s_new[i].save_location == game@.save_location);
                        }
                    }
                    assert forall|a: int| 0 <= a < s_new.len() implies game_wf(s_new[a]) by {
                        if a == i {
                            assert(s_new[i].root == game@.root);
                            assert(s_new[i].save_location == game@.save_location);
                        }
                    }
                }
                Ok(out)
            },
            Err(i) => {
                let out = game.duplicate();
                self.inner.insert(i, game);
                proof {
                    let s_old = old(self)@;
                    let s_new = self@;
                    let i = i as int;
                    assert(s_new =~= s_old.insert(i, game@));
                    assert forall|a: int, b: int|
                        0 <= a < b < s_new.len() implies lex_lt(
                        #[trigger] s_new[a].name,
                        #[trigger] s_new[b].name,
                    ) by {
                        if a < i {
                            assert(s_new[a] == s_old[a]);
                        }
                        if b > i {
                            assert(s_new[b] == s_old[b - 1]);
                        }
                    }
                    assert forall|a: int, b: int|
                        0 <= a < b < s_new.len() implies (#[trigger] s_new[a].root)
                        != (#[trigger] s_new[b].root) && s_new[a].save_location
                        != s_new[b].save_location by {
                        if a < i {
                            assert(s_new[a] == s_old[a]);
                        }
                        if b > i {
                            assert(s_new[b] == s_old[b - 1]);
                        }
                        if a == i {
                            assert(s_old[b - 1].name != game@.name);
                        }
                        if b == i {
                            assert(s_old[a].name != game@.name);
                        }
                    }
                    assert forall|a: int| 0 <= a < s_new.len() implies game_wf(s_new[a]) by {
                        if a < i {
                            assert(s_new[a] == s_old[a]);
                        } else if a > i {
                            assert(s_new[a] == s_old[a - 1]);
                        }
                    }
                }
                Ok(out)
            },
        }
    }

    /// Removes and yields the record with this exact name, if one is held.
    pub fn delete(&mut self, name: &str) -> (r: Option<Game>)
        requires
            registry_wf(old(self)@),
        ensures
            registry_wf(final (self)@),
            final (self).spec_config() == old(self).spec_config(),
            final (self).spec_data_dir() == old(self).spec_data_dir(),
            match r {
                Some(g) => has_name(old(self)@, name@) && g@ == old(self)@[index_of_name(
                    old(self)@,
                    name@,
                )] && final (self)@ == old(self)@.remove(index_of_name(old(self)@, name@)),
                None => !has_name(old(self)@, name@) && final (self)@ == old(self)@,
            },
    {
        match self.binary_search_name(name) {
            Ok(i) => {
                let g = self.inner.remove(i);
                proof {
                    let j = index_of_name(old(self)@, name@);
                    if j != i as int {
                        lemma_wf_names_unique(old(self)@, i as int, j);
                    }
                    assert(self@ =~= old(self)@.remove(i as int));
                }
                Some(g)
            },
            Err(_) => None,
        }
    }

    /// Looks a record up by its exact name.
    pub fn get_by_name(&self, name: &str) -> (r: Result<&Game, GgError>)
        requires
            registry_wf(self@),
        ensures
            match r {
                Ok(g) => has_name(self@, name@) && g@ == self@[index_of_name(self@, name@)],
                Err(e) => !has_name(self@, name@) && (e matches GgError::NotFound { what }
                    && what@ == name@),
            },
    {
        match self.binary_search_name(name) {
            Ok(i) => {
                let g = &self.inner[i];
                proof {
                    let j = index_of_name(self@, name@);
                    if j != i as int {
                        lemma_wf_names_unique(self@, i as int, j);
                    }
                }
                Ok(g)
            },
            Err(_) => Err(GgError::NotFound { what: name.to_owned() }),
        }
    }
    /// Looks a record up by exact install root; yields the first match.
    pub fn get_by_root(&self, path: &str) -> (r: Option<&Game>)
        ensures
            match r {
                Some(g) => exists|i: int|
                    0 <= i < self@.len() && g@ == self@[i] && (#[trigger] self@[i].root) == path@
                        && (forall|j: int| 0 <= j < i ==> (#[trigger] self@[j].root) != path@),
                None => forall|i: int|
                    0 <= i < self@.len() ==> (#[trigger] self@[i].root) != path@,
            },
    {
        let n = self.inner.len();
        let mut i: usize = 0;
        while i < n
            invariant
                n == self@.len(),
                self@.len() == self.inner@.len(),
                i <= n,
                forall|j: int| 0 <= j < i ==> (#[trigger] self@[j].root) != path@,
            decreases n - i,
        {
            if crate::strutil::str_eq(self.inner[i].root.as_str(), path) {
                proof {
                    assert(self@[i as int] == self.inner@[i as int]@);
                    assert(self@[i as int].root == path@);
                }
                return Some(&self.inner[i]);
            }
            i = i + 1;
        }
        None
    }

    /// Looks a record up by exact save location; yields the first match.
    pub fn get_by_save(&self, path: &str) -> (r: Option<&Game>)
        ensures
            match r {
                Some(g) => exists|i: int|
                    0 <= i < self@.len() && g@ == self@[i] && (#[trigger] self@[i].save_location)
                        == path@ && (forall|j: int|
                        0 <= j < i ==> (#[trigger] self@[j].save_location) != path@),
                None => forall|i: int|
                    0 <= i < self@.len() ==> (#[trigger] self@[i].save_location) != path@,
            },
    {
        let n = self.inner.len();
        let mut i: usize = 0;
        while i < n
            invariant
                n == self@.len(),
                self@.len() == self.inner@.len(),
                i <= n,
                forall|j: int| 0 <= j < i ==> (#[trigger] self@[j].save_location) != path@,
            decreases n - i,
        {
            if crate::strutil::str_eq(self.inner[i].save_location.as_str(), path) {
                proof {
                    assert(self@[i as int] == self.inner@[i as int]@);
                    assert(self@[i as int].save_location == path@);
                }
                return Some(&self.inner[i]);
            }
            i = i + 1;
        }
        None
    }

    /// Finds the record whose root or save location is the given current
    /// directory; yields the first match.
    pub fn get_by_current_dir(&self, current_dir: &str) -> (r: Option<&Game>)
        ensures
            match r {
                Some(g) => exists|i: int|
                    0 <= i < self@.len() && g@ == self@[i] && matches_dir(
                        #[trigger] self@[i],
                        current_dir@,
                    ) && (forall|j: int|
                        0 <= j < i ==> !matches_dir(#[trigger] self@[j], current_dir@)),
                None => forall|i: int|
                    0 <= i < self@.len() ==> !matches_dir(#[trigger] self@[i], current_dir@),
            },
    {
        let n = self.inner.len();
        let mut i: usize = 0;
        while i < n
            invariant
                n == self@.len(),
                self@.len() == self.inner@.len(),
                i <= n,
                forall|j: int| 0 <= j < i ==> !matches_dir(#[trigger] self@[j], current_dir@),
            decreases n - i,
        {
            let rec = &self.inner[i];
            if crate::strutil::str_eq(rec.root.as_str(), current_dir) || crate::strutil::str_eq(
                rec.save_location.as_str(),
                current_dir,
            ) {
                proof {
                    assert(self@[i as int] == self.inner@[i as int]@);
                    assert(matches_dir(self@[i as int], current_dir@));
                }
                return Some(&self.inner[i]);
            }
            i = i + 1;
        }
        None
    }

    /// Resolves a game: by exact name when one is given, else by matching the
    /// current directory against any record's root or save location; fails
    /// with an error naming the current directory when neither applies.
    pub fn try_get(&self, game: Option<&str>, current_dir: &str) -> (r: Result<&Game, GgError>)
        requires
            registry_wf(self@),
        ensures
            match game {
                Some(n) => match r {
                    Ok(g) => has_name(self@, n@) && g@ == self@[index_of_name(self@, n@)],
                    Err(e) => !has_name(self@, n@) && (e matches GgError::NotFound { what }
                        && what@ == n@),
                },
                None => match r {
                    Ok(g) => exists|i: int|
                        0 <= i < self@.len() && g@ == self@[i] && matches_dir(
                            #[trigger] self@[i],
                            current_dir@,
                        ),
                    Err(e) => (forall|i: int|
                        0 <= i < self@.len() ==> !matches_dir(#[trigger] self@[i], current_dir@))
                        && (e matches GgError::CouldNotInfer { current_dir: d } && d@
                        == current_dir@),
                },
            },
    {
        match game {
            Some(n) => self.get_by_name(n),
            None => match self.get_by_current_dir(current_dir) {
                Some(g) => Ok(g),
                None => Err(GgError::CouldNotInfer { current_dir: current_dir.to_owned() }),
            },
        }
    }

    /// All records, in registry order.
    pub fn games(&self) -> (r: &Vec<Game>)
        ensures
            r@.len() == self@.len(),
            forall|i: int| 0 <= i < r@.len() ==> (#[trigger] r@[i]@) == self@[i],
    {
        &self.inner
    }

    /// The configuration this registry was loaded with.
    pub fn config(&self) -> (r: &Config)
        ensures
            *r == self.spec_config(),
    {
        &self.config
    }

    /// The names of all records, in registry order.
    pub fn names(&self) -> (r: Vec<String>)
        ensures
            r@.len() == self@.len(),
            forall|i: int| 0 <= i < r@.len() ==> (#[trigger] r@[i]@) == self@[i].name,
    {
        let n = self.inner.len();
        let mut out: Vec<String> = Vec::new();
        let mut i: usize = 0;
        while i < n
            invariant
                n == self@.len(),
                self@.len() == self.inner@.len(),
                i <= n,
                out@.len() == i,
                forall|j: int| 0 <= j < i ==> (#[trigger] out@[j]@) == self@[j].name,
            decreases n - i,
        {
            out.push(self.inner[i].name.clone());
            i = i + 1;
        }
        out
    }

    /// The fixed base name of the registry's backing file.
    pub fn games_file_name() -> (r: &'static str)
        ensures
            r@ == "games.json"@,
    {
        "games.json"
    }

    /// The full path of the registry's backing file.
    pub fn games_path(&self) -> (r: String)
        ensures
            r@ == self.spec_data_dir() + "/games.json"@,
    {
        let mut p = self.data_dir.clone();
        p.append("/games.json");
        p
    }

    /// Builds one shell invocation from command templates: none when the
    /// template list is empty (the hook is not configured, which is no
    /// error), otherwise the templates joined with `&&`, the record's
    /// variables substituted when a record is given, run as `shell -c`.
    pub fn commands_to_process(&self, cmds: &Vec<String>, game: Option<&Game>) -> (r: Option<
        ShellCommand,
    >)
        ensures
            command_built(
                r,
                self.spec_config().shell@,
                views(cmds@),
                match game {
                    Some(g) => Some(g@),
                    None => None,
                },
            ),
    {
        if cmds.len() == 0 {
            return None;
        }
        let joined = join_all(cmds, "&&");
        let line = match game {
            Some(g) => g.replace_vars(joined),
            None => joined,
        };
        let mut args: Vec<String> = Vec::new();
        args.push(("-c").to_owned());
        args.push(line);
        Some(ShellCommand { program: self.config.shell.clone(), args })
    }

    /// The cloud-init hook invocation for this game, when configured.
    pub fn cloud_init_command(&self, game: &Game) -> (r: Option<ShellCommand>)
        ensures
            command_built(
                r,
                self.spec_config().shell@,
                views(self.spec_config().backup.cloud_init_commands@),
                Some(game@),
            ),
    {
        self.commands_to_process(&self.config.backup.cloud_init_commands, Some(game))
    }

    /// The cloud-commit hook invocation for this game, when configured.
    pub fn cloud_commit_command(&self, game: &Game) -> (r: Option<ShellCommand>)
        ensures
            command_built(
                r,
                self.spec_config().shell@,
                views(self.spec_config().backup.cloud_commit_commands@),
                Some(game@),
            ),
    {
        self.commands_to_process(&self.config.backup.cloud_commit_commands, Some(game))
    }

    /// The cloud-push hook invocation for this game, when configured.
    pub fn cloud_push_command(&self, game: &Game) -> (r: Option<ShellCommand>)
        ensures
            command_built(
                r,
                self.spec_config().shell@,
                views(self.spec_config().backup.cloud_push_commands@),
                Some(game@),
            ),
    {
        self.commands_to_process(&self.config.backup.cloud_push_commands, Some(game))
    }

    /// The run invocation for this game: the per-game override with each
    /// template's first `$RUN` replaced by the global run line, or the global
    /// run templates themselves.
    pub fn run_command(&self, game: &Game) -> (r: Option<ShellCommand>)
        ensures
            command_built(
                r,
                self.spec_config().shell@,
                spec_effective_run_templates(game@, views(self.spec_config().run.commands@)),
                Some(game@),
            ),
    {
        match &game.run_commands {
            Some(cs) => {
                let global = join_all(&self.config.run.commands, "&&");
                let n = cs.len();
                let mut effective: Vec<String> = Vec::new();
                let mut i: usize = 0;
                while i < n
                    invariant
                        n == cs@.len(),
                        i <= n,
                        effective@.len() == i,
                        global@ == spec_join(views(self.spec_config().run.commands@), "&&"@),
                        forall|j: int|
                            0 <= j < i ==> (#[trigger] effective@[j]@)
                                == crate::strutil::spec_replace_first(cs@[j]@, "$RUN"@, global@),
                    decreases n - i,
                {
                    effective.push(
                        crate::strutil::replace_first(cs[i].as_str(), "$RUN", global.as_str()),
                    );
                    i = i + 1;
                }
                let r = self.commands_to_process(&effective, Some(game));
                proof {
                    assert(views(effective@) =~= spec_effective_run_templates(
                        game@,
                        views(self.spec_config().run.commands@),
                    ));
                }
                r
            },
            None => self.commands_to_process(&self.config.run.commands, Some(game)),
        }
    }

    /// The add workflow runs the cloud-init hook only for a record not yet
    /// managed, and only when neither skip flag is set.
    pub fn should_cloud_init(&self, name: &str, skip_cloud: bool, skip_cloud_init: bool) -> (r:
        bool)
        requires
            registry_wf(self@),
        ensures
            r == (!skip_cloud && !skip_cloud_init && !has_name(self@, name@)),
    {
        if skip_cloud || skip_cloud_init {
            return false;
        }
        match self.binary_search_name(name) {
            Ok(_) => false,
            Err(_) => true,
        }
    }
}

/// The record's root or save location is the given directory.
pub open spec fn matches_dir(g: GameView, d: Seq<char>) -> bool {
    g.root == d || g.save_location == d
}

} // verus!
