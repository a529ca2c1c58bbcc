//! Game records: one managed game's identity, its paths, and its optional
//! launch metadata.

use crate::strutil;
use vstd::prelude::*;

verus! {

/// The mathematical content of a game record.
pub struct GameView {
    pub name: Seq<char>,
    pub root: Seq<char>,
    pub save_location: Seq<char>,
    pub executable: Option<Seq<char>>,
    pub executable_args: Option<Seq<Seq<char>>>,
    pub environment_vars: Option<Seq<(Seq<char>, Seq<char>)>>,
    pub run_commands: Option<Seq<Seq<char>>>,
}

/// The views of a sequence of key/value pairs.
pub open spec fn pair_views(ps: Seq<(String, String)>) -> Seq<(Seq<char>, Seq<char>)> {
    ps.map_values(|p: (String, String)| (p.0@, p.1@))
}

/// A record is well formed when its install root and its save location
/// differ.
pub open spec fn game_wf(g: GameView) -> bool {
    g.root != g.save_location
}

/// The loose identity rule: two records stand for the same entity when any
/// one of name, root, or save location coincides.
pub open spec fn same_entity(a: GameView, b: GameView) -> bool {
    a.name == b.name || a.root == b.root || a.save_location == b.save_location
}

/// The merge of `new` into `orig`: paths are always overwritten, launch
/// metadata only when the new record sets it, and the original name and
/// sorted position are kept.
pub open spec fn spec_merge(orig: GameView, new: GameView) -> GameView {
    GameView {
        name: orig.name,
        root: new.root,
        save_location: new.save_location,
        executable: if new.executable is Some {
            new.executable
        } else {
            orig.executable
        },
        executable_args: if new.executable_args is Some {
            new.executable_args
        } else {
            orig.executable_args
        },
        environment_vars: if new.environment_vars is Some {
            new.environment_vars
        } else {
            orig.environment_vars
        },
        run_commands: if new.run_commands is Some {
            new.run_commands
        } else {
            orig.run_commands
        },
    }
}

/// One managed game.
#[derive(Debug)]
pub struct Game {
    pub name: String,
    pub root: String,
    pub save_location: String,
    pub executable: Option<String>,
    pub executable_args: Option<Vec<String>>,
    pub environment_vars: Option<Vec<(String, String)>>,
    pub run_commands: Option<Vec<String>>,
}

impl View for Game {
    type V = GameView;

    open spec fn view(&self) -> GameView {
        GameView {
            name: self.name@,
            root: self.root@,
            save_location: self.save_location@,
            executable: match self.executable {
                Some(e) => Some(e@),
                None => None,
            },
            executable_args: match self.executable_args {
                Some(args) => Some(strutil::views(args@)),
                None => None,
            },
            environment_vars: match self.environment_vars {
                Some(vars) => Some(pair_views(vars@)),
                None => None,
            },
            run_commands: match self.run_commands {
                Some(cs) => Some(strutil::views(cs@)),
                None => None,
            },
        }
    }
}

/// Copies a vector of key/value pairs, value for value.
fn clone_pairs(v: &Vec<(String, String)>) -> (r: Vec<(String, String)>)
    ensures
        r@ == v@,
{
    let mut out: Vec<(String, String)> = Vec::new();
    let mut i: usize = 0;
    while i < v.len()
        invariant
            i <= v@.len(),
            out@ == v@.subrange(0, i as int),
        decreases v@.len() - i,
    {
        out.push((v[i].0.clone(), v[i].1.clone()));
        proof {
            assert(out@ =~= v@.subrange(0, i as int + 1));
        }
        i = i + 1;
    }
    proof {
        assert(v@.subrange(0, v@.len() as int) =~= v@);
    }
    out
}

/// `$EXE` replaced by the record's executable in single quotes (when one is
/// set), then `$GAME` replaced by the record's name.
pub open spec fn spec_replace_vars(g: GameView, template: Seq<char>) -> Seq<char> {
    let with_exe = match g.executable {
        Some(e) => strutil::spec_replace_all(template, "$EXE"@, seq!['\''] + e + seq!['\'']),
        None => template,
    };
    strutil::spec_replace_all(with_exe, "$GAME"@, g.name)
}

impl Game {
    /// Builds a record from its parts.
    pub fn new(
        name: String,
        root: String,
        save_location: String,
        executable: Option<String>,
        executable_args: Option<Vec<String>>,
        environment_vars: Option<Vec<(String, String)>>,
        run_commands: Option<Vec<String>>,
    ) -> (r: Game)
        requires
            root@ != save_location@,
        ensures
            r@ == (GameView {
                name: name@,
                root: root@,
                save_location: save_location@,
                executable: match executable {
                    Some(e) => Some(e@),
                    None => None,
                },
                executable_args: match executable_args {
                    Some(args) => Some(strutil::views(args@)),
                    None => None,
                },
                environment_vars: match environment_vars {
                    Some(vars) => Some(pair_views(vars@)),
                    None => None,
                },
                run_commands: match run_commands {
                    Some(cs) => Some(strutil::views(cs@)),
                    None => None,
                },
            }),
            game_wf(r@),
    {
        Game {
            name,
            root,
            save_location,
            executable,
            executable_args,
            environment_vars,
            run_commands,
        }
    }

    /// The record's unique human identifier, also its sort key.
    pub fn name(&self) -> (r: &str)
        ensures
            r@ == self@.name,
    {
        self.name.as_str()
    }

    /// The install root.
    pub fn root(&self) -> (r: &str)
        ensures
            r@ == self@.root,
    {
        self.root.as_str()
    }

    /// The file or directory holding the save data.
    pub fn save_location(&self) -> (r: &str)
        ensures
            r@ == self@.save_location,
    {
        self.save_location.as_str()
    }

    /// The directory under the install root where backups live.
    pub fn backups_path(&self) -> (r: String)
        ensures
            r@ == self@.root + "/gg-saves"@,
    {
        let mut p = self.root.clone();
        p.append("/gg-saves");
        p
    }

    /// Merges `game` into this record: paths are overwritten, launch metadata
    /// only where `game` sets it, and the name is kept.
    pub fn merge(&mut self, game: Game)
        ensures
            final (self)@ == spec_merge(old(self)@, game@),
    {
        self.root = game.root;
        self.save_location = game.save_location;
        if game.executable.is_some() {
            self.executable = game.executable;
        }
        if game.executable_args.is_some() {
            self.executable_args = game.executable_args;
        }
        if game.environment_vars.is_some() {
            self.environment_vars = game.environment_vars;
        }
        if game.run_commands.is_some() {
            self.run_commands = game.run_commands;
        }
    }

    /// This record with each explicitly given field replaced; `executable`
    /// and `run_commands` keep their old values where no new one is given.
    pub fn merged_with(
        self,
        name: Option<String>,
        root: Option<String>,
        save_location: Option<String>,
        executable: Option<String>,
        run_commands: Option<Vec<String>>,
    ) -> (r: Game)
        ensures
            r@.name == (match name {
                Some(n) => n@,
                None => self@.name,
            }),
            r@.root == (match root {
                Some(p) => p@,
                None => self@.root,
            }),
            r@.save_location == (match save_location {
                Some(p) => p@,
                None => self@.save_location,
            }),
            r@.executable == (match executable {
                Some(e) => Some(e@),
                None => self@.executable,
            }),
            r@.executable_args == self@.executable_args,
            r@.environment_vars == self@.environment_vars,
            r@.run_commands == (match run_commands {
                Some(cs) => Some(strutil::views(cs@)),
                None => self@.run_commands,
            }),
    {
        Game {
            name: match name {
                Some(n) => n,
                None => self.name,
            },
            root: match root {
                Some(p) => p,
                None => self.root,
            },
            save_location: match save_location {
                Some(p) => p,
                None => self.save_location,
            },
            executable: match executable {
                Some(e) => Some(e),
                None => self.executable,
            },
            executable_args: self.executable_args,
            environment_vars: self.environment_vars,
            run_commands: match run_commands {
                Some(cs) => Some(cs),
                None => self.run_commands,
            },
        }
    }

    /// A copy of this record with the same contents.
    pub fn duplicate(&self) -> (r: Game)
        ensures
            r@ == self@,
    {
        Game {
            name: self.name.clone(),
            root: self.root.clone(),
            save_location: self.save_location.clone(),
            executable: match &self.executable {
                Some(e) => Some(e.clone()),
                None => None,
            },
            executable_args: match &self.executable_args {
                Some(args) => Some(strutil::clone_strings(args)),
                None => None,
            },
            environment_vars: match &self.environment_vars {
                Some(vars) => Some(clone_pairs(vars)),
                None => None,
            },
            run_commands: match &self.run_commands {
                Some(cs) => Some(strutil::clone_strings(cs)),
                None => None,
            },
        }
    }

    /// Substitutes the record's variables into a command template: `$EXE`
    /// becomes the quoted executable (when one is set), `$GAME` the name.
    pub fn replace_vars(&self, template: String) -> (r: String)
        ensures
            r@ == spec_replace_vars(self@, template@),
    {
        let with_exe = match &self.executable {
            Some(exe) => {
                let mut quoted = ("'").to_owned();
                quoted.append(exe.as_str());
                quoted.append("'");
                proof {
                    reveal_strlit("'");
                    assert(quoted@ =~= seq!['\''] + self@.executable.unwrap() + seq!['\'']);
                }
                strutil::replace_all(template.as_str(), "$EXE", quoted.as_str())
            },
            None => template,
        };
        strutil::replace_all(with_exe.as_str(), "$GAME", self.name.as_str())
    }
}

} // verus!
