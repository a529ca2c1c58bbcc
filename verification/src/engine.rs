//! The backup/restore engine's orchestration: each operation is planned as a
//! sequence of steps that the surrounding program carries out in order. A
//! restore always opens with exactly one safety snapshot of the current save
//! state before anything is overwritten.

use crate::errors::GgError;
use crate::game::Game;
use crate::naming::{
    backup_file_name, safety_desc, spec_backup_file_name, spec_backup_index, spec_safety_desc,
};
use vstd::prelude::*;

verus! {

/// One step of a backup or restore operation.
#[derive(Debug)]
pub enum EngineStep {
    /// Write a fresh archive of the current save data under this file name,
    /// inside the game's backup directory.
    CreateArchive { file_name: String },
    /// Extract this backup file from the game's backup directory over the
    /// save location.
    Extract { file_name: String },
    /// Run the cloud-commit hook in the game's root.
    CloudCommit,
    /// Run the cloud-push hook in the game's root.
    CloudPush,
}

/// The mathematical content of one step.
pub enum StepView {
    CreateArchive { file_name: Seq<char> },
    Extract { file_name: Seq<char> },
    CloudCommit,
    CloudPush,
}

impl View for EngineStep {
    type V = StepView;

    open spec fn view(&self) -> StepView {
        match self {
            EngineStep::CreateArchive { file_name } => StepView::CreateArchive {
                file_name: file_name@,
            },
            EngineStep::Extract { file_name } => StepView::Extract { file_name: file_name@ },
            EngineStep::CloudCommit => StepView::CloudCommit,
            EngineStep::CloudPush => StepView::CloudPush,
        }
    }
}

/// The views of a sequence of steps.
pub open spec fn step_views(steps: Seq<EngineStep>) -> Seq<StepView> {
    steps.map_values(|s: EngineStep| s@)
}

/// The steps of one backup: write the archive named per the protocol from
/// the current backup count, then cloud commit and push unless skipped.
pub open spec fn spec_backup_steps(
    name: Seq<char>,
    count: nat,
    desc: Option<Seq<char>>,
    skip_cloud: bool,
) -> Seq<StepView> {
    let create = seq![
        StepView::CreateArchive { file_name: spec_backup_file_name(name, count, desc) },
    ];
    if skip_cloud {
        create
    } else {
        create + seq![StepView::CloudCommit, StepView::CloudPush]
    }
}

/// The steps of one restore: a safety snapshot of the current save state,
/// described as `replaced-with-` the index parsed out of the target's name,
/// with its cloud hooks; then extraction of the target; then the cloud hooks
/// once more.
pub open spec fn spec_restore_steps(
    name: Seq<char>,
    count: nat,
    target: Seq<char>,
    skip_cloud: bool,
) -> Seq<StepView> {
    let hooks: Seq<StepView> = if skip_cloud {
        Seq::empty()
    } else {
        seq![StepView::CloudCommit, StepView::CloudPush]
    };
    spec_backup_steps(name, count, Some(spec_safety_desc(target)), skip_cloud) + seq![
        StepView::Extract { file_name: target },
    ] + hooks
}

/// Plans one backup of this game's save data, given how many backups its
/// backup directory already holds.
pub fn plan_backup(game: &Game, backups_count: usize, desc: Option<&str>, skip_cloud: bool) -> (r:
    Vec<EngineStep>)
    ensures
        step_views(r@) == spec_backup_steps(
            game@.name,
            backups_count as nat,
            match desc {
                Some(d) => Some(d@),
                None => None,
            },
            skip_cloud,
        ),
{
    let file_name = backup_file_name(game.name(), backups_count, desc);
    let mut steps: Vec<EngineStep> = Vec::new();
    steps.push(EngineStep::CreateArchive { file_name });
    if !skip_cloud {
        steps.push(EngineStep::CloudCommit);
        steps.push(EngineStep::CloudPush);
    }
    proof {
        assert(step_views(steps@) =~= spec_backup_steps(
            game@.name,
            backups_count as nat,
            match desc {
                Some(d) => Some(d@),
                None => None::<Seq<char>>,
            },
            skip_cloud,
        ));
    }
    steps
}

/// Plans one restore of a named backup file: refuses a target that is not on
/// disk, and otherwise opens with the safety snapshot before the extraction.
pub fn plan_restore(
    game: &Game,
    target: &str,
    target_exists: bool,
    backups_count: usize,
    skip_cloud: bool,
) -> (r: Result<Vec<EngineStep>, GgError>)
    requires
        spec_backup_index(target@) is Some,
    ensures
        match r {
            Ok(steps) => target_exists && step_views(steps@) == spec_restore_steps(
                game@.name,
                backups_count as nat,
                target@,
                skip_cloud,
            ),
            Err(e) => !target_exists && (e matches GgError::NotFound { what } && what@ == target@),
        },
{
    if !target_exists {
        return Err(GgError::NotFound { what: target.to_owned() });
    }
    let desc = safety_desc(target).unwrap();
    let file_name = backup_file_name(game.name(), backups_count, Some(desc.as_str()));
    let mut steps: Vec<EngineStep> = Vec::new();
    steps.push(EngineStep::CreateArchive { file_name });
    if !skip_cloud {
        steps.push(EngineStep::CloudCommit);
        steps.push(EngineStep::CloudPush);
    }
    steps.push(EngineStep::Extract { file_name: target.to_owned() });
    if !skip_cloud {
        steps.push(EngineStep::CloudCommit);
        steps.push(EngineStep::CloudPush);
    }
    proof {
        assert(step_views(steps@) =~= spec_restore_steps(
            game@.name,
            backups_count as nat,
            target@,
            skip_cloud,
        ));
    }
    Ok(steps)
}

/// A restore plan holds exactly one safety snapshot: its first step, before
/// the extraction, writing a fresh archive whose name carries the index
/// parsed out of the target backup's name.
pub proof fn lemma_restore_safety_snapshot(
    name: Seq<char>,
    count: nat,
    target: Seq<char>,
    skip_cloud: bool,
)
    ensures
        ({
            let s = spec_restore_steps(name, count, target, skip_cloud);
            let extract_at = if skip_cloud {
                1int
            } else {
                3int
            };
            &&& s[0] == StepView::CreateArchive {
                file_name: spec_backup_file_name(name, count, Some(spec_safety_desc(target))),
            }
            &&& forall|i: int| 0 < i < s.len() ==> !(#[trigger] s[i] is CreateArchive)
            &&& 0 < extract_at < s.len()
            &&& s[extract_at] == StepView::Extract { file_name: target }
        }),
{
    let s = spec_restore_steps(name, count, target, skip_cloud);
    if skip_cloud {
        assert(s =~= seq![
            StepView::CreateArchive {
                file_name: spec_backup_file_name(name, count, Some(spec_safety_desc(target))),
            },
            StepView::Extract { file_name: target },
        ]);
    } else {
        assert(s =~= seq![
            StepView::CreateArchive {
                file_name: spec_backup_file_name(name, count, Some(spec_safety_desc(target))),
            },
            StepView::CloudCommit,
            StepView::CloudPush,
            StepView::Extract { file_name: target },
            StepView::CloudCommit,
            StepView::CloudPush,
        ]);
    }
}

} // verus!
