//! One workspace on this machine: its root, its path rules and its filter.
//!
//! The site answers the two questions that every change has to pass, in
//! whichever direction it goes: does the filter let the path through, and may
//! it be written.
use vstd::prelude::*;
use vstd::utf8::encode_utf8;

use crate::error::{concat, workspace_fault_text, WorkspaceFault};
use crate::events::{Direction, EventView, WorkspaceEvent};
use crate::filter::{ExcludeRules, FileFacts, FilterDecision, SkipReason, WorkspaceFilter};
use crate::ids::Key;
use crate::keys::{drive_prefixed, key_of, key_prefix, path_to_key};
use crate::path::{components, steps_within, within, without_prefix, Component, FsPath, SEPARATOR};
use crate::relative::names_text;
use crate::rules::{
    compile_fault, glob_accepts, law_first_accepting_rule_decides, law_outside_paths_get_default, mode_of,
    CompiledPathRules, Mode, PathRules, PathRulesError,
};
use crate::text::{lemma_encode_injective, lossy_text};

verus! {

/// A workspace on this machine.
pub struct Site {
    /// The filter, which knows the root.
    pub filter: WorkspaceFilter,
    /// The path rules as the host wrote them.
    pub rules: PathRules,
    /// The path rules, ready to be asked.
    pub compiled_rules: CompiledPathRules,
}

/// What the filter says of a path: go on, or stop and perhaps tell the
/// consumer why.
pub enum Passage {
    /// Go on.
    Pass,
    /// Stop.
    Stop(Option<WorkspaceEvent>),
}

/// A [`Passage`] over sequences: nothing where it goes on.
pub open spec fn passage_view(passage: Passage) -> Option<Option<EventView>> {
    match passage {
        Passage::Pass => None,
        Passage::Stop(event) => Some(event_view(event)),
    }
}

/// An event that may not be there, over sequences.
pub open spec fn event_view(event: Option<WorkspaceEvent>) -> Option<EventView> {
    match event {
        Some(event) => Some(event@),
        None => None,
    }
}

/// What the consumer is told of a decision of the filter, where the decision
/// stops a path.
pub open spec fn stopped_by(decision: FilterDecision, path: Seq<u8>, direction: Direction) -> Option<Option<EventView>> {
    match decision {
        FilterDecision::Include => None,
        FilterDecision::Skip(SkipReason::TooLarge { size }) => Some(Some(EventView::SkippedTooLarge(path, size))),
        FilterDecision::Skip(SkipReason::Excluded) => Some(Some(EventView::SkippedExcluded(path, direction))),
        FilterDecision::Skip(SkipReason::Hardcoded) => Some(None),
        FilterDecision::Skip(SkipReason::Symlink) => Some(None),
    }
}

/// Why a path has no key, as an event.
pub open spec fn no_key_event(path: Seq<u8>, why: Seq<char>) -> EventView {
    EventView::Error("path_to_key "@ + lossy_text(path) + ": "@ + workspace_fault_text(WorkspaceFault::InvalidPath(why)))
}

impl Site {
    /// The compiled rules are those of the site.
    pub open spec fn wf(&self) -> bool {
        self.compiled_rules.holds(self.rules)
    }

    /// The root.
    pub open spec fn root(&self) -> Seq<u8> {
        self.filter.root@
    }

    /// The mode of a path.
    pub open spec fn mode(&self, path: Seq<u8>) -> Mode {
        mode_of(self.rules, steps_within(self.root(), path))
    }

    /// Whether the filter stops a path, and what the consumer is told.
    pub open spec fn stops(&self, path: Seq<u8>, facts: FileFacts, direction: Direction) -> Option<Option<EventView>> {
        stopped_by(self.filter.decides(path, facts), path, direction)
    }

    /// A site with its rules compiled.
    pub fn new(root: FsPath, rules: PathRules, exclude: ExcludeRules) -> (res: Result<Site, PathRulesError>)
        ensures
            match res {
                Ok(site) => {
                    &&& compile_fault(rules.rules@) is None
                    &&& site.wf()
                    &&& site.rules == rules
                    &&& site.root() == root@
                    &&& site.filter.exclude == exclude
                },
                Err(err) => compile_fault(rules.rules@) == Some(err@),
            },
    {
        match rules.compile() {
            Ok(compiled_rules) => Ok(
                Site { filter: WorkspaceFilter::new(root, exclude), rules, compiled_rules },
            ),
            Err(err) => Err(err),
        }
    }

    /// Whether a path may be written.
    pub fn mode_for(&self, path: &FsPath) -> (mode: Mode)
        requires
            self.wf(),
        ensures
            mode == self.mode(path@),
    {
        let list = within(path, &self.filter.root);
        self.compiled_rules.mode_of_components(&list)
    }

    /// Asks the filter.
    pub fn pass(&self, path: &FsPath, facts: &FileFacts, direction: Direction) -> (passage: Passage)
        ensures
            passage_view(passage) == self.stops(path@, *facts, direction),
    {
        match self.filter.check(path, facts) {
            FilterDecision::Include => Passage::Pass,
            FilterDecision::Skip(SkipReason::TooLarge { size }) => Passage::Stop(
                Some(WorkspaceEvent::SkippedTooLarge { path: path.duplicate(), size }),
            ),
            FilterDecision::Skip(SkipReason::Excluded) => Passage::Stop(
                Some(WorkspaceEvent::SkippedExcluded { path: path.duplicate(), direction }),
            ),
            FilterDecision::Skip(SkipReason::Hardcoded) => Passage::Stop(None),
            FilterDecision::Skip(SkipReason::Symlink) => Passage::Stop(None),
        }
    }

    /// The key of a path, or what the consumer is told where there is none.
    pub fn path_to_key_or_emit(&self, path: &FsPath) -> (res: Result<Vec<u8>, WorkspaceEvent>)
        ensures
            match res {
                Ok(key) => key_of(self.root(), path@) == Ok::<Seq<u8>, Seq<char>>(key@),
                Err(event) => {
                    &&& key_of(self.root(), path@) matches Err(why)
                    &&& event@ == no_key_event(path@, why)
                },
            },
    {
        match path_to_key(&self.filter.root, path) {
            Ok(key) => Ok(key),
            Err(err) => {
                let mut text = concat("path_to_key ", path.display().as_str());
                text.append(": ");
                text.append(err.message().as_str());
                Err(WorkspaceEvent::Error(text))
            },
        }
    }
}

/// The message that something about a path failed.
pub open spec fn failed_text(what: Seq<char>, path: Seq<u8>, why: Seq<char>) -> Seq<char> {
    what + lossy_text(path) + " failed: "@ + why
}

/// Says that something about a path failed.
pub fn failed(what: &str, path: &FsPath, why: &str) -> (event: WorkspaceEvent)
    ensures
        event@ == EventView::Error(failed_text(what@, path@, why@)),
{
    let mut text = concat(what, path.display().as_str());
    text.append(" failed: ");
    text.append(why);
    WorkspaceEvent::Error(text)
}

/// The filter stops a path exactly where it does not decide for it. The
/// consumer is told of a path that is too large, with its size, and of one that
/// is excluded, with the direction; of names that never sync and of links it is
/// told nothing.
pub proof fn law_what_the_filter_stops(site: Site, path: Seq<u8>, facts: FileFacts, direction: Direction)
    ensures
        ({
            let stopped = site.stops(path, facts, direction);
            match site.filter.decides(path, facts) {
                FilterDecision::Include => stopped is None,
                FilterDecision::Skip(SkipReason::Hardcoded) => stopped == Some(None::<EventView>),
                FilterDecision::Skip(SkipReason::Symlink) => stopped == Some(None::<EventView>),
                FilterDecision::Skip(SkipReason::Excluded) => stopped == Some(
                    Some(EventView::SkippedExcluded(path, direction)),
                ),
                FilterDecision::Skip(SkipReason::TooLarge { size }) => stopped == Some(
                    Some(EventView::SkippedTooLarge(path, size)),
                ),
            }
        }),
{
}

/// The rule that decides on a file is the first that accepts the text under
/// which the file is published: the part of its key behind the prefix. Where
/// none accepts it the default holds, and so it does where that text opens with
/// a drive letter and a colon.
pub proof fn law_mode_follows_the_published_text(site: Site, path: Seq<u8>, text: Seq<char>, k: int)
    requires
        key_of(site.root(), path) == Ok::<Seq<u8>, Seq<char>>(key_prefix() + encode_utf8(text)),
    ensures
        ({
            let rules = site.rules.rules@;
            &&& drive_prefixed(encode_utf8(text)) ==> site.mode(path) == site.rules.default
            &&& !drive_prefixed(encode_utf8(text)) && 0 <= k < rules.len() && glob_accepts(rules[k].glob@, text) && (forall|
                j: int,
            |
                0 <= j < k ==> !glob_accepts((#[trigger] rules[j]).glob@, text)) ==> site.mode(path) == rules[k].mode
            &&& !drive_prefixed(encode_utf8(text)) && (forall|j: int|
                0 <= j < rules.len() ==> !glob_accepts((#[trigger] rules[j]).glob@, text)) ==> site.mode(path)
                == site.rules.default
        }),
{
    let steps = without_prefix(components(path), components(site.root()))->0;
    let found = names_text(steps)->Ok_0;
    let key = key_prefix() + encode_utf8(found);
    assert(key.skip(key_prefix().len() as int) =~= encode_utf8(found));
    assert((key_prefix() + encode_utf8(text)).skip(key_prefix().len() as int) =~= encode_utf8(text));
    lemma_encode_injective(found, text);
    if !drive_prefixed(encode_utf8(text)) {
        law_first_accepting_rule_decides(site.rules, steps, text, k);
    }
}

/// A file in the root that cannot be published has the default mode, and so has
/// every absolute path outside of the root.
pub proof fn law_unpublished_paths_get_the_default(site: Site, path: Seq<u8>)
    ensures
        components(site.root()).is_prefix_of(components(path)) && key_of(site.root(), path) is Err ==> site.mode(path)
            == site.rules.default,
        !components(site.root()).is_prefix_of(components(path)) && path.len() > 0 && path[0] == SEPARATOR ==> site.mode(path)
            == site.rules.default,
{
    if !components(site.root()).is_prefix_of(components(path)) && path.len() > 0 && path[0] == SEPARATOR {
        assert(components(path)[0] == Component::<Seq<u8>>::RootDir);
        law_outside_paths_get_default(site.rules, components(path));
    }
}

/// What the consumer is told of a path names the path and ends with the reason.
pub proof fn law_reports_name_the_path(what: Seq<char>, path: Seq<u8>, why: Seq<char>)
    ensures
        failed_text(what, path, why) == what + lossy_text(path) + " failed: "@ + why,
        no_key_event(path, why) == EventView::Error(
            "path_to_key "@ + lossy_text(path) + ": "@ + ("invalid path: "@ + why),
        ),
{
}

} // verus!
