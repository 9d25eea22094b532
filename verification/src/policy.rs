//! Whether a workspace may attach to its root.
use vstd::prelude::*;

use crate::config::AttachPolicy;
use crate::error::{paths_view, PolicyFault, PolicyViolation, WorkspaceError, WorkspaceFault};
use crate::filter::{hardcoded_steps, WorkspaceFilter};
use crate::ids::Key;
use crate::path::{
    components, dot, dot_dot, joined, steps_view, strip_prefix, without_prefix, Component, FsPath, Step, DOT, SEPARATOR,
};
use crate::text::{bytes_eq, copy_bytes};

verus! {

/// How many entries an error names.
pub const POLICY_OFFENDING_LIMIT: usize = 5;

/// Which side attaches.
#[derive(Clone, Copy, Debug, PartialEq, Eq, Structural)]
pub enum AttachSide {
    /// The host.
    Host,
    /// One who joins.
    Join,
}

/// The top level of a root, as the file system lists it.
pub enum Listing {
    /// There is no such directory.
    Missing,
    /// It cannot be listed.
    Failed(String),
    /// The name of each entry, or why the listing broke off there.
    Entries(Vec<Result<Vec<u8>, String>>),
}

/// A component as it is written.
pub open spec fn step_text(step: Step) -> Seq<u8> {
    match step {
        Component::RootDir => seq![SEPARATOR],
        Component::CurDir => dot(),
        Component::ParentDir => dot_dot(),
        Component::Normal(name) => name,
    }
}

/// The entry of the root that holds the state directory, where one does.
pub open spec fn state_entry(root: Seq<u8>, state_dir: Seq<u8>) -> Option<Seq<u8>> {
    match without_prefix(components(state_dir), components(root)) {
        Some(steps) => if steps.len() > 0 {
            Some(step_text(steps[0]))
        } else {
            None
        },
        None => None,
    }
}

/// Whether an entry of the root does not count: it holds the state directory,
/// or its name never syncs.
pub open spec fn is_exempt(state: Option<Seq<u8>>, name: Seq<u8>) -> bool {
    state == Some(name) || hardcoded_steps(components(name))
}

/// A listing over sequences.
pub open spec fn entries_view(entries: Seq<Result<Vec<u8>, String>>) -> Seq<Result<Seq<u8>, Seq<char>>> {
    entries.map_values(
        |e: Result<Vec<u8>, String>| match e {
            Ok(name) => Ok::<Seq<u8>, Seq<char>>(name@),
            Err(why) => Err::<Seq<u8>, Seq<char>>(why@),
        },
    )
}

/// The entries that count, behind those in `found`: at most as many as an
/// error names. What breaks the listing off before that many are found is the
/// outcome instead.
pub open spec fn offending(root: Seq<u8>, state: Option<Seq<u8>>, entries: Seq<Result<Seq<u8>, Seq<char>>>, found: Seq<Seq<u8>>) -> Result<Seq<Seq<u8>>, Seq<char>>
    decreases entries.len(),
{
    if entries.len() == 0 {
        Ok(found)
    } else {
        match entries[0] {
            Err(why) => Err(why),
            Ok(name) => if is_exempt(state, name) {
                offending(root, state, entries.drop_first(), found)
            } else if found.len() < POLICY_OFFENDING_LIMIT {
                offending(root, state, entries.drop_first(), found.push(joined(root, name)))
            } else {
                Ok(found)
            },
        }
    }
}

/// Whether a workspace may attach: nothing where it may, and otherwise why it
/// may not.
pub open spec fn attach_fault(root: Seq<u8>, state_dir: Seq<u8>, policy: AttachPolicy, side: AttachSide, listing: Listing) -> Option<WorkspaceFault> {
    if policy == AttachPolicy::InitFromExisting && side == AttachSide::Join {
        Some(WorkspaceFault::Policy(PolicyFault::InitOnJoin))
    } else if policy != AttachPolicy::RequireEmpty {
        None
    } else {
        match listing {
            Listing::Missing => None,
            Listing::Failed(why) => Some(WorkspaceFault::Io(why@)),
            Listing::Entries(entries) => match offending(
                root,
                state_entry(root, state_dir),
                entries_view(entries@),
                Seq::empty(),
            ) {
                Err(why) => Some(WorkspaceFault::Io(why)),
                Ok(found) => if found.len() == 0 {
                    None
                } else {
                    Some(WorkspaceFault::Policy(PolicyFault::DirNotEmpty(root, found)))
                },
            },
        }
    }
}

/// Writes a component.
fn component_text(component: &Component<Vec<u8>>) -> (text: Vec<u8>)
    ensures
        text@ == step_text(crate::path::step_view(*component)),
{
    let mut text: Vec<u8> = Vec::new();
    match component {
        Component::RootDir => {
            text.push(SEPARATOR);
            assert(text@ =~= seq![SEPARATOR]);
        },
        Component::CurDir => {
            text.push(DOT);
            assert(text@ =~= dot());
        },
        Component::ParentDir => {
            text.push(DOT);
            text.push(DOT);
            assert(text@ =~= dot_dot());
        },
        Component::Normal(name) => {
            text = copy_bytes(name.as_slice());
        },
    }
    text
}

/// The entry of the root that holds the state directory, where one does.
fn exempt_entry(root: &FsPath, state_dir: &FsPath) -> (res: Option<Vec<u8>>)
    ensures
        match res {
            Some(name) => state_entry(root@, state_dir@) == Some(name@),
            None => state_entry(root@, state_dir@) is None,
        },
{
    match strip_prefix(state_dir, root) {
        Some(list) => {
            if list.len() == 0 {
                return None;
            }
            assert(steps_view(list@)[0] == crate::path::step_view(list@[0]));
            Some(component_text(&list[0]))
        },
        None => None,
    }
}

/// Whether a workspace may attach to a root with this top level.
pub fn enforce_attach_policy(root: &FsPath, state_dir: &FsPath, policy: AttachPolicy, side: AttachSide, listing: &Listing) -> (res: Result<
    (),
    WorkspaceError,
>)
    ensures
        match res {
            Ok(()) => attach_fault(root@, state_dir@, policy, side, *listing) is None,
            Err(err) => attach_fault(root@, state_dir@, policy, side, *listing) == Some(err@),
        },
{
    if policy == AttachPolicy::InitFromExisting && side == AttachSide::Join {
        return Err(WorkspaceError::Policy(PolicyViolation::InitFromExistingNotMeaningfulOnJoin));
    }
    if policy != AttachPolicy::RequireEmpty {
        return Ok(());
    }
    let entries = match listing {
        Listing::Missing => {
            return Ok(());
        },
        Listing::Failed(why) => {
            return Err(WorkspaceError::Io(why.clone()));
        },
        Listing::Entries(entries) => entries,
    };
    let exempt = exempt_entry(root, state_dir);
    let ghost state = state_entry(root@, state_dir@);
    let ghost all = entries_view(entries@);
    let mut found: Vec<FsPath> = Vec::new();
    let mut i: usize = 0;
    assert(all.skip(0) =~= all);
    assert(paths_view(found@) =~= Seq::empty());
    while i < entries.len()
        invariant_except_break
            i <= entries@.len(),
            all == entries_view(entries@),
            *listing == Listing::Entries(*entries),
            policy == AttachPolicy::RequireEmpty,
            state == state_entry(root@, state_dir@),
            match exempt {
                Some(name) => state == Some(name@),
                None => state is None,
            },
            found@.len() <= POLICY_OFFENDING_LIMIT,
            offending(root@, state, all, Seq::empty()) == offending(
                root@,
                state,
                all.skip(i as int),
                paths_view(found@),
            ),
        ensures
            offending(root@, state, all, Seq::empty()) == Ok::<Seq<Seq<u8>>, Seq<char>>(paths_view(found@)),
        decreases entries@.len() - i,
    {
        let ghost rest = all.skip(i as int);
        assert(rest[0] == all[i as int]);
        assert(rest.drop_first() =~= all.skip(i + 1));
        match &entries[i] {
            Err(why) => {
                return Err(WorkspaceError::Io(why.clone()));
            },
            Ok(name) => {
                let is_state = match &exempt {
                    Some(state_name) => bytes_eq(name.as_slice(), state_name.as_slice()),
                    None => false,
                };
                let as_path = FsPath::from_bytes(copy_bytes(name.as_slice()));
                if !is_state && !WorkspaceFilter::is_hardcoded_skip(&as_path) {
                    if found.len() < POLICY_OFFENDING_LIMIT {
                        let ghost before = paths_view(found@);
                        found.push(root.join(name.as_slice()));
                        assert(paths_view(found@) =~= before.push(joined(root@, name@)));
                    } else {
                        break;
                    }
                }
            },
        }
        i += 1;
    }
    if found.len() == 0 {
        return Ok(());
    }
    Err(
        WorkspaceError::Policy(
            PolicyViolation::DirNotEmpty { root: root.duplicate(), offending_entries: found },
        ),
    )
}

/// Only a policy that asks for an empty root looks at it.
pub proof fn law_other_policies_pass_on_host(root: Seq<u8>, state_dir: Seq<u8>, policy: AttachPolicy, listing: Listing)
    requires
        policy != AttachPolicy::RequireEmpty,
    ensures
        attach_fault(root, state_dir, policy, AttachSide::Host, listing) is None,
        policy == AttachPolicy::AllowExisting ==> attach_fault(root, state_dir, policy, AttachSide::Join, listing) is None,
{
}

/// The entries of a listing that count, in the order of the listing.
pub open spec fn offenders(root: Seq<u8>, state: Option<Seq<u8>>, entries: Seq<Result<Seq<u8>, Seq<char>>>) -> Seq<Seq<u8>>
    decreases entries.len(),
{
    if entries.len() == 0 {
        Seq::empty()
    } else {
        let rest = offenders(root, state, entries.drop_first());
        match entries[0] {
            Ok(name) => if is_exempt(state, name) {
                rest
            } else {
                seq![joined(root, name)] + rest
            },
            Err(_) => rest,
        }
    }
}

/// How many entries an error names of so many that count.
pub open spec fn named_count(n: nat) -> int {
    if n <= POLICY_OFFENDING_LIMIT {
        n as int
    } else {
        POLICY_OFFENDING_LIMIT as int
    }
}

proof fn lemma_offending(root: Seq<u8>, state: Option<Seq<u8>>, entries: Seq<Result<Seq<u8>, Seq<char>>>, found: Seq<Seq<u8>>)
    requires
        found.len() <= POLICY_OFFENDING_LIMIT,
        forall|i: int| 0 <= i < entries.len() ==> (#[trigger] entries[i]) is Ok,
    ensures
        offending(root, state, entries, found) == Ok::<Seq<Seq<u8>>, Seq<char>>(
            (found + offenders(root, state, entries)).take(named_count(found.len() + offenders(root, state, entries).len())),
        ),
    decreases entries.len(),
{
    let all = found + offenders(root, state, entries);
    if entries.len() == 0 {
        assert(all.take(named_count(all.len())) =~= found);
    } else {
        let rest = entries.drop_first();
        assert forall|i: int| 0 <= i < rest.len() implies (#[trigger] rest[i]) is Ok by {
            assert(rest[i] == entries[i + 1]);
        }
        let name = entries[0]->Ok_0;
        assert(entries[0] is Ok);
        if is_exempt(state, name) {
            lemma_offending(root, state, rest, found);
        } else if found.len() < POLICY_OFFENDING_LIMIT {
            lemma_offending(root, state, rest, found.push(joined(root, name)));
            assert(found.push(joined(root, name)) + offenders(root, state, rest) =~= all);
        } else {
            assert(all.take(named_count(all.len())) =~= found);
        }
    }
}

/// The offenders are the entries that count, and no others.
proof fn lemma_offenders(root: Seq<u8>, state: Option<Seq<u8>>, entries: Seq<Result<Seq<u8>, Seq<char>>>)
    ensures
        forall|k: int| 0 <= k < offenders(root, state, entries).len() ==> is_offender(
            root,
            state,
            entries,
            #[trigger] offenders(root, state, entries)[k],
        ),
        offenders(root, state, entries).len() == 0 ==> forall|i: int| 0 <= i < entries.len() && entries[i] is Ok
            ==> is_exempt(state, (#[trigger] entries[i])->Ok_0),
    decreases entries.len(),
{
    if entries.len() > 0 {
        let rest = entries.drop_first();
        let all = offenders(root, state, entries);
        let more = offenders(root, state, rest);
        lemma_offenders(root, state, rest);
        let added = all.len() - more.len();
        assert forall|k: int| 0 <= k < all.len() implies is_offender(root, state, entries, #[trigger] all[k]) by {
            if k < added {
                assert(entries[0] is Ok);
            } else {
                assert(all[k] == more[k - added]);
                let i = choose|i: int| 0 <= i < rest.len() && (#[trigger] rest[i] matches Ok(name) && !is_exempt(state, name)
                    && all[k] == joined(root, name));
                assert(entries[i + 1] == rest[i]);
            }
        }
        if all.len() == 0 {
            assert forall|i: int| 0 <= i < entries.len() && entries[i] is Ok implies is_exempt(
                state,
                (#[trigger] entries[i])->Ok_0,
            ) by {
                if i > 0 {
                    assert(rest[i - 1] == entries[i]);
                }
            }
        }
    }
}

/// Whether a path is that of an entry that counts.
pub open spec fn is_offender(root: Seq<u8>, state: Option<Seq<u8>>, entries: Seq<Result<Seq<u8>, Seq<char>>>, path: Seq<u8>) -> bool {
    exists|i: int| 0 <= i < entries.len() && (#[trigger] entries[i] matches Ok(name) && !is_exempt(state, name) && path == joined(
        root,
        name,
    ))
}

/// Where the listing did not break off, the list is that of the first entries
/// that count, in the order of the listing: all of them, or as many as an
/// error names. Each of them is the path of an entry that counts, and the root
/// passes as empty exactly where no entry does.
pub proof fn law_require_empty(root: Seq<u8>, state: Option<Seq<u8>>, entries: Seq<Result<Seq<u8>, Seq<char>>>)
    requires
        forall|i: int| 0 <= i < entries.len() ==> (#[trigger] entries[i]) is Ok,
    ensures
        offending(root, state, entries, Seq::empty()) is Ok,
        offending(root, state, entries, Seq::empty()) matches Ok(list) ==> {
            let all = offenders(root, state, entries);
            &&& list == all.take(named_count(all.len()))
            &&& list.len() == named_count(all.len())
            &&& forall|k: int| 0 <= k < list.len() ==> is_offender(root, state, entries, #[trigger] list[k])
            &&& list.len() == 0 <==> forall|i: int| 0 <= i < entries.len() ==> is_exempt(state, (#[trigger] entries[i])->Ok_0)
        },
{
    let all = offenders(root, state, entries);
    lemma_offending(root, state, entries, Seq::empty());
    lemma_offenders(root, state, entries);
    assert(Seq::<Seq<u8>>::empty() + all =~= all);
    let list = all.take(named_count(all.len()));
    assert forall|k: int| 0 <= k < list.len() implies is_offender(root, state, entries, #[trigger] list[k]) by {
        assert(list[k] == all[k]);
    }
    if list.len() > 0 {
        assert(is_offender(root, state, entries, list[0]));
    }
}

/// What each policy asks of a root, on either side: to start from what is there
/// is for hosts only, whatever the root holds; to allow what is there asks
/// nothing; to ask for an empty root accepts one that is not there, and refuses
/// one that cannot be listed with what went wrong.
pub proof fn law_what_a_policy_asks(root: Seq<u8>, state_dir: Seq<u8>, side: AttachSide, listing: Listing)
    ensures
        attach_fault(root, state_dir, AttachPolicy::InitFromExisting, AttachSide::Join, listing) == Some(
            WorkspaceFault::Policy(PolicyFault::InitOnJoin),
        ),
        attach_fault(root, state_dir, AttachPolicy::InitFromExisting, AttachSide::Host, listing) is None,
        attach_fault(root, state_dir, AttachPolicy::AllowExisting, side, listing) is None,
        listing is Missing ==> attach_fault(root, state_dir, AttachPolicy::RequireEmpty, side, listing) is None,
        listing matches Listing::Failed(why) ==> attach_fault(root, state_dir, AttachPolicy::RequireEmpty, side, listing)
            == Some(WorkspaceFault::Io(why@)),
{
}

/// A root that has to be empty is accepted, on either side, exactly where each
/// of its entries holds the state directory or has a name that never syncs.
/// Otherwise the error names the root and the first entries that do not, as
/// many as an error names.
pub proof fn law_roots_that_have_to_be_empty(root: Seq<u8>, state_dir: Seq<u8>, side: AttachSide, entries: Vec<Result<Vec<u8>, String>>)
    requires
        forall|i: int| 0 <= i < entries@.len() ==> (#[trigger] entries@[i]) is Ok,
    ensures
        ({
            let state = state_entry(root, state_dir);
            let fault = attach_fault(root, state_dir, AttachPolicy::RequireEmpty, side, Listing::Entries(entries));
            let all = offenders(root, state, entries_view(entries@));
            &&& fault is None <==> forall|i: int|
                0 <= i < entries@.len() ==> is_exempt(state, ((#[trigger] entries@[i])->Ok_0)@)
            &&& fault is Some ==> fault == Some(
                WorkspaceFault::Policy(PolicyFault::DirNotEmpty(root, all.take(named_count(all.len())))),
            )
        }),
{
    let state = state_entry(root, state_dir);
    let seen = entries_view(entries@);
    assert forall|i: int| 0 <= i < seen.len() implies (#[trigger] seen[i]) is Ok && seen[i]->Ok_0 == (entries@[i]->Ok_0)@ by {
        assert(entries@[i] is Ok);
    }
    law_require_empty(root, state, seen);
    let fault = attach_fault(root, state_dir, AttachPolicy::RequireEmpty, side, Listing::Entries(entries));
    if fault is None {
        assert forall|i: int| 0 <= i < entries@.len() implies is_exempt(state, ((#[trigger] entries@[i])->Ok_0)@) by {
            assert(is_exempt(state, seen[i]->Ok_0));
        }
    }
    if forall|i: int| 0 <= i < entries@.len() ==> is_exempt(state, ((#[trigger] entries@[i])->Ok_0)@) {
        assert forall|i: int| 0 <= i < seen.len() implies is_exempt(state, (#[trigger] seen[i])->Ok_0) by {
            assert(is_exempt(state, (entries@[i]->Ok_0)@));
        }
    }
}

/// Each entry that counts is named at its place, as the root with its name
/// behind it, and no other entry is.
pub proof fn law_entries_that_count(root: Seq<u8>, state: Option<Seq<u8>>, entries: Seq<Result<Seq<u8>, Seq<char>>>, name: Seq<u8>)
    ensures
        offenders(root, state, Seq::empty()) == Seq::<Seq<u8>>::empty(),
        is_exempt(state, name) ==> offenders(root, state, seq![Ok(name)] + entries) == offenders(root, state, entries),
        !is_exempt(state, name) ==> offenders(root, state, seq![Ok(name)] + entries) == seq![joined(root, name)]
            + offenders(root, state, entries),
{
    let whole = seq![Ok::<Seq<u8>, Seq<char>>(name)] + entries;
    assert(whole.drop_first() =~= entries);
    assert(whole[0] == Ok::<Seq<u8>, Seq<char>>(name));
}

/// A listing that breaks off is the outcome, with its reason, unless more
/// entries counted before that than an error names.
pub proof fn law_broken_listings(root: Seq<u8>, state: Option<Seq<u8>>, entries: Seq<Result<Seq<u8>, Seq<char>>>, k: int, why: Seq<char>)
    requires
        0 <= k < entries.len(),
        forall|i: int| 0 <= i < k ==> (#[trigger] entries[i]) is Ok,
        entries[k] == Err::<Seq<u8>, Seq<char>>(why),
    ensures
        ({
            let before = offenders(root, state, entries.take(k));
            &&& before.len() <= POLICY_OFFENDING_LIMIT ==> offending(root, state, entries, Seq::empty()) == Err::<
                Seq<Seq<u8>>,
                Seq<char>,
            >(why)
            &&& before.len() > POLICY_OFFENDING_LIMIT ==> offending(root, state, entries, Seq::empty()) == Ok::<
                Seq<Seq<u8>>,
                Seq<char>,
            >(before.take(POLICY_OFFENDING_LIMIT as int))
        }),
{
    lemma_broken(root, state, entries, Seq::empty(), k, why);
    let before = offenders(root, state, entries.take(k));
    assert(Seq::<Seq<u8>>::empty() + before =~= before);
}

proof fn lemma_broken(
    root: Seq<u8>,
    state: Option<Seq<u8>>,
    entries: Seq<Result<Seq<u8>, Seq<char>>>,
    found: Seq<Seq<u8>>,
    k: int,
    why: Seq<char>,
)
    requires
        found.len() <= POLICY_OFFENDING_LIMIT,
        0 <= k < entries.len(),
        forall|i: int| 0 <= i < k ==> (#[trigger] entries[i]) is Ok,
        entries[k] == Err::<Seq<u8>, Seq<char>>(why),
    ensures
        ({
            let all = found + offenders(root, state, entries.take(k));
            &&& all.len() <= POLICY_OFFENDING_LIMIT ==> offending(root, state, entries, found) == Err::<
                Seq<Seq<u8>>,
                Seq<char>,
            >(why)
            &&& all.len() > POLICY_OFFENDING_LIMIT ==> offending(root, state, entries, found) == Ok::<
                Seq<Seq<u8>>,
                Seq<char>,
            >(all.take(POLICY_OFFENDING_LIMIT as int))
        }),
    decreases k,
{
    let head = entries.take(k);
    let all = found + offenders(root, state, head);
    if k == 0 {
        assert(head =~= Seq::empty());
    } else {
        let rest = entries.drop_first();
        assert(head.drop_first() =~= rest.take(k - 1));
        assert(head[0] == entries[0]);
        assert(entries[0] is Ok);
        assert(rest[k - 1] == entries[k]);
        assert forall|i: int| 0 <= i < k - 1 implies (#[trigger] rest[i]) is Ok by {
            assert(rest[i] == entries[i + 1]);
        }
        let name = entries[0]->Ok_0;
        if is_exempt(state, name) {
            lemma_broken(root, state, rest, found, k - 1, why);
        } else if found.len() < POLICY_OFFENDING_LIMIT {
            lemma_broken(root, state, rest, found.push(joined(root, name)), k - 1, why);
            assert(found.push(joined(root, name)) + offenders(root, state, rest.take(k - 1)) =~= all);
        } else {
            assert(all.take(POLICY_OFFENDING_LIMIT as int) =~= found);
        }
    }
}

/// The state directory exempts the entry of the root that it is or lies in, and
/// none where it lies elsewhere or is the root.
pub proof fn law_which_entry_holds_the_state(root: Seq<u8>, state_dir: Seq<u8>, name: Seq<u8>, below: Seq<Step>)
    ensures
        components(state_dir) == components(root).push(Component::Normal(name)) + below ==> state_entry(root, state_dir)
            == Some(name),
        components(state_dir) == components(root).push(Component::ParentDir) + below ==> state_entry(root, state_dir)
            == Some(seq![DOT, DOT]),
        components(state_dir) == components(root) ==> state_entry(root, state_dir) is None,
        !components(root).is_prefix_of(components(state_dir)) ==> state_entry(root, state_dir) is None,
{
    let all = components(state_dir);
    let base = components(root);
    if all == base.push(Component::Normal(name)) + below {
        assert(base =~= all.take(base.len() as int));
        assert(all.skip(base.len() as int)[0] == all[base.len() as int]);
        assert(all[base.len() as int] == Component::Normal(name));
    }
    if all == base.push(Component::ParentDir) + below {
        assert(base =~= all.take(base.len() as int));
        assert(all.skip(base.len() as int)[0] == all[base.len() as int]);
        assert(all[base.len() as int] == Component::<Seq<u8>>::ParentDir);
    }
}

/// An entry with an ordinary name is exempt exactly where it holds the state
/// directory or its name never syncs.
pub proof fn law_what_is_exempt(state: Option<Seq<u8>>, name: Seq<u8>)
    requires
        crate::path::is_plain_name(name),
    ensures
        is_exempt(state, name) <==> state == Some(name) || crate::filter::hardcoded_name(name),
{
    crate::path::lemma_split_single(name, SEPARATOR);
    let segments = seq![name];
    assert(segments.drop_last() =~= Seq::empty());
    assert(crate::path::named_steps(segments.drop_last()) =~= Seq::empty());
    if name[0] == SEPARATOR {
        assert(name.contains(name[0]));
    }
    assert(components(name) =~= seq![Component::Normal(name)]);
    assert(components(name)[0] == Component::Normal(name));
}

/// A root is accepted or refused by its policy, and a refusal says why.
pub proof fn law_enforced_policies(root: &FsPath, state_dir: &FsPath, policy: AttachPolicy, side: AttachSide, listing: &Listing, res: Result<(), WorkspaceError>)
    requires
        call_ensures(enforce_attach_policy, (root, state_dir, policy, side, listing), res),
    ensures
        policy == AttachPolicy::AllowExisting ==> res is Ok,
        policy == AttachPolicy::InitFromExisting ==> (res is Ok <==> side == AttachSide::Host),
        policy == AttachPolicy::RequireEmpty && *listing is Missing ==> res is Ok,
        policy == AttachPolicy::RequireEmpty && *listing is Failed ==> (res matches Err(err) && err@ is Io),
        (policy == AttachPolicy::RequireEmpty && (*listing matches Listing::Entries(entries) && (forall|i: int|
            0 <= i < entries@.len() ==> (#[trigger] entries@[i]) is Ok))) ==> (res is Ok <==> forall|i: int|
            0 <= i < listing->Entries_0@.len() ==> is_exempt(
                state_entry(root@, state_dir@),
                ((#[trigger] listing->Entries_0@[i])->Ok_0)@,
            )),
{
    law_what_a_policy_asks(root@, state_dir@, side, *listing);
    if let Listing::Entries(entries) = listing {
        if policy == AttachPolicy::RequireEmpty && (forall|i: int|
            0 <= i < entries@.len() ==> (#[trigger] entries@[i]) is Ok) {
            law_roots_that_have_to_be_empty(root@, state_dir@, side, *entries);
        }
    }
}

} // verus!
