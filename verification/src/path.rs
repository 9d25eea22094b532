//! File-system paths as byte strings, read the way a Unix system reads them.
//!
//! A path is cut at `/`. Empty segments and `.` name nothing, except a `.`
//! that opens a relative path. What is left is the path's list of components.
use vstd::prelude::*;

use crate::text::{bytes_eq, copy_bytes, lossy_text, push_bytes, to_lossy_text};

verus! {

/// The byte that separates path segments.
pub const SEPARATOR: u8 = 0x2f;

/// The byte that `.` and `..` are made of.
pub const DOT: u8 = 0x2e;

/// One step of a path. `B` is the form of a name: owned bytes in code, a
/// sequence of bytes in contracts.
#[derive(Clone, Debug, PartialEq, Eq)]
pub enum Component<B> {
    /// The `/` that opens an absolute path.
    RootDir,
    /// The `.` that opens a relative path.
    CurDir,
    /// `..`.
    ParentDir,
    /// Any other name.
    Normal(B),
}

/// A component with its name as a sequence of bytes.
pub type Step = Component<Seq<u8>>;

/// The segments of a byte string between the bytes `sep`: one more than there
/// are separators, empty ones included.
pub open spec fn split(bytes: Seq<u8>, sep: u8) -> Seq<Seq<u8>>
    decreases bytes.len(),
{
    if bytes.len() == 0 {
        seq![Seq::empty()]
    } else {
        let before = split(bytes.drop_last(), sep);
        if bytes.last() == sep {
            before.push(Seq::empty())
        } else {
            before.drop_last().push(before.last().push(bytes.last()))
        }
    }
}

/// Segments written one after the other with `sep` between them.
pub open spec fn join_segments<T>(segments: Seq<Seq<T>>, sep: T) -> Seq<T>
    decreases segments.len(),
{
    if segments.len() == 0 {
        Seq::empty()
    } else if segments.len() == 1 {
        segments[0]
    } else {
        join_segments(segments.drop_last(), sep).push(sep) + segments.last()
    }
}

/// `.`
pub open spec fn dot() -> Seq<u8> {
    seq![DOT]
}

/// `..`
pub open spec fn dot_dot() -> Seq<u8> {
    seq![DOT, DOT]
}

/// Whether a segment names something.
pub open spec fn is_name(segment: Seq<u8>) -> bool {
    segment.len() > 0 && segment != dot()
}

/// The component that a naming segment stands for.
pub open spec fn step_of(segment: Seq<u8>) -> Step {
    if segment == dot_dot() {
        Component::ParentDir
    } else {
        Component::Normal(segment)
    }
}

/// The components that a list of segments names, in order.
pub open spec fn named_steps(segments: Seq<Seq<u8>>) -> Seq<Step>
    decreases segments.len(),
{
    if segments.len() == 0 {
        Seq::empty()
    } else {
        let before = named_steps(segments.drop_last());
        if is_name(segments.last()) {
            before.push(step_of(segments.last()))
        } else {
            before
        }
    }
}

/// What a path opens with before its first name: the root, a `.`, or nothing.
pub open spec fn opening(raw: Seq<u8>) -> Seq<Step> {
    if raw.len() > 0 && raw[0] == SEPARATOR {
        seq![Component::RootDir]
    } else if split(raw, SEPARATOR)[0] == dot() {
        seq![Component::CurDir]
    } else {
        Seq::empty()
    }
}

/// The components of a path.
pub open spec fn components(raw: Seq<u8>) -> Seq<Step> {
    opening(raw) + named_steps(split(raw, SEPARATOR))
}

/// The path `raw` with the relative path `more` added behind it.
pub open spec fn joined(raw: Seq<u8>, more: Seq<u8>) -> Seq<u8> {
    if more.len() > 0 && more[0] == SEPARATOR {
        more
    } else if raw.len() > 0 && raw.last() != SEPARATOR {
        raw.push(SEPARATOR) + more
    } else {
        raw + more
    }
}

/// What is left of the components `steps` behind `prefix`, where they begin
/// with it.
pub open spec fn without_prefix(steps: Seq<Step>, prefix: Seq<Step>) -> Option<Seq<Step>> {
    if prefix.is_prefix_of(steps) {
        Some(steps.skip(prefix.len() as int))
    } else {
        None
    }
}

/// The components that lead from `root` to `path`: those behind `root` where
/// `path` lies in it, all of them elsewhere.
pub open spec fn steps_within(root: Seq<u8>, path: Seq<u8>) -> Seq<Step> {
    match without_prefix(components(path), components(root)) {
        Some(steps) => steps,
        None => components(path),
    }
}

/// The specification form of one component.
pub open spec fn step_view(component: Component<Vec<u8>>) -> Step {
    match component {
        Component::RootDir => Component::RootDir,
        Component::CurDir => Component::CurDir,
        Component::ParentDir => Component::ParentDir,
        Component::Normal(name) => Component::Normal(name@),
    }
}

/// The specification form of a list of components.
pub open spec fn steps_view(list: Seq<Component<Vec<u8>>>) -> Seq<Step> {
    list.map_values(|c: Component<Vec<u8>>| step_view(c))
}

// ---------------------------------------------------------------------------
// Facts about splitting and joining

/// There is at least one segment.
pub proof fn lemma_split_nonempty(bytes: Seq<u8>, sep: u8)
    ensures
        split(bytes, sep).len() >= 1,
    decreases bytes.len(),
{
    if bytes.len() > 0 {
        lemma_split_nonempty(bytes.drop_last(), sep);
    }
}

/// No segment holds a separator.
pub proof fn lemma_split_clean(bytes: Seq<u8>, sep: u8)
    ensures
        forall|i: int| 0 <= i < split(bytes, sep).len() ==> !(#[trigger] split(bytes, sep)[i]).contains(sep),
    decreases bytes.len(),
{
    lemma_split_nonempty(bytes, sep);
    if bytes.len() > 0 {
        let head = bytes.drop_last();
        lemma_split_nonempty(head, sep);
        lemma_split_clean(head, sep);
        let before = split(head, sep);
        assert forall|i: int| 0 <= i < split(bytes, sep).len() implies !(#[trigger] split(bytes, sep)[i]).contains(sep) by {
            if bytes.last() == sep {
                if i < before.len() {
                    assert(split(bytes, sep)[i] == before[i]);
                }
            } else if i < before.len() - 1 {
                assert(split(bytes, sep)[i] == before[i]);
            } else {
                let grown = before.last().push(bytes.last());
                assert(split(bytes, sep)[i] == grown);
                assert(before[before.len() - 1] == before.last());
                assert forall|k: int| 0 <= k < grown.len() implies grown[k] != sep by {
                    if k < before.last().len() {
                        assert(before.last().contains(grown[k]));
                    }
                }
            }
        }
    }
}

/// A separator behind `head`, then a clean segment, adds that segment.
pub proof fn lemma_split_append(head: Seq<u8>, tail: Seq<u8>, sep: u8)
    requires
        !tail.contains(sep),
    ensures
        split(head.push(sep) + tail, sep) == split(head, sep).push(tail),
    decreases tail.len(),
{
    let whole = head.push(sep) + tail;
    if tail.len() == 0 {
        assert(whole =~= head.push(sep));
        assert(whole.drop_last() =~= head);
        assert(tail =~= Seq::empty());
    } else {
        let shorter = tail.drop_last();
        assert(!shorter.contains(sep)) by {
            if shorter.contains(sep) {
                let k = shorter.index_of(sep);
                assert(tail[k] == sep);
            }
        }
        lemma_split_append(head, shorter, sep);
        assert(whole.drop_last() =~= head.push(sep) + shorter);
        assert(whole.last() == tail.last());
        assert(tail.contains(tail.last()));
        let before = split(whole.drop_last(), sep);
        assert(before.drop_last() =~= split(head, sep));
        assert(before.last() == shorter);
        assert(shorter.push(tail.last()) =~= tail);
    }
}

/// A byte string without a separator is its own single segment.
pub proof fn lemma_split_single(bytes: Seq<u8>, sep: u8)
    requires
        !bytes.contains(sep),
    ensures
        split(bytes, sep) == seq![bytes],
    decreases bytes.len(),
{
    if bytes.len() == 0 {
        assert(bytes =~= Seq::empty());
    } else {
        let head = bytes.drop_last();
        assert(!head.contains(sep)) by {
            if head.contains(sep) {
                let k = head.index_of(sep);
                assert(bytes[k] == sep);
            }
        }
        lemma_split_single(head, sep);
        assert(bytes.contains(bytes.last()));
        assert(split(head, sep).drop_last() =~= Seq::empty());
        assert(head.push(bytes.last()) =~= bytes);
        assert(split(bytes, sep) =~= seq![bytes]);
    }
}

/// Splitting undoes joining, for segments without separators.
pub proof fn lemma_split_join(segments: Seq<Seq<u8>>, sep: u8)
    requires
        segments.len() >= 1,
        forall|i: int| 0 <= i < segments.len() ==> !(#[trigger] segments[i]).contains(sep),
    ensures
        split(join_segments(segments, sep), sep) == segments,
    decreases segments.len(),
{
    if segments.len() == 1 {
        lemma_split_single(segments[0], sep);
        assert(segments =~= seq![segments[0]]);
    } else {
        let head = segments.drop_last();
        assert forall|i: int| 0 <= i < head.len() implies !(#[trigger] head[i]).contains(sep) by {
            assert(head[i] == segments[i]);
        }
        lemma_split_join(head, sep);
        assert(segments[segments.len() - 1] == segments.last());
        lemma_split_append(join_segments(head, sep), segments.last(), sep);
        assert(head.push(segments.last()) =~= segments);
    }
}

/// The segments of `head`, a separator and `tail` are those of both.
pub proof fn lemma_split_concat(head: Seq<u8>, tail: Seq<u8>, sep: u8)
    ensures
        split(head.push(sep) + tail, sep) == split(head, sep) + split(tail, sep),
    decreases tail.len(),
{
    let whole = head.push(sep) + tail;
    if tail.len() == 0 {
        assert(whole =~= head.push(sep));
        assert(whole.drop_last() =~= head);
        assert(split(head, sep).push(Seq::empty()) =~= split(head, sep) + split(tail, sep));
    } else {
        let shorter = tail.drop_last();
        lemma_split_concat(head, shorter, sep);
        lemma_split_nonempty(shorter, sep);
        assert(whole.drop_last() =~= head.push(sep) + shorter);
        assert(whole.last() == tail.last());
        let a = split(head, sep);
        let b = split(shorter, sep);
        if tail.last() == sep {
            assert((a + b).push(Seq::empty()) =~= a + b.push(Seq::empty()));
        } else {
            assert((a + b).drop_last() =~= a + b.drop_last());
            assert((a + b).last() == b.last());
            assert((a + b.drop_last()).push(b.last().push(tail.last())) =~= a + b.drop_last().push(
                b.last().push(tail.last()),
            ));
        }
    }
}

/// The named components of two lists of segments are those of both.
pub proof fn lemma_named_steps_concat(a: Seq<Seq<u8>>, b: Seq<Seq<u8>>)
    ensures
        named_steps(a + b) == named_steps(a) + named_steps(b),
    decreases b.len(),
{
    if b.len() == 0 {
        assert(a + b =~= a);
        assert(named_steps(a) + named_steps(b) =~= named_steps(a));
    } else {
        lemma_named_steps_concat(a, b.drop_last());
        assert((a + b).drop_last() =~= a + b.drop_last());
        assert((a + b).last() == b.last());
        assert(named_steps(a + b) =~= named_steps(a) + named_steps(b));
    }
}

/// Segments that are all plain names become those names.
pub proof fn lemma_named_steps_plain(segments: Seq<Seq<u8>>)
    requires
        forall|i: int| 0 <= i < segments.len() ==> is_plain_name(#[trigger] segments[i]),
    ensures
        named_steps(segments) == segments.map_values(|s: Seq<u8>| Component::Normal(s)),
    decreases segments.len(),
{
    if segments.len() > 0 {
        let head = segments.drop_last();
        assert forall|i: int| 0 <= i < head.len() implies is_plain_name(#[trigger] head[i]) by {
            assert(head[i] == segments[i]);
        }
        lemma_named_steps_plain(head);
        assert(is_plain_name(segments[segments.len() - 1]));
        assert(segments.map_values(|s: Seq<u8>| Component::Normal(s)) =~= head.map_values(
            |s: Seq<u8>| Component::Normal(s),
        ).push(Component::Normal(segments.last())));
    } else {
        assert(named_steps(segments) =~= segments.map_values(|s: Seq<u8>| Component::Normal(s)));
    }
}

/// Whether a segment is an ordinary file name: it names something, and it is
/// neither `..` nor cut by a separator.
pub open spec fn is_plain_name(segment: Seq<u8>) -> bool {
    is_name(segment) && segment != dot_dot() && !segment.contains(SEPARATOR)
}

/// A named component is `..` or a plain name.
pub proof fn lemma_named_steps_shape(segments: Seq<Seq<u8>>)
    requires
        forall|i: int| 0 <= i < segments.len() ==> !(#[trigger] segments[i]).contains(SEPARATOR),
    ensures
        forall|i: int| 0 <= i < named_steps(segments).len() ==> match #[trigger] named_steps(segments)[i] {
            Component::ParentDir => true,
            Component::Normal(name) => is_plain_name(name),
            _ => false,
        },
    decreases segments.len(),
{
    if segments.len() > 0 {
        let head = segments.drop_last();
        assert forall|i: int| 0 <= i < head.len() implies !(#[trigger] head[i]).contains(SEPARATOR) by {
            assert(head[i] == segments[i]);
        }
        lemma_named_steps_shape(head);
        assert(!segments[segments.len() - 1].contains(SEPARATOR));
        assert forall|i: int| 0 <= i < named_steps(segments).len() implies match #[trigger] named_steps(segments)[i] {
            Component::ParentDir => true,
            Component::Normal(name) => is_plain_name(name),
            _ => false,
        } by {
            if i < named_steps(head).len() {
                assert(named_steps(segments)[i] == named_steps(head)[i]);
            }
        }
    }
}

/// The segments of a path that is joined behind another, where the first one
/// does not end with a separator.
pub proof fn lemma_first_segment(head: Seq<u8>, tail: Seq<u8>, sep: u8)
    ensures
        split(head.push(sep) + tail, sep)[0] == split(head, sep)[0],
{
    lemma_split_concat(head, tail, sep);
    lemma_split_nonempty(head, sep);
}

/// The first segment is empty exactly where the path is empty or begins with
/// a separator.
pub proof fn lemma_first_segment_empty(bytes: Seq<u8>, sep: u8)
    ensures
        split(bytes, sep)[0].len() == 0 <==> (bytes.len() == 0 || bytes[0] == sep),
        bytes.len() > 0 && bytes[0] != sep ==> split(bytes, sep)[0][0] == bytes[0],
    decreases bytes.len(),
{
    lemma_split_nonempty(bytes, sep);
    if bytes.len() > 0 {
        let head = bytes.drop_last();
        lemma_first_segment_empty(head, sep);
        lemma_split_nonempty(head, sep);
        let before = split(head, sep);
        if bytes.last() == sep {
            assert(split(bytes, sep)[0] == before[0]);
        } else if before.len() > 1 {
            assert(split(bytes, sep)[0] == before[0]);
            if head.len() == 0 {
                assert(before =~= seq![Seq::<u8>::empty()]);
            }
        } else {
            assert(split(bytes, sep)[0] == before.last().push(bytes.last()));
            if head.len() == 0 {
                assert(bytes[0] == bytes.last());
            } else if head[0] == sep {
                lemma_split_has_separator(head, sep);
            }
        }
    }
}

/// A byte string with a separator in it has two segments or more.
proof fn lemma_split_has_separator(bytes: Seq<u8>, sep: u8)
    requires
        bytes.contains(sep),
    ensures
        split(bytes, sep).len() >= 2,
    decreases bytes.len(),
{
    let head = bytes.drop_last();
    lemma_split_nonempty(head, sep);
    if bytes.last() != sep {
        let k = bytes.index_of(sep);
        assert(head[k] == sep);
        lemma_split_has_separator(head, sep);
    }
}

/// Joining a relative path behind a path that is not empty adds the names of
/// the relative path to the components.
pub proof fn lemma_components_joined(raw: Seq<u8>, more: Seq<u8>)
    requires
        raw.len() > 0,
        more.len() > 0 ==> more[0] != SEPARATOR,
    ensures
        components(joined(raw, more)) == components(raw) + named_steps(split(more, SEPARATOR)),
{
    let whole = joined(raw, more);
    let head = if raw.last() == SEPARATOR { raw.drop_last() } else { raw };
    assert(whole =~= head.push(SEPARATOR) + more);
    lemma_split_concat(head, more, SEPARATOR);
    lemma_named_steps_concat(split(head, SEPARATOR), split(more, SEPARATOR));
    lemma_first_segment(head, more, SEPARATOR);
    lemma_split_nonempty(head, SEPARATOR);
    if raw.last() == SEPARATOR {
        // The trailing separator of `raw` adds one empty segment only.
        assert(split(raw, SEPARATOR) == split(head, SEPARATOR).push(Seq::empty()));
        assert(split(raw, SEPARATOR).drop_last() =~= split(head, SEPARATOR));
        assert(named_steps(split(raw, SEPARATOR)) == named_steps(split(head, SEPARATOR)));
        assert(split(raw, SEPARATOR)[0] == split(head, SEPARATOR)[0]);
    }
    assert(whole[0] == raw[0]);
    assert(opening(whole) == opening(raw));
    assert(components(whole) =~= components(raw) + named_steps(split(more, SEPARATOR)));
}

// ---------------------------------------------------------------------------
// Executable paths

/// A path: any bytes, most often UTF-8 text.
#[derive(Clone, Debug, PartialEq, Eq, Hash)]
pub struct FsPath {
    /// The bytes of the path as the system has them.
    pub raw: Vec<u8>,
}

impl View for FsPath {
    type V = Seq<u8>;

    open spec fn view(&self) -> Seq<u8> {
        self.raw@
    }
}

impl FsPath {
    /// The path that a text spells.
    pub fn new(text: &str) -> (path: FsPath)
        ensures
            path@ == vstd::utf8::encode_utf8(text@),
    {
        FsPath { raw: copy_bytes(text.as_bytes()) }
    }

    /// The path with these bytes.
    pub fn from_bytes(raw: Vec<u8>) -> (path: FsPath)
        ensures
            path@ == raw@,
    {
        FsPath { raw }
    }

    /// The bytes of the path.
    pub fn as_bytes(&self) -> (bytes: &[u8])
        ensures
            bytes@ == self@,
    {
        self.raw.as_slice()
    }

    /// The path as text for a message.
    pub fn display(&self) -> (text: String)
        ensures
            text@ == lossy_text(self@),
    {
        to_lossy_text(self.raw.as_slice())
    }

    /// This path with `more` behind it, or `more` alone where it is absolute.
    pub fn join(&self, more: &[u8]) -> (path: FsPath)
        ensures
            path@ == joined(self@, more@),
    {
        if more.len() > 0 && more[0] == SEPARATOR {
            return FsPath { raw: copy_bytes(more) };
        }
        let mut raw = copy_bytes(self.raw.as_slice());
        let len: usize = raw.len();
        if len > 0 && raw[len - 1] != SEPARATOR {
            raw.push(SEPARATOR);
        }
        push_bytes(&mut raw, more);
        FsPath { raw }
    }

    /// The components of the path.
    pub fn components(&self) -> (list: Vec<Component<Vec<u8>>>)
        ensures
            steps_view(list@) == components(self@),
    {
        components_of(self.raw.as_slice())
    }
}

/// Whether a component list begins with another one.
fn starts_with(list: &Vec<Component<Vec<u8>>>, prefix: &Vec<Component<Vec<u8>>>) -> (res: bool)
    ensures
        res == steps_view(prefix@).is_prefix_of(steps_view(list@)),
{
    if list.len() < prefix.len() {
        return false;
    }
    let mut i: usize = 0;
    while i < prefix.len()
        invariant
            i <= prefix@.len() <= list@.len(),
            forall|k: int| 0 <= k < i ==> steps_view(list@)[k] == steps_view(prefix@)[k],
        decreases prefix@.len() - i,
    {
        if !same_component(&list[i], &prefix[i]) {
            assert(steps_view(list@)[i as int] != steps_view(prefix@)[i as int]);
            return false;
        }
        i += 1;
    }
    assert(steps_view(prefix@) =~= steps_view(list@).take(prefix@.len() as int));
    true
}

/// Whether two components are the same.
pub fn same_component(a: &Component<Vec<u8>>, b: &Component<Vec<u8>>) -> (res: bool)
    ensures
        res == (step_view(*a) == step_view(*b)),
{
    match (a, b) {
        (Component::RootDir, Component::RootDir) => true,
        (Component::CurDir, Component::CurDir) => true,
        (Component::ParentDir, Component::ParentDir) => true,
        (Component::Normal(x), Component::Normal(y)) => bytes_eq(x.as_slice(), y.as_slice()),
        _ => false,
    }
}

/// The segments of a byte string between separators.
pub fn split_bytes(bytes: &[u8], sep: u8) -> (out: Vec<Vec<u8>>)
    ensures
        out@.map_values(|v: Vec<u8>| v@) == split(bytes@, sep),
{
    let mut out: Vec<Vec<u8>> = Vec::new();
    let mut cur: Vec<u8> = Vec::new();
    let mut i: usize = 0;
    assert(bytes@.take(0) =~= Seq::empty());
    assert(out@.map_values(|v: Vec<u8>| v@).push(cur@) =~= split(bytes@.take(0), sep));
    while i < bytes.len()
        invariant
            i <= bytes@.len(),
            out@.map_values(|v: Vec<u8>| v@).push(cur@) == split(bytes@.take(i as int), sep),
        decreases bytes@.len() - i,
    {
        let ghost before = split(bytes@.take(i as int), sep);
        let ghost done = out@.map_values(|v: Vec<u8>| v@);
        assert(bytes@.take(i + 1).drop_last() =~= bytes@.take(i as int));
        assert(bytes@.take(i + 1).last() == bytes@[i as int]);
        assert(before.drop_last() =~= done);
        assert(before.last() == cur@);
        if bytes[i] == sep {
            let ghost segment = cur@;
            out.push(cur);
            cur = Vec::new();
            assert(out@.map_values(|v: Vec<u8>| v@) =~= done.push(segment));
            assert(done.push(segment) =~= before);
        } else {
            cur.push(bytes[i]);
        }
        i += 1;
        assert(out@.map_values(|v: Vec<u8>| v@).push(cur@) =~= split(bytes@.take(i as int), sep));
    }
    assert(bytes@.take(i as int) =~= bytes@);
    let ghost done = out@.map_values(|v: Vec<u8>| v@);
    let ghost segment = cur@;
    out.push(cur);
    assert(out@.map_values(|v: Vec<u8>| v@) =~= done.push(segment));
    out
}

/// The components of the path with these bytes.
pub fn components_of(raw: &[u8]) -> (list: Vec<Component<Vec<u8>>>)
    ensures
        steps_view(list@) == components(raw@),
{
    let segments = split_bytes(raw, SEPARATOR);
    let ghost all = segments@.map_values(|v: Vec<u8>| v@);
    proof {
        lemma_split_nonempty(raw@, SEPARATOR);
    }
    let mut list: Vec<Component<Vec<u8>>> = Vec::new();
    if raw.len() > 0 && raw[0] == SEPARATOR {
        list.push(Component::RootDir);
    } else if is_dot(&segments[0]) {
        assert(all[0] == segments@[0]@);
        list.push(Component::CurDir);
    }
    assert(all[0] == segments@[0]@);
    assert(steps_view(list@) =~= opening(raw@));
    let mut i: usize = 0;
    while i < segments.len()
        invariant
            i <= segments@.len(),
            all == segments@.map_values(|v: Vec<u8>| v@),
            all == split(raw@, SEPARATOR),
            steps_view(list@) == opening(raw@) + named_steps(all.take(i as int)),
        decreases segments@.len() - i,
    {
        let ghost done = steps_view(list@);
        assert(all.take(i + 1).drop_last() =~= all.take(i as int));
        assert(all.take(i + 1).last() == segments@[i as int]@);
        let segment = &segments[i];
        if segment.len() == 0 || is_dot(segment) {
        } else if is_dot_dot(segment) {
            list.push(Component::ParentDir);
            assert(steps_view(list@) =~= done.push(Component::ParentDir));
        } else {
            list.push(Component::Normal(copy_bytes(segment.as_slice())));
            assert(steps_view(list@) =~= done.push(Component::Normal(segment@)));
        }
        i += 1;
        assert(steps_view(list@) =~= opening(raw@) + named_steps(all.take(i as int)));
    }
    assert(all.take(i as int) =~= all);
    list
}

fn is_dot(segment: &Vec<u8>) -> (res: bool)
    ensures
        res == (segment@ == dot()),
{
    let res = segment.len() == 1 && segment[0] == DOT;
    assert(res ==> segment@ =~= dot());
    res
}

fn is_dot_dot(segment: &Vec<u8>) -> (res: bool)
    ensures
        res == (segment@ == dot_dot()),
{
    let res = segment.len() == 2 && segment[0] == DOT && segment[1] == DOT;
    assert(res ==> segment@ =~= dot_dot());
    res
}

/// What is left of `path` behind `root`, where `path` lies in it.
pub fn strip_prefix(path: &FsPath, root: &FsPath) -> (res: Option<Vec<Component<Vec<u8>>>>)
    ensures
        match res {
            Some(list) => without_prefix(components(path@), components(root@)) == Some(steps_view(list@)),
            None => without_prefix(components(path@), components(root@)) is None,
        },
{
    let mut list = path.components();
    let prefix = root.components();
    if !starts_with(&list, &prefix) {
        return None;
    }
    let ghost all = list@;
    let rest = list.split_off(prefix.len());
    assert(steps_view(rest@) =~= steps_view(all).skip(prefix@.len() as int));
    Some(rest)
}

/// The components that lead from `root` to `path`, or all those of `path`
/// where it lies elsewhere.
pub fn within(path: &FsPath, root: &FsPath) -> (list: Vec<Component<Vec<u8>>>)
    ensures
        steps_view(list@) == steps_within(root@, path@),
{
    match strip_prefix(path, root) {
        Some(list) => list,
        None => path.components(),
    }
}

// ---------------------------------------------------------------------------
// Laws

/// A segment more adds the component that it names, and nothing where it is
/// empty or a `.`.
pub proof fn law_segments_name_components(segments: Seq<Seq<u8>>, segment: Seq<u8>)
    ensures
        named_steps(Seq::empty()) == Seq::<Step>::empty(),
        segment.len() == 0 || segment == seq![DOT] ==> named_steps(segments.push(segment)) == named_steps(segments),
        segment == seq![DOT, DOT] ==> named_steps(segments.push(segment)) == named_steps(segments).push(
            Component::ParentDir,
        ),
        segment.len() > 0 && segment != seq![DOT] && segment != seq![DOT, DOT] ==> named_steps(segments.push(segment))
            == named_steps(segments).push(Component::Normal(segment)),
{
    assert(segments.push(segment).drop_last() =~= segments);
    assert(segments.push(segment).last() == segment);
    if segment == seq![DOT, DOT] {
        assert(segment.len() == 2);
        assert(segment != seq![DOT]) by {
            assert(seq![DOT].len() == 1);
        }
    }
}

/// A path is absolute by its first byte: then its components open with the
/// root. Behind the opening there are names and `..` only.
pub proof fn law_components_open_once(raw: Seq<u8>, i: int)
    requires
        0 <= i < components(raw).len(),
    ensures
        components(raw)[i] is RootDir <==> i == 0 && raw.len() > 0 && raw[0] == SEPARATOR,
        components(raw)[i] is CurDir ==> i == 0,
        components(raw)[i] matches Component::Normal(name) ==> is_plain_name(name),
{
    let named = named_steps(split(raw, SEPARATOR));
    lemma_split_clean(raw, SEPARATOR);
    lemma_named_steps_shape(split(raw, SEPARATOR));
    let n = opening(raw).len() as int;
    if i >= n {
        assert(components(raw)[i] == named[i - n]);
    }
}

/// A separator at the end of a path names nothing.
pub proof fn law_trailing_separators_do_not_matter(raw: Seq<u8>)
    requires
        raw.len() > 0,
    ensures
        components(raw.push(SEPARATOR)) == components(raw),
{
    assert(raw.push(SEPARATOR).drop_last() =~= raw);
    lemma_split_nonempty(raw, SEPARATOR);
    let segments = split(raw, SEPARATOR);
    assert(split(raw.push(SEPARATOR), SEPARATOR) == segments.push(Seq::empty()));
    assert(segments.push(Seq::empty()).drop_last() =~= segments);
    assert(split(raw.push(SEPARATOR), SEPARATOR)[0] == segments[0]);
    assert(raw.push(SEPARATOR)[0] == raw[0]);
    assert(components(raw.push(SEPARATOR)) =~= components(raw));
}

/// What is joined behind a path stands behind it with one separator between
/// them, unless it is absolute: then it stands alone.
pub proof fn law_joining_puts_behind(raw: Seq<u8>, more: Seq<u8>)
    ensures
        more.len() > 0 && more[0] == SEPARATOR ==> joined(raw, more) == more,
        !(more.len() > 0 && more[0] == SEPARATOR) ==> {
            &&& raw.is_prefix_of(joined(raw, more))
            &&& more.is_suffix_of(joined(raw, more))
            &&& raw.len() > 0 && raw.last() != SEPARATOR ==> joined(raw, more) == raw + seq![SEPARATOR] + more
            &&& raw.len() == 0 || raw.last() == SEPARATOR ==> joined(raw, more) == raw + more
        },
{
    let whole = joined(raw, more);
    if !(more.len() > 0 && more[0] == SEPARATOR) {
        assert(whole.subrange(0, raw.len() as int) =~= raw);
        assert(whole.subrange(whole.len() - more.len(), whole.len() as int) =~= more);
        if raw.len() > 0 && raw.last() != SEPARATOR {
            assert(whole =~= raw + seq![SEPARATOR] + more);
        }
    }
}

/// Components lie behind a prefix exactly where they are the prefix and then
/// those that are left; otherwise there is nothing left.
pub proof fn law_prefixes_come_off_whole(steps: Seq<Step>, prefix: Seq<Step>, rest: Seq<Step>)
    ensures
        without_prefix(steps, prefix) == Some(rest) <==> steps == prefix + rest,
        without_prefix(prefix + rest, prefix) == Some(rest),
{
    assert((prefix + rest).skip(prefix.len() as int) =~= rest);
    assert((prefix + rest).take(prefix.len() as int) =~= prefix);
    if without_prefix(steps, prefix) == Some(rest) {
        assert(steps =~= prefix + rest);
    }
}

/// A path in a root is known by what lies behind the root, and a path elsewhere
/// by all of it.
pub proof fn law_paths_are_seen_from_the_root(root: Seq<u8>, path: Seq<u8>, rest: Seq<Step>)
    ensures
        components(path) == components(root) + rest ==> steps_within(root, path) == rest,
        !components(root).is_prefix_of(components(path)) ==> steps_within(root, path) == components(path),
{
    law_prefixes_come_off_whole(components(path), components(root), rest);
}

/// Segments are joined with one separator between two of them, and none before
/// the first or behind the last.
pub proof fn law_joining_adds_segments<T>(segments: Seq<Seq<T>>, segment: Seq<T>, sep: T)
    ensures
        join_segments(Seq::<Seq<T>>::empty(), sep) == Seq::<T>::empty(),
        join_segments(seq![segment], sep) == segment,
        segments.len() > 0 ==> join_segments(segments.push(segment), sep) == join_segments(segments, sep) + seq![sep]
            + segment,
{
    if segments.len() > 0 {
        let longer = segments.push(segment);
        assert(longer.drop_last() =~= segments);
        assert(longer.last() == segment);
        assert(join_segments(segments, sep).push(sep) + segment =~= join_segments(segments, sep) + seq![sep] + segment);
    }
}

/// The components of a path are what it opens with and then what its segments
/// name: an absolute path opens with the root, one whose first segment is `.`
/// with that, and any other path with its first name.
pub proof fn law_components_are_the_named_segments(raw: Seq<u8>)
    ensures
        raw.len() > 0 && raw[0] == SEPARATOR ==> components(raw) == seq![Component::RootDir] + named_steps(
            split(raw, SEPARATOR),
        ),
        !(raw.len() > 0 && raw[0] == SEPARATOR) && split(raw, SEPARATOR)[0] == seq![DOT] ==> components(raw) == seq![
            Component::CurDir,
        ] + named_steps(split(raw, SEPARATOR)),
        !(raw.len() > 0 && raw[0] == SEPARATOR) && split(raw, SEPARATOR)[0] != seq![DOT] ==> components(raw) == named_steps(
            split(raw, SEPARATOR),
        ),
{
    assert(Seq::<Step>::empty() + named_steps(split(raw, SEPARATOR)) =~= named_steps(split(raw, SEPARATOR)));
}

} // verus!
