//! Document keys of workspace files.
//!
//! The key of a file is [`KEY_PREFIX`] and the text form of its path inside
//! the workspace root. A key that would lead out of the root, or to the root
//! itself, has no path.
use vstd::prelude::*;
use vstd::slice::slice_subrange;
use vstd::utf8::{decode_utf8, encode_utf8, is_ascii_chars, valid_utf8};

use crate::error::WorkspaceError;
use crate::path::{
    components, dot_dot, is_name, is_plain_name, join_segments, joined, lemma_components_joined,
    lemma_first_segment_empty, lemma_named_steps_plain, lemma_named_steps_shape, lemma_split_clean, lemma_split_join,
    lemma_split_nonempty, named_steps, split, split_bytes, strip_prefix, without_prefix, Component, FsPath, Step, DOT,
    SEPARATOR,
};
use crate::relative::{
    ascii_names_kept, lemma_encode_join, names_of, names_text, nfc, relative_text, to_names_text, Unnamed,
};
use crate::rules::{has_dot_dot, lemma_names_stop, BACKSLASH};
use crate::text::{has_prefix, lemma_encode_injective, lossy_text, parse_utf8, push_bytes, quote, quoted, utf8_complaint};

verus! {

/// What every key of a workspace file begins with.
pub const KEY_PREFIX: &'static str = "path/";

/// The byte `:`.
pub const COLON: u8 = 0x3a;

/// The bytes of [`KEY_PREFIX`].
pub open spec fn key_prefix() -> Seq<u8> {
    seq![0x70u8, 0x61u8, 0x74u8, 0x68u8, SEPARATOR]
}

/// Whether a byte is an ASCII letter.
pub open spec fn is_letter(byte: u8) -> bool {
    0x41 <= byte <= 0x5a || 0x61 <= byte <= 0x7a
}

/// Whether a text, as bytes, begins like a Windows drive: a letter and a colon.
pub open spec fn drive_prefixed(bytes: Seq<u8>) -> bool {
    bytes.len() >= 2 && is_letter(bytes[0]) && bytes[1] == COLON
}

/// The key of the file `path` in the workspace `root`, or why it has none.
pub open spec fn key_of(root: Seq<u8>, path: Seq<u8>) -> Result<Seq<u8>, Seq<char>> {
    match without_prefix(components(path), components(root)) {
        None => Err("path "@ + lossy_text(path) + " is not inside root "@ + lossy_text(root)),
        Some(steps) => match names_text(steps) {
            Ok(text) => Ok(key_prefix() + encode_utf8(text)),
            Err(Unnamed::NonUtf8) => Err("non-utf8 path component in "@ + lossy_text(path)),
            Err(Unnamed::ParentTraversal) => Err("path "@ + lossy_text(path) + " contains parent traversal"@),
            Err(Unnamed::Absolute) => Err(
                "path "@ + lossy_text(path) + " is not relative after stripping root"@,
            ),
        },
    }
}

/// Whether the part of a key behind the prefix claims to be absolute.
pub open spec fn claims_absolute(rel: Seq<u8>) -> bool {
    (rel.len() > 0 && (rel[0] == SEPARATOR || rel[0] == BACKSLASH)) || drive_prefixed(rel)
}

/// The path of the file with the key `key` in the workspace `root`, or why
/// there is none.
pub open spec fn path_of(root: Seq<u8>, key: Seq<u8>) -> Result<Seq<u8>, Seq<char>> {
    if !key_prefix().is_prefix_of(key) {
        Err("key does not start with "@ + quoted(KEY_PREFIX@))
    } else {
        let rel = key.skip(key_prefix().len() as int);
        let text = decode_utf8(rel);
        if !valid_utf8(rel) {
            Err("key is not valid utf-8: "@ + utf8_complaint(rel))
        } else if claims_absolute(rel) {
            Err("key relative portion "@ + quoted(text) + " is absolute"@)
        } else if split(rel, SEPARATOR).contains(dot_dot()) {
            Err("key "@ + quoted(text) + " contains parent traversal"@)
        } else if named_steps(split(rel, SEPARATOR)).len() == 0 {
            Err("key relative portion "@ + quoted(text) + " names no path under the root"@)
        } else {
            Ok(joined(root, rel))
        }
    }
}

/// The constant and the bytes say the same.
proof fn lemma_prefix_bytes()
    ensures
        encode_utf8(KEY_PREFIX@) == key_prefix(),
{
    reveal_strlit("path/");
    let chars = KEY_PREFIX@;
    assert(chars =~= seq!['p', 'a', 't', 'h', '/']);
    assert(vstd::utf8::is_ascii_chars(chars));
    vstd::utf8::is_ascii_chars_encode_utf8(chars);
    assert(encode_utf8(chars) =~= key_prefix());
}

fn message(a: &str, b: &str, c: &str) -> (text: String)
    ensures
        text@ == a@ + b@ + c@,
{
    let mut text = a.to_owned();
    text.append(b);
    text.append(c);
    text
}

/// The key of the file `abs_path` in the workspace `root`.
pub fn path_to_key(root: &FsPath, abs_path: &FsPath) -> (res: Result<Vec<u8>, WorkspaceError>)
    ensures
        match res {
            Ok(key) => key_of(root@, abs_path@) == Ok::<Seq<u8>, Seq<char>>(key@),
            Err(err) => {
                &&& err@ is InvalidPath
                &&& key_of(root@, abs_path@) == Err::<Seq<u8>, Seq<char>>(err@->InvalidPath_0)
            },
        },
        res is Ok ==> ascii_names_kept(without_prefix(components(abs_path@), components(root@))->Some_0),
{
    let list = match strip_prefix(abs_path, root) {
        Some(list) => list,
        None => {
            let mut text = message("path ", abs_path.display().as_str(), " is not inside root ");
            text.append(root.display().as_str());
            return Err(WorkspaceError::InvalidPath(text));
        },
    };
    match to_names_text(&list) {
        Ok(text) => {
            proof {
                lemma_prefix_bytes();
            }
            let mut key: Vec<u8> = Vec::new();
            push_bytes(&mut key, KEY_PREFIX.as_bytes());
            push_bytes(&mut key, text.as_str().as_bytes());
            assert(key@ =~= key_prefix() + encode_utf8(text@));
            Ok(key)
        },
        Err(Unnamed::NonUtf8) => {
            let mut text = "non-utf8 path component in ".to_owned();
            text.append(abs_path.display().as_str());
            Err(WorkspaceError::InvalidPath(text))
        },
        Err(Unnamed::ParentTraversal) => Err(
            WorkspaceError::InvalidPath(
                message("path ", abs_path.display().as_str(), " contains parent traversal"),
            ),
        ),
        Err(Unnamed::Absolute) => Err(
            WorkspaceError::InvalidPath(
                message("path ", abs_path.display().as_str(), " is not relative after stripping root"),
            ),
        ),
    }
}

/// Whether a text begins like a Windows drive.
pub fn has_windows_drive_prefix(text: &str) -> (res: bool)
    ensures
        res == drive_prefixed(encode_utf8(text@)),
{
    let bytes = text.as_bytes();
    if bytes.len() < 2 {
        return false;
    }
    let first: u8 = bytes[0];
    ((0x41 <= first && first <= 0x5a) || (0x61 <= first && first <= 0x7a)) && bytes[1] == COLON
}

/// Segments name something exactly where one of them does.
proof fn lemma_some_name(segments: Seq<Seq<u8>>)
    ensures
        named_steps(segments).len() > 0 <==> exists|i: int| 0 <= i < segments.len() && is_name(#[trigger] segments[i]),
    decreases segments.len(),
{
    if segments.len() > 0 {
        let head = segments.drop_last();
        lemma_some_name(head);
        if is_name(segments.last()) {
            assert(is_name(segments[segments.len() - 1]));
        } else if exists|i: int| 0 <= i < segments.len() && is_name(#[trigger] segments[i]) {
            let i = choose|i: int| 0 <= i < segments.len() && is_name(#[trigger] segments[i]);
            assert(is_name(head[i]));
        } else if exists|i: int| 0 <= i < head.len() && is_name(#[trigger] head[i]) {
            let i = choose|i: int| 0 <= i < head.len() && is_name(#[trigger] head[i]);
            assert(is_name(segments[i]));
        }
    }
}

/// Whether one of the segments names something.
fn names_something(segments: &Vec<Vec<u8>>) -> (res: bool)
    ensures
        res == (named_steps(segments@.map_values(|v: Vec<u8>| v@)).len() > 0),
{
    let ghost all = segments@.map_values(|v: Vec<u8>| v@);
    proof {
        lemma_some_name(all);
    }
    let mut i: usize = 0;
    while i < segments.len()
        invariant
            i <= segments@.len(),
            all == segments@.map_values(|v: Vec<u8>| v@),
            forall|k: int| 0 <= k < i ==> !is_name(#[trigger] all[k]),
        decreases segments@.len() - i,
    {
        let segment = &segments[i];
        assert(all[i as int] == segment@);
        let is_dot = segment.len() == 1 && segment[0] == DOT;
        assert(is_dot == (segment@ =~= crate::path::dot()));
        if segment.len() > 0 && !is_dot {
            assert(is_name(all[i as int]));
            proof {
                lemma_some_name(all);
            }
            return true;
        }
        i += 1;
    }
    proof {
        lemma_some_name(all);
    }
    false
}

/// The path of the file with the key `key` in the workspace `root`.
pub fn key_to_path(root: &FsPath, key: &[u8]) -> (res: Result<FsPath, WorkspaceError>)
    ensures
        match res {
            Ok(path) => path_of(root@, key@) == Ok::<Seq<u8>, Seq<char>>(path@),
            Err(err) => {
                &&& err@ is InvalidPath
                &&& path_of(root@, key@) == Err::<Seq<u8>, Seq<char>>(err@->InvalidPath_0)
            },
        },
{
    proof {
        lemma_prefix_bytes();
    }
    let prefix = KEY_PREFIX.as_bytes();
    if !has_prefix(key, prefix) {
        let mut text = "key does not start with ".to_owned();
        text.append(quote(KEY_PREFIX).as_str());
        return Err(WorkspaceError::InvalidPath(text));
    }
    let rel = slice_subrange(key, prefix.len(), key.len());
    assert(rel@ =~= key@.skip(key_prefix().len() as int));
    let text = match parse_utf8(rel) {
        Ok(text) => text,
        Err(why) => {
            let mut text = "key is not valid utf-8: ".to_owned();
            text.append(why.as_str());
            return Err(WorkspaceError::InvalidPath(text));
        },
    };
    proof {
        vstd::utf8::encode_utf8_decode_utf8(text@);
    }
    if (rel.len() > 0 && (rel[0] == SEPARATOR || rel[0] == BACKSLASH)) || has_windows_drive_prefix(
        text.as_str(),
    ) {
        return Err(
            WorkspaceError::InvalidPath(
                message("key relative portion ", quote(text.as_str()).as_str(), " is absolute"),
            ),
        );
    }
    let segments = split_bytes(rel, SEPARATOR);
    if has_dot_dot(&segments) {
        return Err(
            WorkspaceError::InvalidPath(
                message("key ", quote(text.as_str()).as_str(), " contains parent traversal"),
            ),
        );
    }
    if !names_something(&segments) {
        return Err(
            WorkspaceError::InvalidPath(
                message(
                    "key relative portion ",
                    quote(text.as_str()).as_str(),
                    " names no path under the root",
                ),
            ),
        );
    }
    Ok(root.join(rel))
}

// ---------------------------------------------------------------------------
// Laws

/// The names that a path has behind the root, as file names.
pub open spec fn file_names(steps: Seq<Step>) -> Seq<Seq<u8>> {
    match names_of(steps) {
        Ok(names) => names.map_values(|n: Seq<char>| encode_utf8(n)),
        Err(_) => Seq::empty(),
    }
}

/// The components of a path that is joined behind an empty one are its own.
proof fn lemma_components_behind_nothing(rel: Seq<u8>)
    requires
        rel.len() > 0 ==> rel[0] != SEPARATOR,
    ensures
        joined(Seq::empty(), rel) == rel,
        components(Seq::empty()) == Seq::<Step>::empty(),
        components(rel) == (if split(rel, SEPARATOR)[0] == crate::path::dot() {
            seq![Component::CurDir] + named_steps(split(rel, SEPARATOR))
        } else {
            named_steps(split(rel, SEPARATOR))
        }),
{
    let nothing = Seq::<u8>::empty();
    assert(joined(nothing, rel) =~= rel);
    let segments = split(nothing, SEPARATOR);
    assert(segments =~= seq![Seq::<u8>::empty()]);
    assert(named_steps(segments.drop_last()) =~= Seq::empty());
    assert(segments[0].len() == 0);
    assert(components(nothing) =~= Seq::<Step>::empty());
    assert(Seq::<Step>::empty() + named_steps(split(rel, SEPARATOR)) =~= named_steps(split(rel, SEPARATOR)));
}

/// A key with a path leads to a place below the root: the path's components
/// are the root's and at least one more, and none of those is `..` or the root
/// of the file system. Behind a root that is not empty they are all names.
pub proof fn law_key_stays_in_root(root: Seq<u8>, key: Seq<u8>, path: Seq<u8>)
    requires
        path_of(root, key) == Ok::<Seq<u8>, Seq<char>>(path),
    ensures
        components(root).is_prefix_of(components(path)),
        components(path).len() > components(root).len(),
        forall|i: int| components(root).len() <= i < components(path).len() ==> match #[trigger] components(path)[i] {
            Component::Normal(_) => true,
            Component::CurDir => root.len() == 0,
            _ => false,
        },
{
    let rel = key.skip(key_prefix().len() as int);
    let segments = split(rel, SEPARATOR);
    lemma_split_clean(rel, SEPARATOR);
    lemma_no_parent(segments);
    let more = named_steps(segments);
    if root.len() > 0 {
        lemma_components_joined(root, rel);
        assert(components(path) == components(root) + more);
    } else {
        assert(root =~= Seq::empty());
        lemma_components_behind_nothing(rel);
    }
    assert(components(root) =~= components(path).take(components(root).len() as int));
    assert forall|i: int| components(root).len() <= i < components(path).len() implies match #[trigger] components(path)[i] {
        Component::Normal(_) => true,
        Component::CurDir => root.len() == 0,
        _ => false,
    } by {
        let k = i - (components(path).len() - more.len());
        if k >= 0 {
            assert(components(path)[i] == more[k]);
        }
    }
}

/// Segments without `..` name no parent.
proof fn lemma_no_parent(segments: Seq<Seq<u8>>)
    requires
        !segments.contains(dot_dot()),
    ensures
        forall|i: int| 0 <= i < named_steps(segments).len() ==> (#[trigger] named_steps(segments)[i]) is Normal,
    decreases segments.len(),
{
    if segments.len() > 0 {
        let head = segments.drop_last();
        assert(!head.contains(dot_dot())) by {
            if head.contains(dot_dot()) {
                let k = head.index_of(dot_dot());
                assert(segments[k] == dot_dot());
            }
        }
        lemma_no_parent(head);
        assert(segments[segments.len() - 1] != dot_dot());
        assert forall|i: int| 0 <= i < named_steps(segments).len() implies (#[trigger] named_steps(segments)[i]) is Normal by {
            if i < named_steps(head).len() {
                assert(named_steps(segments)[i] == named_steps(head)[i]);
            }
        }
    }
}

/// A file's key leads back to the file, under its normalised names: where
/// `path` in `root` has a key, and its names after normalisation are file
/// names of which the first does not look absolute, the key has a path, whose
/// components are those of the root and then those names.
pub proof fn law_key_round_trip(root: Seq<u8>, path: Seq<u8>, steps: Seq<Step>, key: Seq<u8>)
    requires
        key_of(root, path) == Ok::<Seq<u8>, Seq<char>>(key),
        without_prefix(components(path), components(root)) == Some(steps),
        file_names(steps).len() > 0,
        forall|i: int| 0 <= i < file_names(steps).len() ==> is_plain_name(#[trigger] file_names(steps)[i]),
        !claims_absolute(join_segments(file_names(steps), SEPARATOR)),
    ensures
        path_of(root, key) is Ok,
        path_of(root, key) matches Ok(back) ==> components(back) == components(root) + file_names(steps).map_values(
            |n: Seq<u8>| Component::Normal(n),
        ),
{
    let names = names_of(steps)->Ok_0;
    let segments = file_names(steps);
    let rel = join_segments(segments, SEPARATOR);
    lemma_encode_join(names);
    let text = join_segments(names, '/');
    assert(encode_utf8(text) == rel);
    assert(key =~= key_prefix() + rel);
    assert(key_prefix().is_prefix_of(key)) by {
        assert(key.take(key_prefix().len() as int) =~= key_prefix());
    }
    assert(key.skip(key_prefix().len() as int) =~= rel);
    vstd::utf8::encode_utf8_valid_utf8(text);
    lemma_split_join(segments, SEPARATOR);
    assert(split(rel, SEPARATOR) == segments);
    assert(!segments.contains(dot_dot())) by {
        if segments.contains(dot_dot()) {
            let k = segments.index_of(dot_dot());
            assert(is_plain_name(segments[k]));
        }
    }
    lemma_named_steps_plain(segments);
    lemma_components_under(root, rel);
}

/// The components of a path whose segments are file names, behind any root.
proof fn lemma_components_under(root: Seq<u8>, rel: Seq<u8>)
    requires
        rel.len() > 0 ==> rel[0] != SEPARATOR,
        is_plain_name(split(rel, SEPARATOR)[0]),
    ensures
        components(joined(root, rel)) == components(root) + named_steps(split(rel, SEPARATOR)),
{
    if root.len() > 0 {
        lemma_components_joined(root, rel);
    } else {
        assert(root =~= Seq::empty());
        lemma_components_behind_nothing(rel);
        assert(Seq::<Step>::empty() + named_steps(split(rel, SEPARATOR)) =~= named_steps(split(rel, SEPARATOR)));
    }
}

/// Whether every name among the components is in normal form already.
pub open spec fn all_normalised(steps: Seq<Step>) -> bool {
    forall|i: int| 0 <= i < steps.len() ==> match #[trigger] steps[i] {
        Component::Normal(name) => valid_utf8(name) && nfc(decode_utf8(name)) == decode_utf8(name),
        _ => true,
    }
}

/// The components behind a root are `..` and file names, where neither a `.`
/// nor the root of the file system opens them.
proof fn lemma_steps_behind_root(root: Seq<u8>, path: Seq<u8>, steps: Seq<Step>)
    requires
        without_prefix(components(path), components(root)) == Some(steps),
        root.len() > 0 || !steps.contains(Component::CurDir),
        !steps.contains(Component::RootDir),
    ensures
        components(path) == components(root) + steps,
        forall|i: int| 0 <= i < steps.len() ==> match #[trigger] steps[i] {
            Component::ParentDir => true,
            Component::Normal(name) => is_plain_name(name),
            _ => false,
        },
{
    let all = components(path);
    let base = components(root);
    assert(all =~= base + steps);
    lemma_split_nonempty(root, SEPARATOR);
    lemma_first_segment_empty(root, SEPARATOR);
    let first = split(root, SEPARATOR)[0];
    assert(root.len() > 0 ==> base.len() >= 1) by {
        if root.len() > 0 && root[0] != SEPARATOR && first != crate::path::dot() {
            assert(is_name(first));
            lemma_some_name(split(root, SEPARATOR));
        }
    }
    if root.len() == 0 {
        assert(root =~= Seq::empty());
        lemma_components_behind_nothing(root);
    }
    let opening = crate::path::opening(path);
    let named = named_steps(split(path, SEPARATOR));
    lemma_split_clean(path, SEPARATOR);
    lemma_named_steps_shape(split(path, SEPARATOR));
    assert forall|i: int| 0 <= i < steps.len() implies match #[trigger] steps[i] {
        Component::ParentDir => true,
        Component::Normal(name) => is_plain_name(name),
        _ => false,
    } by {
        let j = i + base.len();
        assert(steps[i] == all[j]);
        assert(opening.len() <= 1);
        assert(steps.contains(steps[i]));
        if j >= opening.len() {
            assert(all[j] == named[j - opening.len()]);
        }
    }
}

/// Normalised names are kept as they are.
proof fn lemma_names_kept(steps: Seq<Step>)
    requires
        all_normalised(steps),
        names_of(steps) is Ok,
        forall|i: int| 0 <= i < steps.len() ==> match #[trigger] steps[i] {
            Component::ParentDir => true,
            Component::Normal(name) => is_plain_name(name),
            _ => false,
        },
    ensures
        file_names(steps).map_values(|n: Seq<u8>| Component::Normal(n)) == steps,
        forall|i: int| 0 <= i < file_names(steps).len() ==> is_plain_name(#[trigger] file_names(steps)[i]),
    decreases steps.len(),
{
    if steps.len() == 0 {
        assert(file_names(steps).map_values(|n: Seq<u8>| Component::Normal(n)) =~= steps);
    } else {
        let head = steps.drop_last();
        assert forall|i: int| 0 <= i < head.len() implies #[trigger] head[i] == steps[i] by {}
        assert(all_normalised(head)) by {
            assert forall|i: int| 0 <= i < head.len() implies match #[trigger] head[i] {
                Component::Normal(name) => valid_utf8(name) && nfc(decode_utf8(name)) == decode_utf8(name),
                _ => true,
            } by {
                assert(head[i] == steps[i]);
            }
        }
        assert(names_of(head) is Ok);
        lemma_names_kept(head);
        let last = steps[steps.len() - 1];
        assert(last == steps.last());
        let name = last->Normal_0;
        vstd::utf8::decode_utf8_encode_utf8(name);
        assert(file_names(steps) =~= file_names(head).push(name));
        assert(file_names(steps).map_values(|n: Seq<u8>| Component::Normal(n)) =~= file_names(head).map_values(
            |n: Seq<u8>| Component::Normal(n),
        ).push(last));
        assert(head.push(last) =~= steps);
        assert forall|i: int| 0 <= i < file_names(steps).len() implies is_plain_name(#[trigger] file_names(steps)[i]) by {
            if i < file_names(head).len() {
                assert(file_names(steps)[i] == file_names(head)[i]);
            }
        }
    }
}

/// A file below the root whose names are in normal form is found again under
/// its key, by a path with the same components. Behind an empty root the path
/// must not open with a `.`, which no key keeps.
pub proof fn law_normalised_key_round_trip(root: Seq<u8>, path: Seq<u8>, steps: Seq<Step>, key: Seq<u8>)
    requires
        root.len() > 0 || !steps.contains(Component::CurDir),
        key_of(root, path) == Ok::<Seq<u8>, Seq<char>>(key),
        without_prefix(components(path), components(root)) == Some(steps),
        steps.len() > 0,
        all_normalised(steps),
        !claims_absolute(join_segments(file_names(steps), SEPARATOR)),
    ensures
        path_of(root, key) is Ok,
        path_of(root, key) matches Ok(back) ==> components(back) == components(path),
{
    if steps.contains(Component::RootDir) {
        lemma_names_stop(steps, steps.index_of(Component::RootDir));
    }
    lemma_steps_behind_root(root, path, steps);
    lemma_names_kept(steps);
    law_key_round_trip(root, path, steps, key);
}

/// Paths whose names agree after normalisation have one key.
pub proof fn law_normal_forms_share_a_key(root: Seq<u8>, a: Seq<u8>, b: Seq<u8>, a_steps: Seq<Step>, b_steps: Seq<Step>)
    requires
        without_prefix(components(a), components(root)) == Some(a_steps),
        without_prefix(components(b), components(root)) == Some(b_steps),
        names_of(a_steps) is Ok,
        names_of(a_steps) == names_of(b_steps),
    ensures
        key_of(root, a) is Ok,
        key_of(root, a) == key_of(root, b),
{
}

/// Joining undoes splitting.
proof fn lemma_join_split(bytes: Seq<u8>, sep: u8)
    ensures
        join_segments(split(bytes, sep), sep) == bytes,
    decreases bytes.len(),
{
    lemma_split_nonempty(bytes, sep);
    if bytes.len() == 0 {
        assert(join_segments(split(bytes, sep), sep) =~= bytes);
    } else {
        let before = split(bytes.drop_last(), sep);
        lemma_join_split(bytes.drop_last(), sep);
        lemma_split_nonempty(bytes.drop_last(), sep);
        if bytes.last() == sep {
            assert(before.push(Seq::empty()).drop_last() =~= before);
            assert(join_segments(split(bytes, sep), sep) =~= bytes);
        } else {
            let grown = before.last().push(bytes.last());
            let after = before.drop_last().push(grown);
            assert(after.drop_last() =~= before.drop_last());
            if before.len() == 1 {
                assert(before.last() == before[0]);
                assert(after[0] == grown);
            }
            assert(join_segments(after, sep) =~= join_segments(before, sep).push(bytes.last()));
            assert(join_segments(after, sep) =~= bytes);
        }
    }
}

/// Names that are texts have a text form.
proof fn lemma_names_ok(steps: Seq<Step>)
    requires
        all_normalised(steps),
        forall|i: int| 0 <= i < steps.len() ==> (#[trigger] steps[i]) is Normal,
    ensures
        names_of(steps) is Ok,
    decreases steps.len(),
{
    if steps.len() > 0 {
        let head = steps.drop_last();
        assert forall|i: int| 0 <= i < head.len() implies #[trigger] head[i] == steps[i] by {}
        assert(all_normalised(head)) by {
            assert forall|i: int| 0 <= i < head.len() implies match #[trigger] head[i] {
                Component::Normal(name) => valid_utf8(name) && nfc(decode_utf8(name)) == decode_utf8(name),
                _ => true,
            } by {
                assert(head[i] == steps[i]);
            }
        }
        lemma_names_ok(head);
        assert(steps[steps.len() - 1] == steps.last());
    }
}

/// Whether a key is written the way keys are made: behind the prefix stand
/// file names in normal form, with one separator between two of them.
pub open spec fn is_canonical(key: Seq<u8>) -> bool {
    let segments = split(key.skip(key_prefix().len() as int), SEPARATOR);
    &&& forall|i: int| 0 <= i < segments.len() ==> is_plain_name(#[trigger] segments[i])
    &&& all_normalised(segments.map_values(|s: Seq<u8>| Component::Normal(s)))
}

/// A canonical key leads to a path whose key is that key.
pub proof fn law_canonical_key_round_trip(root: Seq<u8>, key: Seq<u8>, path: Seq<u8>)
    requires
        path_of(root, key) == Ok::<Seq<u8>, Seq<char>>(path),
        is_canonical(key),
    ensures
        key_of(root, path) == Ok::<Seq<u8>, Seq<char>>(key),
{
    let rel = key.skip(key_prefix().len() as int);
    let segments = split(rel, SEPARATOR);
    let steps = segments.map_values(|s: Seq<u8>| Component::Normal(s));
    lemma_split_nonempty(rel, SEPARATOR);
    assert(is_plain_name(segments[0]));
    lemma_named_steps_plain(segments);
    lemma_components_under(root, rel);
    assert(components(root) =~= components(path).take(components(root).len() as int));
    assert(components(path).skip(components(root).len() as int) =~= steps);
    assert forall|i: int| 0 <= i < steps.len() implies match #[trigger] steps[i] {
        Component::ParentDir => true,
        Component::Normal(name) => is_plain_name(name),
        _ => false,
    } by {
        assert(is_plain_name(segments[i]));
    }
    lemma_names_ok(steps);
    lemma_names_kept(steps);
    let names = names_of(steps)->Ok_0;
    assert(file_names(steps) =~= segments) by {
        let back = file_names(steps).map_values(|n: Seq<u8>| Component::Normal(n));
        assert(back == steps);
        assert(file_names(steps).len() == back.len());
        assert forall|i: int| 0 <= i < segments.len() implies file_names(steps)[i] == #[trigger] segments[i] by {
            assert(back[i] == steps[i]);
        }
    }
    lemma_encode_join(names);
    lemma_join_split(rel, SEPARATOR);
    assert(key_prefix() + rel =~= key);
}

/// The key of a file whose names are in normal form is the prefix and these
/// names, with one separator between two of them.
pub proof fn law_normalised_names_make_the_key(root: Seq<u8>, path: Seq<u8>, names: Seq<Seq<u8>>)
    requires
        without_prefix(components(path), components(root)) == Some(names.map_values(|n: Seq<u8>| Component::Normal(n))),
        all_normalised(names.map_values(|n: Seq<u8>| Component::Normal(n))),
    ensures
        key_of(root, path) == Ok::<Seq<u8>, Seq<char>>(key_prefix() + join_segments(names, SEPARATOR)),
{
    let steps = names.map_values(|n: Seq<u8>| Component::Normal(n));
    lemma_steps_behind_root(root, path, steps);
    lemma_names_ok(steps);
    lemma_names_kept(steps);
    let back = file_names(steps).map_values(|n: Seq<u8>| Component::Normal(n));
    assert(file_names(steps).len() == back.len());
    assert forall|i: int| 0 <= i < names.len() implies file_names(steps)[i] == #[trigger] names[i] by {
        assert(back[i] == steps[i]);
    }
    assert(file_names(steps) =~= names);
    lemma_encode_join(names_of(steps)->Ok_0);
}

/// So is that of a file whose names are ASCII: each is its own normal form, as
/// asking for the key shows.
pub proof fn law_ascii_names_make_the_key(root: Seq<u8>, path: Seq<u8>, names: Seq<Seq<u8>>)
    requires
        without_prefix(components(path), components(root)) == Some(names.map_values(|n: Seq<u8>| Component::Normal(n))),
        ascii_names_kept(names.map_values(|n: Seq<u8>| Component::Normal(n))),
        forall|i: int| 0 <= i < names.len() ==> valid_utf8(#[trigger] names[i]) && is_ascii_chars(decode_utf8(names[i])),
    ensures
        key_of(root, path) == Ok::<Seq<u8>, Seq<char>>(key_prefix() + join_segments(names, SEPARATOR)),
{
    let steps = names.map_values(|n: Seq<u8>| Component::Normal(n));
    assert forall|i: int| 0 <= i < steps.len() implies match #[trigger] steps[i] {
        Component::Normal(name) => valid_utf8(name) && nfc(decode_utf8(name)) == decode_utf8(name),
        _ => true,
    } by {
        assert(steps[i] == Component::Normal(names[i]));
    }
    law_normalised_names_make_the_key(root, path, names);
}

/// Globs and keys speak of one text: where a path in the root has a text that
/// globs are held against, its key is the prefix and that text, and where it
/// has none it has no key either.
pub proof fn law_key_holds_the_match_text(root: Seq<u8>, path: Seq<u8>, rel: Seq<u8>)
    requires
        without_prefix(components(path), components(root)) == Some(components(rel)),
    ensures
        match relative_text(components(rel)) {
            Some(text) => key_of(root, path) == Ok::<Seq<u8>, Seq<char>>(key_prefix() + encode_utf8(text)),
            None => key_of(root, path) is Err,
        },
{
}

/// A `.` that opens a list of components adds no name.
proof fn lemma_names_behind_dot(steps: Seq<Step>)
    ensures
        names_of(seq![Component::CurDir] + steps) == names_of(steps),
    decreases steps.len(),
{
    let whole = seq![Component::CurDir] + steps;
    if steps.len() == 0 {
        assert(whole.drop_last() =~= Seq::<Step>::empty());
        assert(names_of(whole.drop_last()) == Ok::<Seq<Seq<char>>, Unnamed>(Seq::empty()));
        assert(whole.last() == Component::<Seq<u8>>::CurDir);
    } else {
        assert(whole.drop_last() =~= seq![Component::CurDir] + steps.drop_last());
        assert(whole.last() == steps.last());
        lemma_names_behind_dot(steps.drop_last());
    }
}

/// What a rule or an exclude glob is held against is exactly what is published
/// behind the prefix: a relative path has the match text `text` exactly where
/// the file at that path in the root has the key of the prefix and `text`, and
/// it has no match text exactly where that file has no key.
pub proof fn law_match_text_is_what_is_published(root: Seq<u8>, rel: Seq<u8>, text: Seq<char>)
    requires
        root.len() > 0,
        rel.len() > 0 ==> rel[0] != SEPARATOR,
    ensures
        relative_text(components(rel)) == Some(text) <==> key_of(root, joined(root, rel)) == Ok::<Seq<u8>, Seq<char>>(
            key_prefix() + encode_utf8(text),
        ),
        relative_text(components(rel)) is None <==> key_of(root, joined(root, rel)) is Err,
{
    let steps = named_steps(split(rel, SEPARATOR));
    let path = joined(root, rel);
    lemma_components_joined(root, rel);
    lemma_components_behind_nothing(rel);
    lemma_names_behind_dot(steps);
    assert(components(root) =~= components(path).take(components(root).len() as int));
    assert(components(path).skip(components(root).len() as int) =~= steps);
    assert(names_of(components(rel)) == names_of(steps));
    if let Ok(found) = names_text(steps) {
        let key = key_prefix() + encode_utf8(found);
        let asked = key_prefix() + encode_utf8(text);
        if key == asked {
            assert(key.skip(key_prefix().len() as int) =~= encode_utf8(found));
            assert(asked.skip(key_prefix().len() as int) =~= encode_utf8(text));
            lemma_encode_injective(found, text);
        }
    }
}

/// A file has a key exactly where it lies in the root and each component behind
/// the root is a `.` or a name that is UTF-8.
pub proof fn law_what_has_a_key(root: Seq<u8>, path: Seq<u8>)
    ensures
        key_of(root, path) is Ok <==> components(root).is_prefix_of(components(path)) && forall|i: int|
            components(root).len() <= i < components(path).len() ==> match #[trigger] components(path)[i] {
                Component::Normal(name) => valid_utf8(name),
                Component::CurDir => true,
                _ => false,
            },
{
    if components(root).is_prefix_of(components(path)) {
        let all = components(path);
        let n = components(root).len() as int;
        let steps = all.skip(n);
        crate::relative::law_what_has_a_text_form(steps);
        if relative_text(steps) is Some {
            assert forall|i: int| n <= i < all.len() implies match #[trigger] all[i] {
                Component::Normal(name) => valid_utf8(name),
                Component::CurDir => true,
                _ => false,
            } by {
                assert(steps[i - n] == all[i]);
            }
        }
        if forall|i: int| n <= i < all.len() ==> match #[trigger] all[i] {
            Component::Normal(name) => valid_utf8(name),
            Component::CurDir => true,
            _ => false,
        } {
            assert forall|i: int| 0 <= i < steps.len() implies match #[trigger] steps[i] {
                Component::Normal(name) => valid_utf8(name),
                Component::CurDir => true,
                _ => false,
            } by {
                assert(steps[i] == all[i + n]);
            }
        }
    }
}

/// A key has a path exactly where it begins with the prefix and what follows is
/// UTF-8, does not claim to start at a root or at a drive, has no `..` segment
/// and has a segment that names something. The path is then the root with that
/// text behind it.
pub proof fn law_what_has_a_path(root: Seq<u8>, key: Seq<u8>)
    ensures
        ({
            let rel = key.skip(key_prefix().len() as int);
            let segments = split(rel, SEPARATOR);
            &&& path_of(root, key) is Ok <==> {
                &&& key_prefix().is_prefix_of(key)
                &&& valid_utf8(rel)
                &&& !(rel.len() > 0 && (rel[0] == SEPARATOR || rel[0] == BACKSLASH))
                &&& !(rel.len() >= 2 && is_letter(rel[0]) && rel[1] == COLON)
                &&& !segments.contains(dot_dot())
                &&& exists|i: int|
                    0 <= i < segments.len() && (#[trigger] segments[i]).len() > 0 && segments[i] != seq![DOT]
            }
            &&& path_of(root, key) matches Ok(path) ==> path == joined(root, rel)
        }),
{
    let rel = key.skip(key_prefix().len() as int);
    let segments = split(rel, SEPARATOR);
    lemma_some_name(segments);
    if exists|i: int| 0 <= i < segments.len() && is_name(#[trigger] segments[i]) {
        let i = choose|i: int| 0 <= i < segments.len() && is_name(#[trigger] segments[i]);
        assert(segments[i].len() > 0 && segments[i] != seq![DOT]);
    }
    if exists|i: int| 0 <= i < segments.len() && (#[trigger] segments[i]).len() > 0 && segments[i] != seq![DOT] {
        let i = choose|i: int| 0 <= i < segments.len() && (#[trigger] segments[i]).len() > 0 && segments[i] != seq![DOT];
        assert(is_name(segments[i]));
    }
}

/// Two files in one root have the same key exactly where their names agree
/// after normalisation and joining.
pub proof fn law_keys_tell_files_apart(root: Seq<u8>, a: Seq<Step>, b: Seq<Step>, x: Seq<u8>, y: Seq<u8>)
    requires
        without_prefix(components(x), components(root)) == Some(a),
        without_prefix(components(y), components(root)) == Some(b),
        names_text(a) is Ok,
        names_text(b) is Ok,
    ensures
        key_of(root, x) == key_of(root, y) <==> names_text(a) == names_text(b),
{
    let s = names_text(a)->Ok_0;
    let t = names_text(b)->Ok_0;
    if key_of(root, x) == key_of(root, y) {
        assert((key_prefix() + encode_utf8(s)).skip(key_prefix().len() as int) =~= encode_utf8(s));
        assert((key_prefix() + encode_utf8(t)).skip(key_prefix().len() as int) =~= encode_utf8(t));
        lemma_encode_injective(s, t);
    }
}

/// A text begins like a drive exactly where it opens with an ASCII letter, of
/// either case, and a colon.
pub proof fn law_what_looks_like_a_drive(first: u8, second: u8, rest: Seq<u8>)
    ensures
        drive_prefixed(seq![first, second] + rest) <==> (0x41 <= first <= 0x5a || 0x61 <= first <= 0x7a) && second == COLON,
        !drive_prefixed(seq![first]),
        !drive_prefixed(Seq::empty()),
{
}

/// Every key begins with the bytes of the prefix.
pub proof fn law_keys_begin_with_the_prefix(root: Seq<u8>, path: Seq<u8>)
    ensures
        encode_utf8(KEY_PREFIX@) == key_prefix(),
        key_of(root, path) matches Ok(key) ==> encode_utf8(KEY_PREFIX@).is_prefix_of(key),
{
    lemma_prefix_bytes();
    if let Ok(key) = key_of(root, path) {
        assert(key.take(key_prefix().len() as int) =~= key_prefix());
    }
}

/// Cutting a byte string at a separator loses nothing: its segments, none of
/// which holds the separator, give it back when they are joined.
pub proof fn law_segments_join_to_the_whole(bytes: Seq<u8>, sep: u8)
    ensures
        join_segments(split(bytes, sep), sep) == bytes,
        forall|i: int| 0 <= i < split(bytes, sep).len() ==> !(#[trigger] split(bytes, sep)[i]).contains(sep),
{
    lemma_join_split(bytes, sep);
    lemma_split_clean(bytes, sep);
}

/// Why a file has no key: it does not lie in the root; or the first component
/// behind the root that stands in the way is a name that is not UTF-8, a `..`,
/// or the root of the file system.
pub proof fn law_why_a_file_has_no_key(root: Seq<u8>, path: Seq<u8>, before: Seq<Step>, step: Step, after: Seq<Step>)
    ensures
        !components(root).is_prefix_of(components(path)) ==> key_of(root, path) == Err::<Seq<u8>, Seq<char>>(
            "path "@ + lossy_text(path) + " is not inside root "@ + lossy_text(root),
        ),
        components(path) == components(root) + (before.push(step) + after) && names_of(before) is Ok ==> {
            &&& (step matches Component::Normal(name) && !valid_utf8(name)) ==> key_of(root, path) == Err::<
                Seq<u8>,
                Seq<char>,
            >("non-utf8 path component in "@ + lossy_text(path))
            &&& step is ParentDir ==> key_of(root, path) == Err::<Seq<u8>, Seq<char>>(
                "path "@ + lossy_text(path) + " contains parent traversal"@,
            )
            &&& step is RootDir ==> key_of(root, path) == Err::<Seq<u8>, Seq<char>>(
                "path "@ + lossy_text(path) + " is not relative after stripping root"@,
            )
        },
{
    let steps = before.push(step) + after;
    if components(path) == components(root) + steps && names_of(before) is Ok {
        crate::path::law_prefixes_come_off_whole(components(path), components(root), steps);
        crate::relative::law_names_grow_step_by_step(before, step);
        if names_of(before.push(step)) is Err {
            lemma_names_stay_out(before.push(step), after);
        }
    }
}

/// What has no names has none with more behind it.
proof fn lemma_names_stay_out(steps: Seq<Step>, more: Seq<Step>)
    requires
        names_of(steps) is Err,
    ensures
        names_of(steps + more) == names_of(steps),
    decreases more.len(),
{
    if more.len() == 0 {
        assert(steps + more =~= steps);
    } else {
        lemma_names_stay_out(steps, more.drop_last());
        assert((steps + more).drop_last() =~= steps + more.drop_last());
    }
}

/// Why a key has no path: the first of these that holds.
pub proof fn law_why_a_key_has_no_path(root: Seq<u8>, key: Seq<u8>)
    ensures
        ({
            let rel = key.skip(key_prefix().len() as int);
            let named = key_prefix().is_prefix_of(key);
            let rooted = (rel.len() > 0 && (rel[0] == SEPARATOR || rel[0] == BACKSLASH)) || drive_prefixed(rel);
            let climbs = split(rel, SEPARATOR).contains(dot_dot());
            let text = quoted(decode_utf8(rel));
            &&& !named ==> path_of(root, key) == Err::<Seq<u8>, Seq<char>>(
                "key does not start with "@ + quoted(KEY_PREFIX@),
            )
            &&& named && !valid_utf8(rel) ==> path_of(root, key) == Err::<Seq<u8>, Seq<char>>(
                "key is not valid utf-8: "@ + utf8_complaint(rel),
            )
            &&& named && valid_utf8(rel) && rooted ==> path_of(root, key) == Err::<Seq<u8>, Seq<char>>(
                "key relative portion "@ + text + " is absolute"@,
            )
            &&& named && valid_utf8(rel) && !rooted && climbs ==> path_of(root, key) == Err::<Seq<u8>, Seq<char>>(
                "key "@ + text + " contains parent traversal"@,
            )
            &&& named && valid_utf8(rel) && !rooted && !climbs && path_of(root, key) is Err ==> path_of(root, key) == Err::<
                Seq<u8>,
                Seq<char>,
            >("key relative portion "@ + text + " names no path under the root"@)
        }),
{
}

/// A file below the root whose names are in normal form is found again under
/// the key that it was given.
pub proof fn law_files_are_found_under_their_key(root: &FsPath, path: &FsPath, steps: Seq<Step>, key: Vec<u8>, asked: &[u8], res: Result<FsPath, WorkspaceError>)
    requires
        call_ensures(path_to_key, (root, path), Ok::<Vec<u8>, WorkspaceError>(key)),
        call_ensures(key_to_path, (root, asked), res),
        asked@ == key@,
        root@.len() > 0,
        without_prefix(components(path@), components(root@)) == Some(steps),
        steps.len() > 0,
        all_normalised(steps),
        !claims_absolute(join_segments(file_names(steps), SEPARATOR)),
    ensures
        res matches Ok(back) && components(back@) == components(path@),
{
    law_normalised_key_round_trip(root@, path@, steps, key@);
}

/// No key leads out of the root: where it has a path, the path lies below the
/// root.
pub proof fn law_no_key_leads_out(root: &FsPath, key: &[u8], path: FsPath)
    requires
        call_ensures(key_to_path, (root, key), Ok::<FsPath, WorkspaceError>(path)),
    ensures
        components(root@).is_prefix_of(components(path@)),
        components(path@).len() > components(root@).len(),
        !components(path@).skip(components(root@).len() as int).contains(Component::ParentDir),
{
    law_key_stays_in_root(root@, key@, path@);
    let n = components(root@).len() as int;
    let below = components(path@).skip(n);
    if below.contains(Component::ParentDir) {
        let i = below.index_of(Component::ParentDir);
        assert(components(path@)[i + n] == below[i]);
    }
}

} // verus!
