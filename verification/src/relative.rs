//! The text form of a path inside a workspace: its names, normalised to
//! Unicode NFC, with `/` between them.
//!
//! Document keys and glob matching both use this one form.
use unicode_normalization::UnicodeNormalization;
use vstd::prelude::*;
use vstd::utf8::{decode_utf8, encode_utf8, is_ascii_chars, valid_utf8};

use crate::path::{join_segments, steps_view, step_view, Component, Step, SEPARATOR};
use crate::text::parse_utf8;

verus! {

/// The Unicode normalisation form C of a text.
pub uninterp spec fn nfc(text: Seq<char>) -> Seq<char>;

/// Wraps `unicode_normalization::UnicodeNormalization::nfc`, collected into a
/// string; the result is named [`nfc`]. A text in ASCII is its own normal
/// form: none of its characters decomposes, combines or composes.
#[verifier::external_body]
pub(crate) fn to_nfc(text: &str) -> (out: String)
    ensures
        out@ == nfc(text@),
        is_ascii_chars(text@) ==> out@ == text@,
{
    text.nfc().collect()
}

/// Why a list of components has no text form.
#[derive(Clone, Copy, Debug, PartialEq, Eq, Structural)]
pub enum Unnamed {
    /// A name is not UTF-8.
    NonUtf8,
    /// There is a `..`.
    ParentTraversal,
    /// It starts at the root of the file system.
    Absolute,
}

/// The normalised names of a list of components, or what stands in the way,
/// from the first component that has no name in the workspace.
pub open spec fn names_of(steps: Seq<Step>) -> Result<Seq<Seq<char>>, Unnamed>
    decreases steps.len(),
{
    if steps.len() == 0 {
        Ok(Seq::empty())
    } else {
        match names_of(steps.drop_last()) {
            Err(why) => Err(why),
            Ok(names) => match steps.last() {
                Component::Normal(name) => if valid_utf8(name) {
                    Ok(names.push(nfc(decode_utf8(name))))
                } else {
                    Err(Unnamed::NonUtf8)
                },
                Component::CurDir => Ok(names),
                Component::ParentDir => Err(Unnamed::ParentTraversal),
                Component::RootDir => Err(Unnamed::Absolute),
            },
        }
    }
}

/// The names of a list of components as one text.
pub open spec fn names_text(steps: Seq<Step>) -> Result<Seq<char>, Unnamed> {
    match names_of(steps) {
        Ok(names) => Ok(join_segments(names, '/')),
        Err(why) => Err(why),
    }
}

/// The text that globs are held against: the names of a list of components,
/// where they can be written.
pub open spec fn relative_text(steps: Seq<Step>) -> Option<Seq<char>> {
    match names_text(steps) {
        Ok(text) => Some(text),
        Err(_) => None,
    }
}

/// Whether each name in ASCII among the components is its own normal form.
pub open spec fn ascii_names_kept(steps: Seq<Step>) -> bool {
    forall|i: int| 0 <= i < steps.len() ==> match #[trigger] steps[i] {
        Component::Normal(name) => is_ascii_chars(decode_utf8(name)) ==> nfc(decode_utf8(name)) == decode_utf8(name),
        _ => true,
    }
}

/// What stands in the way stays there, whatever follows.
proof fn lemma_names_fail(steps: Seq<Step>, n: int)
    requires
        0 <= n <= steps.len(),
        names_of(steps.take(n)) is Err,
    ensures
        names_of(steps) == names_of(steps.take(n)),
    decreases steps.len() - n,
{
    if n == steps.len() {
        assert(steps.take(n) =~= steps);
    } else {
        assert(steps.take(n + 1).drop_last() =~= steps.take(n));
        lemma_names_fail(steps, n + 1);
    }
}

/// Writes the text that globs are held against, where there is one.
pub fn to_relative_text(list: &Vec<Component<Vec<u8>>>) -> (res: Option<String>)
    ensures
        match res {
            Some(text) => relative_text(steps_view(list@)) == Some(text@),
            None => relative_text(steps_view(list@)) is None,
        },
        names_of(steps_view(list@)) is Ok ==> ascii_names_kept(steps_view(list@)),
{
    match to_names_text(list) {
        Ok(text) => Some(text),
        Err(_) => None,
    }
}

/// Writes the names of a list of components as one text.
pub fn to_names_text(list: &Vec<Component<Vec<u8>>>) -> (res: Result<String, Unnamed>)
    ensures
        match res {
            Ok(text) => names_text(steps_view(list@)) == Ok::<Seq<char>, Unnamed>(text@),
            Err(why) => names_text(steps_view(list@)) == Err::<Seq<char>, Unnamed>(why),
        },
        names_of(steps_view(list@)) is Ok ==> ascii_names_kept(steps_view(list@)),
{
    let ghost steps = steps_view(list@);
    let ghost mut names: Seq<Seq<char>> = Seq::empty();
    let mut text = String::new();
    let mut first = true;
    let mut i: usize = 0;
    assert(steps.take(0) =~= Seq::empty());
    assert(text@ =~= join_segments(names, '/'));
    while i < list.len()
        invariant
            i <= list@.len(),
            steps == steps_view(list@),
            names_of(steps.take(i as int)) == Ok::<Seq<Seq<char>>, Unnamed>(names),
            text@ == join_segments(names, '/'),
            first == (names.len() == 0),
            ascii_names_kept(steps.take(i as int)),
        decreases list@.len() - i,
    {
        assert(steps.take(i + 1).drop_last() =~= steps.take(i as int));
        assert(steps.take(i + 1).last() == step_view(list@[i as int]));
        match &list[i] {
            Component::Normal(name) => {
                match parse_utf8(name.as_slice()) {
                    Ok(part) => {
                        let normalised = to_nfc(part.as_str());
                        proof {
                            vstd::utf8::encode_utf8_decode_utf8(part@);
                        }
                        let ghost before = names;
                        proof {
                            names = names.push(normalised@);
                            assert(names.drop_last() =~= before);
                        }
                        if !first {
                            proof {
                                reveal_strlit("/");
                            }
                            text.append("/");
                        }
                        text.append(normalised.as_str());
                        first = false;
                        assert(text@ =~= join_segments(names, '/'));
                    },
                    Err(_) => {
                        proof {
                            lemma_names_fail(steps, i + 1);
                        }
                        return Err(Unnamed::NonUtf8);
                    },
                }
            },
            Component::CurDir => {},
            Component::ParentDir => {
                proof {
                    lemma_names_fail(steps, i + 1);
                }
                return Err(Unnamed::ParentTraversal);
            },
            Component::RootDir => {
                proof {
                    lemma_names_fail(steps, i + 1);
                }
                return Err(Unnamed::Absolute);
            },
        }
        assert(ascii_names_kept(steps.take(i + 1))) by {
            assert forall|k: int| 0 <= k < i + 1 implies match #[trigger] steps.take(i + 1)[k] {
                Component::Normal(name) => is_ascii_chars(decode_utf8(name)) ==> nfc(decode_utf8(name)) == decode_utf8(
                    name,
                ),
                _ => true,
            } by {
                if k < i {
                    assert(steps.take(i as int)[k] == steps.take(i + 1)[k]);
                }
            }
        }
        i += 1;
    }
    assert(steps.take(i as int) =~= steps);
    Ok(text)
}

/// UTF-8 encodes a text piece by piece.
pub proof fn lemma_encode_concat(a: Seq<char>, b: Seq<char>)
    ensures
        encode_utf8(a + b) == encode_utf8(a) + encode_utf8(b),
    decreases a.len(),
{
    if a.len() == 0 {
        assert(a + b =~= b);
        assert(encode_utf8(a) + encode_utf8(b) =~= encode_utf8(b));
    } else {
        lemma_encode_concat(a.drop_first(), b);
        assert((a + b).drop_first() =~= a.drop_first() + b);
        assert(encode_utf8(a + b) =~= encode_utf8(a) + encode_utf8(b));
    }
}

/// The bytes of a separator.
pub proof fn lemma_encode_separator()
    ensures
        encode_utf8(seq!['/']) == seq![SEPARATOR],
{
    let s = seq!['/'];
    assert(vstd::utf8::is_ascii_chars(s));
    vstd::utf8::is_ascii_chars_encode_utf8(s);
    assert(encode_utf8(s) =~= seq![SEPARATOR]);
}

/// The UTF-8 form of joined texts is their joined UTF-8 forms.
pub proof fn lemma_encode_join(names: Seq<Seq<char>>)
    ensures
        encode_utf8(join_segments(names, '/')) == join_segments(
            names.map_values(|n: Seq<char>| encode_utf8(n)),
            SEPARATOR,
        ),
    decreases names.len(),
{
    let encoded = names.map_values(|n: Seq<char>| encode_utf8(n));
    if names.len() == 0 {
        assert(encode_utf8(Seq::<char>::empty()) =~= Seq::<u8>::empty());
    } else if names.len() >= 2 {
        let head = names.drop_last();
        lemma_encode_join(head);
        assert(encoded.drop_last() =~= head.map_values(|n: Seq<char>| encode_utf8(n)));
        let front = join_segments(head, '/');
        lemma_encode_concat(front.push('/'), names.last());
        assert(front.push('/') =~= front + seq!['/']);
        lemma_encode_concat(front, seq!['/']);
        lemma_encode_separator();
        assert(encode_utf8(front) + seq![SEPARATOR] =~= encode_utf8(front).push(SEPARATOR));
    }
}

/// The names of a list of components grow with it: a name that is UTF-8 adds
/// its normal form, a `.` adds nothing, and a name that is not UTF-8, a `..` or
/// the root leave the list without names, for that reason and for good.
pub proof fn law_names_grow_step_by_step(steps: Seq<Step>, step: Step)
    ensures
        names_of(Seq::empty()) == Ok::<Seq<Seq<char>>, Unnamed>(Seq::empty()),
        names_of(steps) is Err ==> names_of(steps.push(step)) == names_of(steps),
        names_of(steps) matches Ok(names) ==> names_of(steps.push(step)) == (match step {
            Component::Normal(name) => if valid_utf8(name) {
                Ok(names.push(nfc(decode_utf8(name))))
            } else {
                Err(Unnamed::NonUtf8)
            },
            Component::CurDir => Ok(names),
            Component::ParentDir => Err(Unnamed::ParentTraversal),
            Component::RootDir => Err(Unnamed::Absolute),
        }),
{
    assert(steps.push(step).drop_last() =~= steps);
    assert(steps.push(step).last() == step);
}

/// A list of components has a text form exactly where each of them is a `.` or
/// a name that is UTF-8.
pub proof fn law_what_has_a_text_form(steps: Seq<Step>)
    ensures
        relative_text(steps) is Some <==> forall|i: int| 0 <= i < steps.len() ==> match #[trigger] steps[i] {
            Component::Normal(name) => valid_utf8(name),
            Component::CurDir => true,
            _ => false,
        },
        relative_text(steps) is Some <==> names_of(steps) is Ok,
        names_of(steps) matches Ok(names) ==> relative_text(steps) == Some(join_segments(names, '/')),
    decreases steps.len(),
{
    if steps.len() > 0 {
        let head = steps.drop_last();
        law_what_has_a_text_form(head);
        let last = steps[steps.len() - 1];
        assert(last == steps.last());
        if relative_text(steps) is Some {
            assert forall|i: int| 0 <= i < steps.len() implies match #[trigger] steps[i] {
                Component::Normal(name) => valid_utf8(name),
                Component::CurDir => true,
                _ => false,
            } by {
                if i < head.len() {
                    assert(head[i] == steps[i]);
                }
            }
        }
        if forall|i: int| 0 <= i < steps.len() ==> match #[trigger] steps[i] {
            Component::Normal(name) => valid_utf8(name),
            Component::CurDir => true,
            _ => false,
        } {
            assert forall|i: int| 0 <= i < head.len() implies match #[trigger] head[i] {
                Component::Normal(name) => valid_utf8(name),
                Component::CurDir => true,
                _ => false,
            } by {
                assert(head[i] == steps[i]);
            }
            assert(match last {
                Component::Normal(name) => valid_utf8(name),
                Component::CurDir => true,
                _ => false,
            });
        }
    }
}

} // verus!
