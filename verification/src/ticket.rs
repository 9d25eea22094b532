//! The versioned envelope in which a host hands out its document ticket and
//! its path rules.
//!
//! Bytes that do not decode as the envelope are refused; there is no fallback
//! to a bare ticket.
use vstd::prelude::*;

use crate::error::concat;
use crate::rules::{rules_fault, rules_fault_text, Mode, PathRule, PathRules, PathRulesError, RulesFault};
use crate::text::{decimal, decimal_text};
use crate::wire::{
    envelope_bytes, envelope_of, read_envelope, rule_parts, write_envelope, Choice, EnvelopeParts,
};

verus! {

/// The current envelope version.
pub const ENVELOPE_VERSION: u8 = 1;

/// What a host hands out to those who join.
#[derive(Clone, Debug, PartialEq, Eq)]
pub struct WorkspaceTicketEnvelope {
    /// The envelope version.
    pub version: u8,
    /// The text form of the document ticket.
    pub doc_ticket: String,
    /// The host's path rules.
    pub rules: PathRules,
}

/// Why an envelope could not be written or read.
#[derive(Clone, Debug, PartialEq, Eq)]
pub enum TicketEnvelopeError {
    /// The bytes are no envelope.
    Malformed(String),
    /// The version is not one that this library reads.
    UnsupportedVersion(u8),
    /// The rules are refused.
    PathRules(PathRulesError),
}

/// A [`TicketEnvelopeError`] over sequences.
pub enum EnvelopeFault {
    /// [`TicketEnvelopeError::Malformed`].
    Malformed(Seq<char>),
    /// [`TicketEnvelopeError::UnsupportedVersion`].
    UnsupportedVersion(u8),
    /// [`TicketEnvelopeError::PathRules`].
    PathRules(RulesFault),
}

impl View for TicketEnvelopeError {
    type V = EnvelopeFault;

    open spec fn view(&self) -> EnvelopeFault {
        match *self {
            TicketEnvelopeError::Malformed(why) => EnvelopeFault::Malformed(why@),
            TicketEnvelopeError::UnsupportedVersion(version) => EnvelopeFault::UnsupportedVersion(version),
            TicketEnvelopeError::PathRules(why) => EnvelopeFault::PathRules(why@),
        }
    }
}

/// The message for a refused envelope.
pub open spec fn envelope_fault_text(fault: EnvelopeFault) -> Seq<char> {
    match fault {
        EnvelopeFault::Malformed(why) => "workspace ticket envelope: malformed bytes ("@ + why + ")"@,
        EnvelopeFault::UnsupportedVersion(version) => "workspace ticket envelope: unsupported version "@
            + decimal(version as nat),
        EnvelopeFault::PathRules(why) => "workspace ticket envelope: invalid rules: "@ + rules_fault_text(why),
    }
}

impl TicketEnvelopeError {
    /// The error as a message.
    pub fn message(&self) -> (text: String)
        ensures
            text@ == envelope_fault_text(self@),
    {
        match self {
            TicketEnvelopeError::Malformed(why) => {
                let mut text = concat("workspace ticket envelope: malformed bytes (", why.as_str());
                text.append(")");
                text
            },
            TicketEnvelopeError::UnsupportedVersion(version) => concat(
                "workspace ticket envelope: unsupported version ",
                decimal_text(*version as u64).as_str(),
            ),
            TicketEnvelopeError::PathRules(why) => concat(
                "workspace ticket envelope: invalid rules: ",
                why.message().as_str(),
            ),
        }
    }
}

/// The choice that stands for a mode on the wire.
pub open spec fn mode_choice(mode: Mode) -> Choice {
    match mode {
        Mode::ReadWrite => Ok(()),
        Mode::ReadOnly => Err(()),
    }
}

/// The mode that a choice stands for.
pub open spec fn choice_mode(choice: Choice) -> Mode {
    match choice {
        Ok(()) => Mode::ReadWrite,
        Err(()) => Mode::ReadOnly,
    }
}

/// The rules of an envelope as they go on the wire.
pub open spec fn rules_on_wire(rules: Seq<PathRule>) -> Seq<(Seq<char>, Choice)> {
    rules.map_values(|r: PathRule| (r.glob@, mode_choice(r.mode)))
}

/// The parts of an envelope.
pub open spec fn envelope_parts(env: WorkspaceTicketEnvelope) -> EnvelopeParts {
    (env.version, env.doc_ticket@, mode_choice(env.rules.default), rules_on_wire(env.rules.rules@))
}

/// Whether two envelopes say the same.
pub open spec fn same_envelope(a: WorkspaceTicketEnvelope, b: WorkspaceTicketEnvelope) -> bool {
    &&& a.version == b.version
    &&& a.doc_ticket@ == b.doc_ticket@
    &&& crate::rules::same_rules(a.rules, b.rules)
}

/// Why the globs of rules on the wire are refused, if they are.
pub open spec fn wire_rules_fault(rules: Seq<(Seq<char>, Choice)>) -> Option<RulesFault>
    decreases rules.len(),
{
    if rules.len() == 0 {
        None
    } else {
        match crate::rules::glob_fault(rules[0].0) {
            Some(fault) => Some(fault),
            None => wire_rules_fault(rules.drop_first()),
        }
    }
}

/// Checking rules on the wire is checking the rules.
proof fn lemma_wire_rules_fault(rules: Seq<PathRule>)
    ensures
        wire_rules_fault(rules_on_wire(rules)) == rules_fault(rules),
    decreases rules.len(),
{
    if rules.len() > 0 {
        lemma_wire_rules_fault(rules.drop_first());
        assert(rules_on_wire(rules).drop_first() =~= rules_on_wire(rules.drop_first()));
    }
}

/// What decoding gives.
pub open spec fn decode_result(bytes: Seq<u8>) -> Result<EnvelopeParts, EnvelopeFault> {
    match envelope_of(bytes) {
        Err(why) => Err(EnvelopeFault::Malformed(why)),
        Ok(parts) => accept_parts(parts),
    }
}

/// What decoded parts give: themselves, where the version is the current one
/// and the rules pass.
pub open spec fn accept_parts(parts: EnvelopeParts) -> Result<EnvelopeParts, EnvelopeFault> {
    if parts.0 != ENVELOPE_VERSION {
        Err(EnvelopeFault::UnsupportedVersion(parts.0))
    } else {
        match wire_rules_fault(parts.3) {
            Some(fault) => Err(EnvelopeFault::PathRules(fault)),
            None => Ok(parts),
        }
    }
}

impl WorkspaceTicketEnvelope {
    /// An envelope of the current version.
    pub fn new(doc_ticket: String, rules: PathRules) -> (env: WorkspaceTicketEnvelope)
        ensures
            env == (WorkspaceTicketEnvelope { version: ENVELOPE_VERSION, doc_ticket, rules }),
    {
        WorkspaceTicketEnvelope { version: ENVELOPE_VERSION, doc_ticket, rules }
    }
}

fn to_choice(mode: Mode) -> (choice: Choice)
    ensures
        choice == mode_choice(mode),
{
    match mode {
        Mode::ReadWrite => Ok(()),
        Mode::ReadOnly => Err(()),
    }
}

fn to_mode(choice: Choice) -> (mode: Mode)
    ensures
        mode == choice_mode(choice),
        mode_choice(mode) == choice,
{
    match choice {
        Ok(unit) => {
            assert(unit == ());
            Mode::ReadWrite
        },
        Err(unit) => {
            assert(unit == ());
            Mode::ReadOnly
        },
    }
}

/// Writes an envelope, where its rules pass. Its first byte is the version.
pub fn encode(env: &WorkspaceTicketEnvelope) -> (res: Result<Vec<u8>, TicketEnvelopeError>)
    ensures
        match rules_fault(env.rules.rules@) {
            Some(fault) => res matches Err(err) && err@ == EnvelopeFault::PathRules(fault),
            None => {
                &&& res matches Ok(bytes)
                &&& bytes@ == envelope_bytes(
                    env.version,
                    env.doc_ticket@,
                    mode_choice(env.rules.default),
                    rules_on_wire(env.rules.rules@),
                )
                &&& envelope_of(bytes@) == Ok::<EnvelopeParts, Seq<char>>(envelope_parts(*env))
                &&& bytes@.len() > 0
                &&& bytes@[0] == env.version
            },
        },
{
    match env.rules.validate() {
        Ok(()) => {},
        Err(err) => {
            return Err(TicketEnvelopeError::PathRules(err));
        },
    }
    let mut rules: Vec<(String, Choice)> = Vec::new();
    let mut i: usize = 0;
    while i < env.rules.rules.len()
        invariant
            i <= env.rules.rules@.len(),
            rules@.len() == i,
            forall|k: int| 0 <= k < i ==> (#[trigger] rules@[k]).0@ == env.rules.rules@[k].glob@
                && rules@[k].1 == mode_choice(env.rules.rules@[k].mode),
        decreases env.rules.rules@.len() - i,
    {
        let rule = &env.rules.rules[i];
        rules.push((rule.glob.clone(), to_choice(rule.mode)));
        i += 1;
    }
    assert(rule_parts(rules@) =~= rules_on_wire(env.rules.rules@));
    match write_envelope(env.version, env.doc_ticket.as_str(), to_choice(env.rules.default), &rules) {
        Ok(bytes) => Ok(bytes),
        Err(why) => Err(TicketEnvelopeError::Malformed(why)),
    }
}

/// Reads an envelope.
pub fn decode(bytes: &[u8]) -> (res: Result<WorkspaceTicketEnvelope, TicketEnvelopeError>)
    ensures
        match res {
            Ok(env) => decode_result(bytes@) == Ok::<EnvelopeParts, EnvelopeFault>(envelope_parts(env)),
            Err(err) => decode_result(bytes@) == Err::<EnvelopeParts, EnvelopeFault>(err@),
        },
{
    match read_envelope(bytes) {
        Ok((version, doc_ticket, default, rules)) => accept(version, doc_ticket, default, rules),
        Err(why) => Err(TicketEnvelopeError::Malformed(why)),
    }
}

/// Makes an envelope of decoded parts, or refuses them.
pub fn accept(version: u8, doc_ticket: String, default: Choice, rules: Vec<(String, Choice)>) -> (res: Result<
    WorkspaceTicketEnvelope,
    TicketEnvelopeError,
>)
    ensures
        match res {
            Ok(env) => {
                &&& accept_parts((version, doc_ticket@, default, rule_parts(rules@))) == Ok::<EnvelopeParts, EnvelopeFault>(envelope_parts(env))
                &&& env.doc_ticket == doc_ticket
            },
            Err(err) => accept_parts((version, doc_ticket@, default, rule_parts(rules@))) == Err::<EnvelopeParts, EnvelopeFault>(err@),
        },
{
    if version != ENVELOPE_VERSION {
        return Err(TicketEnvelopeError::UnsupportedVersion(version));
    }
    let mut list: Vec<PathRule> = Vec::new();
    let mut i: usize = 0;
    while i < rules.len()
        invariant
            i <= rules@.len(),
            list@.len() == i,
            forall|k: int| 0 <= k < i ==> (#[trigger] list@[k]).glob@ == rules@[k].0@
                && mode_choice(list@[k].mode) == rules@[k].1,
        decreases rules@.len() - i,
    {
        list.push(PathRule { glob: rules[i].0.clone(), mode: to_mode(rules[i].1) });
        i += 1;
    }
    assert(rules_on_wire(list@) =~= rule_parts(rules@));
    proof {
        lemma_wire_rules_fault(list@);
    }
    let env = WorkspaceTicketEnvelope { version, doc_ticket, rules: PathRules { default: to_mode(default), rules: list } };
    match env.rules.validate() {
        Ok(()) => Ok(env),
        Err(err) => Err(TicketEnvelopeError::PathRules(err)),
    }
}

/// Envelopes with the same parts say the same.
proof fn lemma_parts_identify(a: WorkspaceTicketEnvelope, b: WorkspaceTicketEnvelope)
    requires
        envelope_parts(a) == envelope_parts(b),
    ensures
        same_envelope(a, b),
{
    let x = rules_on_wire(a.rules.rules@);
    let y = rules_on_wire(b.rules.rules@);
    assert(x.len() == a.rules.rules@.len());
    assert(y.len() == b.rules.rules@.len());
    assert forall|k: int| 0 <= k < a.rules.rules@.len() implies (#[trigger] a.rules.rules@[k]).glob@ == b.rules.rules@[k].glob@
        && a.rules.rules@[k].mode == b.rules.rules@[k].mode by {
        assert(x[k] == y[k]);
    }
}

/// What a host wrote is what a joiner reads: bytes that encode an envelope of
/// the current version whose rules pass decode, and to that envelope.
pub proof fn law_decode_undoes_encode(env: WorkspaceTicketEnvelope, bytes: Seq<u8>, back: WorkspaceTicketEnvelope)
    requires
        env.version == ENVELOPE_VERSION,
        rules_fault(env.rules.rules@) is None,
        envelope_of(bytes) == Ok::<EnvelopeParts, Seq<char>>(envelope_parts(env)),
    ensures
        decode_result(bytes) == Ok::<EnvelopeParts, EnvelopeFault>(envelope_parts(env)),
        decode_result(bytes) == Ok::<EnvelopeParts, EnvelopeFault>(envelope_parts(back)) ==> same_envelope(back, env),
{
    lemma_wire_rules_fault(env.rules.rules@);
    if decode_result(bytes) == Ok::<EnvelopeParts, EnvelopeFault>(envelope_parts(back)) {
        lemma_parts_identify(back, env);
    }
}

/// No envelope of another version is accepted, whatever else it holds.
pub proof fn law_other_versions_are_refused(bytes: Seq<u8>, parts: EnvelopeParts)
    requires
        envelope_of(bytes) == Ok::<EnvelopeParts, Seq<char>>(parts),
        parts.0 != ENVELOPE_VERSION,
    ensures
        decode_result(bytes) == Err::<EnvelopeParts, EnvelopeFault>(EnvelopeFault::UnsupportedVersion(parts.0)),
{
}

/// Decoded parts are accepted, as they are, exactly where the version is the
/// current one and each glob passes. Otherwise the version is named, whatever
/// the globs are, or the first glob that does not pass.
pub proof fn law_what_is_accepted(parts: EnvelopeParts, k: int)
    ensures
        accept_parts(parts) == Ok::<EnvelopeParts, EnvelopeFault>(parts) <==> parts.0 == ENVELOPE_VERSION && forall|i: int|
            0 <= i < parts.3.len() ==> crate::rules::glob_fault((#[trigger] parts.3[i]).0) is None,
        accept_parts(parts) matches Ok(got) ==> got == parts,
        parts.0 != ENVELOPE_VERSION ==> accept_parts(parts) == Err::<EnvelopeParts, EnvelopeFault>(
            EnvelopeFault::UnsupportedVersion(parts.0),
        ),
        parts.0 == ENVELOPE_VERSION && 0 <= k < parts.3.len() && (forall|i: int|
            0 <= i < k ==> crate::rules::glob_fault((#[trigger] parts.3[i]).0) is None) ==> (crate::rules::glob_fault(
            parts.3[k].0,
        ) matches Some(fault) ==> accept_parts(parts) == Err::<EnvelopeParts, EnvelopeFault>(
            EnvelopeFault::PathRules(fault),
        )),
{
    lemma_wire_rules(parts.3, k);
}

proof fn lemma_wire_rules(rules: Seq<(Seq<char>, Choice)>, k: int)
    ensures
        wire_rules_fault(rules) is None <==> forall|i: int|
            0 <= i < rules.len() ==> crate::rules::glob_fault((#[trigger] rules[i]).0) is None,
        0 <= k < rules.len() && crate::rules::glob_fault(rules[k].0) is Some && (forall|i: int|
            0 <= i < k ==> crate::rules::glob_fault((#[trigger] rules[i]).0) is None) ==> wire_rules_fault(rules)
            == crate::rules::glob_fault(rules[k].0),
    decreases rules.len(),
{
    if rules.len() > 0 {
        let rest = rules.drop_first();
        lemma_wire_rules(rest, k - 1);
        assert forall|i: int| 0 <= i < rest.len() implies rest[i] == #[trigger] rules[i + 1] by {}
        if wire_rules_fault(rules) is None {
            assert forall|i: int| 0 <= i < rules.len() implies crate::rules::glob_fault((#[trigger] rules[i]).0) is None by {
                if i > 0 {
                    assert(rest[i - 1] == rules[i]);
                }
            }
        }
        if forall|i: int| 0 <= i < rules.len() ==> crate::rules::glob_fault((#[trigger] rules[i]).0) is None {
            assert(crate::rules::glob_fault(rules[0].0) is None);
            assert forall|i: int| 0 <= i < rest.len() implies crate::rules::glob_fault((#[trigger] rest[i]).0) is None by {
                assert(rest[i] == rules[i + 1]);
            }
        }
        if 0 < k < rules.len() && crate::rules::glob_fault(rules[k].0) is Some && (forall|i: int|
            0 <= i < k ==> crate::rules::glob_fault((#[trigger] rules[i]).0) is None) {
            assert(crate::rules::glob_fault(rules[0].0) is None);
            assert(rest[k - 1] == rules[k]);
            assert forall|i: int| 0 <= i < k - 1 implies crate::rules::glob_fault((#[trigger] rest[i]).0) is None by {
                assert(rest[i] == rules[i + 1]);
            }
        }
    }
}

/// Bytes that are no envelope are refused with what is wrong with them; from
/// bytes that are one, what decodes is what is judged.
pub proof fn law_bytes_are_decoded_and_judged(bytes: Seq<u8>)
    ensures
        match envelope_of(bytes) {
            Err(why) => decode_result(bytes) == Err::<EnvelopeParts, EnvelopeFault>(EnvelopeFault::Malformed(why)),
            Ok(parts) => decode_result(bytes) == accept_parts(parts),
        },
{
}

/// A mode and what stands for it on the wire say the same: reading undoes
/// writing both ways, and to write is the first choice.
pub proof fn law_modes_survive_the_wire(mode: Mode, choice: Choice)
    ensures
        choice_mode(mode_choice(mode)) == mode,
        mode_choice(mode) is Ok <==> mode == Mode::ReadWrite,
        choice_mode(choice) == Mode::ReadWrite <==> choice is Ok,
{
}

/// Each rule goes on the wire at its place, with its glob and its mode, and an
/// envelope with its version, its ticket and its default.
pub proof fn law_rules_survive_the_wire(env: WorkspaceTicketEnvelope, i: int)
    ensures
        envelope_parts(env).0 == env.version,
        envelope_parts(env).1 == env.doc_ticket@,
        choice_mode(envelope_parts(env).2) == env.rules.default,
        envelope_parts(env).3.len() == env.rules.rules@.len(),
        0 <= i < env.rules.rules@.len() ==> {
            &&& envelope_parts(env).3[i].0 == env.rules.rules@[i].glob@
            &&& choice_mode(envelope_parts(env).3[i].1) == env.rules.rules@[i].mode
        },
{
}

/// Envelopes that say the same have the same version, the same ticket and rules
/// that give every path the same mode.
pub proof fn law_same_envelopes(a: WorkspaceTicketEnvelope, b: WorkspaceTicketEnvelope, steps: Seq<crate::path::Step>)
    requires
        same_envelope(a, b),
    ensures
        a.version == b.version,
        a.doc_ticket@ == b.doc_ticket@,
        crate::rules::mode_of(a.rules, steps) == crate::rules::mode_of(b.rules, steps),
{
    crate::rules::law_same_rules_give_the_same_modes(a.rules, b.rules, steps);
}

/// A ticket that a host writes is read by everybody as the host wrote it.
pub proof fn law_tickets_survive_the_way(env: &WorkspaceTicketEnvelope, bytes: Vec<u8>, read: &[u8], res: Result<WorkspaceTicketEnvelope, TicketEnvelopeError>)
    requires
        call_ensures(encode, (env,), Ok::<Vec<u8>, TicketEnvelopeError>(bytes)),
        call_ensures(decode, (read,), res),
        read@ == bytes@,
        env.version == ENVELOPE_VERSION,
    ensures
        res matches Ok(back) && same_envelope(back, *env),
{
    law_decode_undoes_encode(*env, bytes@, *env);
    if let Ok(back) = res {
        law_decode_undoes_encode(*env, bytes@, back);
    }
}

} // verus!
