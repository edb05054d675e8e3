//! `slumber init`: the handoff protocol added to an agent's instructions
//! file, how an earlier generated contract is upgraded, and which file is
//! chosen. By agent name only Codex's `AGENTS.md` is selected; any other
//! instructions file is named by path.
use crate::text::{
    contains_text, find_text, first_occurrence, occurs_at, chars_of, replace_first, string_between,
    text_contains,
};
use vstd::prelude::*;

verus! {

/// The line that opens every generated protocol.
pub const PROTOCOL_MARKER: &'static str = "<!-- SLUMBER PROTOCOL -->";

/// The protocol that earlier versions generated; `init` replaces it.
pub const LEGACY_PROTOCOL: &'static str = "<!-- SLUMBER PROTOCOL -->\nYou have a background delegator: `slumber run \"<command>\"`.\nRULE:\n- If you need immediate output to write your next command -> run it directly.\n- If your current work is done and you are ready to hand off execution and stop working until it finishes -> use `slumber run \"<command>\"` and exit.\n";

/// The current handoff protocol.
pub const PROTOCOL: &'static str = "<!-- SLUMBER PROTOCOL -->\nUse Slumber to run long tasks, not to schedule log checks.\n- New task: submit the actual foreground command with `slumber run '<command>'`; do not launch it separately with nohup or `&`. Do short preflight checks directly before submission.\n- Remote task: use `slumber run --ssh <host> '<command>'`, not `slumber run 'ssh ...'`.\n- Already running: do not relaunch. Monitor a run-specific completion record and propagate its exit code; PID disappearance or log text alone does not establish success. Identify the original task logs separately from monitor output.\n- When ready to hand off, submit once. After acceptance, report the job ID and log paths, then end your turn; do not poll or resubmit while waiting for the event.\n- On the completion event, inspect the task's actual exit status, logs and results before continuing. Submission or notification success is not task success.\n<!-- /SLUMBER PROTOCOL -->\n";

/// What `init` does with the existing contents of the instructions file.
#[derive(Debug, Clone, PartialEq, Eq)]
pub enum InitPlan {
    /// Write these contents: the earlier generated protocol upgraded.
    Replace(String),
    /// The current protocol is there already; nothing changes.
    AlreadyPresent,
    /// A customized protocol is there; it is left unchanged for the user to inspect.
    Differs,
    /// Append this text to the file.
    Append(String),
}

/// What separates existing contents from an appended protocol: nothing for
/// an empty file, one newline after a final newline, two otherwise (a blank
/// line between the two).
pub open spec fn append_separator(existing: Seq<char>) -> Seq<char> {
    if existing.len() == 0 {
        Seq::empty()
    } else if existing.last() == '\n' {
        seq!['\n']
    } else {
        seq!['\n', '\n']
    }
}

/// What `init` does with the contents `existing`: an earlier generated
/// protocol is upgraded in place; an existing current protocol is kept; any
/// other text that holds the protocol marker is left unchanged; otherwise
/// the protocol is appended after a blank line.
pub open spec fn init_plan_spec(existing: Seq<char>) -> InitPlan {
    if contains_text(existing, LEGACY_PROTOCOL@) {
        InitPlan::Replace(arbitrary())
    } else if contains_text(existing, PROTOCOL_MARKER@) {
        if contains_text(existing, PROTOCOL@) {
            InitPlan::AlreadyPresent
        } else {
            InitPlan::Differs
        }
    } else {
        InitPlan::Append(arbitrary())
    }
}

/// Whether `plan` is what `init` does with `existing`, texts included.
pub open spec fn init_plan_matches(existing: Seq<char>, plan: InitPlan) -> bool {
    match init_plan_spec(existing) {
        InitPlan::Replace(_) => plan matches InitPlan::Replace(t) && t@ == replace_first(
            existing,
            LEGACY_PROTOCOL@,
            PROTOCOL@,
        ),
        InitPlan::Append(_) => plan matches InitPlan::Append(t) && t@ == append_separator(existing)
            + PROTOCOL@,
        other => plan == other,
    }
}

/// What `init` does with the existing contents of the instructions file
/// (empty when there is no file).
pub fn plan_init(existing: &str) -> (plan: InitPlan)
    ensures
        init_plan_matches(existing@, plan),
{
    let e = chars_of(existing);
    let legacy = chars_of(LEGACY_PROTOCOL);
    match find_text(e.as_slice(), legacy.as_slice()) {
        Some(i) => {
            assert(i + legacy@.len() <= e@.len());
            assert(e@.len() == e.len());
            let mut t = string_between(e.as_slice(), 0, i);
            t.append(PROTOCOL);
            let rest = string_between(e.as_slice(), i + legacy.len(), e.len());
            t.append(rest.as_str());
            proof {
                let w = first_occurrence(e@, legacy@);
                assert(occurs_at(e@, legacy@, i as int));
                if w < i {
                    assert(!occurs_at(e@, legacy@, w));
                } else if w > i {
                    assert(!occurs_at(e@, legacy@, i as int));
                }
                assert(e@.subrange(i + legacy@.len(), e@.len() as int) =~= e@.skip(i + legacy@.len()));
                assert(e@.subrange(0, i as int) =~= e@.take(i as int));
            }
            InitPlan::Replace(t)
        },
        None => {
            if text_contains(existing, PROTOCOL_MARKER) {
                if text_contains(existing, PROTOCOL) {
                    InitPlan::AlreadyPresent
                } else {
                    InitPlan::Differs
                }
            } else {
                let mut t = String::new();
                if e.len() > 0 {
                    if e[e.len() - 1] != '\n' {
                        crate::text::push_char(&mut t, '\n');
                    }
                    crate::text::push_char(&mut t, '\n');
                }
                t.append(PROTOCOL);
                assert(t@ =~= append_separator(existing@) + PROTOCOL@);
                InitPlan::Append(t)
            }
        },
    }
}

proof fn lemma_protocol_texts()
    ensures
        PROTOCOL_MARKER@.len() == 25,
        forall|k: int| 0 <= k < PROTOCOL_MARKER@.len() ==> PROTOCOL_MARKER@[k] != '\n',
        PROTOCOL_MARKER@[0] == '<',
        forall|k: int| 0 < k < PROTOCOL_MARKER@.len() ==> PROTOCOL_MARKER@[k] != '<',
        LEGACY_PROTOCOL@.len() == 319,
        LEGACY_PROTOCOL@.take(25) == PROTOCOL_MARKER@,
        LEGACY_PROTOCOL@[72] == '"',
        PROTOCOL@.len() == 937,
        PROTOCOL@.take(25) == PROTOCOL_MARKER@,
        forall|k: int| 0 <= k < PROTOCOL@.len() ==> PROTOCOL@[k] != '"',
{
    reveal_strlit("<!-- SLUMBER PROTOCOL -->");
    reveal_strlit("<!-- SLUMBER PROTOCOL -->\nYou have a background delegator: `slumber run \"<command>\"`.\nRULE:\n- If you need immediate output to write your next command -> run it directly.\n- If your current work is done and you are ready to hand off execution and stop working until it finishes -> use `slumber run \"<command>\"` and exit.\n");
    reveal_strlit("<!-- SLUMBER PROTOCOL -->\nUse Slumber to run long tasks, not to schedule log checks.\n- New task: submit the actual foreground command with `slumber run '<command>'`; do not launch it separately with nohup or `&`. Do short preflight checks directly before submission.\n- Remote task: use `slumber run --ssh <host> '<command>'`, not `slumber run 'ssh ...'`.\n- Already running: do not relaunch. Monitor a run-specific completion record and propagate its exit code; PID disappearance or log text alone does not establish success. Identify the original task logs separately from monitor output.\n- When ready to hand off, submit once. After acceptance, report the job ID and log paths, then end your turn; do not poll or resubmit while waiting for the event.\n- On the completion event, inspect the task's actual exit status, logs and results before continuing. Submission or notification success is not task success.\n<!-- /SLUMBER PROTOCOL -->\n");
    assert(LEGACY_PROTOCOL@.take(25) =~= PROTOCOL_MARKER@);
    assert(PROTOCOL@.take(25) =~= PROTOCOL_MARKER@);
}

/// Running `init` again changes nothing: on any file without a protocol,
/// `init` appends the current protocol, and on the result a second `init`
/// finds the current protocol in place and leaves the file as it is.
pub proof fn lemma_init_is_idempotent(existing: Seq<char>)
    requires
        !contains_text(existing, PROTOCOL_MARKER@),
    ensures
        init_plan_spec(existing) is Append,
        init_plan_spec(existing + append_separator(existing) + PROTOCOL@) == InitPlan::AlreadyPresent,
{
    lemma_protocol_texts();
    let m = PROTOCOL_MARKER@;
    let l = LEGACY_PROTOCOL@;
    let p = PROTOCOL@;
    let sep = append_separator(existing);
    let r = existing + sep + p;
    let e_len = existing.len() as int;
    let start = e_len + sep.len();
    // The legacy protocol begins with the marker, so the file holds neither.
    assert(!contains_text(existing, l)) by {
        if contains_text(existing, l) {
            let i = choose|i: int| occurs_at(existing, l, i);
            assert(existing.subrange(i, i + 25) =~= l.take(25));
            assert(occurs_at(existing, m, i));
        }
    }
    // The appended protocol is there, and so is its marker.
    assert(r.subrange(start, start + p.len()) =~= p);
    assert(occurs_at(r, p, start));
    assert(r.subrange(start, start + 25) =~= m);
    assert(occurs_at(r, m, start));
    // The legacy protocol is not.
    assert forall|i: int| !occurs_at(r, l, i) by {
        if occurs_at(r, l, i) {
            let w = r.subrange(i, i + l.len());
            assert(w == l);
            if i + 25 <= e_len {
                assert(existing.subrange(i, i + 25) =~= l.take(25));
                assert(occurs_at(existing, m, i));
            } else if i < e_len {
                // The marker would run into the separator's newline.
                assert(sep.len() > 0);
                assert(r[e_len] == '\n');
                assert(w[e_len - i] == r[e_len]);
                assert(l[e_len - i] == m[e_len - i]);
            } else if i < start {
                assert(r[i] == '\n');
                assert(w[0] == r[i]);
                assert(l[0] == m[0]);
            } else {
                assert(w[72] == r[i + 72]);
                assert(r[i + 72] == p[i + 72 - start]);
            }
        }
    }
}

/// The agents whose instructions file `init` can select by name.
#[derive(Debug, Clone, Copy, PartialEq, Eq)]
pub enum InitAgent {
    Codex,
}

/// The instructions file of an agent: `AGENTS.md` for Codex.
pub open spec fn agent_file(agent: InitAgent) -> Seq<char> {
    match agent {
        InitAgent::Codex => "AGENTS.md"@,
    }
}

/// The file `init` edits when chosen on the command line: the given path,
/// else the selected agent's file; `None` when the user must be asked.
pub fn init_target(file: Option<&str>, agent: Option<InitAgent>) -> (r: Option<String>)
    ensures
        file matches Some(f) ==> (r matches Some(p) && p@ == f@),
        file is None ==> (agent matches Some(a) ==> (r matches Some(p) && p@ == agent_file(a))),
        file is None && agent is None ==> r is None,
{
    match (file, agent) {
        (Some(f), _) => Some(f.to_owned()),
        (None, Some(InitAgent::Codex)) => Some("AGENTS.md".to_owned()),
        (None, None) => None,
    }
}

/// Why no file was chosen.
#[derive(Debug, Clone, PartialEq, Eq)]
pub enum InitError {
    /// The answer was blank.
    NoSelection,
}

/// The file named by an interactive answer: `codex` (after trimming)
/// selects its agent's file, a blank answer is refused, any other answer is
/// a path.
pub open spec fn init_answer_spec(input: Seq<char>) -> Result<Seq<char>, InitError> {
    let a = crate::text::trim(input);
    if a == "codex"@ {
        Ok("AGENTS.md"@)
    } else if a.len() == 0 {
        Err(InitError::NoSelection)
    } else {
        Ok(a)
    }
}

/// The file named by an interactive answer.
pub fn init_answer(input: &str) -> (r: Result<String, InitError>)
    ensures
        match init_answer_spec(input@) {
            Ok(p) => r matches Ok(q) && q@ == p,
            Err(e) => r == Err::<String, InitError>(e),
        },
{
    let a = crate::text::trim_str(input);
    if crate::text::text_eq(a.as_str(), "codex") {
        Ok("AGENTS.md".to_owned())
    } else if a.as_str().is_empty() {
        Err(InitError::NoSelection)
    } else {
        Ok(a)
    }
}

/// Upgrading keeps the surrounding instructions: in a file whose text before
/// the earlier generated protocol holds no protocol marker, `init` replaces
/// exactly that protocol by the current one and keeps everything around it.
pub proof fn lemma_upgrade_keeps_surroundings(before: Seq<char>, after: Seq<char>)
    requires
        !contains_text(before, PROTOCOL_MARKER@),
    ensures
        init_plan_spec(before + LEGACY_PROTOCOL@ + after) is Replace,
        replace_first(before + LEGACY_PROTOCOL@ + after, LEGACY_PROTOCOL@, PROTOCOL@) == before
            + PROTOCOL@ + after,
{
    lemma_protocol_texts();
    let m = PROTOCOL_MARKER@;
    let l = LEGACY_PROTOCOL@;
    let r = before + l + after;
    let a = before.len() as int;
    assert(r.subrange(a, a + l.len()) =~= l);
    assert(occurs_at(r, l, a));
    assert forall|j: int| 0 <= j < a implies !occurs_at(r, l, j) by {
        if occurs_at(r, l, j) {
            let w = r.subrange(j, j + l.len());
            if j + 25 <= a {
                assert(before.subrange(j, j + 25) =~= l.take(25));
                assert(occurs_at(before, m, j));
            } else {
                assert(w[a - j] == r[a]);
                assert(r[a] == l[0]);
                assert(l[a - j] == m[a - j]);
            }
        }
    }
    let w = first_occurrence(r, l);
    assert(occurs_at(r, l, a) && forall|j: int| 0 <= j < a ==> !occurs_at(r, l, j));
    if w < a {
        assert(!occurs_at(r, l, w));
    } else if w > a {
        assert(!occurs_at(r, l, a));
    }
    assert(r.take(a) =~= before);
    assert(r.skip(a + l.len()) =~= after);
}

} // verus!
