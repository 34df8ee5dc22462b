//! The editor's shared state and the main loop's decisions.
//!
//! The loop itself — the UI pump, the file watcher, the interpreter —
//! lives in the shell; everything it decides is a function here, from
//! flags and evaluation outcomes to the next state and what to show.

use vstd::prelude::*;
use crate::element::{
    Element, ElementV, TextExt, bound, bound_spec, element_valid, elems_view, exts_view,
    text_ext_valid,
};
use crate::error::{MpError, MpErrorV};
use crate::codec::{sp_decode, normalized};
use crate::geom::{Bound, origin_bound};
use crate::strutil::{replace_all, replace_text, str_eq};

verus! {

/// The current validated elements and their combined bound.  It is
/// replaced wholesale on every successful evaluation; there is no
/// partial update.
#[derive(Debug)]
pub struct DrawState {
    pub bound: Bound,
    pub elements: Vec<Element>,
}

impl Default for DrawState {
    /// No elements; the origin-zero bound.
    fn default() -> (r: Self)
        ensures
            r.elements@.len() == 0,
            r.bound@ == origin_bound(),
    {
        DrawState { bound: Bound::default(), elements: Vec::new() }
    }
}

/// The footprint's name: the text of the first name element, and the
/// fixed fallback when there is none.
pub open spec fn first_name(es: Seq<ElementV>) -> Seq<char>
    decreases es.len(),
{
    if es.len() == 0 {
        "NAME"@
    } else {
        match es[0] {
            ElementV::Name(t) => t.txt,
            _ => first_name(es.drop_first()),
        }
    }
}

impl DrawState {
    /// The footprint's name, for the window title and the export file.
    pub fn name(&self) -> (r: String)
        ensures
            r@ == first_name(elems_view(self.elements@)),
    {
        let ghost es = elems_view(self.elements@);
        let mut i: usize = 0;
        proof {
            assert(es.skip(0) =~= es);
        }
        while i < self.elements.len()
            invariant
                i <= self.elements@.len(),
                es == elems_view(self.elements@),
                first_name(es.skip(i as int)) == first_name(es),
            decreases self.elements@.len() - i,
        {
            proof {
                assert(es.skip(i as int)[0] == es[i as int]);
                assert(es.skip(i as int).drop_first() =~= es.skip(i + 1));
            }
            match &self.elements[i] {
                Element::Name(n) => {
                    return n.text.txt.clone();
                },
                _ => {},
            }
            i += 1;
        }
        proof {
            assert(es.skip(i as int).len() == 0);
        }
        String::from_str("NAME")
    }

    /// Replaces the elements wholesale and recomputes the bound from
    /// the given measured text extents.
    pub fn update(&mut self, elements: Vec<Element>, exts: &Vec<TextExt>)
        requires
            elements@.len() == exts@.len(),
            forall|i: int| 0 <= i < elements@.len() ==> element_valid(#[trigger] elements@[i]@),
            forall|i: int| 0 <= i < elements@.len() ==> !(#[trigger] elements@[i]@ is PythonError),
            forall|i: int| 0 <= i < exts@.len() ==> text_ext_valid(#[trigger] exts@[i]@),
        ensures
            final(self).elements@ == elements@,
            final(self).bound@ == bound_spec(elems_view(elements@), exts_view(exts@)),
            crate::geom::bound_wf(final(self).bound@),
    {
        self.bound = bound(&elements, exts);
        self.elements = elements;
    }
}

/// The single-bit condition that the source has changed since the last
/// evaluation.  It starts set, to force an evaluation at startup, and
/// is consumed with test-and-clear semantics, so bursts of writes
/// coalesce into one evaluation.
#[derive(Debug)]
pub struct DirtyFlag {
    set: bool,
}

/// Marking always leaves the flag set.
pub open spec fn mark_spec(b: bool) -> bool {
    true
}

/// Taking yields the flag's value and always leaves it clear.
pub open spec fn take_spec(b: bool) -> (bool, bool) {
    (b, false)
}

impl DirtyFlag {
    /// Whether the flag stands.
    pub closed spec fn is_set(&self) -> bool {
        self.set
    }

    /// A fresh flag, already set.
    pub fn new() -> (r: Self)
        ensures
            r.is_set(),
    {
        DirtyFlag { set: true }
    }

    /// Records a source change.
    pub fn mark(&mut self)
        ensures
            final(self).is_set() == mark_spec(old(self).is_set()),
    {
        self.set = true;
    }

    /// Consumes the flag: its value comes back and the flag clears.
    pub fn take(&mut self) -> (r: bool)
        ensures
            (r, final(self).is_set()) == take_spec(old(self).is_set()),
    {
        let r = self.set;
        self.set = false;
        r
    }
}

/// Any number of source changes coalesce into one evaluation: after
/// two marks, the first take reports a change and the next does not.
pub proof fn lemma_dirty_coalescing()
    ensures
        forall|b: bool| take_spec(mark_spec(mark_spec(b))).0,
        forall|b: bool| !take_spec(take_spec(mark_spec(mark_spec(b))).1).0,
{
}

/// True when some queued file-system event names the watched file.
pub fn any_event_matches(names: &Vec<String>, watched: &str) -> (r: bool)
    ensures
        r == exists|i: int| 0 <= i < names@.len() && (#[trigger] names@[i])@ == watched@,
{
    let mut i: usize = 0;
    while i < names.len()
        invariant
            i <= names@.len(),
            forall|k: int| 0 <= k < i ==> (#[trigger] names@[k])@ != watched@,
        decreases names@.len() - i,
    {
        if str_eq(names[i].as_str(), watched) {
            return true;
        }
        i += 1;
    }
    false
}

/// The orchestrator's states, one evaluation cycle at a time.
#[derive(Clone, Copy, Debug, PartialEq, Eq, Structural)]
pub enum LoopState {
    Idle,
    Evaluating,
    ErrorShown,
    Terminated,
}

/// What the shell must do after a poll of the flags.
#[derive(Clone, Copy, Debug, PartialEq, Eq, Structural)]
pub enum IdleAction {
    Exit,
    PromptExport,
    Evaluate,
    Wait,
}

/// The loop's starting point: idle, with the dirty flag already set so
/// that the first tick evaluates.
pub fn initial_state() -> (r: (LoopState, DirtyFlag))
    ensures
        r.0 == LoopState::Idle,
        r.1.is_set(),
{
    (LoopState::Idle, DirtyFlag::new())
}

/// One poll of the flags from the idle state: exit wins, then an
/// export request, then a pending source change; otherwise wait.
pub fn poll_idle(exit: bool, save: bool, dirty: bool) -> (r: (LoopState, IdleAction))
    ensures
        exit ==> r == (LoopState::Terminated, IdleAction::Exit),
        !exit && save ==> r == (LoopState::Idle, IdleAction::PromptExport),
        !exit && !save && dirty ==> r == (LoopState::Evaluating, IdleAction::Evaluate),
        !exit && !save && !dirty ==> r == (LoopState::Idle, IdleAction::Wait),
{
    if exit {
        (LoopState::Terminated, IdleAction::Exit)
    } else if save {
        (LoopState::Idle, IdleAction::PromptExport)
    } else if dirty {
        (LoopState::Evaluating, IdleAction::Evaluate)
    } else {
        (LoopState::Idle, IdleAction::Wait)
    }
}

/// What one evaluation produced: a validated element list, an in-band
/// script diagnostic, or a malformed wire element.
#[derive(Debug)]
pub enum EvalOutcome {
    Elements(Vec<Element>),
    ScriptError(String),
    Malformed(MpError),
}

/// The mathematical image of an [`EvalOutcome`].
pub enum EvalOutcomeV {
    Elements(Seq<ElementV>),
    ScriptError(Seq<char>),
    Malformed(MpErrorV),
}

impl View for EvalOutcome {
    type V = EvalOutcomeV;

    open spec fn view(&self) -> EvalOutcomeV {
        match self {
            EvalOutcome::Elements(es) => EvalOutcomeV::Elements(elems_view(es@)),
            EvalOutcome::ScriptError(m) => EvalOutcomeV::ScriptError(m@),
            EvalOutcome::Malformed(e) => EvalOutcomeV::Malformed(e@),
        }
    }
}

/// The views of the wire texts of one evaluation.
pub open spec fn wires_view(ws: Seq<String>) -> Seq<Seq<char>> {
    Seq::new(ws.len(), |i: int| ws[i]@)
}

/// What a sequence of wire texts evaluates to: the first malformed
/// text or in-band diagnostic stops the collection; otherwise all the
/// decoded elements, in order.
pub open spec fn collect_spec(ws: Seq<Seq<char>>) -> EvalOutcomeV
    decreases ws.len(),
{
    if ws.len() == 0 {
        EvalOutcomeV::Elements(Seq::empty())
    } else {
        match sp_decode(ws[0]) {
            Err(e) => EvalOutcomeV::Malformed(e),
            Ok(e) => match e {
                ElementV::PythonError(m) => EvalOutcomeV::ScriptError(m),
                _ => match collect_spec(ws.drop_first()) {
                    EvalOutcomeV::Elements(rest) => EvalOutcomeV::Elements(seq![e] + rest),
                    other => other,
                },
            },
        }
    }
}

/// A collected element list is valid, free of diagnostics, and
/// normalized.
pub proof fn lemma_collect_valid(ws: Seq<Seq<char>>)
    ensures
        collect_spec(ws) matches EvalOutcomeV::Elements(es) ==> forall|i: int|
            0 <= i < es.len() ==> element_valid(#[trigger] es[i]) && !(es[i] is PythonError)
                && normalized(es[i]),
    decreases ws.len(),
{
    if ws.len() > 0 {
        lemma_collect_valid(ws.drop_first());
        crate::codec::lemma_decode_valid(ws[0]);
        crate::codec::lemma_decode_normalized(ws[0]);
        match collect_spec(ws) {
            EvalOutcomeV::Elements(es) => {
                match sp_decode(ws[0]) {
                    Ok(e) => {
                        match collect_spec(ws.drop_first()) {
                            EvalOutcomeV::Elements(rest) => {
                                assert(es == seq![e] + rest);
                                assert forall|i: int| 0 <= i < es.len() implies element_valid(
                                    #[trigger] es[i],
                                ) && !(es[i] is PythonError) && normalized(es[i]) by {
                                    if i > 0 {
                                        assert(es[i] == rest[i - 1]);
                                    }
                                }
                            },
                            _ => {},
                        }
                    },
                    _ => {},
                }
            },
            _ => {},
        }
    }
}

/// Evaluating the same wire texts twice yields structurally equal
/// outcomes: collection is a function of the texts alone.
pub proof fn lemma_collect_deterministic(ws1: Seq<Seq<char>>, ws2: Seq<Seq<char>>)
    requires
        ws1 == ws2,
    ensures
        collect_spec(ws1) == collect_spec(ws2),
{
}

/// Decodes one evaluation's wire texts; exec twin of [`collect_spec`].
pub fn collect_elements(wire: &Vec<String>) -> (r: EvalOutcome)
    ensures
        r@ == collect_spec(wires_view(wire@)),
{
    let ghost ws = wires_view(wire@);
    let mut acc: Vec<Element> = Vec::new();
    let mut i: usize = 0;
    proof {
        assert(ws.skip(0) =~= ws);
        assert(elems_view(acc@) =~= Seq::<ElementV>::empty());
    }
    while i < wire.len()
        invariant
            i <= wire@.len(),
            ws == wires_view(wire@),
            (match collect_spec(ws.skip(i as int)) {
                EvalOutcomeV::Elements(rest) => collect_spec(ws) == EvalOutcomeV::Elements(
                    elems_view(acc@) + rest,
                ),
                other => collect_spec(ws) == other,
            }),
        decreases wire@.len() - i,
    {
        let ghost rest0 = ws.skip(i as int);
        proof {
            assert(rest0[0] == ws[i as int]);
            assert(rest0.drop_first() =~= ws.skip(i + 1));
        }
        match Element::try_from_wire(wire[i].as_str()) {
            Err(e) => {
                return EvalOutcome::Malformed(e);
            },
            Ok(e) => {
                match e {
                    Element::PythonError(pe) => {
                        return EvalOutcome::ScriptError(pe.message);
                    },
                    other => {
                        let ghost a0 = elems_view(acc@);
                        let ghost ev = other@;
                        acc.push(other);
                        proof {
                            assert(elems_view(acc@) =~= a0.push(ev));
                            match collect_spec(ws.skip(i + 1)) {
                                EvalOutcomeV::Elements(rest) => {
                                    assert(elems_view(acc@) + rest =~= a0 + (seq![ev] + rest));
                                },
                                _ => {},
                            }
                        }
                    },
                }
            },
        }
        i += 1;
    }
    proof {
        assert(ws.skip(wire@.len() as int).len() == 0);
        assert(elems_view(acc@) + Seq::<ElementV>::empty() =~= elems_view(acc@));
    }
    EvalOutcome::Elements(acc)
}

/// The marker the interpreter writes in place of the source path.
pub open spec fn source_marker() -> Seq<char> {
    "<string>"@
}

/// A diagnostic with every source marker replaced by the script's
/// real path, ready for the text pane.
pub fn diagnostic_for_display(msg: &str, path: &str) -> (r: String)
    ensures
        r@ == replace_text(msg@, source_marker(), path@),
{
    proof {
        reveal_strlit("<string>");
    }
    replace_all(msg, "<string>", path)
}

/// The evaluation outcome drives the next state: a good element list
/// returns to idle; a diagnostic or a malformed element shows its text,
/// with the source markers pointed at the script.
pub fn eval_step(outcome: &EvalOutcome, path: &str) -> (r: (LoopState, Option<String>))
    ensures
        match outcome@ {
            EvalOutcomeV::Elements(_) => r.0 == LoopState::Idle && r.1 is None,
            EvalOutcomeV::ScriptError(m) => r.0 == LoopState::ErrorShown && (r.1 matches Some(s)
                && s@ == replace_text(m, source_marker(), path@)),
            EvalOutcomeV::Malformed(e) => r.0 == LoopState::ErrorShown && (r.1 matches Some(s) && {
                match e {
                    MpErrorV::GuiError(m) => s@ == replace_text(m, source_marker(), path@),
                    MpErrorV::IOError(m) => s@ == replace_text(m, source_marker(), path@),
                    MpErrorV::Python(m) => s@ == replace_text(m, source_marker(), path@),
                    MpErrorV::Other(m) => s@ == replace_text(m, source_marker(), path@),
                    MpErrorV::Json(m) => s@ == replace_text(m, source_marker(), path@),
                    MpErrorV::Save(m) => s@ == replace_text(m, source_marker(), path@),
                    MpErrorV::BadElement(m) => s@ == replace_text(m, source_marker(), path@),
                }
            }),
        },
{
    match outcome {
        EvalOutcome::Elements(_) => (LoopState::Idle, None),
        EvalOutcome::ScriptError(m) => (
            LoopState::ErrorShown,
            Some(diagnostic_for_display(m.as_str(), path)),
        ),
        EvalOutcome::Malformed(e) => (
            LoopState::ErrorShown,
            Some(diagnostic_for_display(e.message().as_str(), path)),
        ),
    }
}

/// Showing the error is the end of the cycle: the loop continues.
pub fn acknowledge_error() -> (r: LoopState)
    ensures
        r == LoopState::Idle,
{
    LoopState::Idle
}

/// The window title for a footprint name.
pub fn window_title(name: &str) -> (r: String)
    ensures
        r@ == "madparts (rustic edition) "@ + crate::version_text() + " : "@ + name@,
{
    let mut t = String::from_str("madparts (rustic edition) ");
    t.append(crate::version());
    t.append(" : ");
    t.append(name);
    proof {
        assert(t@ =~= "madparts (rustic edition) "@ + crate::version_text() + " : "@ + name@);
    }
    t
}

/// The status line after a successful cycle.
pub fn status_ready(name: &str) -> (r: String)
    ensures
        r@ == name@ + " ready."@,
{
    let mut t = String::from_str(name);
    t.append(" ready.");
    t
}

/// The suggested file name for an export.
pub fn export_basename(name: &str) -> (r: String)
    ensures
        r@ == name@ + ".kicad_mod"@,
{
    let mut t = String::from_str(name);
    t.append(".kicad_mod");
    t
}

/// The text pane's placeholder when no linter directory is configured.
pub fn klc_not_configured() -> (r: &'static str)
    ensures
        r@ == "KLC not configured"@,
{
    "KLC not configured"
}

/// The expression the interpreter evaluates each cycle.
pub fn eval_expression(path: &str) -> (r: String)
    ensures
        r@ == "handle_load_python(\""@ + path@ + "\")"@,
{
    let mut t = String::from_str("handle_load_python(\"");
    t.append(path);
    t.append("\")");
    proof {
        assert(t@ =~= "handle_load_python(\""@ + path@ + "\")"@);
    }
    t
}

/// The external linter invocation for an exported file: the
/// interpreter to run and its arguments, in order.
pub fn klc_command(file_path: &str) -> (r: (String, Vec<String>))
    ensures
        r.0@ == "/usr/bin/python"@,
        r.1@.len() == 4,
        r.1@[0]@ == "check_kicad_mod.py"@,
        r.1@[1]@ == "--nocolor"@,
        r.1@[2]@ == "-v"@,
        r.1@[3]@ == file_path@,
{
    let mut args: Vec<String> = Vec::new();
    args.push(String::from_str("check_kicad_mod.py"));
    args.push(String::from_str("--nocolor"));
    args.push(String::from_str("-v"));
    args.push(String::from_str(file_path));
    (String::from_str("/usr/bin/python"), args)
}

} // verus!
