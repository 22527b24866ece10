//! The evaluation of one script as a state machine.
//!
//! The driver owns the handle to the engine's execution context for the whole
//! evaluation and decides what happens next; whoever runs it performs the engine
//! calls and the script evaluation, and reports back. The handle leaves the driver
//! together with the tree that is to be executed and comes back with the engine's
//! report, so that at most one user holds it at any time.
//!
//! A request for the handle while it is lent out is a fatal misuse and no error
//! to recover from: `next_import` and `declare` may only be called on a driver
//! that has the handle, which `is_lent` tells.

use vstd::prelude::*;
use vstd::pervasive::unreached;
use crate::assembler::assemble;
use crate::assembler::assembled;
use crate::assembler::declaration_outcome;
use crate::assembler::declaration_result;
use crate::assembler::keyword_models;
use crate::assembler::Keyword;
use crate::assembler::KeywordModel;
use crate::error::out_of_phase;
use crate::error::script_failed;
use crate::error::unknown_function;
use crate::error::unsupported_load;
use crate::error::EngineError;
use crate::error::ErrorModel;
use crate::error::TranslationError;
use crate::import::first_occurrences;
use crate::import::import_call;
use crate::import::lemma_first_occurrences;
use crate::import::import_node;
use crate::import::import_outcome;
use crate::import::import_result;
use crate::import::is_supported;
use crate::import::is_supported_load;
use crate::import::TemplateNamespace;
use crate::node::NodeModel;
use crate::node::SyntheticNode;
use crate::text::same_text;
use crate::value::texts;

verus! {

/// Where the evaluation of a script stands. `Completed` and `Failed` are final.
#[derive(Debug, PartialEq, Eq)]
pub enum Phase {
    /// Nothing has happened yet.
    Idle,
    /// The script's loads are being resolved.
    Loading,
    /// The script's statements are running.
    Evaluating,
    /// The script ran to its end.
    Completed,
    /// The evaluation ended with this failure, the first that arose.
    Failed(TranslationError),
}

/// The mathematical value of a [`Phase`].
pub enum PhaseModel {
    Idle,
    Loading,
    Evaluating,
    Completed,
    Failed(ErrorModel),
}

impl View for Phase {
    type V = PhaseModel;

    open spec fn view(&self) -> PhaseModel {
        match self {
            Phase::Idle => PhaseModel::Idle,
            Phase::Loading => PhaseModel::Loading,
            Phase::Evaluating => PhaseModel::Evaluating,
            Phase::Completed => PhaseModel::Completed,
            Phase::Failed(error) => PhaseModel::Failed(error@),
        }
    }
}

/// The place of the execution-context handle: here, or lent to one engine call.
#[derive(Debug, PartialEq, Eq)]
pub enum ContextSlot<H> {
    /// The handle is here, and may be lent.
    Present(H),
    /// The handle is with the engine, for an import.
    LentToImport,
    /// The handle is with the engine, for a declaration through the named function.
    LentToDeclaration(String),
}

/// The mathematical value of a [`ContextSlot`].
pub enum SlotModel<H> {
    Present(H),
    LentToImport,
    LentToDeclaration(Seq<char>),
}

impl<H> View for ContextSlot<H> {
    type V = SlotModel<H>;

    open spec fn view(&self) -> SlotModel<H> {
        match self {
            ContextSlot::Present(context) => SlotModel::Present(*context),
            ContextSlot::LentToImport => SlotModel::LentToImport,
            ContextSlot::LentToDeclaration(function_name) => SlotModel::LentToDeclaration(
                function_name@,
            ),
        }
    }
}

/// What is to happen next while the loads are resolved.
#[derive(Debug, PartialEq, Eq)]
pub enum ImportStep<H> {
    /// Execute this import with the handle, then report with `import_done`.
    Execute { tree: SyntheticNode, context: H },
    /// Every load is resolved: run the script.
    Ready,
    /// The evaluation has failed.
    Halt(TranslationError),
}

/// The mathematical value of an [`ImportStep`].
pub enum ImportStepModel<H> {
    Execute { tree: NodeModel, context: H },
    Ready,
    Halt(ErrorModel),
}

impl<H> View for ImportStep<H> {
    type V = ImportStepModel<H>;

    open spec fn view(&self) -> ImportStepModel<H> {
        match self {
            ImportStep::Execute { tree, context } => ImportStepModel::Execute {
                tree: tree@,
                context: *context,
            },
            ImportStep::Ready => ImportStepModel::Ready,
            ImportStep::Halt(error) => ImportStepModel::Halt(error@),
        }
    }
}

/// The names of each namespace of `namespaces`, in order.
pub open spec fn namespace_models(namespaces: Seq<TemplateNamespace>) -> Seq<Seq<Seq<char>>> {
    namespaces.map_values(|namespace: TemplateNamespace| namespace@)
}

/// The order of the phases: `after` is `before`, or the phase next to it, or the
/// failure of an evaluation that had not ended.
pub open spec fn follows(before: PhaseModel, after: PhaseModel) -> bool {
    ||| after == before
    ||| before is Idle && after is Loading
    ||| before is Loading && after is Evaluating
    ||| before is Evaluating && after is Completed
    ||| !(before is Completed) && !(before is Failed) && after is Failed
}

/// One of the two declaration functions that every script has.
pub open spec fn is_builtin(function_name: Seq<char>) -> bool {
    function_name == "executable"@ || function_name == "group"@
}

/// The state of an evaluation: the phase, the place of the handle, the modules that
/// the script loads, and the namespaces of those resolved so far, in the same order.
pub struct DriverModel<H> {
    pub phase: PhaseModel,
    pub slot: SlotModel<H>,
    pub loads: Seq<Seq<char>>,
    pub namespaces: Seq<Seq<Seq<char>>>,
}

impl<H> DriverModel<H> {
    /// The state in which every evaluation starts.
    pub open spec fn initial(context: H, loads: Seq<Seq<char>>) -> DriverModel<H> {
        DriverModel {
            phase: PhaseModel::Idle,
            slot: SlotModel::Present(context),
            loads,
            namespaces: Seq::empty(),
        }
    }

    /// The phase is one that nothing leads out of.
    pub open spec fn is_final(self) -> bool {
        self.phase is Completed || self.phase is Failed
    }

    /// The handle is lent out.
    pub open spec fn is_lent(self) -> bool {
        !(self.slot is Present)
    }

    /// The handle, where it is here.
    pub open spec fn context(self) -> H
        recommends
            !self.is_lent(),
    {
        self.slot->Present_0
    }

    /// This state with another phase.
    pub open spec fn in_phase(self, phase: PhaseModel) -> DriverModel<H> {
        DriverModel { phase, slot: self.slot, loads: self.loads, namespaces: self.namespaces }
    }

    /// This state with the handle in another place.
    pub open spec fn with_slot(self, slot: SlotModel<H>) -> DriverModel<H> {
        DriverModel { phase: self.phase, slot, loads: self.loads, namespaces: self.namespaces }
    }

    /// The state after a call that cannot proceed: a final state stays as it is, any
    /// other fails with `error`.
    pub open spec fn halted(self, error: ErrorModel) -> DriverModel<H> {
        if self.is_final() {
            self
        } else {
            self.in_phase(PhaseModel::Failed(error))
        }
    }

    /// What a call that cannot proceed reports: the first failure where the
    /// evaluation has failed before, else `error`.
    pub open spec fn refusal(self, error: ErrorModel) -> ErrorModel {
        match self.phase {
            PhaseModel::Failed(first) => first,
            _ => error,
        }
    }

    /// What holds of every state that an evaluation can reach: the namespaces belong
    /// to the first loads, all of which follow the convention; the statements run
    /// only once every load is resolved; and the handle is lent only to a call that
    /// fits the phase.
    pub open spec fn wf(self) -> bool {
        &&& self.namespaces.len() <= self.loads.len()
        &&& forall|i: int|
            0 <= i < self.namespaces.len() ==> is_supported(#[trigger] self.loads[i])
        &&& forall|i: int|
            0 <= i < self.namespaces.len() ==> (#[trigger] self.namespaces[i]).no_duplicates()
        &&& match self.phase {
            PhaseModel::Idle => self.namespaces.len() == 0 && self.slot is Present,
            PhaseModel::Loading => !(self.slot is LentToDeclaration),
            PhaseModel::Evaluating => self.namespaces.len() == self.loads.len() && !(self.slot
                is LentToImport),
            PhaseModel::Completed => self.namespaces.len() == self.loads.len()
                && self.slot is Present,
            PhaseModel::Failed(_) => true,
        }
        &&& self.slot is LentToImport ==> self.namespaces.len() < self.loads.len() && is_supported(
            self.loads[self.namespaces.len() as int],
        )
        &&& self.slot is LentToDeclaration ==> self.namespaces.len() == self.loads.len()
    }

    /// A declaration function of that name is registered: a built-in, or a template
    /// of a resolved namespace.
    pub open spec fn is_registered(self, function_name: Seq<char>) -> bool {
        is_builtin(function_name) || exists|i: int|
            0 <= i < self.namespaces.len() && (#[trigger] self.namespaces[i]).contains(
                function_name,
            )
    }

    /// Begins to resolve the loads.
    pub open spec fn begin(self) -> (DriverModel<H>, Result<(), ErrorModel>) {
        if self.phase is Idle {
            (self.in_phase(PhaseModel::Loading), Ok(()))
        } else {
            (self.halted(out_of_phase()), Err(self.refusal(out_of_phase())))
        }
    }

    /// Asks what to do next about the loads: the next load is checked against the
    /// convention and its import handed out together with the handle; with every
    /// load resolved, the statements may run. It is a request for the handle, and
    /// stands only for a state that has the handle.
    pub open spec fn next_import(self) -> (DriverModel<H>, ImportStepModel<H>)
        recommends
            !self.is_lent(),
    {
        if self.phase is Loading {
            if self.namespaces.len() >= self.loads.len() {
                (self.in_phase(PhaseModel::Evaluating), ImportStepModel::Ready)
            } else {
                let module_id = self.loads[self.namespaces.len() as int];
                if is_supported(module_id) {
                    (
                        self.with_slot(SlotModel::LentToImport),
                        ImportStepModel::Execute {
                            tree: import_node(module_id),
                            context: self.context(),
                        },
                    )
                } else {
                    (
                        self.in_phase(PhaseModel::Failed(unsupported_load())),
                        ImportStepModel::Halt(unsupported_load()),
                    )
                }
            }
        } else {
            (self.halted(out_of_phase()), ImportStepModel::Halt(self.refusal(out_of_phase())))
        }
    }

    /// One load resolved with an engine that answers with the handle it was given:
    /// the import is asked for, and the engine's report and names are taken.
    pub open spec fn import_round(self, report: EngineError, template_names: Seq<Seq<char>>)
        -> DriverModel<H>
        recommends
            !self.is_lent(),
    {
        self.next_import().0.import_done(self.context(), report, template_names).0
    }

    /// One round for each of `answers`, in order: the template names that the
    /// engine returns for one load after the other.
    pub open spec fn import_rounds(self, report: EngineError, answers: Seq<Seq<Seq<char>>>)
        -> DriverModel<H>
        recommends
            !self.is_lent(),
        decreases answers.len(),
    {
        if answers.len() == 0 {
            self
        } else {
            self.import_rounds(report, answers.drop_last()).import_round(report, answers.last())
        }
    }

    /// Takes the handle back after an import, with the engine's report and the
    /// template names it returned.
    pub open spec fn import_done(
        self,
        context: H,
        report: EngineError,
        template_names: Seq<Seq<char>>,
    ) -> (DriverModel<H>, Result<(), ErrorModel>) {
        if self.slot is LentToImport {
            let back = self.with_slot(SlotModel::Present(context));
            if self.phase is Loading {
                match import_result(report, template_names) {
                    Ok(namespace) => (
                        DriverModel {
                            phase: back.phase,
                            slot: back.slot,
                            loads: back.loads,
                            namespaces: back.namespaces.push(namespace),
                        },
                        Ok(()),
                    ),
                    Err(error) => (back.in_phase(PhaseModel::Failed(error)), Err(error)),
                }
            } else {
                (back.halted(out_of_phase()), Err(back.refusal(out_of_phase())))
            }
        } else {
            (self.halted(out_of_phase()), Err(self.refusal(out_of_phase())))
        }
    }

    /// Routes one call of a declaration function: where the function is registered,
    /// the call is assembled and the tree handed out together with the handle. It is
    /// a request for the handle, and stands only for a state that has the handle.
    pub open spec fn declare(self, function_name: Seq<char>, keywords: Seq<KeywordModel>) -> (
        DriverModel<H>,
        Result<(NodeModel, H), ErrorModel>,
    )
        recommends
            !self.is_lent(),
    {
        if self.phase is Evaluating {
            if !self.is_registered(function_name) {
                (
                    self.in_phase(PhaseModel::Failed(unknown_function(function_name))),
                    Err(unknown_function(function_name)),
                )
            } else {
                match assembled(function_name, keywords) {
                    Ok(tree) => (
                        self.with_slot(SlotModel::LentToDeclaration(function_name)),
                        Ok((tree, self.context())),
                    ),
                    Err(error) => (self.in_phase(PhaseModel::Failed(error)), Err(error)),
                }
            }
        } else {
            (self.halted(out_of_phase()), Err(self.refusal(out_of_phase())))
        }
    }

    /// Takes the handle back after a declaration, with the engine's report.
    pub open spec fn declaration_done(self, context: H, report: EngineError) -> (
        DriverModel<H>,
        Result<(), ErrorModel>,
    ) {
        match self.slot {
            SlotModel::LentToDeclaration(function_name) => {
                let back = self.with_slot(SlotModel::Present(context));
                if self.phase is Evaluating {
                    match declaration_result(function_name, report) {
                        Ok(_) => (back, Ok(())),
                        Err(error) => (back.in_phase(PhaseModel::Failed(error)), Err(error)),
                    }
                } else {
                    (back.halted(out_of_phase()), Err(back.refusal(out_of_phase())))
                }
            },
            _ => (self.halted(out_of_phase()), Err(self.refusal(out_of_phase()))),
        }
    }

    /// Ends the evaluation with what the evaluator said of the script.
    pub open spec fn finish(self, script_outcome: Result<(), Seq<char>>) -> (
        DriverModel<H>,
        Result<(), ErrorModel>,
    ) {
        if self.phase is Evaluating && self.slot is Present {
            match script_outcome {
                Ok(_) => (self.in_phase(PhaseModel::Completed), Ok(())),
                Err(message) => (
                    self.in_phase(PhaseModel::Failed(script_failed(message))),
                    Err(script_failed(message)),
                ),
            }
        } else {
            (self.halted(out_of_phase()), Err(self.refusal(out_of_phase())))
        }
    }
}

/// What the evaluator said of the script, with the message as plain text.
pub open spec fn outcome_model(script_outcome: Result<(), String>) -> Result<(), Seq<char>> {
    match script_outcome {
        Ok(_) => Ok(()),
        Err(message) => Err(message@),
    }
}

/// Tells whether `function_name` names one of the two built-in declaration functions.
pub fn is_builtin_function(function_name: &str) -> (builtin: bool)
    ensures
        builtin == is_builtin(function_name@),
{
    same_text(function_name, "executable") || same_text(function_name, "group")
}

/// The evaluation of one script.
#[derive(Debug)]
pub struct Driver<H> {
    phase: Phase,
    slot: ContextSlot<H>,
    loads: Vec<String>,
    namespaces: Vec<TemplateNamespace>,
}

impl<H> View for Driver<H> {
    type V = DriverModel<H>;

    closed spec fn view(&self) -> DriverModel<H> {
        DriverModel {
            phase: self.phase@,
            slot: self.slot@,
            loads: texts(self.loads@),
            namespaces: namespace_models(self.namespaces@),
        }
    }
}

impl<H> Driver<H> {
    /// Starts the evaluation of a script that loads the given modules, in that
    /// order, with the handle to the engine's execution context.
    pub fn new(context: H, loads: Vec<String>) -> (driver: Driver<H>)
        ensures
            driver@ == DriverModel::initial(context, texts(loads@)),
            driver@.wf(),
    {
        let driver = Driver {
            phase: Phase::Idle,
            slot: ContextSlot::Present(context),
            loads,
            namespaces: Vec::new(),
        };
        assert(driver@.namespaces =~= Seq::<Seq<Seq<char>>>::empty());
        driver
    }

    /// Where the evaluation stands.
    pub fn phase(&self) -> (phase: &Phase)
        ensures
            phase@ == self@.phase,
    {
        &self.phase
    }

    /// Whether the handle is lent out.
    pub fn is_lent(&self) -> (lent: bool)
        ensures
            lent == self@.is_lent(),
    {
        match &self.slot {
            ContextSlot::Present(_) => false,
            _ => true,
        }
    }

    /// The modules that the script loads.
    pub fn loads(&self) -> (loads: &Vec<String>)
        ensures
            texts(loads@) == self@.loads,
    {
        &self.loads
    }

    /// The namespaces of the loads resolved so far, in the order of the loads.
    pub fn namespaces(&self) -> (namespaces: &Vec<TemplateNamespace>)
        ensures
            namespace_models(namespaces@) == self@.namespaces,
    {
        &self.namespaces
    }

    /// Ends the driver and gives up the handle, unless it is lent out.
    pub fn into_context(self) -> (context: Option<H>)
        ensures
            context == match self@.slot {
                SlotModel::Present(handle) => Some(handle),
                _ => None,
            },
    {
        match self.slot {
            ContextSlot::Present(handle) => Some(handle),
            _ => None,
        }
    }

    /// Tells whether a declaration function of that name is registered.
    pub fn is_registered(&self, function_name: &str) -> (registered: bool)
        ensures
            registered == self@.is_registered(function_name@),
    {
        if is_builtin_function(function_name) {
            return true;
        }
        let ghost all = namespace_models(self.namespaces@);
        let mut index: usize = 0;
        while index < self.namespaces.len()
            invariant
                index <= self.namespaces.len(),
                all == namespace_models(self.namespaces@),
                forall|i: int| 0 <= i < index ==> !(#[trigger] all[i]).contains(function_name@),
            decreases self.namespaces.len() - index,
        {
            if self.namespaces[index].get(function_name).is_some() {
                assert(self@.namespaces[index as int].contains(function_name@));
                return true;
            }
            index += 1;
        }
        false
    }

    /// Ends a call that cannot proceed: fails the evaluation with `error` unless it
    /// has ended before, and says what the caller is to report.
    fn refuse(&mut self, error: TranslationError) -> (reported: TranslationError)
        ensures
            final(self)@ == old(self)@.halted(error@),
            reported@ == old(self)@.refusal(error@),
    {
        match &self.phase {
            Phase::Failed(first) => first.duplicate(),
            Phase::Completed => error,
            _ => {
                self.phase = Phase::Failed(error.duplicate());
                error
            },
        }
    }

    /// Begins to resolve the loads. Only an evaluation that has not begun can.
    pub fn begin(&mut self) -> (outcome: Result<(), TranslationError>)
        ensures
            final(self)@ == old(self)@.begin().0,
            match outcome {
                Ok(_) => old(self)@.begin().1 == Ok::<(), ErrorModel>(()),
                Err(error) => old(self)@.begin().1 == Err::<(), ErrorModel>(error@),
            },
            old(self)@.wf() ==> final(self)@.wf(),
    {
        proof {
            if self@.wf() {
                lemma_begin_wf(self@);
            }
        }
        let idle = match &self.phase {
            Phase::Idle => true,
            _ => false,
        };
        if !idle {
            return Err(self.refuse(TranslationError::for_out_of_phase()));
        }
        self.phase = Phase::Loading;
        Ok(())
    }

    /// Takes the handle out and leaves word of where it went.
    fn lend(&mut self, to: ContextSlot<H>) -> (context: H)
        requires
            !old(self)@.is_lent(),
            !(to is Present),
        ensures
            final(self)@ == old(self)@.with_slot(to@),
            context == old(self)@.context(),
    {
        let mut slot = to;
        core::mem::swap(&mut self.slot, &mut slot);
        match slot {
            ContextSlot::Present(context) => context,
            _ => unreached(),
        }
    }

    /// Asks what to do next about the loads. While a load is unresolved and its
    /// identifier follows the convention, its import is handed out together with
    /// the handle; an identifier outside the convention fails the evaluation; with
    /// every load resolved, the statements may run.
    ///
    /// This is a request for the handle. To ask while the handle is lent out is a
    /// fatal misuse, which no caller may commit: test `is_lent` where in doubt.
    pub fn next_import(&mut self) -> (step: ImportStep<H>)
        requires
            !old(self)@.is_lent(),
        ensures
            final(self)@ == old(self)@.next_import().0,
            step@ == old(self)@.next_import().1,
            old(self)@.wf() ==> final(self)@.wf(),
    {
        proof {
            if self@.wf() {
                lemma_next_import_wf(self@);
            }
        }
        let loading = match &self.phase {
            Phase::Loading => true,
            _ => false,
        };
        if !loading {
            return ImportStep::Halt(self.refuse(TranslationError::for_out_of_phase()));
        }
        if self.namespaces.len() >= self.loads.len() {
            self.phase = Phase::Evaluating;
            return ImportStep::Ready;
        }
        if !is_supported_load(self.loads[self.namespaces.len()].as_str()) {
            self.phase = Phase::Failed(TranslationError::for_unsupported_load());
            return ImportStep::Halt(TranslationError::for_unsupported_load());
        }
        let tree = import_call(self.loads[self.namespaces.len()].as_str());
        let context = self.lend(ContextSlot::LentToImport);
        ImportStep::Execute { tree, context }
    }

    /// Takes the handle back after an import. Where the engine reports an error the
    /// evaluation fails with the engine's message; else the template names it
    /// returned become the namespace of the load.
    pub fn import_done(
        &mut self,
        context: H,
        report: &EngineError,
        template_names: &Vec<String>,
    ) -> (outcome: Result<(), TranslationError>)
        ensures
            final(self)@ == old(self)@.import_done(context, *report, texts(template_names@)).0,
            match outcome {
                Ok(_) => old(self)@.import_done(context, *report, texts(template_names@)).1 == Ok::<
                    (),
                    ErrorModel,
                >(()),
                Err(error) => old(self)@.import_done(context, *report, texts(template_names@)).1
                    == Err::<(), ErrorModel>(error@),
            },
            old(self)@.wf() ==> final(self)@.wf(),
    {
        proof {
            if self@.wf() {
                lemma_import_done_wf(self@, context, *report, texts(template_names@));
            }
        }
        let lent = match &self.slot {
            ContextSlot::LentToImport => true,
            _ => false,
        };
        if !lent {
            return Err(self.refuse(TranslationError::for_out_of_phase()));
        }
        self.slot = ContextSlot::Present(context);
        let loading = match &self.phase {
            Phase::Loading => true,
            _ => false,
        };
        if !loading {
            return Err(self.refuse(TranslationError::for_out_of_phase()));
        }
        match import_outcome(report, template_names) {
            Ok(namespace) => {
                let ghost earlier = namespace_models(self.namespaces@);
                self.namespaces.push(namespace);
                assert(namespace_models(self.namespaces@) =~= earlier.push(namespace@));
                Ok(())
            },
            Err(error) => {
                self.phase = Phase::Failed(error.duplicate());
                Err(error)
            },
        }
    }

    /// Routes one call of a declaration function. While the statements run and the
    /// function is registered, the call is assembled and its tree handed out
    /// together with the handle; any failure ends the evaluation.
    ///
    /// This is a request for the handle. To ask while the handle is lent out is a
    /// fatal misuse, which no caller may commit: test `is_lent` where in doubt.
    pub fn declare(&mut self, function_name: &str, keywords: &Vec<Keyword>) -> (outcome: Result<
        (SyntheticNode, H),
        TranslationError,
    >)
        requires
            !old(self)@.is_lent(),
        ensures
            final(self)@ == old(self)@.declare(function_name@, keyword_models(keywords@)).0,
            match outcome {
                Ok((tree, context)) => old(self)@.declare(
                    function_name@,
                    keyword_models(keywords@),
                ).1 == Ok::<(NodeModel, H), ErrorModel>((tree@, context)),
                Err(error) => old(self)@.declare(function_name@, keyword_models(keywords@)).1
                    == Err::<(NodeModel, H), ErrorModel>(error@),
            },
            old(self)@.wf() ==> final(self)@.wf(),
    {
        proof {
            if self@.wf() {
                lemma_declare_wf(self@, function_name@, keyword_models(keywords@));
            }
        }
        let evaluating = match &self.phase {
            Phase::Evaluating => true,
            _ => false,
        };
        if !evaluating {
            return Err(self.refuse(TranslationError::for_out_of_phase()));
        }
        if !self.is_registered(function_name) {
            self.phase = Phase::Failed(TranslationError::for_unknown_function(function_name));
            return Err(TranslationError::for_unknown_function(function_name));
        }
        match assemble(function_name, keywords) {
            Ok(tree) => {
                let context = self.lend(
                    ContextSlot::LentToDeclaration(String::from_str(function_name)),
                );
                Ok((tree, context))
            },
            Err(error) => {
                self.phase = Phase::Failed(error.duplicate());
                Err(error)
            },
        }
    }

    /// Takes the handle back after a declaration. Where the engine reports an error
    /// the evaluation fails with the engine's message behind the function name.
    pub fn declaration_done(&mut self, context: H, report: &EngineError) -> (outcome: Result<
        (),
        TranslationError,
    >)
        ensures
            final(self)@ == old(self)@.declaration_done(context, *report).0,
            match outcome {
                Ok(_) => old(self)@.declaration_done(context, *report).1 == Ok::<(), ErrorModel>(
                    (),
                ),
                Err(error) => old(self)@.declaration_done(context, *report).1 == Err::<
                    (),
                    ErrorModel,
                >(error@),
            },
            old(self)@.wf() ==> final(self)@.wf(),
    {
        proof {
            if self@.wf() {
                lemma_declaration_done_wf(self@, context, *report);
            }
        }
        let mut slot = ContextSlot::Present(context);
        let lent = match &self.slot {
            ContextSlot::LentToDeclaration(_) => true,
            _ => false,
        };
        if !lent {
            return Err(self.refuse(TranslationError::for_out_of_phase()));
        }
        core::mem::swap(&mut self.slot, &mut slot);
        let evaluating = match &self.phase {
            Phase::Evaluating => true,
            _ => false,
        };
        if !evaluating {
            return Err(self.refuse(TranslationError::for_out_of_phase()));
        }
        match slot {
            ContextSlot::LentToDeclaration(function_name) => {
                match declaration_outcome(function_name.as_str(), report) {
                    Ok(_) => Ok(()),
                    Err(error) => {
                        self.phase = Phase::Failed(error.duplicate());
                        Err(error)
                    },
                }
            },
            // Not reached: the handle was found lent to a declaration above.
            _ => Ok(()),
        }
    }

    /// Ends the evaluation with what the evaluator said of the script: completion,
    /// or the script's failure. After an earlier failure, that one stands.
    pub fn finish(&mut self, script_outcome: Result<(), String>) -> (outcome: Result<
        (),
        TranslationError,
    >)
        ensures
            final(self)@ == old(self)@.finish(outcome_model(script_outcome)).0,
            match outcome {
                Ok(_) => old(self)@.finish(outcome_model(script_outcome)).1 == Ok::<
                    (),
                    ErrorModel,
                >(()),
                Err(error) => old(self)@.finish(outcome_model(script_outcome)).1 == Err::<
                    (),
                    ErrorModel,
                >(error@),
            },
            old(self)@.wf() ==> final(self)@.wf(),
    {
        proof {
            if self@.wf() {
                lemma_finish_wf(self@, outcome_model(script_outcome));
            }
        }
        let evaluating = match &self.phase {
            Phase::Evaluating => true,
            _ => false,
        };
        if !evaluating || self.is_lent() {
            return Err(self.refuse(TranslationError::for_out_of_phase()));
        }
        match script_outcome {
            Ok(_) => {
                self.phase = Phase::Completed;
                Ok(())
            },
            Err(message) => {
                self.phase = Phase::Failed(TranslationError::for_script_failed(message.as_str()));
                Err(TranslationError::for_script_failed(message.as_str()))
            },
        }
    }
}

/// Every evaluation starts in a state that is well formed.
pub proof fn lemma_initial_wf<H>(context: H, loads: Seq<Seq<char>>)
    ensures
        DriverModel::initial(context, loads).wf(),
{
}

/// Beginning keeps the state well formed.
pub proof fn lemma_begin_wf<H>(state: DriverModel<H>)
    requires
        state.wf(),
    ensures
        state.begin().0.wf(),
{
}

/// Asking for the next import keeps the state well formed.
pub proof fn lemma_next_import_wf<H>(state: DriverModel<H>)
    requires
        state.wf(),
        !state.is_lent(),
    ensures
        state.next_import().0.wf(),
{
}

/// Reporting an import keeps the state well formed.
pub proof fn lemma_import_done_wf<H>(
    state: DriverModel<H>,
    context: H,
    report: EngineError,
    template_names: Seq<Seq<char>>,
)
    requires
        state.wf(),
    ensures
        state.import_done(context, report, template_names).0.wf(),
{
    lemma_first_occurrences(template_names);
    let next = state.import_done(context, report, template_names).0;
    if state.slot is LentToImport && state.phase is Loading && !report.has_error {
        assert forall|i: int| 0 <= i < next.namespaces.len() implies is_supported(
            #[trigger] next.loads[i],
        ) by {
            if i < state.namespaces.len() {
                assert(is_supported(state.loads[i]));
            }
        };
        assert forall|i: int| 0 <= i < next.namespaces.len() implies (
        #[trigger] next.namespaces[i]).no_duplicates() by {
            if i < state.namespaces.len() {
                assert(state.namespaces[i].no_duplicates());
            }
        };
    }
}

/// Routing a declaration keeps the state well formed.
pub proof fn lemma_declare_wf<H>(
    state: DriverModel<H>,
    function_name: Seq<char>,
    keywords: Seq<KeywordModel>,
)
    requires
        state.wf(),
        !state.is_lent(),
    ensures
        state.declare(function_name, keywords).0.wf(),
{
}

/// Reporting a declaration keeps the state well formed.
pub proof fn lemma_declaration_done_wf<H>(state: DriverModel<H>, context: H, report: EngineError)
    requires
        state.wf(),
    ensures
        state.declaration_done(context, report).0.wf(),
{
}

/// Ending the evaluation keeps the state well formed.
pub proof fn lemma_finish_wf<H>(state: DriverModel<H>, script_outcome: Result<(), Seq<char>>)
    requires
        state.wf(),
    ensures
        state.finish(script_outcome).0.wf(),
{
}

/// Every step moves the evaluation along the order of its phases, or leaves the
/// phase as it is: from idle to loading, from loading to evaluating, from
/// evaluating to completed, and from any phase that is not final to failed.
pub proof fn lemma_phases_follow_in_order<H>(
    state: DriverModel<H>,
    context: H,
    report: EngineError,
    template_names: Seq<Seq<char>>,
    function_name: Seq<char>,
    keywords: Seq<KeywordModel>,
    script_outcome: Result<(), Seq<char>>,
)
    ensures
        follows(state.phase, state.begin().0.phase),
        follows(state.phase, state.next_import().0.phase),
        follows(state.phase, state.import_done(context, report, template_names).0.phase),
        follows(state.phase, state.declare(function_name, keywords).0.phase),
        follows(state.phase, state.declaration_done(context, report).0.phase),
        follows(state.phase, state.finish(script_outcome).0.phase),
{
}

/// Nothing leads out of a final state: whatever is asked of an evaluation that
/// has completed or failed, its phase stays, with the failure it holds, and no
/// engine call is handed out.
pub proof fn lemma_final_states_are_final<H>(
    state: DriverModel<H>,
    context: H,
    report: EngineError,
    template_names: Seq<Seq<char>>,
    function_name: Seq<char>,
    keywords: Seq<KeywordModel>,
    script_outcome: Result<(), Seq<char>>,
)
    requires
        state.is_final(),
    ensures
        state.begin().0 == state,
        state.begin().1 is Err,
        state.next_import().0 == state,
        state.next_import().1 is Halt,
        state.import_done(context, report, template_names).0.phase == state.phase,
        state.import_done(context, report, template_names).1 is Err,
        state.declare(function_name, keywords).0 == state,
        state.declare(function_name, keywords).1 is Err,
        state.declaration_done(context, report).0.phase == state.phase,
        state.declaration_done(context, report).1 is Err,
        state.finish(script_outcome).0 == state,
        state.finish(script_outcome).1 is Err,
{
}

/// The handle leaves the driver only with a request that found it here, and
/// every such request leaves it lent: until the handle is back, no further
/// request for it can be made at all.
pub proof fn lemma_handle_leaves_once<H>(
    state: DriverModel<H>,
    function_name: Seq<char>,
    keywords: Seq<KeywordModel>,
)
    requires
        !state.is_lent(),
    ensures
        state.declare(function_name, keywords).1 matches Ok((_, context)) ==> state.slot
            == SlotModel::Present(context) && state.declare(function_name, keywords).0.is_lent(),
        state.declare(function_name, keywords).1 is Err ==> state.declare(
            function_name,
            keywords,
        ).0.slot == state.slot,
        state.next_import().1 matches ImportStepModel::Execute { context, .. } ==> state.slot
            == SlotModel::Present(context) && state.next_import().0.is_lent(),
        !(state.next_import().1 is Execute) ==> state.next_import().0.slot == state.slot,
{
}

/// Only the report that the lent handle comes back with ends the loan: no other
/// step does, and the handle that is then here is the one that came back.
pub proof fn lemma_loan_ends_with_the_report<H>(
    state: DriverModel<H>,
    context: H,
    report: EngineError,
    template_names: Seq<Seq<char>>,
    script_outcome: Result<(), Seq<char>>,
)
    requires
        state.is_lent(),
    ensures
        state.begin().0.is_lent(),
        state.finish(script_outcome).0.is_lent(),
        state.slot is LentToImport ==> state.import_done(context, report, template_names).0.slot
            == SlotModel::Present(context),
        state.slot is LentToImport ==> state.declaration_done(context, report).0.is_lent(),
        state.slot is LentToDeclaration ==> state.declaration_done(context, report).0.slot
            == SlotModel::Present(context),
        state.slot is LentToDeclaration ==> state.import_done(
            context,
            report,
            template_names,
        ).0.is_lent(),
{
}

/// Loads that all follow the convention are resolved one after the other, in the
/// order of the script: with an engine that accepts every import, as many rounds
/// as there are answers leave as many namespaces, the namespace of each load made
/// of the names returned for it, and the handle back in its place. Once there is
/// an answer for every load, the statements may run.
pub proof fn lemma_loads_resolve_in_order<H>(
    state: DriverModel<H>,
    report: EngineError,
    answers: Seq<Seq<Seq<char>>>,
)
    requires
        state.wf(),
        state.phase is Loading,
        !state.is_lent(),
        state.namespaces.len() == 0,
        answers.len() <= state.loads.len(),
        forall|i: int| 0 <= i < state.loads.len() ==> is_supported(#[trigger] state.loads[i]),
        !report.has_error,
    ensures
        state.import_rounds(report, answers).wf(),
        state.import_rounds(report, answers).phase is Loading,
        state.import_rounds(report, answers).slot == state.slot,
        state.import_rounds(report, answers).loads == state.loads,
        state.import_rounds(report, answers).namespaces.len() == answers.len(),
        forall|i: int|
            0 <= i < answers.len() ==> #[trigger] state.import_rounds(
                report,
                answers,
            ).namespaces[i] == first_occurrences(answers[i]),
        answers.len() < state.loads.len() ==> state.import_rounds(report, answers).next_import().1
            == (ImportStepModel::Execute {
            tree: import_node(state.loads[answers.len() as int]),
            context: state.context(),
        }),
        answers.len() == state.loads.len() ==> state.import_rounds(report, answers).next_import()
            == (
            state.import_rounds(report, answers).in_phase(PhaseModel::Evaluating),
            ImportStepModel::<H>::Ready,
        ),
    decreases answers.len(),
{
    if answers.len() > 0 {
        let earlier = answers.drop_last();
        lemma_loads_resolve_in_order(state, report, earlier);
        let before = state.import_rounds(report, earlier);
        let after = state.import_rounds(report, answers);
        assert(after == before.import_round(report, answers.last()));
        assert(is_supported(before.loads[earlier.len() as int]));
        lemma_next_import_wf(before);
        lemma_import_done_wf(before.next_import().0, before.context(), report, answers.last());
        assert(after.namespaces == before.namespaces.push(first_occurrences(answers.last())));
        assert forall|i: int| 0 <= i < answers.len() implies #[trigger] after.namespaces[i]
            == first_occurrences(answers[i]) by {
            if i < earlier.len() {
                assert(before.namespaces[i] == first_occurrences(earlier[i]));
            }
        };
    }
}

/// A declaration that the engine accepts leaves the evaluation as it was, with
/// the handle back in its place: so a run of such declarations is routed one
/// after the other, each from the same state, in the order of the calls.
pub proof fn lemma_accepted_declaration_returns<H>(
    state: DriverModel<H>,
    function_name: Seq<char>,
    keywords: Seq<KeywordModel>,
    report: EngineError,
)
    requires
        !state.is_lent(),
        state.declare(function_name, keywords).1 is Ok,
        !report.has_error,
    ensures
        state.declare(function_name, keywords).0.declaration_done(state.context(), report).0
            == state,
        state.declare(function_name, keywords).0.declaration_done(state.context(), report).1
            == Ok::<(), ErrorModel>(()),
{
}

/// A script that loads a module outside the convention never gets to run a
/// statement: its evaluation is never in a phase in which statements run, no
/// declaration is routed to the engine, and it cannot complete.
pub proof fn lemma_unsupported_load_blocks_evaluation<H>(
    state: DriverModel<H>,
    load: int,
    function_name: Seq<char>,
    keywords: Seq<KeywordModel>,
    script_outcome: Result<(), Seq<char>>,
)
    requires
        state.wf(),
        0 <= load < state.loads.len(),
        !is_supported(state.loads[load]),
    ensures
        !(state.phase is Evaluating),
        !(state.phase is Completed),
        !(state.next_import().1 is Ready),
        state.declare(function_name, keywords).1 is Err,
        state.finish(script_outcome).1 is Err,
{
    if state.namespaces.len() == state.loads.len() {
        assert(is_supported(state.loads[load]));
    }
}

/// A declaration is routed to the engine only while statements run, only through
/// a registered function, and only as the tree that the assembler gives for it.
pub proof fn lemma_declaration_is_assembled<H>(
    state: DriverModel<H>,
    function_name: Seq<char>,
    keywords: Seq<KeywordModel>,
)
    ensures
        state.declare(function_name, keywords).1 matches Ok((tree, _)) ==> {
            &&& state.phase is Evaluating
            &&& state.is_registered(function_name)
            &&& assembled(function_name, keywords) == Ok::<NodeModel, ErrorModel>(tree)
            &&& state.declare(function_name, keywords).0.slot == SlotModel::<
                H,
            >::LentToDeclaration(function_name)
        },
{
}

} // verus!
