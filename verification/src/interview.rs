//! The questions about the case, asked one line at a time.
use crate::text;
use vstd::prelude::*;

verus! {

/// What the operator said of the case.
#[derive(Debug, Clone)]
pub struct CaseInfo {
    pub reference: String,
    pub source: String,
    pub reason: String,
    pub operator: String,
    pub notes: String,
}

/// What the operator said of the case, as texts.
#[verifier::ext_equal]
pub struct CaseModel {
    pub reference: Seq<char>,
    pub source: Seq<char>,
    pub reason: Seq<char>,
    pub operator: Seq<char>,
    pub notes: Seq<char>,
}

impl View for CaseInfo {
    type V = CaseModel;

    open spec fn view(&self) -> CaseModel {
        CaseModel {
            reference: self.reference@,
            source: self.source@,
            reason: self.reason@,
            operator: self.operator@,
            notes: self.notes@,
        }
    }
}

/// What is asked for at the moment.
#[derive(Debug, Clone, Copy, PartialEq, Eq, Structural)]
pub enum Stage {
    Reference,
    Source,
    Reason,
    Operator,
    Notes,
    Finished,
}

/// Why an interview ends early.
#[derive(Debug, Clone, Copy, PartialEq, Eq, Structural)]
pub enum InterviewError {
    /// The reason was left empty.
    ReasonMissing,
}

impl InterviewError {
    /// What the error says to the operator.
    pub open spec fn message_text(self) -> Seq<char> {
        match self {
            InterviewError::ReasonMissing => "Input is required"@,
        }
    }

    /// What the error says to the operator.
    pub fn message(&self) -> (r: &'static str)
        ensures
            r@ == self.message_text(),
    {
        match self {
            InterviewError::ReasonMissing => "Input is required",
        }
    }
}

/// How the next line is asked for.
#[derive(Debug, Clone, Copy)]
pub struct Question {
    /// What is printed before, if anything.
    pub heading: Option<&'static str>,
    /// What stands before the input.
    pub prompt: &'static str,
    /// Whether an empty line is an answer.
    pub allow_empty: bool,
    /// What is said if no line can be read.
    pub failure: &'static str,
}

/// How the next line is asked for, as texts.
#[verifier::ext_equal]
pub struct QuestionModel {
    pub heading: Option<Seq<char>>,
    pub prompt: Seq<char>,
    pub allow_empty: bool,
    pub failure: Seq<char>,
}

impl View for Question {
    type V = QuestionModel;

    open spec fn view(&self) -> QuestionModel {
        QuestionModel {
            heading: match self.heading {
                Some(heading) => Some(heading@),
                None => None,
            },
            prompt: self.prompt@,
            allow_empty: self.allow_empty,
            failure: self.failure@,
        }
    }
}

/// What has been said so far.
#[verifier::ext_equal]
pub struct InterviewModel {
    pub stage: Stage,
    pub reference: Seq<char>,
    pub source: Seq<char>,
    pub reason: Seq<Seq<char>>,
    pub operator: Seq<char>,
    pub notes: Seq<Seq<char>>,
}

impl InterviewModel {
    /// Nothing has been said.
    pub open spec fn start() -> InterviewModel {
        InterviewModel {
            stage: Stage::Reference,
            reference: Seq::empty(),
            source: Seq::empty(),
            reason: Seq::empty(),
            operator: Seq::empty(),
            notes: Seq::empty(),
        }
    }

    /// How the next line is asked for. Reason and notes take several lines, with one
    /// heading before the first.
    pub open spec fn question(self) -> QuestionModel {
        match self.stage {
            Stage::Reference => QuestionModel {
                heading: None,
                prompt: "Case reference"@,
                allow_empty: false,
                failure: "Failed to read case reference"@,
            },
            Stage::Source => QuestionModel {
                heading: None,
                prompt: "Data collection source"@,
                allow_empty: false,
                failure: "Failed to read data source"@,
            },
            Stage::Reason => QuestionModel {
                heading: if self.reason.len() == 0 {
                    Some("Reason for data collection (empty line to finish):"@)
                } else {
                    None
                },
                prompt: "  reason"@,
                allow_empty: true,
                failure: "Failed to read multi-line input"@,
            },
            Stage::Operator => QuestionModel {
                heading: None,
                prompt: "Operator / collector name (optional)"@,
                allow_empty: true,
                failure: "Failed to read operator"@,
            },
            Stage::Notes | Stage::Finished => QuestionModel {
                heading: if self.notes.len() == 0 {
                    Some("Notes (empty line to finish):"@)
                } else {
                    None
                },
                prompt: "  notes"@,
                allow_empty: true,
                failure: "Failed to read multi-line input"@,
            },
        }
    }

    /// What has been said after the answer `line`. An empty line ends the reason and
    /// the notes; the reason needs at least one line.
    pub open spec fn answered(self, line: Seq<char>) -> Result<InterviewModel, InterviewError> {
        match self.stage {
            Stage::Reference => Ok(InterviewModel { stage: Stage::Source, reference: line, ..self }),
            Stage::Source => Ok(InterviewModel { stage: Stage::Reason, source: line, ..self }),
            Stage::Reason => if line.len() > 0 {
                Ok(InterviewModel { reason: self.reason.push(line), ..self })
            } else if self.reason.len() == 0 {
                Err(InterviewError::ReasonMissing)
            } else {
                Ok(InterviewModel { stage: Stage::Operator, ..self })
            },
            Stage::Operator => Ok(InterviewModel { stage: Stage::Notes, operator: line, ..self }),
            Stage::Notes => if line.len() > 0 {
                Ok(InterviewModel { notes: self.notes.push(line), ..self })
            } else {
                Ok(InterviewModel { stage: Stage::Finished, ..self })
            },
            Stage::Finished => Ok(self),
        }
    }

    /// What the interview found out, the lines of reason and notes each joined into
    /// one text.
    pub open spec fn case_info(self) -> CaseModel {
        CaseModel {
            reference: self.reference,
            source: self.source,
            reason: text::join(self.reason, "\n"@),
            operator: self.operator,
            notes: text::join(self.notes, "\n"@),
        }
    }
}

/// An interview under way.
#[derive(Debug)]
pub struct CaseInterview {
    stage: Stage,
    reference: String,
    source: String,
    reason: Vec<String>,
    operator: String,
    notes: Vec<String>,
}

impl View for CaseInterview {
    type V = InterviewModel;

    closed spec fn view(&self) -> InterviewModel {
        InterviewModel {
            stage: self.stage,
            reference: self.reference@,
            source: self.source@,
            reason: text::texts(self.reason@),
            operator: self.operator@,
            notes: text::texts(self.notes@),
        }
    }
}

impl CaseInterview {
    /// An interview in which nothing has been said.
    pub fn new() -> (r: CaseInterview)
        ensures
            r@ == InterviewModel::start(),
            r@.stage == Stage::Reference,
            r@.reason.len() == 0,
            r@.notes.len() == 0,
    {
        let r = CaseInterview {
            stage: Stage::Reference,
            reference: String::new(),
            source: String::new(),
            reason: Vec::new(),
            operator: String::new(),
            notes: Vec::new(),
        };
        proof {
            assert(r@ =~= InterviewModel::start());
        }
        r
    }

    /// Whether all the questions have been answered.
    pub fn is_finished(&self) -> (r: bool)
        ensures
            r == (self@.stage == Stage::Finished),
    {
        match self.stage {
            Stage::Finished => true,
            _ => false,
        }
    }

    /// How the next line is asked for.
    pub fn question(&self) -> (r: Question)
        requires
            self@.stage != Stage::Finished,
        ensures
            r@ == self@.question(),
    {
        match self.stage {
            Stage::Reference => Question {
                heading: None,
                prompt: "Case reference",
                allow_empty: false,
                failure: "Failed to read case reference",
            },
            Stage::Source => Question {
                heading: None,
                prompt: "Data collection source",
                allow_empty: false,
                failure: "Failed to read data source",
            },
            Stage::Reason => Question {
                heading: if self.reason.len() == 0 {
                    Some("Reason for data collection (empty line to finish):")
                } else {
                    None
                },
                prompt: "  reason",
                allow_empty: true,
                failure: "Failed to read multi-line input",
            },
            Stage::Operator => Question {
                heading: None,
                prompt: "Operator / collector name (optional)",
                allow_empty: true,
                failure: "Failed to read operator",
            },
            Stage::Notes | Stage::Finished => Question {
                heading: if self.notes.len() == 0 {
                    Some("Notes (empty line to finish):")
                } else {
                    None
                },
                prompt: "  notes",
                allow_empty: true,
                failure: "Failed to read multi-line input",
            },
        }
    }

    /// Takes the answer `line`. An interview that ends early stays as it was.
    pub fn answer(&mut self, line: String) -> (r: Result<(), InterviewError>)
        requires
            old(self)@.stage != Stage::Finished,
        ensures
            match old(self)@.answered(line@) {
                Ok(next) => r is Ok && final(self)@ == next,
                Err(e) => r == Err::<(), InterviewError>(e) && final(self)@ == old(self)@,
            },
    {
        let ghost before = self@;
        match self.stage {
            Stage::Reference => {
                self.reference = line;
                self.stage = Stage::Source;
            },
            Stage::Source => {
                self.source = line;
                self.stage = Stage::Reason;
            },
            Stage::Reason => {
                if !line.as_str().is_empty() {
                    self.reason.push(line);
                    proof {
                        assert(self@.reason =~= before.reason.push(line@));
                    }
                } else if self.reason.len() == 0 {
                    return Err(InterviewError::ReasonMissing);
                } else {
                    self.stage = Stage::Operator;
                }
            },
            Stage::Operator => {
                self.operator = line;
                self.stage = Stage::Notes;
            },
            Stage::Notes => {
                if !line.as_str().is_empty() {
                    self.notes.push(line);
                    proof {
                        assert(self@.notes =~= before.notes.push(line@));
                    }
                } else {
                    self.stage = Stage::Finished;
                }
            },
            Stage::Finished => {},
        }
        Ok(())
    }

    /// What the interview found out.
    pub fn finish(self) -> (r: CaseInfo)
        requires
            self@.stage == Stage::Finished,
        ensures
            r@ == self@.case_info(),
            r.reference@ == self@.reference,
            r.source@ == self@.source,
            r.reason@ == text::join(self@.reason, "\n"@),
            r.operator@ == self@.operator,
            r.notes@ == text::join(self@.notes, "\n"@),
    {
        let reason = text::joined(&self.reason, "\n");
        let notes = text::joined(&self.notes, "\n");
        CaseInfo {
            reference: self.reference,
            source: self.source,
            reason,
            operator: self.operator,
            notes,
        }
    }
}

// ---------------------------------------------------------------------------
// Laws
// ---------------------------------------------------------------------------
/// What has been said after the answers, one after the other.
pub open spec fn answered_all(
    from: InterviewModel,
    answers: Seq<Seq<char>>,
) -> Result<InterviewModel, InterviewError>
    decreases answers.len(),
{
    if answers.len() == 0 {
        Ok(from)
    } else {
        match from.answered(answers[0]) {
            Ok(next) => answered_all(next, answers.drop_first()),
            Err(e) => Err(e),
        }
    }
}

/// The interview collects what is said: a reference, a source, the lines of the
/// reason up to an empty one, an operator, and the lines of the notes up to an empty
/// one.
pub proof fn law_interview_collects(
    reference: Seq<char>,
    source: Seq<char>,
    reason: Seq<Seq<char>>,
    operator: Seq<char>,
    notes: Seq<Seq<char>>,
)
    requires
        reason.len() > 0,
        forall|i: int| 0 <= i < reason.len() ==> (#[trigger] reason[i]).len() > 0,
        forall|i: int| 0 <= i < notes.len() ==> (#[trigger] notes[i]).len() > 0,
    ensures
        answered_all(
            InterviewModel::start(),
            seq![reference, source] + reason + seq![Seq::empty(), operator] + notes + seq![
                Seq::empty(),
            ],
        ) == Ok::<InterviewModel, InterviewError>(
            InterviewModel {
                stage: Stage::Finished,
                reference,
                source,
                reason,
                operator,
                notes,
            },
        ),
{
    let m0 = InterviewModel::start();
    let m1 = InterviewModel { stage: Stage::Source, reference, ..m0 };
    let m2 = InterviewModel { stage: Stage::Reason, source, ..m1 };
    let m3 = InterviewModel { reason, ..m2 };
    let m4 = InterviewModel { stage: Stage::Operator, ..m3 };
    let m5 = InterviewModel { stage: Stage::Notes, operator, ..m4 };
    let m6 = InterviewModel { notes, ..m5 };
    let after_notes: Seq<Seq<char>> = seq![Seq::empty()];
    let at_notes = notes + after_notes;
    let after_reason = seq![Seq::<char>::empty(), operator] + at_notes;
    let at_reason = reason + after_reason;
    let all = seq![reference, source] + reason + seq![Seq::empty(), operator] + notes + seq![
        Seq::empty(),
    ];
    assert(all =~= seq![reference, source] + at_reason);
    assert(all.drop_first() =~= seq![source] + at_reason);
    assert(all.drop_first().drop_first() =~= at_reason);
    assert(answered_all(m0, all) == answered_all(m1, all.drop_first()));
    assert(answered_all(m1, all.drop_first()) == answered_all(m2, at_reason));
    lemma_reason_lines(m2, reason, after_reason);
    assert(m2.reason + reason =~= reason);
    assert(after_reason.drop_first() =~= seq![operator] + at_notes);
    assert(after_reason.drop_first().drop_first() =~= at_notes);
    assert(answered_all(m3, after_reason) == answered_all(m4, after_reason.drop_first()));
    assert(answered_all(m4, after_reason.drop_first()) == answered_all(m5, at_notes));
    lemma_notes_lines(m5, notes, after_notes);
    assert(m5.notes + notes =~= notes);
    assert(after_notes.drop_first() =~= Seq::empty());
    assert(answered_all(m6, after_notes) == answered_all(
        InterviewModel { stage: Stage::Finished, ..m6 },
        Seq::empty(),
    ));
}

/// Lines that are not empty are added to the reason.
proof fn lemma_reason_lines(m: InterviewModel, ls: Seq<Seq<char>>, rest: Seq<Seq<char>>)
    requires
        m.stage == Stage::Reason,
        forall|i: int| 0 <= i < ls.len() ==> (#[trigger] ls[i]).len() > 0,
    ensures
        answered_all(m, ls + rest) == answered_all(
            InterviewModel { reason: m.reason + ls, ..m },
            rest,
        ),
    decreases ls.len(),
{
    if ls.len() == 0 {
        assert(ls + rest =~= rest);
        assert(m.reason + ls =~= m.reason);
    } else {
        let next = InterviewModel { reason: m.reason.push(ls[0]), ..m };
        assert((ls + rest).drop_first() =~= ls.drop_first() + rest);
        assert((ls + rest)[0] == ls[0]);
        lemma_reason_lines(next, ls.drop_first(), rest);
        assert(m.reason.push(ls[0]) + ls.drop_first() =~= m.reason + ls);
    }
}

/// Lines that are not empty are added to the notes.
proof fn lemma_notes_lines(m: InterviewModel, ls: Seq<Seq<char>>, rest: Seq<Seq<char>>)
    requires
        m.stage == Stage::Notes,
        forall|i: int| 0 <= i < ls.len() ==> (#[trigger] ls[i]).len() > 0,
    ensures
        answered_all(m, ls + rest) == answered_all(
            InterviewModel { notes: m.notes + ls, ..m },
            rest,
        ),
    decreases ls.len(),
{
    if ls.len() == 0 {
        assert(ls + rest =~= rest);
        assert(m.notes + ls =~= m.notes);
    } else {
        let next = InterviewModel { notes: m.notes.push(ls[0]), ..m };
        assert((ls + rest).drop_first() =~= ls.drop_first() + rest);
        assert((ls + rest)[0] == ls[0]);
        lemma_notes_lines(next, ls.drop_first(), rest);
        assert(m.notes.push(ls[0]) + ls.drop_first() =~= m.notes + ls);
    }
}

/// A reason is required: an interview in which the first line of the reason is empty
/// ends there, before operator and notes are asked for.
pub proof fn law_reason_is_required(
    reference: Seq<char>,
    source: Seq<char>,
    later: Seq<Seq<char>>,
)
    ensures
        answered_all(
            InterviewModel::start(),
            seq![reference, source, Seq::empty()] + later,
        ) == Err::<InterviewModel, InterviewError>(InterviewError::ReasonMissing),
{
    let all = seq![reference, source, Seq::empty()] + later;
    let m0 = InterviewModel::start();
    let m1 = InterviewModel { stage: Stage::Source, reference, ..m0 };
    let m2 = InterviewModel { stage: Stage::Reason, source, ..m1 };
    assert(all[0] == reference);
    assert(all.drop_first()[0] == source);
    assert(all.drop_first().drop_first()[0] == Seq::<char>::empty());
    assert(answered_all(m0, all) == answered_all(m1, all.drop_first()));
    assert(answered_all(m1, all.drop_first()) == answered_all(m2, all.drop_first().drop_first()));
}

/// The texts of what was said of the case are what its strings hold, each at its own
/// place.
pub proof fn law_case_texts(case: CaseInfo)
    ensures
        case@.reference == case.reference@,
        case@.source == case.source@,
        case@.reason == case.reason@,
        case@.operator == case.operator@,
        case@.notes == case.notes@,
{
}

/// What an interview found out is what was said: the single answers whole, the lines of
/// reason and notes joined by line feeds.
pub proof fn law_case_is_what_was_said(said: InterviewModel)
    ensures
        said.case_info().reference == said.reference,
        said.case_info().source == said.source,
        said.case_info().reason == text::join(said.reason, "\n"@),
        said.case_info().operator == said.operator,
        said.case_info().notes == text::join(said.notes, "\n"@),
{
}

/// Every answer is kept where it was asked for, and changes nothing that was said
/// before.
pub proof fn law_answers_are_kept(said: InterviewModel, line: Seq<char>)
    ensures
        said.answered(line) matches Ok(next) ==> {
            &&& next.reference == if said.stage == Stage::Reference {
                line
            } else {
                said.reference
            }
            &&& next.source == if said.stage == Stage::Source {
                line
            } else {
                said.source
            }
            &&& next.operator == if said.stage == Stage::Operator {
                line
            } else {
                said.operator
            }
            &&& next.reason == if said.stage == Stage::Reason && line.len() > 0 {
                said.reason.push(line)
            } else {
                said.reason
            }
            &&& next.notes == if said.stage == Stage::Notes && line.len() > 0 {
                said.notes.push(line)
            } else {
                said.notes
            }
        },
        said.answered(line) is Err <==> said.stage == Stage::Reason && line.len() == 0
            && said.reason.len() == 0,
{
}

/// The questions come in one order: reference, source, reason, operator, notes. Only
/// an empty line ends the reason and the notes.
pub proof fn law_order_of_questions(said: InterviewModel, line: Seq<char>)
    requires
        said.answered(line) is Ok,
    ensures
        said.answered(line)->Ok_0.stage == match said.stage {
            Stage::Reference => Stage::Source,
            Stage::Source => Stage::Reason,
            Stage::Reason => if line.len() > 0 {
                Stage::Reason
            } else {
                Stage::Operator
            },
            Stage::Operator => Stage::Notes,
            Stage::Notes => if line.len() > 0 {
                Stage::Notes
            } else {
                Stage::Finished
            },
            Stage::Finished => Stage::Finished,
        },
{
}

/// What is asked for, and whether it may be left empty: reference and source may not,
/// and the line that ends the reason or the notes is an empty one.
pub proof fn law_questions(said: InterviewModel)
    ensures
        said.question().allow_empty <==> said.stage != Stage::Reference && said.stage
            != Stage::Source,
        said.stage == Stage::Reference ==> said.question().prompt == "Case reference"@,
        said.stage == Stage::Source ==> said.question().prompt == "Data collection source"@,
        said.stage == Stage::Reason ==> said.question().prompt == "  reason"@,
        said.stage == Stage::Operator ==> said.question().prompt
            == "Operator / collector name (optional)"@,
        said.stage == Stage::Notes ==> said.question().prompt == "  notes"@,
        said.question().heading == if said.stage == Stage::Reason && said.reason.len() == 0 {
            Some("Reason for data collection (empty line to finish):"@)
        } else if (said.stage == Stage::Notes || said.stage == Stage::Finished)
            && said.notes.len() == 0 {
            Some("Notes (empty line to finish):"@)
        } else {
            None
        },
        said.stage == Stage::Reference ==> said.question().failure
            == "Failed to read case reference"@,
        said.stage == Stage::Source ==> said.question().failure == "Failed to read data source"@,
        said.stage == Stage::Operator ==> said.question().failure == "Failed to read operator"@,
        said.stage == Stage::Reason || said.stage == Stage::Notes ==> said.question().failure
            == "Failed to read multi-line input"@,
{
}

/// The texts of a question are what its strings hold.
pub proof fn law_question_texts(question: Question)
    ensures
        question@.prompt == question.prompt@,
        question@.failure == question.failure@,
        question@.allow_empty == question.allow_empty,
        question@.heading == (match question.heading {
            Some(h) => Some(h@),
            None => None,
        }),
{
}

} // verus!
