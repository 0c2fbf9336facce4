//! The questions that fill a profile by hand, as a state machine: the caller
//! puts each question to the user and hands the answer back.

use crate::decimal::{parse_u64, parsed_u64};
use crate::profile::{blank_profile, texts, Profile, SystemInfo};
use vstd::prelude::*;

verus! {

/// What is asked next.
#[derive(Debug, Clone, Copy, PartialEq, Eq, Structural)]
pub enum Question {
    Os,
    CpuVendor,
    CpuGeneration,
    CpuModel,
    Gpu,
    MoreGpus,
    Ram,
    Storage,
    MoreStorage,
    /// Nothing: the profile is complete.
    Done,
}

/// The form of answer that a question takes.
#[derive(Debug, Clone, Copy, PartialEq, Eq, Structural)]
pub enum AnswerKind {
    /// One of the operating systems, by its place in the list.
    Selection,
    /// A line of text.
    Text,
    /// Yes or no.
    Confirmation,
    /// No answer: nothing is asked.
    Nothing,
}

/// What the user answered.
#[derive(Debug, Clone)]
pub enum Answer {
    Selected(usize),
    Text(String),
    Confirmed(bool),
}

/// An answer, with its text as a sequence.
pub ghost enum Reply {
    Selected(usize),
    Text(Seq<char>),
    Confirmed(bool),
}

impl View for Answer {
    type V = Reply;

    open spec fn view(&self) -> Reply {
        match self {
            Answer::Selected(i) => Reply::Selected(*i),
            Answer::Text(t) => Reply::Text(t@),
            Answer::Confirmed(b) => Reply::Confirmed(*b),
        }
    }
}

/// The identifier of the operating system at place `selection` of the list
/// Windows, Linux, macOS; empty for any other place.
pub open spec fn os_name(selection: usize) -> Seq<char> {
    if selection == 0 {
        "windows"@
    } else if selection == 1 {
        "linux"@
    } else if selection == 2 {
        "macos"@
    } else {
        Seq::empty()
    }
}

/// The words of a question.
pub open spec fn prompt_text(question: Question) -> Seq<char> {
    match question {
        Question::Os => "What OS do you have?"@,
        Question::CpuVendor => "What is your CPU Brand/Vendor"@,
        Question::CpuGeneration => "What is your CPU generation? (8, 9, 10)"@,
        Question::CpuModel => "What model is your CPU (i7-8700)"@,
        Question::Gpu => "What gpu do you have? (NVIDIA GTX 1050 Ti)"@,
        Question::MoreGpus => "Do you want to add more?"@,
        Question::Ram =>
            "How much memory does your computer have? [write as int, and in gigabytes]"@,
        Question::Storage => "What storage device do you have?"@,
        Question::MoreStorage => "Do you want to add more?"@,
        Question::Done => Seq::empty(),
    }
}

/// The form of answer that `question` takes.
pub open spec fn answer_kind(question: Question) -> AnswerKind {
    match question {
        Question::Os => AnswerKind::Selection,
        Question::MoreGpus | Question::MoreStorage => AnswerKind::Confirmation,
        Question::Done => AnswerKind::Nothing,
        _ => AnswerKind::Text,
    }
}

/// The identifier of the operating system that was selected.
pub fn os_identifier(selection: usize) -> (name: String)
    ensures
        name@ == os_name(selection),
{
    if selection == 0 {
        "windows".to_owned()
    } else if selection == 1 {
        "linux".to_owned()
    } else if selection == 2 {
        "macos".to_owned()
    } else {
        String::new()
    }
}

impl Question {
    /// The words to put to the user.
    pub fn prompt(&self) -> (words: String)
        ensures
            words@ == prompt_text(*self),
    {
        match self {
            Question::Os => "What OS do you have?".to_owned(),
            Question::CpuVendor => "What is your CPU Brand/Vendor".to_owned(),
            Question::CpuGeneration => "What is your CPU generation? (8, 9, 10)".to_owned(),
            Question::CpuModel => "What model is your CPU (i7-8700)".to_owned(),
            Question::Gpu => "What gpu do you have? (NVIDIA GTX 1050 Ti)".to_owned(),
            Question::MoreGpus => "Do you want to add more?".to_owned(),
            Question::Ram =>
                "How much memory does your computer have? [write as int, and in gigabytes]".to_owned(),
            Question::Storage => "What storage device do you have?".to_owned(),
            Question::MoreStorage => "Do you want to add more?".to_owned(),
            Question::Done => String::new(),
        }
    }

    /// The form of answer to ask for.
    pub fn kind(&self) -> (kind: AnswerKind)
        ensures
            kind == answer_kind(*self),
    {
        match self {
            Question::Os => AnswerKind::Selection,
            Question::MoreGpus | Question::MoreStorage => AnswerKind::Confirmation,
            Question::Done => AnswerKind::Nothing,
            _ => AnswerKind::Text,
        }
    }
}

/// A profile that is being filled, and the question that is open.
#[derive(Debug, Clone)]
pub struct Survey {
    pub question: Question,
    pub profile: SystemInfo,
}

/// What a `Survey` holds.
pub ghost struct SurveyState {
    pub question: Question,
    pub profile: Profile,
}

impl View for Survey {
    type V = SurveyState;

    open spec fn view(&self) -> SurveyState {
        SurveyState { question: self.question, profile: self.profile@ }
    }
}

/// The state in which nothing has been asked yet.
pub open spec fn initial_state() -> SurveyState {
    SurveyState { question: Question::Os, profile: blank_profile() }
}

/// The state that follows `state` on `reply`.
///
/// A reply of the form that the open question takes fills that question's field
/// and opens the next one. Graphics cards and storage devices are asked for
/// again as long as the user confirms that there are more. The memory is taken
/// as typed, in gigabytes. Any other reply (one of another form, or a memory
/// that is no number) leaves the state as it is, so that the question is put
/// again.
pub open spec fn step(state: SurveyState, reply: Reply) -> SurveyState {
    let p = state.profile;
    match (state.question, reply) {
        (Question::Os, Reply::Selected(i)) => SurveyState {
            question: Question::CpuVendor,
            profile: Profile { os: os_name(i), ..p },
        },
        (Question::CpuVendor, Reply::Text(t)) => SurveyState {
            question: Question::CpuGeneration,
            profile: Profile { cpu_vendor: t, ..p },
        },
        (Question::CpuGeneration, Reply::Text(t)) => SurveyState {
            question: Question::CpuModel,
            profile: Profile { cpu_generation: t, ..p },
        },
        (Question::CpuModel, Reply::Text(t)) => SurveyState {
            question: Question::Gpu,
            profile: Profile { cpu_model: t, ..p },
        },
        (Question::Gpu, Reply::Text(t)) => SurveyState {
            question: Question::MoreGpus,
            profile: Profile { gpus: p.gpus.push(t), ..p },
        },
        (Question::MoreGpus, Reply::Confirmed(more)) => SurveyState {
            question: if more {
                Question::Gpu
            } else {
                Question::Ram
            },
            profile: p,
        },
        (Question::Ram, Reply::Text(t)) => match parsed_u64(t) {
            Some(gigabytes) => SurveyState {
                question: Question::Storage,
                profile: Profile { ram: gigabytes, ..p },
            },
            None => state,
        },
        (Question::Storage, Reply::Text(t)) => SurveyState {
            question: Question::MoreStorage,
            profile: Profile { storage_devices: p.storage_devices.push(t), ..p },
        },
        (Question::MoreStorage, Reply::Confirmed(more)) => SurveyState {
            question: if more {
                Question::Storage
            } else {
                Question::Done
            },
            profile: p,
        },
        _ => state,
    }
}

/// Adding a string to a list adds its contents to the list's contents.
proof fn lemma_texts_push(list: Seq<String>, last: String)
    ensures
        texts(list.push(last)) == texts(list).push(last@),
{
    assert(texts(list.push(last)) =~= texts(list).push(last@));
}

impl Survey {
    /// The survey before its first question.
    pub fn start() -> (survey: Survey)
        ensures
            survey@ == initial_state(),
    {
        Survey { question: Question::Os, profile: SystemInfo::blank() }
    }

    /// Whether every question has been answered.
    pub fn is_done(&self) -> (done: bool)
        ensures
            done == (self@.question == Question::Done),
    {
        self.question == Question::Done
    }

    /// Takes the user's answer to the open question.
    pub fn answer(self, answer: Answer) -> (next: Survey)
        ensures
            next@ == step(self@, answer@),
    {
        let question: Question = self.question;
        let mut profile: SystemInfo = self.profile;
        let ghost before = profile@;
        match (question, answer) {
            (Question::Os, Answer::Selected(i)) => {
                profile.os = os_identifier(i);
                Survey { question: Question::CpuVendor, profile }
            },
            (Question::CpuVendor, Answer::Text(t)) => {
                profile.cpu_vendor = t;
                Survey { question: Question::CpuGeneration, profile }
            },
            (Question::CpuGeneration, Answer::Text(t)) => {
                profile.cpu_generation = t;
                Survey { question: Question::CpuModel, profile }
            },
            (Question::CpuModel, Answer::Text(t)) => {
                profile.cpu_model = t;
                Survey { question: Question::Gpu, profile }
            },
            (Question::Gpu, Answer::Text(t)) => {
                proof {
                    lemma_texts_push(profile.gpus@, t);
                }
                profile.gpus.push(t);
                Survey { question: Question::MoreGpus, profile }
            },
            (Question::MoreGpus, Answer::Confirmed(more)) => {
                if more {
                    Survey { question: Question::Gpu, profile }
                } else {
                    Survey { question: Question::Ram, profile }
                }
            },
            (Question::Ram, Answer::Text(t)) => {
                match parse_u64(t.as_str()) {
                    Some(gigabytes) => {
                        profile.ram = gigabytes;
                        Survey { question: Question::Storage, profile }
                    },
                    None => Survey { question, profile },
                }
            },
            (Question::Storage, Answer::Text(t)) => {
                proof {
                    lemma_texts_push(profile.storage_devices@, t);
                }
                profile.storage_devices.push(t);
                Survey { question: Question::MoreStorage, profile }
            },
            (Question::MoreStorage, Answer::Confirmed(more)) => {
                if more {
                    Survey { question: Question::Storage, profile }
                } else {
                    Survey { question: Question::Done, profile }
                }
            },
            (_, _) => Survey { question, profile },
        }
    }
}

} // verus!
