//! The order of a run: which step comes next, and what it needs from the
//! outside.
//!
//! A run goes through its steps in one direction: select a profile, fetch
//! its MFA devices, select a device, ask for the one-time code, fetch the
//! session credentials, write them to the credentials file. The caller asks
//! the [`Flow`] what is to be done ([`Flow::request`]), does it, and reports
//! what came of it ([`Flow::advance`]). Any failure ends the run; nothing is
//! tried again.

use vstd::prelude::*;
use vstd::seq_lib::to_multiset_len;

use crate::aws::{
    list_mfa_devices_arguments, list_mfa_devices, get_session_token, get_session_token_arguments,
    spec_list_mfa_devices_arguments, spec_list_mfa_devices, spec_get_session_token,
    spec_get_session_token_arguments, Credentials, CredentialsView,
};
use crate::failure::Failure;
use crate::order::ascending;
use crate::document::section_names;
use crate::store::{
    file_sections, is_listing, lemma_listing_is_unique, list_profiles, offered_names, selectable,
    with_credentials, write_profile,
};
use crate::text::texts;
use crate::trusted::ini_written;

verus! {

/// The steps of a run, and how it can end.
#[derive(Clone, Copy, Debug, PartialEq, Eq, Structural)]
pub enum Stage {
    SelectProfile,
    FetchDevices,
    SelectDevice,
    PromptToken,
    FetchCredentials,
    Persist,
    /// The credentials were written.
    Done,
    /// The run was ended by a failure.
    Failed,
    /// The run was ended by the user, who left a selection.
    Cancelled,
}

/// How far a stage is along the run. A run that has ended is furthest.
pub open spec fn rank(stage: Stage) -> nat {
    match stage {
        Stage::SelectProfile => 0,
        Stage::FetchDevices => 1,
        Stage::SelectDevice => 2,
        Stage::PromptToken => 3,
        Stage::FetchCredentials => 4,
        Stage::Persist => 5,
        Stage::Done => 6,
        Stage::Failed => 6,
        Stage::Cancelled => 6,
    }
}

/// A run: the stage it is at, with what was gathered so far.
#[derive(Debug, PartialEq, Eq)]
pub enum Flow {
    /// A profile is to be selected: among `offered`, once the credentials
    /// file was read.
    SelectProfile { offered: Option<Vec<String>> },
    /// The MFA devices of `profile` are to be fetched.
    FetchDevices { profile: String },
    /// One of `devices` is to be selected.
    SelectDevice { profile: String, devices: Vec<String> },
    /// The one-time code of `device` is to be asked for.
    PromptToken { profile: String, device: String },
    /// The session credentials are to be fetched.
    FetchCredentials { profile: String, device: String, code: String },
    /// The credentials are to be written: `content` is the new content of
    /// the credentials file, once the file was read again.
    Persist { profile: String, credentials: Credentials, content: Option<Vec<u8>> },
    Done,
    Failed { failure: Failure },
    Cancelled,
}

/// What a [`Flow`] stands for.
pub enum FlowView {
    SelectProfile { offered: Option<Seq<Seq<char>>> },
    FetchDevices { profile: Seq<char> },
    SelectDevice { profile: Seq<char>, devices: Seq<Seq<char>> },
    PromptToken { profile: Seq<char>, device: Seq<char> },
    FetchCredentials { profile: Seq<char>, device: Seq<char>, code: Seq<char> },
    Persist { profile: Seq<char>, credentials: CredentialsView, content: Option<Seq<u8>> },
    Done,
    Failed { failure: Failure },
    Cancelled,
}

impl View for Flow {
    type V = FlowView;

    open spec fn view(&self) -> FlowView {
        match self {
            Flow::SelectProfile { offered } => FlowView::SelectProfile {
                offered: match offered {
                    Some(names) => Some(texts(names@)),
                    None => None,
                },
            },
            Flow::FetchDevices { profile } => FlowView::FetchDevices { profile: profile@ },
            Flow::SelectDevice { profile, devices } => FlowView::SelectDevice {
                profile: profile@,
                devices: texts(devices@),
            },
            Flow::PromptToken { profile, device } => FlowView::PromptToken {
                profile: profile@,
                device: device@,
            },
            Flow::FetchCredentials { profile, device, code } => FlowView::FetchCredentials {
                profile: profile@,
                device: device@,
                code: code@,
            },
            Flow::Persist { profile, credentials, content } => FlowView::Persist {
                profile: profile@,
                credentials: credentials@,
                content: match content {
                    Some(bytes) => Some(bytes@),
                    None => None,
                },
            },
            Flow::Done => FlowView::Done,
            Flow::Failed { failure } => FlowView::Failed { failure: *failure },
            Flow::Cancelled => FlowView::Cancelled,
        }
    }
}

/// What the caller is asked to do.
#[derive(Debug, PartialEq, Eq)]
pub enum Request {
    /// Read the credentials file and report its bytes.
    ReadStore,
    /// Let the user take one of these options and report its index.
    Choose(Vec<String>),
    /// Run `aws` with these arguments and report what it printed.
    Run(Vec<String>),
    /// Ask the user for the one-time code and report the line.
    Prompt,
    /// Write these bytes as the credentials file.
    WriteStore(Vec<u8>),
    /// Nothing: the run has ended.
    Finish,
}

/// What a [`Request`] stands for.
pub enum RequestView {
    ReadStore,
    Choose(Seq<Seq<char>>),
    Run(Seq<Seq<char>>),
    Prompt,
    WriteStore(Seq<u8>),
    Finish,
}

impl View for Request {
    type V = RequestView;

    open spec fn view(&self) -> RequestView {
        match self {
            Request::ReadStore => RequestView::ReadStore,
            Request::Choose(options) => RequestView::Choose(texts(options@)),
            Request::Run(arguments) => RequestView::Run(texts(arguments@)),
            Request::Prompt => RequestView::Prompt,
            Request::WriteStore(bytes) => RequestView::WriteStore(bytes@),
            Request::Finish => RequestView::Finish,
        }
    }
}

/// What came of a request.
#[derive(Debug, PartialEq, Eq)]
pub enum Event {
    /// The bytes of the credentials file.
    Content(Vec<u8>),
    /// The user took the option at this index.
    Chosen(usize),
    /// The user left the selection without an option.
    Cancelled,
    /// What `aws` printed on its standard output.
    Output(Vec<u8>),
    /// The line that the user typed.
    Line(String),
    /// The credentials file was written.
    Written,
    /// What was asked could not be done.
    Failed(Failure),
}

/// What an [`Event`] stands for.
pub enum EventView {
    Content(Seq<u8>),
    Chosen(nat),
    Cancelled,
    Output(Seq<u8>),
    Line(Seq<char>),
    Written,
    Failed(Failure),
}

impl View for Event {
    type V = EventView;

    open spec fn view(&self) -> EventView {
        match self {
            Event::Content(bytes) => EventView::Content(bytes@),
            Event::Chosen(index) => EventView::Chosen(*index as nat),
            Event::Cancelled => EventView::Cancelled,
            Event::Output(bytes) => EventView::Output(bytes@),
            Event::Line(line) => EventView::Line(line@),
            Event::Written => EventView::Written,
            Event::Failed(failure) => EventView::Failed(*failure),
        }
    }
}

impl FlowView {
    /// The stage of the run.
    pub open spec fn stage(self) -> Stage {
        match self {
            FlowView::SelectProfile { .. } => Stage::SelectProfile,
            FlowView::FetchDevices { .. } => Stage::FetchDevices,
            FlowView::SelectDevice { .. } => Stage::SelectDevice,
            FlowView::PromptToken { .. } => Stage::PromptToken,
            FlowView::FetchCredentials { .. } => Stage::FetchCredentials,
            FlowView::Persist { .. } => Stage::Persist,
            FlowView::Done => Stage::Done,
            FlowView::Failed { .. } => Stage::Failed,
            FlowView::Cancelled => Stage::Cancelled,
        }
    }

    /// Whether the run has ended.
    pub open spec fn over(self) -> bool {
        self is Done || self is Failed || self is Cancelled
    }

    /// Whether what the run offers for selection can be selected from: a
    /// list of profiles holds a profile, is in ascending order and is
    /// without derived profiles; a list of devices holds a device.
    pub open spec fn well_formed(self) -> bool {
        match self {
            FlowView::SelectProfile { offered: Some(names) } => {
                &&& names.len() > 0
                &&& ascending(names)
                &&& forall|i: int| 0 <= i < names.len() ==> selectable(#[trigger] names[i])
            },
            FlowView::SelectDevice { devices, .. } => devices.len() > 0,
            _ => true,
        }
    }

    /// What is to be done at this point of the run.
    pub open spec fn request(self) -> RequestView {
        match self {
            FlowView::SelectProfile { offered: None } => RequestView::ReadStore,
            FlowView::SelectProfile { offered: Some(names) } => RequestView::Choose(names),
            FlowView::FetchDevices { profile } => RequestView::Run(
                spec_list_mfa_devices_arguments(profile),
            ),
            FlowView::SelectDevice { devices, .. } => RequestView::Choose(devices),
            FlowView::PromptToken { .. } => RequestView::Prompt,
            FlowView::FetchCredentials { profile, device, code } => RequestView::Run(
                spec_get_session_token_arguments(profile, device, code),
            ),
            FlowView::Persist { content: None, .. } => RequestView::ReadStore,
            FlowView::Persist { content: Some(bytes), .. } => RequestView::WriteStore(bytes),
            FlowView::Done => RequestView::Finish,
            FlowView::Failed { .. } => RequestView::Finish,
            FlowView::Cancelled => RequestView::Finish,
        }
    }
}

/// Whether the run `after` is what the run `before` becomes by `event`.
///
/// A run that has ended stays as it is. A failure ends the run. Otherwise
/// an event that answers the request of the run takes it one step on, and
/// any other event leaves it as it is. A credentials file without a profile
/// to select, and a list of devices without a device, are malformed.
pub open spec fn follows(before: FlowView, event: EventView, after: FlowView) -> bool {
    if before.over() {
        after == before
    } else {
        match (before, event) {
            (_, EventView::Failed(failure)) => after == FlowView::Failed { failure },
            (FlowView::SelectProfile { offered: None }, EventView::Content(bytes)) => {
                match file_sections(bytes) {
                    Some(sections) => {
                        if offered_names(section_names(sections)).len() == 0 {
                            after == (FlowView::Failed { failure: Failure::ParseError })
                        } else {
                            after matches FlowView::SelectProfile { offered: Some(names) }
                                && is_listing(names, sections)
                        }
                    },
                    None => after == (FlowView::Failed { failure: Failure::ParseError }),
                }
            },
            (FlowView::SelectProfile { offered: Some(names) }, EventView::Chosen(index)) => {
                if index < names.len() {
                    after == (FlowView::FetchDevices { profile: names[index as int] })
                } else {
                    after == before
                }
            },
            (FlowView::SelectProfile { offered: Some(_) }, EventView::Cancelled) => after
                == FlowView::Cancelled,
            (FlowView::FetchDevices { profile }, EventView::Output(bytes)) => {
                match spec_list_mfa_devices(bytes) {
                    Ok(devices) => {
                        if devices.len() == 0 {
                            after == (FlowView::Failed { failure: Failure::ParseError })
                        } else {
                            after == (FlowView::SelectDevice { profile, devices })
                        }
                    },
                    Err(failure) => after == (FlowView::Failed { failure }),
                }
            },
            (FlowView::SelectDevice { profile, devices }, EventView::Chosen(index)) => {
                if index < devices.len() {
                    after == (FlowView::PromptToken { profile, device: devices[index as int] })
                } else {
                    after == before
                }
            },
            (FlowView::SelectDevice { .. }, EventView::Cancelled) => after == FlowView::Cancelled,
            (FlowView::PromptToken { profile, device }, EventView::Line(code)) => after == (
                FlowView::FetchCredentials { profile, device, code }),
            (FlowView::FetchCredentials { profile, .. }, EventView::Output(bytes)) => {
                match spec_get_session_token(bytes) {
                    Ok(credentials) => after == (FlowView::Persist {
                        profile,
                        credentials,
                        content: None,
                    }),
                    Err(failure) => after == (FlowView::Failed { failure }),
                }
            },
            (
                FlowView::Persist { profile, credentials, content: None },
                EventView::Content(bytes),
            ) => {
                match file_sections(bytes) {
                    Some(sections) => after == (FlowView::Persist {
                        profile,
                        credentials,
                        content: Some(
                            ini_written(with_credentials(sections, profile, credentials)),
                        ),
                    }),
                    None => after == (FlowView::Failed { failure: Failure::ParseError }),
                }
            },
            (FlowView::Persist { content: Some(_), .. }, EventView::Written) => after
                == FlowView::Done,
            _ => after == before,
        }
    }
}

/// An event takes a run to one run only.
pub proof fn lemma_one_run_follows(
    before: FlowView,
    event: EventView,
    first: FlowView,
    second: FlowView,
)
    requires
        follows(before, event, first),
        follows(before, event, second),
    ensures
        first == second,
{
    if let (FlowView::SelectProfile { offered: None }, EventView::Content(bytes)) = (before, event) {
        if let Some(sections) = file_sections(bytes) {
            if offered_names(section_names(sections)).len() != 0 {
                lemma_listing_is_unique(
                    first->SelectProfile_offered->0,
                    second->SelectProfile_offered->0,
                    sections,
                );
            }
        }
    }
}

/// A run only goes forward. One that has ended stays as it is. Any other
/// is ended by a failure, with that failure. An event takes a run to its
/// stage, to the stage after it, or to an end: no stage is gone back to and
/// none is passed over.
pub proof fn lemma_only_forward(before: FlowView, event: EventView, after: FlowView)
    requires
        follows(before, event, after),
    ensures
        rank(after.stage()) >= rank(before.stage()),
        before.over() ==> after == before,
        !before.over() ==> (event matches EventView::Failed(failure) ==> after == (
            FlowView::Failed { failure })),
        after.stage() == before.stage() || rank(after.stage()) == rank(before.stage()) + 1
            || after is Failed || after is Cancelled,
        after is Done ==> before is Done || before is Persist,
{
}

/// A copy of `names`.
fn copy_of(names: &Vec<String>) -> (copy: Vec<String>)
    ensures
        texts(copy@) == texts(names@),
{
    let mut copy: Vec<String> = Vec::new();
    let mut i: usize = 0;
    while i < names.len()
        invariant
            i <= names.len(),
            copy.len() == i,
            forall|k: int| 0 <= k < i ==> #[trigger] copy[k]@ == names[k]@,
        decreases names.len() - i,
    {
        copy.push(names[i].clone());
        i += 1;
    }
    copy
}

/// A copy of `bytes`.
fn copy_of_bytes(bytes: &Vec<u8>) -> (copy: Vec<u8>)
    ensures
        copy@ == bytes@,
{
    let mut copy: Vec<u8> = Vec::new();
    let mut i: usize = 0;
    while i < bytes.len()
        invariant
            i <= bytes.len(),
            copy@ == bytes@.take(i as int),
        decreases bytes.len() - i,
    {
        copy.push(bytes[i]);
        i += 1;
    }
    copy
}

impl Flow {
    /// A run at its start: a profile is to be selected, and the credentials
    /// file was not read yet.
    pub fn start() -> (flow: Flow)
        ensures
            flow@ == (FlowView::SelectProfile { offered: None }),
            flow@.well_formed(),
    {
        Flow::SelectProfile { offered: None }
    }

    /// The stage of the run.
    pub fn stage(&self) -> (stage: Stage)
        ensures
            stage == self@.stage(),
    {
        match self {
            Flow::SelectProfile { .. } => Stage::SelectProfile,
            Flow::FetchDevices { .. } => Stage::FetchDevices,
            Flow::SelectDevice { .. } => Stage::SelectDevice,
            Flow::PromptToken { .. } => Stage::PromptToken,
            Flow::FetchCredentials { .. } => Stage::FetchCredentials,
            Flow::Persist { .. } => Stage::Persist,
            Flow::Done => Stage::Done,
            Flow::Failed { .. } => Stage::Failed,
            Flow::Cancelled => Stage::Cancelled,
        }
    }

    /// Whether the run has ended.
    pub fn is_over(&self) -> (over: bool)
        ensures
            over == self@.over(),
    {
        match self {
            Flow::Done => true,
            Flow::Failed { .. } => true,
            Flow::Cancelled => true,
            _ => false,
        }
    }

    /// What the caller is to do now. A run that is well formed never asks
    /// for a choice among no options.
    pub fn request(&self) -> (request: Request)
        ensures
            request@ == self@.request(),
            self@.well_formed() ==> (request matches Request::Choose(options) ==> options.len()
                > 0),
    {
        match self {
            Flow::SelectProfile { offered: None } => Request::ReadStore,
            Flow::SelectProfile { offered: Some(names) } => Request::Choose(copy_of(names)),
            Flow::FetchDevices { profile } => Request::Run(
                list_mfa_devices_arguments(profile.as_str()),
            ),
            Flow::SelectDevice { devices, .. } => Request::Choose(copy_of(devices)),
            Flow::PromptToken { .. } => Request::Prompt,
            Flow::FetchCredentials { profile, device, code } => Request::Run(
                get_session_token_arguments(profile.as_str(), device.as_str(), code.as_str()),
            ),
            Flow::Persist { content: None, .. } => Request::ReadStore,
            Flow::Persist { content: Some(bytes), .. } => Request::WriteStore(
                copy_of_bytes(bytes),
            ),
            Flow::Done => Request::Finish,
            Flow::Failed { .. } => Request::Finish,
            Flow::Cancelled => Request::Finish,
        }
    }

    /// The run after `event`.
    pub fn advance(self, event: Event) -> (after: Flow)
        ensures
            follows(self@, event@, after@),
            self@.well_formed() ==> after@.well_formed(),
            rank(after@.stage()) >= rank(self@.stage()),
    {
        if self.is_over() {
            return self;
        }
        match (self, event) {
            (_, Event::Failed(failure)) => Flow::Failed { failure },
            (Flow::SelectProfile { offered: None }, Event::Content(bytes)) => {
                match list_profiles(bytes.as_slice()) {
                    Ok(names) => {
                        proof {
                            to_multiset_len(texts(names@));
                            to_multiset_len(
                                offered_names(section_names(file_sections(bytes@)->0)),
                            );
                        }
                        if names.len() == 0 {
                            Flow::Failed { failure: Failure::ParseError }
                        } else {
                            Flow::SelectProfile { offered: Some(names) }
                        }
                    },
                    Err(failure) => Flow::Failed { failure },
                }
            },
            (Flow::SelectProfile { offered: Some(names) }, Event::Chosen(index)) => {
                if index < names.len() {
                    Flow::FetchDevices { profile: names[index].clone() }
                } else {
                    Flow::SelectProfile { offered: Some(names) }
                }
            },
            (Flow::SelectProfile { offered: Some(_) }, Event::Cancelled) => Flow::Cancelled,
            (Flow::FetchDevices { profile }, Event::Output(bytes)) => {
                match list_mfa_devices(bytes.as_slice()) {
                    Ok(devices) => {
                        if devices.len() == 0 {
                            Flow::Failed { failure: Failure::ParseError }
                        } else {
                            Flow::SelectDevice { profile, devices }
                        }
                    },
                    Err(failure) => Flow::Failed { failure },
                }
            },
            (Flow::SelectDevice { profile, devices }, Event::Chosen(index)) => {
                if index < devices.len() {
                    let device = devices[index].clone();
                    Flow::PromptToken { profile, device }
                } else {
                    Flow::SelectDevice { profile, devices }
                }
            },
            (Flow::SelectDevice { .. }, Event::Cancelled) => Flow::Cancelled,
            (Flow::PromptToken { profile, device }, Event::Line(code)) => Flow::FetchCredentials {
                profile,
                device,
                code,
            },
            (Flow::FetchCredentials { profile, .. }, Event::Output(bytes)) => {
                match get_session_token(bytes.as_slice()) {
                    Ok(credentials) => Flow::Persist { profile, credentials, content: None },
                    Err(failure) => Flow::Failed { failure },
                }
            },
            (Flow::Persist { profile, credentials, content: None }, Event::Content(bytes)) => {
                match write_profile(bytes.as_slice(), profile.as_str(), &credentials) {
                    Ok(written) => Flow::Persist { profile, credentials, content: Some(written) },
                    Err(failure) => Flow::Failed { failure },
                }
            },
            (Flow::Persist { content: Some(_), .. }, Event::Written) => Flow::Done,
            (flow, _) => flow,
        }
    }
}

} // verus!
