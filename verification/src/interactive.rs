//! The interactive activation: flows built on the bidirectional channel.
//!
//! Each method is a short conversation — prompts, selections and
//! confirmations. The conversation's decisions live here as step functions
//! from the client's answer to the events yielded and the next request; the
//! transport performs the asking in between.

use vstd::prelude::*;
use vstd::string::*;

use crate::bidir::{bidir_error_message, bidir_error_text, BidirError, SelectOption,
    StandardRequest};
use crate::jsontext::{dec_u64, u64_to_dec};

verus! {

/// The interactive activation.
#[derive(Debug, Clone, PartialEq, Eq)]
pub struct Interactive;

impl Interactive {
    /// The activation value; it carries no state of its own.
    pub fn new() -> Self {
        Interactive
    }
}

/// Events yielded by the wizard method.
#[derive(Debug, Clone, PartialEq, Eq)]
pub enum WizardEvent {
    /// The wizard has started.
    Started,
    /// The project name was collected.
    NameCollected { name: String },
    /// The template was chosen.
    TemplateSelected { template: String },
    /// The project was created.
    Created { name: String, template: String },
    /// The user cancelled.
    Cancelled,
    /// Something went wrong.
    Error { message: String },
    /// The wizard finished.
    Done,
}

/// Events yielded by the delete method.
#[derive(Debug, Clone, PartialEq, Eq)]
pub enum DeleteEvent {
    /// One path was deleted.
    Deleted { path: String },
    /// The user declined or cancelled.
    Cancelled,
    /// All paths were processed.
    Done,
}

/// Events yielded by the confirm method.
#[derive(Debug, Clone, PartialEq, Eq)]
pub enum ConfirmEvent {
    /// The user confirmed.
    Confirmed,
    /// The user declined.
    Declined,
    /// The question could not be asked or answered.
    Error { message: String },
}

impl Interactive {
    /// Opens the wizard: the `Started` event and the name prompt.
    pub fn wizard_start(&self) -> (r: (Vec<WizardEvent>, StandardRequest))
        ensures
            r.0.len() == 1,
            r.0@[0] == WizardEvent::Started,
            (r.1 matches StandardRequest::Prompt { message, default, placeholder } && message@
                == "Enter project name:"@ && default is None && placeholder is None),
    {
        let mut events: Vec<WizardEvent> = Vec::new();
        events.push(WizardEvent::Started);
        let request = StandardRequest::Prompt {
            message: "Enter project name:".to_owned(),
            default: None,
            placeholder: None,
        };
        (events, request)
    }

    /// Consumes the name answer: an empty name or a failure ends the
    /// wizard with the fitting event; a proper name is acknowledged and
    /// the template selection follows.
    pub fn wizard_on_name(&self, answer: Result<String, BidirError>) -> (r: (
        Vec<WizardEvent>,
        Option<StandardRequest>,
    ))
        ensures
            match answer {
                Ok(name) => {
                    if name@.len() == 0 {
                        r.0.len() == 1 && (r.0@[0] matches WizardEvent::Error { message }
                            && message@ == "Name cannot be empty"@) && r.1 is None
                    } else {
                        r.0.len() == 1 && (r.0@[0] matches WizardEvent::NameCollected { name: n }
                            && n@ == name@) && (r.1 matches Some(StandardRequest::Select {
                            message,
                            options,
                            multi_select,
                        }) && message@ == "Choose template:"@ && options.len() == 3
                            && !multi_select)
                    }
                },
                Err(BidirError::NotSupported) => r.0.len() == 1 && (r.0@[0]
                    matches WizardEvent::Error { message } && message@
                    == "Interactive mode required. Use a bidirectional transport."@) && r.1
                    is None,
                Err(BidirError::Cancelled) => r.0.len() == 1 && r.0@[0] == WizardEvent::Cancelled
                    && r.1 is None,
                Err(e) => r.0.len() == 1 && (r.0@[0] matches WizardEvent::Error { message }
                    && message@ == bidir_error_text(e)) && r.1 is None,
            },
    {
        let mut events: Vec<WizardEvent> = Vec::new();
        match answer {
            Ok(name) => {
                if name.as_str().unicode_len() == 0 {
                    events.push(
                        WizardEvent::Error { message: "Name cannot be empty".to_owned() },
                    );
                    (events, None)
                } else {
                    events.push(WizardEvent::NameCollected { name });
                    let mut options: Vec<SelectOption> = Vec::new();
                    options.push(
                        SelectOption::new("minimal", "Minimal").with_description(
                            "Bare-bones starter",
                        ),
                    );
                    options.push(
                        SelectOption::new("full", "Full Featured").with_description(
                            "All features included",
                        ),
                    );
                    options.push(
                        SelectOption::new("api", "API Only").with_description(
                            "Backend API template",
                        ),
                    );
                    let request = StandardRequest::Select {
                        message: "Choose template:".to_owned(),
                        options,
                        multi_select: false,
                    };
                    (events, Some(request))
                }
            },
            Err(BidirError::NotSupported) => {
                events.push(
                    WizardEvent::Error {
                        message: "Interactive mode required. Use a bidirectional transport."
                            .to_owned(),
                    },
                );
                (events, None)
            },
            Err(BidirError::Cancelled) => {
                events.push(WizardEvent::Cancelled);
                (events, None)
            },
            Err(e) => {
                events.push(WizardEvent::Error { message: bidir_error_message(&e) });
                (events, None)
            },
        }
    }

    /// Consumes the template answer: an empty selection or a failure ends
    /// the wizard; a chosen template is acknowledged and the confirmation
    /// question follows.
    pub fn wizard_on_template(&self, name: &str, answer: Result<Vec<String>, BidirError>) -> (r: (
        Vec<WizardEvent>,
        Option<StandardRequest>,
    ))
        ensures
            match answer {
                Ok(selected) => {
                    if selected.deep_view().len() == 0 {
                        r.0.len() == 1 && (r.0@[0] matches WizardEvent::Error { message }
                            && message@ == "No template selected"@) && r.1 is None
                    } else {
                        r.0.len() == 1 && (r.0@[0] matches WizardEvent::TemplateSelected {
                            template,
                        } && template@ == selected.deep_view()[0]) && (r.1 matches Some(
                            StandardRequest::Confirm { message, default },
                        ) && message@ == confirm_create_text(name@, selected.deep_view()[0])
                            && default is None)
                    }
                },
                Err(BidirError::Cancelled) => r.0.len() == 1 && r.0@[0] == WizardEvent::Cancelled
                    && r.1 is None,
                Err(e) => r.0.len() == 1 && (r.0@[0] matches WizardEvent::Error { message }
                    && message@ == bidir_error_text(e)) && r.1 is None,
            },
    {
        let mut events: Vec<WizardEvent> = Vec::new();
        match answer {
            Ok(mut selected) => {
                if selected.len() == 0 {
                    events.push(
                        WizardEvent::Error { message: "No template selected".to_owned() },
                    );
                    (events, None)
                } else {
                    let ghost first = selected.deep_view()[0];
                    let template = selected.remove(0);
                    proof {
                        assert(template@ == first);
                    }
                    let mut message = String::new();
                    message.append("Create project '");
                    message.append(name);
                    message.append("' with '");
                    message.append(template.as_str());
                    message.append("' template?");
                    proof {
                        assert(message@ =~= confirm_create_text(name@, first));
                    }
                    events.push(WizardEvent::TemplateSelected { template });
                    let request = StandardRequest::Confirm { message, default: None };
                    (events, Some(request))
                }
            },
            Err(BidirError::Cancelled) => {
                events.push(WizardEvent::Cancelled);
                (events, None)
            },
            Err(e) => {
                events.push(WizardEvent::Error { message: bidir_error_message(&e) });
                (events, None)
            },
        }
    }

    /// Consumes the confirmation answer and closes the wizard: creation on
    /// a yes, cancellation on a no or a cancel, an error report otherwise.
    pub fn wizard_on_confirm(
        &self,
        name: String,
        template: String,
        answer: Result<bool, BidirError>,
    ) -> (r: Vec<WizardEvent>)
        ensures
            match answer {
                Ok(confirmed) => {
                    if confirmed {
                        r.len() == 2 && (r@[0] matches WizardEvent::Created { name: n, template: t }
                            && n@ == name@ && t@ == template@) && r@[1] == WizardEvent::Done
                    } else {
                        r.len() == 1 && r@[0] == WizardEvent::Cancelled
                    }
                },
                Err(BidirError::Cancelled) => r.len() == 1 && r@[0] == WizardEvent::Cancelled,
                Err(e) => r.len() == 1 && (r@[0] matches WizardEvent::Error { message } && message@
                    == bidir_error_text(e)),
            },
    {
        let mut events: Vec<WizardEvent> = Vec::new();
        match answer {
            Ok(true) => {
                events.push(WizardEvent::Created { name, template });
                events.push(WizardEvent::Done);
            },
            Ok(false) => {
                events.push(WizardEvent::Cancelled);
            },
            Err(BidirError::Cancelled) => {
                events.push(WizardEvent::Cancelled);
            },
            Err(e) => {
                events.push(WizardEvent::Error { message: bidir_error_message(&e) });
            },
        }
        events
    }

    /// Opens the delete flow: an empty path list finishes at once, any
    /// other asks for confirmation, naming the single path or the count.
    pub fn delete_start(&self, paths: &Vec<String>) -> (r: (
        Vec<DeleteEvent>,
        Option<StandardRequest>,
    ))
        ensures
            paths.len() == 0 ==> r.0.len() == 1 && r.0@[0] == DeleteEvent::Done && r.1 is None,
            paths.len() == 1 ==> r.0.len() == 0 && (r.1 matches Some(StandardRequest::Confirm {
                message,
                default,
            }) && message@ == "Delete '"@ + paths.deep_view()[0] + "'?"@ && default is None),
            paths.len() > 1 ==> r.0.len() == 0 && (r.1 matches Some(StandardRequest::Confirm {
                message,
                default,
            }) && message@ == "Delete "@ + dec_u64(paths.len() as u64) + " files?"@ && default
                is None),
    {
        let mut events: Vec<DeleteEvent> = Vec::new();
        if paths.len() == 0 {
            events.push(DeleteEvent::Done);
            return (events, None);
        }
        let mut message = String::new();
        if paths.len() == 1 {
            message.append("Delete '");
            message.append(paths[0].as_str());
            message.append("'?");
            proof {
                assert(message@ =~= "Delete '"@ + paths.deep_view()[0] + "'?"@);
            }
        } else {
            message.append("Delete ");
            let n = u64_to_dec(paths.len() as u64);
            message.append(n.as_str());
            message.append(" files?");
            proof {
                assert(message@ =~= "Delete "@ + dec_u64(paths.len() as u64) + " files?"@);
            }
        }
        (events, Some(StandardRequest::Confirm { message, default: None }))
    }

    /// Consumes the delete confirmation: on a yes every path is reported
    /// deleted and the flow finishes; on anything else nothing is deleted.
    pub fn delete_on_confirm(&self, paths: Vec<String>, answer: Result<bool, BidirError>) -> (r:
        Vec<DeleteEvent>)
        ensures
            (answer matches Ok(true)) ==> {
                &&& r.len() == paths.len() + 1
                &&& forall|i: int|
                    0 <= i < paths.len() ==> (#[trigger] r@[i] matches DeleteEvent::Deleted { path }
                        && path@ == paths.deep_view()[i])
                &&& r@[paths.len() as int] == DeleteEvent::Done
            },
            !(answer matches Ok(true)) ==> r.len() == 1 && r@[0] == DeleteEvent::Cancelled,
    {
        let mut events: Vec<DeleteEvent> = Vec::new();
        match answer {
            Ok(true) => {
                let mut i: usize = 0;
                let n = paths.len();
                while i < n
                    invariant
                        0 <= i <= n,
                        n == paths.len(),
                        events.len() == i,
                        forall|j: int|
                            0 <= j < i ==> (#[trigger] events@[j] matches DeleteEvent::Deleted {
                                path,
                            } && path@ == paths.deep_view()[j]),
                    decreases n - i,
                {
                    let path = paths[i].clone();
                    events.push(DeleteEvent::Deleted { path });
                    i = i + 1;
                }
                events.push(DeleteEvent::Done);
            },
            _ => {
                events.push(DeleteEvent::Cancelled);
            },
        }
        events
    }

    /// Turns the confirmation answer into the confirm method's one event.
    pub fn confirm_outcome(&self, answer: Result<bool, BidirError>) -> (r: ConfirmEvent)
        ensures
            match answer {
                Ok(true) => r == ConfirmEvent::Confirmed,
                Ok(false) => r == ConfirmEvent::Declined,
                Err(e) => (r matches ConfirmEvent::Error { message } && message@
                    == bidir_error_text(e)),
            },
    {
        match answer {
            Ok(true) => ConfirmEvent::Confirmed,
            Ok(false) => ConfirmEvent::Declined,
            Err(e) => ConfirmEvent::Error { message: bidir_error_message(&e) },
        }
    }
}

/// The wizard's confirmation question for a name and a template.
pub open spec fn confirm_create_text(name: Seq<char>, template: Seq<char>) -> Seq<char> {
    "Create project '"@ + name + "' with '"@ + template + "' template?"@
}

} // verus!
