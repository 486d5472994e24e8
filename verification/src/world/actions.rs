//! The actions that a player can perform in the game.

use vstd::prelude::*;
use vstd::string::*;
use crate::world::properties::{property_views, Property, PropertyView};

verus! {

/// An action of a player.
#[derive(Debug, Clone, PartialEq, Eq)]
pub enum Action {
    /// Look around, or at the `target` that the sentence names.
    Look { target: Option<String>, preposition: Option<String>, properties: Option<Vec<Property>> },
    Read,
    Enter,
    Connect,
    Access,
    Open,
}

/// An [`Action`] as a mathematical value.
pub enum ActionView {
    Look {
        target: Option<Seq<char>>,
        preposition: Option<Seq<char>>,
        properties: Option<Seq<PropertyView>>,
    },
    Read,
    Enter,
    Connect,
    Access,
    Open,
}

/// The view of an optional string.
pub open spec fn text_view(text: Option<String>) -> Option<Seq<char>> {
    match text {
        Some(t) => Some(t@),
        None => None,
    }
}

impl View for Action {
    type V = ActionView;

    open spec fn view(&self) -> ActionView {
        match self {
            Action::Look { target, preposition, properties } => ActionView::Look {
                target: text_view(*target),
                preposition: text_view(*preposition),
                properties: match properties {
                    Some(p) => Some(property_views(p@)),
                    None => None,
                },
            },
            Action::Read => ActionView::Read,
            Action::Enter => ActionView::Enter,
            Action::Connect => ActionView::Connect,
            Action::Access => ActionView::Access,
            Action::Open => ActionView::Open,
        }
    }
}

impl ActionView {
    /// A look at nothing in particular.
    pub open spec fn plain_look() -> ActionView {
        ActionView::Look { target: None, preposition: None, properties: None }
    }

    /// The note that stands in for the properties of a look.
    pub open spec fn properties_note() -> Seq<char> {
        "properties printing not yet implemented "@
    }

    /// The mark that follows the verb of an action without object.
    pub open spec fn mark() -> Seq<char> {
        " (todo)"@
    }

    /// The sentence for this action. A look at a target is written with its
    /// preposition, if there is one, a note in place of its properties, if
    /// it has any, and the target. A look without target is the verb alone.
    /// Every other action is its verb with a mark.
    pub open spec fn sentence(self) -> Seq<char> {
        match self {
            ActionView::Look { target: Some(t), preposition, properties } => "look "@ + (match preposition {
                Some(p) => p + " "@,
                None => Seq::empty(),
            }) + (match properties {
                Some(_) => ActionView::properties_note(),
                None => Seq::empty(),
            }) + t,
            ActionView::Look { target: None, .. } => "look"@,
            ActionView::Read => "read"@ + ActionView::mark(),
            ActionView::Enter => "enter"@ + ActionView::mark(),
            ActionView::Connect => "connect"@ + ActionView::mark(),
            ActionView::Access => "access"@ + ActionView::mark(),
            ActionView::Open => "open"@ + ActionView::mark(),
        }
    }
}

/// Writes a verb with the mark of an action without object.
fn marked(verb: &str) -> (text: String)
    ensures
        text@ == verb@ + ActionView::mark(),
{
    let mut text = verb.to_owned();
    text.append(" (todo)");
    text
}

impl Action {
    /// A look at nothing in particular.
    pub fn plain_look() -> (a: Action)
        ensures
            a@ == ActionView::plain_look(),
    {
        Action::Look { target: None, preposition: None, properties: None }
    }

    /// Renders the action as a sentence.
    pub fn to_string(&self) -> (text: String)
        ensures
            text@ == self@.sentence(),
    {
        match self {
            Action::Look { target, preposition, properties } => {
                match target {
                    Some(t) => {
                        let mut text = "look ".to_owned();
                        match preposition {
                            Some(p) => {
                                text.append(p.as_str());
                                text.append(" ");
                                assert(text@ =~= "look "@ + (p@ + " "@));
                            },
                            None => {
                                assert(text@ =~= "look "@ + Seq::<char>::empty());
                            },
                        }
                        match properties {
                            Some(_) => {
                                text.append("properties printing not yet implemented ");
                            },
                            None => {
                                assert(text@ + Seq::<char>::empty() =~= text@);
                            },
                        }
                        text.append(t.as_str());
                        text
                    },
                    None => "look".to_owned(),
                }
            },
            Action::Read => marked("read"),
            Action::Enter => marked("enter"),
            Action::Connect => marked("connect"),
            Action::Access => marked("access"),
            Action::Open => marked("open"),
        }
    }
}

} // verus!
