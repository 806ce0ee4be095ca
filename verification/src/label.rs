//! Labels that mark the pods of the fleet.

use crate::decimal::{decimal, signed_to_string};
use crate::instance_type::InstanceType;
use vstd::prelude::*;

verus! {

/// A key and its value, as the orchestrator attaches them to a pod.
#[derive(Debug)]
pub struct Label {
    key: String,
    value: String,
}

impl View for Label {
    type V = (Seq<char>, Seq<char>);

    closed spec fn view(&self) -> (Seq<char>, Seq<char>) {
        (self.key@, self.value@)
    }
}

/// A label as a selector term: key, equals sign, value.
pub open spec fn label_text(label: (Seq<char>, Seq<char>)) -> Seq<char> {
    label.0 + seq!['='] + label.1
}

/// The selector that asks for all of `labels`: their terms, joined by commas.
pub open spec fn selector_text(labels: Seq<(Seq<char>, Seq<char>)>) -> Seq<char>
    decreases labels.len(),
{
    if labels.len() == 0 {
        Seq::empty()
    } else if labels.len() == 1 {
        label_text(labels[0])
    } else {
        selector_text(labels.drop_last()) + seq![','] + label_text(labels.last())
    }
}

/// The labels of a slice as plain values.
pub open spec fn label_views(labels: Seq<Label>) -> Seq<(Seq<char>, Seq<char>)> {
    labels.map_values(|l: Label| l@)
}

impl Label {
    pub const DEFAULT_LABEL: &'static str = "epsilon.fr/default";

    pub const INSTANCE_TYPE_LABEL: &'static str = "epsilon.fr/instance";

    pub const TEMPLATE_LABEL: &'static str = "epsilon.fr/template";

    pub const SLOTS_LABEL: &'static str = "epsilon.fr/slots";

    pub const IN_GAME_LABEL: &'static str = "epsilon.fr/in-game";

    /// The label with the given key and value.
    pub fn new(key: &str, value: &str) -> (label: Self)
        ensures
            label@ == (key@, value@),
    {
        Self { key: String::from_str(key), value: String::from_str(value) }
    }

    /// The label's key.
    pub fn get_key(&self) -> (key: &str)
        ensures
            key@ == self@.0,
    {
        self.key.as_str()
    }

    /// The label's value.
    pub fn get_value(&self) -> (value: &str)
        ensures
            value@ == self@.1,
    {
        self.value.as_str()
    }

    /// The label as a selector term.
    pub fn to_string(&self) -> (text: String)
        ensures
            text@ == label_text(self@),
    {
        proof {
            reveal_strlit("=");
        }
        let mut text = self.key.clone();
        text.append("=");
        text.append(self.value.as_str());
        assert(text@ =~= label_text(self@));
        text
    }

    /// The selector that asks for all of `labels`.
    pub fn concat(labels: &[Self]) -> (text: String)
        ensures
            text@ == selector_text(label_views(labels@)),
    {
        let mut text = String::new();
        let mut i: usize = 0;
        while i < labels.len()
            invariant
                i <= labels@.len(),
                text@ == selector_text(label_views(labels@).take(i as int)),
            decreases labels@.len() - i,
        {
            let ghost views = label_views(labels@);
            proof {
                reveal_strlit(",");
                assert(views.take(i + 1).drop_last() =~= views.take(i as int));
                assert(views.take(i + 1).last() == labels@[i as int]@);
            }
            if i > 0 {
                text.append(",");
            }
            let term = labels[i].to_string();
            text.append(term.as_str());
            proof {
                if i == 0 {
                    assert(text@ =~= label_text(views[0]));
                } else {
                    assert(text@ =~= selector_text(views.take(i as int)) + seq![','] + label_text(
                        views[i as int],
                    ));
                }
            }
            i += 1;
        }
        proof {
            assert(label_views(labels@).take(i as int) =~= label_views(labels@));
        }
        text
    }

    /// The label that every pod of the fleet carries.
    pub fn get_default_label() -> (label: Label)
        ensures
            label@ == ("epsilon.fr/default"@, "true"@),
    {
        Label::new(Self::DEFAULT_LABEL, "true")
    }

    /// The label that tells the kind of an instance.
    pub fn get_instance_type_label(instance_type: &InstanceType) -> (label: Label)
        ensures
            label@ == ("epsilon.fr/instance"@, instance_type.name()),
    {
        let name = instance_type.to_string();
        Label::new(Self::INSTANCE_TYPE_LABEL, name.as_str())
    }

    /// The label that tells the template of an instance.
    pub fn get_template_label(template_name: &str) -> (label: Label)
        ensures
            label@ == ("epsilon.fr/template"@, template_name@),
    {
        Label::new(Self::TEMPLATE_LABEL, template_name)
    }

    /// The label that tells how many players an instance takes, in decimal
    /// notation.
    pub fn get_slots_label(slots: i32) -> (label: Label)
        ensures
            label@ == ("epsilon.fr/slots"@, decimal(slots as int)),
    {
        let text = signed_to_string(slots as i64);
        Label::new(Self::SLOTS_LABEL, text.as_str())
    }

    /// The label that tells whether an instance hosts a running game.
    pub fn get_in_game_label(enable: bool) -> (label: Label)
        ensures
            label@ == ("epsilon.fr/in-game"@, if enable { "true"@ } else { "false"@ }),
    {
        let text = if enable {
            "true"
        } else {
            "false"
        };
        Label::new(Self::IN_GAME_LABEL, text)
    }
}

} // verus!
