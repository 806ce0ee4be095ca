//! Collects the labels of a pod.

use crate::decimal::decimal;
use crate::instance_type::InstanceType;
use crate::label::{label_views, Label};
use crate::text::{distinct_names, same_text};
use vstd::prelude::*;

verus! {

/// The label map that a list of labels stands for: a later label replaces an
/// earlier one with the same key.
pub open spec fn labels_as_map(labels: Seq<(Seq<char>, Seq<char>)>) -> Map<Seq<char>, Seq<char>>
    decreases labels.len(),
{
    if labels.len() == 0 {
        Map::empty()
    } else {
        labels_as_map(labels.drop_last()).insert(labels.last().0, labels.last().1)
    }
}

/// Key and value pairs as plain values.
pub open spec fn pair_views(pairs: Seq<(String, String)>) -> Seq<(Seq<char>, Seq<char>)> {
    pairs.map_values(|p: (String, String)| (p.0@, p.1@))
}

/// The keys of a list of labels, in order.
pub open spec fn keys_of(labels: Seq<(Seq<char>, Seq<char>)>) -> Seq<Seq<char>> {
    labels.map_values(|l: (Seq<char>, Seq<char>)| l.0)
}

/// A list of labels in the making, which starts with the default label.
pub struct LabelsBuilder {
    labels: Vec<Label>,
}

impl View for LabelsBuilder {
    type V = Seq<(Seq<char>, Seq<char>)>;

    closed spec fn view(&self) -> Seq<(Seq<char>, Seq<char>)> {
        label_views(self.labels@)
    }
}

impl LabelsBuilder {
    /// A builder that holds the default label only.
    pub fn new() -> (builder: LabelsBuilder)
        ensures
            builder@ == seq![("epsilon.fr/default"@, "true"@)],
    {
        let default = Label::new(Label::DEFAULT_LABEL, "true");
        let builder = LabelsBuilder { labels: vec![default] };
        assert(builder@ =~= seq![("epsilon.fr/default"@, "true"@)]);
        builder
    }

    fn add(&mut self, label: Label)
        ensures
            final(self)@ == old(self)@.push(label@),
    {
        self.labels.push(label);
        assert(self@ =~= old(self)@.push(label@));
    }

    /// Adds the label that tells the kind of the instance.
    pub fn with_instance_type_label(&mut self, instance_type: &InstanceType) -> (builder: &Self)
        ensures
            builder@ == final(self)@,
            final(self)@ == old(self)@.push(("epsilon.fr/instance"@, instance_type.name())),
    {
        self.add(Label::get_instance_type_label(instance_type));
        &*self
    }

    /// Adds the label that tells the template of the instance.
    pub fn with_template_label(&mut self, template_name: &str) -> (builder: &Self)
        ensures
            builder@ == final(self)@,
            final(self)@ == old(self)@.push(("epsilon.fr/template"@, template_name@)),
    {
        self.add(Label::get_template_label(template_name));
        &*self
    }

    /// Adds the label that tells how many players the instance takes.
    pub fn with_slots_label(&mut self, slots: i32) -> (builder: &Self)
        ensures
            builder@ == final(self)@,
            final(self)@ == old(self)@.push(("epsilon.fr/slots"@, decimal(slots as int))),
    {
        self.add(Label::get_slots_label(slots));
        &*self
    }

    /// Adds the label that tells whether the instance hosts a running game.
    pub fn with_in_game_label(&mut self, enable: bool) -> (builder: &Self)
        ensures
            final(self)@ == old(self)@.push(
                ("epsilon.fr/in-game"@, if enable { "true"@ } else { "false"@ }),
            ),
            builder@ == final(self)@,
    {
        self.add(Label::get_in_game_label(enable));
        &*self
    }

    /// The label map: one pair for each key, in the order in which the keys
    /// first came, each with the value of the last label of that key.
    pub fn build(&self) -> (pairs: Vec<(String, String)>)
        ensures
            keys_of(pair_views(pairs@)) == distinct_names(keys_of(self@)),
            keys_of(pair_views(pairs@)).no_duplicates(),
            labels_as_map(pair_views(pairs@)) == labels_as_map(self@),
    {
        let mut pairs: Vec<(String, String)> = Vec::new();
        let mut i: usize = 0;
        proof {
            assert(self@.take(0) =~= Seq::<(Seq<char>, Seq<char>)>::empty());
            assert(pair_views(pairs@) =~= Seq::<(Seq<char>, Seq<char>)>::empty());
        }
        while i < self.labels.len()
            invariant
                i <= self.labels@.len(),
                keys_of(pair_views(pairs@)) == distinct_names(keys_of(self@.take(i as int))),
                keys_of(pair_views(pairs@)).no_duplicates(),
                labels_as_map(pair_views(pairs@)) == labels_as_map(self@.take(i as int)),
            decreases self.labels@.len() - i,
        {
            let label = &self.labels[i];
            let ghost before = pair_views(pairs@);
            proof {
                assert(self@.take(i + 1).drop_last() =~= self@.take(i as int));
                assert(self@.take(i + 1).last() == label@);
                assert(keys_of(self@.take(i + 1)).drop_last() =~= keys_of(self@.take(i as int)));
                assert(keys_of(self@.take(i + 1)).last() == label@.0);
            }
            let mut j: usize = 0;
            let mut found = false;
            while j < pairs.len()
                invariant_except_break
                    !found,
                    forall|k: int| 0 <= k < j ==> (#[trigger] pair_views(pairs@)[k]).0 != label@.0,
                invariant
                    j <= pairs@.len(),
                ensures
                    found ==> j < pairs@.len() && pair_views(pairs@)[j as int].0 == label@.0,
                    !found ==> forall|k: int|
                        0 <= k < pairs@.len() ==> (#[trigger] pair_views(pairs@)[k]).0 != label@.0,
                decreases pairs@.len() - j,
            {
                if same_text(pairs[j].0.as_str(), label.get_key()) {
                    found = true;
                    break ;
                }
                j += 1;
            }
            if found {
                let key = String::from_str(label.get_key());
                let value = String::from_str(label.get_value());
                pairs.set(j, (key, value));
                proof {
                    let after = pair_views(pairs@);
                    assert(after =~= before.update(j as int, label@));
                    assert(keys_of(after) =~= keys_of(before));
                    assert(keys_of(before)[j as int] == label@.0);
                    lemma_update_is_insert(before, j as int, label@.1);
                }
            } else {
                let key = String::from_str(label.get_key());
                let value = String::from_str(label.get_value());
                pairs.push((key, value));
                proof {
                    let after = pair_views(pairs@);
                    assert(after =~= before.push(label@));
                    assert(after.drop_last() =~= before);
                    assert(keys_of(after) =~= keys_of(before).push(label@.0));
                    assert forall|k: int| 0 <= k < keys_of(before).len() implies keys_of(
                        before,
                    )[k] != label@.0 by {
                        assert(before[k].0 != label@.0);
                    }
                }
            }
            i += 1;
        }
        proof {
            assert(self@.take(i as int) =~= self@);
        }
        pairs
    }
}

/// In a list with distinct keys, replacing the value at one place is the
/// same, for the map it stands for, as inserting the new value under the key
/// of that place.
proof fn lemma_update_is_insert(pairs: Seq<(Seq<char>, Seq<char>)>, at: int, value: Seq<char>)
    requires
        0 <= at < pairs.len(),
        keys_of(pairs).no_duplicates(),
    ensures
        labels_as_map(pairs.update(at, (pairs[at].0, value))) == labels_as_map(pairs).insert(
            pairs[at].0,
            value,
        ),
    decreases pairs.len(),
{
    let key = pairs[at].0;
    let updated = pairs.update(at, (key, value));
    let front = pairs.drop_last();
    assert(keys_of(front) =~= keys_of(pairs).drop_last());
    if at == pairs.len() - 1 {
        assert(updated.drop_last() =~= front);
        assert(labels_as_map(updated) =~= labels_as_map(pairs).insert(key, value));
    } else {
        lemma_update_is_insert(front, at, value);
        assert(updated.drop_last() =~= front.update(at, (key, value)));
        assert(updated.last() == pairs.last());
        assert(keys_of(pairs)[at] != keys_of(pairs)[pairs.len() - 1]);
        assert(labels_as_map(updated) =~= labels_as_map(pairs).insert(key, value));
    }
}

} // verus!
