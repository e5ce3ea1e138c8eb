//! The models that the clients offer for selection, and the reasoning efforts
//! that go with them.

use crate::protocol::{ModelSummaryView, ProviderSummary, ProviderSummaryView, ReasoningEffort};
use crate::reasoning::{inferred, inferred_reasoning_efforts, levels};
use crate::text::{same, views, Text};
use vstd::prelude::*;

verus! {

/// The content of a [`ModelChoice`].
#[verifier::ext_equal]
pub struct ModelChoiceView {
    pub provider_id: Text,
    pub provider_name: Text,
    pub model: Text,
    pub reasoning_efforts: Option<Seq<ReasoningEffort>>,
}

/// A model that can be selected.
#[derive(Debug, Eq, PartialEq)]
pub struct ModelChoice {
    pub provider_id: String,
    pub provider_name: String,
    pub model: String,
    pub reasoning_efforts: Option<Vec<ReasoningEffort>>,
}

impl View for ModelChoice {
    type V = ModelChoiceView;

    open spec fn view(&self) -> ModelChoiceView {
        ModelChoiceView {
            provider_id: self.provider_id@,
            provider_name: self.provider_name@,
            model: self.model@,
            reasoning_efforts: match self.reasoning_efforts {
                Some(list) => Some(list@),
                None => None,
            },
        }
    }
}

impl Clone for ModelChoice {
    fn clone(&self) -> (r: Self)
        ensures
            r@ == self@,
    {
        let r = ModelChoice {
            provider_id: self.provider_id.clone(),
            provider_name: self.provider_name.clone(),
            model: self.model.clone(),
            reasoning_efforts: self.reasoning_efforts.clone(),
        };
        assert(r@ =~~= self@);
        r
    }
}

/// The models of a provider as choices.
pub open spec fn provider_choices(provider: ProviderSummaryView) -> Seq<ModelChoiceView> {
    provider.models.map_values(
        |model: ModelSummaryView|
            ModelChoiceView {
                provider_id: provider.id,
                provider_name: provider.name,
                model: model.id,
                reasoning_efforts: model.reasoning_efforts,
            },
    )
}

/// The models of all providers as choices, provider by provider.
pub open spec fn all_choices(providers: Seq<ProviderSummaryView>) -> Seq<ModelChoiceView>
    decreases providers.len(),
{
    if providers.len() == 0 {
        seq![]
    } else {
        all_choices(providers.drop_last()) + provider_choices(providers.last())
    }
}

/// The first choice with this provider and model.
pub open spec fn choice_position(choices: Seq<ModelChoiceView>, provider: Text, model: Text) -> Option<
    int,
>
    decreases choices.len(),
{
    if choices.len() == 0 {
        None
    } else {
        match choice_position(choices.drop_last(), provider, model) {
            Some(i) => Some(i),
            None => if choices.last().provider_id == provider && choices.last().model == model {
                Some(choices.len() - 1)
            } else {
                None
            },
        }
    }
}

/// Finds the first choice with this provider and model.
pub fn position_of_choice(choices: &Vec<ModelChoice>, provider: &str, model: &str) -> (r: Option<usize>)
    ensures
        r is Some <==> choice_position(views(choices@), provider@, model@) is Some,
        r matches Some(i) ==> i < choices@.len() && choice_position(
            views(choices@),
            provider@,
            model@,
        ) == Some(i as int),
{
    let ghost all = views(choices@);
    let mut found: Option<usize> = None;
    let mut i: usize = 0;
    assert(all.take(0) =~= seq![]);
    while i < choices.len()
        invariant
            i <= choices@.len(),
            all == views(choices@),
            found is Some <==> choice_position(all.take(i as int), provider@, model@) is Some,
            found matches Some(k) ==> k < i && choice_position(
                all.take(i as int),
                provider@,
                model@,
            ) == Some(k as int),
        decreases choices@.len() - i,
    {
        assert(all.take(i as int + 1).drop_last() =~= all.take(i as int));
        assert(all.take(i as int + 1).last() == choices@[i as int]@);
        if found.is_none() && same(&choices[i].provider_id, provider) && same(
            &choices[i].model,
            model,
        ) {
            found = Some(i);
        }
        i += 1;
    }
    assert(all.take(choices@.len() as int) =~= all);
    found
}

/// Lists the models of all providers, provider by provider.
pub fn collect_choices(providers: &Vec<ProviderSummary>) -> (r: Vec<ModelChoice>)
    ensures
        views(r@) == all_choices(views(providers@)),
{
    let ghost all = views(providers@);
    let mut choices: Vec<ModelChoice> = Vec::new();
    let mut i: usize = 0;
    assert(all.take(0) =~= seq![]);
    assert(views(choices@) =~= all_choices(all.take(0)));
    while i < providers.len()
        invariant
            i <= providers@.len(),
            all == views(providers@),
            views(choices@) == all_choices(all.take(i as int)),
        decreases providers@.len() - i,
    {
        let provider = &providers[i];
        let ghost before = views(choices@);
        let mut k: usize = 0;
        assert(before + provider_choices(provider@).take(0) =~= before);
        while k < provider.models.len()
            invariant
                k <= provider.models@.len(),
                views(choices@) =~= before + provider_choices(provider@).take(k as int),
            decreases provider.models@.len() - k,
        {
            let model = provider.models[k].clone();
            let choice = ModelChoice {
                provider_id: provider.id.clone(),
                provider_name: provider.name.clone(),
                model: model.id,
                reasoning_efforts: model.reasoning_efforts,
            };
            let ghost row = choice@;
            let ghost earlier = views(choices@);
            assert(row == provider_choices(provider@)[k as int]);
            choices.push(choice);
            assert(views(choices@) =~= earlier.push(row));
            assert(provider_choices(provider@).take(k as int + 1) =~= provider_choices(
                provider@,
            ).take(k as int).push(row));
            k += 1;
        }
        assert(provider_choices(provider@).take(provider.models@.len() as int)
            =~= provider_choices(provider@));
        assert(all.take(i as int + 1).drop_last() =~= all.take(i as int));
        assert(all.take(i as int + 1).last() == provider@);
        i += 1;
    }
    assert(all.take(providers@.len() as int) =~= all);
    choices
}

/// The efforts selectable for a model: a declared list as it is, otherwise the
/// levels implied by the id, otherwise the common ones.
pub open spec fn offered(choice: ModelChoiceView) -> Seq<ReasoningEffort> {
    match choice.reasoning_efforts {
        Some(list) => list,
        None => match inferred(choice.model) {
            Some(list) => list,
            None => ReasoningEffort::COMMON@,
        },
    }
}

/// The effort that stays selected with a model.
pub open spec fn kept_effort(choice: ModelChoiceView, effort: Option<ReasoningEffort>) -> Option<
    ReasoningEffort,
> {
    match effort {
        Some(level) if !offered(choice).contains(level) => None,
        _ => effort,
    }
}

impl ModelChoice {
    /// The efforts selectable for this model.
    pub fn offered_efforts(&self) -> (r: Vec<ReasoningEffort>)
        ensures
            r@ == offered(self@),
    {
        match &self.reasoning_efforts {
            Some(list) => levels(list),
            None => match inferred_reasoning_efforts(&self.model) {
                Some(list) => list,
                None => levels(&ReasoningEffort::COMMON),
            },
        }
    }

    /// Whether an effort is selectable for this model.
    pub fn supports_effort(&self, effort: ReasoningEffort) -> (r: bool)
        ensures
            r == offered(self@).contains(effort),
    {
        let list = self.offered_efforts();
        let mut i: usize = 0;
        while i < list.len()
            invariant
                i <= list@.len(),
                list@ == offered(self@),
                forall|k: int| 0 <= k < i ==> list@[k] != effort,
            decreases list@.len() - i,
        {
            if list[i] == effort {
                return true;
            }
            i += 1;
        }
        false
    }
}

/// A model's declared list of levels is what it offers, even if it is empty; a
/// model without one offers what its id implies, or the common levels.
pub proof fn declared_levels_are_offered(choice: ModelChoiceView)
    ensures
        choice.reasoning_efforts matches Some(list) ==> offered(choice) == list,
        choice.reasoning_efforts is None && inferred(choice.model) is Some ==> Some(
            offered(choice),
        ) == inferred(choice.model),
        choice.reasoning_efforts is None && inferred(choice.model) is None ==> offered(choice)
            == ReasoningEffort::COMMON@,
{
}

/// Every model of every provider can be chosen, under its provider and with the
/// levels that are declared for it, and nothing else can.
pub proof fn every_model_can_be_chosen(providers: Seq<ProviderSummaryView>)
    ensures
        forall|p: int, m: int|
            #![trigger providers[p].models[m]]
            0 <= p < providers.len() && 0 <= m < providers[p].models.len() ==> all_choices(
                providers,
            ).contains(
                ModelChoiceView {
                    provider_id: providers[p].id,
                    provider_name: providers[p].name,
                    model: providers[p].models[m].id,
                    reasoning_efforts: providers[p].models[m].reasoning_efforts,
                },
            ),
        forall|i: int|
            0 <= i < all_choices(providers).len() ==> is_choice_of(
                #[trigger] all_choices(providers)[i],
                providers,
            ),
    decreases providers.len(),
{
    if providers.len() > 0 {
        let front = providers.drop_last();
        every_model_can_be_chosen(front);
        let all = all_choices(providers);
        let before = all_choices(front);
        let own = provider_choices(providers.last());
        let last = providers.len() - 1;
        assert forall|p: int, m: int|
            #![trigger providers[p].models[m]]
            0 <= p < providers.len() && 0 <= m < providers[p].models.len() implies all.contains(
            ModelChoiceView {
                provider_id: providers[p].id,
                provider_name: providers[p].name,
                model: providers[p].models[m].id,
                reasoning_efforts: providers[p].models[m].reasoning_efforts,
            },
        ) by {
            let choice = ModelChoiceView {
                provider_id: providers[p].id,
                provider_name: providers[p].name,
                model: providers[p].models[m].id,
                reasoning_efforts: providers[p].models[m].reasoning_efforts,
            };
            if p < last {
                assert(front[p].models[m] == providers[p].models[m]);
                assert(before.contains(choice));
                let i = choose|i: int| 0 <= i < before.len() && before[i] == choice;
                assert(all[i] == choice);
            } else {
                assert(all[before.len() + m] == own[m]);
            }
        }
        assert forall|i: int| 0 <= i < all.len() implies is_choice_of(#[trigger] all[i], providers) by {
            if i < before.len() {
                assert(all[i] == before[i]);
                assert(is_choice_of(before[i], front));
                let (p, m) = choose|p: int, m: int|
                    0 <= p < front.len() && 0 <= m < front[p].models.len() && names(
                        before[i],
                        front[p],
                        #[trigger] front[p].models[m],
                    );
                assert(names(all[i], providers[p], providers[p].models[m]));
            } else {
                let m = i - before.len();
                assert(all[i] == own[m]);
                assert(names(all[i], providers[last], providers[last].models[m]));
            }
        }
    }
}

/// Whether a choice is a model of a provider.
pub open spec fn names(
    choice: ModelChoiceView,
    provider: ProviderSummaryView,
    model: ModelSummaryView,
) -> bool {
    choice.provider_id == provider.id && choice.provider_name == provider.name && choice.model
        == model.id && choice.reasoning_efforts == model.reasoning_efforts
}

/// Whether a choice is a model of one of the providers.
pub open spec fn is_choice_of(choice: ModelChoiceView, providers: Seq<ProviderSummaryView>) -> bool {
    exists|p: int, m: int|
        0 <= p < providers.len() && 0 <= m < providers[p].models.len() && names(
            choice,
            providers[p],
            #[trigger] providers[p].models[m],
        )
}

/// A choice is found by its provider and its model: the first one that has both,
/// and none only if there is none.
pub proof fn choices_are_found(choices: Seq<ModelChoiceView>, provider: Text, model: Text)
    ensures
        match choice_position(choices, provider, model) {
            Some(i) => 0 <= i < choices.len() && choices[i].provider_id == provider
                && choices[i].model == model && forall|k: int|
                0 <= k < i ==> !((#[trigger] choices[k]).provider_id == provider && choices[k].model
                    == model),
            None => forall|k: int|
                0 <= k < choices.len() ==> !((#[trigger] choices[k]).provider_id == provider
                    && choices[k].model == model),
        },
    decreases choices.len(),
{
    if choices.len() > 0 {
        let front = choices.drop_last();
        choices_are_found(front, provider, model);
        assert forall|k: int| 0 <= k < front.len() implies front[k] == #[trigger] choices[k] by {}
        assert(choices.last() == choices[choices.len() - 1]);
    }
}

/// A selected effort stays with a model exactly when the model offers it.
pub proof fn efforts_stay_where_offered(choice: ModelChoiceView, level: ReasoningEffort)
    ensures
        offered(choice).contains(level) ==> kept_effort(choice, Some(level)) == Some(level),
        !offered(choice).contains(level) ==> kept_effort(choice, Some(level)) is None,
        kept_effort(choice, None) is None,
{
}

} // verus!
