//! What the rules of a configuration make of a sample: it is dropped, or it
//! is marked for anonymizing and given its tags.

use crate::config::{
    matcher_models, tag_models, Config, ConfigModel, ConfigTag, MatcherModel, TagModel,
    WindowEventMatcher,
};
use crate::event::{distinct, tags_array, texts, ActiveWindowEvent, EventModel};
use crate::json_value::JsonModel;
use vstd::prelude::*;

verus! {

/// Whether one of the matchers passes the sample.
pub open spec fn any_matches(ms: Seq<MatcherModel>, e: EventModel) -> bool {
    exists|i: int| 0 <= i < ms.len() && (#[trigger] ms[i]).matches(e)
}

/// The tags with `tag` among them: added at the end where it was missing.
pub open spec fn with_tag(tags: Seq<Seq<char>>, tag: Seq<char>) -> Seq<Seq<char>> {
    if tags.contains(tag) {
        tags
    } else {
        tags.push(tag)
    }
}

/// The sample after one rule: where the rule's matcher passes it, it has the
/// rule's tag.
pub open spec fn apply_rule(rule: TagModel, e: EventModel) -> EventModel {
    if rule.matcher.matches(e) {
        EventModel { tags: with_tag(e.tags, rule.tag), ..e }
    } else {
        e
    }
}

/// The sample after the rules, taken in order.
pub open spec fn apply_rules(rules: Seq<TagModel>, e: EventModel) -> EventModel
    decreases rules.len(),
{
    if rules.len() == 0 {
        e
    } else {
        apply_rule(rules.last(), apply_rules(rules.drop_last(), e))
    }
}

/// Whether one of the rules gives `tag` to the sample.
pub open spec fn some_rule_gives(rules: Seq<TagModel>, e: EventModel, tag: Seq<char>) -> bool {
    exists|i: int| 0 <= i < rules.len() && (#[trigger] rules[i]).tag == tag && rules[i].matcher.matches(e)
}

/// What a configuration makes of a sample: nothing where a matcher of
/// `ignore` passes it; else the sample, to be anonymized exactly where a
/// matcher of `anonymize` passes it, with the tags of the rules.
pub open spec fn classified(config: ConfigModel, e: EventModel) -> Option<EventModel> {
    if any_matches(config.ignore, e) {
        None
    } else {
        Some(apply_rules(config.tags, EventModel { anonymize: any_matches(config.anonymize, e), ..e }))
    }
}

/// The view of an optional sample.
pub open spec fn optional_event(e: Option<ActiveWindowEvent>) -> Option<EventModel> {
    match e {
        Some(e) => Some(e@),
        None => None,
    }
}

/// The rules change the tags only: they add to the end of them, keep them free
/// of repetition, and leave a tag there exactly where it was there before or a
/// rule gives it.
pub proof fn lemma_apply_rules(rules: Seq<TagModel>, e: EventModel)
    ensures
        apply_rules(rules, e) == (EventModel { tags: apply_rules(rules, e).tags, ..e }),
        e.tags.is_prefix_of(apply_rules(rules, e).tags),
        distinct(e.tags) ==> distinct(apply_rules(rules, e).tags),
        forall|tag: Seq<char>| #[trigger]
            apply_rules(rules, e).tags.contains(tag) <==> e.tags.contains(tag) || some_rule_gives(
                rules,
                e,
                tag,
            ),
    decreases rules.len(),
{
    if rules.len() > 0 {
        let front = rules.drop_last();
        let rule = rules.last();
        let mid = apply_rules(front, e);
        let out = apply_rules(rules, e);
        lemma_apply_rules(front, e);
        assert(rule.matcher.matches(mid) == rule.matcher.matches(e));
        assert(mid.tags.is_prefix_of(out.tags));
        assert forall|tag: Seq<char>| #[trigger]
            out.tags.contains(tag) <==> e.tags.contains(tag) || some_rule_gives(rules, e, tag) by {
            if some_rule_gives(front, e, tag) {
                let i = choose|i: int|
                    0 <= i < front.len() && (#[trigger] front[i]).tag == tag
                        && front[i].matcher.matches(e);
                assert(rules[i] == front[i]);
            }
            if some_rule_gives(rules, e, tag) {
                let i = choose|i: int|
                    0 <= i < rules.len() && (#[trigger] rules[i]).tag == tag
                        && rules[i].matcher.matches(e);
                if i < front.len() {
                    assert(front[i] == rules[i]);
                }
            }
            if rule.matcher.matches(e) {
                assert(rules[rules.len() - 1] == rule);
                if mid.tags.contains(rule.tag) {
                } else {
                    assert(out.tags == mid.tags.push(rule.tag));
                    assert(out.tags[mid.tags.len() as int] == rule.tag);
                    if mid.tags.contains(tag) {
                        let k = choose|k: int| 0 <= k < mid.tags.len() && mid.tags[k] == tag;
                        assert(out.tags[k] == tag);
                    }
                }
            }
        }
        if distinct(e.tags) && rule.matcher.matches(e) && !mid.tags.contains(rule.tag) {
            assert forall|i: int, j: int| 0 <= i < j < out.tags.len() implies out.tags[i]
                != out.tags[j] by {
                if j == mid.tags.len() {
                    assert(mid.tags[i] == out.tags[i]);
                }
            }
        }
    } else {
        assert forall|tag: Seq<char>| !some_rule_gives(rules, e, tag) by {}
    }
}

/// Where every tag that a rule gives is among the tags already, the rules
/// change nothing.
pub proof fn lemma_apply_rules_settled(rules: Seq<TagModel>, e: EventModel)
    requires
        forall|i: int|
            0 <= i < rules.len() && (#[trigger] rules[i]).matcher.matches(e) ==> e.tags.contains(
                rules[i].tag,
            ),
    ensures
        apply_rules(rules, e) == e,
    decreases rules.len(),
{
    if rules.len() > 0 {
        let front = rules.drop_last();
        assert forall|i: int|
            0 <= i < front.len() && (#[trigger] front[i]).matcher.matches(e) implies e.tags.contains(
            front[i].tag,
        ) by {
            assert(front[i] == rules[i]);
        }
        lemma_apply_rules_settled(front, e);
        assert(rules[rules.len() - 1] == rules.last());
    }
}

/// Giving a sample the tag of one rule twice is the same as giving it once.
pub proof fn lemma_apply_rule_idempotent(rule: TagModel, e: EventModel)
    ensures
        apply_rule(rule, apply_rule(rule, e)) == apply_rule(rule, e),
{
    let once = apply_rule(rule, e);
    if rule.matcher.matches(e) {
        assert(rule.matcher.matches(once));
        if !e.tags.contains(rule.tag) {
            assert(once.tags[e.tags.len() as int] == rule.tag);
        }
        assert(once.tags.contains(rule.tag));
    }
}

/// Giving a sample the tags of the rules twice is the same as giving them
/// once.
pub proof fn lemma_apply_rules_idempotent(rules: Seq<TagModel>, e: EventModel)
    ensures
        apply_rules(rules, apply_rules(rules, e)) == apply_rules(rules, e),
{
    let once = apply_rules(rules, e);
    lemma_apply_rules(rules, e);
    assert forall|i: int|
        0 <= i < rules.len() && (#[trigger] rules[i]).matcher.matches(once) implies once.tags.contains(
        rules[i].tag,
    ) by {
        assert(rules[i].matcher.matches(e));
        assert(some_rule_gives(rules, e, rules[i].tag));
    }
    lemma_apply_rules_settled(rules, once);
}

/// A sample that is kept is marked for anonymizing exactly where a matcher of
/// `anonymize` passes it. Its record then holds null in place of the path of
/// the program. Marked or not, it keeps its title, and its record lists its
/// tags as they are.
pub proof fn lemma_anonymized_record(config: ConfigModel, e: EventModel)
    requires
        classified(config, e) is Some,
    ensures
        classified(config, e).unwrap().anonymize == any_matches(config.anonymize, e),
        classified(config, e).unwrap().window_title == e.window_title,
        classified(config, e).unwrap().anonymize ==> classified(config, e).unwrap().to_json().get(
            "process_path"@,
        ) == Some(JsonModel::Null),
        !classified(config, e).unwrap().anonymize ==> classified(config, e).unwrap().to_json().get(
            "process_path"@,
        ) == Some(JsonModel::String(e.process_path)),
        classified(config, e).unwrap().to_json().get("tags"@) == Some(
            tags_array(classified(config, e).unwrap().tags),
        ),
{
    let marked = EventModel { anonymize: any_matches(config.anonymize, e), ..e };
    let kept = classified(config, e).unwrap();
    lemma_apply_rules(config.tags, marked);
    kept.lemma_record_members();
}

/// Whether one of the matchers passes the sample.
pub fn any_match(matchers: &Vec<WindowEventMatcher>, e: &ActiveWindowEvent) -> (b: bool)
    ensures
        b == any_matches(matcher_models(matchers@), e@),
{
    let mut i: usize = 0;
    while i < matchers.len()
        invariant
            i <= matchers.len(),
            forall|j: int| 0 <= j < i ==> !(#[trigger] matcher_models(matchers@)[j]).matches(e@),
        decreases matchers.len() - i,
    {
        if matchers[i].matches(e) {
            assert(matcher_models(matchers@)[i as int].matches(e@));
            return true;
        }
        i += 1;
    }
    false
}

/// Gives the sample the tag of every rule whose matcher passes it, in the
/// order of the rules; a tag that the sample has already is not given again.
pub fn apply_tags(tags: &Vec<ConfigTag>, e: ActiveWindowEvent) -> (r: ActiveWindowEvent)
    ensures
        r@ == apply_rules(tag_models(tags@), e@),
        e.wf() ==> r.wf(),
{
    let mut e = e;
    let ghost start = e@;
    let ghost rules = tag_models(tags@);
    let mut i: usize = 0;
    proof {
        assert(rules.take(0) =~= Seq::empty());
    }
    while i < tags.len()
        invariant
            i <= tags.len(),
            rules == tag_models(tags@),
            e@ == apply_rules(rules.take(i as int), start),
        decreases tags.len() - i,
    {
        proof {
            assert(rules.take(i + 1).drop_last() =~= rules.take(i as int));
            assert(rules.take(i + 1).last() == tags[i as int]@);
        }
        let ghost before = e@;
        if tags[i].matcher.matches(&e) && !e.has_tag(&tags[i].tag) {
            e.tags.push(tags[i].tag.clone());
            proof {
                assert(texts(e.tags@) =~= before.tags.push(tags[i as int].tag@));
            }
        }
        i += 1;
    }
    proof {
        assert(rules.take(i as int) =~= rules);
        lemma_apply_rules(rules, start);
    }
    e
}

/// Decides what becomes of a sample: it is dropped where a matcher of
/// `ignore` passes it; else it is marked for anonymizing exactly where a
/// matcher of `anonymize` passes it, and given its tags.
pub fn classify(config: &Config, e: ActiveWindowEvent) -> (r: Option<ActiveWindowEvent>)
    ensures
        optional_event(r) == classified(config@, e@),
        e.wf() ==> (r matches Some(kept) ==> kept.wf()),
{
    if any_match(&config.ignore, &e) {
        return None;
    }
    let mut e = e;
    e.anonymize = any_match(&config.anonymize, &e);
    Some(apply_tags(&config.tags, e))
}

} // verus!
