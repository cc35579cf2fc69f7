//! The two directions of the filters of routes undo each other.

use vstd::prelude::*;
use crate::contexts::routes::domain::get::Filters;
use crate::repositories::common::{distinct_names, last_value, pair_views};
use crate::repositories::routes::repository::domain_to_repository::{
    filter_pairs, named, property_pairs, tag_pairs,
};
use crate::repositories::routes::repository::repository_to_domain::{
    is_known_filter, lemma_property_index, property_index, property_values, reads_as,
    string_views, tag_values, with_property,
};
use crate::repositories::text::has_prefix;

verus! {

/// The text of a value that may be missing.
pub open spec fn option_text(value: Option<String>) -> Option<Seq<char>> {
    match value {
        Some(v) => Some(v@),
        None => None,
    }
}

/// The value of the last of `pairs` whose name is `name`, if there is one.
pub open spec fn last_text(pairs: Seq<(Seq<char>, Seq<char>)>, name: Seq<char>) -> Option<
    Seq<char>,
>
    decreases pairs.len(),
{
    if pairs.len() == 0 {
        None
    } else if pairs.last().0 == name {
        Some(pairs.last().1)
    } else {
        last_text(pairs.drop_last(), name)
    }
}

/// `name` is the name of a filter that sets a property.
pub open spec fn is_property_name(name: Seq<char>) -> bool {
    name != "min_grade"@ && name != "max_grade"@ && name != "tags"@ && has_prefix(
        name,
        "properties."@,
    )
}

/// What the four names of filters are made of.
proof fn lemma_names()
    ensures
        "min_grade"@.len() == 9 && "min_grade"@[0] == 'm' && "min_grade"@[1] == 'i',
        "max_grade"@.len() == 9 && "max_grade"@[0] == 'm' && "max_grade"@[1] == 'a',
        "tags"@.len() == 4 && "tags"@[0] == 't',
        "properties."@.len() == 11 && "properties."@[0] == 'p',
{
    reveal_strlit("min_grade");
    reveal_strlit("max_grade");
    reveal_strlit("tags");
    reveal_strlit("properties.");
}

/// A name made of `properties.` and a property's name is the name of a
/// filter that sets a property, and what stands behind the prefix is the
/// property's name.
proof fn lemma_property_name(key: Seq<char>)
    ensures
        is_property_name("properties."@ + key),
        ("properties."@ + key).skip("properties."@.len() as int) == key,
{
    lemma_names();
    let name = "properties."@ + key;
    assert(name[0] == 'p');
    assert(name.take(11) =~= "properties."@);
    assert(name.skip(11) =~= key);
}

/// The three fixed names set no property and differ from each other.
proof fn lemma_fixed_names()
    ensures
        !is_property_name("min_grade"@),
        !is_property_name("max_grade"@),
        !is_property_name("tags"@),
        "min_grade"@ != "max_grade"@,
        "min_grade"@ != "tags"@,
        "max_grade"@ != "tags"@,
{
    lemma_names();
}

/// The text of the last value of a name is the last value among the texts.
pub proof fn lemma_last_value_text(list: Seq<(String, String)>, name: Seq<char>)
    ensures
        option_text(last_value(list, name)) == last_text(pair_views(list), name),
    decreases list.len(),
{
    if list.len() > 0 {
        assert(pair_views(list).drop_last() == pair_views(list.drop_last()));
        lemma_last_value_text(list.drop_last(), name);
    }
}

/// Pairs of other names behind a list change nothing in the last value of
/// a name.
proof fn lemma_last_text_skip(
    a: Seq<(Seq<char>, Seq<char>)>,
    b: Seq<(Seq<char>, Seq<char>)>,
    name: Seq<char>,
)
    requires
        forall|i: int| 0 <= i < b.len() ==> (#[trigger] b[i]).0 != name,
    ensures
        last_text(a + b, name) == last_text(a, name),
    decreases b.len(),
{
    if b.len() == 0 {
        assert(a + b == a);
    } else {
        assert((a + b).drop_last() == a + b.drop_last());
        assert((a + b).last() == b.last());
        assert(b[b.len() - 1].0 != name);
        assert forall|i: int| 0 <= i < b.drop_last().len() implies (#[trigger] b.drop_last()[i]).0
            != name by {
            assert(b.drop_last()[i] == b[i]);
        }
        lemma_last_text_skip(a, b.drop_last(), name);
    }
}

/// The tags of two lists one after the other are the tags of each, joined.
proof fn lemma_tag_values_concat(a: Seq<(Seq<char>, Seq<char>)>, b: Seq<(Seq<char>, Seq<char>)>)
    ensures
        tag_values(a + b) == tag_values(a) + tag_values(b),
    decreases b.len(),
{
    if b.len() == 0 {
        assert(a + b == a);
    } else {
        assert((a + b).drop_last() == a + b.drop_last());
        assert((a + b).last() == b.last());
        lemma_tag_values_concat(a, b.drop_last());
    }
}

/// A list without a filter named `tags` holds no tag.
proof fn lemma_tag_values_none(a: Seq<(Seq<char>, Seq<char>)>)
    requires
        forall|i: int| 0 <= i < a.len() ==> (#[trigger] a[i]).0 != "tags"@,
    ensures
        tag_values(a) == Seq::<Seq<char>>::empty(),
    decreases a.len(),
{
    if a.len() > 0 {
        assert(a[a.len() - 1].0 != "tags"@);
        assert forall|i: int| 0 <= i < a.drop_last().len() implies (#[trigger] a.drop_last()[i]).0
            != "tags"@ by {
            assert(a.drop_last()[i] == a[i]);
        }
        lemma_tag_values_none(a.drop_last());
    }
}

/// A list without a filter that sets a property sets none.
proof fn lemma_property_values_none(a: Seq<(Seq<char>, Seq<char>)>)
    requires
        forall|i: int| 0 <= i < a.len() ==> !is_property_name((#[trigger] a[i]).0),
    ensures
        property_values(a) == Seq::<(Seq<char>, Seq<char>)>::empty(),
    decreases a.len(),
{
    if a.len() > 0 {
        assert(!is_property_name(a[a.len() - 1].0));
        assert forall|i: int| 0 <= i < a.drop_last().len() implies !is_property_name(
            (#[trigger] a.drop_last()[i]).0,
        ) by {
            assert(a.drop_last()[i] == a[i]);
        }
        lemma_property_values_none(a.drop_last());
    }
}

/// Filters that set no property, before a list, change nothing in the
/// properties that the list sets.
proof fn lemma_property_values_skip(
    a: Seq<(Seq<char>, Seq<char>)>,
    b: Seq<(Seq<char>, Seq<char>)>,
)
    requires
        forall|i: int| 0 <= i < a.len() ==> !is_property_name((#[trigger] a[i]).0),
    ensures
        property_values(a + b) == property_values(b),
    decreases b.len(),
{
    if b.len() == 0 {
        assert(a + b == a);
        lemma_property_values_none(a);
    } else {
        assert((a + b).drop_last() == a + b.drop_last());
        assert((a + b).last() == b.last());
        lemma_property_values_skip(a, b.drop_last());
    }
}

/// The tags that the filters of a list of tags hold are the tags.
proof fn lemma_tag_values_of_tags(tags: Seq<String>)
    ensures
        tag_values(tag_pairs(tags)) == string_views(tags),
    decreases tags.len(),
{
    if tags.len() == 0 {
        assert(tag_values(tag_pairs(tags)) =~= string_views(tags));
    } else {
        let head = tags.drop_last();
        lemma_tag_values_of_tags(head);
        assert(tag_pairs(tags).drop_last() =~= tag_pairs(head));
        assert(tag_pairs(tags).last() == ("tags"@, tags.last()@));
        assert(string_views(head).push(tags.last()@) =~= string_views(tags));
    }
}

/// The properties that the filters of a list of properties set are the
/// properties, where no name stands twice among them.
proof fn lemma_property_values_of_pairs(properties: Seq<(String, String)>)
    requires
        distinct_names(pair_views(properties)),
    ensures
        property_values(property_pairs(properties)) == pair_views(properties),
    decreases properties.len(),
{
    if properties.len() == 0 {
        assert(property_values(property_pairs(properties)) =~= pair_views(properties));
    } else {
        let head = properties.drop_last();
        let views = pair_views(properties);
        let n = properties.len() as int;
        assert(pair_views(head) =~= views.drop_last());
        assert forall|i: int, j: int| 0 <= i < j < pair_views(head).len() implies (
        #[trigger] pair_views(head)[i]).0 != (#[trigger] pair_views(head)[j]).0 by {
            assert(views[i].0 != views[j].0);
        }
        lemma_property_values_of_pairs(head);
        let key = properties.last().0@;
        let value = properties.last().1@;
        assert(property_pairs(properties).drop_last() =~= property_pairs(head));
        assert(property_pairs(properties).last() == ("properties."@ + key, value));
        lemma_property_name(key);
        lemma_property_index(pair_views(head), key);
        let at = property_index(pair_views(head), key);
        if at < pair_views(head).len() {
            assert(views[at].0 == pair_views(head)[at].0);
            assert(views[n - 1].0 == key);
            assert(views[at].0 != views[n - 1].0);
        }
        assert(with_property(pair_views(head), key, value) == pair_views(head).push(
            (key, value),
        ));
        assert(pair_views(head).push((key, value)) =~= views);
    }
}

/// The two directions of the filters undo each other: filters of which no
/// property name stands twice, written as a list of names and values and
/// read back from a list of those names and values, are the same filters,
/// text for text. Every name of the list is one that the reading knows.
pub proof fn lemma_filters_round_trip(f: Filters, list: Seq<(String, String)>, back: Filters)
    requires
        f.wf(),
        pair_views(list) == filter_pairs(f),
        reads_as(list, back),
    ensures
        forall|i: int| 0 <= i < list.len() ==> is_known_filter(#[trigger] list[i].0@),
        option_text(back.min_grade) == option_text(f.min_grade),
        option_text(back.max_grade) == option_text(f.max_grade),
        string_views(back.tags@) == string_views(f.tags@),
        pair_views(back.properties@) == pair_views(f.properties@),
        back.wf(),
{
    lemma_names();
    lemma_fixed_names();
    let low = named("min_grade"@, f.min_grade);
    let high = named("max_grade"@, f.max_grade);
    let tags = tag_pairs(f.tags@);
    let props = property_pairs(f.properties@);
    let all = pair_views(list);
    assert(all == low + high + tags + props);
    assert forall|i: int| 0 <= i < props.len() implies is_property_name(
        (#[trigger] props[i]).0,
    ) by {
        lemma_property_name(f.properties@[i].0@);
    }
    assert forall|i: int| 0 <= i < all.len() implies is_known_filter(#[trigger] all[i].0) by {
        if i >= (low + high + tags).len() {
            assert(all[i] == props[i - (low + high + tags).len()]);
            assert(is_property_name(props[i - (low + high + tags).len()].0));
        }
    }
    assert forall|i: int| 0 <= i < list.len() implies is_known_filter(#[trigger] list[i].0@) by {
        assert(all[i].0 == list[i].0@);
        assert(is_known_filter(all[i].0));
    }
    // the tags
    lemma_tag_values_concat(low + high + tags, props);
    lemma_tag_values_concat(low + high, tags);
    lemma_tag_values_none(low + high);
    assert forall|i: int| 0 <= i < props.len() implies (#[trigger] props[i]).0 != "tags"@ by {
        assert(is_property_name(props[i].0));
    }
    lemma_tag_values_none(props);
    lemma_tag_values_of_tags(f.tags@);
    assert(tag_values(all) =~= string_views(f.tags@));
    // the properties
    assert forall|i: int| 0 <= i < (low + high + tags).len() implies !is_property_name(
        (#[trigger] (low + high + tags)[i]).0,
    ) by {}
    lemma_property_values_skip(low + high + tags, props);
    lemma_property_values_of_pairs(f.properties@);
    // the grades
    lemma_last_value_text(list, "min_grade"@);
    lemma_last_value_text(list, "max_grade"@);
    assert(all == (low + high) + (tags + props));
    assert forall|i: int| 0 <= i < (tags + props).len() implies (#[trigger] (tags + props)[i]).0
        != "min_grade"@ && (tags + props)[i].0 != "max_grade"@ by {
        if i >= tags.len() {
            assert((tags + props)[i] == props[i - tags.len()]);
            assert(is_property_name(props[i - tags.len()].0));
        }
    }
    lemma_last_text_skip(low + high, tags + props, "min_grade"@);
    lemma_last_text_skip(low + high, tags + props, "max_grade"@);
    lemma_last_text_skip(low, high, "min_grade"@);
    assert(last_text(low, "min_grade"@) == option_text(f.min_grade)) by {
        if f.min_grade is Some {
            assert(low.drop_last() =~= Seq::<(Seq<char>, Seq<char>)>::empty());
        }
    }
    assert(last_text(low + high, "max_grade"@) == option_text(f.max_grade)) by {
        if f.max_grade is Some {
            assert((low + high).last() == high[0]);
        } else {
            assert(low + high == low);
            if f.min_grade is Some {
                assert(low.drop_last() =~= Seq::<(Seq<char>, Seq<char>)>::empty());
            }
        }
    }
}

} // verus!
