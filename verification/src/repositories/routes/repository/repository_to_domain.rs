//! From the sources' routes to those of the use cases.

use vstd::prelude::*;
use crate::contexts::routes::domain;
use crate::repositories::common::{distinct_names, last_value, pair_views, FilterList};
use crate::repositories::routes::repository::{Route, Rules};
use crate::repositories::text::{has_prefix, same_text, strip_prefix};
use crate::typeutil::repositories::Date;

verus! {

/// `out` is the route `r` as the use cases see it: the same identifier and
/// the same fields, the fields apart.
pub open spec fn same_route(r: Route, out: domain::Route) -> bool {
    &&& out.id == r.id
    &&& out.data.place_id == r.place_id
    &&& out.data.name == r.name
    &&& out.data.description == r.description
    &&& out.data.grade == r.grade
    &&& out.data.color == r.color
    &&& out.data.sector == r.sector
    &&& out.data.rules.sitstart == r.rules.sitstart
    &&& out.data.rules.modules_allowed == r.rules.modules_allowed
    &&& out.data.rules.edges_allowed == r.rules.edges_allowed
    &&& out.data.opening_date == r.opening_date.0
    &&& out.data.closing_date == match r.closing_date {
        Some(d) => Some(d.0),
        None => None,
    }
    &&& out.data.tags == r.tags
    &&& out.data.properties == r.properties
}

/// The route as the use cases see it.
pub fn route(r: Route) -> (out: domain::Route)
    ensures
        same_route(r, out),
{
    domain::Route {
        id: r.id,
        data: domain::RouteData {
            place_id: r.place_id,
            name: r.name,
            description: r.description,
            grade: r.grade,
            color: r.color,
            sector: r.sector,
            rules: rules(r.rules),
            opening_date: date(r.opening_date),
            closing_date: match r.closing_date {
                Some(d) => Some(date(d)),
                None => None,
            },
            tags: r.tags,
            properties: r.properties,
        },
    }
}

/// The date that the wrapper holds.
pub fn date(d: Date) -> (out: domain::Date)
    ensures
        out == d.0,
{
    d.0
}

/// The rules, as they are.
pub fn rules(r: Rules) -> (out: domain::Rules)
    ensures
        out.sitstart == r.sitstart,
        out.modules_allowed == r.modules_allowed,
        out.edges_allowed == r.edges_allowed,
{
    domain::Rules {
        sitstart: r.sitstart,
        modules_allowed: r.modules_allowed,
        edges_allowed: r.edges_allowed,
    }
}

/// `name` is the name of a filter of routes: `min_grade`, `max_grade`,
/// `tags`, or `properties.` and a property's name.
pub open spec fn is_known_filter(name: Seq<char>) -> bool {
    name == "min_grade"@ || name == "max_grade"@ || name == "tags"@ || has_prefix(
        name,
        "properties."@,
    )
}

/// The values of the filters named `tags`, in their order.
pub open spec fn tag_values(list: Seq<(Seq<char>, Seq<char>)>) -> Seq<Seq<char>>
    decreases list.len(),
{
    if list.len() == 0 {
        Seq::empty()
    } else if list.last().0 == "tags"@ {
        tag_values(list.drop_last()).push(list.last().1)
    } else {
        tag_values(list.drop_last())
    }
}

/// The index of the first of `properties` named `name`, or their number
/// where none is.
pub open spec fn property_index(properties: Seq<(Seq<char>, Seq<char>)>, name: Seq<char>) -> int
    decreases properties.len(),
{
    if properties.len() == 0 {
        0
    } else if properties[0].0 == name {
        0
    } else {
        1 + property_index(properties.drop_first(), name)
    }
}

/// `properties` with `name` set to `value`: in the place of the property of
/// that name where there is one, else at the end.
pub open spec fn with_property(
    properties: Seq<(Seq<char>, Seq<char>)>,
    name: Seq<char>,
    value: Seq<char>,
) -> Seq<(Seq<char>, Seq<char>)> {
    let i = property_index(properties, name);
    if i < properties.len() {
        properties.update(i, (name, value))
    } else {
        properties.push((name, value))
    }
}

/// The properties that the filters named `properties.` and a name set, one
/// after the other: a later filter of the same name replaces the value.
pub open spec fn property_values(list: Seq<(Seq<char>, Seq<char>)>) -> Seq<
    (Seq<char>, Seq<char>),
>
    decreases list.len(),
{
    if list.len() == 0 {
        Seq::empty()
    } else {
        let name = list.last().0;
        if name != "min_grade"@ && name != "max_grade"@ && name != "tags"@ && has_prefix(
            name,
            "properties."@,
        ) {
            with_property(
                property_values(list.drop_last()),
                name.skip("properties."@.len() as int),
                list.last().1,
            )
        } else {
            property_values(list.drop_last())
        }
    }
}

/// `property_index` is the least index that holds the name.
pub proof fn lemma_property_index(properties: Seq<(Seq<char>, Seq<char>)>, name: Seq<char>)
    ensures
        0 <= property_index(properties, name) <= properties.len(),
        property_index(properties, name) < properties.len() ==> properties[property_index(
            properties,
            name,
        )].0 == name,
        forall|i: int| 0 <= i < property_index(properties, name) ==> properties[i].0 != name,
    decreases properties.len(),
{
    if properties.len() > 0 && properties[0].0 != name {
        let rest = properties.drop_first();
        lemma_property_index(rest, name);
        assert forall|i: int| 0 <= i < property_index(properties, name) implies properties[i].0
            != name by {
            if i > 0 {
                assert(properties[i] == rest[i - 1]);
            }
        }
        if property_index(properties, name) < properties.len() {
            assert(properties[property_index(properties, name)] == rest[property_index(
                rest,
                name,
            )]);
        }
    }
}

/// Setting a property keeps the names apart: where no name stood twice
/// before, none does after.
pub proof fn lemma_with_property_distinct(
    properties: Seq<(Seq<char>, Seq<char>)>,
    name: Seq<char>,
    value: Seq<char>,
)
    requires
        distinct_names(properties),
    ensures
        distinct_names(with_property(properties, name, value)),
{
    lemma_property_index(properties, name);
    let k = property_index(properties, name);
    let after = with_property(properties, name, value);
    assert forall|i: int, j: int| 0 <= i < j < after.len() implies (#[trigger] after[i]).0 != (
    #[trigger] after[j]).0 by {
        if k < properties.len() {
            assert(after[i].0 == properties[i].0);
            assert(after[j].0 == properties[j].0);
        } else {
            assert(after[i] == properties[i]);
            if j < properties.len() {
                assert(after[j] == properties[j]);
            }
        }
    }
}

/// The properties that filters set never hold a name twice.
pub proof fn lemma_property_values_distinct(list: Seq<(Seq<char>, Seq<char>)>)
    ensures
        distinct_names(property_values(list)),
    decreases list.len(),
{
    if list.len() > 0 {
        lemma_property_values_distinct(list.drop_last());
        let name = list.last().0;
        if name != "min_grade"@ && name != "max_grade"@ && name != "tags"@ && has_prefix(
            name,
            "properties."@,
        ) {
            lemma_with_property_distinct(
                property_values(list.drop_last()),
                name.skip("properties."@.len() as int),
                list.last().1,
            );
        }
    }
}

/// Sets the property `name` to `value`: in the place of the property of
/// that name where there is one, else at the end.
pub fn set_property(properties: &mut Vec<(String, String)>, name: String, value: String)
    ensures
        pair_views(final(properties)@) == with_property(
            pair_views(old(properties)@),
            name@,
            value@,
        ),
{
    let ghost before = pair_views(properties@);
    let n = properties.len();
    let mut i: usize = 0;
    while i < n && !same_text(properties[i].0.as_str(), name.as_str())
        invariant
            i <= n,
            n == properties@.len(),
            before == pair_views(properties@),
            forall|k: int| 0 <= k < i ==> before[k].0 != name@,
        decreases n - i,
    {
        i = i + 1;
    }
    proof {
        lemma_property_index(before, name@);
        let d = property_index(before, name@);
        if d < i {
            assert(before[d].0 != name@);
        } else if i < d {
            assert(before[i as int].0 == name@);
        }
        assert(d == i);
    }
    if i < n {
        properties[i] = (name, value);
        assert(pair_views(properties@) =~= before.update(i as int, (name@, value@)));
    } else {
        properties.push((name, value));
        assert(pair_views(properties@) =~= before.push((name@, value@)));
    }
}

/// `back` is what the list `list` of names and values stands for: the
/// values named `min_grade` and `max_grade`, the last of each; the values
/// named `tags`, in their order; and the properties, a later value
/// replacing an earlier one of the same name.
pub open spec fn reads_as(list: Seq<(String, String)>, back: domain::get::Filters) -> bool {
    &&& back.min_grade == last_value(list, "min_grade"@)
    &&& back.max_grade == last_value(list, "max_grade"@)
    &&& string_views(back.tags@) == tag_values(pair_views(list))
    &&& pair_views(back.properties@) == property_values(pair_views(list))
}

/// The views of a list of strings.
pub open spec fn string_views(list: Seq<String>) -> Seq<Seq<char>> {
    Seq::new(list.len(), |i: int| list[i]@)
}

/// The filters that a list of names and values stands for: the values
/// named `min_grade` and `max_grade`, the last of each; the values named
/// `tags`, in their order; and the properties, a later value replacing an
/// earlier one of the same name.
pub fn get_filters(f: FilterList) -> (filters: domain::get::Filters)
    requires
        forall|i: int| 0 <= i < f@.len() ==> is_known_filter(#[trigger] f@[i].0@),
    ensures
        reads_as(f@, filters),
        filters.wf(),
{
    let mut filters = domain::get::Filters {
        min_grade: None,
        max_grade: None,
        tags: Vec::new(),
        properties: Vec::new(),
    };
    let ghost all = f@;
    assert(string_views(filters.tags@) =~= tag_values(pair_views(all.take(0))));
    assert(pair_views(filters.properties@) =~= property_values(pair_views(all.take(0))));
    for pair in it: f
        invariant
            it.seq() == all,
            forall|i: int| 0 <= i < all.len() ==> is_known_filter(#[trigger] all[i].0@),
            filters.min_grade == last_value(all.take(it.index() as int), "min_grade"@),
            filters.max_grade == last_value(all.take(it.index() as int), "max_grade"@),
            string_views(filters.tags@) == tag_values(pair_views(all.take(it.index() as int))),
            pair_views(filters.properties@) == property_values(
                pair_views(all.take(it.index() as int)),
            ),
    {
        let ghost k = it.index() as int;
        let ghost seen = pair_views(all.take(k));
        let ghost next = pair_views(all.take(k + 1));
        let ghost old_tags = string_views(filters.tags@);
        proof {
            assert(all.take(k + 1).drop_last() == all.take(k));
            assert(all.take(k + 1).last() == pair);
            assert(next.drop_last() =~= seen);
            assert(next.last() == (pair.0@, pair.1@));
            assert(is_known_filter(all[k].0@));
            reveal_strlit("min_grade");
            reveal_strlit("max_grade");
            reveal_strlit("tags");
            reveal_strlit("properties.");
            assert("min_grade"@.len() == 9 && "max_grade"@.len() == 9 && "tags"@.len() == 4);
            assert("min_grade"@[1] != "max_grade"@[1]);
        }
        let (name, value) = pair;
        if same_text(name.as_str(), "min_grade") {
            filters.min_grade = Some(value);
        } else if same_text(name.as_str(), "max_grade") {
            filters.max_grade = Some(value);
        } else if same_text(name.as_str(), "tags") {
            filters.tags.push(value);
            assert(string_views(filters.tags@) =~= old_tags.push(value@));
        } else {
            match strip_prefix(name.as_str(), "properties.") {
                Some(property) => {
                    set_property(&mut filters.properties, property, value);
                },
                None => {
                    assert(false);
                },
            }
        }
    }
    proof {
        assert(all.take(all.len() as int) == all);
        lemma_property_values_distinct(pair_views(all));
    }
    filters
}

} // verus!
