//! From the use cases' routes to those of the sources.

use vstd::prelude::*;
use vstd::string::StringExecFns;
use crate::contexts::routes::domain;
use crate::repositories::common::{pair_views, FilterList};
use crate::repositories::routes::repository::{Route, Rules};
use crate::typeutil::repositories::Date;

verus! {

/// The route as a source holds it: the same identifier and the same fields,
/// side by side.
pub fn route(r: domain::Route) -> (out: Route)
    ensures
        out.id == r.id,
        out.place_id == r.data.place_id,
        out.name == r.data.name,
        out.description == r.data.description,
        out.grade == r.data.grade,
        out.color == r.data.color,
        out.sector == r.data.sector,
        out.rules.sitstart == r.data.rules.sitstart,
        out.rules.modules_allowed == r.data.rules.modules_allowed,
        out.rules.edges_allowed == r.data.rules.edges_allowed,
        out.opening_date == Date(r.data.opening_date),
        out.closing_date == match r.data.closing_date {
            Some(d) => Some(Date(d)),
            None => None,
        },
        out.tags == r.data.tags,
        out.properties == r.data.properties,
{
    Route {
        id: r.id,
        place_id: r.data.place_id,
        name: r.data.name,
        description: r.data.description,
        grade: r.data.grade,
        color: r.data.color,
        sector: r.data.sector,
        rules: rules(r.data.rules),
        opening_date: date(r.data.opening_date),
        closing_date: match r.data.closing_date {
            Some(d) => Some(date(d)),
            None => None,
        },
        tags: r.data.tags,
        properties: r.data.properties,
    }
}

/// The date, wrapped for the sources.
pub fn date(d: domain::Date) -> (out: Date)
    ensures
        out == Date(d),
{
    Date(d)
}

/// The rules, as they are.
pub fn rules(r: domain::Rules) -> (out: Rules)
    ensures
        out.sitstart == r.sitstart,
        out.modules_allowed == r.modules_allowed,
        out.edges_allowed == r.edges_allowed,
{
    Rules {
        sitstart: r.sitstart,
        modules_allowed: r.modules_allowed,
        edges_allowed: r.edges_allowed,
    }
}

/// The filter `name` with the value `value`, where there is one.
pub open spec fn named(name: Seq<char>, value: Option<String>) -> Seq<(Seq<char>, Seq<char>)> {
    match value {
        Some(v) => seq![(name, v@)],
        None => Seq::empty(),
    }
}

/// One filter named `tags` for each tag, in their order.
pub open spec fn tag_pairs(tags: Seq<String>) -> Seq<(Seq<char>, Seq<char>)> {
    Seq::new(tags.len(), |i: int| ("tags"@, tags[i]@))
}

/// One filter for each property, in their order, named `properties.` and
/// the property's name.
pub open spec fn property_pairs(properties: Seq<(String, String)>) -> Seq<
    (Seq<char>, Seq<char>),
> {
    Seq::new(properties.len(), |i: int| ("properties."@ + properties[i].0@, properties[i].1@))
}

/// The names and values that the filters stand for: the lowest grade, the
/// highest grade, the tags, then the properties.
pub open spec fn filter_pairs(f: domain::get::Filters) -> Seq<(Seq<char>, Seq<char>)> {
    named("min_grade"@, f.min_grade) + named("max_grade"@, f.max_grade) + tag_pairs(f.tags@)
        + property_pairs(f.properties@)
}

/// The filters as a list of names and values.
pub fn get_filters(f: domain::get::Filters) -> (filters: FilterList)
    ensures
        pair_views(filters@) == filter_pairs(f),
{
    let mut filters: FilterList = Vec::new();
    if let Some(min_grade) = f.min_grade {
        filters.push(("min_grade".to_owned(), min_grade));
    }
    if let Some(max_grade) = f.max_grade {
        filters.push(("max_grade".to_owned(), max_grade));
    }
    let ghost grades = named("min_grade"@, f.min_grade) + named("max_grade"@, f.max_grade);
    assert(pair_views(filters@) =~= grades);
    let ghost all_tags = f.tags@;
    for tag in it: f.tags
        invariant
            it.seq() == all_tags,
            pair_views(filters@) == grades + tag_pairs(all_tags.take(it.index() as int)),
    {
        let ghost before = pair_views(filters@);
        filters.push(("tags".to_owned(), tag));
        assert(pair_views(filters@) =~= before.push(("tags"@, tag@)));
        assert(grades + tag_pairs(all_tags.take(it.index() + 1)) =~= before.push(
            ("tags"@, tag@),
        ));
    }
    assert(all_tags.take(all_tags.len() as int) == all_tags);
    let ghost head = grades + tag_pairs(all_tags);
    let ghost all_properties = f.properties@;
    for property in it: f.properties
        invariant
            it.seq() == all_properties,
            pair_views(filters@) == head + property_pairs(
                all_properties.take(it.index() as int),
            ),
    {
        let ghost before = pair_views(filters@);
        let mut name = "properties.".to_owned();
        name.append(property.0.as_str());
        filters.push((name, property.1));
        assert(pair_views(filters@) =~= before.push(
            ("properties."@ + property.0@, property.1@),
        ));
        assert(head + property_pairs(all_properties.take(it.index() + 1)) =~= before.push(
            ("properties."@ + property.0@, property.1@),
        ));
    }
    assert(all_properties.take(all_properties.len() as int) == all_properties);
    filters
}

} // verus!
