use climbhub::contexts::places::domain as place_domain;
use climbhub::contexts::places::domain_to_router as place_d2r;
use climbhub::contexts::places::router as place_router;
use climbhub::contexts::places::router_to_domain as place_r2d;
use climbhub::contexts::routes::domain as route_domain;
use climbhub::contexts::routes::domain_to_router as route_d2r;
use climbhub::contexts::routes::router as route_router;
use climbhub::contexts::routes::router_to_domain as route_r2d;
use climbhub::contexts::users::domain::User;
use climbhub::contexts::users::domain_to_router::user;
use climbhub::contexts::users::irepository::IRepository;
use climbhub::errors::{GetAllError, GetError};
use climbhub::repositories::common::{
    has_distinct_names, FetchError, Identifiable, Manager, Method,
};
use climbhub::repositories::config::{Config, Source};
use climbhub::repositories::places::repository as place_repo;
use climbhub::repositories::places::{Place, PlacesRepository};
use climbhub::repositories::routes::repository as route_repo;
use climbhub::repositories::users::repository::Repository as UsersRepository;
use climbhub::typeutil::routers::Date as RouterDate;
use climbhub::typeutil::repositories::Date as RepositoryDate;
use climbhub::typeutil::DateTime;

fn s(text: &str) -> String {
    text.to_string()
}

fn registry() -> Config {
    Config {
        sources: vec![
            Source { id: 1, name: s("A"), url: s("http://a") },
            Source { id: 2, name: s("B"), url: s("http://b") },
        ],
    }
}

fn place_data() -> place_domain::PlaceData {
    place_domain::PlaceData {
        name: s("COUM"),
        description: s("Centre Omnisport Universitaire de Moulon"),
        address: s("8 rue 128"),
        postcode: s("91190"),
        city: s("Gif-sur-Yvette"),
        country: s("France"),
    }
}

fn source_place(id: u32) -> place_repo::Place {
    place_repo::Place {
        _id: None,
        id,
        name: s("COUM"),
        description: s("Centre Omnisport Universitaire de Moulon"),
        address: s("8 rue 128"),
        postcode: s("91190"),
        city: s("Gif-sur-Yvette"),
        country: s("France"),
    }
}

fn rules() -> route_domain::Rules {
    route_domain::Rules { sitstart: true, modules_allowed: false, edges_allowed: true }
}

fn at(seconds: i64) -> DateTime {
    DateTime { seconds, nanoseconds: 5 }
}

fn route_data() -> route_domain::RouteData {
    route_domain::RouteData {
        place_id: s("0001-00000001"),
        name: s("La Dalle"),
        description: s("Slab"),
        grade: s("6a"),
        color: s("red"),
        sector: s("north"),
        opening_date: at(10),
        closing_date: Some(at(20)),
        rules: rules(),
        tags: vec![s("slab"), s("kids")],
        properties: vec![(s("height"), s("4"))],
    }
}

fn source_route(id: &str) -> route_repo::Route {
    route_repo::Route {
        id: s(id),
        place_id: s("0001-00000001"),
        name: s("La Dalle"),
        description: s("Slab"),
        grade: s("6a"),
        color: s("red"),
        sector: s("north"),
        opening_date: RepositoryDate(at(10)),
        closing_date: None,
        rules: route_repo::Rules { sitstart: false, modules_allowed: true, edges_allowed: false },
        tags: vec![s("slab")],
        properties: vec![(s("height"), s("4"))],
    }
}

#[test]
fn place_to_router_keeps_every_field() {
    let out = place_d2r::place(place_domain::Place { id: s("0001-00000001"), data: place_data() });
    assert_eq!(out.id, "0001-00000001");
    assert_eq!(out.name, "COUM");
    assert_eq!(out.description, "Centre Omnisport Universitaire de Moulon");
    assert_eq!(out.address, "8 rue 128");
    assert_eq!(out.postcode, "91190");
    assert_eq!(out.city, "Gif-sur-Yvette");
    assert_eq!(out.country, "France");
}

#[test]
fn place_to_domain_keeps_every_field() {
    assert_eq!(place_r2d::place_id(s("0001-00000001")), "0001-00000001");
    let out = place_r2d::place_data(place_router::PlaceData {
        name: s("n"),
        description: s("d"),
        address: s("a"),
        postcode: s("p"),
        city: s("c"),
        country: s("k"),
    });
    assert_eq!(
        (out.name, out.description, out.address, out.postcode, out.city, out.country),
        (s("n"), s("d"), s("a"), s("p"), s("c"), s("k"))
    );
    let f = place_r2d::get::filters(place_router::get::Filters {
        country: Some(s("France")),
        city: None,
    });
    assert_eq!(f.country, Some(s("France")));
    assert_eq!(f.city, None);
}

#[test]
fn route_to_router_keeps_every_field() {
    let out = route_d2r::route(route_domain::Route { id: s("0001-0000000A"), data: route_data() });
    assert_eq!(out.id, "0001-0000000A");
    assert_eq!(out.place_id, "0001-00000001");
    assert_eq!(out.name, "La Dalle");
    assert_eq!(out.description, "Slab");
    assert_eq!(out.grade, "6a");
    assert_eq!(out.color, "red");
    assert_eq!(out.sector, "north");
    assert_eq!(out.opening_date, RouterDate(at(10)));
    assert_eq!(out.closing_date, Some(RouterDate(at(20))));
    assert!(out.rules.sitstart && !out.rules.modules_allowed && out.rules.edges_allowed);
    assert_eq!(out.tags, vec![s("slab"), s("kids")]);
    assert_eq!(out.properties, vec![(s("height"), s("4"))]);
    assert_eq!(route_d2r::date(at(3)), RouterDate(at(3)));
    assert_eq!(route_d2r::route_id(s("x")), "x");
    let r = route_d2r::rules(route_domain::Rules {
        sitstart: false,
        modules_allowed: true,
        edges_allowed: false,
    });
    assert!(!r.sitstart && r.modules_allowed && !r.edges_allowed);
}

#[test]
fn route_to_domain_keeps_every_field() {
    let out = route_r2d::route_data(route_router::RouteData {
        place_id: s("0001-00000001"),
        name: s("n"),
        description: s("d"),
        grade: s("g"),
        color: s("c"),
        sector: s("s"),
        opening_date: RouterDate(at(1)),
        closing_date: None,
        rules: route_router::Rules { sitstart: true, modules_allowed: true, edges_allowed: false },
        tags: vec![s("t")],
        properties: vec![(s("k"), s("v"))],
    });
    assert_eq!(out.place_id, "0001-00000001");
    assert_eq!((out.name, out.description, out.grade), (s("n"), s("d"), s("g")));
    assert_eq!((out.color, out.sector), (s("c"), s("s")));
    assert_eq!(out.opening_date, at(1));
    assert_eq!(out.closing_date, None);
    assert!(out.rules.sitstart && out.rules.modules_allowed && !out.rules.edges_allowed);
    assert_eq!(out.tags, vec![s("t")]);
    assert_eq!(out.properties, vec![(s("k"), s("v"))]);
    assert_eq!(route_r2d::route_id(s("y")), "y");
    assert_eq!(route_r2d::date(RouterDate(at(8))), at(8));
    let f = route_r2d::get::filters(route_router::get::Filters {
        min_grade: Some(s("5a")),
        max_grade: None,
        tags: vec![s("slab")],
        properties: vec![(s("k"), s("v"))],
    });
    assert_eq!(f.min_grade, Some(s("5a")));
    assert_eq!(f.max_grade, None);
    assert_eq!(f.tags, vec![s("slab")]);
    assert_eq!(f.properties, vec![(s("k"), s("v"))]);
}

#[test]
fn user_to_router_keeps_every_field() {
    let out = user(User {
        first_name: s("Ada"),
        last_name: s("L"),
        username: s("ada"),
        email: s("ada@example.com"),
    });
    assert_eq!(
        (out.first_name, out.last_name, out.username, out.email),
        (s("Ada"), s("L"), s("ada"), s("ada@example.com"))
    );
}

#[test]
fn users_repository_knows_one_empty_user() {
    let users = UsersRepository.get_users();
    assert_eq!(users.len(), 1);
    assert_eq!(users[0].first_name, "");
    assert_eq!(users[0].last_name, "");
    assert_eq!(users[0].username, "");
    assert_eq!(users[0].email, "");
}

#[test]
fn source_place_shows_its_number_as_identifier() {
    let mut p = source_place(12);
    assert_eq!(p.id(), "12");
    assert_eq!(p._id, Some(s("12")));
    *p.id() = s("0001-0000000C");
    assert_eq!(p.id(), "0001-0000000C");
    assert_eq!(p.id, 12);
    let mut p = source_place(0);
    p._id = Some(s("kept"));
    assert_eq!(p.id(), "kept");
}

#[test]
fn source_place_to_domain_and_back() {
    let out = place_repo::repository_to_domain::place(source_place(7));
    assert_eq!(out.id, "7");
    assert_eq!(out.data.name, "COUM");
    assert_eq!(out.data.country, "France");
    let back = place_repo::domain_to_repository::place(out);
    assert_eq!(back.id, 7);
    assert_eq!(back._id, Some(s("7")));
    assert_eq!(back.name, "COUM");
    assert_eq!(back.description, "Centre Omnisport Universitaire de Moulon");
    assert_eq!(back.address, "8 rue 128");
    assert_eq!(back.postcode, "91190");
    assert_eq!(back.city, "Gif-sur-Yvette");
    assert_eq!(back.country, "France");
}

#[test]
fn place_filters_from_a_list_take_the_last_of_each_name() {
    let f = place_repo::repository_to_domain::filters(vec![
        (s("country"), s("France")),
        (s("other"), s("x")),
        (s("city"), s("Paris")),
        (s("country"), s("Italy")),
    ]);
    assert_eq!(f.country, Some(s("Italy")));
    assert_eq!(f.city, Some(s("Paris")));
    let f = place_repo::repository_to_domain::filters(vec![]);
    assert_eq!(f.country, None);
    assert_eq!(f.city, None);
}

#[test]
fn place_filters_to_a_list_name_what_is_set() {
    let list = place_repo::domain_to_repository::filters(place_domain::get::Filters {
        country: Some(s("France")),
        city: Some(s("Paris")),
    });
    assert_eq!(list, vec![(s("country"), s("France")), (s("city"), s("Paris"))]);
    let list = place_repo::domain_to_repository::filters(place_domain::get::Filters {
        country: None,
        city: Some(s("Paris")),
    });
    assert_eq!(list, vec![(s("city"), s("Paris"))]);
    let list = place_repo::domain_to_repository::filters(place_domain::get::Filters {
        country: None,
        city: None,
    });
    assert!(list.is_empty());
}

#[test]
fn route_to_repository_and_back() {
    let r = route_repo::domain_to_repository::route(route_domain::Route {
        id: s("0001-0000000A"),
        data: route_data(),
    });
    assert_eq!(r.id, "0001-0000000A");
    assert_eq!(r.place_id, "0001-00000001");
    assert_eq!(r.opening_date, RepositoryDate(at(10)));
    assert_eq!(r.closing_date, Some(RepositoryDate(at(20))));
    assert!(r.rules.sitstart && !r.rules.modules_allowed && r.rules.edges_allowed);
    let back = route_repo::repository_to_domain::route(r);
    assert_eq!(back.id, "0001-0000000A");
    assert_eq!(back.data.name, "La Dalle");
    assert_eq!(back.data.description, "Slab");
    assert_eq!(back.data.grade, "6a");
    assert_eq!(back.data.color, "red");
    assert_eq!(back.data.sector, "north");
    assert_eq!(back.data.opening_date, at(10));
    assert_eq!(back.data.closing_date, Some(at(20)));
    assert_eq!(back.data.tags, vec![s("slab"), s("kids")]);
    assert_eq!(back.data.properties, vec![(s("height"), s("4"))]);
    assert_eq!(route_repo::domain_to_repository::date(at(1)), RepositoryDate(at(1)));
    assert_eq!(route_repo::repository_to_domain::date(RepositoryDate(at(2))), at(2));
}

#[test]
fn route_filters_to_a_list() {
    let list = route_repo::domain_to_repository::get_filters(route_domain::get::Filters {
        min_grade: Some(s("5a")),
        max_grade: Some(s("7b")),
        tags: vec![s("slab"), s("kids")],
        properties: vec![(s("height"), s("4")), (s("wall"), s("north"))],
    });
    assert_eq!(
        list,
        vec![
            (s("min_grade"), s("5a")),
            (s("max_grade"), s("7b")),
            (s("tags"), s("slab")),
            (s("tags"), s("kids")),
            (s("properties.height"), s("4")),
            (s("properties.wall"), s("north")),
        ]
    );
    let list = route_repo::domain_to_repository::get_filters(route_domain::get::Filters {
        min_grade: None,
        max_grade: None,
        tags: vec![],
        properties: vec![],
    });
    assert!(list.is_empty());
}

#[test]
fn route_filters_from_a_list() {
    let f = route_repo::repository_to_domain::get_filters(vec![
        (s("tags"), s("slab")),
        (s("properties.height"), s("4")),
        (s("min_grade"), s("5a")),
        (s("properties.wall"), s("north")),
        (s("tags"), s("kids")),
        (s("min_grade"), s("5b")),
        (s("properties.height"), s("5")),
        (s("max_grade"), s("7b")),
        (s("properties."), s("")),
    ]);
    assert_eq!(f.min_grade, Some(s("5b")));
    assert_eq!(f.max_grade, Some(s("7b")));
    assert_eq!(f.tags, vec![s("slab"), s("kids")]);
    assert_eq!(
        f.properties,
        vec![(s("height"), s("5")), (s("wall"), s("north")), (s(""), s(""))]
    );
}

#[test]
fn set_property_replaces_or_appends() {
    let mut props = vec![(s("a"), s("1")), (s("b"), s("2"))];
    route_repo::repository_to_domain::set_property(&mut props, s("b"), s("3"));
    assert_eq!(props, vec![(s("a"), s("1")), (s("b"), s("3"))]);
    route_repo::repository_to_domain::set_property(&mut props, s("c"), s("4"));
    assert_eq!(props, vec![(s("a"), s("1")), (s("b"), s("3")), (s("c"), s("4"))]);
    let mut props = Vec::new();
    route_repo::repository_to_domain::set_property(&mut props, s("a"), s("1"));
    assert_eq!(props, vec![(s("a"), s("1"))]);
}

#[test]
fn routes_repository_lists_with_the_filters_in_the_path() {
    let repo = route_repo::Repository::new(Manager::new(registry()));
    let mut dispatch = repo.get_all_dispatch(route_domain::get::Filters {
        min_grade: Some(s("5a")),
        max_grade: None,
        tags: vec![s("slab")],
        properties: vec![(s("height"), s("4"))],
    });
    let first = dispatch.next_request().unwrap();
    assert_eq!(first.method, Method::Get);
    assert_eq!(first.source_id, 1);
    assert_eq!(first.url, "http://a/routes?min_grade=5a&tags=slab&properties.height=4");
    let second = dispatch.next_request().unwrap();
    assert_eq!(second.source_id, 2);
    assert_eq!(second.url, "http://b/routes?min_grade=5a&tags=slab&properties.height=4");
    assert!(dispatch.next_request().is_none());
    let repo = route_repo::Repository::new(Manager::new(registry()));
    let mut dispatch = repo.get_all_dispatch(route_domain::get::Filters {
        min_grade: None,
        max_grade: None,
        tags: vec![],
        properties: vec![],
    });
    assert_eq!(dispatch.next_request().unwrap().url, "http://a/routes");
}

#[test]
fn routes_repository_reports_an_empty_listing_as_a_failure() {
    let repo = route_repo::Repository::new(Manager::new(registry()));
    assert!(matches!(repo.get_all_result(vec![]), Err(GetAllError::InternalServerError)));
    let list = repo
        .get_all_result(vec![source_route("0001-00000001"), source_route("0002-00000001")])
        .unwrap();
    assert_eq!(list.len(), 2);
    assert_eq!(list[0].id, "0001-00000001");
    assert_eq!(list[1].id, "0002-00000001");
    assert_eq!(list[0].data.name, "La Dalle");
    assert_eq!(list[0].data.opening_date, at(10));
}

#[test]
fn routes_repository_looks_a_route_up() {
    let repo = route_repo::Repository::new(Manager::new(registry()));
    let req = repo.get_request("0002-0000000A").unwrap();
    assert_eq!(req.method, Method::Get);
    assert_eq!(req.source_id, 2);
    assert_eq!(req.url, "http://b/routes/10");
    assert_eq!(repo.get_request("nope").unwrap_err(), FetchError::Decode);
    let found = repo.get_result(s("0002-0000000A"), Ok(Some(source_route("0002-0000000A")))).unwrap();
    assert_eq!(found.id, "0002-0000000A");
    assert_eq!(found.data.grade, "6a");
    for outcome in [Ok(None), Err(FetchError::Decode), Err(FetchError::SourceNotFound)] {
        match repo.get_result(s("0002-0000000A"), outcome) {
            Err(GetError::NonExistingId(id)) => assert_eq!(id, "0002-0000000A"),
            other => panic!("{:?}", other),
        }
    }
    for e in [FetchError::Networking, FetchError::Serialization, FetchError::Internal] {
        assert!(matches!(
            repo.get_result(s("0002-0000000A"), Err(e)),
            Err(GetError::InternalServerError)
        ));
    }
}

#[test]
fn places_repository_lists_whatever_came() {
    let repo = place_repo::Repository::new(Manager::new(registry()));
    let mut dispatch = repo.get_all_dispatch(place_domain::get::Filters {
        country: Some(s("France")),
        city: None,
    });
    assert_eq!(dispatch.next_request().unwrap().url, "http://a/places");
    assert_eq!(dispatch.next_request().unwrap().url, "http://b/places");
    assert!(repo.get_all_result(vec![]).unwrap().is_empty());
    let mut a = source_place(1);
    a._id = Some(s("0001-00000001"));
    let list = repo.get_all_result(vec![a, source_place(2)]).unwrap();
    assert_eq!(list.len(), 2);
    assert_eq!(list[0].id, "0001-00000001");
    assert_eq!(list[1].id, "2");
    assert_eq!(list[1].data.city, "Gif-sur-Yvette");
}

#[test]
fn places_repository_of_textual_places() {
    let repo = PlacesRepository::new(Manager::new(registry()));
    let req = repo.get_request("0001-00000001").unwrap();
    assert_eq!(req.url, "http://a/places/1");
    assert_eq!(req.source_id, 1);
    let mut dispatch = repo.get_all_dispatch();
    assert_eq!(dispatch.next_request().unwrap().url, "http://a/places");
    let mut p = Place {
        id: s("1"),
        name: s("COUM"),
        description: s("d"),
        address: s("a"),
        postcode: s("p"),
        city: s("c"),
        country: s("France"),
    };
    assert_eq!(p.id(), "1");
    *p.id() = s("0001-00000001");
    assert_eq!(p.id, "0001-00000001");
    assert_eq!(p.name, "COUM");
}

#[test]
fn has_distinct_names_tells_when_a_name_stands_twice() {
    let ok = vec![(s("height"), s("4")), (s("wall"), s("north")), (s(""), s("x"))];
    assert!(has_distinct_names(&ok));
    assert!(has_distinct_names(&Vec::new()));
    let twice = vec![(s("height"), s("4")), (s("wall"), s("north")), (s("height"), s("4"))];
    assert!(!has_distinct_names(&twice));
    let next = vec![(s("a"), s("1")), (s("a"), s("2"))];
    assert!(!has_distinct_names(&next));
}

#[test]
fn route_filters_come_back_from_their_list() {
    let list = route_repo::domain_to_repository::get_filters(route_domain::get::Filters {
        min_grade: Some(s("5a")),
        max_grade: Some(s("7b")),
        tags: vec![s("slab"), s("kids"), s("slab")],
        properties: vec![(s("height"), s("4")), (s("wall"), s("north")), (s("tags"), s("x"))],
    });
    let back = route_repo::repository_to_domain::get_filters(list);
    assert_eq!(back.min_grade, Some(s("5a")));
    assert_eq!(back.max_grade, Some(s("7b")));
    assert_eq!(back.tags, vec![s("slab"), s("kids"), s("slab")]);
    assert_eq!(
        back.properties,
        vec![(s("height"), s("4")), (s("wall"), s("north")), (s("tags"), s("x"))]
    );
    let list = route_repo::domain_to_repository::get_filters(route_domain::get::Filters {
        min_grade: None,
        max_grade: Some(s("7b")),
        tags: vec![],
        properties: vec![],
    });
    let back = route_repo::repository_to_domain::get_filters(list);
    assert_eq!(back.min_grade, None);
    assert_eq!(back.max_grade, Some(s("7b")));
    assert!(back.tags.is_empty());
    assert!(back.properties.is_empty());
}

#[test]
fn source_place_keeps_its_text_and_fills_it_once() {
    let mut p = source_place(12);
    assert_eq!(p._id, None);
    assert_eq!(p.id(), "12");
    assert_eq!(p._id, Some(s("12")));
    assert_eq!(p.id(), "12");
    assert_eq!(p._id, Some(s("12")));
    p.id().push('x');
    assert_eq!(p._id, Some(s("12x")));
    assert_eq!(p.id, 12);
    assert_eq!(p.name, "COUM");
    let mut q = source_place(3);
    q._id = Some(s("0001-00000003"));
    assert_eq!(q.id(), "0001-00000003");
    assert_eq!(q._id, Some(s("0001-00000003")));
}
