use climbhub::repositories::common::{FetchError, Manager, RelativeId, Reply};
use climbhub::repositories::dispatch::SourceError;
use climbhub::repositories::config::{Config, Source};
use climbhub::repositories::places::repository::domain_to_repository;
use climbhub::repositories::places::repository::{Place as SourcePlace, Repository};
use climbhub::repositories::places::{Place, PlacesRepository};
use climbhub::contexts::places::domain;

fn place(id: &str, name: &str, description: &str, address: &str, postcode: &str, city: &str) -> Place {
    Place {
        id: id.to_string(),
        name: name.to_string(),
        description: description.to_string(),
        address: address.to_string(),
        postcode: postcode.to_string(),
        city: city.to_string(),
        country: "France".to_string(),
    }
}

fn one_source() -> Config {
    Config {
        sources: vec![Source {
            name: "Test".to_string(),
            id: 1,
            url: "http://127.0.0.1:1234".to_string(),
        }],
    }
}

fn two_sources() -> Config {
    Config {
        sources: vec![
            Source { name: "Test 1".to_string(), id: 1, url: "http://127.0.0.1:1111".to_string() },
            Source { name: "Test 2".to_string(), id: 2, url: "http://127.0.0.1:2222".to_string() },
        ],
    }
}

#[test]
fn test_get() {
    let repo = PlacesRepository::new(Manager::<Place>::new(one_source()));
    let request = repo.get_request("0001-00000001").unwrap();
    assert_eq!(request.url, "http://127.0.0.1:1234/places/1");
    let body = place(
        "1",
        "COUM",
        "Centre Omnisport Universitaire de Moulon",
        "8 rue 128",
        "91190",
        "Gif-sur-Yvette",
    );
    let reply = Reply::Answer { status: 200, body: Some(body) };
    let place = repo.engine().get_result(request.source_id, reply).unwrap().unwrap();
    assert_eq!(place.id, "0001-00000001");
    assert_eq!(place.name, "COUM");
    assert_eq!(place.description, "Centre Omnisport Universitaire de Moulon");
    assert_eq!(place.address, "8 rue 128");
    assert_eq!(place.postcode, "91190");
    assert_eq!(place.city, "Gif-sur-Yvette");
    assert_eq!(place.country, "France");
}

#[test]
fn places_test_get_all() {
    let repo = PlacesRepository::new(Manager::<Place>::new(two_sources()));
    let mut dispatch = repo.get_all_dispatch();
    let first = dispatch.next_request().unwrap();
    let second = dispatch.next_request().unwrap();
    assert!(dispatch.next_request().is_none());
    assert_eq!(first.url, "http://127.0.0.1:1111/places");
    assert_eq!(second.url, "http://127.0.0.1:2222/places");
    let body1 = vec![
        place("1", "COUM", "Centre Omnisport Universitaire de Moulon", "8 rue 128", "91190", "Gif-sur-Yvette"),
        place("2", "Bibliothèque", "Bibliothèque universitaire", "8 rue 128", "91190", "Gif-sur-Yvette"),
    ];
    let body2 = vec![
        place("1", "Auditorium", "Auditorium universitaire", "1 rue des étoiles", "92100", "Boulogne-Billancourt"),
        place("2", "Restaurant", "Restaurant universitaire", "18 avenue de la République", "78000", "Versailles"),
    ];
    let out2 = repo.engine().get_objects(second.source_id, Reply::Answer { status: 200, body: Some(body2) });
    assert!(dispatch.absorb(second.source_id, out2));
    let out1 = repo.engine().get_objects(first.source_id, Reply::Answer { status: 200, body: Some(body1) });
    assert!(dispatch.absorb(first.source_id, out1));
    assert!(dispatch.is_done());
    let places = dispatch.finish().0;
    assert_eq!(places.len(), 4);
    println!("{:?}", places);
}

#[test]
fn repository_test_get_all() {
    const SOURCES_COUNT: usize = 2;
    let config = Config {
        sources: (0..SOURCES_COUNT)
            .map(|i| Source {
                name: format!("Source {}", i + 1),
                id: (i + 1) as u16,
                url: format!("http://127.0.0.1:{}", 8000 + i),
            })
            .collect(),
    };

    const PLACES_COUNT: usize = 2 * SOURCES_COUNT;
    let expected_places: Vec<domain::Place> = (0..PLACES_COUNT)
        .map(|i| {
            let source_id = i / 2;
            let resource_id = i % 2;
            domain::Place {
                id: format!("000{}-0000000{}", source_id + 1, resource_id + 1),
                data: domain::PlaceData {
                    name: format!("Place {}", i),
                    description: format!("Description {}", i),
                    address: format!("Address {}", i),
                    postcode: format!("Postcode {}", i),
                    city: format!("City {}", i),
                    country: format!("Country {}", i),
                },
            }
        })
        .collect();

    let repo = Repository::new(Manager::<SourcePlace>::new(config));
    let mut dispatch = repo.get_all_dispatch(domain::get::Filters { country: None, city: None });
    let mut requests = Vec::new();
    while let Some(request) = dispatch.next_request() {
        requests.push(request);
    }
    assert_eq!(requests.len(), SOURCES_COUNT);

    // each source answers with its slice of the places, under their local ids
    for (i, request) in requests.iter().enumerate().rev() {
        let places_slice: Vec<SourcePlace> = (i * 2..(i + 1) * 2)
            .map(|k| SourcePlace {
                _id: None,
                id: RelativeId::from_str(&expected_places[k].id).unwrap().resource_id,
                name: format!("Place {}", k),
                description: format!("Description {}", k),
                address: format!("Address {}", k),
                postcode: format!("Postcode {}", k),
                city: format!("City {}", k),
                country: format!("Country {}", k),
            })
            .collect();
        println!("{}: {:?}", i + 1, places_slice);
        assert_eq!(request.url, format!("http://127.0.0.1:{}/places", 8000 + i));
        let reply = Reply::Answer { status: 200, body: Some(places_slice) };
        assert!(dispatch
            .absorb(request.source_id, repo.engine().get_objects(request.source_id, reply)));
    }
    let (records, errors) = dispatch.finish();
    assert!(errors.is_empty());
    let places = repo.get_all_result(records).unwrap();

    // assert all places are present
    assert_eq!(places.len(), PLACES_COUNT);
    for expected_place in &expected_places {
        let found = places
            .iter()
            .filter(|p| {
                p.id == expected_place.id
                    && p.data.name == expected_place.data.name
                    && p.data.description == expected_place.data.description
                    && p.data.address == expected_place.data.address
                    && p.data.postcode == expected_place.data.postcode
                    && p.data.city == expected_place.data.city
                    && p.data.country == expected_place.data.country
            })
            .count();
        assert_eq!(found, 1);
    }
    println!("{:?}", places);
}

#[test]
fn dispatch_with_one_source_out_of_reach() {
    let repo = PlacesRepository::new(Manager::<Place>::new(two_sources()));
    let mut dispatch = repo.get_all_dispatch();
    let a = dispatch.next_request().unwrap();
    let b = dispatch.next_request().unwrap();
    let body = vec![
        place("1", "COUM", "d", "a", "p", "c"),
        place("2", "Bibliothèque", "d", "a", "p", "c"),
    ];
    assert!(dispatch
        .absorb(b.source_id, repo.engine().get_objects(b.source_id, Reply::Unreachable)));
    assert!(dispatch.absorb(
        a.source_id,
        repo.engine().get_objects(a.source_id, Reply::Answer { status: 200, body: Some(body) })
    ));
    let (records, errors) = dispatch.finish();
    assert_eq!(records.len(), 2);
    assert_eq!(records[0].id, "0001-00000001");
    assert_eq!(records[1].id, "0001-00000002");
    for r in &records {
        assert_eq!(RelativeId::from_str(&r.id).unwrap().source_id, a.source_id);
    }
    assert_eq!(errors, vec![SourceError { source_id: b.source_id, error: FetchError::Networking }]);
}

#[test]
fn get_of_a_missing_record_is_not_found() {
    let repo = PlacesRepository::new(Manager::<Place>::new(one_source()));
    let request = repo.get_request("0001-0000002A").unwrap();
    assert_eq!(request.url, "http://127.0.0.1:1234/places/42");
    let reply: Reply<Place> = Reply::Answer { status: 404, body: None };
    assert_eq!(repo.engine().get_result(request.source_id, reply).unwrap().map(|p| p.id), None);
}

#[test]
fn domain_place_with_a_local_id_goes_back_to_the_source() {
    let p = domain_to_repository::place(domain::Place {
        id: "42".to_string(),
        data: domain::PlaceData {
            name: "n".to_string(),
            description: "d".to_string(),
            address: "a".to_string(),
            postcode: "p".to_string(),
            city: "c".to_string(),
            country: "k".to_string(),
        },
    });
    assert_eq!(p.id, 42);
    assert_eq!(p._id, Some("42".to_string()));
}
