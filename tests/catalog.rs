use rigcatalog::api::component::{detail, lookup, GetError};
use rigcatalog::api::rig::{component_ids, store_rig};
use rigcatalog::group::{components_for, group_by_rig};
use rigcatalog::id::parse_ids;
use rigcatalog::model::{
    total_of, Component, CreateComponentData, CreateRigData, Rig, RigComponent, RigWithComponents,
};
use rigcatalog::server::{rocket, Request, Response, STORE_FAILURE};
use rigcatalog::slot::{str_eq, Slot};
use rigcatalog::store::{contains_id, Catalog, StoreError};

fn part(id: u128, slot: Slot, price: i32) -> Component {
    Component {
        id,
        manufacturer: format!("maker{id}"),
        model: format!("model{id}"),
        slot,
        price,
    }
}

fn data(manufacturer: &str, model: &str, slot: Slot, price: i32) -> CreateComponentData {
    CreateComponentData {
        manufacturer: manufacturer.to_string(),
        model: model.to_string(),
        slot,
        price,
    }
}

fn rig(id: u128, name: &str) -> Rig {
    Rig { id, name: name.to_string() }
}

fn ids_of(cs: &[Component]) -> Vec<u128> {
    let mut v: Vec<u128> = cs.iter().map(|c| c.id).collect();
    v.sort();
    v
}

#[test]
fn created_component_keeps_fields_and_gets_fresh_id() {
    let mut cat = Catalog::new();
    let mut seen = Vec::new();
    for k in 0..20 {
        let c = rigcatalog::api::component::create(data("AMD", "Ryzen 9", Slot::Cpu, k), &mut cat).unwrap();
        assert_eq!(c.manufacturer, "AMD");
        assert_eq!(c.model, "Ryzen 9");
        assert_eq!(c.slot, Slot::Cpu);
        assert_eq!(c.price, k);
        assert!(!seen.contains(&c.id));
        seen.push(c.id);
    }
    assert_eq!(cat.list_components().len(), 20);
}

#[test]
fn generated_ids_are_version_four() {
    let c = Component::new("Intel".to_string(), "i5".to_string(), Slot::Cpu, 10);
    assert_eq!((c.id >> 76) & 0xf, 4);
    let r = Rig::new("Office".to_string());
    assert_eq!((r.id >> 76) & 0xf, 4);
    assert_ne!(c.id, r.id);
}

#[test]
fn duplicate_component_id_is_refused() {
    let mut cat = Catalog::new();
    assert!(cat.create_component(part(1, Slot::Cpu, 100)).is_ok());
    assert_eq!(cat.create_component(part(1, Slot::Gpu, 200)).unwrap_err(), StoreError::UniqueViolation);
    let all = cat.list_components();
    assert_eq!(all.len(), 1);
    assert_eq!(all[0].slot, Slot::Cpu);
}

#[test]
fn list_by_id_skips_missing_ids() {
    let mut cat = Catalog::new();
    for (id, slot) in [(1, Slot::Cpu), (2, Slot::Gpu), (3, Slot::Memory)] {
        cat.create_component(part(id, slot, 10)).unwrap();
    }
    let found = cat.list_components_by_id(&vec![3, 99, 1, 1000]);
    assert_eq!(ids_of(&found), vec![1, 3]);
    assert!(cat.list_components_by_id(&vec![42]).is_empty());
    assert!(cat.list_components_by_id(&vec![]).is_empty());
}

#[test]
fn get_component_finds_or_reports_not_found() {
    let mut cat = Catalog::new();
    cat.create_component(part(7, Slot::Storage, 55)).unwrap();
    let c = cat.get_component(7).unwrap();
    assert_eq!(c.id, 7);
    assert_eq!(c.price, 55);
    assert_eq!(cat.get_component(8).unwrap_err(), StoreError::NotFound);
}

#[test]
fn rigs_listed_with_their_components() {
    let mut cat = Catalog::new();
    for id in 1..=4 {
        cat.create_component(part(id, Slot::Cpu, id as i32 * 100)).unwrap();
    }
    cat.create_rig(&rig(10, "A")).unwrap();
    cat.create_rig(&rig(20, "B")).unwrap();
    cat.create_rig(&rig(30, "Empty")).unwrap();
    let rows = vec![
        RigComponent { rig_id: 20, component_id: 4 },
        RigComponent { rig_id: 10, component_id: 1 },
        RigComponent { rig_id: 20, component_id: 2 },
        RigComponent { rig_id: 10, component_id: 3 },
        RigComponent { rig_id: 20, component_id: 3 },
    ];
    assert_eq!(cat.create_rig_components(&rows).unwrap(), 5);
    let listed = cat.list_rigs();
    assert_eq!(listed.len(), 3);
    assert_eq!(listed[0].id, 10);
    assert_eq!(ids_of(&listed[0].components), vec![1, 3]);
    assert_eq!(listed[1].name, "B");
    assert_eq!(ids_of(&listed[1].components), vec![2, 3, 4]);
    assert_eq!(listed[2].name, "Empty");
    assert!(listed[2].components.is_empty());
}

#[test]
fn rig_without_components_is_listed_empty() {
    let mut cat = Catalog::new();
    cat.create_rig(&rig(1, "Lonely")).unwrap();
    let listed = cat.list_rigs();
    assert_eq!(listed.len(), 1);
    assert_eq!(listed[0].name, "Lonely");
    assert!(listed[0].components.is_empty());
    assert_eq!(listed[0].total_price(), 0);
}

#[test]
fn association_batch_errors() {
    let mut cat = Catalog::new();
    cat.create_component(part(1, Slot::Cpu, 1)).unwrap();
    cat.create_rig(&rig(5, "R")).unwrap();
    assert_eq!(cat.create_rig(&rig(5, "again")).unwrap_err(), StoreError::UniqueViolation);
    let dangling = vec![RigComponent { rig_id: 5, component_id: 2 }];
    assert_eq!(cat.create_rig_components(&dangling).unwrap_err(), StoreError::ForeignKeyViolation);
    let no_rig = vec![RigComponent { rig_id: 6, component_id: 1 }];
    assert_eq!(cat.create_rig_components(&no_rig).unwrap_err(), StoreError::ForeignKeyViolation);
    let repeated = vec![
        RigComponent { rig_id: 5, component_id: 1 },
        RigComponent { rig_id: 5, component_id: 1 },
    ];
    assert_eq!(cat.create_rig_components(&repeated).unwrap_err(), StoreError::UniqueViolation);
    assert!(cat.list_rigs()[0].components.is_empty());
    let once = vec![RigComponent { rig_id: 5, component_id: 1 }];
    assert_eq!(cat.create_rig_components(&once).unwrap(), 1);
    assert_eq!(cat.create_rig_components(&once).unwrap_err(), StoreError::UniqueViolation);
    assert_eq!(cat.list_rigs()[0].components.len(), 1);
}

#[test]
fn total_price_sums_component_prices() {
    let r = RigWithComponents {
        id: 1,
        name: "X".to_string(),
        components: vec![part(1, Slot::Cpu, 3000), part(2, Slot::Gpu, 4500), part(3, Slot::Memory, -500)],
    };
    assert_eq!(r.total_price(), 7000);
    let empty = RigWithComponents { id: 2, name: "Y".to_string(), components: vec![] };
    assert_eq!(empty.total_price(), 0);
    let big = vec![part(1, Slot::Cpu, i32::MAX), part(2, Slot::Gpu, i32::MAX)];
    assert_eq!(total_of(&big), 2 * i32::MAX as i128);
    let shown = rigcatalog::client::Rig::from_data(r);
    assert_eq!(shown.total_price, 7000);
    assert_eq!(shown.components.len(), 3);
}

#[test]
fn invalid_id_is_400_and_missing_id_is_404() {
    let mut cat = Catalog::new();
    let e = detail("not-a-uuid", &cat).unwrap_err();
    assert!(matches!(e, GetError::InvalidId(_)));
    assert_eq!(e.status(), 400);
    let e = detail("", &cat).unwrap_err();
    assert_eq!(e.status(), 400);
    let e = detail("550e8400-e29b-41d4-a716-446655440000", &cat).unwrap_err();
    assert!(matches!(e, GetError::NotFound));
    assert_eq!(e.status(), 404);
    cat.create_component(part(0xa1a2a3a4b1b2c1c2d1d2d3d4d5d6d7d8, Slot::Gpu, 9)).unwrap();
    let c = detail("a1a2a3a4-b1b2-c1c2-d1d2-d3d4d5d6d7d8", &cat).unwrap();
    assert_eq!(c.price, 9);
    let c = detail("a1a2a3a4b1b2c1c2d1d2d3d4d5d6d7d8", &cat).unwrap();
    assert_eq!(c.id, 0xa1a2a3a4b1b2c1c2d1d2d3d4d5d6d7d8);
}

#[test]
fn lookup_maps_parse_outcome() {
    let mut cat = Catalog::new();
    cat.create_component(part(3, Slot::Cpu, 1)).unwrap();
    assert!(matches!(lookup(Err("bad".to_string()), &cat), Err(GetError::InvalidId(m)) if m == "bad"));
    assert!(matches!(lookup(Ok(4), &cat), Err(GetError::NotFound)));
    assert_eq!(lookup(Ok(3), &cat).unwrap().id, 3);
}

#[test]
fn post_then_get_component_returns_same_record() {
    let mut server = rocket();
    let created = match server.handle(Request::CreateComponent(data("AMD", "Ryzen 9", Slot::Cpu, 3000))) {
        Response::Component(c) => c,
        _ => panic!("expected a component"),
    };
    assert_eq!(created.manufacturer, "AMD");
    assert_eq!(created.model, "Ryzen 9");
    assert_eq!(created.slot, Slot::Cpu);
    assert_eq!(created.price, 3000);
    let text = format!("{:032x}", created.id);
    match server.handle(Request::GetComponent(text)) {
        Response::Component(c) => {
            assert_eq!(c.id, created.id);
            assert_eq!(c.manufacturer, "AMD");
            assert_eq!(c.model, "Ryzen 9");
            assert_eq!(c.slot, Slot::Cpu);
            assert_eq!(c.price, 3000);
        }
        _ => panic!("expected the stored component"),
    }
    match server.handle(Request::ListComponents) {
        Response::Components(v) => assert_eq!(v.len(), 1),
        _ => panic!("expected a list"),
    }
}

#[test]
fn post_rig_returns_it_with_components() {
    let mut server = rocket();
    let mut ids = Vec::new();
    for (m, s, p) in [("AMD", Slot::Cpu, 3000), ("NVIDIA", Slot::Gpu, 5000)] {
        match server.handle(Request::CreateComponent(data(m, "X", s, p))) {
            Response::Component(c) => ids.push(c.id),
            _ => panic!("expected a component"),
        }
    }
    let req = CreateRigData { name: "Budget Build".to_string(), components: ids.clone() };
    let made = match server.handle(Request::CreateRig(req)) {
        Response::Rig(v) => v,
        _ => panic!("expected a rig"),
    };
    assert_eq!(made.name, "Budget Build");
    let mut want = ids.clone();
    want.sort();
    assert_eq!(ids_of(&made.components), want);
    assert_eq!(made.total_price(), 8000);
    match server.handle(Request::ListRigs) {
        Response::Rigs(v) => {
            assert_eq!(v.len(), 1);
            assert_eq!(v[0].id, made.id);
            assert_eq!(ids_of(&v[0].components), want);
        }
        _ => panic!("expected rigs"),
    }
}

#[test]
fn rig_with_unknown_component_stays_without_components() {
    let mut server = rocket();
    let req = CreateRigData { name: "Ghost".to_string(), components: vec![12345] };
    match server.handle(Request::CreateRig(req)) {
        Response::Error(s, msg) => {
            assert_eq!(s, STORE_FAILURE);
            assert!(!msg.is_empty());
        }
        _ => panic!("expected a failure"),
    }
    match server.handle(Request::ListRigs) {
        Response::Rigs(v) => {
            assert_eq!(v.len(), 1);
            assert_eq!(v[0].name, "Ghost");
            assert!(v[0].components.is_empty());
        }
        _ => panic!("expected rigs"),
    }
}

#[test]
fn store_rig_refuses_taken_id() {
    let mut cat = Catalog::new();
    cat.create_rig(&rig(1, "first")).unwrap();
    let err = store_rig(rig(1, "second"), &vec![], &mut cat).unwrap_err();
    assert_eq!(err, StoreError::UniqueViolation);
    let ok = store_rig(rig(2, "second"), &vec![], &mut cat).unwrap();
    assert_eq!(ok.id, 2);
    assert!(ok.components.is_empty());
    assert_eq!(cat.list_rigs().len(), 2);
}

#[test]
fn server_status_for_bad_and_missing_ids() {
    let mut server = rocket();
    assert!(matches!(server.handle(Request::GetComponent("zzz".to_string())), Response::Error(400, _)));
    assert!(matches!(
        server.handle(Request::GetComponent("550e8400-e29b-41d4-a716-446655440000".to_string())),
        Response::Error(404, _)
    ));
}

#[test]
fn create_rig_data_links_each_component() {
    let d = CreateRigData { name: "N".to_string(), components: vec![4, 5, 4] };
    let (r, rows) = d.into_rig();
    assert_eq!(r.name, "N");
    assert_eq!(rows.len(), 3);
    assert!(rows.iter().all(|x| x.rig_id == r.id));
    assert_eq!(component_ids(&rows), vec![4, 5, 4]);
    let w = r.with_components(vec![part(4, Slot::Cpu, 1)]);
    let (back, comps) = w.into_parts();
    assert_eq!(back.name, "N");
    assert_eq!(comps.len(), 1);
}

#[test]
fn grouping_keeps_rig_order_and_row_order() {
    let rigs = vec![rig(2, "two"), rig(1, "one")];
    let rows = vec![
        (RigComponent { rig_id: 1, component_id: 7 }, part(7, Slot::Cpu, 1)),
        (RigComponent { rig_id: 2, component_id: 8 }, part(8, Slot::Gpu, 2)),
        (RigComponent { rig_id: 1, component_id: 9 }, part(9, Slot::Memory, 3)),
    ];
    let g = group_by_rig(rigs, &rows);
    assert_eq!(g[0].id, 2);
    assert_eq!(g[0].components.iter().map(|c| c.id).collect::<Vec<_>>(), vec![8]);
    assert_eq!(g[1].components.iter().map(|c| c.id).collect::<Vec<_>>(), vec![7, 9]);
    assert!(components_for(&rows, 3).is_empty());
}

#[test]
fn slot_names_and_order() {
    assert_eq!(Slot::variants(), vec![Slot::Cpu, Slot::Gpu, Slot::Memory, Slot::Storage]);
    assert_eq!(Slot::Memory.name(), "Memory");
    assert_eq!(Slot::Storage.index(), 3);
    assert_eq!(Slot::from_name("Gpu"), Some(Slot::Gpu));
    assert_eq!(Slot::from_name("gpu"), None);
    assert_eq!(Slot::from_name(""), None);
    assert!(str_eq("abc", "abc"));
    assert!(!str_eq("abc", "abd"));
    assert!(contains_id(&vec![1, 2], 2));
    assert!(!contains_id(&vec![], 2));
}

#[test]
fn store_error_text_is_not_empty() {
    for e in [StoreError::NotFound, StoreError::UniqueViolation, StoreError::ForeignKeyViolation] {
        assert!(!e.describe().is_empty());
    }
}

#[test]
fn parse_ids_reads_every_id_or_none() {
    let good = vec![
        "a1a2a3a4-b1b2-c1c2-d1d2-d3d4d5d6d7d8".to_string(),
        "00000000000000000000000000000001".to_string(),
    ];
    assert_eq!(parse_ids(&good), Some(vec![0xa1a2a3a4b1b2c1c2d1d2d3d4d5d6d7d8, 1]));
    let bad = vec!["00000000000000000000000000000001".to_string(), "nope".to_string()];
    assert_eq!(parse_ids(&bad), None);
    assert_eq!(parse_ids(&vec![]), Some(vec![]));
}

#[test]
fn rig_may_hold_two_components_of_one_slot() {
    let mut cat = Catalog::new();
    let a = rigcatalog::api::component::create(data("AMD", "A", Slot::Cpu, 10), &mut cat).unwrap();
    let b = rigcatalog::api::component::create(data("Intel", "B", Slot::Cpu, 20), &mut cat).unwrap();
    let req = CreateRigData { name: "Two CPUs".to_string(), components: vec![a.id, b.id] };
    let made = rigcatalog::api::rig::create(req, &mut cat).unwrap();
    let mut want = vec![a.id, b.id];
    want.sort();
    assert_eq!(ids_of(&made.components), want);
    assert_eq!(made.total_price(), 30);
}

#[test]
fn rig_request_with_repeated_id_is_refused() {
    let mut cat = Catalog::new();
    let a = rigcatalog::api::component::create(data("AMD", "A", Slot::Cpu, 10), &mut cat).unwrap();
    let req = CreateRigData { name: "Twice".to_string(), components: vec![a.id, a.id] };
    assert_eq!(rigcatalog::api::rig::create(req, &mut cat).unwrap_err(), StoreError::UniqueViolation);
    let listed = cat.list_rigs();
    assert_eq!(listed.len(), 1);
    assert!(listed[0].components.is_empty());
}
