use rigcatalog::client::{
    component_form_ready, components_in_slot, price_of_first, rigs_from_data, FormStatus, RigForm,
};
use rigcatalog::model::{Component, RigWithComponents};
use rigcatalog::slot::Slot;

fn part(id: u128, slot: Slot, price: i32) -> Component {
    Component { id, manufacturer: "m".to_string(), model: "x".to_string(), slot, price }
}

fn stock() -> Vec<Component> {
    vec![
        part(1, Slot::Cpu, 1000),
        part(2, Slot::Gpu, 2000),
        part(3, Slot::Cpu, 1500),
        part(4, Slot::Memory, 300),
        part(5, Slot::Storage, 400),
    ]
}

#[test]
fn component_form_needs_all_fields() {
    assert!(component_form_ready("AMD", "Ryzen", Some(Slot::Cpu), false));
    assert!(!component_form_ready("AMD", "Ryzen", Some(Slot::Cpu), true));
    assert!(!component_form_ready("", "Ryzen", Some(Slot::Cpu), false));
    assert!(!component_form_ready("AMD", "", Some(Slot::Cpu), false));
    assert!(!component_form_ready("AMD", "Ryzen", None, false));
}

#[test]
fn rig_form_totals_and_submits() {
    let mut form = RigForm::new(&stock());
    assert_eq!(form.total_price(), 0);
    assert!(!form.can_submit(false));
    assert!(form.to_request().is_none());
    form.select(Slot::Cpu, Some(3));
    assert_eq!(form.total_price(), 1500);
    form.select(Slot::Cpu, Some(1));
    form.select(Slot::Gpu, Some(2));
    form.select(Slot::Memory, Some(4));
    assert_eq!(form.total_price(), 3300);
    assert!(!form.is_complete());
    form.select(Slot::Storage, Some(5));
    assert_eq!(form.total_price(), 3700);
    assert!(form.is_complete());
    assert!(!form.can_submit(false));
    form.set_name("Gamer".to_string());
    assert!(form.can_submit(false));
    assert!(!form.can_submit(true));
    let req = form.to_request().unwrap();
    assert_eq!(req.name, "Gamer");
    assert_eq!(req.components, vec![1, 2, 4, 5]);
    form.reset();
    assert_eq!(form.total_price(), 0);
    assert!(form.to_request().is_none());
}

#[test]
fn unknown_selection_adds_nothing() {
    let mut form = RigForm::new(&stock());
    form.select(Slot::Gpu, Some(1));
    assert_eq!(form.total_price(), 0);
    assert_eq!(price_of_first(&stock(), 99), 0);
    assert_eq!(price_of_first(&stock(), 3), 1500);
}

#[test]
fn components_split_by_slot() {
    let cpus = components_in_slot(&stock(), Slot::Cpu);
    assert_eq!(cpus.iter().map(|c| c.id).collect::<Vec<_>>(), vec![1, 3]);
    assert!(components_in_slot(&vec![], Slot::Gpu).is_empty());
}

#[test]
fn fetched_rigs_carry_totals() {
    let data = vec![
        RigWithComponents { id: 1, name: "a".to_string(), components: vec![part(1, Slot::Cpu, 10), part(2, Slot::Gpu, 20)] },
        RigWithComponents { id: 2, name: "b".to_string(), components: vec![] },
    ];
    let rigs = rigs_from_data(data);
    assert_eq!(rigs.len(), 2);
    assert_eq!(rigs[0].name, "a");
    assert_eq!(rigs[0].total_price, 30);
    assert_eq!(rigs[1].id, 2);
    assert_eq!(rigs[1].total_price, 0);
}

#[test]
fn form_status_returns_to_idle_and_stays_open_on_failure() {
    let start = FormStatus::opened();
    assert!(start.open && !start.submitting);
    let busy = start.start();
    assert!(busy.open && busy.submitting);
    let failed = busy.finish(false);
    assert_eq!(failed, FormStatus { open: true, submitting: false });
    let done = busy.finish(true);
    assert_eq!(done, FormStatus { open: false, submitting: false });
}
