use genesis_tools::bytes::{bytes_eq, copy_bytes};
use genesis_tools::state_view::{
    module_id_eq, FrameworkBundle, FrameworkModule, GenesisStateView, ModuleId, StateKey,
};

fn core_address() -> [u8; 32] {
    let mut address = [0u8; 32];
    address[31] = 1;
    address
}

fn id(name: &str) -> ModuleId {
    ModuleId { address: core_address(), name: name.as_bytes().to_vec() }
}

fn module(name: &str, bytecode: &[u8]) -> FrameworkModule {
    FrameworkModule { id: id(name), bytecode: bytecode.to_vec() }
}

#[test]
fn bytes_are_compared_by_content() {
    assert!(bytes_eq(&[], &[]));
    assert!(bytes_eq(&[1, 2, 3], &[1, 2, 3]));
    assert!(!bytes_eq(&[1, 2, 3], &[1, 2]));
    assert!(!bytes_eq(&[1, 2, 3], &[1, 2, 4]));
    assert!(!bytes_eq(&[], &[0]));
}

#[test]
fn bytes_are_copied_in_full() {
    assert_eq!(copy_bytes(&[]), Vec::<u8>::new());
    assert_eq!(copy_bytes(&[7, 0, 255]), vec![7, 0, 255]);
}

#[test]
fn module_identifiers_compare_by_address_and_name() {
    assert!(module_id_eq(&id("coin"), &id("coin")));
    assert!(!module_id_eq(&id("coin"), &id("stake")));
    let elsewhere = ModuleId { address: [0u8; 32], name: b"coin".to_vec() };
    assert!(!module_id_eq(&id("coin"), &elsewhere));
}

#[test]
fn a_new_view_holds_nothing() {
    let view = GenesisStateView::new();
    assert!(view.modules().is_empty());
    assert_eq!(view.get_module(&id("coin")), None);
    assert_eq!(view.get_state_value(&StateKey::Module(id("coin"))), None);
}

#[test]
fn an_added_module_is_found_again() {
    let mut view = GenesisStateView::new();
    view.add_module(&id("coin"), &[0xa1, 0x1c]);
    view.add_module(&id("stake"), &[0xeb]);
    assert_eq!(view.get_module(&id("coin")), Some(&vec![0xa1, 0x1c]));
    assert_eq!(view.get_module(&id("stake")), Some(&vec![0xeb]));
    assert_eq!(view.get_module(&id("vesting")), None);
}

#[test]
fn a_second_blob_replaces_the_first() {
    let mut view = GenesisStateView::new();
    view.add_module(&id("coin"), &[1]);
    view.add_module(&id("stake"), &[2]);
    view.add_module(&id("coin"), &[3, 3]);
    assert_eq!(view.get_module(&id("coin")), Some(&vec![3, 3]));
    assert_eq!(view.get_module(&id("stake")), Some(&vec![2]));
}

#[test]
fn resources_are_never_found() {
    let mut view = GenesisStateView::new();
    view.add_module(&id("coin"), &[1]);
    assert_eq!(view.get_state_value(&StateKey::Resource(b"0x1::coin::CoinInfo".to_vec())), None);
    assert_eq!(view.get_state_value(&StateKey::Resource(Vec::new())), None);
    assert_eq!(view.get_state_value(&StateKey::Module(id("coin"))), Some(vec![1]));
    assert_eq!(view.get_state_value(&StateKey::Module(id("stake"))), None);
}

#[test]
fn a_seeded_view_holds_every_module_of_the_framework() {
    let framework = FrameworkBundle {
        modules: vec![module("coin", &[1]), module("stake", &[2, 2]), module("genesis", &[])],
    };
    let view = GenesisStateView::seeded(&framework);
    assert_eq!(view.modules(), &framework.modules);
    assert_eq!(view.get_module(&id("coin")), Some(&vec![1]));
    assert_eq!(view.get_module(&id("stake")), Some(&vec![2, 2]));
    assert_eq!(view.get_module(&id("genesis")), Some(&vec![]));
    assert_eq!(view.get_module(&id("vesting")), None);
}

#[test]
fn seeding_an_empty_framework_gives_an_empty_view() {
    let view = GenesisStateView::seeded(&FrameworkBundle { modules: Vec::new() });
    assert!(view.modules().is_empty());
}

#[test]
fn two_seedings_share_nothing() {
    let framework = FrameworkBundle { modules: vec![module("coin", &[1])] };
    let mut first = GenesisStateView::seeded(&framework);
    let second = GenesisStateView::seeded(&framework);
    first.add_module(&id("stake"), &[9]);
    assert_eq!(first.get_module(&id("stake")), Some(&vec![9]));
    assert_eq!(second.get_module(&id("stake")), None);
    assert_eq!(second.modules(), &framework.modules);
}
