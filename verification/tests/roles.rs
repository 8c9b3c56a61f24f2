use soroban_sdk::testutils::{ContractFunctionSet, EnvTestConfig};
use soroban_sdk::{Env, Symbol, Val};
use trustbridge_storage::storage::roles::same_address;
use trustbridge_storage::storage::{
    get_admin, get_role, has_role_or_admin, is_admin_caller, remove_role, set_role, Role,
};
use trustbridge_storage::value::Address;

struct Registry;

impl ContractFunctionSet for Registry {
    fn call(&self, _func: &str, _env: Env, _args: &[Val]) -> Option<Val> {
        None
    }
}

fn run(f: impl FnOnce(&mut Env)) {
    let env = Env::new_with_config(EnvTestConfig { capture_snapshot_at_drop: false });
    let id = env.register(Registry, ());
    let mut inner = env.clone();
    env.as_contract(&id, || f(&mut inner));
}

const ALICE: Address = Address::Account([1; 32]);
const BOB: Address = Address::Contract([1; 32]);

fn initialize(env: &Env) -> Address {
    let admin = env.current_contract_address();
    env.storage().instance().set(&Symbol::new(env, "admin"), &admin);
    get_admin(env).unwrap()
}

#[test]
fn roles_are_read_back_and_taken() {
    run(|env| {
        assert_eq!(get_role(env, &ALICE), None);
        for (role, code) in [(Role::Admin, 1u32), (Role::Upgrader, 2), (Role::Verifier, 3)] {
            set_role(env, &ALICE, &role);
            assert_eq!(get_role(env, &ALICE), Some(role));
            assert_eq!(get_role(env, &BOB), None);
            assert_eq!(role.code(), code);
            assert_eq!(Role::from_code(code), Some(role));
        }
        set_role(env, &BOB, &Role::Verifier);
        remove_role(env, &ALICE);
        assert_eq!(get_role(env, &ALICE), None);
        assert_eq!(get_role(env, &BOB), Some(Role::Verifier));
        assert_eq!(Role::from_code(0), None);
        assert_eq!(Role::from_code(4), None);
    });
}

#[test]
fn a_role_is_stored_as_its_code_under_the_address() {
    run(|env| {
        let own = env.current_contract_address();
        let admin = initialize(env);
        set_role(env, &admin, &Role::Upgrader);
        let code: u32 = env
            .storage()
            .persistent()
            .get(&(Symbol::new(env, "role"), own))
            .unwrap();
        assert_eq!(code, 2);
    });
}

#[test]
fn only_the_admin_is_the_admin() {
    run(|env| {
        assert!(!is_admin_caller(env, &ALICE));
        let admin = initialize(env);
        assert!(is_admin_caller(env, &admin));
        assert!(!is_admin_caller(env, &ALICE));
        set_role(env, &ALICE, &Role::Admin);
        assert!(!is_admin_caller(env, &ALICE));
    });
}

#[test]
fn rights_follow_roles() {
    run(|env| {
        let admin = initialize(env);
        for role in [Role::Admin, Role::Upgrader, Role::Verifier] {
            assert!(has_role_or_admin(env, &admin, role));
            assert!(!has_role_or_admin(env, &ALICE, role));
        }
        set_role(env, &ALICE, &Role::Verifier);
        assert!(has_role_or_admin(env, &ALICE, Role::Verifier));
        assert!(!has_role_or_admin(env, &ALICE, Role::Upgrader));
        assert!(!has_role_or_admin(env, &ALICE, Role::Admin));
        assert!(!has_role_or_admin(env, &BOB, Role::Verifier));
        set_role(env, &ALICE, &Role::Admin);
        for role in [Role::Admin, Role::Upgrader, Role::Verifier] {
            assert!(has_role_or_admin(env, &ALICE, role));
        }
        remove_role(env, &ALICE);
        assert!(!has_role_or_admin(env, &ALICE, Role::Verifier));
    });
}

#[test]
fn roles_work_without_an_admin() {
    run(|env| {
        set_role(env, &BOB, &Role::Upgrader);
        assert!(has_role_or_admin(env, &BOB, Role::Upgrader));
        assert!(!has_role_or_admin(env, &BOB, Role::Verifier));
    });
}

#[test]
fn addresses_are_compared_by_kind_and_bytes() {
    let mut other = [1; 32];
    other[31] = 2;
    assert!(same_address(ALICE, ALICE));
    assert!(same_address(BOB, BOB));
    assert!(!same_address(ALICE, BOB));
    assert!(!same_address(ALICE, Address::Account(other)));
    assert!(!same_address(BOB, Address::Contract(other)));
}
