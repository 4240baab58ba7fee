use agritrust::account::AccountId;
use agritrust::admin::{AdminStore, DeadMansSwitchModule, INACTIVITY_PERIOD};

const DAY: u64 = 24 * 60 * 60;

fn setup() -> (AdminStore, AccountId, AccountId) {
    let admin = AccountId::new([0xAA; 32]);
    let vault = AccountId::new([0xBB; 32]);
    let mut store = AdminStore::new();
    DeadMansSwitchModule::initialize(&mut store, 0, admin, vault);
    (store, admin, vault)
}

#[test]
fn test_heartbeat_resets_countdown() {
    let (mut store, _admin, _vault) = setup();
    let mut now: u64 = 0;
    now += 100 * DAY;
    assert!(!DeadMansSwitchModule::is_recovery_due(&store, now));
    DeadMansSwitchModule::reset_last_activity(&mut store, now);
    now += 100 * DAY;
    assert!(!DeadMansSwitchModule::is_recovery_due(&store, now));
}

#[test]
fn test_recovery_after_inactivity() {
    let (mut store, _admin, vault) = setup();
    let now: u64 = 200 * DAY;
    assert!(DeadMansSwitchModule::is_recovery_due(&store, now));
    let new_admin = DeadMansSwitchModule::execute_recovery(&mut store);
    assert_eq!(new_admin, vault);
    assert_eq!(DeadMansSwitchModule::get_primary_admin(&store).unwrap(), vault);
}

#[test]
fn test_set_recovery_vault() {
    let (mut store, admin, _vault) = setup();
    let new_vault = AccountId::new([0xCC; 32]);
    DeadMansSwitchModule::set_recovery_vault(&mut store, new_vault);
    assert_eq!(DeadMansSwitchModule::get_primary_admin(&store).unwrap(), admin);
}

#[test]
fn recovery_due_exactly_at_the_period() {
    let (store, _admin, _vault) = setup();
    assert_eq!(INACTIVITY_PERIOD, 180 * DAY);
    assert!(!DeadMansSwitchModule::is_recovery_due(&store, INACTIVITY_PERIOD - 1));
    assert!(DeadMansSwitchModule::is_recovery_due(&store, INACTIVITY_PERIOD));
}

#[test]
fn clock_behind_last_activity_is_not_due() {
    let (mut store, _admin, _vault) = setup();
    DeadMansSwitchModule::reset_last_activity(&mut store, 1000 * DAY);
    assert!(!DeadMansSwitchModule::is_recovery_due(&store, 10));
}

#[test]
fn recovery_uses_the_latest_vault_and_records_execution() {
    let (mut store, _admin, _vault) = setup();
    let new_vault = AccountId::new([0xCC; 32]);
    DeadMansSwitchModule::set_recovery_vault(&mut store, new_vault);
    assert_eq!(DeadMansSwitchModule::execute_recovery(&mut store), new_vault);
    assert_eq!(store.recovery_executed, Some(true));
    assert!(new_vault.same_as(&store.primary_admin.unwrap()));
}
