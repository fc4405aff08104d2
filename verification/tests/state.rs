use bnlc_mod_loader::bridge::new;
use bnlc_mod_loader::error::BridgeError;
use bnlc_mod_loader::state::{check_trust, ModState};

#[test]
fn trust_gate_passes_a_trusted_mod() {
    let state: ModState<u32> = ModState::new(true);
    assert!(state.is_trusted());
    assert!(check_trust(&state).is_ok());
}

#[test]
fn trust_gate_stops_an_untrusted_mod() {
    let state: ModState<u32> = ModState::new(false);
    assert!(!state.is_trusted());
    assert!(matches!(check_trust(&state), Err(BridgeError::TrustError)));
}

#[test]
fn trust_error_says_how_to_enable_trust() {
    let state: ModState<u32> = ModState::new(false);
    let e = check_trust(&state).unwrap_err();
    assert_eq!(
        e.message(),
        "cannot call load_mod_dll if mod is not trusted! if you want to trust this mod, add `trusted = true` to the mod's configuration section"
    );
}

#[test]
fn new_state_holds_no_module() {
    let state: ModState<u32> = ModState::new(true);
    assert_eq!(state.dll_count(), 0);
    assert_eq!(state.dll("a.dll"), None);
}

#[test]
fn modules_are_found_by_their_own_path() {
    let bridge = new("m");
    let mut state: ModState<u32> = ModState::new(true);
    let a = bridge.load_mod_dll(&state, "a.dll").unwrap();
    a.complete(&mut state, Some(1)).unwrap();
    let b = bridge.load_mod_dll(&state, "sub/b.dll").unwrap();
    b.complete(&mut state, Some(2)).unwrap();
    assert_eq!(state.dll_count(), 2);
    assert_eq!(state.dll("a.dll"), Some(&1));
    assert_eq!(state.dll(&"sub/b.dll".replace('/', std::path::MAIN_SEPARATOR_STR)), Some(&2));
    assert_eq!(state.dll("c.dll"), None);
    assert!(state.is_trusted());
}

#[test]
fn loading_one_path_twice_is_recorded_twice() {
    let bridge = new("m");
    let mut state: ModState<u32> = ModState::new(true);
    let first = bridge.load_mod_dll(&state, "a.dll").unwrap();
    first.complete(&mut state, Some(1)).unwrap();
    let second = bridge.load_mod_dll(&state, "./a.dll").unwrap();
    second.complete(&mut state, Some(2)).unwrap();
    assert_eq!(state.dll_count(), 2);
    assert_eq!(state.dll("a.dll"), Some(&2));
}
