use bnlc_mod_loader::bridge::new;
use bnlc_mod_loader::overlay::Overlay;
use bnlc_mod_loader::registry::OverlayRegistry;
use bnlc_mod_loader::state::ModState;

#[test]
fn interleaved_mods_on_disjoint_archives_lose_no_update() {
    let mut registry = OverlayRegistry::new();
    registry.insert("a.dat", Overlay::new()).unwrap();
    registry.insert("b.dat", Overlay::new()).unwrap();
    let one = new("one");
    let two = new("two");
    for i in 0..50u8 {
        one.write_dat_contents(&mut registry, "a.dat", &format!("entry{}", i), vec![i; 3]).unwrap();
        two.write_dat_contents(&mut registry, "b.dat", &format!("entry{}", 49 - i), vec![i, 0]).unwrap();
    }
    for i in 0..50u8 {
        assert_eq!(
            one.read_dat_contents(&registry, "a.dat", &format!("entry{}", i)).unwrap(),
            Some(vec![i; 3])
        );
        assert_eq!(
            two.read_dat_contents(&registry, "b.dat", &format!("entry{}", 49 - i)).unwrap(),
            Some(vec![i, 0])
        );
    }
}

#[test]
fn interleaved_mods_keep_their_own_modules() {
    let one = new("one");
    let two = new("two");
    let mut first: ModState<u32> = ModState::new(true);
    let mut second: ModState<u32> = ModState::new(true);
    for i in 0..20u32 {
        let a = one.load_mod_dll(&first, &format!("lib{}.dll", i)).unwrap();
        let b = two.load_mod_dll(&second, &format!("lib{}.dll", i)).unwrap();
        b.complete(&mut second, Some(100 + i)).unwrap();
        a.complete(&mut first, Some(i)).unwrap();
    }
    assert_eq!(first.dll_count(), 20);
    assert_eq!(second.dll_count(), 20);
    for i in 0..20u32 {
        assert_eq!(first.dll(&format!("lib{}.dll", i)), Some(&i));
        assert_eq!(second.dll(&format!("lib{}.dll", i)), Some(&(100 + i)));
    }
}
