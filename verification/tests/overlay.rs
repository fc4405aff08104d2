use bnlc_mod_loader::overlay::Overlay;
use bnlc_mod_loader::registry::OverlayRegistry;

#[test]
fn new_overlay_holds_nothing() {
    let overlay = Overlay::new();
    assert_eq!(overlay.read("a").unwrap_err(), "no such entry: a");
}

#[test]
fn overlay_reads_what_was_last_written() {
    let mut overlay = Overlay::new();
    overlay.write("a", vec![1]).unwrap();
    overlay.write("b", vec![2, 2]).unwrap();
    overlay.write("a", vec![3, 3, 3]).unwrap();
    assert_eq!(overlay.read("a").unwrap(), vec![3, 3, 3]);
    assert_eq!(overlay.read("b").unwrap(), vec![2, 2]);
    assert!(overlay.read("c").is_err());
}

#[test]
fn registry_finds_by_exact_name() {
    let mut registry = OverlayRegistry::new();
    assert!(!registry.contains("a.dat"));
    assert!(registry.get("a.dat").is_none());
    let mut overlay = Overlay::new();
    overlay.write("p", vec![5]).unwrap();
    registry.insert("a.dat", overlay).unwrap();
    assert!(registry.contains("a.dat"));
    assert!(!registry.contains("a.da"));
    assert!(!registry.contains(""));
    assert_eq!(registry.get("a.dat").unwrap().read("p").unwrap(), vec![5]);
}

#[test]
fn registry_entry_can_be_replaced() {
    let mut registry = OverlayRegistry::new();
    let mut first = Overlay::new();
    first.write("p", vec![1]).unwrap();
    registry.insert("a.dat", first).unwrap();
    registry.insert("b.dat", Overlay::new()).unwrap();
    registry.insert("a.dat", Overlay::new()).unwrap();
    assert!(registry.get("a.dat").unwrap().read("p").is_err());
    assert!(registry.contains("b.dat"));
}

#[test]
fn writing_through_the_registry_reaches_the_overlay() {
    let mut registry = OverlayRegistry::new();
    registry.insert("a.dat", Overlay::new()).unwrap();
    registry.insert("b.dat", Overlay::new()).unwrap();
    registry.get_mut("a.dat").unwrap().write("p", vec![4]).unwrap();
    assert!(registry.get_mut("c.dat").is_none());
    assert_eq!(registry.get("a.dat").unwrap().read("p").unwrap(), vec![4]);
    assert!(registry.get("b.dat").unwrap().read("p").is_err());
}
