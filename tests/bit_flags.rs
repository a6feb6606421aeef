use rshell::bit_flags::{BitFlagContainer, FlagError};

#[test]
fn flags_are_created_set_and_read() {
    let mut c = BitFlagContainer::new();
    assert!(c.create_flag("a", true).is_ok());
    assert!(c.create_flag("b", false).is_ok());
    assert_eq!(c.get_flag("a").unwrap(), true);
    assert_eq!(c.get_flag("b").unwrap(), false);
    assert!(c.set_flag("b", true).is_ok());
    assert!(c.set_flag("a", false).is_ok());
    assert_eq!(c.get_flag("a").unwrap(), false);
    assert_eq!(c.get_flag("b").unwrap(), true);
}

#[test]
fn missing_flag_is_reported_by_name() {
    let mut c = BitFlagContainer::new();
    assert!(matches!(c.get_flag("x"), Err(FlagError::NotFound(k)) if k == "x"));
    assert!(matches!(c.set_flag("y", true), Err(FlagError::NotFound(k)) if k == "y"));
}

#[test]
fn container_fills_up_at_64() {
    let mut c = BitFlagContainer::new();
    for i in 0..64 {
        assert!(c.create_flag(&format!("f{}", i), i % 2 == 0).is_ok());
    }
    assert!(matches!(c.create_flag("one_more", true), Err(FlagError::Full)));
    for i in 0..64 {
        assert_eq!(c.get_flag(&format!("f{}", i)).unwrap(), i % 2 == 0);
    }
    assert!(c.get_flag("one_more").is_err());
}

#[test]
fn recreating_a_flag_gives_it_a_fresh_value() {
    let mut c = BitFlagContainer::new();
    assert!(c.create_flag("a", true).is_ok());
    assert!(c.create_flag("b", true).is_ok());
    assert!(c.create_flag("a", false).is_ok());
    assert_eq!(c.get_flag("a").unwrap(), false);
    assert_eq!(c.get_flag("b").unwrap(), true);
}
