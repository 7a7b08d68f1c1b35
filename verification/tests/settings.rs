use n5011_bot::settings::{
    init_interval, interval, is_admin, set_admins, set_interval, Admins, Settings,
    DEFAULT_INTERVAL,
};

#[test]
fn nobody_is_admin_before_the_admins_are_stored() {
    let s = Settings::new(3600);
    assert!(!is_admin(&s, 0));
    assert!(!is_admin(&s, 42));
}

#[test]
fn admins_are_stored_once() {
    let mut s = Settings::new(3600);
    assert_eq!(set_admins(&mut s, 1, 2), Ok(()));
    assert!(is_admin(&s, 1));
    assert!(is_admin(&s, 2));
    assert!(!is_admin(&s, 3));
    assert_eq!(set_admins(&mut s, 3, 4), Err(()));
    assert_eq!(s.admins, Some(Admins { admin1: 1, admin2: 2 }));
    assert!(!is_admin(&s, 3));
}

#[test]
fn first_read_stores_the_default_interval() {
    let mut s = Settings::new(3600);
    assert_eq!(set_interval(&mut s, 60), Err(()));
    assert_eq!(s.interval, None);
    assert_eq!(interval(&mut s), DEFAULT_INTERVAL);
    assert_eq!(interval(&mut s), 30);
    assert_eq!(s.interval, Some(30));
    assert_eq!(set_interval(&mut s, 60), Ok(()));
    assert_eq!(interval(&mut s), 60);
}

#[test]
fn interval_is_initialised_once_and_never_negative() {
    let mut s = Settings::new(1);
    assert_eq!(init_interval(&mut s, -1), Err(()));
    assert_eq!(init_interval(&mut s, 45), Ok(()));
    assert_eq!(init_interval(&mut s, 50), Err(()));
    assert_eq!(interval(&mut s), 45);
    assert_eq!(set_interval(&mut s, -5), Err(()));
    assert_eq!(interval(&mut s), 45);
    assert_eq!(set_interval(&mut s, i32::MAX), Ok(()));
    assert_eq!(interval(&mut s), 0x7fff_ffff);
    assert_eq!(set_interval(&mut s, 0), Ok(()));
    assert_eq!(interval(&mut s), 0);
}
