use libos_runtime::parker::Parker;

#[test]
fn the_registered_thread_is_woken() {
    let mut parker: Parker<u64> = Parker::new();
    assert_eq!(parker.unpark(), None);
    parker.register(7);
    assert_eq!(parker.unpark(), Some(&7));
    assert_eq!(parker.unpark(), Some(&7));
    parker.register(8);
    assert_eq!(parker.unpark(), Some(&8));
    parker.unregister();
    assert_eq!(parker.unpark(), None);
    parker.unregister();
    assert_eq!(parker.unpark(), None);
}
