use antigen::lazy_component::LazyComponent;
use antigen::traits::Construct;

#[test]
fn new_component_is_pending() {
    let c: LazyComponent<u32, u8, ()> = LazyComponent::new(7);
    assert!(c.is_pending());
    assert!(!c.is_ready());
    assert!(!c.is_dropped());
    assert_eq!(c, LazyComponent::Pending(7));
    assert_eq!(c.get(), None);
}

#[test]
fn default_component_is_pending() {
    let c: LazyComponent<u32, u8, ()> = LazyComponent::default();
    assert_eq!(c, LazyComponent::Pending(0));
    let c: LazyComponent<u32> = LazyComponent::construct(());
    assert!(c.is_pending());
}

#[test]
fn exactly_one_state_holds() {
    let mut c: LazyComponent<u32, u8, u16> = LazyComponent::new(1);
    for _ in 0..3 {
        let flags = [c.is_pending(), c.is_ready(), c.is_dropped()];
        assert_eq!(flags.iter().filter(|f| **f).count(), 1);
        if c.is_pending() {
            c.set_ready_with(5);
        } else if c.is_ready() {
            c.set_dropped_with(9);
        }
    }
}

#[test]
fn ready_value_is_given_back() {
    let mut c: LazyComponent<u32, u8, u16> = LazyComponent::new(1);
    c.set_ready_with(42);
    assert!(c.is_ready());
    assert_eq!(c.get(), Some(&42));
    if let Some(r) = c.get_mut() {
        *r = 43;
    }
    assert_eq!(c, LazyComponent::Ready(43));
}

#[test]
fn set_with_defaults() {
    let mut c: LazyComponent<u32, u8, u16> = LazyComponent::new(1);
    c.set_ready();
    assert_eq!(c, LazyComponent::Ready(0));
    c.set_dropped();
    assert_eq!(c, LazyComponent::Dropped(0));
    c.set_pending();
    assert_eq!(c, LazyComponent::Pending(0));
    c.set_pending_with(3);
    assert_eq!(c, LazyComponent::Pending(3));
    c.set_dropped_with(4);
    assert_eq!(c, LazyComponent::Dropped(4));
    assert_eq!(c.get_mut(), None);
    assert_eq!(c, LazyComponent::Dropped(4));
}

#[test]
fn take_leaves_dropped() {
    let mut c: LazyComponent<u32, u8, u16> = LazyComponent::new(1);
    c.set_ready_with(8);
    let taken = c.take();
    assert_eq!(taken, LazyComponent::Ready(8));
    assert!(c.is_dropped());
    assert_eq!(c, LazyComponent::Dropped(0));
}
