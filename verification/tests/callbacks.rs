use arcropolis::ctx::callbacks::{ArcCallback, CallbackType, Callbacks};

fn installed(order: &[ArcCallback]) -> Vec<ArcCallback> {
    let mut cbs = Callbacks::new();
    for cb in order {
        cbs.install(CallbackType::File(7), *cb);
    }
    cbs.get(CallbackType::File(7)).unwrap().clone()
}

#[test]
fn replacers_run_before_editors_before_listeners() {
    let list = installed(&[
        ArcCallback::Listener(5),
        ArcCallback::Editor(0, 3),
        ArcCallback::Replacer(9),
        ArcCallback::Replacer(2),
        ArcCallback::Editor(1, 1),
    ]);
    assert_eq!(list, vec![
        ArcCallback::Replacer(9),
        ArcCallback::Replacer(2),
        ArcCallback::Editor(0, 3),
        ArcCallback::Editor(1, 1),
        ArcCallback::Listener(5),
    ]);
}

fn key(c: &ArcCallback) -> (u8, u64) {
    match c {
        ArcCallback::Listener(f) => (0, *f),
        ArcCallback::Editor(_, f) => (1, *f),
        ArcCallback::Replacer(f) => (2, *f),
    }
}

#[test]
fn install_order_is_by_variant_then_address() {
    let items = [
        ArcCallback::Editor(4, 10),
        ArcCallback::Listener(1),
        ArcCallback::Replacer(3),
        ArcCallback::Editor(9, 2),
        ArcCallback::Listener(8),
        ArcCallback::Replacer(5),
        ArcCallback::Editor(0, 99),
    ];
    for n in 1..=items.len() {
        let mut expected: Vec<ArcCallback> = items[..n].to_vec();
        expected.sort_by_key(key);
        expected.reverse();
        assert_eq!(installed(&items[..n]), expected);
    }
}

#[test]
fn editor_size_does_not_move_it() {
    let base = [ArcCallback::Editor(4, 10), ArcCallback::Replacer(1), ArcCallback::Listener(2)];
    for size in [0u32, 3, 4, 5, 1000] {
        let mut order = base.to_vec();
        order.push(ArcCallback::Editor(size, 10));
        order.push(ArcCallback::Editor(size, 7));
        assert_eq!(installed(&order), vec![
            ArcCallback::Replacer(1),
            ArcCallback::Editor(4, 10),
            ArcCallback::Editor(size, 10),
            ArcCallback::Editor(size, 7),
            ArcCallback::Listener(2),
        ]);
    }
}

#[test]
fn same_callback_twice_is_kept_twice() {
    let list = installed(&[ArcCallback::Replacer(3), ArcCallback::Replacer(3)]);
    assert_eq!(list, vec![ArcCallback::Replacer(3), ArcCallback::Replacer(3)]);
}

#[test]
fn callback_targets_are_kept_apart() {
    let mut cbs = Callbacks::new();
    cbs.install(CallbackType::File(7), ArcCallback::Replacer(1));
    cbs.install(CallbackType::Extension(7), ArcCallback::Editor(0, 2));
    cbs.install(CallbackType::Directory(7), ArcCallback::Listener(3));
    assert_eq!(cbs.get(CallbackType::File(7)).unwrap(), &vec![ArcCallback::Replacer(1)]);
    assert_eq!(cbs.get(CallbackType::Extension(7)).unwrap(), &vec![ArcCallback::Editor(0, 2)]);
    assert_eq!(cbs.get(CallbackType::Directory(7)).unwrap(), &vec![ArcCallback::Listener(3)]);
    assert!(cbs.get(CallbackType::File(8)).is_none());
}

#[test]
fn is_greater_follows_variant_then_address() {
    let all = [
        ArcCallback::Listener(1), ArcCallback::Listener(2), ArcCallback::Editor(0, 5),
        ArcCallback::Editor(1, 0), ArcCallback::Editor(1, 3), ArcCallback::Replacer(0),
        ArcCallback::Replacer(4),
    ];
    for a in &all {
        for b in &all {
            assert_eq!(a.is_greater(b), key(a) > key(b), "{:?} {:?}", a, b);
        }
    }
}
