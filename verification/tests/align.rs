use swsurface::align::Align;

#[test]
fn bad_align() {
    assert!(Align::new(4).is_ok());
    assert!(Align::new(0).is_err());
    assert!(Align::new(3).is_err());
    assert!(Align::new(usize::max_value()).is_err());
}

#[test]
fn align_up() {
    let a1 = Align::new(1).unwrap();

    assert_eq!(a1.align_up(0), Some(0));
    assert_eq!(a1.align_up(1), Some(1));
    assert_eq!(a1.align_up(2), Some(2));
    assert_eq!(a1.align_up(3), Some(3));
    assert_eq!(a1.align_up(4), Some(4));
    assert_eq!(a1.align_up(usize::max_value()), Some(usize::max_value()));

    let a4 = Align::new(4).unwrap();

    assert_eq!(a4.align_up(0), Some(0));
    assert_eq!(a4.align_up(1), Some(4));
    assert_eq!(a4.align_up(2), Some(4));
    assert_eq!(a4.align_up(3), Some(4));
    assert_eq!(a4.align_up(4), Some(4));
    assert_eq!(a4.align_up(5), Some(8));
    assert_eq!(a4.align_up(6), Some(8));
    assert_eq!(a4.align_up(7), Some(8));
    assert_eq!(
        a4.align_up(usize::max_value() - 6),
        Some(usize::max_value() - 3)
    );
    assert_eq!(
        a4.align_up(usize::max_value() - 5),
        Some(usize::max_value() - 3)
    );
    assert_eq!(
        a4.align_up(usize::max_value() - 4),
        Some(usize::max_value() - 3)
    );
    assert_eq!(
        a4.align_up(usize::max_value() - 3),
        Some(usize::max_value() - 3)
    );
    assert_eq!(a4.align_up(usize::max_value() - 2), None);
    assert_eq!(a4.align_up(usize::max_value() - 1), None);
    assert_eq!(a4.align_up(usize::max_value()), None);
}

#[test]
fn align_get_returns_the_alignment() {
    assert_eq!(Align::new(1).unwrap().get(), 1);
    assert_eq!(Align::new(64).unwrap().get(), 64);
    let top = 1usize << (usize::BITS - 1);
    assert_eq!(Align::new(top).unwrap().get(), top);
}

#[test]
fn align_up_is_idempotent() {
    for &a in &[1usize, 2, 8, 64, 4096] {
        let align = Align::new(a).unwrap();
        for x in 0usize..300 {
            let y = align.align_up(x).unwrap();
            assert_eq!(align.align_up(y), Some(y));
            assert!(y >= x);
            assert!(y - x < a);
            assert_eq!(y % a, 0);
        }
    }
}

#[test]
fn align_up_largest_alignment() {
    let top = 1usize << (usize::BITS - 1);
    let align = Align::new(top).unwrap();
    assert_eq!(align.align_up(0), Some(0));
    assert_eq!(align.align_up(1), Some(top));
    assert_eq!(align.align_up(top), Some(top));
    assert_eq!(align.align_up(top + 1), None);
}

#[test]
fn align_err_message() {
    let err = Align::new(6).unwrap_err();
    assert_eq!(err.message(), "invalid alignment value");
}
