use kdseg::modes::Business;

#[test]
fn info_lines_name_the_modes() {
    assert_eq!(
        Business::Construct.info_line(),
        "[ constructing ] <M> switch to collide mode, <C> to clear or <Q> to exit"
    );
    assert_eq!(
        Business::Collide.info_line(),
        "[ colliding ] <M> switch to neighbours mode, <C> to clear or <Q> to exit"
    );
    assert_eq!(
        Business::Neighbours.info_line(),
        "[ finding neighbours ] <M> switch to construct mode, <C> to clear or <Q> to exit"
    );
}

#[test]
fn modes_cycle() {
    let mut m = Business::Construct;
    m.toggle_mode();
    assert_eq!(m, Business::Collide);
    m.toggle_mode();
    assert_eq!(m, Business::Neighbours);
    m.toggle_mode();
    assert_eq!(m, Business::Construct);
}
