use leaderboard::utils::sorting::SortingOrder;

#[test]
fn ascending_updates_only_on_less() {
    assert_eq!(SortingOrder::Ascending.zadd_mode(), "LT");
}

#[test]
fn descending_updates_only_on_greater() {
    assert_eq!(SortingOrder::Descending.zadd_mode(), "GT");
}

#[test]
fn ranks_run_in_the_direction_of_the_order() {
    assert!(!SortingOrder::Ascending.ranks_reversed());
    assert!(SortingOrder::Descending.ranks_reversed());
}

#[test]
fn orders_are_stored_as_short_codes() {
    let ascending: &str = SortingOrder::Ascending.into();
    let descending: &str = SortingOrder::Descending.into();
    assert_eq!(ascending, "ASC");
    assert_eq!(descending, "DSC");
    assert_eq!(String::from(SortingOrder::Ascending), "ASC");
    assert_eq!(String::from(SortingOrder::Descending), "DSC");
}

#[test]
fn codes_are_read_back_as_orders() {
    assert_eq!(SortingOrder::try_from("ASC"), Ok(SortingOrder::Ascending));
    assert_eq!(SortingOrder::try_from("DSC"), Ok(SortingOrder::Descending));
    assert_eq!(SortingOrder::try_from(String::from("ASC")), Ok(SortingOrder::Ascending));
    assert_eq!(SortingOrder::try_from(String::from("DSC")), Ok(SortingOrder::Descending));
}

#[test]
fn unknown_codes_are_no_orders() {
    for code in ["", "asc", "dsc", "ASC ", " DSC", "Ascending", "Descending", "LT", "none"] {
        assert_eq!(SortingOrder::try_from(code), Err(()));
        assert_eq!(SortingOrder::try_from(String::from(code)), Err(()));
    }
}

#[test]
fn code_round_trip() {
    for order in [SortingOrder::Ascending, SortingOrder::Descending] {
        let code: &str = order.into();
        assert_eq!(SortingOrder::try_from(code), Ok(order));
        assert_eq!(SortingOrder::try_from(String::from(order)), Ok(order));
    }
}
