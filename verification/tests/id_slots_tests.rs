use co3_derive::id_slots::handle_id_arg_slots;

use co3_derive::id_slots::ArgSlot::{Id, Real};

#[test]
fn ids_go_where_they_are_wanted_and_the_rest_fill_in() {
    assert_eq!(handle_id_arg_slots(2, &vec![]), vec![Real(0), Real(1)]);
    assert_eq!(handle_id_arg_slots(2, &vec![0]), vec![Id(0), Real(0), Real(1)]);
    assert_eq!(handle_id_arg_slots(2, &vec![2, 1]), vec![Real(0), Id(1), Id(0), Real(1)]);
}

#[test]
fn ids_wanting_the_same_slot_keep_their_order() {
    assert_eq!(handle_id_arg_slots(1, &vec![0, 0]), vec![Id(0), Id(1), Real(0)]);
}

#[test]
fn an_id_past_the_end_takes_the_last_free_slot_or_an_earlier_one() {
    assert_eq!(handle_id_arg_slots(1, &vec![9]), vec![Real(0), Id(0)]);
    assert_eq!(handle_id_arg_slots(1, &vec![9, 9]), vec![Id(1), Real(0), Id(0)]);
}
